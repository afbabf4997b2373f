use gitgud_greedy::import::{
    parse_transactions, ImportError, ImportIssue, ImportIssueKind, TransRow,
};
use gitgud_greedy::names::NameTable;

fn food_table() -> NameTable {
    let mut tags = NameTable::new();
    tags.insert("Food", "meals and groceries");
    tags
}

fn issue(kind: ImportIssueKind, value: &str) -> ImportIssue {
    ImportIssue { kind, value: String::from(value) }
}

#[test]
fn three_records_one_bad_amount() {
    // a 3-row file with one malformed amount imports exactly 2 transactions
    // and reports exactly 1 error carrying the bad row's index and text
    let tags = food_table();
    let data = b"amount,date,name,tag\n\
                 10,2024/01/02,coffee,Food\n\
                 abc,2024/01/03,tea,Food\n\
                 20,2024/01/04,bread,Food\n";
    let report = parse_transactions(data, &tags);
    assert_eq!(report.transactions.len(), 2);
    assert_eq!(
        report.errors,
        vec![ImportError { line: 1, issue: issue(ImportIssueKind::BadAmount, "abc") }]
    );
    assert_eq!(report.transactions[0].name, "coffee");
    assert_eq!(report.transactions[0].amount, 1000);
    assert_eq!(report.transactions[0].date, 20240102);
    assert_eq!(report.transactions[0].tag_id, 1);
    assert_eq!(report.transactions[1].name, "bread");
    assert_eq!(report.transactions[1].amount, 2000);
}

#[test]
fn decimal_comma_amounts_are_quoted_in_the_file() {
    let tags = food_table();
    let data = b"amount,date,name,tag\n\"12,34\",2024/01/02,lunch,Food\n";
    let report = parse_transactions(data, &tags);
    assert_eq!(report.errors, Vec::new());
    assert_eq!(report.transactions.len(), 1);
    assert_eq!(report.transactions[0].amount, 1234);
}

#[test]
fn unknown_tag_is_reported_and_skipped() {
    let tags = food_table();
    let data = b"amount,date,name,tag\n5,2024/01/02,cinema,Leisure\n";
    let report = parse_transactions(data, &tags);
    assert_eq!(report.transactions.len(), 0);
    assert_eq!(
        report.errors,
        vec![ImportError { line: 0, issue: issue(ImportIssueKind::UnknownTag, "Leisure") }]
    );
}

#[test]
fn bad_date_is_reported_and_skipped() {
    let tags = food_table();
    let data = b"amount,date,name,tag\n5,2024/1/2,cinema,Food\n";
    let report = parse_transactions(data, &tags);
    assert_eq!(report.transactions.len(), 0);
    assert_eq!(
        report.errors,
        vec![ImportError { line: 0, issue: issue(ImportIssueKind::BadDate, "2024/1/2") }]
    );
}

#[test]
fn every_bad_field_of_a_row_is_reported_with_its_text() {
    let tags = food_table();
    let data = b"amount,date,name,tag\nabc,2024-1-2,cinema,Leisure\n";
    let report = parse_transactions(data, &tags);
    assert_eq!(report.transactions.len(), 0);
    assert_eq!(
        report.errors,
        vec![
            ImportError { line: 0, issue: issue(ImportIssueKind::BadAmount, "abc") },
            ImportError { line: 0, issue: issue(ImportIssueKind::UnknownTag, "Leisure") },
            ImportError { line: 0, issue: issue(ImportIssueKind::BadDate, "2024-1-2") },
        ]
    );
}

#[test]
fn short_record_is_malformed_and_reports_its_field_count() {
    let tags = food_table();
    // the reader rejects a record with the wrong field count, so it stands
    // as an empty row: zero fields
    let data = b"amount,date,name,tag\n10,2024/01/02,coffee,Food\n10,2024/01/02\n";
    let report = parse_transactions(data, &tags);
    assert_eq!(report.transactions.len(), 1);
    assert_eq!(
        report.errors,
        vec![ImportError { line: 1, issue: issue(ImportIssueKind::MalformedRecord, "0") }]
    );
}

#[test]
fn trans_row_to_transaction() {
    let tags = food_table();
    let row = TransRow {
        amount: String::from("7,50"),
        date: String::from("2023/11/05"),
        name: String::from("pizza"),
        tag: String::from("Food"),
    };
    let t = row.to_transaction(&tags).unwrap();
    assert_eq!(t.amount, 750);
    assert_eq!(t.date, 20231105);
    assert_eq!(t.name, "pizza");
    assert_eq!(t.tag_id, 1);

    let empty = TransRow::new();
    let errs = empty.to_transaction(&tags).unwrap_err();
    assert_eq!(
        errs,
        vec![
            issue(ImportIssueKind::BadAmount, ""),
            issue(ImportIssueKind::UnknownTag, ""),
            issue(ImportIssueKind::BadDate, ""),
        ]
    );
}

#[test]
fn issue_messages_name_the_fault() {
    assert_eq!(issue(ImportIssueKind::BadAmount, "abc").message(), "error parsing amount");
    assert_eq!(issue(ImportIssueKind::UnknownTag, "x").message(), "error getting tag id");
    assert_eq!(issue(ImportIssueKind::BadDate, "x").message(), "error parsing date");
    assert_eq!(
        issue(ImportIssueKind::MalformedRecord, "2").message(),
        "record does not have 4 fields"
    );
}
