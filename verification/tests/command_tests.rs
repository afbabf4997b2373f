use gitgud_greedy::commands::{
    AddAccount, AddCategory, AddCompany, AddPayroll, AddTag, AddTransaction, BalanceSummary,
    CmdError, CmdOutcome, GetAccount, GetCategories, GetCompanies, GetId, GetName, GetTags,
    Ledger, ParsePayroll, ParseTransaction, PayrollData, RepeatPayroll, SetAccountBalance,
    SubCommand, Test, TransactionData,
};
use gitgud_greedy::names::NameTable;

fn tag(name: &str) -> AddTag {
    AddTag { name: String::from(name), description: String::new() }
}

fn sample_ledger() -> Ledger {
    let mut db = Ledger::new();
    tag("Food").execute(&mut db).unwrap();
    tag("Travel").execute(&mut db).unwrap();
    AddCompany { name: String::from("Acme"), description: String::new() }
        .execute(&mut db)
        .unwrap();
    AddCategory { name: String::from("Salary"), description: String::new() }
        .execute(&mut db)
        .unwrap();
    db
}

#[test]
fn name_resolution_round_trip() {
    // inserting a tag and resolving its name to an id and back returns the name
    let mut tags = NameTable::new();
    let id = tags.insert("Food", "");
    assert_eq!(tags.get_id("Food"), Some(id));
    assert_eq!(tags.get_name(id), Some(String::from("Food")));
}

#[test]
fn duplicate_names_resolve_to_the_first_id() {
    let mut tags = NameTable::new();
    let first = tags.insert("Food", "first");
    tags.insert("Food", "second");
    assert_eq!(tags.get_id("Food"), Some(first));
    assert_eq!(tags.get_name(first), Some(String::from("Food")));
}

#[test]
fn add_commands_assign_sequential_ids() {
    let mut db = Ledger::new();
    assert_eq!(tag("Food").execute(&mut db), Ok(1));
    assert_eq!(tag("Travel").execute(&mut db), Ok(2));
    assert_eq!(db.tags.len(), 2);
}

#[test]
fn add_transaction_resolves_date_and_tag() {
    let mut db = sample_ledger();
    let cmd = AddTransaction {
        name: String::from("coffee"),
        date: String::from("2024-01-02"),
        amount: 350,
        tag: String::from("Food"),
    };
    assert_eq!(cmd.execute(&mut db), Ok(()));
    assert_eq!(db.transactions.len(), 1);
    assert_eq!(db.transactions[0].date, 20240102);
    assert_eq!(db.transactions[0].tag_id, 1);

    let bad_date = AddTransaction { date: String::from("02-01-2024"), ..cmd.clone() };
    assert_eq!(bad_date.execute(&mut db), Err(CmdError::BadDate));
    let bad_tag = AddTransaction { tag: String::from("Nope"), ..cmd.clone() };
    assert_eq!(bad_tag.execute(&mut db), Err(CmdError::UnknownTag));
    assert_eq!(db.transactions.len(), 1);
}

#[test]
fn add_payroll_resolves_company() {
    let mut db = sample_ledger();
    let cmd = AddPayroll {
        date: String::from("2024-02-01"),
        gross: 300000,
        net: 240000,
        ss: 20000,
        irpf: 40000,
        company: String::from("Acme"),
        category_id: 1,
    };
    assert_eq!(cmd.execute(&mut db), Ok(()));
    assert_eq!(db.payrolls.len(), 1);
    assert_eq!(db.payrolls[0].company_id, 1);

    let bad_company = AddPayroll { company: String::from("Nope"), ..cmd.clone() };
    assert_eq!(bad_company.execute(&mut db), Err(CmdError::UnknownCompany));
}

#[test]
fn get_name_and_get_id_match_tables_case_insensitively() {
    let db = sample_ledger();
    let g = GetName { table: String::from("Tag"), id: 1 };
    assert_eq!(g.execute(&db), Ok(String::from("Food")));
    let g = GetName { table: String::from("COMPANY"), id: 1 };
    assert_eq!(g.execute(&db), Ok(String::from("Acme")));
    let g = GetName { table: String::from("color"), id: 1 };
    assert_eq!(g.execute(&db), Err(CmdError::InvalidTable));
    let g = GetName { table: String::from("tag"), id: 99 };
    assert_eq!(g.execute(&db), Err(CmdError::UnknownId));

    let g = GetId { table: String::from("category"), name: String::from("Salary") };
    assert_eq!(g.execute(&db), Ok(1));
    let g = GetId { table: String::from("tag"), name: String::from("Nope") };
    assert_eq!(g.execute(&db), Err(CmdError::UnknownName));
}

#[test]
fn listings_show_each_row() {
    let db = sample_ledger();
    let text = GetTags.execute(&db);
    assert_eq!(text, "List of tags: \n[1]: Food - \n[2]: Travel - \n\n");
    let companies = GetCompanies.execute(&db);
    assert!(companies.contains("List of companies"));
    assert!(companies.contains("[1]: Acme"));
    let categories = GetCategories.execute(&db);
    assert!(categories.contains("[1]: Salary"));
}

#[test]
fn accounts_listing_and_total() {
    let mut db = Ledger::new();
    let checking = AddAccount {
        name: String::from("checking"),
        amount: 100000,
        description: String::from("daily"),
    };
    assert_eq!(checking.execute(&mut db), Ok(1));
    let savings = AddAccount {
        name: String::from("savings"),
        amount: 50050,
        description: String::new(),
    };
    assert_eq!(savings.execute(&mut db), Ok(2));

    let one = GetAccount { name: String::from("savings") }.execute(&db).unwrap();
    assert_eq!(one, "[2]: savings - (500.50) | \n");
    let all = GetAccount { name: String::from("all") }.execute(&db).unwrap();
    assert_eq!(
        all,
        "[1]: checking - (1000.00) | daily\n[2]: savings - (500.50) | \nTotal: 1500.50\n"
    );
    let missing = GetAccount { name: String::from("nope") }.execute(&db);
    assert_eq!(missing, Err(CmdError::UnknownAccount));
}

#[test]
fn unimplemented_commands_say_so() {
    assert_eq!(
        RepeatPayroll { date: String::from("2024-01-01") }.execute(),
        Err(CmdError::NotImplemented)
    );
    assert_eq!(
        SetAccountBalance { name: String::from("x"), amount: 1 }.execute(),
        Err(CmdError::NotImplemented)
    );
    assert_eq!(
        ParsePayroll { filename: String::from("p.csv") }.execute(),
        Err(CmdError::NotImplemented)
    );
}

#[test]
fn dispatcher_routes_and_labels() {
    let mut db = Ledger::new();
    let cmd = SubCommand::AddTag(tag("Food"));
    assert_eq!(cmd.label(), "AddTag");
    match cmd.execute(&mut db) {
        Ok(CmdOutcome::Inserted(id)) => assert_eq!(id, 1),
        other => panic!("unexpected outcome: {:?}", other),
    }

    let cmd = SubCommand::ParseTransaction(ParseTransaction { filename: String::from("t.csv") });
    assert_eq!(cmd.label(), "ParseTransaction");
    match cmd.execute(&mut db) {
        Ok(CmdOutcome::NeedsFile(f)) => assert_eq!(f, "t.csv"),
        other => panic!("unexpected outcome: {:?}", other),
    }

    let cmd = SubCommand::Test(Test { debug: true });
    assert_eq!(cmd.label(), "Test");
    match cmd.execute(&mut db) {
        Ok(CmdOutcome::Text(s)) => assert_eq!(s, "Test debug info: true"),
        other => panic!("unexpected outcome: {:?}", other),
    }

    let cmd = SubCommand::RepeatPayroll(RepeatPayroll { date: String::from("2024-01-01") });
    assert_eq!(cmd.label(), "RepeatPayroll");
    assert_eq!(
        match cmd.execute(&mut db) {
            Err(e) => e,
            other => panic!("unexpected outcome: {:?}", other),
        },
        CmdError::NotImplemented
    );

    let cmd = SubCommand::GetName(GetName { table: String::from("tag"), id: 7 });
    assert_eq!(cmd.label(), "Debug-GetName");
}

#[test]
fn import_command_appends_good_rows() {
    let mut db = sample_ledger();
    let data = b"amount,date,name,tag\n10,2024/01/02,coffee,Food\nabc,2024/01/03,tea,Food\n";
    let cmd = ParseTransaction { filename: String::from("t.csv") };
    let report = cmd.execute(data, &mut db).unwrap();
    assert_eq!(report.transactions.len(), 1);
    assert_eq!(report.errors.len(), 1);
    assert_eq!(db.transactions.len(), 1);
    assert_eq!(db.transactions[0].name, "coffee");
}

#[test]
fn error_messages_are_short_diagnostics() {
    assert_eq!(CmdError::BadDate.message(), "could not parse date");
    assert_eq!(CmdError::NotImplemented.message(), "not implemented");
    assert_eq!(CmdError::InvalidTable.message(), "invalid table");
}

#[test]
fn report_commands_render_filtered_rows() {
    let mut db = sample_ledger();
    for (date, amount, tagname) in [
        ("2024-01-02", 1000, "Food"),
        ("2024-01-03", 2000, "Food"),
        ("2024-01-04", 500, "Travel"),
        ("2023-06-01", 9999, "Food"),
    ] {
        AddTransaction {
            name: String::from("row"),
            date: String::from(date),
            amount,
            tag: String::from(tagname),
        }
        .execute(&mut db)
        .unwrap();
    }
    let text = TransactionData { year: Some(2024), month: None }.execute(&db);
    assert!(text.contains("Summary:"));
    assert!(text.contains("35.00"), "grand total missing: {}", text);
    assert!(text.contains("30.00"), "tag total missing: {}", text);
    assert!(text.contains("15.00"), "tag average missing: {}", text);
    assert!(text.contains("Food"));
    assert!(!text.contains("99.99"), "filtered-out row rendered: {}", text);

    AddPayroll {
        date: String::from("2024-01-31"),
        gross: 300000,
        net: 240000,
        ss: 20000,
        irpf: 40000,
        company: String::from("Acme"),
        category_id: 1,
    }
    .execute(&mut db)
    .unwrap();
    let text = PayrollData { year: Some(2024), month: Some(1), list: true }.execute(&db);
    assert!(text.contains("3000.00"), "gross total missing: {}", text);
    assert!(text.contains("Acme"));
    assert!(text.contains("Salary"));

    let text = BalanceSummary { year: Some(2024), month: None }.execute(&db);
    assert!(text.contains("Balance:"));
    // income 2400.00 minus expenses 35.00
    assert!(text.contains("2365.00"), "balance missing: {}", text);
}

#[test]
fn unresolved_ids_render_as_unknown() {
    let mut db = sample_ledger();
    AddPayroll {
        date: String::from("2024-01-31"),
        gross: 100,
        net: 80,
        ss: 10,
        irpf: 10,
        company: String::from("Acme"),
        category_id: 42,
    }
    .execute(&mut db)
    .unwrap();
    let text = PayrollData { year: None, month: None, list: true }.execute(&db);
    assert!(text.contains("Unknown"), "missing fallback: {}", text);
}
