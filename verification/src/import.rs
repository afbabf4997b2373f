//! Bulk CSV import of transactions. The file format is a header line and
//! four columns `amount,date,name,tag`; amounts may use a decimal comma and
//! dates may use slashes, both normalized here. A bad row is reported with
//! its row index and the offending field's text, then skipped: one bad row
//! never aborts the batch.

use vstd::prelude::*;
use crate::aggregate::MAX_AMOUNT_CENTS;
use crate::amount::{amount_cents, dec_digits, format_u64, parse_amount, replace_char, replaced, valid_amount};
use crate::dates::{code_date, date_code_of, valid_date};
use crate::models::{Name, Transaction};
use crate::names::{NameTable, name_index, table_has_name, table_wf};

verus! {

/// Which fault a CSV row was rejected for.
#[derive(Clone, Copy, Debug, PartialEq, Eq, Structural)]
pub enum ImportIssueKind {
    /// The row does not have the four expected fields.
    MalformedRecord,
    /// The amount field is not a decimal number the ledger can hold.
    BadAmount,
    /// The tag name resolves to no known tag.
    UnknownTag,
    /// The date field is not a well-formed calendar day.
    BadDate,
}

/// Why one CSV row was rejected: the kind of fault and the offending text —
/// the field as it stood in the file, or, for a malformed record, its field
/// count.
#[derive(Debug, PartialEq, Eq)]
pub struct ImportIssue {
    pub kind: ImportIssueKind,
    pub value: String,
}

/// The issue's image over plain values, the form the contracts speak of.
pub struct IssueView {
    pub kind: ImportIssueKind,
    pub value: Seq<char>,
}

impl View for ImportIssue {
    type V = IssueView;

    open spec fn view(&self) -> IssueView {
        IssueView { kind: self.kind, value: self.value@ }
    }
}

impl Clone for ImportIssue {
    fn clone(&self) -> (r: Self)
        ensures
            r == *self,
    {
        ImportIssue { kind: self.kind, value: self.value.clone() }
    }
}

impl ImportIssue {
    /// A short description of the fault for the end-of-run error report; the
    /// offending text stands beside it in `value`.
    pub fn message(&self) -> (r: &'static str)
        ensures
            self.kind is MalformedRecord ==> r@ == "record does not have 4 fields"@,
            self.kind is BadAmount ==> r@ == "error parsing amount"@,
            self.kind is UnknownTag ==> r@ == "error getting tag id"@,
            self.kind is BadDate ==> r@ == "error parsing date"@,
    {
        match self.kind {
            ImportIssueKind::MalformedRecord => "record does not have 4 fields",
            ImportIssueKind::BadAmount => "error parsing amount",
            ImportIssueKind::UnknownTag => "error getting tag id",
            ImportIssueKind::BadDate => "error parsing date",
        }
    }
}

/// One import failure: the data row it happened on (0 for the first data
/// row) and what was wrong, offending text included.
#[derive(Debug, PartialEq, Eq)]
pub struct ImportError {
    pub line: usize,
    pub issue: ImportIssue,
}

/// The error's image over plain values, the form the contracts speak of.
pub struct ErrorView {
    pub line: int,
    pub issue: IssueView,
}

impl View for ImportError {
    type V = ErrorView;

    open spec fn view(&self) -> ErrorView {
        ErrorView { line: self.line as int, issue: self.issue@ }
    }
}

/// The issues of a list, each as its image.
pub open spec fn issues_view(s: Seq<ImportIssue>) -> Seq<IssueView> {
    s.map_values(|iss: ImportIssue| iss@)
}

/// The errors of a list, each as its image.
pub open spec fn errors_view(s: Seq<ImportError>) -> Seq<ErrorView> {
    s.map_values(|e: ImportError| e@)
}

/// One raw CSV data row, fields still unparsed.
#[derive(Debug, Clone)]
pub struct TransRow {
    pub amount: String,
    pub date: String,
    pub name: String,
    pub tag: String,
}

/// The amount field, after comma normalization, is a well-formed decimal the
/// ledger can hold.
pub open spec fn amount_src_ok(a: Seq<char>) -> bool {
    &&& valid_amount(replaced(a, ',', '.'))
    &&& -MAX_AMOUNT_CENTS <= amount_cents(replaced(a, ',', '.')) <= MAX_AMOUNT_CENTS
}

/// The cents the amount field carries.
pub open spec fn amount_src_cents(a: Seq<char>) -> int {
    amount_cents(replaced(a, ',', '.'))
}

/// The date field, after slash normalization, is a well-formed day.
pub open spec fn date_src_ok(d: Seq<char>) -> bool {
    valid_date(replaced(d, '/', '-'))
}

/// The coded day the date field carries.
pub open spec fn date_src_code(d: Seq<char>) -> int {
    date_code_of(replaced(d, '/', '-'))
}

/// The issues a row with these three fields collects, in the order they are
/// checked — amount, tag, date — each carrying the offending field's text.
pub open spec fn field_issues(
    amount: Seq<char>,
    tag: Seq<char>,
    date: Seq<char>,
    tags: Seq<Name>,
) -> Seq<IssueView> {
    (if amount_src_ok(amount) {
        Seq::<IssueView>::empty()
    } else {
        seq![IssueView { kind: ImportIssueKind::BadAmount, value: amount }]
    }) + (if table_has_name(tags, tag) {
        Seq::<IssueView>::empty()
    } else {
        seq![IssueView { kind: ImportIssueKind::UnknownTag, value: tag }]
    }) + (if date_src_ok(date) {
        Seq::<IssueView>::empty()
    } else {
        seq![IssueView { kind: ImportIssueKind::BadDate, value: date }]
    })
}

impl TransRow {
    /// An empty row.
    pub fn new() -> (r: TransRow)
        ensures
            r.amount@ == Seq::<char>::empty(),
            r.date@ == Seq::<char>::empty(),
            r.name@ == Seq::<char>::empty(),
            r.tag@ == Seq::<char>::empty(),
    {
        TransRow { amount: String::new(), date: String::new(), name: String::new(), tag: String::new() }
    }

    /// Turn the raw fields into a transaction: normalize and parse the
    /// amount, resolve the tag name, normalize and code the date. Fails with
    /// one issue per bad field, each naming the offending text, never with
    /// only part of what is wrong.
    pub fn to_transaction(&self, tags: &NameTable) -> (r: Result<Transaction, Vec<ImportIssue>>)
        ensures
            r is Ok <==> amount_src_ok(self.amount@) && table_has_name(tags.rows@, self.tag@)
                && date_src_ok(self.date@),
            r matches Ok(t) ==> {
                &&& t._id == 0
                &&& t.name@ == self.name@
                &&& t.amount == amount_src_cents(self.amount@)
                &&& t.date == date_src_code(self.date@)
                &&& t.tag_id == tags.rows@[name_index(tags.rows@, self.tag@)].id
            },
            r matches Err(e) ==> issues_view(e@) == field_issues(
                self.amount@,
                self.tag@,
                self.date@,
                tags.rows@,
            ),
    {
        let norm_amount = replace_char(self.amount.as_str(), ',', '.');
        let amount = parse_amount(norm_amount.as_str());
        let tag_id = tags.get_id(self.tag.as_str());
        let norm_date = replace_char(self.date.as_str(), '/', '-');
        let date = code_date(norm_date.as_str());
        match (amount, tag_id, date) {
            (Some(cents), Some(tag), Some(code)) => Ok(
                Transaction { _id: 0, name: self.name.clone(), date: code, amount: cents, tag_id: tag },
            ),
            _ => {
                let mut issues: Vec<ImportIssue> = Vec::new();
                if amount.is_none() {
                    issues.push(
                        ImportIssue { kind: ImportIssueKind::BadAmount, value: self.amount.clone() },
                    );
                }
                if tag_id.is_none() {
                    issues.push(
                        ImportIssue { kind: ImportIssueKind::UnknownTag, value: self.tag.clone() },
                    );
                }
                if date.is_none() {
                    issues.push(
                        ImportIssue { kind: ImportIssueKind::BadDate, value: self.date.clone() },
                    );
                }
                proof {
                    assert(issues_view(issues@) =~= field_issues(
                        self.amount@,
                        self.tag@,
                        self.date@,
                        tags.rows@,
                    ));
                }
                Err(issues)
            },
        }
    }
}

/// A raw record, as sequences of characters, is importable: four fields with
/// a good amount, a known tag and a good date.
pub open spec fn rec_ok(rec: Seq<Seq<char>>, tags: Seq<Name>) -> bool {
    &&& rec.len() == 4
    &&& amount_src_ok(rec[0])
    &&& table_has_name(tags, rec[3])
    &&& date_src_ok(rec[1])
}

/// The issues one raw record collects: its field count when it is not a
/// four-field row, else one issue per bad field.
pub open spec fn rec_issues(rec: Seq<Seq<char>>, tags: Seq<Name>) -> Seq<IssueView> {
    if rec.len() != 4 {
        seq![
            IssueView {
                kind: ImportIssueKind::MalformedRecord,
                value: dec_digits(rec.len() as nat),
            },
        ]
    } else {
        field_issues(rec[0], rec[3], rec[1], tags)
    }
}

/// The transaction a good record denotes, field by field.
pub open spec fn tx_matches_rec(t: Transaction, rec: Seq<Seq<char>>, tags: Seq<Name>) -> bool {
    &&& t._id == 0
    &&& t.name@ == rec[2]
    &&& t.amount == amount_src_cents(rec[0])
    &&& t.date == date_src_code(rec[1])
    &&& t.tag_id == tags[name_index(tags, rec[3])].id
}

/// The errors a record list produces: for each bad record, its issues tagged
/// with its row index.
pub open spec fn spec_errors(recs: Seq<Seq<Seq<char>>>, tags: Seq<Name>) -> Seq<ErrorView>
    decreases recs.len(),
{
    if recs.len() == 0 {
        Seq::empty()
    } else {
        spec_errors(recs.drop_last(), tags) + rec_issues(recs.last(), tags).map_values(
            |iss: IssueView| ErrorView { line: recs.len() - 1, issue: iss },
        )
    }
}

/// The records that import cleanly, in file order.
pub open spec fn good_records(recs: Seq<Seq<Seq<char>>>, tags: Seq<Name>) -> Seq<Seq<Seq<char>>> {
    recs.filter(|rec: Seq<Seq<char>>| rec_ok(rec, tags))
}

/// What a bulk import produced: the transactions of the good rows, in file
/// order, and one error per issue of each bad row, with its row index and
/// the offending text.
#[derive(Debug)]
pub struct ImportReport {
    pub transactions: Vec<Transaction>,
    pub errors: Vec<ImportError>,
}

/// Import a list of raw records: each good record becomes a transaction, each
/// bad one contributes its errors, and no bad record stops the batch.
#[verifier::loop_isolation(false)]
pub fn import_transactions(records: &Vec<Vec<String>>, tags: &NameTable) -> (r: ImportReport)
    requires
        table_wf(tags.rows@),
    ensures
        ({
            let recs = records.deep_view();
            &&& r.transactions@.len() == good_records(recs, tags.rows@).len()
            &&& forall|i: int|
                0 <= i < r.transactions@.len() ==> tx_matches_rec(
                    #[trigger] r.transactions@[i],
                    good_records(recs, tags.rows@)[i],
                    tags.rows@,
                )
            &&& errors_view(r.errors@) == spec_errors(recs, tags.rows@)
        }),
{
    let ghost recs = records.deep_view();
    let ghost pred = |rec: Seq<Seq<char>>| rec_ok(rec, tags.rows@);
    let mut transactions: Vec<Transaction> = Vec::new();
    let mut errors: Vec<ImportError> = Vec::new();
    let n = records.len();
    proof {
        reveal(Seq::filter);
    }
    for i in 0..n
        invariant
            n == recs.len() == records@.len(),
            recs == records.deep_view(),
            transactions@.len() == recs.take(i as int).filter(pred).len(),
            forall|m: int|
                0 <= m < transactions@.len() ==> tx_matches_rec(
                    #[trigger] transactions@[m],
                    recs.take(i as int).filter(pred)[m],
                    tags.rows@,
                ),
            errors_view(errors@) == spec_errors(recs.take(i as int), tags.rows@),
    {
        proof {
            reveal(Seq::filter);
            assert(recs.take(i + 1).drop_last() =~= recs.take(i as int));
            assert(recs.take(i + 1).last() == recs[i as int]);
            assert(recs[i as int] == records@[i as int].deep_view());
        }
        let rec = &records[i];
        if rec.len() != 4 {
            errors.push(
                ImportError {
                    line: i,
                    issue: ImportIssue {
                        kind: ImportIssueKind::MalformedRecord,
                        value: format_u64(rec.len() as u64),
                    },
                },
            );
            proof {
                assert(rec_issues(recs[i as int], tags.rows@) =~= seq![
                    IssueView {
                        kind: ImportIssueKind::MalformedRecord,
                        value: dec_digits(recs[i as int].len() as nat),
                    },
                ]);
                assert(errors_view(errors@) =~= spec_errors(recs.take(i + 1), tags.rows@));
                assert(!pred(recs[i as int]));
            }
        } else {
            let row = TransRow {
                amount: rec[0].clone(),
                date: rec[1].clone(),
                name: rec[2].clone(),
                tag: rec[3].clone(),
            };
            proof {
                assert(row.amount@ == recs[i as int][0]);
                assert(row.date@ == recs[i as int][1]);
                assert(row.name@ == recs[i as int][2]);
                assert(row.tag@ == recs[i as int][3]);
            }
            match row.to_transaction(tags) {
                Ok(t) => {
                    transactions.push(t);
                    proof {
                        assert(pred(recs[i as int]));
                        assert(recs.take(i + 1).filter(pred) =~= recs.take(i as int).filter(
                            pred,
                        ).push(recs[i as int]));
                        assert(rec_issues(recs[i as int], tags.rows@) =~= Seq::<
                            IssueView,
                        >::empty());
                        assert(errors_view(errors@) =~= spec_errors(recs.take(i + 1), tags.rows@));
                    }
                },
                Err(issues) => {
                    proof {
                        assert(!pred(recs[i as int]));
                        assert(recs.take(i + 1).filter(pred) =~= recs.take(i as int).filter(pred));
                    }
                    let ni = issues.len();
                    let ghost base = errors@;
                    let ghost all_issues = issues@;
                    let mut j: usize = 0;
                    while j < ni
                        invariant
                            j <= ni == all_issues.len(),
                            issues@ == all_issues,
                            errors@.len() == base.len() + j,
                            errors_view(errors@) == errors_view(base) + issues_view(
                                all_issues.take(j as int),
                            ).map_values(|iss: IssueView| ErrorView { line: i as int, issue: iss }),
                        decreases ni - j,
                    {
                        let ghost prev = errors@;
                        errors.push(ImportError { line: i, issue: issues[j].clone() });
                        proof {
                            let rhs = errors_view(base) + issues_view(
                                all_issues.take(j + 1),
                            ).map_values(|iss: IssueView| ErrorView { line: i as int, issue: iss });
                            assert forall|m: int| 0 <= m < errors@.len() implies #[trigger] errors_view(
                                errors@,
                            )[m] == rhs[m] by {
                                if m < prev.len() {
                                    assert(errors@[m] == prev[m]);
                                    assert(errors_view(prev)[m] == prev[m]@);
                                } else {
                                    assert(errors@[m] == ImportError {
                                        line: i,
                                        issue: all_issues[j as int],
                                    });
                                    assert(all_issues.take(j + 1)[j as int] == all_issues[j as int]);
                                }
                            }
                            assert(errors_view(errors@) =~= rhs);
                        }
                        j += 1;
                    }
                    proof {
                        assert(all_issues.take(ni as int) =~= all_issues);
                        assert(issues_view(all_issues) == rec_issues(recs[i as int], tags.rows@));
                        assert(errors_view(errors@) =~= spec_errors(recs.take(i + 1), tags.rows@));
                    }
                },
            }
        }
    }
    proof {
        assert(recs.take(n as int) =~= recs);
    }
    ImportReport { transactions, errors }
}

/// What the CSV reader finds in a byte buffer: the data records after the
/// header line, each a list of fields. A record the reader cannot decode
/// stands as an empty row, which the import then reports as malformed.
pub uninterp spec fn csv_records_of(data: Seq<u8>) -> Seq<Seq<Seq<char>>>;

/// Relies on csv::Reader: splits the buffer into records at commas, honoring
/// quotes, and skips the header line. The records depend on the bytes alone.
#[verifier::external_body]
fn csv_parse(data: &[u8]) -> (r: Vec<Vec<String>>)
    ensures
        r.deep_view() == csv_records_of(data@),
{
    let mut rdr = csv::Reader::from_reader(data);
    rdr.records()
        .map(
            |res| match res {
                Ok(rec) => rec.iter().map(String::from).collect(),
                Err(_) => Vec::new(),
            },
        )
        .collect()
}

/// Bulk-import transactions from the bytes of a CSV file: parse the records
/// after the header line, then import them row by row, reporting each bad
/// row without aborting the batch.
pub fn parse_transactions(data: &[u8], tags: &NameTable) -> (r: ImportReport)
    requires
        table_wf(tags.rows@),
    ensures
        ({
            let recs = csv_records_of(data@);
            &&& r.transactions@.len() == good_records(recs, tags.rows@).len()
            &&& forall|i: int|
                0 <= i < r.transactions@.len() ==> tx_matches_rec(
                    #[trigger] r.transactions@[i],
                    good_records(recs, tags.rows@)[i],
                    tags.rows@,
                )
            &&& errors_view(r.errors@) == spec_errors(recs, tags.rows@)
        }),
{
    let records = csv_parse(data);
    import_transactions(&records, tags)
}

} // verus!
