//! The report view models: the transaction report (grand total, average and
//! per-tag buckets), the payroll report (component totals, averages and
//! per-company / per-category buckets) and the balance summary, each with a
//! deterministic tabular rendering. Bucket rows are sorted by key so the
//! output is stable whatever order the store returned the rows in.

use vstd::prelude::*;
use crate::aggregate::{
    Bucket, KeyedAmount, aggregate_pairs, amounts_bounded, average_cents, buckets_count,
    buckets_match, buckets_sorted, buckets_sum, div_toward_zero, total, total_of,
    MAX_AMOUNT_CENTS, MAX_GROUP_ROWS,
};
use crate::models::{
    Name, Payroll, Transaction, payrolls_bounded, transaction_bounded, payroll_bounded,
    transactions_bounded,
};
use crate::names::{NameTable, spec_name_of, table_wf};
use crate::amount::{cents_digits, dec_digits, format_cents, format_id, format_int, format_u64, id_digits, int_digits};
use crate::dates::date_string_of;

verus! {

/// Each transaction reduced to its grouping key (the tag) and its amount.
pub open spec fn transaction_pairs(s: Seq<Transaction>) -> Seq<KeyedAmount> {
    s.map_values(|t: Transaction| KeyedAmount { key: t.tag_id, amount: t.amount })
}

/// Each payroll reduced to its company key and its gross amount.
pub open spec fn payroll_company_pairs(s: Seq<Payroll>) -> Seq<KeyedAmount> {
    s.map_values(|p: Payroll| KeyedAmount { key: p.company_id, amount: p.gross })
}

/// Each payroll reduced to its category key and its gross amount.
pub open spec fn payroll_category_pairs(s: Seq<Payroll>) -> Seq<KeyedAmount> {
    s.map_values(|p: Payroll| KeyedAmount { key: p.category_id, amount: p.gross })
}

/// Each payroll reduced to one of its four monetary components.
pub open spec fn payroll_component_pairs(s: Seq<Payroll>, comp: PayComponent) -> Seq<KeyedAmount> {
    s.map_values(|p: Payroll| KeyedAmount { key: p.company_id, amount: component_of(p, comp) })
}

/// One of the four monetary components of a payroll.
#[derive(Clone, Copy, Debug, PartialEq, Eq, Structural)]
pub enum PayComponent {
    Gross,
    Net,
    Ss,
    Irpf,
}

/// The chosen component's amount.
pub open spec fn component_of(p: Payroll, comp: PayComponent) -> i64 {
    match comp {
        PayComponent::Gross => p.gross,
        PayComponent::Net => p.net,
        PayComponent::Ss => p.ss,
        PayComponent::Irpf => p.irpf,
    }
}

/// Build the tag/amount pairs of a transaction list.
#[verifier::loop_isolation(false)]
fn build_transaction_pairs(rows: &Vec<Transaction>) -> (r: Vec<KeyedAmount>)
    ensures
        r@ == transaction_pairs(rows@),
{
    let mut out: Vec<KeyedAmount> = Vec::new();
    let n = rows.len();
    for i in 0..n
        invariant
            out@ == transaction_pairs(rows@.take(i as int)),
    {
        out.push(KeyedAmount { key: rows[i].tag_id, amount: rows[i].amount });
        proof {
            assert(transaction_pairs(rows@.take(i + 1)) =~= transaction_pairs(
                rows@.take(i as int),
            ).push(KeyedAmount { key: rows@[i as int].tag_id, amount: rows@[i as int].amount }));
        }
    }
    proof {
        assert(rows@.take(n as int) =~= rows@);
    }
    out
}

/// Build the pairs of a payroll list: the chosen component's amount, keyed by
/// company or, when `by_category` is set, by category.
#[verifier::loop_isolation(false)]
fn build_payroll_pairs(rows: &Vec<Payroll>, by_category: bool, comp: PayComponent) -> (r: Vec<
    KeyedAmount>)
    requires
        by_category ==> comp == PayComponent::Gross,
    ensures
        !by_category ==> r@ == payroll_component_pairs(rows@, comp),
        by_category ==> r@ == payroll_category_pairs(rows@),
        !by_category && comp == PayComponent::Gross ==> r@ == payroll_company_pairs(rows@),
{
    let mut out: Vec<KeyedAmount> = Vec::new();
    let n = rows.len();
    for i in 0..n
        invariant
            !by_category ==> out@ == payroll_component_pairs(rows@.take(i as int), comp),
            by_category ==> out@ == payroll_category_pairs(rows@.take(i as int)),
    {
        let key = if by_category {
            rows[i].category_id
        } else {
            rows[i].company_id
        };
        let amount = match comp {
            PayComponent::Gross => rows[i].gross,
            PayComponent::Net => rows[i].net,
            PayComponent::Ss => rows[i].ss,
            PayComponent::Irpf => rows[i].irpf,
        };
        out.push(KeyedAmount { key, amount });
        proof {
            if by_category {
                assert(payroll_category_pairs(rows@.take(i + 1)) =~= payroll_category_pairs(
                    rows@.take(i as int),
                ).push(
                    KeyedAmount {
                        key: rows@[i as int].category_id,
                        amount: rows@[i as int].gross,
                    },
                ));
            } else {
                assert(payroll_component_pairs(rows@.take(i + 1), comp)
                    =~= payroll_component_pairs(rows@.take(i as int), comp).push(
                    KeyedAmount {
                        key: rows@[i as int].company_id,
                        amount: component_of(rows@[i as int], comp),
                    },
                ));
            }
        }
    }
    proof {
        assert(rows@.take(n as int) =~= rows@);
        if !by_category && comp == PayComponent::Gross {
            assert(payroll_component_pairs(rows@, comp) =~= payroll_company_pairs(rows@));
        }
    }
    out
}

/// The transaction report data: the row count, the grand total and the
/// per-tag buckets, sorted by tag id.
pub struct TransactionDataVm {
    pub count: usize,
    pub total_amount: i64,
    pub tags_info: Vec<Bucket>,
}

/// The view model carries exactly the statistics of the given rows: the row
/// count, the grand total over all amounts, and per-tag buckets that are
/// sorted, partition the total and partition the row count.
pub open spec fn tvm_ok(vm: TransactionDataVm, rows: Seq<Transaction>) -> bool {
    &&& vm.count == rows.len()
    &&& vm.total_amount == total_of(transaction_pairs(rows))
    &&& buckets_sorted(vm.tags_info@)
    &&& buckets_match(transaction_pairs(rows), vm.tags_info@)
    &&& buckets_sum(vm.tags_info@) == vm.total_amount
    &&& buckets_count(vm.tags_info@) == vm.count
}

impl TransactionDataVm {
    /// Aggregate a transaction list into the report data.
    pub fn generate(from: &Vec<Transaction>) -> (r: TransactionDataVm)
        requires
            transactions_bounded(from@),
        ensures
            tvm_ok(r, from@),
    {
        let pairs = build_transaction_pairs(from);
        proof {
            assert forall|i: int| 0 <= i < pairs@.len() implies -MAX_AMOUNT_CENTS
                <= #[trigger] pairs@[i].amount <= MAX_AMOUNT_CENTS by {
                assert(transaction_bounded(from@[i]));
            }
        }
        let total_amount = total(&pairs);
        let tags_info = aggregate_pairs(&pairs);
        TransactionDataVm { count: from.len(), total_amount, tags_info }
    }

    /// The grand total over all rows.
    pub fn total(&self) -> (r: i64)
        ensures
            r == self.total_amount,
    {
        self.total_amount
    }

    /// The average amount per row, rounded toward zero; `None` when the
    /// report covers no rows.
    pub fn amount_avg(&self) -> (r: Option<i64>)
        ensures
            self.count == 0 ==> r is None,
            self.count > 0 ==> r == Some(
                div_toward_zero(self.total_amount as int, self.count as int) as i64,
            ),
    {
        average_cents(self.total_amount, self.count)
    }
}

/// The payroll report data: the row count, the four component totals and the
/// per-company and per-category buckets of the gross amounts, each sorted by
/// id.
pub struct PayrollDataVm {
    pub count: usize,
    pub gross_total: i64,
    pub net_total: i64,
    pub ss_total: i64,
    pub irpf_total: i64,
    pub companies_info: Vec<Bucket>,
    pub categories_info: Vec<Bucket>,
}

/// The view model carries exactly the statistics of the given rows: the four
/// component totals and per-company and per-category buckets of the gross
/// amounts, each sorted and partitioning its total and the row count.
pub open spec fn pvm_ok(vm: PayrollDataVm, rows: Seq<Payroll>) -> bool {
    &&& vm.count == rows.len()
    &&& vm.gross_total == total_of(payroll_company_pairs(rows))
    &&& vm.net_total == total_of(payroll_component_pairs(rows, PayComponent::Net))
    &&& vm.ss_total == total_of(payroll_component_pairs(rows, PayComponent::Ss))
    &&& vm.irpf_total == total_of(payroll_component_pairs(rows, PayComponent::Irpf))
    &&& buckets_sorted(vm.companies_info@)
    &&& buckets_match(payroll_company_pairs(rows), vm.companies_info@)
    &&& buckets_sum(vm.companies_info@) == vm.gross_total
    &&& buckets_count(vm.companies_info@) == vm.count
    &&& buckets_sorted(vm.categories_info@)
    &&& buckets_match(payroll_category_pairs(rows), vm.categories_info@)
    &&& buckets_sum(vm.categories_info@) == total_of(payroll_category_pairs(rows))
    &&& buckets_count(vm.categories_info@) == vm.count
}

impl PayrollDataVm {
    /// Aggregate a payroll list into the report data: totals for all four
    /// components, and gross amounts grouped by company and by category, two
    /// independent aggregations over the same row set.
    pub fn generate(from: &Vec<Payroll>) -> (r: PayrollDataVm)
        requires
            payrolls_bounded(from@),
        ensures
            pvm_ok(r, from@),
    {
        let company_pairs = build_payroll_pairs(from, false, PayComponent::Gross);
        let net_pairs = build_payroll_pairs(from, false, PayComponent::Net);
        let ss_pairs = build_payroll_pairs(from, false, PayComponent::Ss);
        let irpf_pairs = build_payroll_pairs(from, false, PayComponent::Irpf);
        let category_pairs = build_payroll_pairs(from, true, PayComponent::Gross);
        proof {
            lemma_payroll_pairs_bounded(from@, company_pairs@);
            lemma_payroll_pairs_bounded(from@, net_pairs@);
            lemma_payroll_pairs_bounded(from@, ss_pairs@);
            lemma_payroll_pairs_bounded(from@, irpf_pairs@);
            lemma_payroll_pairs_bounded(from@, category_pairs@);
        }
        let gross_total = total(&company_pairs);
        let net_total = total(&net_pairs);
        let ss_total = total(&ss_pairs);
        let irpf_total = total(&irpf_pairs);
        let companies_info = aggregate_pairs(&company_pairs);
        let categories_info = aggregate_pairs(&category_pairs);
        PayrollDataVm {
            count: from.len(),
            gross_total,
            net_total,
            ss_total,
            irpf_total,
            companies_info,
            categories_info,
        }
    }

    /// The total net income, which the balance summary offsets the expenses
    /// against.
    pub fn get_net(&self) -> (r: i64)
        ensures
            r == self.net_total,
    {
        self.net_total
    }

    /// Average gross per payroll, rounded toward zero; `None` for no rows.
    pub fn gross_avg(&self) -> (r: Option<i64>)
        ensures
            self.count == 0 ==> r is None,
            self.count > 0 ==> r == Some(
                div_toward_zero(self.gross_total as int, self.count as int) as i64,
            ),
    {
        average_cents(self.gross_total, self.count)
    }

    /// Average net per payroll, rounded toward zero; `None` for no rows.
    pub fn net_avg(&self) -> (r: Option<i64>)
        ensures
            self.count == 0 ==> r is None,
            self.count > 0 ==> r == Some(
                div_toward_zero(self.net_total as int, self.count as int) as i64,
            ),
    {
        average_cents(self.net_total, self.count)
    }

    /// Average social-security deduction per payroll; `None` for no rows.
    pub fn ss_avg(&self) -> (r: Option<i64>)
        ensures
            self.count == 0 ==> r is None,
            self.count > 0 ==> r == Some(
                div_toward_zero(self.ss_total as int, self.count as int) as i64,
            ),
    {
        average_cents(self.ss_total, self.count)
    }

    /// Average tax withholding per payroll; `None` for no rows.
    pub fn irpf_avg(&self) -> (r: Option<i64>)
        ensures
            self.count == 0 ==> r is None,
            self.count > 0 ==> r == Some(
                div_toward_zero(self.irpf_total as int, self.count as int) as i64,
            ),
    {
        average_cents(self.irpf_total, self.count)
    }
}

pub(crate) proof fn lemma_payroll_pairs_bounded(rows: Seq<Payroll>, pairs: Seq<KeyedAmount>)
    requires
        payrolls_bounded(rows),
        pairs == payroll_company_pairs(rows) || pairs == payroll_category_pairs(rows) || (exists|
            c: PayComponent,
        | pairs == payroll_component_pairs(rows, c)),
    ensures
        pairs.len() <= MAX_GROUP_ROWS,
        amounts_bounded(pairs, MAX_AMOUNT_CENTS as int),
{
    assert forall|i: int| 0 <= i < pairs.len() implies -MAX_AMOUNT_CENTS
        <= #[trigger] pairs[i].amount <= MAX_AMOUNT_CENTS by {
        assert(payroll_bounded(rows[i]));
        if pairs == payroll_company_pairs(rows) {
            assert(pairs[i].amount == rows[i].gross);
        } else if pairs == payroll_category_pairs(rows) {
            assert(pairs[i].amount == rows[i].gross);
        } else {
            let c = choose|c: PayComponent| pairs == payroll_component_pairs(rows, c);
            assert(pairs[i].amount == component_of(rows[i], c));
        }
    }
}

/// The balance summary: the payroll and transaction reports side by side,
/// and the balance between total net income and total expenses.
pub struct BalanceSummaryVm {
    pub payroll: PayrollDataVm,
    pub transactions: TransactionDataVm,
}

impl BalanceSummaryVm {
    /// Aggregate both row sets.
    pub fn generate(payrolls: &Vec<Payroll>, transactions: &Vec<Transaction>) -> (r:
        BalanceSummaryVm)
        requires
            payrolls_bounded(payrolls@),
            transactions_bounded(transactions@),
        ensures
            pvm_ok(r.payroll, payrolls@),
            tvm_ok(r.transactions, transactions@),
    {
        BalanceSummaryVm {
            payroll: PayrollDataVm::generate(payrolls),
            transactions: TransactionDataVm::generate(transactions),
        }
    }

    /// Net income minus expenses.
    pub fn balance(&self) -> (r: i64)
        requires
            -0x2000_0000_0000_0000 <= self.payroll.net_total <= 0x2000_0000_0000_0000,
            -0x2000_0000_0000_0000 <= self.transactions.total_amount <= 0x2000_0000_0000_0000,
        ensures
            r == self.payroll.net_total - self.transactions.total_amount,
    {
        self.payroll.net_total - self.transactions.total_amount
    }
}

} // verus!

verus! {

/// What a rendered table's text is, as a function of its header cells and
/// its row cells. The text itself comes from the table crate; the contracts
/// only state which cells each report lays out.
pub uninterp spec fn table_text(header: Seq<Seq<char>>, rows: Seq<Seq<Seq<char>>>) -> Seq<char>;

/// Relies on comfy_table::Table: lays the header and the rows out as a UTF-8
/// table with rounded corners. The table is pinned to its terminal-independent
/// form (`force_no_tty`): no live terminal width is read and no styling
/// escapes are emitted, so the text depends on the cells alone.
#[verifier::external_body]
fn render_table(header: &Vec<String>, rows: &Vec<Vec<String>>) -> (r: String)
    ensures
        r@ == table_text(header.deep_view(), rows.deep_view()),
{
    let mut t = comfy_table::Table::new();
    t.force_no_tty();
    t.load_style(comfy_table::presets::UTF8_FULL.with_rounded_corners());
    t.set_content_arrangement(comfy_table::ContentArrangement::Dynamic);
    t.set_header(comfy_table::Row::from(header.clone()));
    t.add_rows(rows.iter().map(|r| comfy_table::Row::from(r.clone())));
    t.to_string()
}

/// The display name an id resolves to, or `Unknown` when it resolves to
/// nothing; the fallback the reports must keep.
pub open spec fn display_name_of(rows: Seq<Name>, id: int) -> Seq<char> {
    match spec_name_of(rows, id) {
        Some(n) => n,
        None => "Unknown"@,
    }
}

/// Resolve an id for display, falling back to `Unknown`.
pub fn display_name(t: &NameTable, id: i32) -> (r: String)
    requires
        table_wf(t.rows@),
    ensures
        r@ == display_name_of(t.rows@, id as int),
{
    match t.get_name(id) {
        Some(n) => n,
        None => String::from_str("Unknown"),
    }
}

/// The average cell: the quotient rounded toward zero, or `n/a` over no rows.
pub open spec fn avg_cell(sum: int, count: int) -> Seq<char> {
    if count == 0 {
        "n/a"@
    } else {
        cents_digits(div_toward_zero(sum, count))
    }
}

/// Render an average for a table cell.
fn format_avg(sum: i64, count: usize) -> (r: String)
    ensures
        r@ == avg_cell(sum as int, count as int),
{
    match average_cents(sum, count) {
        Some(v) => format_cents(v),
        None => String::from_str("n/a"),
    }
}

} // verus!

verus! {

/// The recap row of the transaction report: grand total, number of distinct
/// tags, and the average amount per transaction.
pub open spec fn t_recap_cells(vm: TransactionDataVm) -> Seq<Seq<char>> {
    seq![
        cents_digits(vm.total_amount as int),
        dec_digits(vm.tags_info@.len() as nat),
        avg_cell(vm.total_amount as int, vm.count as int),
    ]
}

/// One per-tag row: the tag id, its display name, the tag's total, its row
/// count and its average.
pub open spec fn tag_row_cells(b: Bucket, tags: Seq<Name>) -> Seq<Seq<char>> {
    seq![
        id_digits(b.key as int),
        display_name_of(tags, b.key as int),
        cents_digits(b.sum as int),
        dec_digits(b.count as nat),
        avg_cell(b.sum as int, b.count as int),
    ]
}

/// All per-tag rows, in the buckets' (sorted) order.
pub open spec fn tag_rows_cells(bs: Seq<Bucket>, tags: Seq<Name>) -> Seq<Seq<Seq<char>>> {
    Seq::new(bs.len(), |i: int| tag_row_cells(bs[i], tags))
}

/// One transaction listing row: id, name, day, amount and tag display name.
pub open spec fn tx_row_cells(t: Transaction, tags: Seq<Name>) -> Seq<Seq<char>> {
    seq![
        int_digits(t._id as int),
        t.name@,
        date_string_of(t.date as int),
        cents_digits(t.amount as int),
        display_name_of(tags, t.tag_id as int),
    ]
}

/// All transaction listing rows, in row order.
pub open spec fn tx_rows_cells(rows: Seq<Transaction>, tags: Seq<Name>) -> Seq<Seq<Seq<char>>> {
    Seq::new(rows.len(), |i: int| tx_row_cells(rows[i], tags))
}

fn t_recap_header() -> (r: Vec<String>)
    ensures
        r.deep_view() =~= seq!["Total"@, "Tags count"@, "Avg. price"@],
{
    let mut h: Vec<String> = Vec::new();
    h.push(String::from_str("Total"));
    h.push(String::from_str("Tags count"));
    h.push(String::from_str("Avg. price"));
    h
}

fn tag_table_header() -> (r: Vec<String>)
    ensures
        r.deep_view() =~= seq!["Id"@, "Tag"@, "Total"@, "Count"@, "Avg."@],
{
    let mut h: Vec<String> = Vec::new();
    h.push(String::from_str("Id"));
    h.push(String::from_str("Tag"));
    h.push(String::from_str("Total"));
    h.push(String::from_str("Count"));
    h.push(String::from_str("Avg."));
    h
}

fn tx_table_header() -> (r: Vec<String>)
    ensures
        r.deep_view() =~= seq!["Id"@, "Name"@, "Date"@, "Amount"@, "Tag"@],
{
    let mut h: Vec<String> = Vec::new();
    h.push(String::from_str("Id"));
    h.push(String::from_str("Name"));
    h.push(String::from_str("Date"));
    h.push(String::from_str("Amount"));
    h.push(String::from_str("Tag"));
    h
}

/// The whole transaction report: a recap, the per-tag table and the
/// transaction listing, each introduced by its caption.
pub open spec fn t_report_text(
    vm: TransactionDataVm,
    rows: Seq<Transaction>,
    tags: Seq<Name>,
) -> Seq<char> {
    "Summary:\n"@ + table_text(seq!["Total"@, "Tags count"@, "Avg. price"@], seq![t_recap_cells(vm)])
        + "\nPer tags data:\n"@ + table_text(
        seq!["Id"@, "Tag"@, "Total"@, "Count"@, "Avg."@],
        tag_rows_cells(vm.tags_info@, tags),
    ) + "\nTransactions:\n"@ + table_text(
        seq!["Id"@, "Name"@, "Date"@, "Amount"@, "Tag"@],
        tx_rows_cells(rows, tags),
    ) + "\n"@
}

impl TransactionDataVm {
    /// Render the report: recap, per-tag table (in tag-id order) and the
    /// transaction listing, with unresolvable ids shown as `Unknown`.
    #[verifier::loop_isolation(false)]
    pub fn render(&self, rows: &Vec<Transaction>, tags: &NameTable) -> (r: String)
        requires
            table_wf(tags.rows@),
            transactions_bounded(rows@),
        ensures
            r@ == t_report_text(*self, rows@, tags.rows@),
    {
        let mut out = String::from_str("Summary:\n");

        let mut recap_row: Vec<String> = Vec::new();
        recap_row.push(format_cents(self.total_amount));
        recap_row.push(format_u64(self.tags_info.len() as u64));
        recap_row.push(format_avg(self.total_amount, self.count));
        let mut recap_rows: Vec<Vec<String>> = Vec::new();
        recap_rows.push(recap_row);
        proof {
            assert(recap_rows.deep_view() =~~= seq![t_recap_cells(*self)]);
        }
        out.append(render_table(&t_recap_header(), &recap_rows).as_str());

        out.append("\nPer tags data:\n");
        let mut tag_rows: Vec<Vec<String>> = Vec::new();
        let nb = self.tags_info.len();
        for i in 0..nb
            invariant
                tag_rows.deep_view() =~~= tag_rows_cells(
                    self.tags_info@.take(i as int),
                    tags.rows@,
                ),
        {
            let b = self.tags_info[i];
            let mut row: Vec<String> = Vec::new();
            row.push(format_id(b.key));
            row.push(display_name(tags, b.key));
            row.push(format_cents(b.sum));
            row.push(format_u64(b.count as u64));
            row.push(format_avg(b.sum, b.count));
            proof {
                assert(row.deep_view() =~= tag_row_cells(b, tags.rows@));
            }
            let ghost prev = tag_rows@;
            let ghost prev_dv = tag_rows.deep_view();
            let ghost row_dv = row.deep_view();
            tag_rows.push(row);
            proof {
                let cells = tag_rows_cells(self.tags_info@.take(i + 1), tags.rows@);
                assert(tag_rows@ == prev.push(row));
                assert forall|m: int| 0 <= m < tag_rows@.len() implies #[trigger] tag_rows.deep_view()[m]
                    == cells[m] by {
                    if m < prev.len() {
                        assert(tag_rows@[m] == prev[m]);
                        assert(prev_dv[m] == cells[m]);
                    } else {
                        assert(tag_rows@[m] == row);
                    }
                }
                assert(tag_rows.deep_view() =~= cells);
            }
        }
        proof {
            assert(self.tags_info@.take(nb as int) =~= self.tags_info@);
        }
        out.append(render_table(&tag_table_header(), &tag_rows).as_str());

        out.append("\nTransactions:\n");
        let mut tx_rows: Vec<Vec<String>> = Vec::new();
        let nt = rows.len();
        for i in 0..nt
            invariant
                tx_rows.deep_view() =~~= tx_rows_cells(rows@.take(i as int), tags.rows@),
        {
            let t = &rows[i];
            let mut row: Vec<String> = Vec::new();
            row.push(format_int(t._id as i64));
            row.push(t.name.clone());
            proof {
                assert(transaction_bounded(rows@[i as int]));
            }
            row.push(crate::dates::format_date(t.date));
            row.push(format_cents(t.amount));
            row.push(display_name(tags, t.tag_id));
            proof {
                assert(row.deep_view() =~= tx_row_cells(rows@[i as int], tags.rows@));
            }
            let ghost prev = tx_rows@;
            let ghost prev_dv = tx_rows.deep_view();
            let ghost row_dv = row.deep_view();
            tx_rows.push(row);
            proof {
                let cells = tx_rows_cells(rows@.take(i + 1), tags.rows@);
                assert(tx_rows@ == prev.push(row));
                assert forall|m: int| 0 <= m < tx_rows@.len() implies #[trigger] tx_rows.deep_view()[m]
                    == cells[m] by {
                    if m < prev.len() {
                        assert(tx_rows@[m] == prev[m]);
                        assert(prev_dv[m] == cells[m]);
                    } else {
                        assert(tx_rows@[m] == row);
                    }
                }
                assert(tx_rows.deep_view() =~= cells);
            }
        }
        proof {
            assert(rows@.take(nt as int) =~= rows@);
        }
        out.append(render_table(&tx_table_header(), &tx_rows).as_str());
        out.append("\n");
        out
    }
}

} // verus!

verus! {

/// The payroll recap header: the row count, then the four component names.
pub open spec fn p_recap_header_cells(vm: PayrollDataVm) -> Seq<Seq<char>> {
    seq![dec_digits(vm.count as nat), "Gross"@, "Net"@, "SS"@, "Irpf"@]
}

/// The payroll recap rows: the four totals, then the four averages.
pub open spec fn p_recap_rows(vm: PayrollDataVm) -> Seq<Seq<Seq<char>>> {
    seq![
        seq![
            "Total"@,
            cents_digits(vm.gross_total as int),
            cents_digits(vm.net_total as int),
            cents_digits(vm.ss_total as int),
            cents_digits(vm.irpf_total as int),
        ],
        seq![
            "Avg."@,
            avg_cell(vm.gross_total as int, vm.count as int),
            avg_cell(vm.net_total as int, vm.count as int),
            avg_cell(vm.ss_total as int, vm.count as int),
            avg_cell(vm.irpf_total as int, vm.count as int),
        ],
    ]
}

/// One payroll listing row: id, day, the four components, and the display
/// names of the company and the category.
pub open spec fn payroll_row_cells(p: Payroll, companies: Seq<Name>, categories: Seq<Name>) -> Seq<
    Seq<char>,
> {
    seq![
        int_digits(p._id as int),
        date_string_of(p.date as int),
        cents_digits(p.gross as int),
        cents_digits(p.net as int),
        cents_digits(p.ss as int),
        cents_digits(p.irpf as int),
        display_name_of(companies, p.company_id as int),
        display_name_of(categories, p.category_id as int),
    ]
}

/// All payroll listing rows, in row order.
pub open spec fn payroll_rows_cells(
    rows: Seq<Payroll>,
    companies: Seq<Name>,
    categories: Seq<Name>,
) -> Seq<Seq<Seq<char>>> {
    Seq::new(rows.len(), |i: int| payroll_row_cells(rows[i], companies, categories))
}

/// One half of a summarized row: the bucket's id, name, total, average and
/// count, or five empty cells when this side has fewer buckets.
pub open spec fn bucket_part_cells(bs: Seq<Bucket>, i: int, names: Seq<Name>) -> Seq<Seq<char>> {
    if 0 <= i < bs.len() {
        seq![
            id_digits(bs[i].key as int),
            display_name_of(names, bs[i].key as int),
            cents_digits(bs[i].sum as int),
            avg_cell(bs[i].sum as int, bs[i].count as int),
            dec_digits(bs[i].count as nat),
        ]
    } else {
        seq![""@, ""@, ""@, ""@, ""@]
    }
}

/// The summarized rows: the per-company and per-category buckets side by
/// side, the shorter side padded with empty cells.
pub open spec fn pair_rows_cells(
    cs: Seq<Bucket>,
    cats: Seq<Bucket>,
    comp_names: Seq<Name>,
    cat_names: Seq<Name>,
) -> Seq<Seq<Seq<char>>> {
    let n = if cs.len() >= cats.len() {
        cs.len()
    } else {
        cats.len()
    };
    Seq::new(
        n,
        |i: int| bucket_part_cells(cs, i, comp_names) + seq![""@] + bucket_part_cells(cats, i, cat_names),
    )
}

/// The pair-table header: the five bucket columns for each side, separated.
pub open spec fn pair_header_cells() -> Seq<Seq<char>> {
    seq![
        "Id"@,
        "Name"@,
        "Gross"@,
        "Avg."@,
        "Count"@,
        ""@,
        "Id"@,
        "Name"@,
        "Gross"@,
        "Avg."@,
        "Count"@,
    ]
}

/// The payroll listing header.
pub open spec fn payroll_header_cells() -> Seq<Seq<char>> {
    seq!["Id"@, "Date"@, "Gross"@, "Net"@, "SS"@, "Irpf"@, "Company"@, "Category"@]
}

/// The whole payroll report: the recap, the row listing when `list` is set,
/// and the summarized per-company / per-category table.
pub open spec fn p_report_text(
    vm: PayrollDataVm,
    rows: Seq<Payroll>,
    companies: Seq<Name>,
    categories: Seq<Name>,
    list: bool,
) -> Seq<char> {
    "Summary:\n"@ + table_text(p_recap_header_cells(vm), p_recap_rows(vm)) + (if list {
        "\nPayrolls:\n"@ + table_text(
            payroll_header_cells(),
            payroll_rows_cells(rows, companies, categories),
        )
    } else {
        Seq::<char>::empty()
    }) + "\nSummarized data:\n"@ + table_text(
        pair_header_cells(),
        pair_rows_cells(vm.companies_info@, vm.categories_info@, companies, categories),
    ) + "\n"@
}

fn p_recap_header(count: usize) -> (r: Vec<String>)
    ensures
        r.deep_view() =~= seq![dec_digits(count as nat), "Gross"@, "Net"@, "SS"@, "Irpf"@],
{
    let mut h: Vec<String> = Vec::new();
    h.push(format_u64(count as u64));
    h.push(String::from_str("Gross"));
    h.push(String::from_str("Net"));
    h.push(String::from_str("SS"));
    h.push(String::from_str("Irpf"));
    h
}

fn payroll_table_header() -> (r: Vec<String>)
    ensures
        r.deep_view() =~= payroll_header_cells(),
{
    let mut h: Vec<String> = Vec::new();
    h.push(String::from_str("Id"));
    h.push(String::from_str("Date"));
    h.push(String::from_str("Gross"));
    h.push(String::from_str("Net"));
    h.push(String::from_str("SS"));
    h.push(String::from_str("Irpf"));
    h.push(String::from_str("Company"));
    h.push(String::from_str("Category"));
    h
}

fn pair_table_header() -> (r: Vec<String>)
    ensures
        r.deep_view() =~= pair_header_cells(),
{
    let mut h: Vec<String> = Vec::new();
    h.push(String::from_str("Id"));
    h.push(String::from_str("Name"));
    h.push(String::from_str("Gross"));
    h.push(String::from_str("Avg."));
    h.push(String::from_str("Count"));
    h.push(String::from_str(""));
    h.push(String::from_str("Id"));
    h.push(String::from_str("Name"));
    h.push(String::from_str("Gross"));
    h.push(String::from_str("Avg."));
    h.push(String::from_str("Count"));
    h
}

/// Push one side of a summarized row: the bucket's cells, or five empty
/// cells past the end of the bucket list.
fn push_bucket_part(row: &mut Vec<String>, bs: &Vec<Bucket>, i: usize, names: &NameTable)
    requires
        table_wf(names.rows@),
    ensures
        final(row)@.len() == old(row)@.len() + 5,
        final(row).deep_view() =~= old(row).deep_view() + bucket_part_cells(
            bs@,
            i as int,
            names.rows@,
        ),
{
    let ghost base = row.deep_view();
    let ghost prev = row@;
    let ghost part = bucket_part_cells(bs@, i as int, names.rows@);
    if i < bs.len() {
        let b = bs[i];
        row.push(format_id(b.key));
        row.push(display_name(names, b.key));
        row.push(format_cents(b.sum));
        row.push(format_avg(b.sum, b.count));
        row.push(format_u64(b.count as u64));
        proof {
            assert forall|m: int| 0 <= m < row@.len() implies #[trigger] row.deep_view()[m] == (
            base + part)[m] by {
                if m < prev.len() {
                    assert(row@[m] == prev[m]);
                }
            }
            assert(row.deep_view() =~= base + part);
        }
    } else {
        row.push(String::from_str(""));
        row.push(String::from_str(""));
        row.push(String::from_str(""));
        row.push(String::from_str(""));
        row.push(String::from_str(""));
        proof {
            assert forall|m: int| 0 <= m < row@.len() implies #[trigger] row.deep_view()[m] == (
            base + part)[m] by {
                if m < prev.len() {
                    assert(row@[m] == prev[m]);
                }
            }
            assert(row.deep_view() =~= base + part);
        }
    }
}

/// Build the payroll listing rows.
#[verifier::loop_isolation(false)]
fn build_payroll_rows(rows: &Vec<Payroll>, companies: &NameTable, categories: &NameTable) -> (r:
    Vec<Vec<String>>)
    requires
        table_wf(companies.rows@),
        table_wf(categories.rows@),
        payrolls_bounded(rows@),
    ensures
        r.deep_view() == payroll_rows_cells(rows@, companies.rows@, categories.rows@),
{
    let mut p_rows: Vec<Vec<String>> = Vec::new();
    let np = rows.len();
    for i in 0..np
        invariant
            p_rows.deep_view() =~~= payroll_rows_cells(
                rows@.take(i as int),
                companies.rows@,
                categories.rows@,
            ),
    {
        let p = &rows[i];
        let mut row: Vec<String> = Vec::new();
        row.push(format_int(p._id as i64));
        proof {
            assert(payroll_bounded(rows@[i as int]));
        }
        row.push(crate::dates::format_date(p.date));
        row.push(format_cents(p.gross));
        row.push(format_cents(p.net));
        row.push(format_cents(p.ss));
        row.push(format_cents(p.irpf));
        row.push(display_name(companies, p.company_id));
        row.push(display_name(categories, p.category_id));
        proof {
            assert(row.deep_view() =~= payroll_row_cells(
                rows@[i as int],
                companies.rows@,
                categories.rows@,
            ));
        }
        let ghost prev = p_rows@;
        let ghost prev_dv = p_rows.deep_view();
        p_rows.push(row);
        proof {
            let cells = payroll_rows_cells(rows@.take(i + 1), companies.rows@, categories.rows@);
            assert forall|m: int| 0 <= m < p_rows@.len() implies #[trigger] p_rows.deep_view()[m]
                == cells[m] by {
                if m < prev.len() {
                    assert(p_rows@[m] == prev[m]);
                    assert(prev_dv[m] == cells[m]);
                } else {
                    assert(p_rows@[m] == row);
                }
            }
            assert(p_rows.deep_view() =~= cells);
        }
    }
    proof {
        assert(rows@.take(np as int) =~= rows@);
    }
    p_rows
}

/// Build the summarized rows: company and category buckets side by side.
#[verifier::loop_isolation(false)]
fn build_pair_rows(cs: &Vec<Bucket>, cats: &Vec<Bucket>, companies: &NameTable, categories:
    &NameTable) -> (r: Vec<Vec<String>>)
    requires
        table_wf(companies.rows@),
        table_wf(categories.rows@),
    ensures
        r.deep_view() == pair_rows_cells(cs@, cats@, companies.rows@, categories.rows@),
{
    let nc = cs.len();
    let ng = cats.len();
    let n = if nc >= ng {
        nc
    } else {
        ng
    };
    let ghost cells = pair_rows_cells(cs@, cats@, companies.rows@, categories.rows@);
    let mut pair_rows: Vec<Vec<String>> = Vec::new();
    for i in 0..n
        invariant
            pair_rows.deep_view() =~~= cells.take(i as int),
    {
        let mut row: Vec<String> = Vec::new();
        push_bucket_part(&mut row, cs, i, companies);
        let ghost left0 = row.deep_view();
        let ghost prev_row = row@;
        row.push(String::from_str(""));
        proof {
            assert forall|m: int| 0 <= m < row@.len() implies #[trigger] row.deep_view()[m] == (
            left0 + seq![""@])[m] by {
                if m < prev_row.len() {
                    assert(row@[m] == prev_row[m]);
                }
            }
            assert(row.deep_view() =~= left0 + seq![""@]);
        }
        push_bucket_part(&mut row, cats, i, categories);
        proof {
            assert(row.deep_view() =~= bucket_part_cells(cs@, i as int, companies.rows@)
                + seq![""@] + bucket_part_cells(cats@, i as int, categories.rows@));
            assert(row.deep_view() == cells[i as int]);
        }
        let ghost prev = pair_rows@;
        let ghost prev_dv = pair_rows.deep_view();
        pair_rows.push(row);
        proof {
            assert forall|m: int| 0 <= m < pair_rows@.len() implies #[trigger] pair_rows.deep_view()[m]
                == cells.take(i + 1)[m] by {
                if m < prev.len() {
                    assert(pair_rows@[m] == prev[m]);
                    assert(prev_dv[m] == cells.take(i as int)[m]);
                } else {
                    assert(pair_rows@[m] == row);
                }
            }
            assert(pair_rows.deep_view() =~= cells.take(i + 1));
        }
    }
    proof {
        assert(cells.take(n as int) =~= cells);
    }
    pair_rows
}

impl PayrollDataVm {
    /// Render the report: the recap, the payroll listing when `list` is set,
    /// and the summarized per-company / per-category table, both bucket
    /// tables in id order and unresolvable ids shown as `Unknown`.
    pub fn render(&self, list: bool, rows: &Vec<Payroll>, companies: &NameTable, categories:
        &NameTable) -> (r: String)
        requires
            table_wf(companies.rows@),
            table_wf(categories.rows@),
            payrolls_bounded(rows@),
        ensures
            r@ == p_report_text(*self, rows@, companies.rows@, categories.rows@, list),
    {
        let mut out = String::from_str("Summary:\n");

        let mut totals_row: Vec<String> = Vec::new();
        totals_row.push(String::from_str("Total"));
        totals_row.push(format_cents(self.gross_total));
        totals_row.push(format_cents(self.net_total));
        totals_row.push(format_cents(self.ss_total));
        totals_row.push(format_cents(self.irpf_total));
        let mut avgs_row: Vec<String> = Vec::new();
        avgs_row.push(String::from_str("Avg."));
        avgs_row.push(format_avg(self.gross_total, self.count));
        avgs_row.push(format_avg(self.net_total, self.count));
        avgs_row.push(format_avg(self.ss_total, self.count));
        avgs_row.push(format_avg(self.irpf_total, self.count));
        let mut recap_rows: Vec<Vec<String>> = Vec::new();
        recap_rows.push(totals_row);
        recap_rows.push(avgs_row);
        proof {
            assert(recap_rows.deep_view() =~~= p_recap_rows(*self));
        }
        out.append(render_table(&p_recap_header(self.count), &recap_rows).as_str());

        if list {
            out.append("\nPayrolls:\n");
            let p_rows = build_payroll_rows(rows, companies, categories);
            out.append(render_table(&payroll_table_header(), &p_rows).as_str());
        }

        out.append("\nSummarized data:\n");
        let pair_rows = build_pair_rows(
            &self.companies_info,
            &self.categories_info,
            companies,
            categories,
        );
        out.append(render_table(&pair_table_header(), &pair_rows).as_str());
        out.append("\n");
        out
    }
}


/// The whole balance summary: the payroll report with its listing, the
/// transaction report, and the income / expenses / balance table.
pub open spec fn b_report_text(
    vm: BalanceSummaryVm,
    payrolls: Seq<Payroll>,
    transactions: Seq<Transaction>,
    companies: Seq<Name>,
    categories: Seq<Name>,
    tags: Seq<Name>,
) -> Seq<char> {
    p_report_text(vm.payroll, payrolls, companies, categories, true) + t_report_text(
        vm.transactions,
        transactions,
        tags,
    ) + "Balance:\n"@ + table_text(
        seq!["Income"@, "Expenses"@, "Total"@],
        seq![
            seq![
                cents_digits(vm.payroll.net_total as int),
                cents_digits(vm.transactions.total_amount as int),
                cents_digits(vm.payroll.net_total - vm.transactions.total_amount),
            ],
        ],
    ) + "\n"@
}

impl BalanceSummaryVm {
    /// Render both reports and close with the income / expenses / balance
    /// table.
    pub fn render(&self, payrolls: &Vec<Payroll>, transactions: &Vec<Transaction>, companies:
        &NameTable, categories: &NameTable, tags: &NameTable) -> (r: String)
        requires
            table_wf(companies.rows@),
            table_wf(categories.rows@),
            table_wf(tags.rows@),
            payrolls_bounded(payrolls@),
            transactions_bounded(transactions@),
            -0x2000_0000_0000_0000 <= self.payroll.net_total <= 0x2000_0000_0000_0000,
            -0x2000_0000_0000_0000 <= self.transactions.total_amount <= 0x2000_0000_0000_0000,
        ensures
            r@ == b_report_text(
                *self,
                payrolls@,
                transactions@,
                companies.rows@,
                categories.rows@,
                tags.rows@,
            ),
    {
        let mut out = self.payroll.render(true, payrolls, companies, categories);
        out.append(self.transactions.render(transactions, tags).as_str());
        out.append("Balance:\n");
        let income = self.payroll.get_net();
        let expenses = self.transactions.total();
        let balance = self.balance();
        let mut h: Vec<String> = Vec::new();
        h.push(String::from_str("Income"));
        h.push(String::from_str("Expenses"));
        h.push(String::from_str("Total"));
        let mut row: Vec<String> = Vec::new();
        row.push(format_cents(income));
        row.push(format_cents(expenses));
        row.push(format_cents(balance));
        let mut rows: Vec<Vec<String>> = Vec::new();
        rows.push(row);
        proof {
            assert(h.deep_view() =~= seq!["Income"@, "Expenses"@, "Total"@]);
            assert(rows.deep_view() =~~= seq![
                seq![
                    cents_digits(self.payroll.net_total as int),
                    cents_digits(self.transactions.total_amount as int),
                    cents_digits(self.payroll.net_total - self.transactions.total_amount),
                ],
            ]);
        }
        out.append(render_table(&h, &rows).as_str());
        out.append("\n");
        out
    }
}

} // verus!
