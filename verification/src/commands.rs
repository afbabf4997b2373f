//! The command layer: each CLI verb is a struct carrying its arguments, with
//! an `execute` that works a snapshot of the ledger held in memory. The
//! surrounding program loads the snapshot from the store, runs the command,
//! persists what changed and prints what was rendered; every decision is
//! made here.

use vstd::prelude::*;
use crate::aggregate::{MAX_AMOUNT_CENTS, MAX_GROUP_ROWS, total_of, KeyedAmount};
use crate::amount::{cents_digits, format_cents, format_int, int_digits};
use crate::dates::date_matches;
use crate::models::{
    Account, Name, Payroll, Transaction, account_bounded, accounts_bounded, payroll_bounded,
    payrolls_bounded, transaction_bounded, transactions_bounded,
};
use crate::names::{NameTable, name_index, spec_name_of, table_has_name, table_wf};
use crate::text::{lower_seq, str_eq, to_ascii_lowercase};

verus! {

/// Largest number of rows a reference table accepts, so that the next id
/// always fits an `i32`.
pub const MAX_TABLE_ROWS: usize = 0x7fff_fffe;

/// The whole ledger, materialized: the three reference tables, the accounts
/// and the two row tables.
#[derive(Debug)]
pub struct Ledger {
    pub tags: NameTable,
    pub companies: NameTable,
    pub categories: NameTable,
    pub accounts: Vec<Account>,
    pub transactions: Vec<Transaction>,
    pub payrolls: Vec<Payroll>,
}

/// The ledger's well-formedness: reference tables are well-formed and small
/// enough to assign another id, and the row tables are bounded so that the
/// aggregations stay within machine limits.
pub open spec fn ledger_wf(l: Ledger) -> bool {
    &&& table_wf(l.tags.rows@)
    &&& table_wf(l.companies.rows@)
    &&& table_wf(l.categories.rows@)
    &&& l.tags.rows@.len() <= MAX_TABLE_ROWS
    &&& l.companies.rows@.len() <= MAX_TABLE_ROWS
    &&& l.categories.rows@.len() <= MAX_TABLE_ROWS
    &&& accounts_bounded(l.accounts@)
    &&& transactions_bounded(l.transactions@)
    &&& payrolls_bounded(l.payrolls@)
}

impl Ledger {
    /// An empty ledger.
    pub fn new() -> (r: Ledger)
        ensures
            ledger_wf(r),
            r.tags.rows@ =~= Seq::<Name>::empty(),
            r.companies.rows@ =~= Seq::<Name>::empty(),
            r.categories.rows@ =~= Seq::<Name>::empty(),
            r.accounts@ =~= Seq::<Account>::empty(),
            r.transactions@ =~= Seq::<Transaction>::empty(),
            r.payrolls@ =~= Seq::<Payroll>::empty(),
    {
        Ledger {
            tags: NameTable::new(),
            companies: NameTable::new(),
            categories: NameTable::new(),
            accounts: Vec::new(),
            transactions: Vec::new(),
            payrolls: Vec::new(),
        }
    }
}

/// Why a command failed.
#[derive(Clone, Copy, Debug, PartialEq, Eq, Structural)]
pub enum CmdError {
    /// A date argument is not a well-formed calendar day.
    BadDate,
    /// An amount argument is too large for the ledger.
    BadAmount,
    /// A tag name resolves to no known tag.
    UnknownTag,
    /// A company name resolves to no known company.
    UnknownCompany,
    /// A reference-table argument is none of tag, company, category.
    InvalidTable,
    /// A name lookup found nothing.
    UnknownName,
    /// An id lookup found nothing.
    UnknownId,
    /// An account name lookup found nothing.
    UnknownAccount,
    /// The in-memory ledger is at its capacity.
    StoreFull,
    /// The command exists but its work is not implemented.
    NotImplemented,
}

impl CmdError {
    /// A short description for the top-level handler's diagnostic.
    pub fn message(&self) -> (r: &'static str)
        ensures
            *self is BadDate ==> r@ == "could not parse date"@,
            *self is BadAmount ==> r@ == "amount out of range"@,
            *self is UnknownTag ==> r@ == "could not find id for tag"@,
            *self is UnknownCompany ==> r@ == "could not find id for company"@,
            *self is InvalidTable ==> r@ == "invalid table"@,
            *self is UnknownName ==> r@ == "could not find name"@,
            *self is UnknownId ==> r@ == "could not find id"@,
            *self is UnknownAccount ==> r@ == "could not find account"@,
            *self is StoreFull ==> r@ == "the ledger is full"@,
            *self is NotImplemented ==> r@ == "not implemented"@,
    {
        match self {
            CmdError::BadDate => "could not parse date",
            CmdError::BadAmount => "amount out of range",
            CmdError::UnknownTag => "could not find id for tag",
            CmdError::UnknownCompany => "could not find id for company",
            CmdError::InvalidTable => "invalid table",
            CmdError::UnknownName => "could not find name",
            CmdError::UnknownId => "could not find id",
            CmdError::UnknownAccount => "could not find account",
            CmdError::StoreFull => "the ledger is full",
            CmdError::NotImplemented => "not implemented",
        }
    }
}

/// Add a tag to the reference table.
#[derive(Debug, Clone)]
pub struct AddTag {
    pub name: String,
    pub description: String,
}

/// Add a company to the reference table.
#[derive(Debug, Clone)]
pub struct AddCompany {
    pub name: String,
    pub description: String,
}

/// Add a category to the reference table.
#[derive(Debug, Clone)]
pub struct AddCategory {
    pub name: String,
    pub description: String,
}

impl AddTag {
    /// Insert the tag; the new id is returned, unless the table is at its
    /// capacity. Everything else is unchanged.
    pub fn execute(&self, db: &mut Ledger) -> (r: Result<i32, CmdError>)
        requires
            ledger_wf(*old(db)),
        ensures
            ledger_wf(*final(db)),
            r is Ok <==> old(db).tags.rows@.len() < MAX_TABLE_ROWS,
            r is Err ==> r == Err::<i32, CmdError>(CmdError::StoreFull) && *final(db) == *old(db),
            r matches Ok(id) ==> {
                &&& final(db).tags.rows@.len() == old(db).tags.rows@.len() + 1
                &&& id == old(db).tags.rows@.len() + 1
                &&& final(db).tags.rows@.last().name@ == self.name@
                &&& final(db).tags.rows@.last().description@ == self.description@
                &&& final(db).tags.rows@.drop_last() == old(db).tags.rows@
                &&& final(db).companies == old(db).companies
                &&& final(db).categories == old(db).categories
                &&& final(db).accounts == old(db).accounts
                &&& final(db).transactions == old(db).transactions
                &&& final(db).payrolls == old(db).payrolls
            },
    {
        if db.tags.len() >= MAX_TABLE_ROWS {
            return Err(CmdError::StoreFull);
        }
        let id = db.tags.insert(self.name.as_str(), self.description.as_str());
        proof {
            assert(db.tags.rows@.drop_last() =~= old(db).tags.rows@);
        }
        Ok(id)
    }
}

impl AddCompany {
    /// Insert the company; the new id is returned, unless the table is at its
    /// capacity. Everything else is unchanged.
    pub fn execute(&self, db: &mut Ledger) -> (r: Result<i32, CmdError>)
        requires
            ledger_wf(*old(db)),
        ensures
            ledger_wf(*final(db)),
            r is Ok <==> old(db).companies.rows@.len() < MAX_TABLE_ROWS,
            r is Err ==> r == Err::<i32, CmdError>(CmdError::StoreFull) && *final(db) == *old(db),
            r matches Ok(id) ==> {
                &&& final(db).companies.rows@.len() == old(db).companies.rows@.len() + 1
                &&& id == old(db).companies.rows@.len() + 1
                &&& final(db).companies.rows@.last().name@ == self.name@
                &&& final(db).companies.rows@.last().description@ == self.description@
                &&& final(db).companies.rows@.drop_last() == old(db).companies.rows@
                &&& final(db).tags == old(db).tags
                &&& final(db).categories == old(db).categories
                &&& final(db).accounts == old(db).accounts
                &&& final(db).transactions == old(db).transactions
                &&& final(db).payrolls == old(db).payrolls
            },
    {
        if db.companies.len() >= MAX_TABLE_ROWS {
            return Err(CmdError::StoreFull);
        }
        let id = db.companies.insert(self.name.as_str(), self.description.as_str());
        proof {
            assert(db.companies.rows@.drop_last() =~= old(db).companies.rows@);
        }
        Ok(id)
    }
}

impl AddCategory {
    /// Insert the category; the new id is returned, unless the table is at its
    /// capacity. Everything else is unchanged.
    pub fn execute(&self, db: &mut Ledger) -> (r: Result<i32, CmdError>)
        requires
            ledger_wf(*old(db)),
        ensures
            ledger_wf(*final(db)),
            r is Ok <==> old(db).categories.rows@.len() < MAX_TABLE_ROWS,
            r is Err ==> r == Err::<i32, CmdError>(CmdError::StoreFull) && *final(db) == *old(db),
            r matches Ok(id) ==> {
                &&& final(db).categories.rows@.len() == old(db).categories.rows@.len() + 1
                &&& id == old(db).categories.rows@.len() + 1
                &&& final(db).categories.rows@.last().name@ == self.name@
                &&& final(db).categories.rows@.last().description@ == self.description@
                &&& final(db).categories.rows@.drop_last() == old(db).categories.rows@
                &&& final(db).tags == old(db).tags
                &&& final(db).companies == old(db).companies
                &&& final(db).accounts == old(db).accounts
                &&& final(db).transactions == old(db).transactions
                &&& final(db).payrolls == old(db).payrolls
            },
    {
        if db.categories.len() >= MAX_TABLE_ROWS {
            return Err(CmdError::StoreFull);
        }
        let id = db.categories.insert(self.name.as_str(), self.description.as_str());
        proof {
            assert(db.categories.rows@.drop_last() =~= old(db).categories.rows@);
        }
        Ok(id)
    }
}

} // verus!

verus! {

/// Add a transaction: the date and tag are given by name and resolved here.
#[derive(Debug, Clone)]
pub struct AddTransaction {
    pub name: String,
    pub date: String,
    pub amount: i64,
    pub tag: String,
}

impl AddTransaction {
    /// Resolve the date and the tag, then append the transaction. Fails
    /// without touching the ledger: on a malformed date, an unknown tag, an
    /// amount out of range, or a full ledger, in that order of checks.
    pub fn execute(&self, db: &mut Ledger) -> (r: Result<(), CmdError>)
        requires
            ledger_wf(*old(db)),
        ensures
            ledger_wf(*final(db)),
            r is Err ==> *final(db) == *old(db),
            r == Err::<(), CmdError>(CmdError::BadDate) <==> !crate::dates::valid_date(self.date@),
            r == Err::<(), CmdError>(CmdError::UnknownTag) <==> crate::dates::valid_date(self.date@)
                && !table_has_name(old(db).tags.rows@, self.tag@),
            r == Err::<(), CmdError>(CmdError::BadAmount) <==> crate::dates::valid_date(self.date@)
                && table_has_name(old(db).tags.rows@, self.tag@) && !(-MAX_AMOUNT_CENTS
                <= self.amount <= MAX_AMOUNT_CENTS),
            r == Err::<(), CmdError>(CmdError::StoreFull) <==> crate::dates::valid_date(self.date@)
                && table_has_name(old(db).tags.rows@, self.tag@) && -MAX_AMOUNT_CENTS
                <= self.amount <= MAX_AMOUNT_CENTS && old(db).transactions@.len()
                >= MAX_GROUP_ROWS,
            r is Ok <==> crate::dates::valid_date(self.date@) && table_has_name(
                old(db).tags.rows@,
                self.tag@,
            ) && -MAX_AMOUNT_CENTS <= self.amount <= MAX_AMOUNT_CENTS && old(db).transactions@.len() < MAX_GROUP_ROWS,
            r is Ok ==> {
                &&& final(db).transactions@.len() == old(db).transactions@.len() + 1
                &&& final(db).transactions@.drop_last() == old(db).transactions@
                &&& final(db).transactions@.last()._id == 0
                &&& final(db).transactions@.last().name@ == self.name@
                &&& final(db).transactions@.last().date == crate::dates::date_code_of(self.date@)
                &&& final(db).transactions@.last().amount == self.amount
                &&& final(db).transactions@.last().tag_id == old(db).tags.rows@[name_index(
                    old(db).tags.rows@,
                    self.tag@,
                )].id
                &&& final(db).tags == old(db).tags
                &&& final(db).companies == old(db).companies
                &&& final(db).categories == old(db).categories
                &&& final(db).accounts == old(db).accounts
                &&& final(db).payrolls == old(db).payrolls
            },
    {
        let date = match crate::dates::code_date(self.date.as_str()) {
            None => {
                return Err(CmdError::BadDate);
            },
            Some(d) => d,
        };
        let tag_id = match db.tags.get_id(self.tag.as_str()) {
            None => {
                return Err(CmdError::UnknownTag);
            },
            Some(t) => t,
        };
        if self.amount < -MAX_AMOUNT_CENTS || self.amount > MAX_AMOUNT_CENTS {
            return Err(CmdError::BadAmount);
        }
        if db.transactions.len() >= MAX_GROUP_ROWS {
            return Err(CmdError::StoreFull);
        }
        let t = Transaction::new(&self.name, date, self.amount, tag_id);
        db.transactions.push(t);
        proof {
            assert(final(db).transactions@.drop_last() =~= old(db).transactions@);
        }
        Ok(())
    }
}

/// Add a transaction from interactively gathered arguments: the prompting
/// happens outside; the resolution and the insertion are the same as for
/// [`AddTransaction`].
#[derive(Debug, Clone)]
pub struct AddTransactionP;

impl AddTransactionP {
    /// Append the transaction built from the prompted values; the checks and
    /// the effect are those of [`AddTransaction::execute`].
    pub fn execute(&self, db: &mut Ledger, name: String, date: String, amount: i64, tag:
        String) -> (r: Result<(), CmdError>)
        requires
            ledger_wf(*old(db)),
        ensures
            ledger_wf(*final(db)),
            r is Err ==> *final(db) == *old(db),
            r is Ok <==> crate::dates::valid_date(date@) && table_has_name(
                old(db).tags.rows@,
                tag@,
            ) && -MAX_AMOUNT_CENTS <= amount <= MAX_AMOUNT_CENTS && old(db).transactions@.len()
                < MAX_GROUP_ROWS,
            r is Ok ==> {
                &&& final(db).transactions@.len() == old(db).transactions@.len() + 1
                &&& final(db).transactions@.drop_last() == old(db).transactions@
                &&& final(db).transactions@.last().name@ == name@
                &&& final(db).transactions@.last().date == crate::dates::date_code_of(date@)
                &&& final(db).transactions@.last().amount == amount
                &&& final(db).transactions@.last().tag_id == old(db).tags.rows@[name_index(
                    old(db).tags.rows@,
                    tag@,
                )].id
            },
    {
        let cmd = AddTransaction { name, date, amount, tag };
        cmd.execute(db)
    }
}

/// Add a payroll: the date and the company are given by name and resolved
/// here; the category is already an id.
#[derive(Debug, Clone)]
pub struct AddPayroll {
    pub date: String,
    pub gross: i64,
    pub net: i64,
    pub ss: i64,
    pub irpf: i64,
    pub company: String,
    pub category_id: i32,
}

/// All four monetary arguments of a payroll command are within range.
pub open spec fn payroll_amounts_ok(c: AddPayroll) -> bool {
    &&& -MAX_AMOUNT_CENTS <= c.gross <= MAX_AMOUNT_CENTS
    &&& -MAX_AMOUNT_CENTS <= c.net <= MAX_AMOUNT_CENTS
    &&& -MAX_AMOUNT_CENTS <= c.ss <= MAX_AMOUNT_CENTS
    &&& -MAX_AMOUNT_CENTS <= c.irpf <= MAX_AMOUNT_CENTS
}

impl AddPayroll {
    /// Resolve the date and the company, then append the payroll. Fails
    /// without touching the ledger: on a malformed date, an unknown company,
    /// an amount out of range, or a full ledger, in that order of checks.
    /// The category id is stored as given, unresolved, and shows as
    /// `Unknown` in reports when it matches no category.
    pub fn execute(&self, db: &mut Ledger) -> (r: Result<(), CmdError>)
        requires
            ledger_wf(*old(db)),
        ensures
            ledger_wf(*final(db)),
            r is Err ==> *final(db) == *old(db),
            r == Err::<(), CmdError>(CmdError::BadDate) <==> !crate::dates::valid_date(self.date@),
            r == Err::<(), CmdError>(CmdError::UnknownCompany) <==> crate::dates::valid_date(
                self.date@,
            ) && !table_has_name(old(db).companies.rows@, self.company@),
            r == Err::<(), CmdError>(CmdError::BadAmount) <==> crate::dates::valid_date(self.date@)
                && table_has_name(old(db).companies.rows@, self.company@) && !payroll_amounts_ok(
                *self,
            ),
            r == Err::<(), CmdError>(CmdError::StoreFull) <==> crate::dates::valid_date(self.date@)
                && table_has_name(old(db).companies.rows@, self.company@) && payroll_amounts_ok(
                *self,
            ) && old(db).payrolls@.len() >= MAX_GROUP_ROWS,
            r is Ok <==> crate::dates::valid_date(self.date@) && table_has_name(
                old(db).companies.rows@,
                self.company@,
            ) && payroll_amounts_ok(*self) && old(db).payrolls@.len() < MAX_GROUP_ROWS,
            r is Ok ==> {
                &&& final(db).payrolls@.len() == old(db).payrolls@.len() + 1
                &&& final(db).payrolls@.drop_last() == old(db).payrolls@
                &&& final(db).payrolls@.last()._id == 0
                &&& final(db).payrolls@.last().date == crate::dates::date_code_of(self.date@)
                &&& final(db).payrolls@.last().gross == self.gross
                &&& final(db).payrolls@.last().net == self.net
                &&& final(db).payrolls@.last().ss == self.ss
                &&& final(db).payrolls@.last().irpf == self.irpf
                &&& final(db).payrolls@.last().company_id == old(db).companies.rows@[name_index(
                    old(db).companies.rows@,
                    self.company@,
                )].id
                &&& final(db).payrolls@.last().category_id == self.category_id
                &&& final(db).tags == old(db).tags
                &&& final(db).companies == old(db).companies
                &&& final(db).categories == old(db).categories
                &&& final(db).accounts == old(db).accounts
                &&& final(db).transactions == old(db).transactions
            },
    {
        let date = match crate::dates::code_date(self.date.as_str()) {
            None => {
                return Err(CmdError::BadDate);
            },
            Some(d) => d,
        };
        let company_id = match db.companies.get_id(self.company.as_str()) {
            None => {
                return Err(CmdError::UnknownCompany);
            },
            Some(c) => c,
        };
        if self.gross < -MAX_AMOUNT_CENTS || self.gross > MAX_AMOUNT_CENTS || self.net
            < -MAX_AMOUNT_CENTS || self.net > MAX_AMOUNT_CENTS || self.ss < -MAX_AMOUNT_CENTS
            || self.ss > MAX_AMOUNT_CENTS || self.irpf < -MAX_AMOUNT_CENTS || self.irpf
            > MAX_AMOUNT_CENTS {
            return Err(CmdError::BadAmount);
        }
        if db.payrolls.len() >= MAX_GROUP_ROWS {
            return Err(CmdError::StoreFull);
        }
        let p = Payroll::new(date, self.gross, self.net, self.ss, self.irpf, company_id, self.category_id);
        db.payrolls.push(p);
        proof {
            assert(final(db).payrolls@.drop_last() =~= old(db).payrolls@);
        }
        Ok(())
    }
}

/// Add a payroll from interactively gathered arguments.
#[derive(Debug, Clone)]
pub struct AddPayrollP;

impl AddPayrollP {
    /// Append the payroll built from the prompted values; the checks and the
    /// effect are those of [`AddPayroll::execute`].
    pub fn execute(&self, db: &mut Ledger, date: String, gross: i64, net: i64, ss: i64, irpf: i64, company: String, category_id: i32) -> (r: Result<(), CmdError>)
        requires
            ledger_wf(*old(db)),
        ensures
            ledger_wf(*final(db)),
            r is Err ==> *final(db) == *old(db),
            r is Ok <==> crate::dates::valid_date(date@) && table_has_name(
                old(db).companies.rows@,
                company@,
            ) && payroll_amounts_ok(AddPayroll { date, gross, net, ss, irpf, company, category_id })
                && old(db).payrolls@.len() < MAX_GROUP_ROWS,
            r is Ok ==> {
                &&& final(db).payrolls@.len() == old(db).payrolls@.len() + 1
                &&& final(db).payrolls@.drop_last() == old(db).payrolls@
                &&& final(db).payrolls@.last().date == crate::dates::date_code_of(date@)
                &&& final(db).payrolls@.last().gross == gross
                &&& final(db).payrolls@.last().net == net
                &&& final(db).payrolls@.last().ss == ss
                &&& final(db).payrolls@.last().irpf == irpf
                &&& final(db).payrolls@.last().category_id == category_id
            },
    {
        let cmd = AddPayroll { date, gross, net, ss, irpf, company, category_id };
        cmd.execute(db)
    }
}

/// Repeat the last payroll on a new date. The verb is reserved; its work is
/// not implemented.
#[derive(Debug, Clone)]
pub struct RepeatPayroll {
    pub date: String,
}

impl RepeatPayroll {
    /// Always reports that the command is not implemented.
    pub fn execute(&self) -> (r: Result<(), CmdError>)
        ensures
            r == Err::<(), CmdError>(CmdError::NotImplemented),
    {
        Err(CmdError::NotImplemented)
    }
}

} // verus!

verus! {

/// Index of the first account carrying this name; -1 when there is none.
pub open spec fn account_index(s: Seq<Account>, n: Seq<char>) -> int
    decreases s.len(),
{
    if s.len() == 0 {
        -1
    } else if s[0].name@ == n {
        0
    } else {
        let r = account_index(s.subrange(1, s.len() as int), n);
        if r == -1 {
            -1
        } else {
            r + 1
        }
    }
}

/// Some account carries this name.
pub open spec fn has_account(s: Seq<Account>, n: Seq<char>) -> bool {
    exists|i: int| 0 <= i < s.len() && (#[trigger] s[i]).name@ == n
}

proof fn lemma_account_index_found(s: Seq<Account>, n: Seq<char>)
    requires
        has_account(s, n),
    ensures
        0 <= account_index(s, n) < s.len(),
        s[account_index(s, n)].name@ == n,
    decreases s.len(),
{
    if s.len() > 0 && s[0].name@ != n {
        let tail = s.subrange(1, s.len() as int);
        assert(has_account(tail, n)) by {
            let i = choose|i: int| 0 <= i < s.len() && (#[trigger] s[i]).name@ == n;
            assert(tail[i - 1].name@ == n);
        }
        lemma_account_index_found(tail, n);
    }
}

proof fn lemma_account_index_at(s: Seq<Account>, n: Seq<char>, i: int)
    requires
        0 <= i < s.len(),
        s[i].name@ == n,
        forall|m: int| 0 <= m < i ==> (#[trigger] s[m]).name@ != n,
    ensures
        account_index(s, n) == i,
    decreases s.len(),
{
    if i > 0 {
        let tail = s.subrange(1, s.len() as int);
        assert(tail[i - 1].name@ == n);
        assert(forall|m: int| 0 <= m < i - 1 ==> (#[trigger] tail[m]).name@ != n) by {
            assert(forall|m: int| 0 <= m < i - 1 ==> tail[m] == #[trigger] s[m + 1]);
        }
        lemma_account_index_at(tail, n, i - 1);
    }
}

/// Each account reduced to its balance, for summation.
pub open spec fn account_pairs(s: Seq<Account>) -> Seq<KeyedAmount> {
    s.map_values(|a: Account| KeyedAmount { key: 0, amount: a.amount })
}

/// One line of the account listing: id, name, balance and description.
pub open spec fn account_line(a: Account) -> Seq<char> {
    "["@ + int_digits(a._id as int) + "]: "@ + a.name@ + " - ("@ + cents_digits(a.amount as int)
        + ") | "@ + a.description@ + "\n"@
}

/// The account listing, one line per account in store order.
pub open spec fn account_lines(s: Seq<Account>) -> Seq<char>
    decreases s.len(),
{
    if s.len() == 0 {
        Seq::empty()
    } else {
        account_lines(s.drop_last()) + account_line(s.last())
    }
}

/// Add an account with an opening balance.
#[derive(Debug, Clone)]
pub struct AddAccount {
    pub name: String,
    pub amount: i64,
    pub description: String,
}

impl AddAccount {
    /// Append the account; it receives the next id. Fails without touching
    /// the ledger on a balance out of range or a full ledger.
    pub fn execute(&self, db: &mut Ledger) -> (r: Result<i32, CmdError>)
        requires
            ledger_wf(*old(db)),
        ensures
            ledger_wf(*final(db)),
            r is Err ==> *final(db) == *old(db),
            r == Err::<i32, CmdError>(CmdError::BadAmount) <==> !(-MAX_AMOUNT_CENTS <= self.amount
                <= MAX_AMOUNT_CENTS),
            r == Err::<i32, CmdError>(CmdError::StoreFull) <==> -MAX_AMOUNT_CENTS <= self.amount
                <= MAX_AMOUNT_CENTS && old(db).accounts@.len() >= MAX_GROUP_ROWS,
            r is Ok <==> -MAX_AMOUNT_CENTS <= self.amount <= MAX_AMOUNT_CENTS && old(db).accounts@.len() < MAX_GROUP_ROWS,
            r matches Ok(id) ==> {
                &&& id == old(db).accounts@.len() + 1
                &&& final(db).accounts@.len() == old(db).accounts@.len() + 1
                &&& final(db).accounts@.drop_last() == old(db).accounts@
                &&& final(db).accounts@.last()._id == id
                &&& final(db).accounts@.last().name@ == self.name@
                &&& final(db).accounts@.last().amount == self.amount
                &&& final(db).accounts@.last().description@ == self.description@
                &&& final(db).tags == old(db).tags
                &&& final(db).companies == old(db).companies
                &&& final(db).categories == old(db).categories
                &&& final(db).transactions == old(db).transactions
                &&& final(db).payrolls == old(db).payrolls
            },
    {
        if self.amount < -MAX_AMOUNT_CENTS || self.amount > MAX_AMOUNT_CENTS {
            return Err(CmdError::BadAmount);
        }
        if db.accounts.len() >= MAX_GROUP_ROWS {
            return Err(CmdError::StoreFull);
        }
        let id = (db.accounts.len() as i32) + 1;
        let mut a = Account::new(self.name.as_str(), self.amount, self.description.as_str());
        a._id = id;
        db.accounts.push(a);
        proof {
            assert(final(db).accounts@.drop_last() =~= old(db).accounts@);
        }
        Ok(id)
    }
}

/// Show one account by name, or all accounts with their total.
#[derive(Debug, Clone)]
pub struct GetAccount {
    pub name: String,
}

impl GetAccount {
    /// Render the account named `all` specially: the listing with the total.
    /// Otherwise the first account with the given name, or an error when
    /// none carries it.
    pub fn execute(&self, db: &Ledger) -> (r: Result<String, CmdError>)
        requires
            ledger_wf(*db),
        ensures
            self.name@ == "all"@ ==> (r matches Ok(s) && s@ == account_lines(db.accounts@)
                + "Total: "@ + cents_digits(total_of(account_pairs(db.accounts@))) + "\n"@),
            self.name@ != "all"@ ==> {
                &&& (r is Ok <==> has_account(db.accounts@, self.name@))
                &&& (r matches Ok(s) ==> s@ == account_line(
                    db.accounts@[account_index(db.accounts@, self.name@)],
                ))
                &&& (r is Err ==> r == Err::<String, CmdError>(CmdError::UnknownAccount))
            },
    {
        if str_eq(self.name.as_str(), "all") {
            return Ok(self.execute_all(db));
        }
        let n = db.accounts.len();
        let mut i: usize = 0;
        while i < n
            invariant
                i <= n == db.accounts@.len(),
                accounts_bounded(db.accounts@),
                self.name@ != "all"@,
                forall|m: int| 0 <= m < i ==> (#[trigger] db.accounts@[m]).name@ != self.name@,
            decreases n - i,
        {
            if str_eq(db.accounts[i].name.as_str(), self.name.as_str()) {
                proof {
                    lemma_account_index_at(db.accounts@, self.name@, i as int);
                }
                return Ok(render_account_line(&db.accounts[i]));
            }
            i += 1;
        }
        proof {
            if has_account(db.accounts@, self.name@) {
                let m = choose|m: int|
                    0 <= m < db.accounts@.len() && (#[trigger] db.accounts@[m]).name@ == self.name@;
                assert(false);
            }
        }
        Err(CmdError::UnknownAccount)
    }

    /// Render every account, one line each, then the total of the balances.
    pub fn execute_all(&self, db: &Ledger) -> (r: String)
        requires
            ledger_wf(*db),
        ensures
            r@ == account_lines(db.accounts@) + "Total: "@ + cents_digits(
                total_of(account_pairs(db.accounts@)),
            ) + "\n"@,
    {
        let mut out = String::new();
        let n = db.accounts.len();
        let mut pairs: Vec<KeyedAmount> = Vec::new();
        let mut i: usize = 0;
        while i < n
            invariant
                i <= n == db.accounts@.len(),
                accounts_bounded(db.accounts@),
                out@ == account_lines(db.accounts@.take(i as int)),
                pairs@ == account_pairs(db.accounts@.take(i as int)),
            decreases n - i,
        {
            out.append(render_account_line(&db.accounts[i]).as_str());
            pairs.push(KeyedAmount { key: 0, amount: db.accounts[i].amount });
            proof {
                assert(db.accounts@.take(i + 1).drop_last() =~= db.accounts@.take(i as int));
                assert(db.accounts@.take(i + 1).last() == db.accounts@[i as int]);
                assert(pairs@ =~= account_pairs(db.accounts@.take(i + 1)));
            }
            i += 1;
        }
        proof {
            assert(db.accounts@.take(n as int) =~= db.accounts@);
            assert forall|m: int| 0 <= m < pairs@.len() implies -MAX_AMOUNT_CENTS
                <= #[trigger] pairs@[m].amount <= MAX_AMOUNT_CENTS by {
                assert(account_bounded(db.accounts@[m]));
            }
        }
        let sum = crate::aggregate::total(&pairs);
        out.append("Total: ");
        out.append(format_cents(sum).as_str());
        out.append("\n");
        out
    }
}

/// Render one account listing line.
fn render_account_line(a: &Account) -> (r: String)
    ensures
        r@ == account_line(*a),
{
    let mut out = String::from_str("[");
    out.append(format_int(a._id as i64).as_str());
    out.append("]: ");
    out.append(a.name.as_str());
    out.append(" - (");
    out.append(format_cents(a.amount).as_str());
    out.append(") | ");
    out.append(a.description.as_str());
    out.append("\n");
    out
}

/// Overwrite an account's balance. The verb is reserved; balance mutation is
/// deliberately not implemented.
#[derive(Debug, Clone)]
pub struct SetAccountBalance {
    pub name: String,
    pub amount: i64,
}

impl SetAccountBalance {
    /// Always reports that the command is not implemented.
    pub fn execute(&self) -> (r: Result<(), CmdError>)
        ensures
            r == Err::<(), CmdError>(CmdError::NotImplemented),
    {
        Err(CmdError::NotImplemented)
    }
}

} // verus!

verus! {

/// One line of a reference-table listing: id, name and description.
pub open spec fn name_line(n: Name) -> Seq<char> {
    "["@ + int_digits(n.id as int) + "]: "@ + n.name@ + " - "@ + n.description@ + "\n"@
}

/// A reference-table listing, one line per row in id order.
pub open spec fn name_lines(rows: Seq<Name>) -> Seq<char>
    decreases rows.len(),
{
    if rows.len() == 0 {
        Seq::empty()
    } else {
        name_lines(rows.drop_last()) + name_line(rows.last())
    }
}

/// The full listing text of one reference table, under its caption.
pub open spec fn list_text(caption: Seq<char>, rows: Seq<Name>) -> Seq<char> {
    "List of "@ + caption + ": \n"@ + name_lines(rows) + "\n"@
}

/// Render the listing of one reference table under a caption.
pub fn list_all(table: &str, list: &Vec<Name>) -> (r: String)
    ensures
        r@ == list_text(table@, list@),
{
    let mut out = String::from_str("List of ");
    out.append(table);
    out.append(": \n");
    let n = list.len();
    let mut i: usize = 0;
    while i < n
        invariant
            i <= n == list@.len(),
            out@ == "List of "@ + table@ + ": \n"@ + name_lines(list@.take(i as int)),
        decreases n - i,
    {
        let row = &list[i];
        out.append("[");
        out.append(format_int(row.id as i64).as_str());
        out.append("]: ");
        out.append(row.name.as_str());
        out.append(" - ");
        out.append(row.description.as_str());
        out.append("\n");
        proof {
            assert(list@.take(i + 1).drop_last() =~= list@.take(i as int));
            assert(list@.take(i + 1).last() == list@[i as int]);
            assert(out@ =~= "List of "@ + table@ + ": \n"@ + name_lines(list@.take(i + 1)));
        }
        i += 1;
    }
    proof {
        assert(list@.take(n as int) =~= list@);
    }
    out.append("\n");
    out
}

/// Which reference table a (case-insensitive) name denotes.
pub open spec fn spec_table_choice(t: Seq<char>) -> Option<int> {
    if lower_seq(t) == "tag"@ {
        Some(0int)
    } else if lower_seq(t) == "company"@ {
        Some(1int)
    } else if lower_seq(t) == "category"@ {
        Some(2int)
    } else {
        None
    }
}

/// The rows of the chosen reference table.
pub open spec fn spec_chosen_rows(db: Ledger, choice: int) -> Seq<Name> {
    if choice == 0 {
        db.tags.rows@
    } else if choice == 1 {
        db.companies.rows@
    } else {
        db.categories.rows@
    }
}

/// Which of the three reference tables a name denotes, case-insensitively.
fn table_choice(t: &str) -> (r: Option<u8>)
    ensures
        r is Some <==> spec_table_choice(t@) is Some,
        r matches Some(c) ==> Some(c as int) == spec_table_choice(t@),
{
    let lower = to_ascii_lowercase(t);
    if str_eq(lower.as_str(), "tag") {
        Some(0)
    } else if str_eq(lower.as_str(), "company") {
        Some(1)
    } else if str_eq(lower.as_str(), "category") {
        Some(2)
    } else {
        None
    }
}

/// Resolve an id to a display name in one of the three reference tables.
#[derive(Debug, Clone)]
pub struct GetName {
    pub table: String,
    pub id: i32,
}

impl GetName {
    /// The display name the id resolves to in the named table; fails on an
    /// unknown table name or an id no row carries.
    pub fn execute(&self, db: &Ledger) -> (r: Result<String, CmdError>)
        requires
            ledger_wf(*db),
        ensures
            spec_table_choice(self.table@) is None <==> r == Err::<String, CmdError>(
                CmdError::InvalidTable,
            ),
            spec_table_choice(self.table@) matches Some(c) ==> {
                &&& (r is Ok <==> spec_name_of(spec_chosen_rows(*db, c), self.id as int) is Some)
                &&& (r matches Ok(s) ==> spec_name_of(spec_chosen_rows(*db, c), self.id as int)
                    == Some(s@))
                &&& (r is Err ==> r == Err::<String, CmdError>(CmdError::UnknownId))
            },
    {
        let rows = match table_choice(self.table.as_str()) {
            None => {
                return Err(CmdError::InvalidTable);
            },
            Some(0) => &db.tags,
            Some(1) => &db.companies,
            Some(_) => &db.categories,
        };
        match rows.get_name(self.id) {
            Some(name) => Ok(name),
            None => Err(CmdError::UnknownId),
        }
    }
}

/// Resolve a display name to its id in one of the three reference tables.
#[derive(Debug, Clone)]
pub struct GetId {
    pub table: String,
    pub name: String,
}

impl GetId {
    /// The id of the first row carrying the name in the named table; fails on
    /// an unknown table name or a name no row carries.
    pub fn execute(&self, db: &Ledger) -> (r: Result<i32, CmdError>)
        requires
            ledger_wf(*db),
        ensures
            spec_table_choice(self.table@) is None <==> r == Err::<i32, CmdError>(
                CmdError::InvalidTable,
            ),
            spec_table_choice(self.table@) matches Some(c) ==> {
                &&& (r is Ok <==> table_has_name(spec_chosen_rows(*db, c), self.name@))
                &&& (r matches Ok(id) ==> id == spec_chosen_rows(*db, c)[name_index(
                    spec_chosen_rows(*db, c),
                    self.name@,
                )].id)
                &&& (r is Err ==> r == Err::<i32, CmdError>(CmdError::UnknownName))
            },
    {
        let rows = match table_choice(self.table.as_str()) {
            None => {
                return Err(CmdError::InvalidTable);
            },
            Some(0) => &db.tags,
            Some(1) => &db.companies,
            Some(_) => &db.categories,
        };
        match rows.get_id(self.name.as_str()) {
            Some(id) => Ok(id),
            None => Err(CmdError::UnknownName),
        }
    }
}

/// List every tag.
#[derive(Debug, Clone)]
pub struct GetTags;

/// List every company.
#[derive(Debug, Clone)]
pub struct GetCompanies;

/// List every category.
#[derive(Debug, Clone)]
pub struct GetCategories;

impl GetTags {
    /// The tags listing, one line per row in id order.
    pub fn execute(&self, db: &Ledger) -> (r: String)
        ensures
            r@ == list_text("tags"@, db.tags.rows@),
    {
        list_all("tags", db.tags.all())
    }
}

impl GetCompanies {
    /// The companies listing, one line per row in id order.
    pub fn execute(&self, db: &Ledger) -> (r: String)
        ensures
            r@ == list_text("companies"@, db.companies.rows@),
    {
        list_all("companies", db.companies.all())
    }
}

impl GetCategories {
    /// The categories listing, one line per row in id order.
    pub fn execute(&self, db: &Ledger) -> (r: String)
        ensures
            r@ == list_text("categories"@, db.categories.rows@),
    {
        list_all("categories", db.categories.all())
    }
}

/// A command that only echoes its flag, kept for smoke-testing the wiring.
#[derive(Debug, Clone)]
pub struct Test {
    pub debug: bool,
}

impl Test {
    /// Echo the flag.
    pub fn execute(&self) -> (r: String)
        ensures
            self.debug ==> r@ == "Test debug info: true"@,
            !self.debug ==> r@ == "Test debug info: false"@,
    {
        if self.debug {
            String::from_str("Test debug info: true")
        } else {
            String::from_str("Test debug info: false")
        }
    }
}

} // verus!

verus! {

/// A filtered transaction list stays bounded.
pub proof fn lemma_filter_keeps_transactions_bounded(
    s: Seq<Transaction>,
    pred: spec_fn(Transaction) -> bool,
)
    requires
        transactions_bounded(s),
    ensures
        transactions_bounded(s.filter(pred)),
    decreases s.len(),
{
    reveal(Seq::filter);
    if s.len() > 0 {
        assert(transactions_bounded(s.drop_last())) by {
            assert(forall|i: int|
                0 <= i < s.drop_last().len() ==> #[trigger] s.drop_last()[i] == s[i]);
            assert(forall|i: int|
                0 <= i < s.drop_last().len() ==> transaction_bounded(#[trigger] s.drop_last()[i]));
        }
        lemma_filter_keeps_transactions_bounded(s.drop_last(), pred);
        let sub = s.drop_last().filter(pred);
        assert(transaction_bounded(s[s.len() - 1]));
        if pred(s.last()) {
            assert(s.filter(pred) == sub.push(s.last()));
            assert(forall|i: int|
                0 <= i < sub.len() ==> #[trigger] sub.push(s.last())[i] == sub[i]);
        }
    }
}

/// A filtered payroll list stays bounded.
pub proof fn lemma_filter_keeps_payrolls_bounded(s: Seq<Payroll>, pred: spec_fn(Payroll) -> bool)
    requires
        payrolls_bounded(s),
    ensures
        payrolls_bounded(s.filter(pred)),
    decreases s.len(),
{
    reveal(Seq::filter);
    if s.len() > 0 {
        assert(payrolls_bounded(s.drop_last())) by {
            assert(forall|i: int|
                0 <= i < s.drop_last().len() ==> #[trigger] s.drop_last()[i] == s[i]);
            assert(forall|i: int|
                0 <= i < s.drop_last().len() ==> payroll_bounded(#[trigger] s.drop_last()[i]));
        }
        lemma_filter_keeps_payrolls_bounded(s.drop_last(), pred);
        let sub = s.drop_last().filter(pred);
        assert(payroll_bounded(s[s.len() - 1]));
        if pred(s.last()) {
            assert(s.filter(pred) == sub.push(s.last()));
            assert(forall|i: int|
                0 <= i < sub.len() ==> #[trigger] sub.push(s.last())[i] == sub[i]);
        }
    }
}

/// Report the transactions of a year and month (or of everything, when the
/// filters are absent).
#[derive(Debug, Clone)]
pub struct TransactionData {
    pub year: Option<u32>,
    pub month: Option<u32>,
}

impl TransactionData {
    /// Filter the transactions by the optional year and month, aggregate
    /// them by tag and render the report.
    pub fn execute(&self, db: &Ledger) -> (r: String)
        requires
            ledger_wf(*db),
        ensures
            ({
                let rows = db.transactions@.filter(
                    |t: Transaction| date_matches(t.date as int, self.year, self.month),
                );
                exists|vm: crate::report::TransactionDataVm|
                    #[trigger] crate::report::tvm_ok(vm, rows) && r@ == crate::report::t_report_text(
                        vm,
                        rows,
                        db.tags.rows@,
                    )
            }),
    {
        let rows = crate::models::filter_transactions(&db.transactions, self.year, self.month);
        proof {
            lemma_filter_keeps_transactions_bounded(
                db.transactions@,
                |t: Transaction| date_matches(t.date as int, self.year, self.month),
            );
        }
        let vm = crate::report::TransactionDataVm::generate(&rows);
        let out = vm.render(&rows, &db.tags);
        proof {
            assert(crate::report::tvm_ok(vm, rows@));
        }
        out
    }
}

/// Report the payrolls of a year and month (or of everything, when the
/// filters are absent), with the full listing behind a flag.
#[derive(Debug, Clone)]
pub struct PayrollData {
    pub year: Option<u32>,
    pub month: Option<u32>,
    pub list: bool,
}

impl PayrollData {
    /// Filter the payrolls by the optional year and month, aggregate them by
    /// company and by category and render the report.
    pub fn execute(&self, db: &Ledger) -> (r: String)
        requires
            ledger_wf(*db),
        ensures
            ({
                let rows = db.payrolls@.filter(
                    |p: Payroll| date_matches(p.date as int, self.year, self.month),
                );
                exists|vm: crate::report::PayrollDataVm|
                    #[trigger] crate::report::pvm_ok(vm, rows) && r@ == crate::report::p_report_text(
                        vm,
                        rows,
                        db.companies.rows@,
                        db.categories.rows@,
                        self.list,
                    )
            }),
    {
        let rows = crate::models::filter_payrolls(&db.payrolls, self.year, self.month);
        proof {
            lemma_filter_keeps_payrolls_bounded(
                db.payrolls@,
                |p: Payroll| date_matches(p.date as int, self.year, self.month),
            );
        }
        let vm = crate::report::PayrollDataVm::generate(&rows);
        let out = vm.render(self.list, &rows, &db.companies, &db.categories);
        proof {
            assert(crate::report::pvm_ok(vm, rows@));
        }
        out
    }
}

/// Report income against expenses for a year and month (or for everything).
#[derive(Debug, Clone)]
pub struct BalanceSummary {
    pub year: Option<u32>,
    pub month: Option<u32>,
}

impl BalanceSummary {
    /// Filter both row sets by the optional year and month, aggregate them
    /// and render the two reports with the closing balance.
    pub fn execute(&self, db: &Ledger) -> (r: String)
        requires
            ledger_wf(*db),
        ensures
            ({
                let payrolls = db.payrolls@.filter(
                    |p: Payroll| date_matches(p.date as int, self.year, self.month),
                );
                let transactions = db.transactions@.filter(
                    |t: Transaction| date_matches(t.date as int, self.year, self.month),
                );
                exists|vm: crate::report::BalanceSummaryVm|
                    {
                        &&& #[trigger] crate::report::pvm_ok(vm.payroll, payrolls)
                        &&& crate::report::tvm_ok(vm.transactions, transactions)
                        &&& r@ == crate::report::b_report_text(
                            vm,
                            payrolls,
                            transactions,
                            db.companies.rows@,
                            db.categories.rows@,
                            db.tags.rows@,
                        )
                    }
            }),
    {
        let ghost tpred = |t: Transaction| date_matches(t.date as int, self.year, self.month);
        let ghost ppred = |p: Payroll| date_matches(p.date as int, self.year, self.month);
        let payrolls = crate::models::filter_payrolls(&db.payrolls, self.year, self.month);
        let transactions = crate::models::filter_transactions(
            &db.transactions,
            self.year,
            self.month,
        );
        proof {
            lemma_filter_keeps_payrolls_bounded(db.payrolls@, ppred);
            lemma_filter_keeps_transactions_bounded(db.transactions@, tpred);
        }
        let vm = crate::report::BalanceSummaryVm::generate(&payrolls, &transactions);
        proof {
            crate::report::lemma_payroll_pairs_bounded(
                payrolls@,
                crate::report::payroll_component_pairs(payrolls@, crate::report::PayComponent::Net),
            );
            crate::aggregate::lemma_total_bounded(
                crate::report::payroll_component_pairs(payrolls@, crate::report::PayComponent::Net),
                MAX_AMOUNT_CENTS as int,
            );
            assert(payrolls@.len() * (MAX_AMOUNT_CENTS as int) <= 0x2000_0000_0000_0000int)
                by (nonlinear_arith)
                requires
                    0 <= payrolls@.len() <= 0x10000,
                    MAX_AMOUNT_CENTS == 0x2000_0000_0000,
            ;
            assert forall|i: int|
                0 <= i < crate::report::transaction_pairs(transactions@).len() implies
                -MAX_AMOUNT_CENTS <= #[trigger] crate::report::transaction_pairs(
                transactions@,
            )[i].amount <= MAX_AMOUNT_CENTS by {
                assert(transaction_bounded(transactions@[i]));
            }
            crate::aggregate::lemma_total_bounded(
                crate::report::transaction_pairs(transactions@),
                MAX_AMOUNT_CENTS as int,
            );
            assert(transactions@.len() * (MAX_AMOUNT_CENTS as int) <= 0x2000_0000_0000_0000int)
                by (nonlinear_arith)
                requires
                    0 <= transactions@.len() <= 0x10000,
                    MAX_AMOUNT_CENTS == 0x2000_0000_0000,
            ;
        }
        let out = vm.render(&payrolls, &transactions, &db.companies, &db.categories, &db.tags);
        proof {
            assert(crate::report::pvm_ok(vm.payroll, payrolls@));
        }
        out
    }
}

} // verus!

verus! {

/// Import transactions in bulk from a CSV file; the command carries the file
/// name, the caller brings the bytes.
#[derive(Debug, Clone)]
pub struct ParseTransaction {
    pub filename: String,
}

impl ParseTransaction {
    /// Import the records in `data` and append every good transaction to the
    /// ledger; bad rows are reported in the result, not fatal. Fails without
    /// touching the ledger only when the good rows would not all fit.
    #[verifier::loop_isolation(false)]
    pub fn execute(&self, data: &[u8], db: &mut Ledger) -> (r: Result<
        crate::import::ImportReport,
        CmdError,
    >)
        requires
            ledger_wf(*old(db)),
        ensures
            ledger_wf(*final(db)),
            ({
                let recs = crate::import::csv_records_of(data@);
                let good = crate::import::good_records(recs, old(db).tags.rows@);
                &&& (r is Ok <==> old(db).transactions@.len() + good.len() <= MAX_GROUP_ROWS)
                &&& (r is Err ==> r == Err::<crate::import::ImportReport, CmdError>(
                    CmdError::StoreFull,
                ) && *final(db) == *old(db))
                &&& (r matches Ok(rep) ==> {
                    &&& rep.transactions@.len() == good.len()
                    &&& forall|i: int|
                        0 <= i < rep.transactions@.len() ==> crate::import::tx_matches_rec(
                            #[trigger] rep.transactions@[i],
                            good[i],
                            old(db).tags.rows@,
                        )
                    &&& crate::import::errors_view(rep.errors@) == crate::import::spec_errors(
                        recs,
                        old(db).tags.rows@,
                    )
                    &&& final(db).transactions@ == old(db).transactions@ + rep.transactions@
                    &&& final(db).tags == old(db).tags
                    &&& final(db).companies == old(db).companies
                    &&& final(db).categories == old(db).categories
                    &&& final(db).accounts == old(db).accounts
                    &&& final(db).payrolls == old(db).payrolls
                })
            }),
    {
        let ghost recs = crate::import::csv_records_of(data@);
        let ghost pred = |rec: Seq<Seq<char>>| crate::import::rec_ok(rec, old(db).tags.rows@);
        let report = crate::import::parse_transactions(data, &db.tags);
        let n = report.transactions.len();
        if n > MAX_GROUP_ROWS - db.transactions.len() {
            return Err(CmdError::StoreFull);
        }
        proof {
            let good = crate::import::good_records(recs, old(db).tags.rows@);
            assert forall|m: int|
                0 <= m < report.transactions@.len() implies transaction_bounded(
                #[trigger] report.transactions@[m],
            ) by {
                recs.lemma_filter_pred(pred, m);
                assert(crate::import::rec_ok(good[m], old(db).tags.rows@));
                assert(crate::import::tx_matches_rec(
                    report.transactions@[m],
                    good[m],
                    old(db).tags.rows@,
                ));
                crate::dates::lemma_date_code_bounds(
                    crate::amount::replaced(good[m][1], '/', '-'),
                );
            }
        }
        let ghost base = db.transactions@;
        let mut i: usize = 0;
        while i < n
            invariant
                i <= n == report.transactions@.len(),
                base.len() + n <= MAX_GROUP_ROWS,
                transactions_bounded(base),
                forall|m: int|
                    0 <= m < n ==> transaction_bounded(#[trigger] report.transactions@[m]),
                db.transactions@ == base + report.transactions@.take(i as int),
                db.tags == old(db).tags,
                db.companies == old(db).companies,
                db.categories == old(db).categories,
                db.accounts == old(db).accounts,
                db.payrolls == old(db).payrolls,
            decreases n - i,
        {
            db.transactions.push(report.transactions[i].clone());
            proof {
                assert(db.transactions@ =~= base + report.transactions@.take(i + 1));
            }
            i += 1;
        }
        proof {
            assert(report.transactions@.take(n as int) =~= report.transactions@);
            assert(transactions_bounded(db.transactions@)) by {
                assert(forall|m: int|
                    0 <= m < base.len() ==> #[trigger] db.transactions@[m] == base[m]);
                assert(forall|m: int|
                    base.len() <= m < db.transactions@.len() ==> #[trigger] db.transactions@[m]
                        == report.transactions@[m - base.len()]);
            }
        }
        Ok(report)
    }
}

/// Import payrolls in bulk from a CSV file. The verb is reserved; its work
/// is not implemented.
#[derive(Debug, Clone)]
pub struct ParsePayroll {
    pub filename: String,
}

impl ParsePayroll {
    /// Always reports that the command is not implemented.
    pub fn execute(&self) -> (r: Result<(), CmdError>)
        ensures
            r == Err::<(), CmdError>(CmdError::NotImplemented),
    {
        Err(CmdError::NotImplemented)
    }
}

} // verus!

verus! {

/// What a dispatched command produced: a new row id, a plain completion,
/// a rendering to print, or a request for outside work (a file's bytes, or
/// interactively prompted arguments) that the caller must satisfy before
/// calling the command directly.
#[derive(Debug)]
pub enum CmdOutcome {
    Inserted(i32),
    Done,
    Text(String),
    NeedsFile(String),
    NeedsPrompt,
}

/// One CLI verb with its arguments.
#[derive(Debug)]
pub enum SubCommand {
    AddTransaction(AddTransaction),
    AddTransactionP(AddTransactionP),
    AddPayroll(AddPayroll),
    AddPayrollP(AddPayrollP),
    RepeatPayroll(RepeatPayroll),
    AddTag(AddTag),
    AddCompany(AddCompany),
    AddCategory(AddCategory),
    AddAccount(AddAccount),
    GetAccount(GetAccount),
    SetAccountBalance(SetAccountBalance),
    GetName(GetName),
    GetId(GetId),
    GetTags(GetTags),
    GetCompanies(GetCompanies),
    GetCategories(GetCategories),
    PayrollData(PayrollData),
    TransactionData(TransactionData),
    ParseTransaction(ParseTransaction),
    ParsePayroll(ParsePayroll),
    BalanceSummary(BalanceSummary),
    Test(Test),
}

impl SubCommand {
    /// The verb's display label.
    pub fn label(&self) -> (r: &'static str)
        ensures
            *self matches SubCommand::AddTag(_) ==> r@ == "AddTag"@,
            *self matches SubCommand::AddCompany(_) ==> r@ == "AddCompany"@,
            *self matches SubCommand::AddCategory(_) ==> r@ == "AddCategory"@,
            *self matches SubCommand::AddAccount(_) ==> r@ == "AddAccount"@,
            *self matches SubCommand::GetAccount(_) ==> r@ == "GetAccount"@,
            *self matches SubCommand::SetAccountBalance(_) ==> r@ == "SetAccountBalance"@,
            *self matches SubCommand::AddTransaction(_) ==> r@ == "AddTransaction"@,
            *self matches SubCommand::AddTransactionP(_) ==> r@ == "AddTransactionP"@,
            *self matches SubCommand::AddPayroll(_) ==> r@ == "AddPayroll"@,
            *self matches SubCommand::AddPayrollP(_) ==> r@ == "AddPayrollP"@,
            *self matches SubCommand::RepeatPayroll(_) ==> r@ == "RepeatPayroll"@,
            *self matches SubCommand::GetName(_) ==> r@ == "Debug-GetName"@,
            *self matches SubCommand::GetId(_) ==> r@ == "Debug-GetId"@,
            *self matches SubCommand::GetTags(_) ==> r@ == "GetTags"@,
            *self matches SubCommand::GetCompanies(_) ==> r@ == "GetCompanies"@,
            *self matches SubCommand::GetCategories(_) ==> r@ == "GetCategories"@,
            *self matches SubCommand::PayrollData(_) ==> r@ == "PayrollData"@,
            *self matches SubCommand::TransactionData(_) ==> r@ == "TransactionData"@,
            *self matches SubCommand::ParseTransaction(_) ==> r@ == "ParseTransaction"@,
            *self matches SubCommand::ParsePayroll(_) ==> r@ == "ParsePayroll"@,
            *self matches SubCommand::BalanceSummary(_) ==> r@ == "BalanceSummary"@,
            *self matches SubCommand::Test(_) ==> r@ == "Test"@,
    {
        match self {
            SubCommand::AddTag(_) => "AddTag",
            SubCommand::AddCompany(_) => "AddCompany",
            SubCommand::AddCategory(_) => "AddCategory",
            SubCommand::AddAccount(_) => "AddAccount",
            SubCommand::GetAccount(_) => "GetAccount",
            SubCommand::SetAccountBalance(_) => "SetAccountBalance",
            SubCommand::AddTransaction(_) => "AddTransaction",
            SubCommand::AddTransactionP(_) => "AddTransactionP",
            SubCommand::AddPayroll(_) => "AddPayroll",
            SubCommand::AddPayrollP(_) => "AddPayrollP",
            SubCommand::RepeatPayroll(_) => "RepeatPayroll",
            SubCommand::GetName(_) => "Debug-GetName",
            SubCommand::GetId(_) => "Debug-GetId",
            SubCommand::GetTags(_) => "GetTags",
            SubCommand::GetCompanies(_) => "GetCompanies",
            SubCommand::GetCategories(_) => "GetCategories",
            SubCommand::PayrollData(_) => "PayrollData",
            SubCommand::TransactionData(_) => "TransactionData",
            SubCommand::ParseTransaction(_) => "ParseTransaction",
            SubCommand::ParsePayroll(_) => "ParsePayroll",
            SubCommand::BalanceSummary(_) => "BalanceSummary",
            SubCommand::Test(_) => "Test",
        }
    }

    /// Dispatch the verb against the ledger. Commands that need outside work
    /// first (a file's bytes, prompted arguments) return the request instead
    /// of a result; the caller performs it and then calls that command's own
    /// `execute`.
    pub fn execute(&self, db: &mut Ledger) -> (r: Result<CmdOutcome, CmdError>)
        requires
            ledger_wf(*old(db)),
        ensures
            ledger_wf(*final(db)),
            r is Err ==> *final(db) == *old(db),
            *self matches SubCommand::AddTag(c) ==> (r is Ok <==> old(db).tags.rows@.len() < MAX_TABLE_ROWS),
            *self matches SubCommand::AddTag(c) ==> (r is Ok ==> (r matches Ok(CmdOutcome::Inserted(id)) && final(db).tags.rows@.len() == old(db).tags.rows@.len() + 1 && final(db).tags.rows@.last().name@ == c.name@ && id == old(db).tags.rows@.len() + 1)),
            *self matches SubCommand::AddCompany(c) ==> (r is Ok <==> old(db).companies.rows@.len() < MAX_TABLE_ROWS),
            *self matches SubCommand::AddCompany(c) ==> (r is Ok ==> (r matches Ok(
                CmdOutcome::Inserted(id),
            ) && final(db).companies.rows@.len() == old(db).companies.rows@.len() + 1 && final(db).companies.rows@.last().name@ == c.name@ && id == old(db).companies.rows@.len() + 1)),
            *self matches SubCommand::AddCategory(c) ==> (r is Ok <==> old(db).categories.rows@.len() < MAX_TABLE_ROWS),
            *self matches SubCommand::AddCategory(c) ==> (r is Ok ==> (r matches Ok(
                CmdOutcome::Inserted(id),
            ) && final(db).categories.rows@.len() == old(db).categories.rows@.len() + 1 && final(db).categories.rows@.last().name@ == c.name@ && id == old(db).categories.rows@.len()
                + 1)),
            *self matches SubCommand::AddAccount(c) ==> (r is Ok <==> -MAX_AMOUNT_CENTS <= c.amount <= MAX_AMOUNT_CENTS && old(db).accounts@.len() < MAX_GROUP_ROWS),
            *self matches SubCommand::AddAccount(c) ==> (r is Ok ==> (r matches Ok(
                CmdOutcome::Inserted(id),
            ) && final(db).accounts@.len() == old(db).accounts@.len() + 1 && final(db).accounts@.last().name@ == c.name@ && final(db).accounts@.last().amount == c.amount
                && id == old(db).accounts@.len() + 1)),
            *self matches SubCommand::AddTransaction(c) ==> {
                &&& (r is Ok <==> crate::dates::valid_date(c.date@) && table_has_name(
                    old(db).tags.rows@,
                    c.tag@,
                ) && -MAX_AMOUNT_CENTS <= c.amount <= MAX_AMOUNT_CENTS && old(db).transactions@.len() < MAX_GROUP_ROWS)
                &&& (r is Ok ==> (r matches Ok(CmdOutcome::Done) && final(db).transactions@.len()
                    == old(db).transactions@.len() + 1 && final(db).transactions@.last().amount
                    == c.amount && final(db).transactions@.last().date
                    == crate::dates::date_code_of(c.date@)))
            },
            *self matches SubCommand::AddPayroll(c) ==> {
                &&& (r is Ok <==> crate::dates::valid_date(c.date@) && table_has_name(
                    old(db).companies.rows@,
                    c.company@,
                ) && payroll_amounts_ok(c) && old(db).payrolls@.len() < MAX_GROUP_ROWS)
                &&& (r is Ok ==> (r matches Ok(CmdOutcome::Done) && final(db).payrolls@.len() == old(db).payrolls@.len() + 1 && final(db).payrolls@.last().gross == c.gross && final(db).payrolls@.last().net == c.net))
            },
            *self matches SubCommand::GetAccount(c) ==> (*final(db) == *old(db) && (c.name@
                != "all"@ ==> (r is Ok <==> has_account(old(db).accounts@, c.name@))) && (r
                matches Ok(CmdOutcome::Text(s)) ==> {
                &&& (c.name@ == "all"@ ==> s@ == account_lines(old(db).accounts@) + "Total: "@
                    + cents_digits(total_of(account_pairs(old(db).accounts@))) + "\n"@)
                &&& (c.name@ != "all"@ ==> s@ == account_line(
                    old(db).accounts@[account_index(old(db).accounts@, c.name@)],
                ))
            })),
            *self matches SubCommand::GetName(c) ==> (*final(db) == *old(db)
                && (spec_table_choice(c.table@) is None <==> r == Err::<CmdOutcome, CmdError>(
                CmdError::InvalidTable,
            )) && (spec_table_choice(c.table@) matches Some(ch) ==> (r matches Ok(
                CmdOutcome::Text(s),
            ) ==> spec_name_of(spec_chosen_rows(*old(db), ch), c.id as int) == Some(s@)))),
            *self matches SubCommand::GetId(c) ==> (*final(db) == *old(db) && (spec_table_choice(
                c.table@,
            ) is None <==> r == Err::<CmdOutcome, CmdError>(CmdError::InvalidTable)) && (
            spec_table_choice(c.table@) matches Some(ch) ==> (r matches Ok(
                CmdOutcome::Inserted(id),
            ) ==> id == spec_chosen_rows(*old(db), ch)[name_index(
                spec_chosen_rows(*old(db), ch),
                c.name@,
            )].id))),
            *self matches SubCommand::GetTags(_) ==> (*final(db) == *old(db) && (r matches Ok(
                CmdOutcome::Text(s),
            ) && s@ == list_text("tags"@, old(db).tags.rows@))),
            *self matches SubCommand::GetCompanies(_) ==> (*final(db) == *old(db) && (r matches Ok(
                CmdOutcome::Text(s),
            ) && s@ == list_text("companies"@, old(db).companies.rows@))),
            *self matches SubCommand::GetCategories(_) ==> (*final(db) == *old(db) && (r matches Ok(
                CmdOutcome::Text(s),
            ) && s@ == list_text("categories"@, old(db).categories.rows@))),
            *self matches SubCommand::TransactionData(c) ==> ({
                let rows = old(db).transactions@.filter(
                    |t: Transaction| date_matches(t.date as int, c.year, c.month),
                );
                *final(db) == *old(db) && (r matches Ok(CmdOutcome::Text(s)) && exists|
                    vm: crate::report::TransactionDataVm,
                |
                    #[trigger] crate::report::tvm_ok(vm, rows) && s@
                        == crate::report::t_report_text(vm, rows, old(db).tags.rows@))
            }),
            *self matches SubCommand::PayrollData(c) ==> ({
                let rows = old(db).payrolls@.filter(
                    |p: Payroll| date_matches(p.date as int, c.year, c.month),
                );
                *final(db) == *old(db) && (r matches Ok(CmdOutcome::Text(s)) && exists|
                    vm: crate::report::PayrollDataVm,
                |
                    #[trigger] crate::report::pvm_ok(vm, rows) && s@
                        == crate::report::p_report_text(
                        vm,
                        rows,
                        old(db).companies.rows@,
                        old(db).categories.rows@,
                        c.list,
                    ))
            }),
            *self matches SubCommand::BalanceSummary(c) ==> (*final(db) == *old(db) && r is Ok),
            *self matches SubCommand::ParseTransaction(c) ==> (*final(db) == *old(db) && r == Ok::<
                CmdOutcome,
                CmdError,
            >(CmdOutcome::NeedsFile(c.filename))),
            *self matches SubCommand::AddTransactionP(_) ==> (*final(db) == *old(db) && r
                matches Ok(CmdOutcome::NeedsPrompt)),
            *self matches SubCommand::AddPayrollP(_) ==> (*final(db) == *old(db) && r matches Ok(
                CmdOutcome::NeedsPrompt,
            )),
            *self matches SubCommand::RepeatPayroll(_) ==> r == Err::<CmdOutcome, CmdError>(
                CmdError::NotImplemented,
            ),
            *self matches SubCommand::SetAccountBalance(_) ==> r == Err::<CmdOutcome, CmdError>(
                CmdError::NotImplemented,
            ),
            *self matches SubCommand::ParsePayroll(_) ==> r == Err::<CmdOutcome, CmdError>(
                CmdError::NotImplemented,
            ),
            *self matches SubCommand::Test(c) ==> (*final(db) == *old(db) && (r matches Ok(
                CmdOutcome::Text(s),
            ) && (c.debug ==> s@ == "Test debug info: true"@) && (!c.debug ==> s@
                == "Test debug info: false"@))),
    {
        match self {
            SubCommand::AddTag(c) => match c.execute(db) {
                Ok(id) => Ok(CmdOutcome::Inserted(id)),
                Err(e) => Err(e),
            },
            SubCommand::AddCompany(c) => match c.execute(db) {
                Ok(id) => Ok(CmdOutcome::Inserted(id)),
                Err(e) => Err(e),
            },
            SubCommand::AddCategory(c) => match c.execute(db) {
                Ok(id) => Ok(CmdOutcome::Inserted(id)),
                Err(e) => Err(e),
            },
            SubCommand::AddAccount(c) => match c.execute(db) {
                Ok(id) => Ok(CmdOutcome::Inserted(id)),
                Err(e) => Err(e),
            },
            SubCommand::AddTransaction(c) => match c.execute(db) {
                Ok(()) => Ok(CmdOutcome::Done),
                Err(e) => Err(e),
            },
            SubCommand::AddPayroll(c) => match c.execute(db) {
                Ok(()) => Ok(CmdOutcome::Done),
                Err(e) => Err(e),
            },
            SubCommand::GetAccount(c) => match c.execute(db) {
                Ok(s) => Ok(CmdOutcome::Text(s)),
                Err(e) => Err(e),
            },
            SubCommand::GetName(c) => match c.execute(db) {
                Ok(s) => Ok(CmdOutcome::Text(s)),
                Err(e) => Err(e),
            },
            SubCommand::GetId(c) => match c.execute(db) {
                Ok(id) => Ok(CmdOutcome::Inserted(id)),
                Err(e) => Err(e),
            },
            SubCommand::GetTags(c) => Ok(CmdOutcome::Text(c.execute(db))),
            SubCommand::GetCompanies(c) => Ok(CmdOutcome::Text(c.execute(db))),
            SubCommand::GetCategories(c) => Ok(CmdOutcome::Text(c.execute(db))),
            SubCommand::PayrollData(c) => Ok(CmdOutcome::Text(c.execute(db))),
            SubCommand::TransactionData(c) => Ok(CmdOutcome::Text(c.execute(db))),
            SubCommand::BalanceSummary(c) => Ok(CmdOutcome::Text(c.execute(db))),
            SubCommand::Test(c) => Ok(CmdOutcome::Text(c.execute())),
            SubCommand::ParseTransaction(c) => Ok(CmdOutcome::NeedsFile(c.filename.clone())),
            SubCommand::AddTransactionP(_) => Ok(CmdOutcome::NeedsPrompt),
            SubCommand::AddPayrollP(_) => Ok(CmdOutcome::NeedsPrompt),
            SubCommand::RepeatPayroll(c) => match c.execute() {
                Ok(()) => Ok(CmdOutcome::Done),
                Err(e) => Err(e),
            },
            SubCommand::SetAccountBalance(c) => match c.execute() {
                Ok(()) => Ok(CmdOutcome::Done),
                Err(e) => Err(e),
            },
            SubCommand::ParsePayroll(c) => match c.execute() {
                Ok(()) => Ok(CmdOutcome::Done),
                Err(e) => Err(e),
            },
        }
    }
}

} // verus!
