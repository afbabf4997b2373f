//! The ledger's row types: transactions (expenses), payrolls (income),
//! accounts and the reference-table rows, with the year/month filters the
//! report commands apply. Amounts are cents; dates are coded days.

use vstd::prelude::*;
use crate::aggregate::{MAX_AMOUNT_CENTS, MAX_GROUP_ROWS};
use crate::dates::date_matches;

verus! {

/// An expense row: a name, a coded day, an amount in cents and the tag it is
/// grouped under.
#[derive(Debug)]
pub struct Transaction {
    pub _id: i32,
    pub name: String,
    pub date: u32,
    pub amount: i64,
    pub tag_id: i32,
}

/// An income row: a coded day, the four monetary components in cents, and
/// the company and category it is grouped under.
#[derive(Debug)]
pub struct Payroll {
    pub _id: i32,
    pub date: u32,
    pub gross: i64,
    pub net: i64,
    pub ss: i64,
    pub irpf: i64,
    pub company_id: i32,
    pub category_id: i32,
}

/// An account row: a unique name, a balance in cents and a description.
#[derive(Debug)]
pub struct Account {
    pub _id: i32,
    pub name: String,
    pub amount: i64,
    pub description: String,
}

/// A reference-table row shared by tags, companies and categories: an id,
/// a display name and a description.
#[derive(Debug)]
pub struct Name {
    pub id: i32,
    pub name: String,
    pub description: String,
}

impl Clone for Transaction {
    fn clone(&self) -> (r: Self)
        ensures
            r == *self,
    {
        Transaction {
            _id: self._id,
            name: self.name.clone(),
            date: self.date,
            amount: self.amount,
            tag_id: self.tag_id,
        }
    }
}

impl Clone for Payroll {
    fn clone(&self) -> (r: Self)
        ensures
            r == *self,
    {
        Payroll {
            _id: self._id,
            date: self.date,
            gross: self.gross,
            net: self.net,
            ss: self.ss,
            irpf: self.irpf,
            company_id: self.company_id,
            category_id: self.category_id,
        }
    }
}

impl Clone for Account {
    fn clone(&self) -> (r: Self)
        ensures
            r == *self,
    {
        Account {
            _id: self._id,
            name: self.name.clone(),
            amount: self.amount,
            description: self.description.clone(),
        }
    }
}

impl Clone for Name {
    fn clone(&self) -> (r: Self)
        ensures
            r == *self,
    {
        Name { id: self.id, name: self.name.clone(), description: self.description.clone() }
    }
}

impl Transaction {
    /// A new, not yet persisted transaction; the store assigns the real id.
    pub fn new(name: &String, date: u32, amount: i64, tag_id: i32) -> (r: Transaction)
        ensures
            r._id == 0,
            r.name == name,
            r.date == date,
            r.amount == amount,
            r.tag_id == tag_id,
    {
        Transaction { _id: 0, name: name.clone(), date, amount, tag_id }
    }
}

impl Payroll {
    /// A new, not yet persisted payroll; the store assigns the real id.
    pub fn new(date: u32, gross: i64, net: i64, ss: i64, irpf: i64, company_id: i32, category_id: i32) -> (r: Payroll)
        ensures
            r._id == 0,
            r.date == date,
            r.gross == gross,
            r.net == net,
            r.ss == ss,
            r.irpf == irpf,
            r.company_id == company_id,
            r.category_id == category_id,
    {
        Payroll { _id: 0, date, gross, net, ss, irpf, company_id, category_id }
    }
}

impl Account {
    /// A new, not yet persisted account; the store assigns the real id.
    pub fn new(name: &str, amount: i64, description: &str) -> (r: Account)
        ensures
            r._id == 0,
            r.name@ == name@,
            r.amount == amount,
            r.description@ == description@,
    {
        Account { _id: 0, name: name.to_owned(), amount, description: description.to_owned() }
    }
}

/// A transaction's amount is small enough for aggregation and its coded day
/// fits the `YYYYMMDD` shape.
pub open spec fn transaction_bounded(t: Transaction) -> bool {
    &&& -MAX_AMOUNT_CENTS <= t.amount <= MAX_AMOUNT_CENTS
    &&& t.date <= 99999999
}

/// All four payroll components are small enough for aggregation and the
/// coded day fits the `YYYYMMDD` shape.
pub open spec fn payroll_bounded(p: Payroll) -> bool {
    &&& -MAX_AMOUNT_CENTS <= p.gross <= MAX_AMOUNT_CENTS
    &&& -MAX_AMOUNT_CENTS <= p.net <= MAX_AMOUNT_CENTS
    &&& -MAX_AMOUNT_CENTS <= p.ss <= MAX_AMOUNT_CENTS
    &&& -MAX_AMOUNT_CENTS <= p.irpf <= MAX_AMOUNT_CENTS
    &&& p.date <= 99999999
}

/// An account's balance is small enough for summation.
pub open spec fn account_bounded(a: Account) -> bool {
    -MAX_AMOUNT_CENTS <= a.amount <= MAX_AMOUNT_CENTS
}

/// An account list small and bounded enough for summation.
pub open spec fn accounts_bounded(s: Seq<Account>) -> bool {
    &&& s.len() <= MAX_GROUP_ROWS
    &&& forall|i: int| 0 <= i < s.len() ==> account_bounded(#[trigger] s[i])
}

/// A row list small and bounded enough for aggregation.
pub open spec fn transactions_bounded(s: Seq<Transaction>) -> bool {
    &&& s.len() <= MAX_GROUP_ROWS
    &&& forall|i: int| 0 <= i < s.len() ==> transaction_bounded(#[trigger] s[i])
}

/// A payroll list small and bounded enough for aggregation.
pub open spec fn payrolls_bounded(s: Seq<Payroll>) -> bool {
    &&& s.len() <= MAX_GROUP_ROWS
    &&& forall|i: int| 0 <= i < s.len() ==> payroll_bounded(#[trigger] s[i])
}

/// The transactions whose coded day passes the optional year and month
/// filters, keeping their store order.
#[verifier::loop_isolation(false)]
pub fn filter_transactions(rows: &Vec<Transaction>, year: Option<u32>, month: Option<u32>) -> (r:
    Vec<Transaction>)
    ensures
        r@ == rows@.filter(|t: Transaction| date_matches(t.date as int, year, month)),
{
    let ghost pred = |t: Transaction| date_matches(t.date as int, year, month);
    let mut out: Vec<Transaction> = Vec::new();
    let n = rows.len();
    proof {
        reveal(Seq::filter);
    }
    for i in 0..n
        invariant
            n == rows@.len(),
            out@ == rows@.take(i as int).filter(pred),
    {
        proof {
            reveal(Seq::filter);
            assert(rows@.take(i + 1).drop_last() =~= rows@.take(i as int));
            assert(rows@.take(i + 1).last() == rows@[i as int]);
            assert(rows@.take(i + 1).filter(pred) == if pred(rows@[i as int]) {
                rows@.take(i as int).filter(pred).push(rows@[i as int])
            } else {
                rows@.take(i as int).filter(pred)
            });
        }
        if crate::dates::matches_filter(rows[i].date, year, month) {
            out.push(rows[i].clone());
        }
    }
    proof {
        assert(rows@.take(n as int) =~= rows@);
    }
    out
}

/// The payrolls whose coded day passes the optional year and month filters,
/// keeping their store order.
#[verifier::loop_isolation(false)]
pub fn filter_payrolls(rows: &Vec<Payroll>, year: Option<u32>, month: Option<u32>) -> (r: Vec<
    Payroll>)
    ensures
        r@ == rows@.filter(|p: Payroll| date_matches(p.date as int, year, month)),
{
    let ghost pred = |p: Payroll| date_matches(p.date as int, year, month);
    let mut out: Vec<Payroll> = Vec::new();
    let n = rows.len();
    proof {
        reveal(Seq::filter);
    }
    for i in 0..n
        invariant
            n == rows@.len(),
            out@ == rows@.take(i as int).filter(pred),
    {
        proof {
            reveal(Seq::filter);
            assert(rows@.take(i + 1).drop_last() =~= rows@.take(i as int));
            assert(rows@.take(i + 1).last() == rows@[i as int]);
            assert(rows@.take(i + 1).filter(pred) == if pred(rows@[i as int]) {
                rows@.take(i as int).filter(pred).push(rows@[i as int])
            } else {
                rows@.take(i as int).filter(pred)
            });
        }
        if crate::dates::matches_filter(rows[i].date, year, month) {
            out.push(rows[i].clone());
        }
    }
    proof {
        assert(rows@.take(n as int) =~= rows@);
    }
    out
}

} // verus!
