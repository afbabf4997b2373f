use gitgud_greedy::models::{filter_transactions, Payroll, Transaction};
use gitgud_greedy::names::NameTable;
use gitgud_greedy::report::{BalanceSummaryVm, PayrollDataVm, TransactionDataVm};

fn t(date: u32, amount: i64, tag_id: i32) -> Transaction {
    Transaction { _id: 0, name: String::from("row"), date, amount, tag_id }
}

fn p(gross: i64, net: i64, company_id: i32, category_id: i32) -> Payroll {
    Payroll { _id: 0, date: 20240101, gross, net, ss: 0, irpf: 0, company_id, category_id }
}

#[test]
fn transaction_vm_statistics() {
    let rows = vec![t(20240102, 1000, 1), t(20240103, 2000, 1), t(20240104, 500, 2)];
    let vm = TransactionDataVm::generate(&rows);
    assert_eq!(vm.count, 3);
    assert_eq!(vm.total(), 3500);
    assert_eq!(vm.amount_avg(), Some(1166));
    assert_eq!(vm.tags_info.len(), 2);
    assert_eq!(vm.tags_info[0].key, 1);
    assert_eq!(vm.tags_info[0].sum, 3000);
    assert_eq!(vm.tags_info[0].count, 2);
    assert_eq!(vm.tags_info[1].key, 2);
    assert_eq!(vm.tags_info[1].sum, 500);
}

#[test]
fn transaction_vm_empty_has_no_average() {
    let rows: Vec<Transaction> = Vec::new();
    let vm = TransactionDataVm::generate(&rows);
    assert_eq!(vm.count, 0);
    assert_eq!(vm.total(), 0);
    assert_eq!(vm.amount_avg(), None);
}

#[test]
fn payroll_vm_statistics() {
    let rows = vec![p(300000, 240000, 1, 1), p(100000, 90000, 2, 1)];
    let vm = PayrollDataVm::generate(&rows);
    assert_eq!(vm.count, 2);
    assert_eq!(vm.gross_total, 400000);
    assert_eq!(vm.net_total, 330000);
    assert_eq!(vm.get_net(), 330000);
    assert_eq!(vm.gross_avg(), Some(200000));
    assert_eq!(vm.net_avg(), Some(165000));
    assert_eq!(vm.ss_avg(), Some(0));
    assert_eq!(vm.irpf_avg(), Some(0));
    // both dimensions partition the same gross total
    assert_eq!(vm.companies_info.iter().map(|b| b.sum).sum::<i64>(), 400000);
    assert_eq!(vm.categories_info.iter().map(|b| b.sum).sum::<i64>(), 400000);
    assert_eq!(vm.companies_info.len(), 2);
    assert_eq!(vm.categories_info.len(), 1);
}

#[test]
fn balance_offsets_income_against_expenses() {
    let payrolls = vec![p(300000, 240000, 1, 1)];
    let transactions = vec![t(20240102, 3500, 1)];
    let vm = BalanceSummaryVm::generate(&payrolls, &transactions);
    assert_eq!(vm.balance(), 236500);
}

#[test]
fn renders_show_cells_and_fallback() {
    let mut tags = NameTable::new();
    tags.insert("Food", "");
    let rows = vec![t(20240102, 1000, 1), t(20240103, 2000, 7)];
    let vm = TransactionDataVm::generate(&rows);
    let text = vm.render(&rows, &tags);
    assert!(text.contains("Summary:"));
    assert!(text.contains("Per tags data:"));
    assert!(text.contains("Transactions:"));
    assert!(text.contains("30.00"));
    assert!(text.contains("Food"));
    assert!(text.contains("Unknown"));
    assert!(text.contains("2024-01-02"));
}

#[test]
fn filters_keep_order_and_drop_mismatches() {
    let rows = vec![t(20240102, 1, 1), t(20230101, 2, 1), t(20240215, 3, 1)];
    let kept = filter_transactions(&rows, Some(2024), None);
    assert_eq!(kept.len(), 2);
    assert_eq!(kept[0].amount, 1);
    assert_eq!(kept[1].amount, 3);
    let kept = filter_transactions(&rows, Some(2024), Some(2));
    assert_eq!(kept.len(), 1);
    assert_eq!(kept[0].amount, 3);
    let kept = filter_transactions(&rows, None, None);
    assert_eq!(kept.len(), 3);
}

#[test]
fn library_health_check() {
    assert_eq!(gitgud_greedy::test(), Ok(()));
}
