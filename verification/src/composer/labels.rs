//! Menu labels.
use crate::text::same_text;
use vstd::prelude::*;

verus! {

/// The English label of a label key; a key that is not known is its own label.
pub open spec fn label_of(key: Seq<char>) -> Seq<char> {
    if key == "nav.accounts"@ {
        "Accounts"@
    } else if key == "nav.account_open"@ {
        "Open Account"@
    } else if key == "nav.transfers"@ {
        "Transfers"@
    } else if key == "nav.transfer_pending"@ {
        "Pending"@
    } else if key == "nav.transfer_limits"@ {
        "Limits"@
    } else if key == "nav.loans"@ {
        "Loans"@
    } else if key == "nav.loan_disbursement"@ {
        "Disbursement"@
    } else if key == "nav.cards"@ {
        "Cards"@
    } else if key == "nav.card_txns"@ {
        "Card Transactions"@
    } else if key == "nav.audit"@ {
        "Audit"@
    } else if key == "nav.audit_log"@ {
        "Audit Log"@
    } else if key == "nav.holidays"@ {
        "Holidays"@
    } else if key == "nav.products"@ {
        "Products"@
    } else if key == "nav.dashboard"@ {
        "Dashboard"@
    } else if key == "nav.merchants"@ {
        "Merchants"@
    } else if key == "nav.gateways"@ {
        "Gateways"@
    } else if key == "nav.wallets"@ {
        "Wallets"@
    } else if key == "nav.fraud"@ {
        "Fraud Alerts"@
    } else if key == "nav.txn_monitoring"@ {
        "Transaction Monitoring"@
    } else if key == "nav.orders"@ {
        "Orders"@
    } else if key == "nav.positions"@ {
        "Positions"@
    } else if key == "nav.risk"@ {
        "Risk Limits"@
    } else if key == "nav.market_data"@ {
        "Market Data"@
    } else if key == "nav.instruments"@ {
        "Instruments"@
    } else if key == "nav.ai_ml"@ {
        "AI / ML"@
    } else if key == "nav.algo_runs"@ {
        "Algo Runs"@
    } else if key == "nav.sanction_scan"@ {
        "Sanction Scan"@
    } else if key == "nav.group.accounts"@ {
        "Accounts"@
    } else if key == "nav.group.payments"@ {
        "Payments"@
    } else if key == "nav.group.loans"@ {
        "Loans"@
    } else if key == "nav.group.cards"@ {
        "Cards"@
    } else if key == "nav.group.compliance"@ {
        "Compliance"@
    } else if key == "nav.group.admin"@ {
        "Admin"@
    } else if key == "nav.group.overview"@ {
        "Overview"@
    } else if key == "nav.group.merchants"@ {
        "Merchants"@
    } else if key == "nav.group.gateways"@ {
        "Gateways"@
    } else if key == "nav.group.wallets"@ {
        "Wallets"@
    } else if key == "nav.group.fraud"@ {
        "Fraud"@
    } else if key == "nav.group.txn_monitoring"@ {
        "Monitoring"@
    } else if key == "nav.group.orders"@ {
        "Orders"@
    } else if key == "nav.group.positions"@ {
        "Positions"@
    } else if key == "nav.group.risk"@ {
        "Risk"@
    } else if key == "nav.group.market_data"@ {
        "Market Data"@
    } else if key == "nav.group.instruments"@ {
        "Instruments"@
    } else if key == "nav.group.ai_ml"@ {
        "AI / ML"@
    } else {
        key
    }
}

/// The English label of a label key.
pub fn resolve_label(key: &str) -> (out: String)
    ensures
        out@ == label_of(key@),
{
    let label: &str = if same_text(key, "nav.accounts") {
        "Accounts"
    } else if same_text(key, "nav.account_open") {
        "Open Account"
    } else if same_text(key, "nav.transfers") {
        "Transfers"
    } else if same_text(key, "nav.transfer_pending") {
        "Pending"
    } else if same_text(key, "nav.transfer_limits") {
        "Limits"
    } else if same_text(key, "nav.loans") {
        "Loans"
    } else if same_text(key, "nav.loan_disbursement") {
        "Disbursement"
    } else if same_text(key, "nav.cards") {
        "Cards"
    } else if same_text(key, "nav.card_txns") {
        "Card Transactions"
    } else if same_text(key, "nav.audit") {
        "Audit"
    } else if same_text(key, "nav.audit_log") {
        "Audit Log"
    } else if same_text(key, "nav.holidays") {
        "Holidays"
    } else if same_text(key, "nav.products") {
        "Products"
    } else if same_text(key, "nav.dashboard") {
        "Dashboard"
    } else if same_text(key, "nav.merchants") {
        "Merchants"
    } else if same_text(key, "nav.gateways") {
        "Gateways"
    } else if same_text(key, "nav.wallets") {
        "Wallets"
    } else if same_text(key, "nav.fraud") {
        "Fraud Alerts"
    } else if same_text(key, "nav.txn_monitoring") {
        "Transaction Monitoring"
    } else if same_text(key, "nav.orders") {
        "Orders"
    } else if same_text(key, "nav.positions") {
        "Positions"
    } else if same_text(key, "nav.risk") {
        "Risk Limits"
    } else if same_text(key, "nav.market_data") {
        "Market Data"
    } else if same_text(key, "nav.instruments") {
        "Instruments"
    } else if same_text(key, "nav.ai_ml") {
        "AI / ML"
    } else if same_text(key, "nav.algo_runs") {
        "Algo Runs"
    } else if same_text(key, "nav.sanction_scan") {
        "Sanction Scan"
    } else if same_text(key, "nav.group.accounts") {
        "Accounts"
    } else if same_text(key, "nav.group.payments") {
        "Payments"
    } else if same_text(key, "nav.group.loans") {
        "Loans"
    } else if same_text(key, "nav.group.cards") {
        "Cards"
    } else if same_text(key, "nav.group.compliance") {
        "Compliance"
    } else if same_text(key, "nav.group.admin") {
        "Admin"
    } else if same_text(key, "nav.group.overview") {
        "Overview"
    } else if same_text(key, "nav.group.merchants") {
        "Merchants"
    } else if same_text(key, "nav.group.gateways") {
        "Gateways"
    } else if same_text(key, "nav.group.wallets") {
        "Wallets"
    } else if same_text(key, "nav.group.fraud") {
        "Fraud"
    } else if same_text(key, "nav.group.txn_monitoring") {
        "Monitoring"
    } else if same_text(key, "nav.group.orders") {
        "Orders"
    } else if same_text(key, "nav.group.positions") {
        "Positions"
    } else if same_text(key, "nav.group.risk") {
        "Risk"
    } else if same_text(key, "nav.group.market_data") {
        "Market Data"
    } else if same_text(key, "nav.group.instruments") {
        "Instruments"
    } else if same_text(key, "nav.group.ai_ml") {
        "AI / ML"
    } else {
        key
    };
    label.to_owned()
}

/// Every label key has its label, and every other key is its own.
pub proof fn law_labels(key: Seq<char>)
    ensures
        label_of("nav.accounts"@) == "Accounts"@,
        label_of("nav.account_open"@) == "Open Account"@,
        label_of("nav.transfers"@) == "Transfers"@,
        label_of("nav.transfer_pending"@) == "Pending"@,
        label_of("nav.transfer_limits"@) == "Limits"@,
        label_of("nav.loans"@) == "Loans"@,
        label_of("nav.loan_disbursement"@) == "Disbursement"@,
        label_of("nav.cards"@) == "Cards"@,
        label_of("nav.card_txns"@) == "Card Transactions"@,
        label_of("nav.audit"@) == "Audit"@,
        label_of("nav.audit_log"@) == "Audit Log"@,
        label_of("nav.holidays"@) == "Holidays"@,
        label_of("nav.products"@) == "Products"@,
        label_of("nav.dashboard"@) == "Dashboard"@,
        label_of("nav.merchants"@) == "Merchants"@,
        label_of("nav.gateways"@) == "Gateways"@,
        label_of("nav.wallets"@) == "Wallets"@,
        label_of("nav.fraud"@) == "Fraud Alerts"@,
        label_of("nav.txn_monitoring"@) == "Transaction Monitoring"@,
        label_of("nav.orders"@) == "Orders"@,
        label_of("nav.positions"@) == "Positions"@,
        label_of("nav.risk"@) == "Risk Limits"@,
        label_of("nav.market_data"@) == "Market Data"@,
        label_of("nav.instruments"@) == "Instruments"@,
        label_of("nav.ai_ml"@) == "AI / ML"@,
        label_of("nav.algo_runs"@) == "Algo Runs"@,
        label_of("nav.sanction_scan"@) == "Sanction Scan"@,
        label_of("nav.group.accounts"@) == "Accounts"@,
        label_of("nav.group.payments"@) == "Payments"@,
        label_of("nav.group.loans"@) == "Loans"@,
        label_of("nav.group.cards"@) == "Cards"@,
        label_of("nav.group.compliance"@) == "Compliance"@,
        label_of("nav.group.admin"@) == "Admin"@,
        label_of("nav.group.overview"@) == "Overview"@,
        label_of("nav.group.merchants"@) == "Merchants"@,
        label_of("nav.group.gateways"@) == "Gateways"@,
        label_of("nav.group.wallets"@) == "Wallets"@,
        label_of("nav.group.fraud"@) == "Fraud"@,
        label_of("nav.group.txn_monitoring"@) == "Monitoring"@,
        label_of("nav.group.orders"@) == "Orders"@,
        label_of("nav.group.positions"@) == "Positions"@,
        label_of("nav.group.risk"@) == "Risk"@,
        label_of("nav.group.market_data"@) == "Market Data"@,
        label_of("nav.group.instruments"@) == "Instruments"@,
        label_of("nav.group.ai_ml"@) == "AI / ML"@,
        (key != "nav.accounts"@
            && key != "nav.account_open"@
            && key != "nav.transfers"@
            && key != "nav.transfer_pending"@
            && key != "nav.transfer_limits"@
            && key != "nav.loans"@
            && key != "nav.loan_disbursement"@
            && key != "nav.cards"@
            && key != "nav.card_txns"@
            && key != "nav.audit"@
            && key != "nav.audit_log"@
            && key != "nav.holidays"@
            && key != "nav.products"@
            && key != "nav.dashboard"@
            && key != "nav.merchants"@
            && key != "nav.gateways"@
            && key != "nav.wallets"@
            && key != "nav.fraud"@
            && key != "nav.txn_monitoring"@
            && key != "nav.orders"@
            && key != "nav.positions"@
            && key != "nav.risk"@
            && key != "nav.market_data"@
            && key != "nav.instruments"@
            && key != "nav.ai_ml"@
            && key != "nav.algo_runs"@
            && key != "nav.sanction_scan"@
            && key != "nav.group.accounts"@
            && key != "nav.group.payments"@
            && key != "nav.group.loans"@
            && key != "nav.group.cards"@
            && key != "nav.group.compliance"@
            && key != "nav.group.admin"@
            && key != "nav.group.overview"@
            && key != "nav.group.merchants"@
            && key != "nav.group.gateways"@
            && key != "nav.group.wallets"@
            && key != "nav.group.fraud"@
            && key != "nav.group.txn_monitoring"@
            && key != "nav.group.orders"@
            && key != "nav.group.positions"@
            && key != "nav.group.risk"@
            && key != "nav.group.market_data"@
            && key != "nav.group.instruments"@
            && key != "nav.group.ai_ml"@) ==> label_of(key) == key,
{
    reveal_strlit("nav.accounts");
    reveal_strlit("nav.account_open");
    reveal_strlit("nav.transfers");
    reveal_strlit("nav.transfer_pending");
    reveal_strlit("nav.transfer_limits");
    reveal_strlit("nav.loans");
    reveal_strlit("nav.loan_disbursement");
    reveal_strlit("nav.cards");
    reveal_strlit("nav.card_txns");
    reveal_strlit("nav.audit");
    reveal_strlit("nav.audit_log");
    reveal_strlit("nav.holidays");
    reveal_strlit("nav.products");
    reveal_strlit("nav.dashboard");
    reveal_strlit("nav.merchants");
    reveal_strlit("nav.gateways");
    reveal_strlit("nav.wallets");
    reveal_strlit("nav.fraud");
    reveal_strlit("nav.txn_monitoring");
    reveal_strlit("nav.orders");
    reveal_strlit("nav.positions");
    reveal_strlit("nav.risk");
    reveal_strlit("nav.market_data");
    reveal_strlit("nav.instruments");
    reveal_strlit("nav.ai_ml");
    reveal_strlit("nav.algo_runs");
    reveal_strlit("nav.sanction_scan");
    reveal_strlit("nav.group.accounts");
    reveal_strlit("nav.group.payments");
    reveal_strlit("nav.group.loans");
    reveal_strlit("nav.group.cards");
    reveal_strlit("nav.group.compliance");
    reveal_strlit("nav.group.admin");
    reveal_strlit("nav.group.overview");
    reveal_strlit("nav.group.merchants");
    reveal_strlit("nav.group.gateways");
    reveal_strlit("nav.group.wallets");
    reveal_strlit("nav.group.fraud");
    reveal_strlit("nav.group.txn_monitoring");
    reveal_strlit("nav.group.orders");
    reveal_strlit("nav.group.positions");
    reveal_strlit("nav.group.risk");
    reveal_strlit("nav.group.market_data");
    reveal_strlit("nav.group.instruments");
    reveal_strlit("nav.group.ai_ml");
    assert("nav.accounts"@.len() == 12 && "nav.accounts"@[5] == 'c' && "nav.accounts"@[10] == 't' && "nav.accounts"@[11] == 's');
    assert("nav.account_open"@.len() == 16 && "nav.account_open"@[5] == 'c' && "nav.account_open"@[10] == 't' && "nav.account_open"@[11] == '_');
    assert("nav.transfers"@.len() == 13 && "nav.transfers"@[5] == 'r' && "nav.transfers"@[10] == 'e' && "nav.transfers"@[11] == 'r');
    assert("nav.transfer_pending"@.len() == 20 && "nav.transfer_pending"@[5] == 'r' && "nav.transfer_pending"@[10] == 'e' && "nav.transfer_pending"@[11] == 'r');
    assert("nav.transfer_limits"@.len() == 19 && "nav.transfer_limits"@[5] == 'r' && "nav.transfer_limits"@[10] == 'e' && "nav.transfer_limits"@[11] == 'r');
    assert("nav.loans"@.len() == 9 && "nav.loans"@[5] == 'o');
    assert("nav.loan_disbursement"@.len() == 21 && "nav.loan_disbursement"@[5] == 'o' && "nav.loan_disbursement"@[10] == 'i' && "nav.loan_disbursement"@[11] == 's');
    assert("nav.cards"@.len() == 9 && "nav.cards"@[5] == 'a');
    assert("nav.card_txns"@.len() == 13 && "nav.card_txns"@[5] == 'a' && "nav.card_txns"@[10] == 'x' && "nav.card_txns"@[11] == 'n');
    assert("nav.audit"@.len() == 9 && "nav.audit"@[5] == 'u');
    assert("nav.audit_log"@.len() == 13 && "nav.audit_log"@[5] == 'u' && "nav.audit_log"@[10] == 'l' && "nav.audit_log"@[11] == 'o');
    assert("nav.holidays"@.len() == 12 && "nav.holidays"@[5] == 'o' && "nav.holidays"@[10] == 'y' && "nav.holidays"@[11] == 's');
    assert("nav.products"@.len() == 12 && "nav.products"@[5] == 'r' && "nav.products"@[10] == 't' && "nav.products"@[11] == 's');
    assert("nav.dashboard"@.len() == 13 && "nav.dashboard"@[5] == 'a' && "nav.dashboard"@[10] == 'a' && "nav.dashboard"@[11] == 'r');
    assert("nav.merchants"@.len() == 13 && "nav.merchants"@[5] == 'e' && "nav.merchants"@[10] == 'n' && "nav.merchants"@[11] == 't');
    assert("nav.gateways"@.len() == 12 && "nav.gateways"@[5] == 'a' && "nav.gateways"@[10] == 'y' && "nav.gateways"@[11] == 's');
    assert("nav.wallets"@.len() == 11 && "nav.wallets"@[5] == 'a' && "nav.wallets"@[10] == 's');
    assert("nav.fraud"@.len() == 9 && "nav.fraud"@[5] == 'r');
    assert("nav.txn_monitoring"@.len() == 18 && "nav.txn_monitoring"@[5] == 'x' && "nav.txn_monitoring"@[10] == 'n' && "nav.txn_monitoring"@[11] == 'i');
    assert("nav.orders"@.len() == 10 && "nav.orders"@[5] == 'r');
    assert("nav.positions"@.len() == 13 && "nav.positions"@[5] == 'o' && "nav.positions"@[10] == 'o' && "nav.positions"@[11] == 'n');
    assert("nav.risk"@.len() == 8 && "nav.risk"@[5] == 'i');
    assert("nav.market_data"@.len() == 15 && "nav.market_data"@[5] == 'a' && "nav.market_data"@[10] == '_' && "nav.market_data"@[11] == 'd');
    assert("nav.instruments"@.len() == 15 && "nav.instruments"@[5] == 'n' && "nav.instruments"@[10] == 'm' && "nav.instruments"@[11] == 'e');
    assert("nav.ai_ml"@.len() == 9 && "nav.ai_ml"@[5] == 'i');
    assert("nav.algo_runs"@.len() == 13 && "nav.algo_runs"@[5] == 'l' && "nav.algo_runs"@[10] == 'u' && "nav.algo_runs"@[11] == 'n');
    assert("nav.sanction_scan"@.len() == 17 && "nav.sanction_scan"@[5] == 'a' && "nav.sanction_scan"@[10] == 'o' && "nav.sanction_scan"@[11] == 'n');
    assert("nav.group.accounts"@.len() == 18 && "nav.group.accounts"@[5] == 'r' && "nav.group.accounts"@[10] == 'a' && "nav.group.accounts"@[11] == 'c');
    assert("nav.group.payments"@.len() == 18 && "nav.group.payments"@[5] == 'r' && "nav.group.payments"@[10] == 'p' && "nav.group.payments"@[11] == 'a');
    assert("nav.group.loans"@.len() == 15 && "nav.group.loans"@[5] == 'r' && "nav.group.loans"@[10] == 'l' && "nav.group.loans"@[11] == 'o');
    assert("nav.group.cards"@.len() == 15 && "nav.group.cards"@[5] == 'r' && "nav.group.cards"@[10] == 'c' && "nav.group.cards"@[11] == 'a');
    assert("nav.group.compliance"@.len() == 20 && "nav.group.compliance"@[5] == 'r' && "nav.group.compliance"@[10] == 'c' && "nav.group.compliance"@[11] == 'o');
    assert("nav.group.admin"@.len() == 15 && "nav.group.admin"@[5] == 'r' && "nav.group.admin"@[10] == 'a' && "nav.group.admin"@[11] == 'd');
    assert("nav.group.overview"@.len() == 18 && "nav.group.overview"@[5] == 'r' && "nav.group.overview"@[10] == 'o' && "nav.group.overview"@[11] == 'v');
    assert("nav.group.merchants"@.len() == 19 && "nav.group.merchants"@[5] == 'r' && "nav.group.merchants"@[10] == 'm' && "nav.group.merchants"@[11] == 'e');
    assert("nav.group.gateways"@.len() == 18 && "nav.group.gateways"@[5] == 'r' && "nav.group.gateways"@[10] == 'g' && "nav.group.gateways"@[11] == 'a');
    assert("nav.group.wallets"@.len() == 17 && "nav.group.wallets"@[5] == 'r' && "nav.group.wallets"@[10] == 'w' && "nav.group.wallets"@[11] == 'a');
    assert("nav.group.fraud"@.len() == 15 && "nav.group.fraud"@[5] == 'r' && "nav.group.fraud"@[10] == 'f' && "nav.group.fraud"@[11] == 'r');
    assert("nav.group.txn_monitoring"@.len() == 24 && "nav.group.txn_monitoring"@[5] == 'r' && "nav.group.txn_monitoring"@[10] == 't' && "nav.group.txn_monitoring"@[11] == 'x');
    assert("nav.group.orders"@.len() == 16 && "nav.group.orders"@[5] == 'r' && "nav.group.orders"@[10] == 'o' && "nav.group.orders"@[11] == 'r');
    assert("nav.group.positions"@.len() == 19 && "nav.group.positions"@[5] == 'r' && "nav.group.positions"@[10] == 'p' && "nav.group.positions"@[11] == 'o');
    assert("nav.group.risk"@.len() == 14 && "nav.group.risk"@[5] == 'r' && "nav.group.risk"@[10] == 'r' && "nav.group.risk"@[11] == 'i');
    assert("nav.group.market_data"@.len() == 21 && "nav.group.market_data"@[5] == 'r' && "nav.group.market_data"@[10] == 'm' && "nav.group.market_data"@[11] == 'a');
    assert("nav.group.instruments"@.len() == 21 && "nav.group.instruments"@[5] == 'r' && "nav.group.instruments"@[10] == 'i' && "nav.group.instruments"@[11] == 'n');
    assert("nav.group.ai_ml"@.len() == 15 && "nav.group.ai_ml"@[5] == 'r' && "nav.group.ai_ml"@[10] == 'a' && "nav.group.ai_ml"@[11] == 'i');
}

} // verus!
