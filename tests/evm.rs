use peo_consensus::{BasicEvmExecutor, EvmExecutor};

#[test]
fn test_evm_transaction_execution() {
    let mut executor = BasicEvmExecutor::new();
    executor.set_balance("0xSender", 500);
    executor.set_balance("0xReceiver", 200);

    let data = b"fake_contract_call_data";
    let tx_result = executor.execute_transaction("0xSender", "0xReceiver", data);
    assert!(tx_result.is_ok(), "Transaction execution should succeed");

    assert_eq!(
        executor.get_balance("0xSender"),
        500,
        "Sender's balance should remain 500"
    );
    assert_eq!(
        executor.get_balance("0xReceiver"),
        200,
        "Receiver's balance should remain 200"
    );
}

#[test]
fn test_evm_balance_setting() {
    let mut executor = BasicEvmExecutor::new();
    executor.set_balance("0xTestUser", 1000);
    assert_eq!(
        executor.get_balance("0xTestUser"),
        1000,
        "Balance should be correctly set to 1000"
    );
}

#[test]
fn evm_set_balance_overwrites() {
    let mut executor = BasicEvmExecutor::new();
    executor.set_balance("x", 1000);
    executor.set_balance("x", 7);
    executor.set_balance("y", 3);
    assert_eq!(executor.get_balance("x"), 7);
    assert_eq!(executor.get_balance("y"), 3);
}

#[test]
fn evm_transaction_with_new_addresses_keeps_zero() {
    let mut executor = BasicEvmExecutor::new();
    assert!(executor.execute_transaction("p", "q", &[]).is_ok());
    assert_eq!(executor.get_balance("p"), 0);
    assert_eq!(executor.get_balance("q"), 0);
}
