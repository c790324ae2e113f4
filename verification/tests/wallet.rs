use btpc_quantum_resistant_chain::text::{decimal, padded};
use btpc_quantum_resistant_chain::wallet::Wallet;
use sha2::{Digest, Sha512};

#[test]
fn wallet_address_is_the_hashed_time() {
    let wallet = Wallet::derived_from(1_700_000_000);
    let digest = Sha512::digest(1_700_000_000u64.to_be_bytes());
    let expected: String = digest.iter().map(|b| format!("{:02x}", b)).collect();
    assert_eq!(wallet.address, expected);
    assert_eq!(wallet.balance, 0);
    let now = Wallet::new();
    assert_eq!(now.address.len(), 128);
    assert_eq!(now.balance, 0);
}

#[test]
fn wallet_balance() {
    let mut wallet = Wallet::derived_from(1);
    assert_eq!(wallet.balance_btp(), "0.00000000");
    wallet.credit(3_237_500_000);
    assert_eq!(wallet.balance, 3_237_500_000);
    assert_eq!(wallet.balance_btp(), "32.37500000");
    wallet.credit(10);
    assert_eq!(wallet.balance_btp(), "32.37500010");
    assert_eq!(wallet.checked_credit(u64::MAX), None);
    assert_eq!(wallet.balance, 3_237_500_010);
    assert_eq!(wallet.checked_credit(90), Some(3_237_500_100));
    assert_eq!(wallet.balance_btp(), "32.37500100");
}

#[test]
fn numbers_in_decimal() {
    assert_eq!(decimal(0), "0");
    assert_eq!(decimal(7), "7");
    assert_eq!(decimal(10), "10");
    assert_eq!(decimal(1_234_567_890), "1234567890");
    assert_eq!(decimal(u64::MAX), "18446744073709551615");
    assert_eq!(padded(5, 3), "005");
    assert_eq!(padded(50, 3), "050");
    assert_eq!(padded(500, 3), "500");
    assert_eq!(padded(5000, 3), "5000");
    assert_eq!(padded(0, 1), "0");
    assert_eq!(padded(0, 0), "0");
    assert_eq!(padded(42, 8), "00000042");
}
