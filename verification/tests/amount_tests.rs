use rollup_ledger::account::AccountId;
use rollup_ledger::amount::Amount;

#[test]
fn checked_add_at_the_boundary() {
    assert_eq!(Amount(u64::MAX).checked_add(Amount(1)), None);
    assert_eq!(Amount(u64::MAX).checked_add(Amount(0)), Some(Amount(u64::MAX)));
    assert_eq!(Amount(1).checked_add(Amount(u64::MAX)), None);
    assert_eq!(Amount(1u64 << 63).checked_add(Amount(1u64 << 63)), None);
    assert_eq!(
        Amount((1u64 << 63) - 1).checked_add(Amount(1u64 << 63)),
        Some(Amount(u64::MAX))
    );
}

#[test]
fn checked_add_gives_the_exact_sum() {
    assert_eq!(Amount(5).checked_add(Amount(7)), Some(Amount(12)));
    assert_eq!(Amount(0).checked_add(Amount(0)), Some(Amount(0)));
}

#[test]
fn checked_sub_succeeds_exactly_when_covered() {
    assert_eq!(Amount(10).checked_sub(Amount(4)), Some(Amount(6)));
    assert_eq!(Amount(7).checked_sub(Amount(7)), Some(Amount(0)));
    assert_eq!(Amount(4).checked_sub(Amount(5)), None);
    assert_eq!(Amount(0).checked_sub(Amount(1)), None);
    assert_eq!(Amount(u64::MAX).checked_sub(Amount(0)), Some(Amount(u64::MAX)));
}

#[test]
fn amount_bytes_are_little_endian() {
    assert_eq!(Amount(10).to_bytes_le(), vec![10, 0, 0, 0, 0, 0, 0, 0]);
    assert_eq!(
        Amount(0x0102_0304_0506_0708).to_bytes_le(),
        vec![8, 7, 6, 5, 4, 3, 2, 1]
    );
}

#[test]
fn account_id_is_one_byte() {
    assert_eq!(AccountId(7).to_bytes_le(), vec![7]);
    assert_eq!(AccountId(255).to_bytes_le(), vec![255]);
}

#[test]
fn account_id_increment_stops_at_the_last_identifier() {
    let mut id = AccountId(1);
    assert_eq!(id.checked_increment(), Some(()));
    assert_eq!(id, AccountId(2));
    let mut last = AccountId(255);
    assert_eq!(last.checked_increment(), None);
    assert_eq!(last, AccountId(255));
}
