use payments_engine::{Amount, InputTransaction, OutputAccount, Transaction, ValidationError};

/// Parses a plain decimal literal with at most twelve fractional digits
/// into an `Amount`, so tests can write amounts the way input records do.
fn dec(val: &str) -> Amount {
    let mut parts = val.splitn(2, '.');
    let whole: u128 = parts.next().unwrap().parse().unwrap();
    let frac_str = parts.next().unwrap_or("");
    assert!(frac_str.len() <= 12);
    let mut frac: u128 = 0;
    let mut scale: u128 = 1_000_000_000_000;
    for ch in frac_str.chars() {
        scale /= 10;
        frac += ch.to_digit(10).unwrap() as u128 * scale;
    }
    Amount::from_units(whole * 1_000_000_000_000 + frac)
}

fn input(tx_type: &str, client_id: u16, tx_id: u32, amount: Option<Amount>) -> InputTransaction {
    InputTransaction { tx_type: tx_type.to_owned(), client_id, tx_id, amount }
}

#[test]
fn validate_deposit_with_amount() {
    let tx = Transaction::try_from_input(input("deposit", 1, 1, Some(dec("10.543")))).unwrap();
    match tx {
        Transaction::Deposit(info) => {
            assert_eq!(info.client_id, 1);
            assert_eq!(info.tx_id, 1);
            assert_eq!(info.amount, dec("10.543"));
            assert!(!info.under_dispute);
        }
        _ => panic!("expected a deposit"),
    }
}

#[test]
fn validate_withdrawal_with_amount() {
    let tx = Transaction::try_from_input(input("withdrawal", 3, 7, Some(dec("0.05")))).unwrap();
    assert!(matches!(tx, Transaction::Withdrawal(_)));
    assert_eq!(tx.get_client_id(), 3);
    assert_eq!(tx.get_tx_id(), 7);
    assert!(!tx.is_ref());
}

#[test]
fn validate_missing_amount_is_rejected() {
    assert_eq!(
        Transaction::try_from_input(input("deposit", 1, 1, None)),
        Err(ValidationError::MissingAmount)
    );
    assert_eq!(
        Transaction::try_from_input(input("withdrawal", 1, 1, None)),
        Err(ValidationError::MissingAmount)
    );
}

#[test]
fn validate_reference_kinds_ignore_amount() {
    let d = Transaction::try_from_input(input("dispute", 1, 1, Some(dec("7")))).unwrap();
    assert!(matches!(d, Transaction::Dispute(_)));
    assert!(d.is_ref());

    let r = Transaction::try_from_input(input("resolve", 1, 1, None)).unwrap();
    assert!(matches!(r, Transaction::Resolve(_)));

    let c = Transaction::try_from_input(input("chargeback", 2, 9, None)).unwrap();
    assert!(matches!(c, Transaction::ChargeBack(_)));
    assert_eq!(c.get_client_id(), 2);
    assert_eq!(c.get_tx_id(), 9);
}

#[test]
fn validate_unknown_type_is_rejected() {
    assert_eq!(
        Transaction::try_from_input(input("transfer", 1, 1, Some(dec("1")))),
        Err(ValidationError::UnknownTransactionType)
    );
    assert_eq!(
        Transaction::try_from_input(input("", 1, 1, None)),
        Err(ValidationError::UnknownTransactionType)
    );
}

#[test]
fn type_names_round_trip() {
    let examples = [
        ("deposit", false),
        ("withdrawal", false),
        ("dispute", true),
        ("resolve", true),
        ("chargeback", true),
    ];
    for (name, is_ref) in examples {
        let tx = Transaction::try_from_input(input(name, 1, 1, Some(Amount::zero()))).unwrap();
        assert_eq!(tx.get_type(), name);
        assert_eq!(tx.is_ref(), is_ref);
    }
}

#[test]
fn serialize_decimal_precision_4() {
    let available = dec("10.5234");
    let held = dec("30.293853");
    let total = Amount::from_units(available.units + held.units);
    let output = OutputAccount { client_id: 1, available, held, total, locked: false };

    assert_eq!(output.available.to_decimal_string(), "10.5234");
    assert_eq!(output.held.to_decimal_string(), "30.2938");
}

#[test]
fn decimal_rendering_truncates_toward_zero() {
    // Truncated, never rounded: 30.293853 reads 30.2938, not 30.2939.
    assert_eq!(dec("30.293853").to_decimal_string(), "30.2938");
    assert_eq!(dec("0.00005").to_decimal_string(), "0");
    assert_eq!(dec("1.00009").to_decimal_string(), "1");
    assert_eq!(dec("0.000199999").to_decimal_string(), "0.0001");
    // Exactly on the grid: nothing to drop.
    assert_eq!(dec("10.5234").to_decimal_string(), "10.5234");
}

#[test]
fn decimal_rendering_strips_trailing_zeros() {
    assert_eq!(dec("1.05").to_decimal_string(), "1.05");
    assert_eq!(dec("1.2000").to_decimal_string(), "1.2");
    assert_eq!(dec("1.0000").to_decimal_string(), "1");
    assert_eq!(dec("0").to_decimal_string(), "0");
    assert_eq!(dec("0.0123").to_decimal_string(), "0.0123");
    assert_eq!(dec("0.0100").to_decimal_string(), "0.01");
    assert_eq!(dec("0.0001").to_decimal_string(), "0.0001");
    assert_eq!(dec("100.0001").to_decimal_string(), "100.0001");
}
