use payments_engine::{Account, AccountError, Amount, Transaction, TransactionInfo, TransactionRef};

/// Parses a plain decimal literal with at most twelve fractional digits
/// into an `Amount`, so tests can write amounts the way input records do.
fn dec(val: &str) -> Amount {
    let mut parts = val.splitn(2, '.');
    let whole: u128 = parts.next().unwrap().parse().unwrap();
    let frac_str = parts.next().unwrap_or("");
    assert!(frac_str.len() <= 12);
    let mut frac: u128 = 0;
    let mut scale: u128 = 1_000_000_000_000;
    for ch in frac_str.chars() {
        scale /= 10;
        frac += ch.to_digit(10).unwrap() as u128 * scale;
    }
    Amount::from_units(whole * 1_000_000_000_000 + frac)
}

fn zero() -> Amount {
    Amount::zero()
}

#[test]
fn deposit_withdraw() {
    let mut acc = Account::new(1);

    assert!(acc
        .apply_tx(Transaction::Deposit(TransactionInfo {
            client_id: 1,
            tx_id: 1,
            amount: dec("1.05"),
            under_dispute: false,
        }))
        .is_ok());

    assert_eq!(acc.available, dec("1.05"));
    assert_eq!(acc.held, zero());

    assert!(acc
        .apply_tx(Transaction::Withdrawal(TransactionInfo {
            client_id: 1,
            tx_id: 2,
            amount: dec("1.05"),
            under_dispute: false,
        }))
        .is_ok());

    assert_eq!(acc.available, zero());
    assert_eq!(acc.held, zero());
}

#[test]
fn withdraw_from_empty_account() {
    let mut acc = Account::new(1);

    assert!(acc
        .apply_tx(Transaction::Withdrawal(TransactionInfo {
            client_id: 1,
            tx_id: 2,
            amount: dec("1.05"),
            under_dispute: false,
        }))
        .is_err());

    assert_eq!(acc.available, zero());
    assert_eq!(acc.held, zero());
}

#[test]
fn withdraw_more_than_have() {
    let mut acc = Account::new(1);

    assert!(acc
        .apply_tx(Transaction::Deposit(TransactionInfo {
            client_id: 1,
            tx_id: 1,
            amount: dec("1.05"),
            under_dispute: false,
        }))
        .is_ok());

    assert!(acc
        .apply_tx(Transaction::Withdrawal(TransactionInfo {
            client_id: 1,
            tx_id: 2,
            amount: dec("1.06"),
            under_dispute: false,
        }))
        .is_err());

    assert_eq!(acc.available, dec("1.05"));
    assert_eq!(acc.held, zero());
}

#[test]
fn withdraw_held_funds() {
    let mut acc = Account::new(1);

    assert!(acc
        .apply_tx(Transaction::Deposit(TransactionInfo {
            client_id: 1,
            tx_id: 1,
            amount: dec("1.05"),
            under_dispute: false,
        }))
        .is_ok());

    assert!(acc
        .apply_tx(Transaction::Dispute(TransactionRef { client_id: 1, tx_id: 1 }))
        .is_ok());

    assert!(acc
        .apply_tx(Transaction::Withdrawal(TransactionInfo {
            client_id: 1,
            tx_id: 2,
            amount: dec("1.04"),
            under_dispute: false,
        }))
        .is_err());

    assert_eq!(acc.available, zero());
    assert_eq!(acc.held, dec("1.05"));
}

/// for now only deposit disputes are allowed, it should error if
/// we try to dispute "withdrawal" transaction.
#[test]
fn dispute_withdrawal() {
    let mut acc = Account::new(1);

    assert!(acc
        .apply_tx(Transaction::Deposit(TransactionInfo {
            client_id: 1,
            tx_id: 1,
            amount: dec("1.05"),
            under_dispute: false,
        }))
        .is_ok());

    assert!(acc
        .apply_tx(Transaction::Withdrawal(TransactionInfo {
            client_id: 1,
            tx_id: 2,
            amount: dec("1.05"),
            under_dispute: false,
        }))
        .is_ok());

    assert_eq!(acc.available, zero());
    assert_eq!(acc.held, zero());

    assert!(acc
        .apply_tx(Transaction::Dispute(TransactionRef { client_id: 1, tx_id: 2 }))
        .is_err());

    assert_eq!(acc.available, zero());
    assert_eq!(acc.held, zero());
}

#[test]
fn dispute_resolve() {
    let mut acc = Account::new(1);

    assert!(acc
        .apply_tx(Transaction::Deposit(TransactionInfo {
            client_id: 1,
            tx_id: 1,
            amount: dec("1.05"),
            under_dispute: false,
        }))
        .is_ok());

    assert!(acc
        .apply_tx(Transaction::Dispute(TransactionRef { client_id: 1, tx_id: 1 }))
        .is_ok());

    assert_eq!(acc.available, zero());
    assert_eq!(acc.held, dec("1.05"));

    assert!(acc
        .apply_tx(Transaction::Resolve(TransactionRef { client_id: 1, tx_id: 1 }))
        .is_ok());

    assert_eq!(acc.available, dec("1.05"));
    assert_eq!(acc.held, zero());
}

#[test]
fn dispute_chargeback() {
    let mut acc = Account::new(1);

    assert!(acc
        .apply_tx(Transaction::Deposit(TransactionInfo {
            client_id: 1,
            tx_id: 1,
            amount: dec("1.05"),
            under_dispute: false,
        }))
        .is_ok());

    assert!(acc
        .apply_tx(Transaction::Dispute(TransactionRef { client_id: 1, tx_id: 1 }))
        .is_ok());

    assert_eq!(acc.available, zero());
    assert_eq!(acc.held, dec("1.05"));

    assert!(acc
        .apply_tx(Transaction::ChargeBack(TransactionRef { client_id: 1, tx_id: 1 }))
        .is_ok());

    assert_eq!(acc.available, zero());
    assert_eq!(acc.held, zero());
    assert!(acc.locked);
}

#[test]
fn resolve_not_existant_tx() {
    let mut acc = Account::new(1);

    assert!(acc
        .apply_tx(Transaction::Resolve(TransactionRef { client_id: 1, tx_id: 1 }))
        .is_err());

    assert_eq!(acc.available, zero());
    assert_eq!(acc.held, zero());
}

#[test]
fn resolve_not_under_dispute() {
    let mut acc = Account::new(1);

    assert!(acc
        .apply_tx(Transaction::Deposit(TransactionInfo {
            client_id: 1,
            tx_id: 1,
            amount: dec("1.05"),
            under_dispute: false,
        }))
        .is_ok());

    assert!(acc
        .apply_tx(Transaction::Resolve(TransactionRef { client_id: 1, tx_id: 1 }))
        .is_err());

    assert_eq!(acc.available, dec("1.05"));
    assert_eq!(acc.held, zero());
}

#[test]
fn chargeback_not_existant_tx() {
    let mut acc = Account::new(1);

    assert!(acc
        .apply_tx(Transaction::ChargeBack(TransactionRef { client_id: 1, tx_id: 1 }))
        .is_err());

    assert_eq!(acc.available, zero());
    assert_eq!(acc.held, zero());
    assert!(!acc.locked);
}

#[test]
fn chargeback_not_under_dispute() {
    let mut acc = Account::new(1);

    assert!(acc
        .apply_tx(Transaction::Deposit(TransactionInfo {
            client_id: 1,
            tx_id: 1,
            amount: dec("1.05"),
            under_dispute: false,
        }))
        .is_ok());

    assert!(acc
        .apply_tx(Transaction::ChargeBack(TransactionRef { client_id: 1, tx_id: 1 }))
        .is_err());

    assert_eq!(acc.available, dec("1.05"));
    assert_eq!(acc.held, zero());
    assert!(!acc.locked);
}

#[test]
fn error_kinds_are_reported_exactly() {
    let mut acc = Account::new(1);

    // A withdrawal from an empty account: insufficient funds.
    assert_eq!(
        acc.apply_tx(Transaction::Withdrawal(TransactionInfo {
            client_id: 1,
            tx_id: 1,
            amount: dec("1.05"),
            under_dispute: false,
        })),
        Err(AccountError::InsufficientFunds)
    );

    // Referencing an unknown transaction id.
    assert_eq!(
        acc.apply_tx(Transaction::Dispute(TransactionRef { client_id: 1, tx_id: 9 })),
        Err(AccountError::ReferenceNotFound)
    );

    assert!(acc
        .apply_tx(Transaction::Deposit(TransactionInfo {
            client_id: 1,
            tx_id: 1,
            amount: dec("2.00"),
            under_dispute: false,
        }))
        .is_ok());

    // Reusing a stored id for a new deposit or withdrawal.
    assert_eq!(
        acc.apply_tx(Transaction::Deposit(TransactionInfo {
            client_id: 1,
            tx_id: 1,
            amount: dec("3.00"),
            under_dispute: false,
        })),
        Err(AccountError::DuplicateTransaction)
    );
    assert_eq!(
        acc.apply_tx(Transaction::Withdrawal(TransactionInfo {
            client_id: 1,
            tx_id: 1,
            amount: dec("1.00"),
            under_dispute: false,
        })),
        Err(AccountError::DuplicateTransaction)
    );

    // Disputing a withdrawal is unsupported.
    assert!(acc
        .apply_tx(Transaction::Withdrawal(TransactionInfo {
            client_id: 1,
            tx_id: 2,
            amount: dec("0.50"),
            under_dispute: false,
        }))
        .is_ok());
    assert_eq!(
        acc.apply_tx(Transaction::Dispute(TransactionRef { client_id: 1, tx_id: 2 })),
        Err(AccountError::UnsupportedDisputeTarget)
    );

    // Resolving or charging back a deposit that is not under dispute.
    assert_eq!(
        acc.apply_tx(Transaction::Resolve(TransactionRef { client_id: 1, tx_id: 1 })),
        Err(AccountError::NotUnderDispute)
    );
    assert_eq!(
        acc.apply_tx(Transaction::ChargeBack(TransactionRef { client_id: 1, tx_id: 1 })),
        Err(AccountError::NotUnderDispute)
    );

    // Disputing twice; a further deposit first, so the disputed amount
    // still sits in the available funds.
    assert!(acc
        .apply_tx(Transaction::Deposit(TransactionInfo {
            client_id: 1,
            tx_id: 3,
            amount: dec("1.00"),
            under_dispute: false,
        }))
        .is_ok());
    assert!(acc
        .apply_tx(Transaction::Dispute(TransactionRef { client_id: 1, tx_id: 1 }))
        .is_ok());
    assert_eq!(
        acc.apply_tx(Transaction::Dispute(TransactionRef { client_id: 1, tx_id: 1 })),
        Err(AccountError::AlreadyUnderDispute)
    );
}

#[test]
fn dispute_needs_funds_still_available() {
    let mut acc = Account::new(1);

    assert!(acc
        .apply_tx(Transaction::Deposit(TransactionInfo {
            client_id: 1,
            tx_id: 1,
            amount: dec("1.05"),
            under_dispute: false,
        }))
        .is_ok());
    // Withdraw most of it, so the deposited amount no longer sits in
    // available funds.
    assert!(acc
        .apply_tx(Transaction::Withdrawal(TransactionInfo {
            client_id: 1,
            tx_id: 2,
            amount: dec("1.00"),
            under_dispute: false,
        }))
        .is_ok());

    assert_eq!(
        acc.apply_tx(Transaction::Dispute(TransactionRef { client_id: 1, tx_id: 1 })),
        Err(AccountError::InsufficientFundsForDispute)
    );
    assert_eq!(acc.available, dec("0.05"));
    assert_eq!(acc.held, zero());
}

#[test]
fn locked_account_rejects_everything() {
    let mut acc = Account::new(1);

    assert!(acc
        .apply_tx(Transaction::Deposit(TransactionInfo {
            client_id: 1,
            tx_id: 1,
            amount: dec("1.05"),
            under_dispute: false,
        }))
        .is_ok());
    assert!(acc
        .apply_tx(Transaction::Dispute(TransactionRef { client_id: 1, tx_id: 1 }))
        .is_ok());
    assert!(acc
        .apply_tx(Transaction::ChargeBack(TransactionRef { client_id: 1, tx_id: 1 }))
        .is_ok());
    assert!(acc.locked);

    // Every further transaction for the client fails with LockedAccount
    // and changes nothing.
    assert_eq!(
        acc.apply_tx(Transaction::Deposit(TransactionInfo {
            client_id: 1,
            tx_id: 2,
            amount: dec("1.00"),
            under_dispute: false,
        })),
        Err(AccountError::LockedAccount)
    );
    assert_eq!(
        acc.apply_tx(Transaction::Resolve(TransactionRef { client_id: 1, tx_id: 1 })),
        Err(AccountError::LockedAccount)
    );
    assert_eq!(acc.available, zero());
    assert_eq!(acc.held, zero());
    assert!(acc.locked);
}

#[test]
fn deposit_overflow_is_rejected() {
    let mut acc = Account::new(1);

    assert!(acc
        .apply_tx(Transaction::Deposit(TransactionInfo {
            client_id: 1,
            tx_id: 1,
            amount: Amount::from_units(u128::MAX),
            under_dispute: false,
        }))
        .is_ok());

    assert_eq!(
        acc.apply_tx(Transaction::Deposit(TransactionInfo {
            client_id: 1,
            tx_id: 2,
            amount: Amount::from_units(1),
            under_dispute: false,
        })),
        Err(AccountError::BalanceOverflow)
    );
    assert_eq!(acc.available, Amount::from_units(u128::MAX));
}

#[test]
fn zero_amounts_pass_through() {
    let mut acc = Account::new(1);

    assert!(acc
        .apply_tx(Transaction::Deposit(TransactionInfo {
            client_id: 1,
            tx_id: 1,
            amount: zero(),
            under_dispute: false,
        }))
        .is_ok());
    assert!(acc
        .apply_tx(Transaction::Withdrawal(TransactionInfo {
            client_id: 1,
            tx_id: 2,
            amount: zero(),
            under_dispute: false,
        }))
        .is_ok());
    assert_eq!(acc.available, zero());
}

#[test]
fn total_is_available_plus_held() {
    let mut acc = Account::new(1);

    assert!(acc
        .apply_tx(Transaction::Deposit(TransactionInfo {
            client_id: 1,
            tx_id: 1,
            amount: dec("1.05"),
            under_dispute: false,
        }))
        .is_ok());
    assert!(acc
        .apply_tx(Transaction::Deposit(TransactionInfo {
            client_id: 1,
            tx_id: 2,
            amount: dec("2.00"),
            under_dispute: false,
        }))
        .is_ok());
    assert!(acc
        .apply_tx(Transaction::Dispute(TransactionRef { client_id: 1, tx_id: 1 }))
        .is_ok());

    assert_eq!(acc.available, dec("2.00"));
    assert_eq!(acc.held, dec("1.05"));
    assert_eq!(acc.total(), dec("3.05"));

    let out = acc.into_output();
    assert_eq!(out.client_id, 1);
    assert_eq!(out.available, dec("2.00"));
    assert_eq!(out.held, dec("1.05"));
    assert_eq!(out.total, dec("3.05"));
    assert!(!out.locked);
}

#[test]
fn sub_output_precision_is_retained_internally() {
    let mut acc = Account::new(1);

    // Two deposits of 0.00005: each is below the output grid's step, but
    // the core keeps full precision, so together they are worth 0.0001.
    for tx_id in 1..=2 {
        assert!(acc
            .apply_tx(Transaction::Deposit(TransactionInfo {
                client_id: 1,
                tx_id,
                amount: dec("0.00005"),
                under_dispute: false,
            }))
            .is_ok());
    }

    assert_eq!(acc.available, dec("0.0001"));
    assert_eq!(acc.available.to_decimal_string(), "0.0001");
    // A single such deposit truncates to nothing at the output boundary.
    assert_eq!(dec("0.00005").to_decimal_string(), "0");
}
