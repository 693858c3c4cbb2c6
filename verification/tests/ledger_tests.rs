use std::collections::HashMap;

use pico_ledger::repository::AccountRepository;
use pico_ledger::{
    Account, AccountSummary, Amount, Booking, BookingState, InMemoryAccountRepository, Ledger,
    LedgerErrorKind, Tx, TxType,
};

struct TestCase {
    txs: Vec<(Tx, bool)>, // true if no errors expected.
    expected: Vec<AccountSummary>,
}

struct CommonCases;

impl CommonCases {
    pub fn new() -> HashMap<&'static str, TestCase> {
        return HashMap::from([
            (
                "booking_gets_locked",
                TestCase {
                    txs: vec![
                        (
                            Tx {
                                tx_id: 1,
                                client_id: 1,
                                tx_type: TxType::Deposit,
                                amount: Some(Amount::from(10_0000)),
                            },
                            true,
                        ),
                        (
                            Tx { tx_id: 1, client_id: 1, tx_type: TxType::Dispute, amount: None },
                            true,
                        ),
                        (
                            Tx { tx_id: 1, client_id: 1, tx_type: TxType::Resolve, amount: None },
                            true,
                        ),
                    ],
                    expected: vec![AccountSummary {
                        client: 1,
                        available: 10_0000.into(),
                        total: 10_0000.into(),
                        held: 0_0000.into(),
                        locked: false,
                    }],
                },
            ),
            (
                "invalid_tx_1",
                TestCase {
                    txs: vec![
                        (
                            Tx {
                                tx_id: 1,
                                client_id: 1,
                                tx_type: TxType::Deposit,
                                amount: Some(Amount::from(10_0000)),
                            },
                            true,
                        ),
                        (
                            Tx { tx_id: 1, client_id: 1, tx_type: TxType::Dispute, amount: None },
                            true,
                        ),
                        (
                            Tx { tx_id: 0, client_id: 1, tx_type: TxType::Resolve, amount: None },
                            false,
                        ),
                    ],
                    expected: vec![AccountSummary {
                        client: 1,
                        available: 0_0000.into(),
                        total: 10_0000.into(),
                        held: 10_0000.into(),
                        locked: false,
                    }],
                },
            ),
            (
                "invalid_tx_2",
                TestCase {
                    txs: vec![
                        (
                            Tx {
                                tx_id: 1,
                                client_id: 1,
                                tx_type: TxType::Deposit,
                                amount: Some(Amount::from(10_0000)),
                            },
                            true,
                        ),
                        (
                            Tx { tx_id: 1, client_id: 1, tx_type: TxType::Dispute, amount: None },
                            true,
                        ),
                        (
                            Tx { tx_id: 1, client_id: 2, tx_type: TxType::Resolve, amount: None },
                            false,
                        ),
                    ],
                    expected: vec![
                        AccountSummary {
                            client: 2,
                            available: 0_0000.into(),
                            total: 0_0000.into(),
                            held: 0_0000.into(),
                            locked: false,
                        },
                        AccountSummary {
                            client: 1,
                            available: 0_0000.into(),
                            total: 10_0000.into(),
                            held: 10_0000.into(),
                            locked: false,
                        },
                    ],
                },
            ),
            (
                "deposit_booking",
                TestCase {
                    txs: vec![
                        (
                            Tx {
                                tx_id: 1,
                                client_id: 1,
                                tx_type: TxType::Deposit,
                                amount: Some(Amount::from(10_0000)),
                            },
                            true,
                        ),
                        (
                            Tx {
                                tx_id: 2,
                                client_id: 2,
                                tx_type: TxType::Deposit,
                                amount: Some(Amount::from(11_0000)),
                            },
                            true,
                        ),
                        (
                            Tx {
                                tx_id: 3,
                                client_id: 3,
                                tx_type: TxType::Deposit,
                                amount: Some(Amount::from(12_0000)),
                            },
                            true,
                        ),
                    ],
                    expected: vec![
                        AccountSummary {
                            client: 1,
                            available: 10_0000.into(),
                            total: 10_0000.into(),
                            held: 0_0000.into(),
                            locked: false,
                        },
                        AccountSummary {
                            client: 2,
                            available: 11_0000.into(),
                            total: 11_0000.into(),
                            held: 0_0000.into(),
                            locked: false,
                        },
                        AccountSummary {
                            client: 3,
                            available: 12_0000.into(),
                            total: 12_0000.into(),
                            held: 0_0000.into(),
                            locked: false,
                        },
                    ],
                },
            ),
            (
                "tx_to_locked_account",
                TestCase {
                    txs: vec![
                        (
                            Tx {
                                tx_id: 1,
                                client_id: 1,
                                tx_type: TxType::Deposit,
                                amount: Some(Amount::from(10_0000)),
                            },
                            true,
                        ),
                        (
                            Tx { tx_id: 1, client_id: 1, tx_type: TxType::Dispute, amount: None },
                            true,
                        ),
                        (
                            Tx {
                                tx_id: 1,
                                client_id: 1,
                                tx_type: TxType::Chargeback,
                                amount: None,
                            },
                            true,
                        ),
                        (
                            Tx {
                                tx_id: 2,
                                client_id: 1,
                                tx_type: TxType::Deposit,
                                amount: Some(Amount::from(1_0000)),
                            },
                            false,
                        ),
                    ],
                    expected: vec![AccountSummary {
                        client: 1,
                        available: 0_0000.into(),
                        total: 0_0000.into(),
                        held: 0_0000.into(),
                        locked: true,
                    }],
                },
            ),
            (
                "multiple_txs_w_same_id",
                TestCase {
                    txs: vec![
                        (
                            Tx {
                                tx_id: 1,
                                client_id: 1,
                                tx_type: TxType::Deposit,
                                amount: Some(Amount::from(10_0000)),
                            },
                            true,
                        ),
                        (
                            Tx { tx_id: 1, client_id: 1, tx_type: TxType::Dispute, amount: None },
                            true,
                        ),
                        (
                            Tx { tx_id: 1, client_id: 1, tx_type: TxType::Dispute, amount: None },
                            false,
                        ),
                        (
                            Tx { tx_id: 1, client_id: 1, tx_type: TxType::Resolve, amount: None },
                            true,
                        ),
                        (
                            Tx { tx_id: 1, client_id: 1, tx_type: TxType::Resolve, amount: None },
                            false,
                        ),
                        (
                            Tx {
                                tx_id: 1,
                                client_id: 1,
                                tx_type: TxType::Chargeback,
                                amount: None,
                            },
                            false,
                        ),
                        (
                            Tx {
                                tx_id: 1,
                                client_id: 1,
                                tx_type: TxType::Chargeback,
                                amount: None,
                            },
                            false,
                        ),
                    ],
                    expected: vec![AccountSummary {
                        client: 1,
                        available: 10_0000.into(),
                        total: 10_0000.into(),
                        held: 0_0000.into(),
                        locked: false,
                    }],
                },
            ),
            (
                "withdraw_booking",
                TestCase {
                    txs: vec![
                        (
                            Tx {
                                tx_id: 1,
                                client_id: 1,
                                tx_type: TxType::Deposit,
                                amount: Some(Amount::from(10_0000)),
                            },
                            true,
                        ),
                        (
                            Tx {
                                tx_id: 2,
                                client_id: 1,
                                tx_type: TxType::Withdrawal,
                                amount: Some(Amount::from(5_0000)),
                            },
                            true,
                        ),
                    ],
                    expected: vec![AccountSummary {
                        client: 1,
                        available: 5_0000.into(),
                        total: 5_0000.into(),
                        held: 0_0000.into(),
                        locked: false,
                    }],
                },
            ),
            (
                "dispute_booking",
                TestCase {
                    txs: vec![
                        (
                            Tx {
                                tx_id: 1,
                                client_id: 1,
                                tx_type: TxType::Deposit,
                                amount: Some(Amount::from(10_0000)),
                            },
                            true,
                        ),
                        (
                            Tx {
                                tx_id: 2,
                                client_id: 1,
                                tx_type: TxType::Deposit,
                                amount: Some(Amount::from(5_0000)),
                            },
                            true,
                        ),
                        (
                            Tx { tx_id: 2, client_id: 1, tx_type: TxType::Dispute, amount: None },
                            true,
                        ),
                        (
                            Tx {
                                tx_id: 3,
                                client_id: 1,
                                tx_type: TxType::Withdrawal,
                                amount: Some(Amount::from(9_0000)),
                            },
                            true,
                        ),
                        (
                            Tx {
                                tx_id: 4,
                                client_id: 1,
                                tx_type: TxType::Withdrawal,
                                amount: Some(Amount::from(9_0000)),
                            },
                            false,
                        ),
                    ],
                    expected: vec![AccountSummary {
                        client: 1,
                        available: 1_0000.into(),
                        total: 6_0000.into(),
                        held: 5_0000.into(),
                        locked: false,
                    }],
                },
            ),
            (
                "resolve_booking",
                TestCase {
                    txs: vec![
                        (
                            Tx {
                                tx_id: 1,
                                client_id: 1,
                                tx_type: TxType::Deposit,
                                amount: Some(Amount::from(10_0000)),
                            },
                            true,
                        ),
                        (
                            Tx { tx_id: 1, client_id: 1, tx_type: TxType::Dispute, amount: None },
                            true,
                        ),
                        (
                            Tx { tx_id: 1, client_id: 1, tx_type: TxType::Resolve, amount: None },
                            true,
                        ),
                    ],
                    expected: vec![AccountSummary {
                        client: 1,
                        available: 10_0000.into(),
                        total: 10_0000.into(),
                        held: 0_0000.into(),
                        locked: false,
                    }],
                },
            ),
            (
                "chargeback_booking",
                TestCase {
                    txs: vec![
                        (
                            Tx {
                                tx_id: 1,
                                client_id: 1,
                                tx_type: TxType::Deposit,
                                amount: Some(Amount::from(10_0000)),
                            },
                            true,
                        ),
                        (
                            Tx {
                                tx_id: 2,
                                client_id: 1,
                                tx_type: TxType::Deposit,
                                amount: Some(Amount::from(11_0000)),
                            },
                            true,
                        ),
                        (
                            Tx { tx_id: 1, client_id: 1, tx_type: TxType::Dispute, amount: None },
                            true,
                        ),
                        (
                            Tx {
                                tx_id: 1,
                                client_id: 1,
                                tx_type: TxType::Chargeback,
                                amount: None,
                            },
                            true,
                        ),
                    ],
                    expected: vec![AccountSummary {
                        client: 1,
                        available: 11_0000.into(),
                        total: 11_0000.into(),
                        held: 0_0000.into(),
                        locked: true,
                    }],
                },
            ),
            (
                "negative_chargeback_booking",
                TestCase {
                    txs: vec![
                        (
                            Tx {
                                tx_id: 1,
                                client_id: 1,
                                tx_type: TxType::Deposit,
                                amount: Some(Amount::from(10_0000)),
                            },
                            true,
                        ),
                        (
                            Tx {
                                tx_id: 2,
                                client_id: 1,
                                tx_type: TxType::Deposit,
                                amount: Some(Amount::from(11_0000)),
                            },
                            true,
                        ),
                        (
                            Tx {
                                tx_id: 3,
                                client_id: 1,
                                tx_type: TxType::Withdrawal,
                                amount: Some(Amount::from(20_0000)),
                            },
                            true,
                        ),
                        // available -10; held 11; total 1
                        (
                            Tx { tx_id: 2, client_id: 1, tx_type: TxType::Dispute, amount: None },
                            true,
                        ),
                        // fails because of negative available balance
                        (
                            Tx {
                                tx_id: 4,
                                client_id: 1,
                                tx_type: TxType::Withdrawal,
                                amount: Some(Amount::from(1_0000)),
                            },
                            false,
                        ),
                        // available -10; held 0; total -10
                        (
                            Tx {
                                tx_id: 2,
                                client_id: 1,
                                tx_type: TxType::Chargeback,
                                amount: None,
                            },
                            true,
                        ),
                    ],
                    expected: vec![AccountSummary {
                        client: 1,
                        available: (-10_0000).into(),
                        total: (-10_0000).into(),
                        held: 0_0000.into(),
                        locked: true,
                    }],
                },
            ),
        ]);
    }
}

fn sorted_by_client(mut v: Vec<AccountSummary>) -> Vec<AccountSummary> {
    v.sort_by(|a, b| a.client.cmp(&b.client));
    v
}

#[test]
fn booking_when_tx_without_existing_account() {
    let tx = Tx {
        tx_id: 1,
        client_id: 1,
        tx_type: TxType::Deposit,
        amount: Some(Amount::from(10_0000)),
    };

    let mut ledger = Ledger::new_in_memory();

    let res = ledger.process_tx(tx);
    assert!(res.is_ok());

    let accounts = ledger.dump_accounts().unwrap();
    assert_eq!(tx.client_id, accounts[0].client);
    assert_eq!(tx.amount, Some(accounts[0].available));
    assert_eq!(tx.amount, Some(accounts[0].total));
    assert_eq!(Amount::from(0_0000), accounts[0].held);
    assert_eq!(false, accounts[0].locked);
}

#[test]
fn common_cases() {
    let cases = CommonCases::new();
    for (title, case) in cases.into_iter() {
        let mut ledger = Ledger::new_in_memory();

        for (tx, should_succeed) in case.txs {
            let res = ledger.process_tx(tx);
            assert!(should_succeed == res.is_ok(), "{}: tx_id: {}", title, tx.tx_id);
        }

        assert_eq!(
            sorted_by_client(case.expected),
            sorted_by_client(ledger.dump_accounts().unwrap()),
            "{}",
            title
        );
    }
}

#[test]
fn summaries_balance_after_every_operation() {
    let txs = vec![
        Tx { tx_id: 1, client_id: 1, tx_type: TxType::Deposit, amount: Some(Amount::from(10_0000)) },
        Tx { tx_id: 2, client_id: 1, tx_type: TxType::Deposit, amount: Some(Amount::from(11_0000)) },
        Tx {
            tx_id: 3,
            client_id: 1,
            tx_type: TxType::Withdrawal,
            amount: Some(Amount::from(20_0000)),
        },
        Tx { tx_id: 2, client_id: 1, tx_type: TxType::Dispute, amount: None },
        Tx { tx_id: 4, client_id: 1, tx_type: TxType::Withdrawal, amount: Some(Amount::from(1_0000)) },
        Tx { tx_id: 2, client_id: 1, tx_type: TxType::Chargeback, amount: None },
    ];
    let mut ledger = Ledger::new_in_memory();
    for tx in txs {
        let _ = ledger.process_tx(tx);
        for s in ledger.dump_accounts().unwrap() {
            assert_eq!(s.total.to_i64(), s.available.to_i64() + s.held.to_i64());
        }
    }
}

#[test]
fn locked_account_stays_untouched() {
    let mut ledger = Ledger::new_in_memory();
    let deposit = Tx {
        tx_id: 1,
        client_id: 1,
        tx_type: TxType::Deposit,
        amount: Some(Amount::from(10_0000)),
    };
    assert!(ledger.process_tx(deposit).is_ok());
    assert!(ledger
        .process_tx(Tx { tx_id: 1, client_id: 1, tx_type: TxType::Dispute, amount: None })
        .is_ok());
    assert!(ledger
        .process_tx(Tx { tx_id: 1, client_id: 1, tx_type: TxType::Chargeback, amount: None })
        .is_ok());
    let before = sorted_by_client(ledger.dump_accounts().unwrap());

    let later = vec![
        Tx { tx_id: 5, client_id: 1, tx_type: TxType::Deposit, amount: Some(Amount::from(2_0000)) },
        Tx { tx_id: 6, client_id: 1, tx_type: TxType::Withdrawal, amount: Some(Amount::from(1_0000)) },
        Tx { tx_id: 1, client_id: 1, tx_type: TxType::Dispute, amount: None },
    ];
    for tx in later {
        let res = ledger.process_tx(tx);
        assert!(res.is_err());
        match &res.unwrap_err().kind {
            LedgerErrorKind::RepositoryError(m) => assert_eq!("account is locked", m.as_str()),
            _ => panic!("unexpected error kind"),
        }
    }
    assert_eq!(before, sorted_by_client(ledger.dump_accounts().unwrap()));
}

#[test]
fn dispute_applied_at_most_once() {
    let mut ledger = Ledger::new_in_memory();
    assert!(ledger
        .process_tx(Tx {
            tx_id: 1,
            client_id: 1,
            tx_type: TxType::Deposit,
            amount: Some(Amount::from(10_0000)),
        })
        .is_ok());
    assert!(ledger
        .process_tx(Tx { tx_id: 1, client_id: 1, tx_type: TxType::Dispute, amount: None })
        .is_ok());
    let after_first = sorted_by_client(ledger.dump_accounts().unwrap());
    assert_eq!(0, after_first[0].available.to_i64());
    assert_eq!(10_0000, after_first[0].held.to_i64());

    let second = ledger.process_tx(Tx {
        tx_id: 1,
        client_id: 1,
        tx_type: TxType::Dispute,
        amount: None,
    });
    assert!(second.is_err());
    match &second.unwrap_err().kind {
        LedgerErrorKind::RepositoryError(m) => assert_eq!("transaction is not allowed", m.as_str()),
        _ => panic!("unexpected error kind"),
    }
    assert_eq!(after_first, sorted_by_client(ledger.dump_accounts().unwrap()));
}

#[test]
fn resolve_of_pristine_booking_rejected() {
    let mut ledger = Ledger::new_in_memory();
    assert!(ledger
        .process_tx(Tx {
            tx_id: 1,
            client_id: 1,
            tx_type: TxType::Deposit,
            amount: Some(Amount::from(10_0000)),
        })
        .is_ok());
    // The failed withdrawal leaves its booking in the pristine state.
    let w = ledger.process_tx(Tx {
        tx_id: 2,
        client_id: 1,
        tx_type: TxType::Withdrawal,
        amount: Some(Amount::from(20_0000)),
    });
    assert!(w.is_err());
    match &w.unwrap_err().kind {
        LedgerErrorKind::RepositoryError(m) => assert_eq!("insufficient funds", m.as_str()),
        _ => panic!("unexpected error kind"),
    }
    let before = sorted_by_client(ledger.dump_accounts().unwrap());

    let r = ledger.process_tx(Tx { tx_id: 2, client_id: 1, tx_type: TxType::Resolve, amount: None });
    assert!(r.is_err());
    match &r.unwrap_err().kind {
        LedgerErrorKind::RepositoryError(m) => assert_eq!("transaction is not allowed", m.as_str()),
        _ => panic!("unexpected error kind"),
    }
    assert_eq!(before, sorted_by_client(ledger.dump_accounts().unwrap()));
}

#[test]
fn error_inputs_by_kind() {
    let mut ledger = Ledger::new_in_memory();

    // A first-seen transaction id without an amount.
    let missing =
        ledger.process_tx(Tx { tx_id: 9, client_id: 1, tx_type: TxType::Dispute, amount: None });
    match &missing.unwrap_err().kind {
        LedgerErrorKind::RepositoryError(m) => assert_eq!("missing amount", m.as_str()),
        _ => panic!("unexpected error kind"),
    }

    // A first-seen transaction id with a negative amount.
    let negative = ledger.process_tx(Tx {
        tx_id: 9,
        client_id: 1,
        tx_type: TxType::Deposit,
        amount: Some(Amount::from(-1)),
    });
    match &negative.unwrap_err().kind {
        LedgerErrorKind::RepositoryError(m) => assert_eq!("negative amount", m.as_str()),
        _ => panic!("unexpected error kind"),
    }

    // A booking reused under a different client.
    assert!(ledger
        .process_tx(Tx {
            tx_id: 1,
            client_id: 1,
            tx_type: TxType::Deposit,
            amount: Some(Amount::from(5_0000)),
        })
        .is_ok());
    let mismatch =
        ledger.process_tx(Tx { tx_id: 1, client_id: 2, tx_type: TxType::Dispute, amount: None });
    match &mismatch.unwrap_err().kind {
        LedgerErrorKind::RepositoryError(m) => assert_eq!("invalid transaction", m.as_str()),
        _ => panic!("unexpected error kind"),
    }

    // A locked booking: the withdrawal closes its own booking.
    assert!(ledger
        .process_tx(Tx {
            tx_id: 2,
            client_id: 1,
            tx_type: TxType::Withdrawal,
            amount: Some(Amount::from(1_0000)),
        })
        .is_ok());
    let locked_booking =
        ledger.process_tx(Tx { tx_id: 2, client_id: 1, tx_type: TxType::Dispute, amount: None });
    match &locked_booking.unwrap_err().kind {
        LedgerErrorKind::RepositoryError(m) => assert_eq!("booking is locked", m.as_str()),
        _ => panic!("unexpected error kind"),
    }

    // A balance effect that would leave the 64-bit range.
    assert!(ledger
        .process_tx(Tx {
            tx_id: 3,
            client_id: 3,
            tx_type: TxType::Deposit,
            amount: Some(Amount::from(i64::MAX)),
        })
        .is_ok());
    let out_of_range = ledger.process_tx(Tx {
        tx_id: 4,
        client_id: 3,
        tx_type: TxType::Deposit,
        amount: Some(Amount::from(i64::MAX)),
    });
    match &out_of_range.unwrap_err().kind {
        LedgerErrorKind::RepositoryError(m) => assert_eq!("amount out of range", m.as_str()),
        _ => panic!("unexpected error kind"),
    }
}

#[test]
fn error_constructors_and_messages() {
    let e = pico_ledger::LedgerError::doesnt_exist("account");
    match e.kind() {
        LedgerErrorKind::DoesNotExist(m) => assert_eq!("account", m.as_str()),
        _ => panic!("unexpected error kind"),
    }
    assert_eq!("account does not exist", e.message());

    let e = pico_ledger::LedgerError::repository_error("broken");
    assert_eq!("Repository error: broken", e.message());

    let e = pico_ledger::LedgerError::service_error("down");
    assert_eq!("Service error: down", e.message());

    let e = LedgerErrorKind::RepositoryError("x".to_string()).into_err();
    assert_eq!("Repository error: x", e.message());
}

#[test]
fn booking_lifecycle_fields() {
    let mut b = Booking::new(7, 3, 50);
    assert_eq!(3, b.get_client_id());
    assert_eq!(50, b.get_amount());
    assert!(matches!(b.get_state(), BookingState::Pristine));
    assert!(!b.is_locked());
    b.set_state(BookingState::Normal);
    assert!(matches!(b.get_state(), BookingState::Normal));
    assert!(!b.is_locked());
    b.set_state_and_lock(BookingState::Resolved);
    assert!(b.is_locked());
    assert!(matches!(b.get_state(), BookingState::Resolved));
}

#[test]
fn account_store_operations() {
    let mut repo = InMemoryAccountRepository::new();

    // Mutating a client that was never created reports absence.
    let e = repo.hold(1, 100).unwrap_err();
    assert!(matches!(e.kind, LedgerErrorKind::DoesNotExist(_)));

    repo.get_or_create_account(1).unwrap();
    repo.deposit(1, 500).unwrap();
    repo.hold(1, 200).unwrap();
    repo.release(1, 200).unwrap();
    repo.withdraw(1, 100).unwrap();
    let e = repo.withdraw(1, 1000).unwrap_err();
    match &e.kind {
        LedgerErrorKind::RepositoryError(m) => assert_eq!("insufficient funds", m.as_str()),
        _ => panic!("unexpected error kind"),
    }

    // A chargeback may drive the held balance negative; it still locks.
    repo.withdraw_and_lock(1, 100).unwrap();
    let dump = repo.dump_accounts().unwrap();
    assert_eq!(1, dump.len());
    assert_eq!(400, dump[0].available.to_i64());
    assert_eq!(-100, dump[0].held.to_i64());
    assert_eq!(300, dump[0].total.to_i64());
    assert!(dump[0].locked);

    let e = repo.deposit(1, 1).unwrap_err();
    match &e.kind {
        LedgerErrorKind::RepositoryError(m) => assert_eq!("account is locked", m.as_str()),
        _ => panic!("unexpected error kind"),
    }
}

#[test]
fn account_operations_balance() {
    let mut a = Account::new(7);
    assert_eq!(7, a.get_client_id());
    assert_eq!(0, a.get_available());
    assert_eq!(0, a.get_total());
    assert!(!a.is_locked());
    a.deposit(100);
    a.hold(30);
    assert_eq!(70, a.get_available());
    assert_eq!(100, a.get_total());
    a.release(30);
    a.withdraw(40);
    assert_eq!(60, a.get_available());
    a.withdraw_and_lock(10);
    assert!(a.is_locked());
    assert_eq!(50, a.get_total());
}
