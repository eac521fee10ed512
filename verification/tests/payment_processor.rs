use fluxapay::payment_processor::{
    PaymentError, PaymentEventKind, PaymentProcessor, PaymentStatus,
};
use fluxapay::types::{Address, TransactionHash};

fn hash(byte: u8) -> TransactionHash {
    TransactionHash { bytes: [byte; 32] }
}

#[test]
fn test_create_payment() {
    let mut processor = PaymentProcessor::new();

    let merchant_id = Address { id: 1 };
    let deposit_address = Address { id: 2 };
    let now: u64 = 100;
    let expires_at = now + 3600;

    let payment = processor
        .create_payment(
            String::from("payment_123"),
            merchant_id,
            1000000000i128,
            String::from("USDC"),
            deposit_address,
            expires_at,
            now,
        )
        .unwrap();

    assert_eq!(payment.payment_id, String::from("payment_123"));
    assert_eq!(payment.merchant_id, merchant_id);
    assert_eq!(payment.amount, 1000000000i128);
    assert_eq!(payment.currency, String::from("USDC"));
    assert_eq!(payment.deposit_address, deposit_address);
    assert_eq!(payment.status, PaymentStatus::Pending);
    assert!(payment.payer_address.is_none());
    assert!(payment.transaction_hash.is_none());
    assert!(payment.confirmed_at.is_none());
    assert_eq!(payment.created_at, now);
    assert_eq!(payment.expires_at, expires_at);

    let events = processor.events();
    assert_eq!(events.len(), 1);
    assert_eq!(events[0].kind, PaymentEventKind::Created);
    assert_eq!(events[0].payment_id, String::from("payment_123"));
}

#[test]
fn test_invalid_payment_amount() {
    let mut processor = PaymentProcessor::new();

    let result = processor.create_payment(
        String::from("invalid_amount"),
        Address { id: 1 },
        0i128,
        String::from("USDC"),
        Address { id: 2 },
        3600,
        0,
    );
    assert!(matches!(result, Err(PaymentError::InvalidAmount)));

    let result = processor.create_payment(
        String::from("negative_amount"),
        Address { id: 1 },
        -5i128,
        String::from("USDC"),
        Address { id: 2 },
        3600,
        0,
    );
    assert!(matches!(result, Err(PaymentError::InvalidAmount)));
}

#[test]
fn test_empty_payment_id() {
    let mut processor = PaymentProcessor::new();

    let result = processor.create_payment(
        String::new(),
        Address { id: 1 },
        100i128,
        String::from("USDC"),
        Address { id: 2 },
        3600,
        0,
    );
    assert!(matches!(result, Err(PaymentError::InvalidPaymentId)));
    assert_eq!(processor.events().len(), 0);
}

#[test]
fn test_payment_already_exists() {
    let mut processor = PaymentProcessor::new();

    processor
        .create_payment(
            String::from("duplicate_payment"),
            Address { id: 1 },
            1000000000i128,
            String::from("USDC"),
            Address { id: 2 },
            3600,
            0,
        )
        .unwrap();

    let result = processor.create_payment(
        String::from("duplicate_payment"),
        Address { id: 7 },
        55i128,
        String::from("EUR"),
        Address { id: 8 },
        9999,
        1,
    );
    assert!(matches!(result, Err(PaymentError::PaymentAlreadyExists)));

    // The stored record is untouched by the failed call.
    let payment = processor.get_payment("duplicate_payment").unwrap();
    assert_eq!(payment.amount, 1000000000i128);
    assert_eq!(payment.merchant_id, Address { id: 1 });
    assert_eq!(processor.events().len(), 1);
}

#[test]
fn test_verify_payment_success() {
    let mut processor = PaymentProcessor::new();

    let now: u64 = 50;
    let expires_at = now + 3600;
    let amount = 1000000i128;

    processor
        .create_payment(
            String::from("p1"),
            Address { id: 1 },
            amount,
            String::from("USDC"),
            Address { id: 2 },
            expires_at,
            now,
        )
        .unwrap();

    let payer_address = Address { id: 3 };
    let transaction_hash = hash(7);

    let status = processor
        .verify_payment(String::from("p1"), transaction_hash, payer_address, amount, now + 10)
        .unwrap();

    assert_eq!(status, PaymentStatus::Confirmed);

    let payment = processor.get_payment("p1").unwrap();
    assert_eq!(payment.status, PaymentStatus::Confirmed);
    assert_eq!(payment.payer_address, Some(payer_address));
    assert_eq!(payment.transaction_hash, Some(transaction_hash));
    assert_eq!(payment.confirmed_at, Some(now + 10));

    let events = processor.events();
    assert_eq!(events.len(), 2);
    assert_eq!(events[1].kind, PaymentEventKind::Verified);
    assert_eq!(events[1].payment_id, String::from("p1"));
}

#[test]
fn test_verify_payment_exactly_once() {
    let mut processor = PaymentProcessor::new();

    let amount = 500i128;
    processor
        .create_payment(
            String::from("p1"),
            Address { id: 1 },
            amount,
            String::from("USDC"),
            Address { id: 2 },
            1000,
            0,
        )
        .unwrap();

    let status = processor
        .verify_payment(String::from("p1"), hash(1), Address { id: 3 }, amount, 10)
        .unwrap();
    assert_eq!(status, PaymentStatus::Confirmed);

    // A second verify and a cancel both fail: the charge is settled.
    let result = processor.verify_payment(String::from("p1"), hash(2), Address { id: 4 }, amount, 11);
    assert_eq!(result, Err(PaymentError::PaymentAlreadyProcessed));

    let result = processor.cancel_payment(String::from("p1"), 2000);
    assert_eq!(result, Err(PaymentError::PaymentAlreadyProcessed));

    let payment = processor.get_payment("p1").unwrap();
    assert_eq!(payment.status, PaymentStatus::Confirmed);
    assert_eq!(payment.payer_address, Some(Address { id: 3 }));
}

#[test]
fn test_verify_payment_wrong_amount() {
    let mut processor = PaymentProcessor::new();

    let amount = 1000000000i128;
    processor
        .create_payment(
            String::from("payment_123"),
            Address { id: 1 },
            amount,
            String::from("USDC"),
            Address { id: 2 },
            3600,
            0,
        )
        .unwrap();

    // Slightly less than the requested amount: a reported failure, not an error.
    let status = processor
        .verify_payment(
            String::from("payment_123"),
            hash(9),
            Address { id: 3 },
            amount - 1000000i128,
            10,
        )
        .unwrap();

    assert_eq!(status, PaymentStatus::Failed);

    let payment = processor.get_payment("payment_123").unwrap();
    assert_eq!(payment.status, PaymentStatus::Failed);
    assert!(payment.payer_address.is_none());
    assert!(payment.transaction_hash.is_none());
    assert!(payment.confirmed_at.is_none());

    let events = processor.events();
    assert_eq!(events.len(), 2);
    assert_eq!(events[1].kind, PaymentEventKind::Failed);
}

#[test]
fn test_verify_expired_payment() {
    let mut processor = PaymentProcessor::new();

    let expires_at: u64 = 3600;
    processor
        .create_payment(
            String::from("expired_payment"),
            Address { id: 1 },
            100i128,
            String::from("USDC"),
            Address { id: 2 },
            expires_at,
            0,
        )
        .unwrap();

    let result = processor.verify_payment(
        String::from("expired_payment"),
        hash(3),
        Address { id: 3 },
        100i128,
        expires_at + 1,
    );
    assert_eq!(result, Err(PaymentError::PaymentExpired));

    // The charge stays pending; it can still be cancelled.
    let payment = processor.get_payment("expired_payment").unwrap();
    assert_eq!(payment.status, PaymentStatus::Pending);
}

#[test]
fn test_verify_missing_payment() {
    let mut processor = PaymentProcessor::new();
    let result =
        processor.verify_payment(String::from("nope"), hash(1), Address { id: 3 }, 5i128, 0);
    assert_eq!(result, Err(PaymentError::PaymentNotFound));
}

#[test]
fn test_get_payment() {
    let mut processor = PaymentProcessor::new();

    let created_payment = processor
        .create_payment(
            String::from("payment_456"),
            Address { id: 1 },
            500000000i128,
            String::from("USDC"),
            Address { id: 2 },
            7200,
            0,
        )
        .unwrap();

    let retrieved_payment = processor.get_payment("payment_456").unwrap();

    assert_eq!(retrieved_payment.payment_id, created_payment.payment_id);
    assert_eq!(retrieved_payment.merchant_id, created_payment.merchant_id);
    assert_eq!(retrieved_payment.amount, created_payment.amount);
    assert_eq!(retrieved_payment.currency, created_payment.currency);
    assert_eq!(retrieved_payment.deposit_address, created_payment.deposit_address);
    assert_eq!(retrieved_payment.status, created_payment.status);
    assert_eq!(retrieved_payment.expires_at, created_payment.expires_at);
}

#[test]
fn test_get_missing_payment() {
    let processor = PaymentProcessor::new();
    assert!(matches!(processor.get_payment("absent"), Err(PaymentError::PaymentNotFound)));
}

#[test]
fn test_cancel_expired_payment() {
    let mut processor = PaymentProcessor::new();

    let expires_at: u64 = 3600;
    processor
        .create_payment(
            String::from("payment_expired"),
            Address { id: 1 },
            1000000000i128,
            String::from("USDC"),
            Address { id: 2 },
            expires_at,
            0,
        )
        .unwrap();

    // Cancellation before (and exactly at) the deadline always fails.
    let result = processor.cancel_payment(String::from("payment_expired"), expires_at - 1);
    assert_eq!(result, Err(PaymentError::NotYetExpired));
    let result = processor.cancel_payment(String::from("payment_expired"), expires_at);
    assert_eq!(result, Err(PaymentError::NotYetExpired));

    // After the deadline, exactly one cancellation succeeds.
    processor.cancel_payment(String::from("payment_expired"), expires_at + 1).unwrap();

    let payment = processor.get_payment("payment_expired").unwrap();
    assert_eq!(payment.status, PaymentStatus::Expired);

    let result = processor.cancel_payment(String::from("payment_expired"), expires_at + 2);
    assert_eq!(result, Err(PaymentError::PaymentAlreadyProcessed));

    let events = processor.events();
    assert_eq!(events.len(), 2);
    assert_eq!(events[1].kind, PaymentEventKind::Cancelled);
    assert_eq!(events[1].payment_id, String::from("payment_expired"));
}

#[test]
fn test_cancel_missing_payment() {
    let mut processor = PaymentProcessor::new();
    let result = processor.cancel_payment(String::from("absent"), 100);
    assert_eq!(result, Err(PaymentError::PaymentNotFound));
}

#[test]
fn test_confirmed_payment_scenario() {
    // create_payment("p1", merchant, 1_000_000, "USDC", depositAddr, now+3600)
    // then verify_payment("p1", hash, payer, 1_000_000) confirms the charge
    // and records the payer and transaction hash.
    let mut processor = PaymentProcessor::new();

    let now: u64 = 1_700_000_000;
    let merchant = Address { id: 21 };
    let deposit_addr = Address { id: 22 };
    let payer = Address { id: 23 };
    let tx_hash = hash(0xab);

    processor
        .create_payment(
            String::from("p1"),
            merchant,
            1_000_000i128,
            String::from("USDC"),
            deposit_addr,
            now + 3600,
            now,
        )
        .unwrap();

    let status = processor
        .verify_payment(String::from("p1"), tx_hash, payer, 1_000_000i128, now + 60)
        .unwrap();
    assert_eq!(status, PaymentStatus::Confirmed);

    let payment = processor.get_payment("p1").unwrap();
    assert_eq!(payment.status, PaymentStatus::Confirmed);
    assert_eq!(payment.payer_address, Some(payer));
    assert_eq!(payment.transaction_hash, Some(tx_hash));
}
