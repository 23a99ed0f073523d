use stellar_stream::lifecycle::{open_stream, settle_cancel, withdraw_from};
use stellar_stream::math::{calculate_unlocked, fee_amount};
use stellar_stream::types::{Identity, Settlement, Stream, StreamError};
use stellar_stream::StellarStream;

fn id(tag: u8) -> Identity {
    Identity::new(vec![tag, tag, tag])
}

fn admin() -> Identity {
    id(1)
}

fn sender() -> Identity {
    id(2)
}

fn receiver() -> Identity {
    id(3)
}

fn token() -> Identity {
    id(4)
}

fn treasury() -> Identity {
    id(5)
}

fn engine_with_stream(amount: i128, start: u64, end: u64) -> (StellarStream, u64) {
    let mut engine = StellarStream::new();
    let sid = engine
        .create_stream(sender(), receiver(), token(), amount, start, end)
        .unwrap();
    (engine, sid)
}

#[test]
fn initialize_accepts_fees_up_to_ten_percent() {
    for fee in [0u32, 1, 250, 999, 1000] {
        let mut engine = StellarStream::new();
        assert_eq!(engine.initialize_fee(admin(), fee, treasury()), Ok(()));
        assert_eq!(engine.fee_bps(), fee);
    }
}

#[test]
fn initialize_rejects_fee_above_ten_percent() {
    for fee in [1001u32, 5000, u32::MAX] {
        let mut engine = StellarStream::new();
        assert_eq!(
            engine.initialize_fee(id(9), fee, treasury()),
            Err(StreamError::FeeTooHigh)
        );
        assert!(engine.config.is_none());
        assert_eq!(engine.fee_bps(), 0);
    }
}

#[test]
fn initialize_twice_replaces_the_admin() {
    let mut engine = StellarStream::new();
    engine.initialize_fee(admin(), 100, treasury()).unwrap();
    engine.initialize_fee(id(7), 200, id(8)).unwrap();
    let config = engine.config.as_ref().unwrap();
    assert_eq!(config.admin, id(7));
    assert_eq!(config.treasury, id(8));
    assert_eq!(engine.update_fee(&admin(), 10), Err(StreamError::Unauthorized));
}

#[test]
fn update_fee_before_initialize_fails() {
    let mut engine = StellarStream::new();
    assert_eq!(
        engine.update_fee(&admin(), 100),
        Err(StreamError::AdminNotConfigured)
    );
}

#[test]
fn update_fee_only_by_admin() {
    let mut engine = StellarStream::new();
    engine.initialize_fee(admin(), 100, treasury()).unwrap();
    assert_eq!(engine.update_fee(&id(9), 200), Err(StreamError::Unauthorized));
    assert_eq!(engine.fee_bps(), 100);
    assert_eq!(engine.update_fee(&admin(), 1001), Err(StreamError::FeeTooHigh));
    assert_eq!(engine.fee_bps(), 100);
    assert_eq!(engine.update_fee(&admin(), 300), Ok(()));
    assert_eq!(engine.fee_bps(), 300);
    let config = engine.config.as_ref().unwrap();
    assert_eq!(config.admin, admin());
    assert_eq!(config.treasury, treasury());
}

#[test]
fn create_stream_withholds_fee_and_numbers_ids() {
    let mut engine = StellarStream::new();
    engine.initialize_fee(admin(), 250, treasury()).unwrap();
    let first = engine
        .create_stream(sender(), receiver(), token(), 1000, 0, 100)
        .unwrap();
    assert_eq!(first, 1);
    let stream = engine.get_stream(1).unwrap();
    assert_eq!(stream.amount, 975);
    assert_eq!(stream.withdrawn_amount, 0);
    assert_eq!(stream.sender, sender());
    assert_eq!(stream.receiver, receiver());
    assert_eq!(stream.token, token());
    assert_eq!(stream.start_time, 0);
    assert_eq!(stream.end_time, 100);
    let second = engine
        .create_stream(sender(), receiver(), token(), 1000, 0, 100)
        .unwrap();
    assert_eq!(second, 2);
    assert_eq!(engine.last_id, 2);
}

#[test]
fn create_stream_without_config_is_fee_free() {
    let (engine, sid) = engine_with_stream(1000, 0, 100);
    assert_eq!(sid, 1);
    assert_eq!(engine.get_stream(sid).unwrap().amount, 1000);
}

#[test]
fn create_stream_rejects_bad_window() {
    let mut engine = StellarStream::new();
    assert_eq!(
        engine.create_stream(sender(), receiver(), token(), 1000, 100, 100),
        Err(StreamError::InvalidTimeRange)
    );
    assert_eq!(
        engine.create_stream(sender(), receiver(), token(), 1000, 100, 50),
        Err(StreamError::InvalidTimeRange)
    );
    assert_eq!(
        engine.create_stream(sender(), receiver(), token(), 0, 100, 50),
        Err(StreamError::InvalidTimeRange)
    );
    assert_eq!(engine.last_id, 0);
}

#[test]
fn create_stream_rejects_non_positive_amount() {
    let mut engine = StellarStream::new();
    assert_eq!(
        engine.create_stream(sender(), receiver(), token(), 0, 0, 100),
        Err(StreamError::InvalidAmount)
    );
    assert_eq!(
        engine.create_stream(sender(), receiver(), token(), -5, 0, 100),
        Err(StreamError::InvalidAmount)
    );
    assert!(engine.get_stream(1).is_none());
}

#[test]
fn open_stream_needs_treasury_when_fee_is_due() {
    assert_eq!(
        open_stream(250, None, 0, sender(), receiver(), token(), 1000, 0, 100).unwrap_err(),
        StreamError::TreasuryNotConfigured
    );
    let small = open_stream(250, None, 0, sender(), receiver(), token(), 39, 0, 100).unwrap();
    assert_eq!(small.fee, 0);
    assert_eq!(small.stream.amount, 39);
    let t = treasury();
    let opened = open_stream(1000, Some(&t), 41, sender(), receiver(), token(), 1000, 0, 100)
        .unwrap();
    assert_eq!(opened.id, 42);
    assert_eq!(opened.fee, 100);
    assert_eq!(opened.stream.amount, 900);
}

#[test]
fn unlocked_is_linear_and_clamped() {
    assert_eq!(calculate_unlocked(1000, 0, 100, 0), 0);
    assert_eq!(calculate_unlocked(1000, 0, 100, 50), 500);
    assert_eq!(calculate_unlocked(1000, 0, 100, 100), 1000);
    assert_eq!(calculate_unlocked(1000, 0, 100, 150), 1000);
}

#[test]
fn unlocked_rounds_down() {
    assert_eq!(calculate_unlocked(10, 0, 3, 1), 3);
    assert_eq!(calculate_unlocked(10, 0, 3, 2), 6);
    assert_eq!(calculate_unlocked(7, 10, 20, 15), 3);
    assert_eq!(calculate_unlocked(1000, 10, 20, 5), 0);
}

#[test]
fn unlocked_does_not_overflow_on_large_values() {
    let amount = i128::MAX;
    let end = u64::MAX;
    let half = u64::MAX / 2;
    let expected = (amount as u128 as f64 * (half as f64 / end as f64)) as i128;
    let got = calculate_unlocked(amount, 0, end, half);
    assert!(got > 0 && got < amount);
    assert!((got - expected).abs() < (amount / 1_000_000));
    assert_eq!(calculate_unlocked(amount, 0, end, end - 1), amount - amount / (end as i128) - 1);
}

#[test]
fn fee_rounds_down_and_handles_large_amounts() {
    assert_eq!(fee_amount(1000, 250), 25);
    assert_eq!(fee_amount(39, 250), 0);
    assert_eq!(fee_amount(40, 250), 1);
    assert_eq!(fee_amount(1000, 0), 0);
    assert_eq!(fee_amount(i128::MAX, 1000), i128::MAX / 10);
}

#[test]
fn sequential_withdrawals() {
    let (mut engine, sid) = engine_with_stream(1000, 0, 100);
    assert_eq!(engine.withdraw(sid, &receiver(), 50), Ok(500));
    assert_eq!(engine.get_stream(sid).unwrap().withdrawn_amount, 500);
    assert_eq!(
        engine.withdraw(sid, &receiver(), 50),
        Err(StreamError::NoFundsAvailable)
    );
    assert_eq!(engine.get_stream(sid).unwrap().withdrawn_amount, 500);
    assert_eq!(engine.withdraw(sid, &receiver(), 100), Ok(500));
    assert_eq!(engine.get_stream(sid).unwrap().withdrawn_amount, 1000);
    assert_eq!(
        engine.withdraw(sid, &receiver(), 500),
        Err(StreamError::NoFundsAvailable)
    );
    assert!(engine.get_stream(sid).is_some());
}

#[test]
fn withdraw_before_start_has_nothing() {
    let (mut engine, sid) = engine_with_stream(1000, 10, 100);
    assert_eq!(
        engine.withdraw(sid, &receiver(), 5),
        Err(StreamError::NoFundsAvailable)
    );
}

#[test]
fn withdraw_by_other_identity_fails() {
    let (mut engine, sid) = engine_with_stream(1000, 0, 100);
    assert_eq!(
        engine.withdraw(sid, &sender(), 50),
        Err(StreamError::Unauthorized)
    );
    assert_eq!(engine.get_stream(sid).unwrap().withdrawn_amount, 0);
}

#[test]
fn withdraw_from_unknown_stream_fails() {
    let (mut engine, _) = engine_with_stream(1000, 0, 100);
    assert_eq!(
        engine.withdraw(0, &receiver(), 50),
        Err(StreamError::UnknownStream)
    );
    assert_eq!(
        engine.withdraw(2, &receiver(), 50),
        Err(StreamError::UnknownStream)
    );
}

#[test]
fn cancel_mid_stream_splits_and_removes() {
    let (mut engine, sid) = engine_with_stream(1000, 0, 100);
    let (removed, split) = engine.cancel_stream(sid, 30).unwrap();
    assert_eq!(split, Settlement { to_receiver: 300, to_sender: 700 });
    assert_eq!(removed.receiver, receiver());
    assert_eq!(removed.sender, sender());
    assert!(engine.get_stream(sid).is_none());
    assert_eq!(
        engine.withdraw(sid, &receiver(), 50),
        Err(StreamError::UnknownStream)
    );
    assert_eq!(
        engine.cancel_stream(sid, 40).unwrap_err(),
        StreamError::UnknownStream
    );
    let next = engine
        .create_stream(sender(), receiver(), token(), 10, 0, 100)
        .unwrap();
    assert_eq!(next, 2);
}

#[test]
fn cancel_after_partial_withdrawal() {
    let (mut engine, sid) = engine_with_stream(1000, 0, 100);
    assert_eq!(engine.withdraw(sid, &receiver(), 20), Ok(200));
    let (_, split) = engine.cancel_stream(sid, 30).unwrap();
    assert_eq!(split, Settlement { to_receiver: 100, to_sender: 700 });
}

#[test]
fn cancel_at_or_after_end_fails() {
    let (mut engine, sid) = engine_with_stream(1000, 0, 100);
    assert_eq!(
        engine.cancel_stream(sid, 100).unwrap_err(),
        StreamError::StreamCompleted
    );
    assert_eq!(
        engine.cancel_stream(sid, 1000).unwrap_err(),
        StreamError::StreamCompleted
    );
    assert!(engine.get_stream(sid).is_some());
}

#[test]
fn cancel_before_start_refunds_everything() {
    let (mut engine, sid) = engine_with_stream(1000, 50, 100);
    let (_, split) = engine.cancel_stream(sid, 10).unwrap();
    assert_eq!(split, Settlement { to_receiver: 0, to_sender: 1000 });
}

#[test]
fn payouts_add_up_to_principal() {
    let mut engine = StellarStream::new();
    engine.initialize_fee(admin(), 250, treasury()).unwrap();
    let sid = engine
        .create_stream(sender(), receiver(), token(), 1000, 0, 7)
        .unwrap();
    let principal = engine.get_stream(sid).unwrap().amount;
    let mut paid: i128 = 0;
    for t in [1u64, 3, 3, 4] {
        if let Ok(w) = engine.withdraw(sid, &receiver(), t) {
            paid += w;
        }
        assert!(paid <= principal);
    }
    let (_, split) = engine.cancel_stream(sid, 5).unwrap();
    assert_eq!(paid + split.to_receiver + split.to_sender, principal);

    let (mut full, fid) = engine_with_stream(999, 0, 7);
    let mut paid_full: i128 = 0;
    for t in [2u64, 6, 7, 9] {
        if let Ok(w) = full.withdraw(fid, &receiver(), t) {
            paid_full += w;
        }
    }
    assert_eq!(paid_full, 999);
}

#[test]
fn record_level_transitions() {
    let mut stream = Stream {
        sender: sender(),
        receiver: receiver(),
        token: token(),
        amount: 1000,
        start_time: 0,
        end_time: 100,
        withdrawn_amount: 0,
    };
    assert!(stream.is_valid());
    assert_eq!(withdraw_from(&mut stream, &receiver(), 25), Ok(250));
    assert_eq!(stream.withdrawn_amount, 250);
    assert_eq!(
        settle_cancel(&stream, 60),
        Ok(Settlement { to_receiver: 350, to_sender: 400 })
    );
    assert_eq!(settle_cancel(&stream, 100), Err(StreamError::StreamCompleted));
    stream.withdrawn_amount = 2000;
    assert!(!stream.is_valid());
}

#[test]
fn identities_compare_by_bytes() {
    assert!(id(1).same_as(&id(1)));
    assert!(!id(1).same_as(&id(2)));
    assert!(!Identity::new(vec![1]).same_as(&Identity::new(vec![1, 1])));
    assert_eq!(id(3).copy(), id(3));
}

#[test]
fn treasury_is_reported_once_configured() {
    let mut engine = StellarStream::new();
    assert!(engine.treasury().is_none());
    engine.initialize_fee(admin(), 10, treasury()).unwrap();
    assert_eq!(engine.treasury(), Some(&treasury()));
}

#[test]
fn initialize_again_with_same_values_keeps_state() {
    let mut engine = StellarStream::new();
    assert_eq!(engine.initialize_fee(admin(), 1000, treasury()), Ok(()));
    assert_eq!(engine.initialize_fee(admin(), 1000, treasury()), Ok(()));
    let config = engine.config.as_ref().unwrap();
    assert_eq!(config.admin, admin());
    assert_eq!(config.fee_bps, 1000);
    assert_eq!(config.treasury, treasury());
}
