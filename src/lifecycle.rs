use vstd::prelude::*;

use crate::math::{calculate_unlocked, fee_amount, fee_spec, unlocked_spec};
use crate::types::{AdminConfig, Identity, Settlement, Stream, StreamError, MAX_FEE_BPS};

verus! {

/// What the configuration becomes when `admin` initialises it.
pub fn initialize_config(admin: Identity, fee_bps: u32, treasury: Identity) -> (r: Result<
    AdminConfig,
    StreamError,
>)
    ensures
        fee_bps > MAX_FEE_BPS <==> r == Err::<AdminConfig, StreamError>(StreamError::FeeTooHigh),
        fee_bps <= MAX_FEE_BPS ==> r == Ok::<AdminConfig, StreamError>(
            AdminConfig { admin, fee_bps, treasury },
        ),
{
    if fee_bps > MAX_FEE_BPS {
        return Err(StreamError::FeeTooHigh);
    }
    Ok(AdminConfig { admin, fee_bps, treasury })
}

/// What an update of the fee rate of `config` to `fee_bps` by `admin` yields.
pub open spec fn update_outcome(config: Option<AdminConfig>, admin: Seq<u8>, fee_bps: u32) -> Result<
    (),
    StreamError,
> {
    match config {
        None => Err(StreamError::AdminNotConfigured),
        Some(c) => if c.admin@ != admin {
            Err(StreamError::Unauthorized)
        } else if fee_bps > MAX_FEE_BPS {
            Err(StreamError::FeeTooHigh)
        } else {
            Ok(())
        },
    }
}

/// Sets the fee rate of `config` on behalf of `admin`; the configuration is
/// left as it was on failure.
pub fn update_config(config: &mut Option<AdminConfig>, admin: &Identity, fee_bps: u32) -> (r:
    Result<(), StreamError>)
    ensures
        r == update_outcome(*old(config), admin@, fee_bps),
        r is Ok ==> *final(config) == Some(
            AdminConfig { fee_bps, ..(*old(config))->0 },
        ),
        r is Err ==> *final(config) == *old(config),
{
    match config {
        None => Err(StreamError::AdminNotConfigured),
        Some(c) => {
            if !c.admin.same_as(admin) {
                return Err(StreamError::Unauthorized);
            }
            if fee_bps > MAX_FEE_BPS {
                return Err(StreamError::FeeTooHigh);
            }
            c.fee_bps = fee_bps;
            Ok(())
        },
    }
}

/// The fee rate in force: zero while nothing is configured.
pub fn configured_fee_bps(config: &Option<AdminConfig>) -> (r: u32)
    ensures
        r == configured_fee_spec(*config),
{
    match config {
        None => 0,
        Some(c) => c.fee_bps,
    }
}

pub open spec fn configured_fee_spec(config: Option<AdminConfig>) -> u32 {
    match config {
        None => 0,
        Some(c) => c.fee_bps,
    }
}

/// A stream about to be recorded under `id`, and the fee taken from the
/// sender's deposit.
#[derive(Debug)]
pub struct Opening {
    pub id: u64,
    pub stream: Stream,
    pub fee: i128,
}

/// Whether a stream of `amount` over `[start_time, end_time)` can be opened
/// at `fee_bps` with the given treasury, and the error if not.
pub open spec fn open_error(
    fee_bps: u32,
    has_treasury: bool,
    amount: i128,
    start_time: u64,
    end_time: u64,
) -> Option<StreamError> {
    if end_time <= start_time {
        Some(StreamError::InvalidTimeRange)
    } else if amount <= 0 {
        Some(StreamError::InvalidAmount)
    } else if fee_spec(amount as int, fee_bps as int) > 0 && !has_treasury {
        Some(StreamError::TreasuryNotConfigured)
    } else {
        None
    }
}

/// Validates a new stream and computes its record: the fee is withheld from
/// `amount`, the rest is the principal, and the id follows `last_id`.
pub fn open_stream(
    fee_bps: u32,
    treasury: Option<&Identity>,
    last_id: u64,
    sender: Identity,
    receiver: Identity,
    token: Identity,
    amount: i128,
    start_time: u64,
    end_time: u64,
) -> (r: Result<Opening, StreamError>)
    requires
        fee_bps <= MAX_FEE_BPS,
        last_id < u64::MAX,
    ensures
        match open_error(fee_bps, treasury.is_some(), amount, start_time, end_time) {
            Some(e) => r == Err::<Opening, StreamError>(e),
            None => r matches Ok(o) && {
                &&& o.id == last_id + 1
                &&& o.fee == fee_spec(amount as int, fee_bps as int)
                &&& o.stream == (Stream {
                    sender,
                    receiver,
                    token,
                    amount: (amount - o.fee) as i128,
                    start_time,
                    end_time,
                    withdrawn_amount: 0,
                })
                &&& o.stream.wf()
            },
        },
{
    if end_time <= start_time {
        return Err(StreamError::InvalidTimeRange);
    }
    if amount <= 0 {
        return Err(StreamError::InvalidAmount);
    }
    let fee = fee_amount(amount, fee_bps);
    if fee > 0 && treasury.is_none() {
        return Err(StreamError::TreasuryNotConfigured);
    }
    proof {
        assert(amount * (fee_bps as int) < amount * 10000) by (nonlinear_arith)
            requires amount > 0, fee_bps <= 1000;
        assert(fee < amount) by (nonlinear_arith)
            requires fee == (amount * (fee_bps as int)) / 10000, amount * (fee_bps as int) < amount * 10000, amount > 0;
    }
    let stream = Stream {
        sender,
        receiver,
        token,
        amount: amount - fee,
        start_time,
        end_time,
        withdrawn_amount: 0,
    };
    Ok(Opening { id: last_id + 1, stream, fee })
}

/// How much of `s` has unlocked at `now`.
pub open spec fn stream_unlocked(s: Stream, now: u64) -> int {
    unlocked_spec(s.amount as int, s.start_time as int, s.end_time as int, now as int)
}

/// What the receiver of `s` could take at `now`.
pub open spec fn withdrawable(s: Stream, now: u64) -> int {
    stream_unlocked(s, now) - s.withdrawn_amount
}

/// `s` with its withdrawn total set to `withdrawn`.
pub open spec fn with_withdrawn(s: Stream, withdrawn: i128) -> Stream {
    Stream { withdrawn_amount: withdrawn, ..s }
}

/// What a withdrawal from `s` by `receiver` at `now` yields.
pub open spec fn withdraw_outcome(s: Stream, receiver: Seq<u8>, now: u64) -> Result<
    i128,
    StreamError,
> {
    if receiver != s.receiver@ {
        Err(StreamError::Unauthorized)
    } else if withdrawable(s, now) <= 0 {
        Err(StreamError::NoFundsAvailable)
    } else {
        Ok(withdrawable(s, now) as i128)
    }
}

/// The record after a withdrawal from `s` by `receiver` at `now`: everything
/// unlocked counts as withdrawn when it succeeds, and nothing changes when it
/// fails.
pub open spec fn withdraw_step(s: Stream, receiver: Seq<u8>, now: u64) -> Stream {
    match withdraw_outcome(s, receiver, now) {
        Ok(_) => with_withdrawn(s, stream_unlocked(s, now) as i128),
        Err(_) => s,
    }
}

/// Pays the receiver of `stream` what has unlocked since the last
/// withdrawal; the record now counts everything unlocked as withdrawn.
pub fn withdraw_from(stream: &mut Stream, receiver: &Identity, now: u64) -> (r: Result<
    i128,
    StreamError,
>)
    requires
        old(stream).wf(),
    ensures
        r == withdraw_outcome(*old(stream), receiver@, now),
        *final(stream) == withdraw_step(*old(stream), receiver@, now),
        r matches Ok(w) ==> final(stream).withdrawn_amount == old(stream).withdrawn_amount + w,
        final(stream).wf(),
{
    if !receiver.same_as(&stream.receiver) {
        return Err(StreamError::Unauthorized);
    }
    let total = calculate_unlocked(stream.amount, stream.start_time, stream.end_time, now);
    let available = total - stream.withdrawn_amount;
    if available <= 0 {
        return Err(StreamError::NoFundsAvailable);
    }
    stream.withdrawn_amount = total;
    Ok(available)
}

/// The split of `s` when it is cancelled at `now`.
pub open spec fn settlement_spec(s: Stream, now: u64) -> Settlement {
    Settlement {
        to_receiver: (stream_unlocked(s, now) - s.withdrawn_amount) as i128,
        to_sender: (s.amount - stream_unlocked(s, now)) as i128,
    }
}

/// Splits the principal of `stream` on cancellation at `now`: the receiver
/// gets what unlocked and was not withdrawn, the sender what did not unlock.
pub fn settle_cancel(stream: &Stream, now: u64) -> (r: Result<Settlement, StreamError>)
    requires
        stream.wf(),
    ensures
        now >= stream.end_time <==> r == Err::<Settlement, StreamError>(
            StreamError::StreamCompleted,
        ),
        now < stream.end_time ==> r == Ok::<Settlement, StreamError>(settlement_spec(*stream, now)),
{
    if now >= stream.end_time {
        return Err(StreamError::StreamCompleted);
    }
    let total = calculate_unlocked(stream.amount, stream.start_time, stream.end_time, now);
    Ok(Settlement { to_receiver: total - stream.withdrawn_amount, to_sender: stream.amount - total })
}

/// Once configured by `admin`, the fee rate can be changed by `admin` alone,
/// to any rate up to the maximum; before any configuration, by nobody.
pub proof fn lemma_only_admin_updates_fee(
    admin: Identity,
    fee_bps: u32,
    treasury: Identity,
    caller: Seq<u8>,
    new_fee_bps: u32,
)
    requires
        fee_bps <= MAX_FEE_BPS,
    ensures
        update_outcome(None, caller, new_fee_bps) == Err::<(), StreamError>(
            StreamError::AdminNotConfigured,
        ),
        caller != admin@ ==> update_outcome(
            Some(AdminConfig { admin, fee_bps, treasury }),
            caller,
            new_fee_bps,
        ) == Err::<(), StreamError>(StreamError::Unauthorized),
        caller == admin@ ==> (update_outcome(
            Some(AdminConfig { admin, fee_bps, treasury }),
            caller,
            new_fee_bps,
        ) is Ok <==> new_fee_bps <= MAX_FEE_BPS),
{
}

/// The stream after its receiver withdraws at each instant of `times`, in
/// order: each step is the effect that `withdraw_from` (and so
/// `StellarStream::withdraw`) has on the record.
pub open spec fn after_withdrawals(s: Stream, times: Seq<u64>) -> Stream
    decreases times.len(),
{
    if times.len() == 0 {
        s
    } else {
        let prev = after_withdrawals(s, times.drop_last());
        withdraw_step(prev, prev.receiver@, times.last())
    }
}

/// The total those withdrawals pay to the receiver: the sum of what each
/// call returns.
pub open spec fn paid_by_withdrawals(s: Stream, times: Seq<u64>) -> int
    decreases times.len(),
{
    if times.len() == 0 {
        0
    } else {
        let prev = after_withdrawals(s, times.drop_last());
        paid_by_withdrawals(s, times.drop_last()) + match withdraw_outcome(
            prev,
            prev.receiver@,
            times.last(),
        ) {
            Ok(w) => w as int,
            Err(_) => 0,
        }
    }
}

pub open spec fn nondecreasing(times: Seq<u64>) -> bool {
    forall|i: int, j: int| 0 <= i <= j < times.len() ==> times[i] <= times[j]
}

proof fn lemma_withdrawals_track_unlocked(s: Stream, times: Seq<u64>)
    requires
        s.wf(),
        s.withdrawn_amount == 0,
        nondecreasing(times),
    ensures
        ({
            let f = after_withdrawals(s, times);
            &&& f.wf()
            &&& f.amount == s.amount
            &&& f.start_time == s.start_time
            &&& f.end_time == s.end_time
            &&& f.receiver == s.receiver
            &&& paid_by_withdrawals(s, times) == f.withdrawn_amount
            &&& times.len() > 0 ==> f.withdrawn_amount <= stream_unlocked(s, times.last())
            &&& (exists|i: int| 0 <= i < times.len() && times[i] >= s.end_time)
                ==> f.withdrawn_amount == s.amount
        }),
    decreases times.len(),
{
    if times.len() > 0 {
        let rest = times.drop_last();
        let t = times.last();
        assert(nondecreasing(rest));
        lemma_withdrawals_track_unlocked(s, rest);
        let prev = after_withdrawals(s, rest);
        crate::math::lemma_unlocked_monotone(
            s.amount as int,
            s.start_time as int,
            s.end_time as int,
            t as int,
            t as int,
        );
        if rest.len() > 0 {
            crate::math::lemma_unlocked_monotone(
                s.amount as int,
                s.start_time as int,
                s.end_time as int,
                rest.last() as int,
                t as int,
            );
        }
        if exists|i: int| 0 <= i < times.len() && times[i] >= s.end_time {
            let i = choose|i: int| 0 <= i < times.len() && times[i] >= s.end_time;
            assert(times[i] <= t);
            if i < rest.len() {
                assert(rest[i] == times[i]);
            }
        }
    }
}

/// Over a stream's life, what its receiver is paid and what its sender gets
/// back never exceed the principal, and add up to exactly the principal once
/// the stream is exhausted (a withdrawal at or after its end) or cancelled.
/// The receiver withdraws at the instants `times`, and the sender may then
/// cancel at `cancel_at`, the clock never running backwards.
pub proof fn lemma_payouts_conserve_principal(s: Stream, times: Seq<u64>, cancel_at: u64)
    requires
        s.wf(),
        s.withdrawn_amount == 0,
        nondecreasing(times),
        forall|i: int| 0 <= i < times.len() ==> times[i] <= cancel_at,
    ensures
        0 <= paid_by_withdrawals(s, times) <= s.amount,
        (exists|i: int| 0 <= i < times.len() && times[i] >= s.end_time) ==> paid_by_withdrawals(
            s,
            times,
        ) == s.amount,
        cancel_at < s.end_time ==> ({
            let split = settlement_spec(after_withdrawals(s, times), cancel_at);
            &&& split.to_receiver >= 0
            &&& split.to_sender >= 0
            &&& paid_by_withdrawals(s, times) + split.to_receiver + split.to_sender == s.amount
        }),
{
    lemma_withdrawals_track_unlocked(s, times);
    crate::math::lemma_unlocked_monotone(
        s.amount as int,
        s.start_time as int,
        s.end_time as int,
        cancel_at as int,
        cancel_at as int,
    );
    if times.len() > 0 {
        crate::math::lemma_unlocked_monotone(
            s.amount as int,
            s.start_time as int,
            s.end_time as int,
            times.last() as int,
            cancel_at as int,
        );
    }
}

} // verus!
