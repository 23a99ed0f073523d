use vstd::prelude::*;

pub mod lifecycle;
pub mod math;
pub mod types;

use crate::lifecycle::{
    configured_fee_bps, configured_fee_spec, initialize_config, open_error, open_stream,
    settle_cancel, settlement_spec, update_config, update_outcome,
    withdraw_from, withdraw_outcome, withdraw_step,
};
use crate::math::fee_spec;
use crate::types::{AdminConfig, Identity, Settlement, Stream, StreamError, MAX_FEE_BPS};

verus! {

/// The streaming engine: the administrative record, the id sequence and the
/// registry of live streams. The stream with id `k` sits at `streams[k - 1]`;
/// a cancelled stream leaves `None` behind, so ids are never reused.
pub struct StellarStream {
    pub config: Option<AdminConfig>,
    pub last_id: u64,
    pub streams: Vec<Option<Stream>>,
}

impl StellarStream {
    /// The engine's invariant: one slot per id handed out, a valid fee rate,
    /// and every live stream well formed.
    pub open spec fn wf(&self) -> bool {
        &&& self.streams@.len() == self.last_id
        &&& self.config matches Some(c) ==> c.wf()
        &&& forall|i: int|
            0 <= i < self.streams@.len() && #[trigger] self.streams@[i] is Some
                ==> self.streams@[i]->0.wf()
    }

    /// The live stream recorded under `id`, if any.
    pub open spec fn stream_at(&self, id: u64) -> Option<Stream> {
        if 1 <= id && id <= self.streams@.len() {
            self.streams@[id - 1]
        } else {
            None
        }
    }

    /// Whether `self` and `other` hold the same streams under every id except `id`.
    pub open spec fn same_streams_except(&self, other: &StellarStream, id: u64) -> bool {
        forall|k: u64| k != id ==> #[trigger] self.stream_at(k) == other.stream_at(k)
    }

    pub fn new() -> (r: StellarStream)
        ensures
            r.wf(),
            r.config.is_none(),
            r.last_id == 0,
            forall|k: u64| r.stream_at(k).is_none(),
    {
        StellarStream { config: None, last_id: 0, streams: Vec::new() }
    }

    /// Records `admin`, the fee rate and the treasury, replacing any earlier
    /// configuration.
    pub fn initialize_fee(&mut self, admin: Identity, fee_bps: u32, treasury: Identity) -> (r:
        Result<(), StreamError>)
        requires
            old(self).wf(),
        ensures
            final(self).wf(),
            fee_bps > MAX_FEE_BPS <==> r == Err::<(), StreamError>(StreamError::FeeTooHigh),
            fee_bps <= MAX_FEE_BPS <==> r == Ok::<(), StreamError>(()),
            r is Ok ==> final(self).config == Some(AdminConfig { admin, fee_bps, treasury }),
            r is Err ==> final(self).config == old(self).config,
            final(self).last_id == old(self).last_id,
            final(self).streams@ == old(self).streams@,
    {
        match initialize_config(admin, fee_bps, treasury) {
            Ok(c) => {
                self.config = Some(c);
                Ok(())
            },
            Err(e) => Err(e),
        }
    }

    /// Changes the fee rate on behalf of `admin`, who must be the recorded admin.
    pub fn update_fee(&mut self, admin: &Identity, fee_bps: u32) -> (r: Result<(), StreamError>)
        requires
            old(self).wf(),
        ensures
            final(self).wf(),
            r == update_outcome(old(self).config, admin@, fee_bps),
            r is Ok ==> final(self).config == Some(
                AdminConfig { fee_bps, ..old(self).config->0 },
            ),
            r is Err ==> final(self).config == old(self).config,
            final(self).last_id == old(self).last_id,
            final(self).streams@ == old(self).streams@,
    {
        update_config(&mut self.config, admin, fee_bps)
    }

    /// The fee rate in force, in basis points: zero while unconfigured.
    pub fn fee_bps(&self) -> (r: u32)
        ensures
            r == configured_fee_spec(self.config),
    {
        configured_fee_bps(&self.config)
    }

    /// The treasury that receives fees, if one is configured.
    pub fn treasury(&self) -> (r: Option<&Identity>)
        ensures
            r is None <==> self.config is None,
            r matches Some(t) ==> *t == self.config->0.treasury,
    {
        match &self.config {
            Some(c) => Some(&c.treasury),
            None => None,
        }
    }

    /// The live stream recorded under `stream_id`.
    pub fn get_stream(&self, stream_id: u64) -> (r: Option<&Stream>)
        requires
            self.wf(),
        ensures
            r is None <==> self.stream_at(stream_id) is None,
            r matches Some(s) ==> self.stream_at(stream_id) == Some(*s),
    {
        match self.slot_of(stream_id) {
            None => None,
            Some(idx) => match &self.streams[idx] {
                Some(s) => Some(s),
                None => None,
            },
        }
    }

    /// The index in `streams` that id `stream_id` would occupy.
    fn slot_of(&self, stream_id: u64) -> (r: Option<usize>)
        requires
            self.wf(),
        ensures
            r is None <==> !(1 <= stream_id && stream_id <= self.streams@.len()),
            r matches Some(i) ==> i == stream_id - 1,
    {
        if stream_id == 0 || stream_id > self.last_id {
            return None;
        }
        let n: usize = self.streams.len();
        proof {
            assert(stream_id - 1 < n);
        }
        Some((stream_id - 1) as usize)
    }
    /// The treasury in force, if any.
    pub open spec fn treasury_spec(&self) -> Option<Identity> {
        match self.config {
            None => None,
            Some(c) => Some(c.treasury),
        }
    }

    /// Opens a stream from `sender` to `receiver` of `amount` units of `token`
    /// over `[start_time, end_time)`. The configured fee is withheld and the
    /// rest is recorded as the principal under the next id, which is returned.
    pub fn create_stream(
        &mut self,
        sender: Identity,
        receiver: Identity,
        token: Identity,
        amount: i128,
        start_time: u64,
        end_time: u64,
    ) -> (r: Result<u64, StreamError>)
        requires
            old(self).wf(),
            old(self).last_id < u64::MAX,
        ensures
            final(self).wf(),
            final(self).config == old(self).config,
            match open_error(
                configured_fee_spec(old(self).config),
                old(self).treasury_spec() is Some,
                amount,
                start_time,
                end_time,
            ) {
                Some(e) => r == Err::<u64, StreamError>(e) && final(self).last_id == old(self).last_id
                    && final(self).streams@ == old(self).streams@,
                None => {
                    let id = (old(self).last_id + 1) as u64;
                    let fee = fee_spec(amount as int, configured_fee_spec(old(self).config) as int);
                    &&& r == Ok::<u64, StreamError>(id)
                    &&& final(self).last_id == id
                    &&& final(self).stream_at(id) == Some(
                        Stream {
                            sender,
                            receiver,
                            token,
                            amount: (amount - fee) as i128,
                            start_time,
                            end_time,
                            withdrawn_amount: 0,
                        },
                    )
                    &&& final(self).same_streams_except(old(self), id)
                },
            },
    {
        let fee_bps = configured_fee_bps(&self.config);
        let treasury = self.treasury();
        let opened = open_stream(
            fee_bps,
            treasury,
            self.last_id,
            sender,
            receiver,
            token,
            amount,
            start_time,
            end_time,
        );
        match opened {
            Err(e) => Err(e),
            Ok(o) => {
                let id = o.id;
                self.streams.push(Some(o.stream));
                self.last_id = id;
                proof {
                    lemma_slot_replaced(old(self), self, id);
                }
                Ok(id)
            },
        }
    }

    /// Pays the receiver of stream `stream_id` what has unlocked by `now` and
    /// was not withdrawn yet, and returns that amount.
    pub fn withdraw(&mut self, stream_id: u64, receiver: &Identity, now: u64) -> (r: Result<
        i128,
        StreamError,
    >)
        requires
            old(self).wf(),
        ensures
            final(self).wf(),
            final(self).config == old(self).config,
            final(self).last_id == old(self).last_id,
            match old(self).stream_at(stream_id) {
                None => r == Err::<i128, StreamError>(StreamError::UnknownStream),
                Some(s) => r == withdraw_outcome(s, receiver@, now),
            },
            r is Err ==> final(self).streams@ == old(self).streams@,
            old(self).stream_at(stream_id) matches Some(s) ==> final(self).stream_at(stream_id)
                == Some(withdraw_step(s, receiver@, now)),
            r matches Ok(w) ==> final(self).stream_at(stream_id)->0.withdrawn_amount == old(
                self,
            ).stream_at(stream_id)->0.withdrawn_amount + w,
            final(self).same_streams_except(old(self), stream_id),
    {
        let idx = match self.slot_of(stream_id) {
            None => return Err(StreamError::UnknownStream),
            Some(i) => i,
        };
        match self.streams[idx].take() {
            None => {
                proof {
                    assert(self.streams@ =~= old(self).streams@);
                }
                Err(StreamError::UnknownStream)
            },
            Some(mut s) => {
                let r = withdraw_from(&mut s, receiver, now);
                self.streams.set(idx, Some(s));
                proof {
                    if r is Err {
                        assert(self.streams@ =~= old(self).streams@);
                    }
                    lemma_slot_replaced(old(self), self, stream_id);
                }
                r
            },
        }
    }

    /// Ends stream `stream_id` at `now` before its window closes: the record is
    /// removed, and the removed record is returned with the split of its
    /// principal between receiver and sender.
    pub fn cancel_stream(&mut self, stream_id: u64, now: u64) -> (r: Result<
        (Stream, Settlement),
        StreamError,
    >)
        requires
            old(self).wf(),
        ensures
            final(self).wf(),
            final(self).config == old(self).config,
            final(self).last_id == old(self).last_id,
            match old(self).stream_at(stream_id) {
                None => r == Err::<(Stream, Settlement), StreamError>(StreamError::UnknownStream),
                Some(s) => if now >= s.end_time {
                    r == Err::<(Stream, Settlement), StreamError>(StreamError::StreamCompleted)
                } else {
                    r == Ok::<(Stream, Settlement), StreamError>((s, settlement_spec(s, now)))
                },
            },
            r is Err ==> final(self).streams@ == old(self).streams@,
            r is Ok ==> final(self).stream_at(stream_id) is None,
            final(self).same_streams_except(old(self), stream_id),
    {
        let idx = match self.slot_of(stream_id) {
            None => return Err(StreamError::UnknownStream),
            Some(i) => i,
        };
        match self.streams[idx].take() {
            None => {
                proof {
                    assert(self.streams@ =~= old(self).streams@);
                }
                Err(StreamError::UnknownStream)
            },
            Some(s) => match settle_cancel(&s, now) {
                Err(e) => {
                    self.streams.set(idx, Some(s));
                    proof {
                        assert(self.streams@ =~= old(self).streams@);
                    }
                    Err(e)
                },
                Ok(split) => {
                    proof {
                        lemma_slot_replaced(old(self), self, stream_id);
                    }
                    Ok((s, split))
                },
            },
        }
    }
}

/// Changing the slot of `id` alone, to a well-formed stream or to nothing,
/// possibly by appending it, keeps the engine's invariant and the streams of
/// every other id.
proof fn lemma_slot_replaced(before: &StellarStream, after: &StellarStream, id: u64)
    requires
        before.wf(),
        after.config == before.config,
        after.streams@.len() == after.last_id,
        1 <= id <= after.streams@.len(),
        before.streams@.len() <= after.streams@.len(),
        forall|i: int|
            0 <= i < after.streams@.len() && i != id - 1 ==> i < before.streams@.len()
                && after.streams@[i] == before.streams@[i],
        after.streams@[id - 1] matches Some(s) ==> s.wf(),
    ensures
        after.wf(),
        after.same_streams_except(before, id),
{
    assert forall|k: u64| k != id implies #[trigger] after.stream_at(k) == before.stream_at(k) by {
        if 1 <= k && k <= after.streams@.len() {
            assert(after.streams@[k - 1] == before.streams@[k - 1]);
        }
    }
    assert forall|i: int|
        0 <= i < after.streams@.len() && #[trigger] after.streams@[i] is Some implies after.streams@[
            i
        ]->0.wf() by {
        if i != id - 1 {
            assert(after.streams@[i] == before.streams@[i]);
        }
    }
}

} // verus!
