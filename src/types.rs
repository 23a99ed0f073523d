use vstd::prelude::*;

verus! {

/// An authenticatable principal (sender, receiver, admin, treasury) or an
/// asset, identified by the bytes of its address.
#[derive(Debug)]
pub struct Identity {
    pub bytes: Vec<u8>,
}

impl View for Identity {
    type V = Seq<u8>;

    open spec fn view(&self) -> Seq<u8> {
        self.bytes@
    }
}

impl Identity {
    pub fn new(bytes: Vec<u8>) -> (r: Identity)
        ensures
            r@ == bytes@,
    {
        Identity { bytes }
    }

    /// Whether both identities name the same principal.
    pub fn same_as(&self, other: &Identity) -> (r: bool)
        ensures
            r == (self@ == other@),
    {
        if self.bytes.len() != other.bytes.len() {
            return false;
        }
        let n = self.bytes.len();
        let mut i: usize = 0;
        while i < n
            invariant
                n == self.bytes.len(),
                n == other.bytes.len(),
                0 <= i <= n,
                forall|j: int| 0 <= j < i ==> self.bytes@[j] == other.bytes@[j],
            decreases n - i,
        {
            if self.bytes[i] != other.bytes[i] {
                return false;
            }
            i = i + 1;
        }
        proof {
            assert(self@ =~= other@);
        }
        true
    }

    pub fn copy(&self) -> (r: Identity)
        ensures
            r@ == self@,
    {
        let mut bytes: Vec<u8> = Vec::new();
        let mut i: usize = 0;
        while i < self.bytes.len()
            invariant
                0 <= i <= self.bytes.len(),
                bytes@ == self.bytes@.subrange(0, i as int),
            decreases self.bytes.len() - i,
        {
            bytes.push(self.bytes[i]);
            i = i + 1;
            proof {
                assert(bytes@ =~= self.bytes@.subrange(0, i as int));
            }
        }
        proof {
            assert(bytes@ =~= self.bytes@);
        }
        Identity { bytes }
    }
}

impl PartialEq for Identity {
    fn eq(&self, other: &Identity) -> (r: bool) {
        self.same_as(other)
    }
}

impl vstd::std_specs::cmp::PartialEqSpecImpl for Identity {
    open spec fn obeys_eq_spec() -> bool {
        true
    }

    open spec fn eq_spec(&self, other: &Identity) -> bool {
        self@ == other@
    }
}

impl Eq for Identity {
}

/// Every way in which an operation of the streaming engine can fail.
#[derive(Debug, Clone, Copy, PartialEq, Eq, Structural)]
pub enum StreamError {
    /// A fee rate above the maximum of 1000 basis points.
    FeeTooHigh,
    /// The fee is updated before any configuration was recorded.
    AdminNotConfigured,
    /// The caller is not the admin, or not the stream's receiver.
    Unauthorized,
    /// The end of the vesting window is not after its start.
    InvalidTimeRange,
    /// The amount to stream is not positive.
    InvalidAmount,
    /// A fee is due and no treasury is recorded to receive it.
    TreasuryNotConfigured,
    /// No stream is recorded under the given id.
    UnknownStream,
    /// Nothing has unlocked since the last withdrawal.
    NoFundsAvailable,
    /// The stream's window has already ended.
    StreamCompleted,
}

/// The contract-wide administrative record.
#[derive(Debug)]
pub struct AdminConfig {
    pub admin: Identity,
    pub fee_bps: u32,
    pub treasury: Identity,
}

impl AdminConfig {
    pub open spec fn wf(&self) -> bool {
        self.fee_bps <= MAX_FEE_BPS
    }
}

/// The largest fee rate, in basis points (10%).
pub const MAX_FEE_BPS: u32 = 1000;

/// Basis points in one whole.
pub const BPS_DENOMINATOR: u32 = 10000;

/// A payment stream: `amount` (the principal, after the fee) unlocks for
/// `receiver` linearly between `start_time` and `end_time`.
#[derive(Debug)]
pub struct Stream {
    pub sender: Identity,
    pub receiver: Identity,
    pub token: Identity,
    pub amount: i128,
    pub start_time: u64,
    pub end_time: u64,
    pub withdrawn_amount: i128,
}

impl Stream {
    /// The record's own invariant: a positive principal, a non-empty window,
    /// and a withdrawn total within the principal.
    pub open spec fn wf(&self) -> bool {
        &&& self.amount > 0
        &&& self.start_time < self.end_time
        &&& 0 <= self.withdrawn_amount <= self.amount
    }

    pub fn is_valid(&self) -> (r: bool)
        ensures
            r == self.wf(),
    {
        self.amount > 0 && self.start_time < self.end_time && 0 <= self.withdrawn_amount
            && self.withdrawn_amount <= self.amount
    }
}

/// How the escrowed principal of a cancelled stream is split.
#[derive(Debug, Clone, Copy, PartialEq, Eq, Structural)]
pub struct Settlement {
    /// Earned by the receiver and not yet withdrawn.
    pub to_receiver: i128,
    /// Not yet unlocked; returned to the sender.
    pub to_sender: i128,
}

} // verus!
