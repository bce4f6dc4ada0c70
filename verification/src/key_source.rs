//! The source of key bytes, under one of two consumption policies.

use vstd::prelude::*;
use crate::error::TransformError;

verus! {

/// How the key stream is consumed.
#[derive(Clone, Copy, PartialEq, Eq, Debug, Structural)]
pub enum KeyPolicy {
    /// The key stream starts over whenever it ends.
    Cyclic,
    /// The key stream is read once, front to back, and never reused.
    Strict,
}

/// What the source needs before it can hand out the bytes asked for.
#[derive(Clone, Copy, PartialEq, Eq, Debug, Structural)]
pub enum KeyDemand {
    /// Enough bytes are buffered.
    Ready,
    /// Read at most this many bytes from the key stream at its cursor.
    Read(usize),
}

/// What follows after bytes were supplied.
#[derive(Clone, Copy, PartialEq, Eq, Debug, Structural)]
pub enum KeySupply {
    /// The bytes were taken into the buffer.
    Accepted,
    /// The key stream ended: move its cursor to the start and read again.
    Rewind,
}

/// The mathematical state of a [`KeySource`].
pub struct KeySourceView {
    pub policy: KeyPolicy,
    /// The most bytes the buffer may hold; also the largest request.
    pub capacity: nat,
    /// Bytes read from the key stream and not yet handed out, oldest first.
    pub buffered: Seq<u8>,
    /// The key stream was sent back to its start and has not yielded a byte
    /// since.
    pub rewound: bool,
}

impl KeySourceView {
    /// The invariant of a source.
    pub open spec fn wf(self) -> bool {
        &&& self.capacity > 0
        &&& self.buffered.len() <= self.capacity
    }

    /// A fresh source.
    pub open spec fn fresh(policy: KeyPolicy, capacity: nat) -> KeySourceView {
        KeySourceView { policy, capacity, buffered: Seq::empty(), rewound: false }
    }

    /// What is needed to hand out `needed` bytes. The cyclic policy reads
    /// ahead as far as the buffer allows, the strict policy reads no more
    /// than it was asked for.
    pub open spec fn demand(self, needed: nat) -> KeyDemand {
        if needed <= self.buffered.len() {
            KeyDemand::Ready
        } else {
            match self.policy {
                KeyPolicy::Cyclic => KeyDemand::Read(
                    (self.capacity - self.buffered.len()) as usize,
                ),
                KeyPolicy::Strict => KeyDemand::Read((needed - self.buffered.len()) as usize),
            }
        }
    }

    /// The outcome of supplying `bytes`, read from the key stream at its
    /// cursor; no bytes means that the stream is at its end.
    pub open spec fn supply(self, bytes: Seq<u8>) -> Result<KeySupply, TransformError> {
        if bytes.len() > 0 {
            Ok(KeySupply::Accepted)
        } else {
            match self.policy {
                KeyPolicy::Strict => Err(TransformError::KeyExhausted),
                KeyPolicy::Cyclic => if self.rewound {
                    Err(TransformError::EmptyKey)
                } else {
                    Ok(KeySupply::Rewind)
                },
            }
        }
    }

    /// The state after supplying `bytes`.
    pub open spec fn supplied(self, bytes: Seq<u8>) -> KeySourceView {
        if bytes.len() > 0 {
            KeySourceView { buffered: self.buffered + bytes, rewound: false, ..self }
        } else {
            match self.supply(bytes) {
                Ok(_) => KeySourceView { rewound: true, ..self },
                Err(_) => self,
            }
        }
    }

    /// The state after handing out the `count` oldest bytes.
    pub open spec fn taken(self, count: nat) -> KeySourceView {
        KeySourceView { buffered: self.buffered.skip(count as int), ..self }
    }
}

/// A buffer of key bytes that were read ahead, with the policy that says
/// what happens when the key stream ends.
pub struct KeySource {
    policy: KeyPolicy,
    capacity: usize,
    buffered: Vec<u8>,
    rewound: bool,
}

impl View for KeySource {
    type V = KeySourceView;

    closed spec fn view(&self) -> KeySourceView {
        KeySourceView {
            policy: self.policy,
            capacity: self.capacity as nat,
            buffered: self.buffered@,
            rewound: self.rewound,
        }
    }
}

impl KeySource {
    /// A source with an empty buffer.
    pub fn new(policy: KeyPolicy, capacity: usize) -> (source: KeySource)
        requires
            capacity > 0,
        ensures
            source@ == KeySourceView::fresh(policy, capacity as nat),
            source@.wf(),
    {
        KeySource { policy, capacity, buffered: Vec::new(), rewound: false }
    }

    pub fn policy(&self) -> (policy: KeyPolicy)
        ensures
            policy == self@.policy,
    {
        self.policy
    }

    pub fn capacity(&self) -> (capacity: usize)
        ensures
            capacity == self@.capacity,
    {
        self.capacity
    }

    /// The number of bytes that can be handed out without reading.
    pub fn available(&self) -> (count: usize)
        ensures
            count == self@.buffered.len(),
    {
        self.buffered.len()
    }

    /// Says whether `needed` bytes can be handed out, or how many bytes to
    /// read first.
    pub fn demand(&self, needed: usize) -> (demand: KeyDemand)
        requires
            self@.wf(),
            needed <= self@.capacity,
        ensures
            demand == self@.demand(needed as nat),
            demand matches KeyDemand::Read(limit) ==> 0 < limit && self@.buffered.len() + limit
                <= self@.capacity,
    {
        let held: usize = self.buffered.len();
        if needed <= held {
            KeyDemand::Ready
        } else {
            match self.policy {
                KeyPolicy::Cyclic => KeyDemand::Read(self.capacity - held),
                KeyPolicy::Strict => KeyDemand::Read(needed - held),
            }
        }
    }

    /// Takes in bytes that were read from the key stream at its cursor. No
    /// bytes means that the stream is at its end: the strict policy fails,
    /// the cyclic policy asks for a rewind, and fails if the stream yields
    /// nothing right after one.
    pub fn supply(&mut self, bytes: &[u8]) -> (outcome: Result<KeySupply, TransformError>)
        requires
            old(self)@.wf(),
            old(self)@.buffered.len() + bytes@.len() <= old(self)@.capacity,
        ensures
            outcome == old(self)@.supply(bytes@),
            final(self)@ == old(self)@.supplied(bytes@),
            final(self)@.wf(),
    {
        if bytes.len() > 0 {
            self.buffered.extend_from_slice(bytes);
            self.rewound = false;
            assert(self.buffered@ =~= old(self).buffered@ + bytes@);
            Ok(KeySupply::Accepted)
        } else {
            match self.policy {
                KeyPolicy::Strict => Err(TransformError::KeyExhausted),
                KeyPolicy::Cyclic => {
                    if self.rewound {
                        Err(TransformError::EmptyKey)
                    } else {
                        self.rewound = true;
                        Ok(KeySupply::Rewind)
                    }
                },
            }
        }
    }

    /// Hands out the `count` oldest buffered bytes and keeps the rest.
    pub fn take(&mut self, count: usize) -> (bytes: Vec<u8>)
        requires
            old(self)@.wf(),
            count <= old(self)@.buffered.len(),
        ensures
            bytes@ == old(self)@.buffered.take(count as int),
            final(self)@ == old(self)@.taken(count as nat),
            final(self)@.wf(),
    {
        let mut rest: Vec<u8> = self.buffered.split_off(count);
        core::mem::swap(&mut self.buffered, &mut rest);
        assert(rest@ =~= old(self).buffered@.take(count as int));
        assert(self.buffered@ =~= old(self).buffered@.skip(count as int));
        rest
    }
}

} // verus!
