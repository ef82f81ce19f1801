//! The block header entity: its hashing relationship to its parent, the
//! genesis factory, and the proof-of-work mining search that seals a child.

use rand::Rng;
use std::collections::hash_map::DefaultHasher;
use std::hash::Hasher;
use vstd::prelude::*;
use vstd::std_specs::hash::DefaultHasherAdditionalSpecFns;

verus! {

/// Highest hash value accepted as proof of work: about one candidate digest
/// in a hundred falls under it.
pub const THRESHOLD: u64 = u64::MAX / 100;

/// Block height after which the rival parity rules begin to apply.
pub const FORK_HEIGHT: u64 = 2;

/// One block's metadata record: a single scalar extrinsic, the running sum
/// of all extrinsics so far, and a consensus digest that for proof of work
/// is simply a nonce.
#[derive(Clone, Copy, Debug, PartialEq, Eq, Hash, Structural)]
pub struct Header {
    pub parent: u64,
    pub height: u64,
    pub extrinsic: u64,
    pub state: u64,
    pub consensus_digest: u64,
}

/// The digest a `DefaultHasher` yields after one write per header field, in
/// declaration order, each field as its eight little-endian bytes. The model
/// pins determinism: equal headers always hash alike.
pub open spec fn spec_hash(h: Header) -> u64 {
    DefaultHasher::spec_finish(
        seq![
            vstd::bytes::spec_u64_to_le_bytes(h.parent),
            vstd::bytes::spec_u64_to_le_bytes(h.height),
            vstd::bytes::spec_u64_to_le_bytes(h.extrinsic),
            vstd::bytes::spec_u64_to_le_bytes(h.state),
            vstd::bytes::spec_u64_to_le_bytes(h.consensus_digest),
        ],
    )
}

/// Deterministic hash of a header, fed every field so that any field change
/// moves the output.
pub fn hash(header: &Header) -> (r: u64)
    ensures
        r == spec_hash(*header),
{
    let mut hasher = DefaultHasher::new();
    let parent_bytes = vstd::bytes::u64_to_le_bytes(header.parent);
    hasher.write(parent_bytes.as_slice());
    let height_bytes = vstd::bytes::u64_to_le_bytes(header.height);
    hasher.write(height_bytes.as_slice());
    let extrinsic_bytes = vstd::bytes::u64_to_le_bytes(header.extrinsic);
    hasher.write(extrinsic_bytes.as_slice());
    let state_bytes = vstd::bytes::u64_to_le_bytes(header.state);
    hasher.write(state_bytes.as_slice());
    let digest_bytes = vstd::bytes::u64_to_le_bytes(header.consensus_digest);
    hasher.write(digest_bytes.as_slice());
    proof {
        assert(hasher@ =~= seq![
            vstd::bytes::spec_u64_to_le_bytes(header.parent),
            vstd::bytes::spec_u64_to_le_bytes(header.height),
            vstd::bytes::spec_u64_to_le_bytes(header.extrinsic),
            vstd::bytes::spec_u64_to_le_bytes(header.state),
            vstd::bytes::spec_u64_to_le_bytes(header.consensus_digest),
        ]);
    }
    hasher.finish()
}

/// The unique parentless root header: every field zero.
pub open spec fn spec_genesis() -> Header {
    Header { parent: 0, height: 0, extrinsic: 0, state: 0, consensus_digest: 0 }
}

/// The only header that can structurally follow `parent_header` while
/// carrying `extrinsic` and sealed with `digest`: height one higher, parent
/// field the parent's hash, state the running sum of extrinsics.
pub open spec fn child_candidate(parent_header: Header, extrinsic: u64, digest: u64) -> Header {
    Header {
        parent: spec_hash(parent_header),
        height: (parent_header.height + 1) as u64,
        extrinsic,
        state: (parent_header.state + extrinsic) as u64,
        consensus_digest: digest,
    }
}

/// Some digest seals a proof-of-work-valid child of `parent_header` carrying
/// `extrinsic`. Under the fixed threshold this fails only for a vanishingly
/// unlikely hash landscape, but the model cannot rule it out.
pub open spec fn minable(parent_header: Header, extrinsic: u64) -> bool {
    exists|d: u64| spec_hash(child_candidate(parent_header, extrinsic, d)) < THRESHOLD
}

/// The four invariants a chain demands of each adjacent pair: height up by
/// exactly one, parent field equal to the predecessor's hash, state equal to
/// the predecessor's state plus the extrinsic, and the hash under the
/// proof-of-work threshold. The sums are over unbounded integers, so a pair
/// whose true running sum no longer fits in the state field never validates.
pub open spec fn header_extends(prev: Header, h: Header) -> bool {
    &&& h.height == prev.height + 1
    &&& h.parent == spec_hash(prev)
    &&& h.state == prev.state + h.extrinsic
    &&& spec_hash(h) < THRESHOLD
}

/// How many random nonces the miner draws before it falls back to sweeping
/// the digest space in order, which keeps the search provably finite.
pub const NONCE_DRAWS: u64 = 100000;

impl Header {
    /// Relies on `rand::thread_rng` and `rand::Rng::gen::<u32>`: draws one
    /// random 32-bit nonce. Nothing is promised of which value comes back,
    /// only that it fits in 32 bits.
    #[verifier::external_body]
    fn generate_nonce(&self) -> (r: u64)
        ensures
            r <= u32::MAX as u64,
    {
        let mut rng = rand::thread_rng();
        rng.gen::<u32>() as u64
    }

    /// Returns the fixed zero-valued genesis header.
    pub fn genesis() -> (g: Header)
        ensures
            g == spec_genesis(),
    {
        Header { height: 0, parent: 0, state: 0, extrinsic: 0, consensus_digest: 0 }
    }

    /// Mines and returns a child of `self` carrying `extrinsic`: random
    /// nonces first, then an ordered sweep of the whole digest space, so the
    /// result is sealed by proof of work whenever any digest at all can seal
    /// this position.
    pub fn child(&self, extrinsic: u64) -> (c: Header)
        requires
            self.height < u64::MAX,
            self.state + extrinsic <= u64::MAX,
        ensures
            c == child_candidate(*self, extrinsic, c.consensus_digest),
            minable(*self, extrinsic) ==> spec_hash(c) < THRESHOLD,
            minable(*self, extrinsic) ==> header_extends(*self, c),
    {
        let mut valid_header = Header {
            height: self.height + 1,
            parent: hash(self),
            state: self.state + extrinsic,
            extrinsic,
            consensus_digest: 0,
        };
        let mut draws: u64 = 0;
        while draws < NONCE_DRAWS
            invariant
                self.height < u64::MAX,
                self.state + extrinsic <= u64::MAX,
                valid_header == child_candidate(*self, extrinsic, valid_header.consensus_digest),
            decreases NONCE_DRAWS - draws,
        {
            let nonce = self.generate_nonce();
            valid_header.consensus_digest = nonce;
            if hash(&valid_header) < THRESHOLD {
                return valid_header;
            }
            draws = draws + 1;
        }
        let mut digest: u64 = 0;
        while digest < u64::MAX
            invariant
                self.height < u64::MAX,
                self.state + extrinsic <= u64::MAX,
                valid_header == child_candidate(*self, extrinsic, valid_header.consensus_digest),
                forall|d: u64|
                    d < digest ==> spec_hash(child_candidate(*self, extrinsic, d)) >= THRESHOLD,
            decreases u64::MAX - digest,
        {
            valid_header.consensus_digest = digest;
            if hash(&valid_header) < THRESHOLD {
                return valid_header;
            }
            digest = digest + 1;
        }
        valid_header.consensus_digest = u64::MAX;
        if hash(&valid_header) < THRESHOLD {
            return valid_header;
        }
        proof {
            assert(forall|d: u64| spec_hash(child_candidate(*self, extrinsic, d)) >= THRESHOLD);
            assert(!minable(*self, extrinsic));
        }
        valid_header
    }

    /// True exactly when `header` extends `prev_header` under the four chain
    /// invariants.
    pub fn is_header_verified(prev_header: &Header, header: &Header) -> (r: bool)
        ensures
            r == header_extends(*prev_header, *header),
    {
        if !(header.height > prev_header.height && header.height - prev_header.height == 1) {
            return false;
        }
        let valid_hash = header.parent == hash(prev_header);
        let valid_extrinsic = header.state >= header.extrinsic && header.state - header.extrinsic
            == prev_header.state;
        let valid_consensus_digest = hash(header) < THRESHOLD;
        valid_hash && valid_extrinsic && valid_consensus_digest
    }
}

} // verus!
