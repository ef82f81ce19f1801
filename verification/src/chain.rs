//! Chain verification: the structural walk over a sequence of headers
//! against a trusted anchor, the two rival parity ("political") variants of
//! it, and a builder that exhibits a contentious fork.

use crate::header::{
    child_candidate, header_extends, minable, spec_genesis, spec_hash, Header, FORK_HEIGHT,
    THRESHOLD,
};
use vstd::prelude::*;

verus! {

/// The header that precedes `chain[i]` in the walk anchored at `anchor`:
/// the anchor itself for the first element, its left neighbour after that.
pub open spec fn chain_prev(anchor: Header, chain: Seq<Header>, i: int) -> Header {
    if i == 0 {
        anchor
    } else {
        chain[i - 1]
    }
}

/// The structural validity rule: every element of `chain` extends its
/// predecessor in the walk anchored at `anchor`. An empty chain is trivially
/// valid against any anchor.
pub open spec fn chain_valid(anchor: Header, chain: Seq<Header>) -> bool {
    forall|i: int|
        0 <= i < chain.len() ==> header_extends(chain_prev(anchor, chain, i), #[trigger] chain[i])
}

/// The even political rule's extra demand: past the fork height, a header's
/// cumulative state must be even.
pub open spec fn even_past_fork(chain: Seq<Header>) -> bool {
    forall|i: int|
        0 <= i < chain.len() ==> ((#[trigger] chain[i]).height > FORK_HEIGHT ==> chain[i].state % 2
            == 0)
}

/// The odd political rule's extra demand: past the fork height, a header's
/// cumulative state must be odd.
pub open spec fn odd_past_fork(chain: Seq<Header>) -> bool {
    forall|i: int|
        0 <= i < chain.len() ==> ((#[trigger] chain[i]).height > FORK_HEIGHT ==> chain[i].state % 2
            == 1)
}

impl Header {
    /// Walks `chain` against `self` as anchor and reports whether every
    /// adjacent pair satisfies the four structural invariants.
    pub fn verify_sub_chain(&self, chain: &[Header]) -> (r: bool)
        ensures
            r == chain_valid(*self, chain@),
    {
        let mut prev_header: &Header = self;
        let mut i: usize = 0;
        while i < chain.len()
            invariant
                i <= chain@.len(),
                *prev_header == chain_prev(*self, chain@, i as int),
                forall|j: int|
                    0 <= j < i ==> header_extends(
                        chain_prev(*self, chain@, j),
                        #[trigger] chain@[j],
                    ),
            decreases chain@.len() - i,
        {
            let header = &chain[i];
            if !Header::is_header_verified(prev_header, header) {
                return false;
            }
            prev_header = header;
            i = i + 1;
        }
        true
    }

    /// The walk of `verify_sub_chain` with the even rule added: past the
    /// fork height only headers with an even cumulative state pass.
    #[verifier::rlimit(30)]
    pub fn verify_sub_chain_even(&self, chain: &[Header]) -> (r: bool)
        ensures
            r == (chain_valid(*self, chain@) && even_past_fork(chain@)),
    {
        let mut prev_header: &Header = self;
        let mut i: usize = 0;
        while i < chain.len()
            invariant
                i <= chain@.len(),
                *prev_header == chain_prev(*self, chain@, i as int),
                forall|j: int|
                    0 <= j < i ==> header_extends(
                        chain_prev(*self, chain@, j),
                        #[trigger] chain@[j],
                    ),
                forall|j: int|
                    0 <= j < i ==> ((#[trigger] chain@[j]).height > FORK_HEIGHT ==> chain@[j].state
                        % 2 == 0),
            decreases chain@.len() - i,
        {
            let header = &chain[i];
            if header.height > FORK_HEIGHT && header.state % 2 != 0 {
                return false;
            }
            if !Header::is_header_verified(prev_header, header) {
                return false;
            }
            prev_header = header;
            i = i + 1;
        }
        true
    }

    /// The walk of `verify_sub_chain` with the odd rule added: past the
    /// fork height only headers with an odd cumulative state pass.
    #[verifier::rlimit(30)]
    pub fn verify_sub_chain_odd(&self, chain: &[Header]) -> (r: bool)
        ensures
            r == (chain_valid(*self, chain@) && odd_past_fork(chain@)),
    {
        let mut prev_header: &Header = self;
        let mut i: usize = 0;
        while i < chain.len()
            invariant
                i <= chain@.len(),
                *prev_header == chain_prev(*self, chain@, i as int),
                forall|j: int|
                    0 <= j < i ==> header_extends(
                        chain_prev(*self, chain@, j),
                        #[trigger] chain@[j],
                    ),
                forall|j: int|
                    0 <= j < i ==> ((#[trigger] chain@[j]).height > FORK_HEIGHT ==> chain@[j].state
                        % 2 == 1),
            decreases chain@.len() - i,
        {
            let header = &chain[i];
            if header.height > FORK_HEIGHT && header.state % 2 != 1 {
                return false;
            }
            if !Header::is_header_verified(prev_header, header) {
                return false;
            }
            prev_header = header;
            i = i + 1;
        }
        true
    }
}

/// The last header of the walk so far: the anchor while the chain is empty.
pub open spec fn chain_tip(anchor: Header, chain: Seq<Header>) -> Header {
    if chain.len() == 0 {
        anchor
    } else {
        chain[chain.len() - 1]
    }
}

/// An empty chain is valid against any anchor whatsoever.
pub proof fn lemma_empty_chain_valid(anchor: Header)
    ensures
        chain_valid(anchor, Seq::<Header>::empty()),
{
}

/// Appending a header that extends the tip keeps a chain valid. Starting
/// from the trivially valid empty chain, this is the induction step showing
/// that any chain built solely by repeated `child` calls from an anchor
/// verifies against that anchor, whenever mining sealed each child.
pub proof fn lemma_push_extending_header_keeps_valid(
    anchor: Header,
    chain: Seq<Header>,
    c: Header,
)
    requires
        chain_valid(anchor, chain),
        header_extends(chain_tip(anchor, chain), c),
    ensures
        chain_valid(anchor, chain.push(c)),
{
    let pushed = chain.push(c);
    assert forall|i: int| 0 <= i < pushed.len() implies header_extends(
        chain_prev(anchor, pushed, i),
        #[trigger] pushed[i],
    ) by {
        if i < chain.len() {
            assert(pushed[i] == chain[i]);
            assert(chain_prev(anchor, pushed, i) == chain_prev(anchor, chain, i));
        } else {
            assert(pushed[i] == c);
            assert(chain_prev(anchor, pushed, i) == chain_tip(anchor, chain));
        }
    }
}

/// A header that fails any one of the four invariants against its
/// predecessor poisons the whole chain: putting it at any position makes
/// the walk reject.
pub proof fn lemma_corrupted_header_invalidates(
    anchor: Header,
    chain: Seq<Header>,
    i: int,
    bad: Header,
)
    requires
        0 <= i < chain.len(),
        !header_extends(chain_prev(anchor, chain, i), bad),
    ensures
        !chain_valid(anchor, chain.update(i, bad)),
{
    let corrupted = chain.update(i, bad);
    assert(corrupted[i] == bad);
    assert(chain_prev(anchor, corrupted, i) == chain_prev(anchor, chain, i));
    assert(!header_extends(chain_prev(anchor, corrupted, i), corrupted[i]));
}

/// Rewriting one header's parent field to anything but its predecessor's
/// hash — in particular, to any value other than the one it holds in a
/// valid chain — makes the chain invalid.
pub proof fn lemma_wrong_parent_invalidates(anchor: Header, chain: Seq<Header>, i: int, p: u64)
    requires
        chain_valid(anchor, chain),
        0 <= i < chain.len(),
        p != chain[i].parent,
    ensures
        !chain_valid(anchor, chain.update(i, Header { parent: p, ..chain[i] })),
{
    let bad = Header { parent: p, ..chain[i] };
    assert(header_extends(chain_prev(anchor, chain, i), chain[i]));
    lemma_corrupted_header_invalidates(anchor, chain, i, bad);
}

/// Rewriting one header's height to anything but one above its predecessor's
/// height makes the chain invalid.
pub proof fn lemma_wrong_height_invalidates(anchor: Header, chain: Seq<Header>, i: int, n: u64)
    requires
        chain_valid(anchor, chain),
        0 <= i < chain.len(),
        n != chain[i].height,
    ensures
        !chain_valid(anchor, chain.update(i, Header { height: n, ..chain[i] })),
{
    let bad = Header { height: n, ..chain[i] };
    assert(header_extends(chain_prev(anchor, chain, i), chain[i]));
    lemma_corrupted_header_invalidates(anchor, chain, i, bad);
}

/// Rewriting one header's state to anything but its predecessor's state
/// plus its own extrinsic makes the chain invalid.
pub proof fn lemma_wrong_state_invalidates(anchor: Header, chain: Seq<Header>, i: int, s: u64)
    requires
        chain_valid(anchor, chain),
        0 <= i < chain.len(),
        s != chain[i].state,
    ensures
        !chain_valid(anchor, chain.update(i, Header { state: s, ..chain[i] })),
{
    let bad = Header { state: s, ..chain[i] };
    assert(header_extends(chain_prev(anchor, chain, i), chain[i]));
    lemma_corrupted_header_invalidates(anchor, chain, i, bad);
}

/// Rewriting one header's consensus digest to a value whose hash misses the
/// proof-of-work threshold makes the chain invalid.
pub proof fn lemma_wrong_digest_invalidates(anchor: Header, chain: Seq<Header>, i: int, d: u64)
    requires
        chain_valid(anchor, chain),
        0 <= i < chain.len(),
        spec_hash(Header { consensus_digest: d, ..chain[i] }) >= THRESHOLD,
    ensures
        !chain_valid(anchor, chain.update(i, Header { consensus_digest: d, ..chain[i] })),
{
    let bad = Header { consensus_digest: d, ..chain[i] };
    lemma_corrupted_header_invalidates(anchor, chain, i, bad);
}

/// Every header of the walk carries a hash under the proof-of-work
/// threshold; with the structural rule this is what repeated sealed `child`
/// calls produce.
pub open spec fn all_sealed(chain: Seq<Header>) -> bool {
    forall|i: int| 0 <= i < chain.len() ==> spec_hash(#[trigger] chain[i]) < THRESHOLD
}

/// Builds a two-header common prefix from genesis and two rival two-header
/// branches off its tip: one keeps the cumulative state even past the fork
/// height, the other keeps it odd. Whenever mining seals every header — and
/// it does unless some position admits no valid digest at all — the prefix
/// plus either branch passes the structural rule, while the even rule
/// accepts only the first combination and the odd rule only the second.
pub fn build_contentious_forked_chain() -> (r: (Vec<Header>, Vec<Header>, Vec<Header>))
    ensures
        ({
            let g = spec_genesis();
            let prefix = r.0@;
            let evens = r.1@;
            let odds = r.2@;
            &&& prefix.len() == 2
            &&& evens.len() == 2
            &&& odds.len() == 2
            &&& prefix[0] == child_candidate(g, 5, prefix[0].consensus_digest)
            &&& prefix[1] == child_candidate(prefix[0], 6, prefix[1].consensus_digest)
            &&& evens[0] == child_candidate(prefix[1], 3, evens[0].consensus_digest)
            &&& evens[1] == child_candidate(evens[0], 2, evens[1].consensus_digest)
            &&& odds[0] == child_candidate(prefix[1], 4, odds[0].consensus_digest)
            &&& odds[1] == child_candidate(odds[0], 2, odds[1].consensus_digest)
            &&& minable(g, 5) ==> spec_hash(prefix[0]) < THRESHOLD
            &&& minable(prefix[0], 6) ==> spec_hash(prefix[1]) < THRESHOLD
            &&& minable(prefix[1], 3) ==> spec_hash(evens[0]) < THRESHOLD
            &&& minable(evens[0], 2) ==> spec_hash(evens[1]) < THRESHOLD
            &&& minable(prefix[1], 4) ==> spec_hash(odds[0]) < THRESHOLD
            &&& minable(odds[0], 2) ==> spec_hash(odds[1]) < THRESHOLD
            &&& (all_sealed(prefix + evens) && all_sealed(prefix + odds)) ==> {
                &&& chain_valid(g, prefix + evens)
                &&& chain_valid(g, prefix + odds)
                &&& even_past_fork(prefix + evens)
                &&& !even_past_fork(prefix + odds)
                &&& odd_past_fork(prefix + odds)
                &&& !odd_past_fork(prefix + evens)
            }
        }),
{
    let g = Header::genesis();
    let b1 = g.child(5);
    let b2 = b1.child(6);

    let forked_even_header_a = b2.child(3);
    let forked_even_header_b = forked_even_header_a.child(2);

    let forked_odd_header_a = b2.child(4);
    let forked_odd_header_b = forked_odd_header_a.child(2);

    let prefix = vec![b1, b2];
    let evens = vec![forked_even_header_a, forked_even_header_b];
    let odds = vec![forked_odd_header_a, forked_odd_header_b];

    proof {
        let full_even = prefix@ + evens@;
        let full_odd = prefix@ + odds@;
        assert(full_even =~= seq![b1, b2, forked_even_header_a, forked_even_header_b]);
        assert(full_odd =~= seq![b1, b2, forked_odd_header_a, forked_odd_header_b]);
        if all_sealed(full_even) && all_sealed(full_odd) {
            assert forall|i: int| 0 <= i < full_even.len() implies header_extends(
                chain_prev(spec_genesis(), full_even, i),
                #[trigger] full_even[i],
            ) by {
                assert(spec_hash(full_even[i]) < THRESHOLD);
            }
            assert forall|i: int| 0 <= i < full_odd.len() implies header_extends(
                chain_prev(spec_genesis(), full_odd, i),
                #[trigger] full_odd[i],
            ) by {
                assert(spec_hash(full_odd[i]) < THRESHOLD);
            }
            assert(forked_odd_header_a.height == 3 && forked_odd_header_a.state == 15);
            assert(forked_even_header_a.height == 3 && forked_even_header_a.state == 14);
        }
    }
    (prefix, evens, odds)
}

/// Parity exclusivity. Two structurally valid branches hang off the same
/// anchor, both lying wholly past the fork height; along one the cumulative
/// state is always even, along the other always odd. Then the even rule
/// accepts exactly the first branch and the odd rule exactly the second,
/// while the plain structural rule accepts both.
pub proof fn lemma_parity_rules_exclusive(
    anchor: Header,
    even_branch: Seq<Header>,
    odd_branch: Seq<Header>,
)
    requires
        chain_valid(anchor, even_branch),
        chain_valid(anchor, odd_branch),
        even_branch.len() > 0,
        odd_branch.len() > 0,
        forall|i: int|
            0 <= i < even_branch.len() ==> (#[trigger] even_branch[i]).height > FORK_HEIGHT
                && even_branch[i].state % 2 == 0,
        forall|i: int|
            0 <= i < odd_branch.len() ==> (#[trigger] odd_branch[i]).height > FORK_HEIGHT
                && odd_branch[i].state % 2 == 1,
    ensures
        even_past_fork(even_branch),
        !even_past_fork(odd_branch),
        odd_past_fork(odd_branch),
        !odd_past_fork(even_branch),
{
    assert(odd_branch[0].height > FORK_HEIGHT && odd_branch[0].state % 2 == 1);
    assert(even_branch[0].height > FORK_HEIGHT && even_branch[0].state % 2 == 0);
}

} // verus!
