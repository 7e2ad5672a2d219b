//! Investor bids and their ranking.
//!
//! A bid offers `bid_amount` now against an expected return later.  Ranking
//! favours the lowest cost of capital for the business — the smallest
//! `expected_return / bid_amount` — with ties broken by earliest placement
//! and then by bid identifier, so the order is total and reproducible.

use crate::Address;
use vstd::multiset::Multiset;
use vstd::prelude::*;

verus! {

/// How long a bid stays open by default, in seconds.
pub const BID_EXPIRATION_WINDOW: u64 = 7 * 24 * 60 * 60;

/// Upper limit on a bid's amount and expected return: one quintillion
/// units.  This is a machine limit, not a business rule: ranking compares
/// bids by the cross-multiplication `expected_return * bid_amount`, whose
/// largest value under this bound is 10^36, safely below `i128::MAX`
/// (about 1.7 * 10^38), so a rejected call is the only alternative to an
/// uncontrolled arithmetic fault.
pub const MAX_BID_VALUE: i128 = 1_000_000_000_000_000_000;

/// Lifecycle of a bid.  Only `Placed` bids are live; the other three states
/// are terminal.
#[derive(Clone, Copy, Debug, PartialEq, Eq, Structural)]
pub enum BidStatus {
    /// Open and eligible for acceptance.
    Placed,
    /// Accepted by the business; the invoice is funded by this bid.
    Accepted,
    /// Withdrawn by the investor before acceptance.
    Withdrawn,
    /// Lapsed past its expiration timestamp.
    Expired,
}

/// An investor's offer to fund an invoice.
#[derive(Clone, Copy, Debug, PartialEq, Eq, Structural)]
pub struct Bid {
    /// This bid's identifier.
    pub bid_id: u64,
    /// The invoice the bid is for.
    pub invoice_id: u64,
    /// The bidding investor.
    pub investor: Address,
    /// The amount offered now.
    pub bid_amount: i128,
    /// The return the investor expects on top of the amount.
    pub expected_return: i128,
    /// When the bid was placed.
    pub timestamp: u64,
    /// Lifecycle status.
    pub status: BidStatus,
    /// When the bid lapses if still `Placed`.
    pub expiration_timestamp: u64,
}

/// The bounds every stored bid satisfies: a positive amount and a
/// non-negative expected return, both within the protocol limit.
pub open spec fn bid_in_limits(b: Bid) -> bool {
    &&& 0 < b.bid_amount <= MAX_BID_VALUE
    &&& 0 <= b.expected_return <= MAX_BID_VALUE
}

/// Strictly better terms: `a`'s return-per-unit-funded is lower than `b`'s,
/// compared by cross-multiplication so no division is needed.
pub open spec fn cost_lt(a: Bid, b: Bid) -> bool {
    a.expected_return * b.bid_amount < b.expected_return * a.bid_amount
}

/// Equal terms under the same cross-multiplied comparison.
pub open spec fn cost_eq(a: Bid, b: Bid) -> bool {
    a.expected_return * b.bid_amount == b.expected_return * a.bid_amount
}

/// The ranking order: best terms first, ties broken by earliest placement,
/// then by bid identifier.  Total over bids with distinct identifiers.
pub open spec fn ranks_before(a: Bid, b: Bid) -> bool {
    ||| cost_lt(a, b)
    ||| (cost_eq(a, b) && (a.timestamp < b.timestamp || (a.timestamp == b.timestamp
        && a.bid_id <= b.bid_id)))
}

/// A sequence of bids in ranking order.
pub open spec fn ranked(s: Seq<Bid>) -> bool {
    forall|i: int, j: int| 0 <= i < j < s.len() ==> ranks_before(s[i], s[j])
}

proof fn lemma_cross_mul_chain(ea: int, aa: int, eb: int, ab: int, ec: int, ac: int)
    requires
        aa > 0,
        ab > 0,
        ac > 0,
        ea * ab <= eb * aa,
        eb * ac <= ec * ab,
    ensures
        ea * ac <= ec * aa,
        ea * ab < eb * aa || eb * ac < ec * ab ==> ea * ac < ec * aa,
{
    assert(ea * ab * ac <= eb * aa * ac) by (nonlinear_arith)
        requires ac > 0 && ea * ab <= eb * aa;
    assert(eb * ac * aa <= ec * ab * aa) by (nonlinear_arith)
        requires aa > 0 && eb * ac <= ec * ab;
    assert(eb * aa * ac == eb * ac * aa) by (nonlinear_arith);
    assert(ea * ab * ac == ea * ac * ab && ec * ab * aa == ec * aa * ab) by (nonlinear_arith);
    assert(ea * ac * ab <= ec * aa * ab);
    assert(ea * ac <= ec * aa) by (nonlinear_arith)
        requires ab > 0 && ea * ac * ab <= ec * aa * ab;
    if ea * ab < eb * aa || eb * ac < ec * ab {
        if ea * ab < eb * aa {
            assert(ea * ab * ac < eb * aa * ac) by (nonlinear_arith)
                requires ac > 0 && ea * ab < eb * aa;
        } else {
            assert(eb * ac * aa < ec * ab * aa) by (nonlinear_arith)
                requires aa > 0 && eb * ac < ec * ab;
        }
        assert(ea * ac * ab < ec * aa * ab);
        assert(ea * ac < ec * aa) by (nonlinear_arith)
            requires ab > 0 && ea * ac * ab < ec * aa * ab;
    }
}

/// The ranking order is transitive over bids within the protocol limits.
pub proof fn lemma_ranks_before_trans(a: Bid, b: Bid, c: Bid)
    requires
        bid_in_limits(a),
        bid_in_limits(b),
        bid_in_limits(c),
        ranks_before(a, b),
        ranks_before(b, c),
    ensures
        ranks_before(a, c),
{
    lemma_cross_mul_chain(
        a.expected_return as int,
        a.bid_amount as int,
        b.expected_return as int,
        b.bid_amount as int,
        c.expected_return as int,
        c.bid_amount as int,
    );
}

/// The ranking order is total: one of the two directions always holds.
pub proof fn lemma_ranks_before_total(a: Bid, b: Bid)
    ensures
        ranks_before(a, b) || ranks_before(b, a),
{
}

/// The ranking order is antisymmetric over bids with distinct
/// identifiers: two different bids never each rank before the other.
pub proof fn lemma_ranks_before_antisymmetric(a: Bid, b: Bid)
    requires
        ranks_before(a, b),
        ranks_before(b, a),
    ensures
        a.bid_id == b.bid_id,
{
}

/// The ranking order is deterministic: any two ranked arrangements of the
/// same bids, with no identifier repeated, are the same sequence.  A
/// ranked listing is therefore reproducible from the set of live bids
/// alone.
pub proof fn lemma_ranked_order_unique(s1: Seq<Bid>, s2: Seq<Bid>)
    requires
        ranked(s1),
        ranked(s2),
        s1.to_multiset() == s2.to_multiset(),
        forall|p: int, q: int|
            0 <= p < q < s1.len() ==> (#[trigger] s1[p]).bid_id != (#[trigger] s1[q]).bid_id,
    ensures
        s1 == s2,
    decreases s1.len(),
{
    broadcast use vstd::seq_lib::group_to_multiset_ensures;

    s1.to_multiset_ensures();
    s2.to_multiset_ensures();
    assert(s1.to_multiset().len() == s2.to_multiset().len());
    assert(s1.len() == s2.len());
    if s1.len() == 0 {
        assert(s1 =~= s2);
    } else {
        let a = s1[0];
        let b = s2[0];
        assert(s1.contains(a));
        assert(s2.to_multiset().count(a) > 0);
        assert(s2.contains(a));
        let i = choose|i: int| 0 <= i < s2.len() && s2[i] == a;
        assert(s1.to_multiset().count(b) > 0);
        assert(s1.contains(b));
        let j = choose|j: int| 0 <= j < s1.len() && s1[j] == b;
        assert(ranks_before(b, a)) by {
            if i == 0 {
            } else {
                assert(ranks_before(s2[0], s2[i]));
            }
        }
        assert(ranks_before(a, b)) by {
            if j == 0 {
            } else {
                assert(ranks_before(s1[0], s1[j]));
            }
        }
        lemma_ranks_before_antisymmetric(a, b);
        assert(a == b) by {
            if j != 0 {
                assert(s1[0].bid_id != s1[j].bid_id);
            }
        }
        let t1 = s1.remove(0);
        let t2 = s2.remove(0);
        assert(t1.to_multiset() == s1.to_multiset().remove(a));
        assert(t2.to_multiset() == s2.to_multiset().remove(a));
        s1.remove_ensures(0);
        s2.remove_ensures(0);
        assert forall|p: int, q: int|
            0 <= p < q < t1.len() implies (#[trigger] t1[p]).bid_id
            != (#[trigger] t1[q]).bid_id by {
            assert(t1[p] == s1[p + 1] && t1[q] == s1[q + 1]);
        }
        assert(ranked(t1)) by {
            assert forall|p: int, q: int| 0 <= p < q < t1.len()
                implies ranks_before(t1[p], t1[q]) by {
                assert(t1[p] == s1[p + 1] && t1[q] == s1[q + 1]);
            }
        }
        assert(ranked(t2)) by {
            assert forall|p: int, q: int| 0 <= p < q < t2.len()
                implies ranks_before(t2[p], t2[q]) by {
                assert(t2[p] == s2[p + 1] && t2[q] == s2[q + 1]);
            }
        }
        lemma_ranked_order_unique(t1, t2);
        assert(s1 =~= s2) by {
            assert(forall|k: int| 1 <= k < s1.len() ==> s1[k] == t1[k - 1] && s2[k] == t2[k - 1]);
        }
    }
}

/// Compares two bids in the ranking order.
fn ranks_before_exec(a: &Bid, b: &Bid) -> (r: bool)
    requires
        bid_in_limits(*a),
        bid_in_limits(*b),
    ensures
        r == ranks_before(*a, *b),
{
    proof {
        assert(a.expected_return * b.bid_amount <= MAX_BID_VALUE * MAX_BID_VALUE
            && a.expected_return * b.bid_amount >= 0) by (nonlinear_arith)
            requires 0 <= a.expected_return <= MAX_BID_VALUE && 0 < b.bid_amount <= MAX_BID_VALUE;
        assert(b.expected_return * a.bid_amount <= MAX_BID_VALUE * MAX_BID_VALUE
            && b.expected_return * a.bid_amount >= 0) by (nonlinear_arith)
            requires 0 <= b.expected_return <= MAX_BID_VALUE && 0 < a.bid_amount <= MAX_BID_VALUE;
    }
    let ca = a.expected_return * b.bid_amount;
    let cb = b.expected_return * a.bid_amount;
    if ca < cb {
        true
    } else if ca == cb {
        a.timestamp < b.timestamp || (a.timestamp == b.timestamp && a.bid_id <= b.bid_id)
    } else {
        false
    }
}

proof fn lemma_insert_to_multiset(s: Seq<Bid>, j: int, b: Bid)
    requires
        0 <= j <= s.len(),
    ensures
        s.insert(j, b).to_multiset() =~= s.to_multiset().insert(b),
{
    broadcast use vstd::seq_lib::group_to_multiset_ensures;

    let left = s.subrange(0, j);
    let right = s.subrange(j, s.len() as int);
    assert(s.insert(j, b) == left.push(b) + right);
    assert(s == left + right);
    vstd::seq_lib::lemma_seq_union_to_multiset_commutative(left.push(b), right);
    vstd::seq_lib::lemma_seq_union_to_multiset_commutative(left, right);
    assert(left.push(b).to_multiset() =~= left.to_multiset().insert(b));
}

/// Sorts bids into the ranking order.  The result holds exactly the input
/// bids, best terms first.
pub fn rank_bid_list(input: &Vec<Bid>) -> (out: Vec<Bid>)
    requires
        forall|k: int| 0 <= k < input@.len() ==> bid_in_limits(#[trigger] input@[k]),
    ensures
        out@.to_multiset() == input@.to_multiset(),
        ranked(out@),
        out@.len() == input@.len(),
{
    let ghost full = input@;
    let mut out: Vec<Bid> = Vec::new();
    let mut i: usize = 0;
    proof {
        broadcast use vstd::seq_lib::group_to_multiset_ensures;

        assert(full.take(0) =~= Seq::<Bid>::empty());
        assert(Seq::<Bid>::empty().to_multiset() =~= Multiset::<Bid>::empty());
    }
    while i < input.len()
        invariant
            i <= input@.len(),
            input@ == full,
            forall|k: int| 0 <= k < input@.len() ==> bid_in_limits(#[trigger] input@[k]),
            out@.to_multiset() == full.take(i as int).to_multiset(),
            out@.len() == i,
            ranked(out@),
            forall|k: int| 0 <= k < out@.len() ==> bid_in_limits(#[trigger] out@[k]),
        decreases input@.len() - i,
    {
        let b = input[i];
        let mut j: usize = 0;
        while j < out.len() && ranks_before_exec(&out[j], &b)
            invariant
                j <= out@.len(),
                bid_in_limits(b),
                forall|k: int| 0 <= k < out@.len() ==> bid_in_limits(#[trigger] out@[k]),
                ranked(out@),
                forall|k: int| 0 <= k < j ==> ranks_before(#[trigger] out@[k], b),
            decreases out@.len() - j,
        {
            j += 1;
        }
        proof {
            if j < out@.len() {
                assert(ranks_before(b, out@[j as int])) by {
                    lemma_ranks_before_total(b, out@[j as int]);
                }
            }
        }
        let ghost pre = out@;
        out.insert(j, b);
        proof {
            broadcast use vstd::seq_lib::group_to_multiset_ensures;

            assert(out@ == pre.insert(j as int, b));
            lemma_insert_to_multiset(pre, j as int, b);
            assert(full.take(i as int + 1) =~= full.take(i as int).push(full[i as int]));
            assert(out@.to_multiset() =~= full.take(i as int + 1).to_multiset());
            pre.insert_ensures(j as int, b);
            assert forall|p: int, q: int| 0 <= p < q < out@.len()
                implies ranks_before(out@[p], out@[q]) by {
                if q < j {
                    assert(out@[p] == pre[p] && out@[q] == pre[q]);
                } else if q == j {
                    assert(out@[q] == b);
                    assert(out@[p] == pre[p]);
                } else {
                    assert(out@[q] == pre[q - 1]);
                    if p < j {
                        assert(out@[p] == pre[p]);
                        assert(ranks_before(pre[p], pre[q - 1]));
                    } else if p == j {
                        assert(out@[p] == b);
                        assert(ranks_before(b, pre[j as int]));
                        if q - 1 == j {
                            assert(ranks_before(b, pre[q - 1]));
                        } else {
                            assert(ranks_before(pre[j as int], pre[q - 1]));
                            lemma_ranks_before_trans(b, pre[j as int], pre[q - 1]);
                        }
                    } else {
                        assert(out@[p] == pre[p - 1]);
                        assert(ranks_before(pre[p - 1], pre[q - 1]));
                    }
                }
            }
        }
        i += 1;
    }
    proof {
        assert(full.take(full.len() as int) =~= full);
    }
    out
}

} // verus!
