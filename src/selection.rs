use vstd::prelude::*;

verus! {

/// The ratings of a batch of (rating, agent) pairs, in batch order.
pub open spec fn ratings_of<A>(pairs: Seq<(i16, A)>) -> Seq<i16> {
    pairs.map_values(|p: (i16, A)| p.0)
}

/// Agent `i` ranks ahead of agent `j`: a higher rating, or an equal rating and a
/// later place in the batch.
pub open spec fn ranks_ahead(ratings: Seq<i16>, i: int, j: int) -> bool {
    ratings[i] > ratings[j] || (ratings[i] == ratings[j] && i > j)
}

/// `order` lists every position of `ratings` once, best ranked first.
pub open spec fn is_ranking(ratings: Seq<i16>, order: Seq<int>) -> bool {
    &&& order.len() == ratings.len()
    &&& forall|k: int| 0 <= k < order.len() ==> 0 <= #[trigger] order[k] < ratings.len()
    &&& forall|k: int, l: int|
        0 <= k < l < order.len() ==> ranks_ahead(ratings, #[trigger] order[k], #[trigger] order[l])
}

/// How many agents a selection of `retained` from a batch of `n` keeps.
pub open spec fn kept(n: nat, retained: nat) -> nat {
    if retained < n {
        retained
    } else {
        n
    }
}

/// The agents that a ranking `order` puts in its first `retained` places, best first.
pub open spec fn best_of<A>(pairs: Seq<(i16, A)>, order: Seq<int>, retained: nat) -> Seq<A> {
    order.take(kept(pairs.len(), retained) as int).map_values(|j: int| pairs[j].1)
}

/// A ranking lists ratings from highest to lowest.
pub proof fn lemma_ranking_descending(ratings: Seq<i16>, order: Seq<int>)
    requires
        is_ranking(ratings, order),
    ensures
        forall|k: int, l: int|
            0 <= k < l < order.len() ==> ratings[#[trigger] order[k]] >= ratings[#[trigger] order[l]],
{
}

/// Sorts a played batch by rating, best first, and keeps the first `retained` agents.
/// Agents with equal ratings come in the reverse of their batch order.
pub fn get_best_agents<A>(agents_with_elos: Vec<(i16, A)>, retained: usize) -> (r: Vec<A>)
    ensures
        exists|order: Seq<int>|
            is_ranking(ratings_of(agents_with_elos@), order) && r@ == best_of(
                agents_with_elos@,
                order,
                retained as nat,
            ),
{
    let ghost orig = agents_with_elos@;
    let ghost ratings = ratings_of(orig);
    let mut rest = agents_with_elos;
    let mut sorted: Vec<(i16, A)> = Vec::new();
    let ghost mut order: Seq<int> = Seq::empty();
    while rest.len() > 0
        invariant
            rest@ == orig.take(rest.len() as int),
            ratings == ratings_of(orig),
            sorted@.len() == order.len(),
            order.len() + rest.len() == orig.len(),
            forall|k: int| 0 <= k < order.len() ==> rest.len() <= #[trigger] order[k] < orig.len(),
            forall|k: int| 0 <= k < order.len() ==> #[trigger] sorted@[k] == orig[order[k]],
            forall|k: int, l: int|
                0 <= k < l < order.len() ==> ranks_ahead(ratings, #[trigger] order[k], #[trigger] order[l]),
        decreases rest.len(),
    {
        let item = rest.pop().unwrap();
        let ghost idx = rest.len() as int;
        assert(item == orig[idx]);
        let e = item.0;
        let mut pos: usize = 0;
        while pos < sorted.len() && sorted[pos].0 >= e
            invariant
                pos <= sorted@.len(),
                forall|k: int| 0 <= k < pos ==> (#[trigger] sorted@[k]).0 >= e,
            decreases sorted@.len() - pos,
        {
            pos = pos + 1;
        }
        proof {
            assert forall|k: int| 0 <= k < order.len() implies ratings[#[trigger] order[k]] == sorted@[k].0 by {
                assert(ratings[order[k]] == orig[order[k]].0);
            }
            assert(ratings[idx] == e);
            if pos < sorted@.len() {
                assert forall|l: int| pos <= l < order.len() implies ratings[#[trigger] order[l]] < e by {
                    if l > pos {
                        assert(ranks_ahead(ratings, order[pos as int], order[l]));
                    }
                }
            }
        }
        sorted.insert(pos, item);
        proof {
            order = order.insert(pos as int, idx);
        }
    }
    proof {
        assert forall|k: int, l: int| 0 <= k < l < order.len() && order[k] == order[l] implies false by {
            assert(ranks_ahead(ratings, order[k], order[l]));
        }
    }
    let ghost full = sorted@;
    let m = if retained < sorted.len() { retained } else { sorted.len() };
    let mut best: Vec<A> = Vec::new();
    while sorted.len() > 0
        invariant
            sorted@ =~= full.take(sorted.len() as int),
            m <= full.len(),
            sorted.len() <= full.len(),
            sorted.len() >= m ==> best@.len() == 0,
            sorted.len() < m ==> best@ =~= full.subrange(sorted.len() as int, m as int).map_values(
                |p: (i16, A)| p.1,
            ),
        decreases sorted.len(),
    {
        let item = sorted.pop().unwrap();
        if sorted.len() < m {
            best.insert(0, item.1);
        }
    }
    assert(best@ =~= best_of(orig, order, retained as nat));
    best
}

} // verus!
