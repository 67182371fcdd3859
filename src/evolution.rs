use vstd::prelude::*;

use crate::config::Config;
use crate::selection::{best_of, get_best_agents, is_ranking, kept, ratings_of};

verus! {

/// How many agents a generation bred from `parents` survivors holds: each survivor's
/// children, padded with fresh agents up to `num_agents`.
pub open spec fn generation_size(parents: nat, children_per: nat, num_agents: nat) -> nat {
    if parents * children_per < num_agents {
        num_agents
    } else {
        parents * children_per
    }
}

/// `next` is a generation bred from `parents`: first `children_per` children of each
/// parent in turn, each made by `child_of`, then fresh agents made by `fresh_agent`
/// up to `num_agents`.
pub open spec fn is_bred_from<A, C: Fn(&A) -> A, R: Fn() -> A>(
    parents: Seq<A>,
    next: Seq<A>,
    children_per: nat,
    num_agents: nat,
    child_of: C,
    fresh_agent: R,
) -> bool {
    &&& next.len() == generation_size(parents.len(), children_per, num_agents)
    &&& forall|i: int|
        0 <= i < parents.len() * children_per ==> child_of.ensures(
            (&parents[i / children_per as int],),
            #[trigger] next[i],
        )
    &&& forall|i: int|
        parents.len() * children_per <= i < next.len() ==> fresh_agent.ensures(
            (),
            #[trigger] next[i],
        )
}

/// A generation always holds exactly `num_agents` agents when the survivors' children
/// alone do not outnumber it.
pub proof fn lemma_backfill_exact(parents: nat, children_per: nat, num_agents: nat)
    requires
        parents * children_per <= num_agents,
    ensures
        generation_size(parents, children_per, num_agents) == num_agents,
{
}

/// Breeds the next generation: `children_per` children of each of `previous_best`,
/// in order, then fresh agents until the generation holds `num_agents`.
pub fn mutate<A, C: Fn(&A) -> A, R: Fn() -> A>(
    previous_best: Vec<A>,
    children_per: usize,
    num_agents: usize,
    child_of: C,
    fresh_agent: R,
) -> (r: Vec<A>)
    requires
        previous_best@.len() * children_per <= usize::MAX,
        forall|a: &A| #[trigger] child_of.requires((a,)),
        fresh_agent.requires(()),
    ensures
        is_bred_from(previous_best@, r@, children_per as nat, num_agents as nat, child_of, fresh_agent),
{
    let n = previous_best.len();
    let c = children_per;
    let mut next: Vec<A> = Vec::new();
    let mut p: usize = 0;
    while p < n
        invariant
            p <= n,
            n == previous_best@.len(),
            n * c <= usize::MAX,
            next@.len() == p * c,
            forall|a: &A| #[trigger] child_of.requires((a,)),
            forall|i: int|
                0 <= i < next@.len() ==> child_of.ensures(
                    (&previous_best@[i / c as int],),
                    #[trigger] next@[i],
                ),
        decreases n - p,
    {
        proof {
            assert(p * c + c <= n * c) by (nonlinear_arith)
                requires
                    p < n,
            ;
        }
        let mut j: usize = 0;
        while j < c
            invariant
                p < n,
                j <= c,
                n == previous_best@.len(),
                p * c + c <= n * c,
                n * c <= usize::MAX,
                next@.len() == p * c + j,
                forall|a: &A| #[trigger] child_of.requires((a,)),
                forall|i: int|
                    0 <= i < next@.len() ==> child_of.ensures(
                        (&previous_best@[i / c as int],),
                        #[trigger] next@[i],
                    ),
            decreases c - j,
        {
            let child = child_of(&previous_best[p]);
            proof {
                assert((p * c + j) / (c as int) == p) by (nonlinear_arith)
                    requires
                        j < c,
                ;
            }
            next.push(child);
            j = j + 1;
        }
        proof {
            assert((p + 1) * c == p * c + c) by (nonlinear_arith);
        }
        p = p + 1;
    }
    let ghost bred = next@.len();
    while next.len() < num_agents
        invariant
            bred == n * c,
            next@.len() >= bred,
            next@.len() <= num_agents || next@.len() == bred,
            fresh_agent.requires(()),
            forall|i: int|
                0 <= i < bred ==> child_of.ensures(
                    (&previous_best@[i / c as int],),
                    #[trigger] next@[i],
                ),
            forall|i: int| bred <= i < next@.len() ==> fresh_agent.ensures((), #[trigger] next@[i]),
        decreases num_agents - next@.len(),
    {
        let agent = fresh_agent();
        next.push(agent);
    }
    next
}

/// The agents that start a run: the given population where there is one, else
/// `num_agents` fresh agents.
pub fn seed_agents<A, R: Fn() -> A>(initial: Option<Vec<A>>, num_agents: usize, fresh_agent: R) -> (r: Vec<A>)
    requires
        fresh_agent.requires(()),
    ensures
        match initial {
            Some(v) => r@ == v@,
            None => r@.len() == num_agents && forall|i: int|
                0 <= i < r@.len() ==> fresh_agent.ensures((), #[trigger] r@[i]),
        },
{
    match initial {
        Some(v) => v,
        None => {
            let mut agents: Vec<A> = Vec::new();
            while agents.len() < num_agents
                invariant
                    agents@.len() <= num_agents,
                    fresh_agent.requires(()),
                    forall|i: int|
                        0 <= i < agents@.len() ==> fresh_agent.ensures((), #[trigger] agents@[i]),
                decreases num_agents - agents@.len(),
            {
                let agent = fresh_agent();
                agents.push(agent);
            }
            agents
        },
    }
}

/// One generation of agents, numbered from the start of the run.
pub struct Batch<A> {
    pub agents: Vec<A>,
    pub batch_num: u32,
}

/// Whether the run goes on to play generation `batch_num` out of `num_batches`.
pub fn batch_remains(batch_num: u32, num_batches: usize) -> (r: bool)
    ensures
        r == (batch_num as int <= num_batches as int),
{
    (batch_num as u64) <= (num_batches as u64)
}

/// From the ratings a played generation earned, selects its best agents and breeds
/// the next generation from them, numbered one higher.
pub fn run_one_batch<A, C: Fn(&A) -> A, R: Fn() -> A>(
    played: Vec<(i16, A)>,
    batch_num: u32,
    config: &Config,
    child_of: C,
    fresh_agent: R,
) -> (r: Batch<A>)
    requires
        batch_num < u32::MAX,
        config.num_agents_retained * config.num_children_per_retained_agent <= usize::MAX,
        forall|a: &A| #[trigger] child_of.requires((a,)),
        fresh_agent.requires(()),
    ensures
        r.batch_num == batch_num + 1,
        exists|order: Seq<int>|
            is_ranking(ratings_of(played@), order) && is_bred_from(
                best_of(played@, order, config.num_agents_retained as nat),
                r.agents@,
                config.num_children_per_retained_agent as nat,
                config.num_agents as nat,
                child_of,
                fresh_agent,
            ),
{
    let ghost pairs = played@;
    let best = get_best_agents(played, config.num_agents_retained);
    let ghost order = choose|order: Seq<int>|
        is_ranking(ratings_of(pairs), order) && best@ == best_of(
            pairs,
            order,
            config.num_agents_retained as nat,
        );
    proof {
        let k = kept(pairs.len(), config.num_agents_retained as nat);
        assert(k * config.num_children_per_retained_agent <= config.num_agents_retained
            * config.num_children_per_retained_agent) by (nonlinear_arith)
            requires
                k <= config.num_agents_retained,
        ;
    }
    let agents = mutate(
        best,
        config.num_children_per_retained_agent,
        config.num_agents,
        child_of,
        fresh_agent,
    );
    Batch { agents, batch_num: batch_num + 1 }
}

} // verus!
