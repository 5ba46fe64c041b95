use vstd::prelude::*;

verus! {

/// The consumer topology, immutable and chosen once at startup.
#[derive(Clone, Copy, PartialEq, Eq, Structural, Debug)]
pub enum Topology {
    /// One arbitrage pipeline on a direct, unduplicated channel pair.
    Arb,
    /// One pump pipeline on a direct, unduplicated channel pair.
    Pump,
    /// One graduates pipeline on a direct, unduplicated channel pair.
    Graduates,
    /// A fan-out router feeding all three pipelines.
    Replicated,
}

/// One of the three detection strategies that consume the entry stream.
#[derive(Clone, Copy, PartialEq, Eq, Structural, Debug)]
pub enum StrategyKind {
    Arbitrage,
    Pump,
    Graduates,
}

/// The pipelines a topology runs, in the router's fixed duplicate-send
/// order: arbitrage, pump, graduates.
pub open spec fn spec_strategies(t: Topology) -> Seq<StrategyKind> {
    match t {
        Topology::Arb => seq![StrategyKind::Arbitrage],
        Topology::Pump => seq![StrategyKind::Pump],
        Topology::Graduates => seq![StrategyKind::Graduates],
        Topology::Replicated => seq![
            StrategyKind::Arbitrage,
            StrategyKind::Pump,
            StrategyKind::Graduates,
        ],
    }
}

/// Whether the topology interposes the fan-out router.
pub open spec fn spec_replicated(t: Topology) -> bool {
    t == Topology::Replicated
}

/// What the orchestrator constructs at startup for one topology.
pub struct Plan {
    /// Whether a router plus three pipelines is built, rather than one
    /// pipeline with a direct channel pair.
    pub replicated: bool,
    /// The pipelines to start, in fixed order.
    pub strategies: Vec<StrategyKind>,
    /// Whether the orchestrator awaits completion of the pipeline tasks:
    /// only the replicated topology joins; in a direct topology pipeline
    /// lifetime is tied to the process's own termination.
    pub await_join: bool,
}

/// The startup decision: which pipelines to construct for the selected
/// topology, whether the router stands between reconstruction and them, and
/// whether the orchestrator joins on their completion.
pub fn plan(t: Topology) -> (p: Plan)
    ensures
        p.replicated == spec_replicated(t),
        p.strategies@ == spec_strategies(t),
        p.await_join == spec_replicated(t),
        p.strategies@.len() == (if spec_replicated(t) {
            3int
        } else {
            1int
        }),
{
    let mut strategies: Vec<StrategyKind> = Vec::new();
    match t {
        Topology::Arb => {
            strategies.push(StrategyKind::Arbitrage);
        },
        Topology::Pump => {
            strategies.push(StrategyKind::Pump);
        },
        Topology::Graduates => {
            strategies.push(StrategyKind::Graduates);
        },
        Topology::Replicated => {
            strategies.push(StrategyKind::Arbitrage);
            strategies.push(StrategyKind::Pump);
            strategies.push(StrategyKind::Graduates);
        },
    }
    proof {
        assert(strategies@ =~= spec_strategies(t));
    }
    let replicated = matches!(t, Topology::Replicated);
    Plan { replicated, strategies, await_join: replicated }
}

/// Whether a pipeline must complete the one-time asynchronous pool-state
/// initialization before it begins draining its channel: only arbitrage
/// does.
pub fn needs_pool_init(s: StrategyKind) -> (r: bool)
    ensures
        r == (s == StrategyKind::Arbitrage),
{
    matches!(s, StrategyKind::Arbitrage)
}

} // verus!
