//! The system scheduler: named work units with declared dependencies,
//! registered in order, sorted topologically at build time with cycle
//! detection, and executed in that order each tick against the
//! per-tick context.

use vstd::prelude::*;
use crate::connection::{ClientView, ViewMap};
use crate::graph::{
    eligible_at, first_eligible, is_valid_order, lists_dep, placed_before, schedulable,
    topological_order, wf_graph,
};
use crate::graph;
use crate::input::InputMap;
use crate::keyed::KeyedMap;

verus! {

/// Why building the scheduler failed, before any tick ran.
#[derive(Clone, Copy, PartialEq, Eq, Structural, Debug)]
pub enum SchedulerError {
    /// The declared dependencies form a cycle.
    GraphCycleDetected,
    /// A declared dependency names no registered system.
    UnknownDependency,
    /// Two systems were registered under one name.
    DuplicateSystemName,
}

/// The per-tick state threaded into every scheduled system: the
/// read-only input snapshot drained at the top of the tick, the
/// write-only view sink keyed by connection, and the tick's global
/// messages.
pub struct TickContext<E> {
    pub inputs: InputMap,
    pub views: ViewMap,
    pub messages: Vec<E>,
}

impl<E> TickContext<E> {
    pub open spec fn wf(self) -> bool {
        self.inputs.wf() && self.views.wf()
    }

    pub fn new(inputs: InputMap) -> (r: TickContext<E>)
        requires
            inputs.wf(),
        ensures
            r.wf(),
            r.inputs == inputs,
            r.views@ == Map::<Seq<char>, ClientView>::empty(),
            r.messages@ == Seq::<E>::empty(),
    {
        TickContext { inputs, views: KeyedMap::new(), messages: Vec::new() }
    }

    /// Record the view to deliver to a connection this tick. A view
    /// already recorded for the same connection is replaced: only the
    /// most recent survives.
    pub fn set_view(&mut self, key: String, view: ClientView)
        requires
            old(self).wf(),
        ensures
            final(self).wf(),
            final(self).views@ == old(self).views@.insert(key@, view),
            final(self).inputs == old(self).inputs,
            final(self).messages == old(self).messages,
    {
        self.views.insert(key, view);
    }

    /// Enqueue a global message for this tick.
    pub fn push_message(&mut self, message: E)
        requires
            old(self).wf(),
        ensures
            final(self).wf(),
            final(self).messages@ == old(self).messages@.push(message),
            final(self).inputs == old(self).inputs,
            final(self).views == old(self).views,
    {
        self.messages.push(message);
    }
}

/// Within one tick, recording a second view for the same connection
/// replaces the first: the sink keeps only the payload recorded
/// last, whatever was recorded before.
pub proof fn lemma_latest_view_wins(
    m: Map<Seq<char>, ClientView>,
    k: Seq<char>,
    v1: ClientView,
    v2: ClientView,
)
    ensures
        m.insert(k, v1).insert(k, v2) == m.insert(k, v2),
        m.insert(k, v2)[k] == v2,
{
    assert(m.insert(k, v1).insert(k, v2) =~= m.insert(k, v2));
}

/// One scheduled work unit, run each tick against the per-tick
/// context and its own state. An implementation must keep the
/// context well formed.
pub trait System<E> {
    fn run(&mut self, ctx: &mut TickContext<E>)
        requires
            old(ctx).wf(),
        ensures
            final(ctx).wf(),
    ;
}

/// A registered system's metadata: its unique name and the names of
/// the systems that must run before it.
pub struct SystemNode {
    pub name: String,
    pub deps: Vec<String>,
}

/// No two registered systems share a name.
pub open spec fn names_unique(metas: Seq<SystemNode>) -> bool {
    forall|i: int, j: int| 0 <= i < j < metas.len() ==> metas[i].name@ != metas[j].name@
}

/// Dependency `k` of system `i` names some registered system.
pub open spec fn dep_resolvable(metas: Seq<SystemNode>, i: int, k: int) -> bool {
    exists|t: int| 0 <= t < metas.len() && metas[t].name@ == metas[i].deps@[k]@
}

pub open spec fn all_deps_resolvable(metas: Seq<SystemNode>) -> bool {
    forall|i: int, k: int|
        0 <= i < metas.len() && 0 <= k < metas[i].deps@.len() ==> #[trigger] dep_resolvable(
            metas,
            i,
            k,
        )
}

/// The index of the system registered under `name`.
pub open spec fn resolve_index(metas: Seq<SystemNode>, name: Seq<char>) -> int {
    choose|t: int| 0 <= t < metas.len() && metas[t].name@ == name
}

/// The dependency graph the registered systems denote, dependencies
/// resolved from names to indices.
pub open spec fn spec_adj(metas: Seq<SystemNode>) -> Seq<Seq<usize>> {
    Seq::new(
        metas.len(),
        |i: int|
            Seq::new(
                metas[i].deps@.len(),
                |k: int| resolve_index(metas, metas[i].deps@[k]@) as usize,
            ),
    )
}

/// System `i` lists the name `d` among its dependencies.
pub open spec fn names_dep(metas: Seq<SystemNode>, i: int, d: Seq<char>) -> bool {
    exists|k: int| 0 <= k < metas[i].deps@.len() && metas[i].deps@[k]@ == d
}

/// The first registered system whose name matches.
fn index_of_name(metas: &Vec<SystemNode>, name: &String) -> (r: Option<usize>)
    ensures
        match r {
            Some(t) => t < metas@.len() && metas@[t as int].name@ == name@,
            None => forall|t: int| 0 <= t < metas@.len() ==> metas@[t].name@ != name@,
        },
{
    let mut t: usize = 0;
    while t < metas.len()
        invariant
            t <= metas@.len(),
            forall|t2: int| 0 <= t2 < t ==> metas@[t2].name@ != name@,
        decreases metas@.len() - t,
    {
        if metas[t].name == *name {
            return Some(t);
        }
        t = t + 1;
    }
    None
}

/// Collects systems, in registration order, before the scheduler is
/// built.
pub struct SystemExecutorBuilder<S> {
    pub systems: Vec<S>,
    pub metas: Vec<SystemNode>,
}

impl<S> SystemExecutorBuilder<S> {
    pub open spec fn wf(self) -> bool {
        self.systems@.len() == self.metas@.len()
    }

    pub fn new() -> (r: SystemExecutorBuilder<S>)
        ensures
            r.wf(),
            r.metas@.len() == 0,
    {
        SystemExecutorBuilder { systems: Vec::new(), metas: Vec::new() }
    }

    /// Register a system under a unique name, with the names of the
    /// systems it depends on. Registration order is the deterministic
    /// tie-break between systems the dependencies leave unordered.
    pub fn add_system(&mut self, system: S, name: &str, dep: &[&str])
        requires
            old(self).wf(),
        ensures
            final(self).wf(),
            final(self).systems@ == old(self).systems@.push(system),
            final(self).metas@.len() == old(self).metas@.len() + 1,
            final(self).metas@.subrange(0, old(self).metas@.len() as int) == old(self).metas@,
            final(self).metas@.last().name@ == name@,
            final(self).metas@.last().deps@.len() == dep@.len(),
            forall|k: int|
                0 <= k < dep@.len() ==> final(self).metas@.last().deps@[k]@ == #[trigger] dep@[k]@,
    {
        let mut deps: Vec<String> = Vec::new();
        let mut k: usize = 0;
        while k < dep.len()
            invariant
                k <= dep@.len(),
                deps@.len() == k,
                forall|k2: int| 0 <= k2 < k ==> deps@[k2]@ == #[trigger] dep@[k2]@,
            decreases dep@.len() - k,
        {
            deps.push(dep[k].to_owned());
            k = k + 1;
        }
        self.systems.push(system);
        self.metas.push(SystemNode { name: name.to_owned(), deps });
        proof {
            assert(self.metas@.subrange(0, old(self).metas@.len() as int) =~= old(self).metas@);
        }
    }

    /// Build the scheduler: refuse duplicate names, unresolvable
    /// dependency names, and dependency cycles; otherwise fix the
    /// execution order once, before any tick runs.
    pub fn build(self) -> (r: Result<SystemExecutor<S>, SchedulerError>)
        requires
            self.wf(),
        ensures
            r is Ok <==> names_unique(self.metas@) && all_deps_resolvable(self.metas@)
                && schedulable(spec_adj(self.metas@)),
            r matches Ok(ex) ==> ex.wf() && ex.systems@ == self.systems@ && ex.metas@
                == self.metas@,
            r == Result::<SystemExecutor<S>, SchedulerError>::Err(
                SchedulerError::DuplicateSystemName,
            ) <==> !names_unique(self.metas@),
            r == Result::<SystemExecutor<S>, SchedulerError>::Err(SchedulerError::UnknownDependency)
                <==> names_unique(self.metas@) && !all_deps_resolvable(self.metas@),
            r == Result::<SystemExecutor<S>, SchedulerError>::Err(
                SchedulerError::GraphCycleDetected,
            ) <==> names_unique(self.metas@) && all_deps_resolvable(self.metas@) && !schedulable(
                spec_adj(self.metas@),
            ),
    {
        let n = self.metas.len();
        // Unique names.
        let mut i: usize = 0;
        while i < n
            invariant
                n == self.metas@.len(),
                i <= n,
                forall|a: int, b: int|
                    0 <= a < b < n && a < i ==> (#[trigger] self.metas@[a].name@)
                        != (#[trigger] self.metas@[b].name@),
            decreases n - i,
        {
            let mut j: usize = i + 1;
            while j < n
                invariant
                    n == self.metas@.len(),
                    (i as int) < n,
                    i < j,
                    j <= n,
                    forall|a: int, b: int|
                        0 <= a < b < n && a < i ==> (#[trigger] self.metas@[a].name@)
                            != (#[trigger] self.metas@[b].name@),
                    forall|b: int|
                        i < b < j ==> self.metas@[i as int].name@ != (
                        #[trigger] self.metas@[b].name@),
                decreases n - j,
            {
                if self.metas[i].name == self.metas[j].name {
                    proof {
                        assert(!names_unique(self.metas@));
                    }
                    return Err(SchedulerError::DuplicateSystemName);
                }
                j = j + 1;
            }
            i = i + 1;
        }
        proof {
            assert(names_unique(self.metas@));
        }
        // Resolve dependency names to indices.
        let mut adj: Vec<Vec<usize>> = Vec::new();
        let mut i2: usize = 0;
        while i2 < n
            invariant
                n == self.metas@.len(),
                names_unique(self.metas@),
                i2 <= n,
                adj@.len() == i2,
                forall|a: int|
                    0 <= a < i2 ==> (#[trigger] adj@[a]@).len() == self.metas@[a].deps@.len(),
                forall|a: int, k: int|
                    #![auto]
                    0 <= a < i2 && 0 <= k < adj@[a]@.len() ==> (adj@[a]@[k] as int) < n
                        && self.metas@[adj@[a]@[k] as int].name@ == self.metas@[a].deps@[k]@,
            decreases n - i2,
        {
            let mut row: Vec<usize> = Vec::new();
            let deps_len = self.metas[i2].deps.len();
            let mut k: usize = 0;
            while k < deps_len
                invariant
                    n == self.metas@.len(),
                    names_unique(self.metas@),
                    (i2 as int) < n,
                    deps_len == self.metas@[i2 as int].deps@.len(),
                    k <= deps_len,
                    row@.len() == k,
                    forall|k2: int|
                        #![auto]
                        0 <= k2 < k ==> (row@[k2] as int) < n && self.metas@[row@[k2] as int].name@
                            == self.metas@[i2 as int].deps@[k2]@,
                decreases deps_len - k,
            {
                match index_of_name(&self.metas, &self.metas[i2].deps[k]) {
                    Some(t) => {
                        row.push(t);
                    },
                    None => {
                        proof {
                            assert(!dep_resolvable(self.metas@, i2 as int, k as int));
                        }
                        return Err(SchedulerError::UnknownDependency);
                    },
                }
                k = k + 1;
            }
            adj.push(row);
            i2 = i2 + 1;
        }
        proof {
            // Every dependency resolved, and to the one index its
            // name denotes under unique names.
            assert forall|a: int, k: int|
                #![auto]
                0 <= a < n && 0 <= k < adj@[a]@.len() implies dep_resolvable(self.metas@, a, k)
                && (adj@[a]@[k] as int) == resolve_index(
                self.metas@,
                self.metas@[a].deps@[k]@,
            ) by {
                let t = adj@[a]@[k] as int;
                assert(0 <= t < n && self.metas@[t].name@ == self.metas@[a].deps@[k]@);
                assert(dep_resolvable(self.metas@, a, k));
                let t2 = resolve_index(self.metas@, self.metas@[a].deps@[k]@);
                assert(0 <= t2 < n && self.metas@[t2].name@ == self.metas@[a].deps@[k]@);
                if t < t2 {
                    assert(self.metas@[t].name@ != self.metas@[t2].name@);
                }
                if t2 < t {
                    assert(self.metas@[t2].name@ != self.metas@[t].name@);
                }
            }
            assert(all_deps_resolvable(self.metas@)) by {
                assert(forall|a: int, k: int|
                    0 <= a < n && 0 <= k < self.metas@[a].deps@.len() ==> #[trigger] dep_resolvable(
                        self.metas@,
                        a,
                        k,
                    ));
            }
            assert(adj.deep_view() =~~= spec_adj(self.metas@)) by {
                assert forall|a: int| 0 <= a < n implies adj.deep_view()[a] =~= spec_adj(
                    self.metas@,
                )[a] by {
                    assert(adj.deep_view()[a] =~= adj@[a]@);
                }
            }
            assert(wf_graph(spec_adj(self.metas@))) by {
                assert forall|a: int, k: int|
                    0 <= a < spec_adj(self.metas@).len() && 0 <= k < spec_adj(self.metas@)[a].len()
                        implies (#[trigger] spec_adj(self.metas@)[a][k] as int) < spec_adj(
                    self.metas@,
                ).len() by {
                    assert(spec_adj(self.metas@)[a][k] == adj@[a]@[k]);
                }
            }
        }
        // Fix the execution order, or report the cycle.
        match topological_order(&adj) {
            Some(order) => Ok(SystemExecutor { systems: self.systems, metas: self.metas, order }),
            None => Err(SchedulerError::GraphCycleDetected),
        }
    }
}

/// Executes the registered systems in the dependency order fixed at
/// build time, with the registration-order tie-break.
pub struct SystemExecutor<S> {
    pub systems: Vec<S>,
    pub metas: Vec<SystemNode>,
    pub order: Vec<usize>,
}

impl<S> SystemExecutor<S> {
    pub open spec fn wf(self) -> bool {
        &&& names_unique(self.metas@)
        &&& all_deps_resolvable(self.metas@)
        &&& self.systems@.len() == self.metas@.len()
        &&& is_valid_order(spec_adj(self.metas@), self.order@)
        &&& first_eligible(spec_adj(self.metas@), self.order@)
    }

    /// Run every system once, in the fixed dependency order, against
    /// the per-tick context.
    pub fn run_tick<E>(&mut self, ctx: &mut TickContext<E>) where S: System<E>
        requires
            old(self).wf(),
            old(ctx).wf(),
        ensures
            final(self).wf(),
            final(self).metas == old(self).metas,
            final(self).order == old(self).order,
            final(ctx).wf(),
    {
        let mut p: usize = 0;
        while p < self.order.len()
            invariant
                self.wf(),
                ctx.wf(),
                self.metas == old(self).metas,
                self.order == old(self).order,
                p <= self.order@.len(),
            decreases self.order@.len() - p,
        {
            let idx = self.order[p];
            proof {
                assert(eligible_at(spec_adj(self.metas@), self.order@, p as int, idx));
            }
            self.systems[idx].run(ctx);
            p = p + 1;
        }
    }

    /// The execution order, as indices into registration order.
    pub fn execution_order(&self) -> (r: &Vec<usize>)
        ensures
            r == self.order,
    {
        &self.order
    }
}

/// Every declared dependency runs strictly before the system that
/// declares it: at any position of the execution order, each
/// dependency name of the system there belongs to a system at an
/// earlier position.
pub proof fn lemma_deps_run_first<S>(ex: SystemExecutor<S>, p: int, k: int)
    requires
        ex.wf(),
        0 <= p < ex.order@.len(),
        0 <= k < ex.metas@[ex.order@[p] as int].deps@.len(),
    ensures
        exists|q: int|
            0 <= q < p && ex.metas@[#[trigger] ex.order@[q] as int].name@ == ex.metas@[ex.order@[p] as int].deps@[k]@,
{
    let g = spec_adj(ex.metas@);
    let i = ex.order@[p];
    assert(eligible_at(g, ex.order@, p, i));
    assert(dep_resolvable(ex.metas@, i as int, k));
    let t2 = resolve_index(ex.metas@, ex.metas@[i as int].deps@[k]@);
    assert(0 <= t2 < ex.metas@.len() && ex.metas@[t2].name@ == ex.metas@[i as int].deps@[k]@);
    let d = g[i as int][k];
    assert(d == t2 as usize);
    assert(ex.metas@.len() <= usize::MAX) by {
        vstd::std_specs::vec::axiom_spec_len(&ex.metas);
    }
    assert(d as int == t2);
    assert(ex.metas@[d as int].name@ == ex.metas@[i as int].deps@[k]@);
    assert(placed_before(ex.order@, p, d));
    let q = choose|q: int| 0 <= q < p && ex.order@[q] == d;
    assert(ex.metas@[ex.order@[q] as int].name@ == ex.metas@[i as int].deps@[k]@);
}

/// Two systems whose declared dependency names form the same set run
/// in registration order: the one registered first runs first. This
/// is the deterministic tie-break between systems the dependencies
/// leave unordered.
pub proof fn lemma_registration_order_ties<S>(
    ex: SystemExecutor<S>,
    i: usize,
    j: usize,
    pi: int,
    pj: int,
)
    requires
        ex.wf(),
        (j as int) < ex.metas@.len(),
        i < j,
        forall|d: Seq<char>| names_dep(ex.metas@, i as int, d) <==> names_dep(ex.metas@, j as int, d),
        0 <= pi < ex.order@.len(),
        0 <= pj < ex.order@.len(),
        ex.order@[pi] == i,
        ex.order@[pj] == j,
    ensures
        pi < pj,
{
    let metas = ex.metas@;
    let g = spec_adj(metas);
    assert forall|d: usize| #[trigger] lists_dep(g, i, d) <==> #[trigger] lists_dep(g, j, d) by {
        if lists_dep(g, i, d) {
            let k = choose|k: int| 0 <= k < g[i as int].len() && g[i as int][k] == d;
            let nm = metas[i as int].deps@[k]@;
            assert(names_dep(metas, i as int, nm));
            assert(names_dep(metas, j as int, nm));
            let k2 = choose|k2: int| 0 <= k2 < metas[j as int].deps@.len() && metas[j as int].deps@[k2]@ == nm;
            assert(g[j as int][k2] == resolve_index(metas, nm) as usize);
            assert(g[i as int][k] == resolve_index(metas, nm) as usize);
            assert(lists_dep(g, j, d));
        }
        if lists_dep(g, j, d) {
            let k = choose|k: int| 0 <= k < g[j as int].len() && g[j as int][k] == d;
            let nm = metas[j as int].deps@[k]@;
            assert(names_dep(metas, j as int, nm));
            assert(names_dep(metas, i as int, nm));
            let k2 = choose|k2: int| 0 <= k2 < metas[i as int].deps@.len() && metas[i as int].deps@[k2]@ == nm;
            assert(g[i as int][k2] == resolve_index(metas, nm) as usize);
            assert(g[j as int][k] == resolve_index(metas, nm) as usize);
            assert(lists_dep(g, i, d));
        }
    }
    graph::lemma_equal_deps_registration_order(g, ex.order@, i, j, pi, pj);
}

} // verus!
