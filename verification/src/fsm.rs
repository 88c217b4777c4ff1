//! The immutable read model of a successfully built FSM.
//!
//! A [`ParsedFsm`] owns the node forest produced by the builder after
//! validation and deepest-enter linking. Its type invariant records the
//! semantic guarantees of `build`: a well-formed forest, exactly one root
//! enter state, and fully resolved deepest-enter links.

use vstd::prelude::*;

use crate::builder::NodeV;
use crate::builder::StateData;
use crate::builder::TransV;
use crate::builder::nodes_v;
use crate::types::Action;
use crate::types::Event;
use crate::types::StateType;
use crate::scoped_arena::ArenaNode;
use crate::text::str_eq;
use crate::validation::FsmV;
use crate::validation::all_transitions;
use crate::validation::all_transitions_up_to;
use crate::validation::fsm_v_wf;
use crate::validation::lemma_sdeepest_enter_in_range;
use crate::validation::lemma_up_to_prefix;

verus! {

/// A validated, immutable FSM model.
#[derive(Debug)]
pub struct ParsedFsm {
    name: String,
    enter_state: usize,
    nodes: Vec<ArenaNode<StateData>>,
}

impl View for ParsedFsm {
    type V = FsmV;

    closed spec fn view(&self) -> FsmV {
        FsmV {
            name: self.name@,
            enter: self.enter_state as int,
            nodes: nodes_v(self.nodes@),
        }
    }
}

impl ParsedFsm {
    /// Every `ParsedFsm` satisfies the build invariants.
    #[verifier::type_invariant]
    spec fn type_inv(&self) -> bool {
        fsm_v_wf(self@)
    }

    pub(crate) fn new(name: String, enter_state: usize, nodes: Vec<ArenaNode<StateData>>) -> (r: Self)
        requires
            fsm_v_wf(
                FsmV { name: name@, enter: enter_state as int, nodes: nodes_v(nodes@) },
            ),
        ensures
            r@ == (FsmV { name: name@, enter: enter_state as int, nodes: nodes_v(nodes@) }),
    {
        ParsedFsm { name, enter_state, nodes }
    }
}

/// Ghost model of a state handle: the id of the node it points at, inside
/// the ghost model of its FSM.
#[verifier::ext_equal]
pub struct StateV {
    pub id: int,
    pub fsm: FsmV,
}

/// A read-only handle to one state of a [`ParsedFsm`].
#[derive(Debug, Clone, Copy)]
pub struct State<'a> {
    id: usize,
    fsm: &'a ParsedFsm,
}

impl<'a> View for State<'a> {
    type V = StateV;

    closed spec fn view(&self) -> StateV {
        StateV { id: self.id as int, fsm: self.fsm@ }
    }
}

/// One transition of the read model: resolved state handles plus borrowed
/// event, action and guard values.
#[derive(Clone, Copy)]
pub struct Transition<'a> {
    pub source: State<'a>,
    pub destination: State<'a>,
    pub event: &'a Event,
    pub action: Option<&'a Action>,
    pub guard: Option<&'a Action>,
}

/// The view of an optional borrowed named value.
pub open spec fn opt_ref_name_v(o: Option<&Action>) -> Option<Seq<char>> {
    match o {
        Some(a) => Some(a@),
        None => None,
    }
}

/// The read-model transition `t` renders the ghost transition `tv` of the
/// FsmV `f`.
pub open spec fn trans_matches(t: Transition<'_>, f: FsmV, tv: TransV) -> bool {
    &&& t.source@.fsm == f
    &&& t.source@.id == tv.source
    &&& t.destination@.fsm == f
    &&& t.destination@.id == tv.dest
    &&& t.event@ == tv.event
    &&& opt_ref_name_v(t.action) == tv.action
    &&& opt_ref_name_v(t.guard) == tv.guard
}

/// The indices at or after `from` whose parent link equals `p`, in order.
pub open spec fn v_child_indices_from(nodes: Seq<NodeV>, p: Option<int>, from: int) -> Seq<int>
    decreases nodes.len() - from,
{
    if from < 0 || from >= nodes.len() {
        Seq::empty()
    } else if nodes[from].parent == p {
        seq![from] + v_child_indices_from(nodes, p, from + 1)
    } else {
        v_child_indices_from(nodes, p, from + 1)
    }
}

impl ParsedFsm {
    /// The diagram name.
    pub fn name(&self) -> (r: &str)
        ensures
            r@ == self@.name,
    {
        self.name.as_str()
    }

    /// The fully resolved root enter state.
    pub fn enter_state<'a>(&'a self) -> (r: State<'a>)
        ensures
            r@.fsm == self@,
            r@.id == self@.enter,
    {
        proof {
            use_type_invariant(self);
        }
        State { id: self.enter_state, fsm: self }
    }

    /// Every state, in node order.
    pub fn states<'a>(&'a self) -> (r: Vec<State<'a>>)
        ensures
            r@.len() == self@.nodes.len(),
            forall|k: int|
                0 <= k < r@.len() ==> (#[trigger] r@[k])@.fsm == self@ && r@[k]@.id == k,
    {
        proof {
            use_type_invariant(self);
        }
        let n = self.nodes.len();
        let mut r: Vec<State<'a>> = Vec::new();
        let mut i: usize = 0;
        while i < n
            invariant
                n == self@.nodes.len(),
                i <= n,
                r@.len() == i,
                forall|k: int|
                    0 <= k < i ==> (#[trigger] r@[k])@.fsm == self@ && r@[k]@.id == k,
            decreases n - i,
        {
            r.push(State { id: i, fsm: self });
            i += 1;
        }
        r
    }

    /// Every transition, flattened in node order.
    pub fn transitions<'a>(&'a self) -> (r: Vec<Transition<'a>>)
        ensures
            r@.len() == all_transitions(self@.nodes).len(),
            forall|k: int|
                0 <= k < r@.len() ==> trans_matches(
                    #[trigger] r@[k],
                    self@,
                    all_transitions(self@.nodes)[k],
                ),
    {
        proof {
            use_type_invariant(self);
        }
        let ghost ats = all_transitions(self@.nodes);
        let n = self.nodes.len();
        let mut r: Vec<Transition<'a>> = Vec::new();
        let mut j: usize = 0;
        while j < n
            invariant
                fsm_v_wf(self@),
                ats == all_transitions(self@.nodes),
                n == self@.nodes.len(),
                j <= n,
                r@.len() == all_transitions_up_to(self@.nodes, j as int).len(),
                r@.len() <= ats.len(),
                forall|k: int|
                    0 <= k < r@.len() ==> trans_matches(#[trigger] r@[k], self@, ats[k]),
            decreases n - j,
        {
            let ghost base = all_transitions_up_to(self@.nodes, j as int).len() as int;
            proof {
                assert(all_transitions_up_to(self@.nodes, j as int + 1) == all_transitions_up_to(
                    self@.nodes,
                    j as int,
                ) + self@.nodes[j as int].transitions);
                lemma_up_to_prefix(self@.nodes, j as int + 1, n as int);
            }
            let m = self.nodes[j].data.transitions.len();
            let mut k: usize = 0;
            while k < m
                invariant
                    fsm_v_wf(self@),
                    ats == all_transitions(self@.nodes),
                    n == self@.nodes.len(),
                    j < n,
                    m == self@.nodes[j as int].transitions.len(),
                    k <= m,
                    base == all_transitions_up_to(self@.nodes, j as int).len(),
                    base + m == all_transitions_up_to(self@.nodes, j as int + 1).len(),
                    base + m <= ats.len(),
                    r@.len() == base + k,
                    forall|k2: int|
                        0 <= k2 < m ==> #[trigger] ats[base + k2] == self@.nodes[
                            j as int
                        ].transitions[k2],
                    forall|k2: int|
                        0 <= k2 < r@.len() ==> trans_matches(#[trigger] r@[k2], self@, ats[k2]),
                decreases m - k,
            {
                let t = &self.nodes[j].data.transitions[k];
                proof {
                    assert(self@.nodes[j as int].transitions[k as int] == t@);
                }
                let tr = Transition {
                    source: State { id: t.source, fsm: self },
                    destination: State { id: t.destination, fsm: self },
                    event: &t.event,
                    action: match &t.action {
                        Some(a) => Some(a),
                        None => None,
                    },
                    guard: match &t.guard {
                        Some(g) => Some(g),
                        None => None,
                    },
                };
                proof {
                    assert(ats[base + k as int] == self@.nodes[j as int].transitions[k as int]);
                    assert(trans_matches(tr, self@, ats[base + k as int]));
                }
                r.push(tr);
                k += 1;
            }
            j += 1;
        }
        r
    }
}

impl<'a> State<'a> {
    /// A state handle always points at a node of its FSM.
    #[verifier::type_invariant]
    spec fn type_inv(&self) -> bool {
        0 <= self@.id < self@.fsm.nodes.len()
    }

    /// The ghost node this handle points at.
    pub open spec fn node(&self) -> NodeV {
        self@.fsm.nodes[self@.id]
    }

    /// The state's name.
    pub fn name(&self) -> (r: &'a str)
        ensures
            r@ == self.node().name,
    {
        proof {
            use_type_invariant(self);
        }
        self.fsm.nodes[self.id].data.name.as_str()
    }

    /// The state's type.
    pub fn state_type(&self) -> (r: StateType)
        ensures
            r == self.node().state_type,
    {
        proof {
            use_type_invariant(self);
        }
        self.fsm.nodes[self.id].data.state_type
    }

    /// The state's enter action, if any.
    pub fn enter_action(&self) -> (r: Option<&'a Action>)
        ensures
            opt_ref_name_v(r) == self.node().enter_action,
    {
        proof {
            use_type_invariant(self);
        }
        match &self.fsm.nodes[self.id].data.enter_action {
            Some(a) => Some(a),
            None => None,
        }
    }

    /// The state's exit action, if any.
    pub fn exit_action(&self) -> (r: Option<&'a Action>)
        ensures
            opt_ref_name_v(r) == self.node().exit_action,
    {
        proof {
            use_type_invariant(self);
        }
        match &self.fsm.nodes[self.id].data.exit_action {
            Some(a) => Some(a),
            None => None,
        }
    }

    /// The state's outgoing transitions, in declaration order.
    pub fn transitions(&self) -> (r: Vec<Transition<'a>>)
        ensures
            r@.len() == self.node().transitions.len(),
            forall|k: int|
                0 <= k < r@.len() ==> trans_matches(
                    #[trigger] r@[k],
                    self@.fsm,
                    self.node().transitions[k],
                ),
    {
        proof {
            use_type_invariant(self);
            use_type_invariant(self.fsm);
        }
        let m = self.fsm.nodes[self.id].data.transitions.len();
        let mut r: Vec<Transition<'a>> = Vec::new();
        let mut k: usize = 0;
        while k < m
            invariant
                fsm_v_wf(self@.fsm),
                0 <= self@.id < self@.fsm.nodes.len(),
                self@.fsm == self.fsm@,
                self@.id == self.id as int,
                m == self.node().transitions.len(),
                k <= m,
                r@.len() == k,
                forall|k2: int|
                    0 <= k2 < k ==> trans_matches(
                        #[trigger] r@[k2],
                        self@.fsm,
                        self.node().transitions[k2],
                    ),
            decreases m - k,
        {
            let t = &self.fsm.nodes[self.id].data.transitions[k];
            proof {
                assert(self.node().transitions[k as int] == t@);
            }
            let tr = Transition {
                source: State { id: t.source, fsm: self.fsm },
                destination: State { id: t.destination, fsm: self.fsm },
                event: &t.event,
                action: match &t.action {
                    Some(a) => Some(a),
                    None => None,
                },
                guard: match &t.guard {
                    Some(g) => Some(g),
                    None => None,
                },
            };
            r.push(tr);
            k += 1;
        }
        r
    }

    /// The state's parent, if it is nested in a composite state.
    pub fn parent(&self) -> (r: Option<State<'a>>)
        ensures
            r is Some <==> self.node().parent is Some,
            r matches Some(p) ==> p@.fsm == self@.fsm && Some(p@.id) == self.node().parent,
    {
        proof {
            use_type_invariant(self);
            use_type_invariant(self.fsm);
        }
        match self.fsm.nodes[self.id].parent {
            Some(p) => Some(State { id: p, fsm: self.fsm }),
            None => None,
        }
    }

    /// The state's direct substates, in declaration order.
    pub fn substates(&self) -> (r: Vec<State<'a>>)
        ensures
            r@.map_values(|s: State<'a>| s@.id) == v_child_indices_from(
                self@.fsm.nodes,
                Some(self@.id),
                0,
            ),
            forall|k: int| 0 <= k < r@.len() ==> (#[trigger] r@[k])@.fsm == self@.fsm,
    {
        proof {
            use_type_invariant(self);
            use_type_invariant(self.fsm);
        }
        let n = self.fsm.nodes.len();
        let mut r: Vec<State<'a>> = Vec::new();
        let mut j: usize = 0;
        while j < n
            invariant
                fsm_v_wf(self@.fsm),
                0 <= self@.id < self@.fsm.nodes.len(),
                self@.fsm == self.fsm@,
                self@.id == self.id as int,
                n == self@.fsm.nodes.len(),
                j <= n,
                r@.map_values(|s: State<'a>| s@.id) + v_child_indices_from(
                    self@.fsm.nodes,
                    Some(self@.id),
                    j as int,
                ) =~= v_child_indices_from(self@.fsm.nodes, Some(self@.id), 0),
                forall|k: int| 0 <= k < r@.len() ==> (#[trigger] r@[k])@.fsm == self@.fsm,
            decreases n - j,
        {
            let is_child = match self.fsm.nodes[j].parent {
                Some(p) => p == self.id,
                None => false,
            };
            if is_child {
                let ghost r_old = r@;
                r.push(State { id: j, fsm: self.fsm });
                proof {
                    assert(r@.map_values(|s: State<'a>| s@.id) =~= r_old.map_values(
                        |s: State<'a>| s@.id,
                    ).push(j as int));
                }
            }
            j += 1;
        }
        r
    }

    /// The precomputed deepest-enter target of this state.
    pub fn enter_state(&self) -> (r: State<'a>)
        ensures
            r@.fsm == self@.fsm,
            Some(r@.id) == self.node().enter_state,
    {
        proof {
            use_type_invariant(self);
            use_type_invariant(self.fsm);
        }
        match self.fsm.nodes[self.id].data.enter_state {
            Some(e) => {
                proof {
                    lemma_sdeepest_enter_in_range(self@.fsm.nodes, self@.id);
                }
                State { id: e, fsm: self.fsm }
            },
            None => {
                proof {
                    assert(false);
                }
                State { id: self.id, fsm: self.fsm }
            },
        }
    }
}

/// Keep-first deduplication: an element is kept exactly when it does not
/// occur earlier, so the result lists first occurrences in order.
pub open spec fn dedup_seq<T>(s: Seq<T>) -> Seq<T>
    decreases s.len(),
{
    if s.len() == 0 {
        Seq::empty()
    } else {
        let prefix = dedup_seq(s.drop_last());
        if s.drop_last().contains(s.last()) {
            prefix
        } else {
            prefix.push(s.last())
        }
    }
}

/// Deduplication preserves membership.
pub proof fn lemma_dedup_contains<T>(s: Seq<T>, x: T)
    ensures
        dedup_seq(s).contains(x) <==> s.contains(x),
    decreases s.len(),
{
    if s.len() == 0 {
        assert(!s.contains(x));
        assert(!dedup_seq(s).contains(x));
    } else {
        let prefix = s.drop_last();
        lemma_dedup_contains(prefix, x);
        assert(s.contains(x) <==> prefix.contains(x) || s.last() == x) by {
            if s.contains(x) {
                let i = choose|i: int| 0 <= i < s.len() && s[i] == x;
                if i < s.len() - 1 {
                    assert(prefix[i] == x);
                }
            }
            if prefix.contains(x) {
                let i = choose|i: int| 0 <= i < prefix.len() && prefix[i] == x;
                assert(s[i] == x);
            }
            if s.last() == x {
                assert(s[s.len() - 1] == x);
            }
        }
        if prefix.contains(s.last()) {
            assert(dedup_seq(s) == dedup_seq(prefix));
        } else {
            assert(dedup_seq(s) == dedup_seq(prefix).push(s.last()));
            assert forall|y: T| dedup_seq(s).contains(y) implies dedup_seq(prefix).contains(y)
                || s.last() == y by {
                let i = choose|i: int| 0 <= i < dedup_seq(s).len() && dedup_seq(s)[i] == y;
                if i < dedup_seq(s).len() - 1 {
                    assert(dedup_seq(prefix)[i] == y);
                }
            }
            if dedup_seq(prefix).contains(x) || s.last() == x {
                if s.last() == x {
                    assert(dedup_seq(s)[dedup_seq(s).len() - 1] == x);
                } else {
                    let i = choose|i: int|
                        0 <= i < dedup_seq(prefix).len() && dedup_seq(prefix)[i] == x;
                    assert(dedup_seq(s)[i] == x);
                }
            }
        }
    }
}

/// Equality of two state handles: same name, same type, and recursively
/// equal parents. Out-of-range ids (which no real handle carries) compare
/// unequal.
pub open spec fn sstate_eq(fa: FsmV, ia: int, fb: FsmV, ib: int) -> bool
    decreases ia,
{
    if ia < 0 || ia >= fa.nodes.len() || ib < 0 || ib >= fb.nodes.len() {
        false
    } else {
        let na = fa.nodes[ia];
        let nb = fb.nodes[ib];
        &&& na.name == nb.name
        &&& na.state_type == nb.state_type
        &&& match (na.parent, nb.parent) {
            (Option::None, Option::None) => true,
            (Option::Some(pa), Option::Some(pb)) => if 0 <= pa < ia {
                sstate_eq(fa, pa, fb, pb)
            } else {
                false
            },
            _ => false,
        }
    }
}

impl<'a> PartialEq for State<'a> {
    /// Structural equality by name, type and parent chain.
    fn eq(&self, other: &Self) -> (r: bool)
        decreases self@.id,
    {
        proof {
            use_type_invariant(self);
            use_type_invariant(other);
            use_type_invariant(self.fsm);
            use_type_invariant(other.fsm);
        }
        let same_here = str_eq(
            self.fsm.nodes[self.id].data.name.as_str(),
            other.fsm.nodes[other.id].data.name.as_str(),
        ) && self.fsm.nodes[self.id].data.state_type == other.fsm.nodes[other.id].data.state_type;
        if !same_here {
            return false;
        }
        match (self.fsm.nodes[self.id].parent, other.fsm.nodes[other.id].parent) {
            (Option::None, Option::None) => true,
            (Option::Some(pa), Option::Some(pb)) => {
                proof {
                    assert(self@.fsm.nodes[self@.id].parent == Some(pa as int));
                    assert(other@.fsm.nodes[other@.id].parent == Some(pb as int));
                    assert((pa as int) < self@.id);
                    assert((pb as int) < other@.id);
                }
                let a = State { id: pa, fsm: self.fsm };
                let b = State { id: pb, fsm: other.fsm };
                a == b
            },
            _ => false,
        }
    }
}

impl<'a> vstd::std_specs::cmp::PartialEqSpecImpl for State<'a> {
    open spec fn obeys_eq_spec() -> bool {
        true
    }

    open spec fn eq_spec(&self, other: &Self) -> bool {
        sstate_eq(self@.fsm, self@.id, other@.fsm, other@.id)
    }
}

/// Whether some node of `b` carries the given name and type.
pub open spec fn has_matching_state(b: Seq<NodeV>, name: Seq<char>, ty: StateType) -> bool {
    exists|j: int| 0 <= j < b.len() && (#[trigger] b[j]).name == name && b[j].state_type == ty
}

/// Whether every state of `a` has a state of `b` with the same name and
/// type.
pub open spec fn states_covered(a: FsmV, b: FsmV) -> bool {
    forall|i: int|
        0 <= i < a.nodes.len() ==> has_matching_state(
            b.nodes,
            (#[trigger] a.nodes[i]).name,
            a.nodes[i].state_type,
        )
}

/// The key under which two transitions compare: destination name, event and
/// optional action.
pub open spec fn trans_key_eq(a: FsmV, t: TransV, b: FsmV, u: TransV) -> bool {
    &&& 0 <= t.dest < a.nodes.len() && 0 <= u.dest < b.nodes.len()
    &&& a.nodes[t.dest].name == b.nodes[u.dest].name
    &&& t.event == u.event
    &&& t.action == u.action
}

/// Whether some transition of `b` carries the same key as `t`.
pub open spec fn has_matching_trans(a: FsmV, t: TransV, b: FsmV) -> bool {
    exists|q: int|
        0 <= q < all_transitions(b.nodes).len() && trans_key_eq(
            a,
            t,
            b,
            #[trigger] all_transitions(b.nodes)[q],
        )
}

/// Whether every transition of `a` has a transition of `b` with the same
/// key.
pub open spec fn trans_covered(a: FsmV, b: FsmV) -> bool {
    forall|p: int|
        0 <= p < all_transitions(a.nodes).len() ==> has_matching_trans(
            a,
            #[trigger] all_transitions(a.nodes)[p],
            b,
        )
}

/// Equality of two parsed FSMs: equal names, root enter states that agree
/// in name and type, equal state sets (by name and type), and equal
/// transition sets (by destination name, event and action), each
/// independent of declaration order.
pub open spec fn sfsm_eq(a: FsmV, b: FsmV) -> bool {
    &&& a.name == b.name
    &&& 0 <= a.enter < a.nodes.len() && 0 <= b.enter < b.nodes.len()
    &&& a.nodes[a.enter].name == b.nodes[b.enter].name
    &&& a.nodes[a.enter].state_type == b.nodes[b.enter].state_type
    &&& states_covered(a, b) && states_covered(b, a)
    &&& trans_covered(a, b) && trans_covered(b, a)
}

fn states_covered_exec(x: &ParsedFsm, y: &ParsedFsm) -> (r: bool)
    ensures
        r == states_covered(x@, y@),
{
    let xs = x.states();
    let ys = y.states();
    let n = xs.len();
    let m = ys.len();
    let mut i: usize = 0;
    while i < n
        invariant
            n == x@.nodes.len(),
            m == y@.nodes.len(),
            xs@.len() == n,
            ys@.len() == m,
            forall|k: int| 0 <= k < n ==> (#[trigger] xs@[k])@.fsm == x@ && xs@[k]@.id == k,
            forall|k: int| 0 <= k < m ==> (#[trigger] ys@[k])@.fsm == y@ && ys@[k]@.id == k,
            i <= n,
            forall|i2: int|
                0 <= i2 < i ==> has_matching_state(
                    y@.nodes,
                    (#[trigger] x@.nodes[i2]).name,
                    x@.nodes[i2].state_type,
                ),
        decreases n - i,
    {
        let mut found = false;
        let mut j: usize = 0;
        while j < m
            invariant
                n == x@.nodes.len(),
                m == y@.nodes.len(),
                xs@.len() == n,
                ys@.len() == m,
                i < n,
                forall|k: int| 0 <= k < n ==> (#[trigger] xs@[k])@.fsm == x@ && xs@[k]@.id == k,
                forall|k: int| 0 <= k < m ==> (#[trigger] ys@[k])@.fsm == y@ && ys@[k]@.id == k,
                j <= m,
                found ==> has_matching_state(
                    y@.nodes,
                    x@.nodes[i as int].name,
                    x@.nodes[i as int].state_type,
                ),
                !found ==> forall|j2: int|
                    0 <= j2 < j ==> !((#[trigger] y@.nodes[j2]).name == x@.nodes[i as int].name
                        && y@.nodes[j2].state_type == x@.nodes[i as int].state_type),
            decreases m - j,
        {
            if !found && str_eq(xs[i].name(), ys[j].name()) && xs[i].state_type()
                == ys[j].state_type() {
                proof {
                    assert((y@.nodes[j as int]).name == x@.nodes[i as int].name && y@.nodes[
                        j as int
                    ].state_type == x@.nodes[i as int].state_type);
                    assert(has_matching_state(
                        y@.nodes,
                        x@.nodes[i as int].name,
                        x@.nodes[i as int].state_type,
                    ));
                }
                found = true;
            }
            j += 1;
        }
        if !found {
            proof {
                assert(!states_covered(x@, y@)) by {
                    if states_covered(x@, y@) {
                        assert(0 <= i < x@.nodes.len());
                        assert(has_matching_state(
                            y@.nodes,
                            x@.nodes[i as int].name,
                            x@.nodes[i as int].state_type,
                        ));
                        let j2 = choose|j2: int|
                            0 <= j2 < y@.nodes.len() && (#[trigger] y@.nodes[j2]).name == x@.nodes[
                                i as int
                            ].name && y@.nodes[j2].state_type == x@.nodes[i as int].state_type;
                        assert(false);
                    }
                }
            }
            return false;
        }
        i += 1;
    }
    true
}

fn trans_covered_exec(x: &ParsedFsm, y: &ParsedFsm) -> (r: bool)
    ensures
        r == trans_covered(x@, y@),
{
    let tx = x.transitions();
    let ty = y.transitions();
    let ghost ax = all_transitions(x@.nodes);
    let ghost ay = all_transitions(y@.nodes);
    let n = tx.len();
    let m = ty.len();
    let mut p: usize = 0;
    while p < n
        invariant
            ax == all_transitions(x@.nodes),
            ay == all_transitions(y@.nodes),
            n == ax.len(),
            m == ay.len(),
            tx@.len() == n,
            ty@.len() == m,
            forall|k: int| 0 <= k < n ==> trans_matches(#[trigger] tx@[k], x@, ax[k]),
            forall|k: int| 0 <= k < m ==> trans_matches(#[trigger] ty@[k], y@, ay[k]),
            p <= n,
            forall|p2: int| 0 <= p2 < p ==> has_matching_trans(x@, #[trigger] ax[p2], y@),
        decreases n - p,
    {
        let mut found = false;
        let mut q: usize = 0;
        while q < m
            invariant
                ax == all_transitions(x@.nodes),
                ay == all_transitions(y@.nodes),
                n == ax.len(),
                m == ay.len(),
                tx@.len() == n,
                ty@.len() == m,
                p < n,
                forall|k: int| 0 <= k < n ==> trans_matches(#[trigger] tx@[k], x@, ax[k]),
                forall|k: int| 0 <= k < m ==> trans_matches(#[trigger] ty@[k], y@, ay[k]),
                q <= m,
                found ==> has_matching_trans(x@, ax[p as int], y@),
                !found ==> forall|q2: int|
                    0 <= q2 < q ==> !trans_key_eq(x@, ax[p as int], y@, #[trigger] ay[q2]),
            decreases m - q,
        {
            if !found {
                let dx = &tx[p].destination;
                let dy = &ty[q].destination;
                proof {
                    use_type_invariant(dx);
                    use_type_invariant(dy);
                }
                let dest_eq = str_eq(dx.name(), dy.name());
                let event_eq = str_eq(tx[p].event.0.as_str(), ty[q].event.0.as_str());
                let action_eq = match (&tx[p].action, &ty[q].action) {
                    (Some(a), Some(b)) => str_eq(a.0.as_str(), b.0.as_str()),
                    (None, None) => true,
                    _ => false,
                };
                if dest_eq && event_eq && action_eq {
                    proof {
                        assert(trans_key_eq(x@, ax[p as int], y@, ay[q as int]));
                        assert(has_matching_trans(x@, ax[p as int], y@));
                    }
                    found = true;
                }
            }
            q += 1;
        }
        if !found {
            proof {
                assert(!trans_covered(x@, y@)) by {
                    if trans_covered(x@, y@) {
                        assert(0 <= p < ax.len());
                        assert(has_matching_trans(x@, ax[p as int], y@));
                        let q2 = choose|q2: int|
                            0 <= q2 < all_transitions(y@.nodes).len() && trans_key_eq(
                                x@,
                                ax[p as int],
                                y@,
                                #[trigger] all_transitions(y@.nodes)[q2],
                            );
                        assert(false);
                    }
                }
            }
            return false;
        }
        p += 1;
    }
    true
}

impl PartialEq for ParsedFsm {
    /// Order-independent model equality; see [`sfsm_eq`].
    fn eq(&self, other: &Self) -> (r: bool) {
        proof {
            use_type_invariant(self);
            use_type_invariant(other);
        }
        let se = self.enter_state();
        let oe = other.enter_state();
        str_eq(self.name(), other.name()) && str_eq(se.name(), oe.name()) && se.state_type()
            == oe.state_type() && states_covered_exec(self, other) && states_covered_exec(
            other,
            self,
        ) && trans_covered_exec(self, other) && trans_covered_exec(other, self)
    }
}

impl vstd::std_specs::cmp::PartialEqSpecImpl for ParsedFsm {
    open spec fn obeys_eq_spec() -> bool {
        true
    }

    open spec fn eq_spec(&self, other: &Self) -> bool {
        sfsm_eq(self@, other@)
    }
}

impl Eq for ParsedFsm {}

/// The event names of a transition sequence, in order.
pub open spec fn event_names(ts: Seq<TransV>) -> Seq<Seq<char>> {
    ts.map_values(|t: TransV| t.event)
}

/// The (action name, event name) pairs of the transitions that carry an
/// action, in order.
pub open spec fn action_pairs(ts: Seq<TransV>) -> Seq<(Seq<char>, Seq<char>)>
    decreases ts.len(),
{
    if ts.len() == 0 {
        Seq::empty()
    } else {
        action_pairs(ts.drop_last()) + match ts.last().action {
            Some(a) => seq![(a, ts.last().event)],
            None => Seq::empty(),
        }
    }
}

/// The enter-action names of the nodes that carry one, in order.
pub open spec fn enter_action_names(nodes: Seq<NodeV>) -> Seq<Seq<char>>
    decreases nodes.len(),
{
    if nodes.len() == 0 {
        Seq::empty()
    } else {
        enter_action_names(nodes.drop_last()) + match nodes.last().enter_action {
            Some(a) => seq![a],
            None => Seq::empty(),
        }
    }
}

/// The exit-action names of the nodes that carry one, in order.
pub open spec fn exit_action_names(nodes: Seq<NodeV>) -> Seq<Seq<char>>
    decreases nodes.len(),
{
    if nodes.len() == 0 {
        Seq::empty()
    } else {
        exit_action_names(nodes.drop_last()) + match nodes.last().exit_action {
            Some(a) => seq![a],
            None => Seq::empty(),
        }
    }
}

fn contains_event_name(v: &Vec<&Event>, name: &str) -> (r: bool)
    ensures
        r == v@.map_values(|e: &Event| e@).contains(name@),
{
    let ghost names = v@.map_values(|e: &Event| e@);
    let n = v.len();
    let mut j: usize = 0;
    while j < n
        invariant
            names == v@.map_values(|e: &Event| e@),
            n == v@.len(),
            j <= n,
            forall|k: int| 0 <= k < j ==> #[trigger] names[k] != name@,
        decreases n - j,
    {
        if str_eq(v[j].0.as_str(), name) {
            proof {
                assert(names[j as int] == name@);
            }
            return true;
        }
        j += 1;
    }
    proof {
        if names.contains(name@) {
            let k = choose|k: int| 0 <= k < names.len() && names[k] == name@;
            assert(false);
        }
    }
    false
}

impl ParsedFsm {
    /// The distinct events of all transitions, in order of first occurrence.
    pub fn events<'a>(&'a self) -> (r: Vec<&'a Event>)
        ensures
            r@.map_values(|e: &Event| e@) == dedup_seq(event_names(all_transitions(self@.nodes))),
    {
        let ts = self.transitions();
        let ghost names = event_names(all_transitions(self@.nodes));
        let n = ts.len();
        let mut out: Vec<&'a Event> = Vec::new();
        let mut k: usize = 0;
        while k < n
            invariant
                names == event_names(all_transitions(self@.nodes)),
                n == names.len(),
                ts@.len() == n,
                forall|k2: int|
                    0 <= k2 < n ==> trans_matches(
                        #[trigger] ts@[k2],
                        self@,
                        all_transitions(self@.nodes)[k2],
                    ),
                k <= n,
                out@.map_values(|e: &Event| e@) == dedup_seq(names.take(k as int)),
            decreases n - k,
        {
            let ghost prefix = names.take(k as int);
            proof {
                assert(names.take(k as int + 1).drop_last() =~= prefix);
                assert(names.take(k as int + 1).last() == names[k as int]);
                assert(ts@[k as int].event@ == names[k as int]);
                lemma_dedup_contains(prefix, names[k as int]);
            }
            let present = contains_event_name(&out, ts[k].event.0.as_str());
            if !present {
                let ghost out_old = out@;
                out.push(ts[k].event);
                proof {
                    assert(out@.map_values(|e: &Event| e@) =~= out_old.map_values(
                        |e: &Event| e@,
                    ).push(names[k as int]));
                }
            }
            k += 1;
        }
        proof {
            assert(names.take(n as int) =~= names);
        }
        out
    }

    /// The distinct (action, event) pairs of the transitions that carry an
    /// action, in order of first occurrence.
    pub fn actions<'a>(&'a self) -> (r: Vec<(&'a Action, &'a Event)>)
        ensures
            r@.map_values(|p: (&Action, &Event)| (p.0@, p.1@)) == dedup_seq(
                action_pairs(all_transitions(self@.nodes)),
            ),
    {
        let ts = self.transitions();
        let ghost ats = all_transitions(self@.nodes);
        let n = ts.len();
        let mut out: Vec<(&'a Action, &'a Event)> = Vec::new();
        let mut k: usize = 0;
        while k < n
            invariant
                ats == all_transitions(self@.nodes),
                n == ats.len(),
                ts@.len() == n,
                forall|k2: int|
                    0 <= k2 < n ==> trans_matches(#[trigger] ts@[k2], self@, ats[k2]),
                k <= n,
                out@.map_values(|p: (&Action, &Event)| (p.0@, p.1@)) == dedup_seq(
                    action_pairs(ats.take(k as int)),
                ),
            decreases n - k,
        {
            let ghost pairs = action_pairs(ats.take(k as int));
            proof {
                assert(ats.take(k as int + 1).drop_last() =~= ats.take(k as int));
                assert(ats.take(k as int + 1).last() == ats[k as int]);
                assert(action_pairs(ats.take(k as int + 1)) == action_pairs(ats.take(k as int))
                    + match ats[k as int].action {
                    Some(a) => seq![(a, ats[k as int].event)],
                    None => Seq::empty(),
                });
            }
            match ts[k].action {
                Some(a) => {
                    let ghost new_pair = (ats[k as int].action->0, ats[k as int].event);
                    proof {
                        assert(ats[k as int].action == Some(a@));
                        assert(action_pairs(ats.take(k as int + 1)) =~= pairs.push(new_pair));
                        assert(action_pairs(ats.take(k as int + 1)).drop_last() =~= pairs);
                        assert(action_pairs(ats.take(k as int + 1)).last() == new_pair);
                        lemma_dedup_contains(pairs, new_pair);
                    }
                    let present = contains_pair(&out, a.0.as_str(), ts[k].event.0.as_str());
                    if !present {
                        let ghost out_old = out@;
                        out.push((a, ts[k].event));
                        proof {
                            assert(out@.map_values(|p: (&Action, &Event)| (p.0@, p.1@))
                                =~= out_old.map_values(|p: (&Action, &Event)| (p.0@, p.1@)).push(
                                new_pair,
                            ));
                        }
                    }
                    k += 1;
                },
                None => {
                    proof {
                        assert(action_pairs(ats.take(k as int + 1)) =~= pairs);
                    }
                    k += 1;
                },
            }
        }
        proof {
            assert(ats.take(n as int) =~= ats);
        }
        out
    }
}

fn contains_pair(v: &Vec<(&Action, &Event)>, aname: &str, ename: &str) -> (r: bool)
    ensures
        r == v@.map_values(|p: (&Action, &Event)| (p.0@, p.1@)).contains((aname@, ename@)),
{
    let ghost pairs = v@.map_values(|p: (&Action, &Event)| (p.0@, p.1@));
    let n = v.len();
    let mut j: usize = 0;
    while j < n
        invariant
            pairs == v@.map_values(|p: (&Action, &Event)| (p.0@, p.1@)),
            n == v@.len(),
            j <= n,
            forall|k: int| 0 <= k < j ==> #[trigger] pairs[k] != (aname@, ename@),
        decreases n - j,
    {
        if str_eq(v[j].0.0.as_str(), aname) && str_eq(v[j].1.0.as_str(), ename) {
            proof {
                assert(pairs[j as int] == (aname@, ename@));
            }
            return true;
        }
        j += 1;
    }
    proof {
        if pairs.contains((aname@, ename@)) {
            let k = choose|k: int| 0 <= k < pairs.len() && pairs[k] == (aname@, ename@);
            assert(false);
        }
    }
    false
}

fn contains_action_name(v: &Vec<Action>, name: &str) -> (r: bool)
    ensures
        r == v@.map_values(|a: Action| a@).contains(name@),
{
    let ghost names = v@.map_values(|a: Action| a@);
    let n = v.len();
    let mut j: usize = 0;
    while j < n
        invariant
            names == v@.map_values(|a: Action| a@),
            n == v@.len(),
            j <= n,
            forall|k: int| 0 <= k < j ==> #[trigger] names[k] != name@,
        decreases n - j,
    {
        if str_eq(v[j].0.as_str(), name) {
            proof {
                assert(names[j as int] == name@);
            }
            return true;
        }
        j += 1;
    }
    proof {
        if names.contains(name@) {
            let k = choose|k: int| 0 <= k < names.len() && names[k] == name@;
            assert(false);
        }
    }
    false
}

impl ParsedFsm {
    /// The distinct enter actions across all states, in order of first
    /// occurrence.
    pub fn enter_actions(&self) -> (r: Vec<Action>)
        ensures
            r@.map_values(|a: Action| a@) == dedup_seq(enter_action_names(self@.nodes)),
    {
        proof {
            use_type_invariant(self);
        }
        let n = self.nodes.len();
        let mut out: Vec<Action> = Vec::new();
        let mut j: usize = 0;
        while j < n
            invariant
                n == self@.nodes.len(),
                self@.nodes == nodes_v(self.nodes@),
                n == self.nodes@.len(),
                j <= n,
                out@.map_values(|a: Action| a@) == dedup_seq(
                    enter_action_names(self@.nodes.take(j as int)),
                ),
            decreases n - j,
        {
            let ghost prefix = enter_action_names(self@.nodes.take(j as int));
            proof {
                assert(self@.nodes.take(j as int + 1).drop_last() =~= self@.nodes.take(j as int));
                assert(self@.nodes.take(j as int + 1).last() == self@.nodes[j as int]);
            }
            match &self.nodes[j].data.enter_action {
                Some(a) => {
                    proof {
                        assert(self@.nodes[j as int].enter_action == Some(a@));
                        assert(enter_action_names(self@.nodes.take(j as int + 1)) =~= prefix.push(
                            a@,
                        ));
                        assert(enter_action_names(self@.nodes.take(j as int + 1)).drop_last()
                            =~= prefix);
                        assert(enter_action_names(self@.nodes.take(j as int + 1)).last() == a@);
                        lemma_dedup_contains(prefix, a@);
                    }
                    let present = contains_action_name(&out, a.0.as_str());
                    if !present {
                        let ghost out_old = out@;
                        out.push(Action(a.0.clone()));
                        proof {
                            assert(out@.map_values(|x: Action| x@) =~= out_old.map_values(
                                |x: Action| x@,
                            ).push(a@));
                        }
                    }
                },
                None => {
                    proof {
                        assert(enter_action_names(self@.nodes.take(j as int + 1)) =~= prefix);
                    }
                },
            }
            j += 1;
        }
        proof {
            assert(self@.nodes.take(n as int) =~= self@.nodes);
        }
        out
    }

    /// The distinct exit actions across all states, in order of first
    /// occurrence.
    pub fn exit_actions(&self) -> (r: Vec<Action>)
        ensures
            r@.map_values(|a: Action| a@) == dedup_seq(exit_action_names(self@.nodes)),
    {
        proof {
            use_type_invariant(self);
        }
        let n = self.nodes.len();
        let mut out: Vec<Action> = Vec::new();
        let mut j: usize = 0;
        while j < n
            invariant
                n == self@.nodes.len(),
                self@.nodes == nodes_v(self.nodes@),
                n == self.nodes@.len(),
                j <= n,
                out@.map_values(|a: Action| a@) == dedup_seq(
                    exit_action_names(self@.nodes.take(j as int)),
                ),
            decreases n - j,
        {
            let ghost prefix = exit_action_names(self@.nodes.take(j as int));
            proof {
                assert(self@.nodes.take(j as int + 1).drop_last() =~= self@.nodes.take(j as int));
                assert(self@.nodes.take(j as int + 1).last() == self@.nodes[j as int]);
            }
            match &self.nodes[j].data.exit_action {
                Some(a) => {
                    proof {
                        assert(self@.nodes[j as int].exit_action == Some(a@));
                        assert(exit_action_names(self@.nodes.take(j as int + 1)) =~= prefix.push(
                            a@,
                        ));
                        assert(exit_action_names(self@.nodes.take(j as int + 1)).drop_last()
                            =~= prefix);
                        assert(exit_action_names(self@.nodes.take(j as int + 1)).last() == a@);
                        lemma_dedup_contains(prefix, a@);
                    }
                    let present = contains_action_name(&out, a.0.as_str());
                    if !present {
                        let ghost out_old = out@;
                        out.push(Action(a.0.clone()));
                        proof {
                            assert(out@.map_values(|x: Action| x@) =~= out_old.map_values(
                                |x: Action| x@,
                            ).push(a@));
                        }
                    }
                },
                None => {
                    proof {
                        assert(exit_action_names(self@.nodes.take(j as int + 1)) =~= prefix);
                    }
                },
            }
            j += 1;
        }
        proof {
            assert(self@.nodes.take(n as int) =~= self@.nodes);
        }
        out
    }
}

} // verus!
