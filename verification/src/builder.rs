//! The FSM builder: populates a scoped arena with state nodes and per-state
//! transition records, with scope-relative name resolution.
//!
//! Every operation is specified against a ghost model ([`BuilderV`]) by pure
//! specification functions (`spec_add_state` and friends), so the effect of a
//! sequence of builder calls is pinned exactly.

use vstd::prelude::*;

use crate::error::Error;
use crate::fsm::ParsedFsm;
use crate::scoped_arena::ArenaNode;
use crate::scoped_arena::ScopedArena;
use crate::text::str_eq;
use crate::types::Action;
use crate::types::Event;
use crate::types::StateType;
use crate::validation::FsmV;
use crate::validation::first_enter_child_from;
use crate::validation::first_root_enter_from;
use crate::validation::fsm_v_wf;
use crate::validation::injective_action_mapping;
use crate::validation::is_blank;
use crate::validation::lemma_first_root_enter_from_same_shape;
use crate::validation::lemma_root_enter_count_pos_finds;
use crate::validation::lemma_root_enter_count_same_shape;
use crate::validation::lemma_sdeepest_enter_in_range;
use crate::validation::lemma_sdeepest_enter_same_shape;
use crate::validation::no_conflicting_transitions;
use crate::validation::root_enter_count;
use crate::validation::same_shape;
use crate::validation::sdeepest_enter;
use crate::validation::spec_build_fsm;
use crate::validation::spec_build_ok;
use crate::validation::spec_linked_nodes;
use crate::validation::unique_guards_per_event;

verus! {

/// One outgoing transition, recorded under its source node.
#[derive(Debug)]
pub struct TransitionData {
    pub source: usize,
    pub destination: usize,
    pub event: Event,
    pub action: Option<Action>,
    pub guard: Option<Action>,
}

/// The data stored for one state node.
#[derive(Debug)]
pub struct StateData {
    pub name: String,
    pub state_type: StateType,
    pub transitions: Vec<TransitionData>,
    pub enter_action: Option<Action>,
    pub exit_action: Option<Action>,
    pub enter_state: Option<usize>,
}

/// The arguments of [`ParsedFsmBuilder::add_transition`].
pub struct TransitionParameters<'a> {
    pub source: &'a str,
    pub target: &'a str,
    pub event: Event,
    pub action: Option<Action>,
    pub guard: Option<Action>,
}

/// Ghost model of a transition: names as character sequences, nodes as
/// indices.
#[verifier::ext_equal]
pub struct TransV {
    pub source: int,
    pub dest: int,
    pub event: Seq<char>,
    pub action: Option<Seq<char>>,
    pub guard: Option<Seq<char>>,
}

/// Ghost model of a state node.
#[verifier::ext_equal]
pub struct NodeV {
    pub name: Seq<char>,
    pub state_type: StateType,
    pub transitions: Seq<TransV>,
    pub enter_action: Option<Seq<char>>,
    pub exit_action: Option<Seq<char>>,
    pub enter_state: Option<int>,
    pub parent: Option<int>,
}

/// Ghost model of the whole builder state.
#[verifier::ext_equal]
pub struct BuilderV {
    pub name: Seq<char>,
    pub nodes: Seq<NodeV>,
    pub scope: Option<int>,
}

/// The view of an optional named value.
pub open spec fn opt_name_v(o: Option<Action>) -> Option<Seq<char>> {
    match o {
        Some(a) => Some(a@),
        None => None,
    }
}

/// The view of an optional node id.
pub open spec fn opt_id_v(o: Option<usize>) -> Option<int> {
    match o {
        Some(i) => Some(i as int),
        None => None,
    }
}

impl View for TransitionData {
    type V = TransV;

    open spec fn view(&self) -> TransV {
        TransV {
            source: self.source as int,
            dest: self.destination as int,
            event: self.event@,
            action: opt_name_v(self.action),
            guard: opt_name_v(self.guard),
        }
    }
}

/// The ghost model of one arena slot holding state data.
pub open spec fn node_v(n: ArenaNode<StateData>) -> NodeV {
    NodeV {
        name: n.data.name@,
        state_type: n.data.state_type,
        transitions: n.data.transitions@.map_values(|t: TransitionData| t@),
        enter_action: opt_name_v(n.data.enter_action),
        exit_action: opt_name_v(n.data.exit_action),
        enter_state: opt_id_v(n.data.enter_state),
        parent: opt_id_v(n.parent),
    }
}

/// The ghost model of a whole arena of state data.
pub open spec fn nodes_v(s: Seq<ArenaNode<StateData>>) -> Seq<NodeV> {
    Seq::new(s.len(), |i: int| node_v(s[i]))
}

/// Builds FSM state nodes into a scoped arena; [`ParsedFsmBuilder::build`]
/// then validates the result and turns it into a [`crate::fsm::ParsedFsm`].
pub struct ParsedFsmBuilder {
    pub(crate) name: String,
    pub(crate) arena: ScopedArena<StateData>,
}

impl View for ParsedFsmBuilder {
    type V = BuilderV;

    closed spec fn view(&self) -> BuilderV {
        BuilderV {
            name: self.name@,
            nodes: nodes_v(self.arena.spec_nodes()),
            scope: opt_id_v(self.arena.spec_scope()),
        }
    }
}

/// Node-level well-formedness of a ghost builder or FSM model: parent links
/// point backwards (the forest is acyclic) and every transition is recorded
/// under its source node with a valid destination.
pub open spec fn wf_nodes(nodes: Seq<NodeV>) -> bool {
    &&& forall|j: int|
        0 <= j < nodes.len() && nodes[j].parent is Some ==> 0 <= nodes[j].parent->0 < j
    &&& forall|j: int, k: int|
        0 <= j < nodes.len() && 0 <= k < nodes[j].transitions.len() ==> {
            &&& (#[trigger] nodes[j].transitions[k]).source == j
            &&& 0 <= nodes[j].transitions[k].dest < nodes.len()
        }
}

/// Well-formedness of the ghost builder model.
pub open spec fn builder_v_wf(b: BuilderV) -> bool {
    &&& (b.scope is Some ==> 0 <= b.scope->0 < b.nodes.len())
    &&& wf_nodes(b.nodes)
}

/// The first node at or after `from` that lies directly in `scope` and
/// carries `name`; `None` when there is none. Siblings are scanned in
/// insertion order.
pub open spec fn sfind_in_scope_from(
    nodes: Seq<NodeV>,
    scope: Option<int>,
    name: Seq<char>,
    from: int,
) -> Option<int>
    decreases nodes.len() - from,
{
    if from < 0 || from >= nodes.len() {
        None
    } else if nodes[from].parent == scope && nodes[from].name == name {
        Some(from)
    } else {
        sfind_in_scope_from(nodes, scope, name, from + 1)
    }
}

/// Scope-relative lookup: the first direct child of `scope` named `name`.
pub open spec fn sfind_in_scope(nodes: Seq<NodeV>, scope: Option<int>, name: Seq<char>) -> Option<
    int,
> {
    sfind_in_scope_from(nodes, scope, name, 0)
}

/// The first node named `name` in the subtree rooted at `i`, in preorder.
pub open spec fn sfind_subtree(nodes: Seq<NodeV>, i: int, name: Seq<char>) -> Option<int>
    decreases nodes.len() - i, 0int,
{
    if i < 0 || i >= nodes.len() {
        None
    } else if nodes[i].name == name {
        Some(i)
    } else {
        sfind_desc_scan(nodes, Some(i), i + 1, name)
    }
}

/// The first node named `name` among the subtrees whose roots lie at or
/// after `from` with parent `p`, searching each subtree fully (in preorder)
/// before the next sibling.
pub open spec fn sfind_desc_scan(
    nodes: Seq<NodeV>,
    p: Option<int>,
    from: int,
    name: Seq<char>,
) -> Option<int>
    decreases nodes.len() - from, 1int,
{
    if from < 0 || from >= nodes.len() {
        None
    } else if nodes[from].parent == p {
        match sfind_subtree(nodes, from, name) {
            Some(r) => Some(r),
            None => sfind_desc_scan(nodes, p, from + 1, name),
        }
    } else {
        sfind_desc_scan(nodes, p, from + 1, name)
    }
}

/// Descendant lookup from `scope`: the first node named `name` in preorder
/// under the scope, or over the whole forest when the scope is unset.
pub open spec fn sfind_descendant(
    nodes: Seq<NodeV>,
    scope: Option<int>,
    name: Seq<char>,
) -> Option<int> {
    match scope {
        Some(s) => sfind_subtree(nodes, s, name),
        None => sfind_desc_scan(nodes, None, 0, name),
    }
}

/// A freshly created node.
pub open spec fn spec_new_node(name: Seq<char>, ty: StateType, parent: Option<int>) -> NodeV {
    NodeV {
        name,
        state_type: ty,
        transitions: Seq::empty(),
        enter_action: None,
        exit_action: None,
        enter_state: None,
        parent,
    }
}

/// The effect of `add_state`: reuse the scope-local node of that name if it
/// exists — promoting `Simple` to a requested non-`Simple` type, never the
/// reverse — and otherwise append a fresh node in the scope. Returns the new
/// model and the id of the affected node.
pub open spec fn spec_add_state(b: BuilderV, name: Seq<char>, ty: StateType) -> (BuilderV, int) {
    match sfind_in_scope(b.nodes, b.scope, name) {
        Some(i) => {
            if ty != StateType::Simple && b.nodes[i].state_type == StateType::Simple {
                (
                    BuilderV {
                        nodes: b.nodes.update(i, NodeV { state_type: ty, ..b.nodes[i] }),
                        ..b
                    },
                    i,
                )
            } else {
                (b, i)
            }
        },
        None => (
            BuilderV { nodes: b.nodes.push(spec_new_node(name, ty, b.scope)), ..b },
            b.nodes.len() as int,
        ),
    }
}

/// Whether some direct child of `scope` is an `Enter` state.
pub open spec fn sscope_has_enter(nodes: Seq<NodeV>, scope: Option<int>) -> bool {
    exists|j: int|
        0 <= j < nodes.len() && (#[trigger] nodes[j]).parent == scope && nodes[j].state_type
            == StateType::Enter
}

/// The effect of `find_or_create_state`: the first descendant of the scope
/// with that name, or a fresh `Simple` node in the scope.
pub open spec fn spec_find_or_create(b: BuilderV, name: Seq<char>) -> (BuilderV, int) {
    match sfind_descendant(b.nodes, b.scope, name) {
        Some(i) => (b, i),
        None => (
            BuilderV { nodes: b.nodes.push(spec_new_node(name, StateType::Simple, b.scope)), ..b },
            b.nodes.len() as int,
        ),
    }
}

/// The effect of `add_transition`: resolve (or create) source and target,
/// then record the transition under the source node.
pub open spec fn spec_add_transition(
    b: BuilderV,
    source: Seq<char>,
    target: Seq<char>,
    event: Seq<char>,
    action: Option<Seq<char>>,
    guard: Option<Seq<char>>,
) -> BuilderV {
    let (b1, from) = spec_find_or_create(b, source);
    let (b2, to) = spec_find_or_create(b1, target);
    let t = TransV { source: from, dest: to, event, action, guard };
    BuilderV {
        nodes: b2.nodes.update(
            from,
            NodeV { transitions: b2.nodes[from].transitions.push(t), ..b2.nodes[from] },
        ),
        ..b2
    }
}

/// The effect of `add_enter_action`: set the enter action of the first
/// descendant of the scope with that name, if any.
pub open spec fn spec_add_enter_action(b: BuilderV, name: Seq<char>, action: Seq<char>) -> BuilderV {
    match sfind_descendant(b.nodes, b.scope, name) {
        Some(i) => BuilderV {
            nodes: b.nodes.update(i, NodeV { enter_action: Some(action), ..b.nodes[i] }),
            ..b
        },
        None => b,
    }
}

/// The effect of `add_exit_action`, the counterpart of
/// [`spec_add_enter_action`].
pub open spec fn spec_add_exit_action(b: BuilderV, name: Seq<char>, action: Seq<char>) -> BuilderV {
    match sfind_descendant(b.nodes, b.scope, name) {
        Some(i) => BuilderV {
            nodes: b.nodes.update(i, NodeV { exit_action: Some(action), ..b.nodes[i] }),
            ..b
        },
        None => b,
    }
}

impl ParsedFsmBuilder {
    /// Exec-level well-formedness: the arena invariant plus the ghost model
    /// invariant.
    pub closed spec fn wf(&self) -> bool {
        &&& self.arena.wf()
        &&& builder_v_wf(self@)
    }

    /// A well-formed builder has a well-formed ghost model.
    pub proof fn wf_implies_model_wf(&self)
        requires
            self.wf(),
        ensures
            builder_v_wf(self@),
    {
    }

    pub fn new(name: &str) -> (r: Self)
        ensures
            r@ == (BuilderV { name: name@, nodes: Seq::<NodeV>::empty(), scope: None }),
            r.wf(),
    {
        let r = ParsedFsmBuilder { name: name.to_owned(), arena: ScopedArena::new() };
        proof {
            assert(nodes_v(r.arena.spec_nodes()) =~= Seq::<NodeV>::empty());
        }
        r
    }

    /// Sets the current scope and returns the previous one. Callers that
    /// descend into a composite state pass the composite's id here and
    /// restore the returned value afterwards.
    pub fn set_scope(&mut self, scope: Option<usize>) -> (prev: Option<usize>)
        requires
            old(self).wf(),
            scope is Some ==> (scope->0 as int) < old(self)@.nodes.len(),
        ensures
            opt_id_v(prev) == old(self)@.scope,
            final(self)@ == (BuilderV { scope: opt_id_v(scope), ..old(self)@ }),
            final(self).wf(),
    {
        self.arena.set_scope(scope)
    }

    /// The id of the scope-local state named `name`, if one exists.
    fn find_state_in_scope(&self, name: &str) -> (r: Option<usize>)
        requires
            self.wf(),
        ensures
            opt_id_v(r) == sfind_in_scope(self@.nodes, self@.scope, name@),
    {
        self.find_in_scope_from(name, 0)
    }

    fn find_in_scope_from(&self, name: &str, from: usize) -> (r: Option<usize>)
        requires
            self.wf(),
        ensures
            opt_id_v(r) == sfind_in_scope_from(self@.nodes, self@.scope, name@, from as int),
        decreases self@.nodes.len() - from,
    {
        let n = self.arena.len();
        if from >= n {
            None
        } else {
            let node = self.arena.get(from);
            let same_scope = opt_usize_eq(self.arena.parent_of(from), self.arena.scope());
            if same_scope && str_eq(node.name.as_str(), name) {
                Some(from)
            } else {
                self.find_in_scope_from(name, from + 1)
            }
        }
    }

    /// The id of the first descendant of the current scope named `name`, in
    /// preorder, if one exists.
    fn find_descendant_state(&self, name: &str) -> (r: Option<usize>)
        requires
            self.wf(),
        ensures
            opt_id_v(r) == sfind_descendant(self@.nodes, self@.scope, name@),
    {
        match self.arena.scope() {
            Some(s) => self.find_in_subtree(s, name),
            None => self.find_desc_scan(None, 0, name),
        }
    }

    fn find_in_subtree(&self, i: usize, name: &str) -> (r: Option<usize>)
        requires
            self.wf(),
            i < self@.nodes.len(),
        ensures
            opt_id_v(r) == sfind_subtree(self@.nodes, i as int, name@),
        decreases self@.nodes.len() - i, 0int,
    {
        let n = self.arena.len();
        assert(i < n);
        let node = self.arena.get(i);
        if str_eq(node.name.as_str(), name) {
            Some(i)
        } else {
            self.find_desc_scan(Some(i), i + 1, name)
        }
    }

    fn find_desc_scan(&self, p: Option<usize>, from: usize, name: &str) -> (r: Option<usize>)
        requires
            self.wf(),
        ensures
            opt_id_v(r) == sfind_desc_scan(self@.nodes, opt_id_v(p), from as int, name@),
        decreases self@.nodes.len() - from, 1int,
    {
        let n = self.arena.len();
        if from >= n {
            None
        } else if opt_usize_eq(self.arena.parent_of(from), p) {
            match self.find_in_subtree(from, name) {
                Some(r) => Some(r),
                None => self.find_desc_scan(p, from + 1, name),
            }
        } else {
            self.find_desc_scan(p, from + 1, name)
        }
    }

    fn create_state(&mut self, name: &str, state_type: StateType) -> (id: usize)
        requires
            old(self).wf(),
        ensures
            id == old(self)@.nodes.len(),
            final(self)@ == (BuilderV {
                nodes: old(self)@.nodes.push(
                    spec_new_node(name@, state_type, old(self)@.scope),
                ),
                ..old(self)@
            }),
            final(self).wf(),
    {
        let data = StateData {
            name: name.to_owned(),
            state_type,
            transitions: Vec::new(),
            enter_action: None,
            exit_action: None,
            enter_state: None,
        };
        let id = self.arena.new_node_in_scope(data);
        proof {
            assert(self@.nodes =~~= old(self)@.nodes.push(
                spec_new_node(name@, state_type, old(self)@.scope),
            ));
        }
        id
    }

    fn update_non_simple_state_type(&mut self, id: usize, state_type: StateType)
        requires
            old(self).wf(),
            id < old(self)@.nodes.len(),
        ensures
            final(self)@ == if state_type != StateType::Simple && old(self)@.nodes[id as int].state_type
                == StateType::Simple {
                BuilderV {
                    nodes: old(self)@.nodes.update(
                        id as int,
                        NodeV { state_type, ..old(self)@.nodes[id as int] },
                    ),
                    ..old(self)@
                }
            } else {
                old(self)@
            },
            final(self).wf(),
    {
        let current = self.arena.get(id).state_type;
        if !matches!(state_type, StateType::Simple) && matches!(current, StateType::Simple) {
            let d = self.arena.get_mut(id);
            d.state_type = state_type;
            proof {
                assert(self@.nodes =~~= old(self)@.nodes.update(
                    id as int,
                    NodeV { state_type, ..old(self)@.nodes[id as int] },
                ));
            }
        }
    }

    /// Adds (or promotes) the state named `name` in the current scope and
    /// returns its id; see [`spec_add_state`] for the exact effect.
    pub fn add_state(&mut self, name: &str, state_type: StateType) -> (id: usize)
        requires
            old(self).wf(),
        ensures
            final(self)@ == spec_add_state(old(self)@, name@, state_type).0,
            id as int == spec_add_state(old(self)@, name@, state_type).1,
            id < final(self)@.nodes.len(),
            final(self).wf(),
    {
        match self.find_state_in_scope(name) {
            Some(id) => {
                proof {
                    lemma_sfind_in_scope_from_in_range(self@.nodes, self@.scope, name@, 0);
                }
                self.update_non_simple_state_type(id, state_type);
                id
            },
            None => self.create_state(name, state_type),
        }
    }
}

impl ParsedFsmBuilder {
    fn scope_has_enter(&self) -> (r: bool)
        requires
            self.wf(),
        ensures
            r == sscope_has_enter(self@.nodes, self@.scope),
    {
        let n = self.arena.len();
        let scope = self.arena.scope();
        let mut j: usize = 0;
        while j < n
            invariant
                self.wf(),
                n == self@.nodes.len(),
                opt_id_v(scope) == self@.scope,
                j <= n,
                forall|k: int|
                    0 <= k < j ==> !((#[trigger] self@.nodes[k]).parent == self@.scope
                        && self@.nodes[k].state_type == StateType::Enter),
            decreases n - j,
        {
            let is_scope_child = opt_usize_eq(self.arena.parent_of(j), scope);
            if is_scope_child && matches!(self.arena.get(j).state_type, StateType::Enter) {
                proof {
                    assert((self@.nodes[j as int]).parent == self@.scope && self@.nodes[j as int].state_type
                        == StateType::Enter);
                }
                return true;
            }
            j += 1;
        }
        false
    }

    /// Adds the state named `name` as the enter state of the current scope.
    /// Fails, leaving the builder unchanged, when the scope already has an
    /// `Enter` state.
    pub fn add_enter_state(&mut self, name: &str) -> (r: Result<usize, Error>)
        requires
            old(self).wf(),
        ensures
            final(self).wf(),
            sscope_has_enter(old(self)@.nodes, old(self)@.scope) ==> r is Err && r->Err_0 is Parse
                && final(self)@ == old(self)@,
            !sscope_has_enter(old(self)@.nodes, old(self)@.scope) ==> r is Ok && final(self)@
                == spec_add_state(old(self)@, name@, StateType::Enter).0 && r->Ok_0 as int
                == spec_add_state(old(self)@, name@, StateType::Enter).1,
    {
        if self.scope_has_enter() {
            return Err(Error::Parse(String::from_str("FSM must have exactly one enter state")));
        }
        Ok(self.add_state(name, StateType::Enter))
    }

    fn find_or_create_state(&mut self, name: &str) -> (id: usize)
        requires
            old(self).wf(),
        ensures
            final(self).wf(),
            final(self)@ == spec_find_or_create(old(self)@, name@).0,
            id as int == spec_find_or_create(old(self)@, name@).1,
            id < final(self)@.nodes.len(),
    {
        match self.find_descendant_state(name) {
            Some(id) => {
                proof {
                    match self@.scope {
                        Some(s) => lemma_sfind_subtree_in_range(self@.nodes, s, name@),
                        None => lemma_sfind_desc_scan_in_range(self@.nodes, None, 0, name@),
                    }
                }
                id
            },
            None => self.create_state(name, StateType::Simple),
        }
    }

    /// Resolves (or creates as `Simple` placeholders) the source and target
    /// states and records the transition under the source; see
    /// [`spec_add_transition`] for the exact effect.
    pub fn add_transition(&mut self, params: TransitionParameters<'_>)
        requires
            old(self).wf(),
        ensures
            final(self).wf(),
            final(self)@ == spec_add_transition(
                old(self)@,
                params.source@,
                params.target@,
                params.event@,
                opt_name_v(params.action),
                opt_name_v(params.guard),
            ),
    {
        let from_id = self.find_or_create_state(params.source);
        let to_id = self.find_or_create_state(params.target);
        let ghost b2 = self@;
        let t = TransitionData {
            source: from_id,
            destination: to_id,
            event: params.event,
            action: params.action,
            guard: params.guard,
        };
        let ghost tv = t@;
        let d = self.arena.get_mut(from_id);
        d.transitions.push(t);
        proof {
            assert(self@.nodes =~~= b2.nodes.update(
                from_id as int,
                NodeV {
                    transitions: b2.nodes[from_id as int].transitions.push(tv),
                    ..b2.nodes[from_id as int]
                },
            ));
        }
    }

    /// Sets the enter action of the named state, resolved as a descendant of
    /// the current scope; does nothing when no such state exists.
    pub fn add_enter_action(&mut self, state_name: &str, action: Action)
        requires
            old(self).wf(),
        ensures
            final(self).wf(),
            final(self)@ == spec_add_enter_action(old(self)@, state_name@, action@),
    {
        match self.find_descendant_state(state_name) {
            Some(id) => {
                proof {
                    match self@.scope {
                        Some(s) => lemma_sfind_subtree_in_range(self@.nodes, s, state_name@),
                        None => lemma_sfind_desc_scan_in_range(self@.nodes, None, 0, state_name@),
                    }
                }
                let ghost b0 = self@;
                let ghost av = action@;
                let d = self.arena.get_mut(id);
                d.enter_action = Some(action);
                proof {
                    assert(self@.nodes =~~= b0.nodes.update(
                        id as int,
                        NodeV { enter_action: Some(av), ..b0.nodes[id as int] },
                    ));
                }
            },
            None => {},
        }
    }

    /// Sets the exit action of the named state, resolved as a descendant of
    /// the current scope; does nothing when no such state exists.
    pub fn add_exit_action(&mut self, state_name: &str, action: Action)
        requires
            old(self).wf(),
        ensures
            final(self).wf(),
            final(self)@ == spec_add_exit_action(old(self)@, state_name@, action@),
    {
        match self.find_descendant_state(state_name) {
            Some(id) => {
                proof {
                    match self@.scope {
                        Some(s) => lemma_sfind_subtree_in_range(self@.nodes, s, state_name@),
                        None => lemma_sfind_desc_scan_in_range(self@.nodes, None, 0, state_name@),
                    }
                }
                let ghost b0 = self@;
                let ghost av = action@;
                let d = self.arena.get_mut(id);
                d.exit_action = Some(action);
                proof {
                    assert(self@.nodes =~~= b0.nodes.update(
                        id as int,
                        NodeV { exit_action: Some(av), ..b0.nodes[id as int] },
                    ));
                }
            },
            None => {},
        }
    }
}

impl ParsedFsmBuilder {
    fn first_enter_child_from_exec(&self, i: usize, from: usize) -> (r: Option<usize>)
        requires
            self.wf(),
        ensures
            opt_id_v(r) == first_enter_child_from(self@.nodes, i as int, from as int),
            r matches Some(j) ==> j < self@.nodes.len(),
        decreases self@.nodes.len() - from,
    {
        let n = self.arena.len();
        if from >= n {
            None
        } else {
            let is_child = opt_usize_eq(self.arena.parent_of(from), Some(i));
            if is_child && matches!(self.arena.get(from).state_type, StateType::Enter) {
                Some(from)
            } else {
                self.first_enter_child_from_exec(i, from + 1)
            }
        }
    }

    /// The deepest state reachable from `state_id` by following a chain of
    /// first `Enter`-typed children.
    fn find_deepest_enter_state(&self, state_id: usize) -> (r: usize)
        requires
            self.wf(),
            state_id < self@.nodes.len(),
        ensures
            r as int == sdeepest_enter(self@.nodes, state_id as int),
            r < self@.nodes.len(),
    {
        let n = self.arena.len();
        let mut current = state_id;
        loop
            invariant
                self.wf(),
                n == self@.nodes.len(),
                current < n,
                sdeepest_enter(self@.nodes, state_id as int) == sdeepest_enter(
                    self@.nodes,
                    current as int,
                ),
            decreases self@.nodes.len() - current,
        {
            match self.first_enter_child_from_exec(current, 0) {
                Some(j) => {
                    if j > current {
                        proof {
                            assert(sdeepest_enter(self@.nodes, current as int) == sdeepest_enter(
                                self@.nodes,
                                j as int,
                            ));
                        }
                        current = j;
                    } else {
                        proof {
                            assert(sdeepest_enter(self@.nodes, current as int) == current as int);
                        }
                        return current;
                    }
                },
                None => {
                    proof {
                        assert(sdeepest_enter(self@.nodes, current as int) == current as int);
                    }
                    return current;
                },
            }
        }
    }

    fn count_root_enters(&self) -> (count: usize)
        requires
            self.wf(),
        ensures
            count as int == root_enter_count(self@.nodes, self@.nodes.len() as int),
    {
        let n = self.arena.len();
        let mut count: usize = 0;
        let mut j: usize = 0;
        while j < n
            invariant
                self.wf(),
                n == self@.nodes.len(),
                j <= n,
                count <= j,
                count as int == root_enter_count(self@.nodes, j as int),
            decreases n - j,
        {
            let is_root = self.arena.parent_of(j).is_none();
            if is_root && matches!(self.arena.get(j).state_type, StateType::Enter) {
                count += 1;
            }
            j += 1;
        }
        count
    }

    fn first_root_enter_from_exec(&self, from: usize) -> (r: Option<usize>)
        requires
            self.wf(),
        ensures
            opt_id_v(r) == first_root_enter_from(self@.nodes, from as int),
            r matches Some(j) ==> j < self@.nodes.len(),
        decreases self@.nodes.len() - from,
    {
        let n = self.arena.len();
        if from >= n {
            None
        } else {
            let is_root = self.arena.parent_of(from).is_none();
            if is_root && matches!(self.arena.get(from).state_type, StateType::Enter) {
                Some(from)
            } else {
                self.first_root_enter_from_exec(from + 1)
            }
        }
    }

    /// Sets every node's `enter_state` to its deepest-enter resolution.
    fn link_enter_states(&mut self)
        requires
            old(self).wf(),
        ensures
            final(self).wf(),
            final(self)@ == (BuilderV {
                nodes: spec_linked_nodes(old(self)@.nodes),
                ..old(self)@
            }),
    {
        let ghost orig = self@.nodes;
        let n = self.arena.len();
        let mut targets: Vec<usize> = Vec::new();
        let mut i: usize = 0;
        while i < n
            invariant
                self.wf(),
                orig == self@.nodes,
                n == self@.nodes.len(),
                i <= n,
                targets@.len() == i,
                forall|k: int|
                    0 <= k < i ==> (#[trigger] targets@[k]) as int == sdeepest_enter(orig, k)
                        && targets@[k] < n,
            decreases n - i,
        {
            let t = self.find_deepest_enter_state(i);
            targets.push(t);
            i += 1;
        }
        let mut i: usize = 0;
        while i < n
            invariant
                self.arena.wf(),
                n == orig.len(),
                i <= n,
                targets@.len() == n,
                forall|k: int|
                    0 <= k < n ==> (#[trigger] targets@[k]) as int == sdeepest_enter(orig, k)
                        && targets@[k] < n,
                self@.nodes.len() == n,
                self@.name == old(self)@.name,
                self@.scope == old(self)@.scope,
                orig == old(self)@.nodes,
                forall|j: int|
                    0 <= j < i ==> #[trigger] self@.nodes[j] == (NodeV {
                        enter_state: Some(sdeepest_enter(orig, j)),
                        ..orig[j]
                    }),
                forall|j: int| i <= j < n ==> #[trigger] self@.nodes[j] == orig[j],
            decreases n - i,
        {
            let t = targets[i];
            let ghost before = self@.nodes;
            let d = self.arena.get_mut(i);
            d.enter_state = Some(t);
            proof {
                assert(self@.nodes =~~= before.update(
                    i as int,
                    NodeV { enter_state: Some(sdeepest_enter(orig, i as int)), ..before[i as int] },
                ));
            }
            i += 1;
        }
        proof {
            assert(self@.nodes =~~= spec_linked_nodes(orig));
            assert(builder_v_wf(self@));
        }
    }

    /// Validates the built arena and turns it into an immutable
    /// [`ParsedFsm`]; see [`spec_build_ok`] for exactly when this succeeds
    /// and [`spec_build_fsm`] for the returned model. Runs, in order: the
    /// injective action-mapping check, the transition-conflict and guard
    /// checks, the root-enter-state resolution, the name check, and
    /// deepest-enter linking.
    pub fn build(self) -> (r: Result<ParsedFsm, Error>)
        requires
            self.wf(),
        ensures
            r is Ok <==> spec_build_ok(self@),
            r is Ok ==> r->Ok_0@ == spec_build_fsm(self@),
            r is Err ==> r->Err_0 is Parse,
    {
        let ghost b0 = self@;
        let mut this = self;
        match injective_action_mapping(&this.arena) {
            Err(e) => {
                return Err(e);
            },
            Ok(()) => {},
        }
        match no_conflicting_transitions(&this.arena) {
            Err(e) => {
                return Err(e);
            },
            Ok(()) => {},
        }
        match unique_guards_per_event(&this.arena) {
            Err(e) => {
                return Err(e);
            },
            Ok(()) => {},
        }
        let count = this.count_root_enters();
        if count != 1 {
            return Err(Error::Parse(String::from_str("FSM must have exactly one enter state")));
        }
        let root = match this.first_root_enter_from_exec(0) {
            Some(root) => root,
            None => {
                proof {
                    lemma_root_enter_count_pos_finds(b0.nodes, b0.nodes.len() as int);
                    assert(false);
                }
                return Err(Error::Parse(String::new()));
            },
        };
        let enter = this.find_deepest_enter_state(root);
        if is_blank(this.name.as_str()) {
            return Err(Error::Parse(String::from_str("FSM name cannot be empty")));
        }
        this.link_enter_states();
        let ghost linked = this@.nodes;
        proof {
            assert(same_shape(linked, b0.nodes));
            lemma_root_enter_count_same_shape(linked, b0.nodes, b0.nodes.len() as int);
            lemma_first_root_enter_from_same_shape(linked, b0.nodes, 0);
            lemma_sdeepest_enter_same_shape(linked, b0.nodes, root as int);
            assert forall|j: int| 0 <= j < linked.len() implies (#[trigger] linked[j]).enter_state
                == Some(sdeepest_enter(linked, j)) by {
                lemma_sdeepest_enter_same_shape(linked, b0.nodes, j);
            }
            lemma_sdeepest_enter_in_range(b0.nodes, root as int);
        }
        let ParsedFsmBuilder { name, arena } = this;
        let nodes = arena.into_inner();
        proof {
            assert(fsm_v_wf(
                FsmV { name: name@, enter: enter as int, nodes: nodes_v(nodes@) },
            ));
        }
        let fsm = ParsedFsm::new(name, enter, nodes);
        proof {
            assert(fsm@ =~~= spec_build_fsm(b0));
        }
        Ok(fsm)
    }
}

/// A subtree find, when it succeeds, returns an index into the node
/// sequence.
pub proof fn lemma_sfind_subtree_in_range(nodes: Seq<NodeV>, i: int, name: Seq<char>)
    ensures
        sfind_subtree(nodes, i, name) is Some ==> 0 <= sfind_subtree(nodes, i, name)->0
            < nodes.len(),
    decreases nodes.len() - i, 0int,
{
    if i < 0 || i >= nodes.len() {
    } else if nodes[i].name == name {
    } else {
        lemma_sfind_desc_scan_in_range(nodes, Some(i), i + 1, name);
    }
}

/// A sibling-scan find, when it succeeds, returns an index into the node
/// sequence.
pub proof fn lemma_sfind_desc_scan_in_range(
    nodes: Seq<NodeV>,
    p: Option<int>,
    from: int,
    name: Seq<char>,
)
    ensures
        sfind_desc_scan(nodes, p, from, name) is Some ==> 0 <= sfind_desc_scan(
            nodes,
            p,
            from,
            name,
        )->0 < nodes.len(),
    decreases nodes.len() - from, 1int,
{
    if from < 0 || from >= nodes.len() {
    } else if nodes[from].parent == p {
        lemma_sfind_subtree_in_range(nodes, from, name);
        lemma_sfind_desc_scan_in_range(nodes, p, from + 1, name);
    } else {
        lemma_sfind_desc_scan_in_range(nodes, p, from + 1, name);
    }
}

/// A scope-local find, when it succeeds, returns an index into the node
/// sequence.
pub proof fn lemma_sfind_in_scope_from_in_range(
    nodes: Seq<NodeV>,
    scope: Option<int>,
    name: Seq<char>,
    from: int,
)
    ensures
        sfind_in_scope_from(nodes, scope, name, from) is Some ==> from <= sfind_in_scope_from(
            nodes,
            scope,
            name,
            from,
        )->0 < nodes.len(),
    decreases nodes.len() - from,
{
    if from < 0 || from >= nodes.len() {
    } else if nodes[from].parent == scope && nodes[from].name == name {
    } else {
        lemma_sfind_in_scope_from_in_range(nodes, scope, name, from + 1);
    }
}

/// Equality of two optional ids.
fn opt_usize_eq(a: Option<usize>, b: Option<usize>) -> (r: bool)
    ensures
        r == (a == b),
        (r == (opt_id_v(a) == opt_id_v(b))),
{
    match (a, b) {
        (Some(x), Some(y)) => x == y,
        (None, None) => true,
        _ => false,
    }
}

/// A scope-local find does not change when only state types differ.
pub proof fn lemma_sfind_in_scope_from_types_irrelevant(
    a: Seq<NodeV>,
    b: Seq<NodeV>,
    scope: Option<int>,
    name: Seq<char>,
    from: int,
)
    requires
        a.len() == b.len(),
        forall|j: int|
            0 <= j < a.len() ==> (#[trigger] a[j]).name == b[j].name && a[j].parent == b[j].parent,
    ensures
        sfind_in_scope_from(a, scope, name, from) == sfind_in_scope_from(b, scope, name, from),
    decreases a.len() - from,
{
    if from < 0 || from >= a.len() {
    } else {
        lemma_sfind_in_scope_from_types_irrelevant(a, b, scope, name, from + 1);
    }
}

/// After pushing a node that matches, a scan that found nothing finds the
/// new node.
pub proof fn lemma_sfind_push_found(
    nodes: Seq<NodeV>,
    scope: Option<int>,
    name: Seq<char>,
    from: int,
    node: NodeV,
)
    requires
        0 <= from <= nodes.len(),
        sfind_in_scope_from(nodes, scope, name, from) is None,
        node.parent == scope,
        node.name == name,
    ensures
        sfind_in_scope_from(nodes.push(node), scope, name, from) == Some(nodes.len() as int),
    decreases nodes.len() - from,
{
    if from == nodes.len() {
        assert(nodes.push(node)[from] == node);
    } else {
        assert(nodes.push(node)[from] == nodes[from]);
        lemma_sfind_push_found(nodes, scope, name, from + 1, node);
    }
}

/// After `add_state`, the scope-local find resolves the name to the node
/// that `add_state` returned.
pub proof fn lemma_sfind_after_add_state(b: BuilderV, name: Seq<char>, ty: StateType)
    ensures
        ({
            let (b1, i) = spec_add_state(b, name, ty);
            &&& sfind_in_scope(b1.nodes, b1.scope, name) == Some(i)
            &&& 0 <= i < b1.nodes.len()
        }),
{
    let (b1, i) = spec_add_state(b, name, ty);
    match sfind_in_scope(b.nodes, b.scope, name) {
        Some(i0) => {
            lemma_sfind_in_scope_from_in_range(b.nodes, b.scope, name, 0);
            lemma_sfind_in_scope_from_types_irrelevant(b1.nodes, b.nodes, b.scope, name, 0);
        },
        None => {
            lemma_sfind_push_found(b.nodes, b.scope, name, 0, spec_new_node(name, ty, b.scope));
        },
    }
}

/// Idempotence of promotion: adding a state as `Simple` after adding it as
/// `Enter` in the same scope leaves the builder unchanged (the type stays
/// `Enter`); adding it as `Enter` after adding it as `Simple` promotes the
/// type to `Enter`.
pub proof fn lemma_add_state_promotion(b: BuilderV, name: Seq<char>)
    ensures
        ({
            let (b1, i) = spec_add_state(b, name, StateType::Enter);
            &&& spec_add_state(b1, name, StateType::Simple) == (b1, i)
            &&& 0 <= i < b1.nodes.len()
            &&& b1.nodes[i].state_type == StateType::Enter
        }),
        ({
            let (b2, j) = spec_add_state(b, name, StateType::Simple);
            let (b3, j2) = spec_add_state(b2, name, StateType::Enter);
            &&& j2 == j
            &&& 0 <= j < b3.nodes.len()
            &&& b3.nodes[j].state_type == StateType::Enter
        }),
{
    lemma_sfind_in_scope_from_in_range(b.nodes, b.scope, name, 0);
    let (b1, i) = spec_add_state(b, name, StateType::Enter);
    lemma_sfind_after_add_state(b, name, StateType::Enter);
    assert(b1.nodes[i].state_type == StateType::Enter);
    assert(spec_add_state(b1, name, StateType::Simple) == (b1, i));
    let (b2, j) = spec_add_state(b, name, StateType::Simple);
    lemma_sfind_after_add_state(b, name, StateType::Simple);
    let (b3, j2) = spec_add_state(b2, name, StateType::Enter);
    assert(j2 == j && 0 <= j < b3.nodes.len() && b3.nodes[j].state_type == StateType::Enter);
}

/// Data-model invariant of scoped name resolution: within one scope (one
/// parent, or the root level), at most one node carries a given name.
pub open spec fn names_unique_per_scope(nodes: Seq<NodeV>) -> bool {
    forall|j: int, k: int|
        0 <= j < nodes.len() && 0 <= k < nodes.len() && j != k && (#[trigger] nodes[j]).parent == (
        #[trigger] nodes[k]).parent ==> nodes[j].name != nodes[k].name
}

/// When the scope-local scan finds nothing, no node at or after `from` in
/// that scope carries the name.
pub proof fn lemma_sfind_in_scope_from_none(
    nodes: Seq<NodeV>,
    scope: Option<int>,
    name: Seq<char>,
    from: int,
)
    requires
        0 <= from,
        sfind_in_scope_from(nodes, scope, name, from) is None,
    ensures
        forall|j: int|
            from <= j < nodes.len() && (#[trigger] nodes[j]).parent == scope ==> nodes[j].name
                != name,
    decreases nodes.len() - from,
{
    if from < 0 || from >= nodes.len() {
    } else {
        lemma_sfind_in_scope_from_none(nodes, scope, name, from + 1);
    }
}

/// When the descendant scan finds nothing, no direct child of `p` at or
/// after `from` carries the name.
pub proof fn lemma_sfind_desc_scan_none_no_child(
    nodes: Seq<NodeV>,
    p: Option<int>,
    from: int,
    name: Seq<char>,
)
    requires
        0 <= from,
        sfind_desc_scan(nodes, p, from, name) is None,
    ensures
        forall|j: int|
            from <= j < nodes.len() && (#[trigger] nodes[j]).parent == p ==> nodes[j].name != name,
    decreases nodes.len() - from,
{
    if from < 0 || from >= nodes.len() {
    } else if nodes[from].parent == p {
        assert(sfind_subtree(nodes, from, name) is None);
        assert(nodes[from].name != name);
        lemma_sfind_desc_scan_none_no_child(nodes, p, from + 1, name);
    } else {
        lemma_sfind_desc_scan_none_no_child(nodes, p, from + 1, name);
    }
}

/// When the descendant lookup from `scope` finds nothing, no direct child
/// of the scope carries the name (on a well-formed forest).
pub proof fn lemma_sfind_descendant_none_no_child(
    nodes: Seq<NodeV>,
    scope: Option<int>,
    name: Seq<char>,
)
    requires
        sfind_descendant(nodes, scope, name) is None,
        wf_nodes(nodes),
        scope matches Some(s) ==> 0 <= s < nodes.len(),
    ensures
        forall|j: int|
            0 <= j < nodes.len() && (#[trigger] nodes[j]).parent == scope ==> nodes[j].name
                != name,
    decreases nodes.len(),
{
    match scope {
        Some(s) => {
            assert(sfind_subtree(nodes, s, name) is None);
            assert(sfind_desc_scan(nodes, Some(s), s + 1, name) is None);
            lemma_sfind_desc_scan_none_no_child(nodes, Some(s), s + 1, name);
            assert forall|j: int|
                0 <= j < nodes.len() && (#[trigger] nodes[j]).parent == Some(s) implies nodes[
                j
            ].name != name by {
                assert(s < j);
            }
        },
        None => {
            lemma_sfind_desc_scan_none_no_child(nodes, None, 0, name);
        },
    }
}

/// `add_state` preserves the per-scope uniqueness of names.
pub proof fn lemma_add_state_preserves_uniqueness(b: BuilderV, name: Seq<char>, ty: StateType)
    requires
        names_unique_per_scope(b.nodes),
    ensures
        names_unique_per_scope(spec_add_state(b, name, ty).0.nodes),
{
    let (b1, i) = spec_add_state(b, name, ty);
    lemma_sfind_in_scope_from_in_range(b.nodes, b.scope, name, 0);
    match sfind_in_scope(b.nodes, b.scope, name) {
        Some(i0) => {
            assert(b1.nodes.len() == b.nodes.len());
            assert forall|j: int, k: int|
                0 <= j < b1.nodes.len() && 0 <= k < b1.nodes.len() && j != k && (
                #[trigger] b1.nodes[j]).parent == (#[trigger] b1.nodes[k]).parent implies b1.nodes[
                j
            ].name != b1.nodes[k].name by {
                assert(b1.nodes[j].parent == b.nodes[j].parent && b1.nodes[j].name == b.nodes[
                    j
                ].name);
                assert(b1.nodes[k].parent == b.nodes[k].parent && b1.nodes[k].name == b.nodes[
                    k
                ].name);
            }
        },
        None => {
            lemma_sfind_in_scope_from_none(b.nodes, b.scope, name, 0);
            assert forall|j: int, k: int|
                0 <= j < b1.nodes.len() && 0 <= k < b1.nodes.len() && j != k && (
                #[trigger] b1.nodes[j]).parent == (#[trigger] b1.nodes[k]).parent implies b1.nodes[
                j
            ].name != b1.nodes[k].name by {
                if j < b.nodes.len() && k < b.nodes.len() {
                } else if j == b.nodes.len() {
                    assert(b1.nodes[j] == spec_new_node(name, ty, b.scope));
                    assert(b1.nodes[k] == b.nodes[k]);
                } else {
                    assert(b1.nodes[k] == spec_new_node(name, ty, b.scope));
                    assert(b1.nodes[j] == b.nodes[j]);
                }
            }
        },
    }
}

/// `find_or_create` (and with it `add_transition`) preserves the per-scope
/// uniqueness of names on a well-formed builder.
pub proof fn lemma_find_or_create_preserves_uniqueness(b: BuilderV, name: Seq<char>)
    requires
        names_unique_per_scope(b.nodes),
        builder_v_wf(b),
    ensures
        names_unique_per_scope(spec_find_or_create(b, name).0.nodes),
{
    let (b1, i) = spec_find_or_create(b, name);
    match sfind_descendant(b.nodes, b.scope, name) {
        Some(i0) => {},
        None => {
            lemma_sfind_descendant_none_no_child(b.nodes, b.scope, name);
            assert forall|j: int, k: int|
                0 <= j < b1.nodes.len() && 0 <= k < b1.nodes.len() && j != k && (
                #[trigger] b1.nodes[j]).parent == (#[trigger] b1.nodes[k]).parent implies b1.nodes[
                j
            ].name != b1.nodes[k].name by {
                if j < b.nodes.len() && k < b.nodes.len() {
                } else if j == b.nodes.len() {
                    assert(b1.nodes[j] == spec_new_node(name, StateType::Simple, b.scope));
                    assert(b1.nodes[k] == b.nodes[k]);
                } else {
                    assert(b1.nodes[k] == spec_new_node(name, StateType::Simple, b.scope));
                    assert(b1.nodes[j] == b.nodes[j]);
                }
            }
        },
    }
}

} // verus!
