//! Semantic validation of a built state arena, and the ghost model of a
//! finished FSM.
//!
//! Validation has two parts: the injective action-to-event mapping check and
//! the transition-conflict / guard-consistency check. This module also
//! defines the deepest-enter-state resolution and the root-enter-state
//! conditions that `build` enforces, all as pure specification functions
//! over the ghost node model.

use vstd::prelude::*;

use crate::builder::NodeV;
use crate::builder::StateData;
use crate::builder::TransV;
use crate::builder::TransitionData;
use crate::builder::nodes_v;
use crate::builder::wf_nodes;
use crate::error::Error;
use crate::scoped_arena::ScopedArena;
use crate::text::is_ws_char;
use crate::text::is_ws_char_exec;
use crate::text::str_eq;
use crate::types::Action;
use crate::types::Event;
use crate::types::StateType;

verus! {

/// The views of a vector of transition records.
pub open spec fn trans_views(ts: Seq<TransitionData>) -> Seq<TransV> {
    ts.map_values(|t: TransitionData| t@)
}

/// All transitions of the first `n` nodes, flattened in node order.
pub open spec fn all_transitions_up_to(nodes: Seq<NodeV>, n: int) -> Seq<TransV>
    decreases n,
{
    if n <= 0 {
        Seq::empty()
    } else {
        all_transitions_up_to(nodes, n - 1) + nodes[n - 1].transitions
    }
}

/// All transitions of the arena, flattened in node order.
pub open spec fn all_transitions(nodes: Seq<NodeV>) -> Seq<TransV> {
    all_transitions_up_to(nodes, nodes.len() as int)
}

/// The action-to-event mapping is injective: no action is attached to two
/// transitions with distinct events.
pub open spec fn injective_ok(ts: Seq<TransV>) -> bool {
    forall|p: int, q: int|
        0 <= p < ts.len() && 0 <= q < ts.len() && (#[trigger] ts[p]).action is Some && ts[p].action
            == (#[trigger] ts[q]).action ==> ts[p].event == ts[q].event
}

/// Whenever two distinct transitions leave the same state on the same event,
/// both carry a guard.
pub open spec fn groups_all_guarded(ts: Seq<TransV>) -> bool {
    forall|p: int, q: int|
        0 <= p < ts.len() && 0 <= q < ts.len() && p != q && (#[trigger] ts[p]).source == (
        #[trigger] ts[q]).source && ts[p].event == ts[q].event ==> ts[p].guard is Some
}

/// Whenever two distinct transitions leave the same state on the same event,
/// their guards differ.
pub open spec fn guards_distinct(ts: Seq<TransV>) -> bool {
    forall|p: int, q: int|
        0 <= p < ts.len() && 0 <= q < ts.len() && p != q && (#[trigger] ts[p]).source == (
        #[trigger] ts[q]).source && ts[p].event == ts[q].event ==> ts[p].guard != ts[q].guard
}

/// The transition-conflict condition as a whole: within every
/// (source state, event) group of two or more transitions, every member is
/// guarded and all guards are pairwise distinct.
pub open spec fn conflicts_ok(ts: Seq<TransV>) -> bool {
    groups_all_guarded(ts) && guards_distinct(ts)
}

/// The first child of node `i` (scanning all nodes from index `from`) whose
/// type is `Enter`.
pub open spec fn first_enter_child_from(nodes: Seq<NodeV>, i: int, from: int) -> Option<int>
    decreases nodes.len() - from,
{
    if from < 0 || from >= nodes.len() {
        None
    } else if nodes[from].parent == Some(i) && nodes[from].state_type == StateType::Enter {
        Some(from)
    } else {
        first_enter_child_from(nodes, i, from + 1)
    }
}

/// The first `Enter`-typed child of node `i`, in sibling order.
pub open spec fn first_enter_child(nodes: Seq<NodeV>, i: int) -> Option<int> {
    first_enter_child_from(nodes, i, 0)
}

/// Deepest-enter resolution: starting at `i`, repeatedly descend into the
/// first `Enter`-typed child; the terminal node (one without an `Enter`
/// child) is the result. On a well-formed forest every child has a larger
/// index, so the guard `i < j` never cuts the descent short.
pub open spec fn sdeepest_enter(nodes: Seq<NodeV>, i: int) -> int
    decreases nodes.len() - i,
{
    if i < 0 || i >= nodes.len() {
        i
    } else {
        match first_enter_child(nodes, i) {
            Some(j) => if i < j < nodes.len() {
                sdeepest_enter(nodes, j)
            } else {
                i
            },
            None => i,
        }
    }
}

/// How many root (parentless) nodes among the first `n` are `Enter`-typed.
pub open spec fn root_enter_count(nodes: Seq<NodeV>, n: int) -> int
    decreases n,
{
    if n <= 0 {
        0
    } else {
        root_enter_count(nodes, n - 1) + if nodes[n - 1].parent is None && nodes[n
            - 1].state_type == StateType::Enter {
            1int
        } else {
            0int
        }
    }
}

/// The first root node whose type is `Enter`, scanning from `from`.
pub open spec fn first_root_enter_from(nodes: Seq<NodeV>, from: int) -> Option<int>
    decreases nodes.len() - from,
{
    if from < 0 || from >= nodes.len() {
        None
    } else if nodes[from].parent is None && nodes[from].state_type == StateType::Enter {
        Some(from)
    } else {
        first_root_enter_from(nodes, from + 1)
    }
}

/// The first root node whose type is `Enter`.
pub open spec fn first_root_enter(nodes: Seq<NodeV>) -> Option<int> {
    first_root_enter_from(nodes, 0)
}

/// A name is blank when every character is whitespace (this is what an empty
/// trim leaves behind).
pub open spec fn name_blank(s: Seq<char>) -> bool {
    forall|i: int| 0 <= i < s.len() ==> is_ws_char(#[trigger] s[i])
}

/// The node sequence after deepest-enter linking: every node's `enter_state`
/// is set to its deepest-enter resolution; nothing else changes.
pub open spec fn spec_linked_nodes(nodes: Seq<NodeV>) -> Seq<NodeV> {
    Seq::new(
        nodes.len(),
        |i: int| NodeV { enter_state: Some(sdeepest_enter(nodes, i)), ..nodes[i] },
    )
}

/// Two node sequences of the same shape: equal length and pointwise equal
/// parent links and state types. Deepest-enter resolution and the root-enter
/// conditions depend on the shape alone.
pub open spec fn same_shape(a: Seq<NodeV>, b: Seq<NodeV>) -> bool {
    &&& a.len() == b.len()
    &&& forall|i: int|
        0 <= i < a.len() ==> (#[trigger] a[i]).parent == b[i].parent && a[i].state_type
            == b[i].state_type
}

pub proof fn lemma_first_enter_child_from_same_shape(a: Seq<NodeV>, b: Seq<NodeV>, i: int, from: int)
    requires
        same_shape(a, b),
    ensures
        first_enter_child_from(a, i, from) == first_enter_child_from(b, i, from),
    decreases a.len() - from,
{
    if from < 0 || from >= a.len() {
    } else {
        lemma_first_enter_child_from_same_shape(a, b, i, from + 1);
    }
}

pub proof fn lemma_sdeepest_enter_same_shape(a: Seq<NodeV>, b: Seq<NodeV>, i: int)
    requires
        same_shape(a, b),
    ensures
        sdeepest_enter(a, i) == sdeepest_enter(b, i),
    decreases a.len() - i,
{
    if i < 0 || i >= a.len() {
    } else {
        lemma_first_enter_child_from_same_shape(a, b, i, 0);
        match first_enter_child(a, i) {
            Some(j) => {
                if i < j < a.len() {
                    lemma_sdeepest_enter_same_shape(a, b, j);
                }
            },
            None => {},
        }
    }
}

pub proof fn lemma_root_enter_count_same_shape(a: Seq<NodeV>, b: Seq<NodeV>, n: int)
    requires
        same_shape(a, b),
        n <= a.len(),
    ensures
        root_enter_count(a, n) == root_enter_count(b, n),
    decreases n,
{
    if n > 0 {
        lemma_root_enter_count_same_shape(a, b, n - 1);
    }
}

pub proof fn lemma_first_root_enter_from_same_shape(a: Seq<NodeV>, b: Seq<NodeV>, from: int)
    requires
        same_shape(a, b),
    ensures
        first_root_enter_from(a, from) == first_root_enter_from(b, from),
    decreases a.len() - from,
{
    if from < 0 || from >= a.len() {
    } else {
        lemma_first_root_enter_from_same_shape(a, b, from + 1);
    }
}

/// A found first root enter state lies in range and is a root `Enter` node.
pub proof fn lemma_first_root_enter_from_props(nodes: Seq<NodeV>, from: int)
    ensures
        first_root_enter_from(nodes, from) matches Some(r) ==> from <= r < nodes.len()
            && nodes[r].parent is None && nodes[r].state_type == StateType::Enter,
    decreases nodes.len() - from,
{
    if from < 0 || from >= nodes.len() {
    } else if nodes[from].parent is None && nodes[from].state_type == StateType::Enter {
    } else {
        lemma_first_root_enter_from_props(nodes, from + 1);
    }
}

/// When the root-enter count over the first `n` nodes is positive, the scan
/// from 0 finds one.
pub proof fn lemma_root_enter_count_pos_finds(nodes: Seq<NodeV>, n: int)
    requires
        root_enter_count(nodes, n) > 0,
        n <= nodes.len(),
    ensures
        first_root_enter(nodes) is Some,
    decreases n,
{
    if n > 0 {
        if nodes[n - 1].parent is None && nodes[n - 1].state_type == StateType::Enter {
            lemma_first_root_enter_from_finds(nodes, 0, n - 1);
        } else {
            lemma_root_enter_count_pos_finds(nodes, n - 1);
        }
    }
}

proof fn lemma_first_root_enter_from_finds(nodes: Seq<NodeV>, from: int, w: int)
    requires
        0 <= from <= w < nodes.len(),
        nodes[w].parent is None,
        nodes[w].state_type == StateType::Enter,
    ensures
        first_root_enter_from(nodes, from) is Some,
    decreases nodes.len() - from,
{
    if from == w || (nodes[from].parent is None && nodes[from].state_type == StateType::Enter) {
    } else {
        lemma_first_root_enter_from_finds(nodes, from + 1, w);
    }
}

/// A deepest-enter resolution of an in-range node is in range.
pub proof fn lemma_sdeepest_enter_in_range(nodes: Seq<NodeV>, i: int)
    requires
        0 <= i < nodes.len(),
    ensures
        0 <= sdeepest_enter(nodes, i) < nodes.len(),
    decreases nodes.len() - i,
{
    match first_enter_child(nodes, i) {
        Some(j) => {
            lemma_first_enter_child_from_props(nodes, i, 0);
            if i < j < nodes.len() {
                lemma_sdeepest_enter_in_range(nodes, j);
            }
        },
        None => {},
    }
}

/// A found first enter child lies in range and is an `Enter` child of `i`.
pub proof fn lemma_first_enter_child_from_props(nodes: Seq<NodeV>, i: int, from: int)
    ensures
        first_enter_child_from(nodes, i, from) matches Some(j) ==> from <= j < nodes.len()
            && nodes[j].parent == Some(i) && nodes[j].state_type == StateType::Enter,
    decreases nodes.len() - from,
{
    if from < 0 || from >= nodes.len() {
    } else if nodes[from].parent == Some(i) && nodes[from].state_type == StateType::Enter {
    } else {
        lemma_first_enter_child_from_props(nodes, i, from + 1);
    }
}

/// Ghost model of a finished FSM: the diagram name, the id of the resolved
/// root enter state, and the node forest.
#[verifier::ext_equal]
pub struct FsmV {
    pub name: Seq<char>,
    pub enter: int,
    pub nodes: Seq<NodeV>,
}

/// The invariants of a successfully built FSM:
/// - the node forest and its transitions are well-formed,
/// - exactly one root-level node is `Enter`-typed,
/// - every node's `enter_state` is its deepest-enter resolution,
/// - the FSM's enter state is the deepest-enter resolution of the unique
///   root enter state, and
/// - the name is not blank.
pub open spec fn fsm_v_wf(f: FsmV) -> bool {
    &&& wf_nodes(f.nodes)
    &&& root_enter_count(f.nodes, f.nodes.len() as int) == 1
    &&& forall|j: int|
        0 <= j < f.nodes.len() ==> (#[trigger] f.nodes[j]).enter_state == Some(
            sdeepest_enter(f.nodes, j),
        )
    &&& 0 <= f.enter < f.nodes.len()
    &&& first_root_enter(f.nodes) matches Some(r) && f.enter == sdeepest_enter(f.nodes, r)
    &&& !name_blank(f.name)
}

/// Collects copies of every transition in the arena, flattened in node
/// order.
fn collect_transitions(arena: &ScopedArena<StateData>) -> (r: Vec<TransitionData>)
    ensures
        trans_views(r@) == all_transitions(nodes_v(arena.spec_nodes())),
{
    let ghost nodes = nodes_v(arena.spec_nodes());
    let n = arena.len();
    let mut r: Vec<TransitionData> = Vec::new();
    let mut j: usize = 0;
    while j < n
        invariant
            n == nodes.len(),
            nodes == nodes_v(arena.spec_nodes()),
            j <= n,
            trans_views(r@) =~~= all_transitions_up_to(nodes, j as int),
        decreases n - j,
    {
        let m = arena.get(j).transitions.len();
        let mut k: usize = 0;
        while k < m
            invariant
                n == nodes.len(),
                nodes == nodes_v(arena.spec_nodes()),
                j < n,
                m == nodes[j as int].transitions.len(),
                k <= m,
                trans_views(r@) =~~= all_transitions_up_to(nodes, j as int)
                    + nodes[j as int].transitions.subrange(0, k as int),
            decreases m - k,
        {
            let t = &arena.get(j).transitions[k];
            let copied = TransitionData {
                source: t.source,
                destination: t.destination,
                event: Event(t.event.0.clone()),
                action: match &t.action {
                    Some(a) => Some(Action(a.0.clone())),
                    None => None,
                },
                guard: match &t.guard {
                    Some(g) => Some(Action(g.0.clone())),
                    None => None,
                },
            };
            proof {
                assert(copied@ =~~= nodes[j as int].transitions[k as int]);
            }
            let ghost r_old = r@;
            r.push(copied);
            proof {
                assert(trans_views(r@) =~~= trans_views(r_old).push(copied@));
                assert(nodes[j as int].transitions.subrange(0, k as int + 1) =~~= nodes[
                    j as int
                ].transitions.subrange(0, k as int).push(nodes[j as int].transitions[k as int]));
                assert(trans_views(r@) =~~= all_transitions_up_to(nodes, j as int) + nodes[
                    j as int
                ].transitions.subrange(0, k as int + 1));
            }
            k += 1;
        }
        proof {
            assert(nodes[j as int].transitions.subrange(0, m as int) =~~= nodes[j as int].transitions);
            assert(all_transitions_up_to(nodes, j as int + 1) =~~= all_transitions_up_to(
                nodes,
                j as int,
            ) + nodes[j as int].transitions);
        }
        j += 1;
    }
    r
}

/// Fails when some action is attached to two transitions with distinct
/// events anywhere in the arena; the message names the action and both
/// events.
pub fn injective_action_mapping(arena: &ScopedArena<StateData>) -> (r: Result<(), Error>)
    ensures
        r is Ok <==> injective_ok(all_transitions(nodes_v(arena.spec_nodes()))),
        r is Err ==> r->Err_0 is Parse,
{
    let ts = collect_transitions(arena);
    let ghost tv = all_transitions(nodes_v(arena.spec_nodes()));
    let n = ts.len();
    let mut p: usize = 0;
    while p < n
        invariant
            n == ts.len(),
            trans_views(ts@) == tv,
            tv == all_transitions(nodes_v(arena.spec_nodes())),
            forall|a: int, b: int|
                0 <= a < p && 0 <= b < n && (#[trigger] tv[a]).action is Some && tv[a].action == (
                #[trigger] tv[b]).action ==> tv[a].event == tv[b].event,
        decreases n - p,
    {
        if ts[p].action.is_some() {
            let mut q: usize = 0;
            while q < n
                invariant
                    n == ts.len(),
                    p < n,
                    trans_views(ts@) == tv,
                    tv == all_transitions(nodes_v(arena.spec_nodes())),
                    tv[p as int].action is Some,
                    forall|b: int|
                        0 <= b < q && (#[trigger] tv[b]).action == tv[p as int].action ==> tv[
                            p as int
                        ].event == tv[b].event,
                decreases n - q,
            {
                let same_action = match (&ts[p].action, &ts[q].action) {
                    (Some(a), Some(b)) => str_eq(a.0.as_str(), b.0.as_str()),
                    _ => false,
                };
                if same_action && !str_eq(ts[p].event.0.as_str(), ts[q].event.0.as_str()) {
                    let msg = match &ts[p].action {
                        Some(a) => String::from_str("Action ").concat(a.0.as_str()),
                        None => String::from_str("Action"),
                    };
                    let msg = msg.concat(" is associated with multiple events: ").concat(
                        ts[p].event.0.as_str(),
                    ).concat(", ").concat(ts[q].event.0.as_str());
                    proof {
                        assert(tv[p as int] == ts@[p as int]@);
                        assert(tv[q as int] == ts@[q as int]@);
                        assert(tv[p as int].action is Some && tv[p as int].action
                            == tv[q as int].action && tv[p as int].event != tv[q as int].event);
                        assert(!injective_ok(tv)) by {
                            if injective_ok(tv) {
                                assert(tv[p as int].event == tv[q as int].event);
                            }
                        }
                    }
                    return Err(Error::Parse(msg));
                }
                q += 1;
            }
        }
        p += 1;
    }
    Ok(())
}

/// Fails when two distinct transitions leave the same state on the same
/// event and at least one of them is unguarded.
pub fn no_conflicting_transitions(arena: &ScopedArena<StateData>) -> (r: Result<(), Error>)
    ensures
        r is Ok <==> groups_all_guarded(all_transitions(nodes_v(arena.spec_nodes()))),
        r is Err ==> r->Err_0 is Parse,
{
    let ts = collect_transitions(arena);
    let ghost tv = all_transitions(nodes_v(arena.spec_nodes()));
    let n = ts.len();
    let mut p: usize = 0;
    while p < n
        invariant
            n == ts.len(),
            trans_views(ts@) == tv,
            tv == all_transitions(nodes_v(arena.spec_nodes())),
            forall|a: int, b: int|
                0 <= a < p && 0 <= b < n && a != b && (#[trigger] tv[a]).source == (
                #[trigger] tv[b]).source && tv[a].event == tv[b].event ==> tv[a].guard is Some,
        decreases n - p,
    {
        let mut q: usize = 0;
        while q < n
            invariant
                n == ts.len(),
                p < n,
                trans_views(ts@) == tv,
                tv == all_transitions(nodes_v(arena.spec_nodes())),
                forall|b: int|
                    0 <= b < q && p != b && (#[trigger] tv[b]).source == tv[p as int].source && tv[
                        p as int
                    ].event == tv[b].event ==> tv[p as int].guard is Some,
            decreases n - q,
        {
            if p != q && ts[p].source == ts[q].source && str_eq(
                ts[p].event.0.as_str(),
                ts[q].event.0.as_str(),
            ) && ts[p].guard.is_none() {
                let msg = String::from_str("State has multiple transitions for event ").concat(
                    ts[p].event.0.as_str(),
                );
                proof {
                    assert(tv[p as int] == ts@[p as int]@);
                    assert(tv[q as int] == ts@[q as int]@);
                    assert(tv[p as int].source == tv[q as int].source && tv[p as int].event
                        == tv[q as int].event && tv[p as int].guard is None);
                    assert(!groups_all_guarded(tv)) by {
                        if groups_all_guarded(tv) {
                            assert(tv[p as int].guard is Some);
                        }
                    }
                }
                return Err(Error::Parse(msg));
            }
            q += 1;
        }
        p += 1;
    }
    Ok(())
}

/// Fails when two distinct transitions leave the same state on the same
/// event with equal guards (both missing counts as equal).
pub fn unique_guards_per_event(arena: &ScopedArena<StateData>) -> (r: Result<(), Error>)
    ensures
        r is Ok <==> guards_distinct(all_transitions(nodes_v(arena.spec_nodes()))),
        r is Err ==> r->Err_0 is Parse,
{
    let ts = collect_transitions(arena);
    let ghost tv = all_transitions(nodes_v(arena.spec_nodes()));
    let n = ts.len();
    let mut p: usize = 0;
    while p < n
        invariant
            n == ts.len(),
            trans_views(ts@) == tv,
            tv == all_transitions(nodes_v(arena.spec_nodes())),
            forall|a: int, b: int|
                0 <= a < p && 0 <= b < n && a != b && (#[trigger] tv[a]).source == (
                #[trigger] tv[b]).source && tv[a].event == tv[b].event ==> tv[a].guard != tv[b].guard,
        decreases n - p,
    {
        let mut q: usize = 0;
        while q < n
            invariant
                n == ts.len(),
                p < n,
                trans_views(ts@) == tv,
                tv == all_transitions(nodes_v(arena.spec_nodes())),
                forall|b: int|
                    0 <= b < q && p != b && (#[trigger] tv[b]).source == tv[p as int].source && tv[
                        p as int
                    ].event == tv[b].event ==> tv[p as int].guard != tv[b].guard,
            decreases n - q,
        {
            if p != q && ts[p].source == ts[q].source && str_eq(
                ts[p].event.0.as_str(),
                ts[q].event.0.as_str(),
            ) {
                let guards_equal = match (&ts[p].guard, &ts[q].guard) {
                    (Some(a), Some(b)) => str_eq(a.0.as_str(), b.0.as_str()),
                    (None, None) => true,
                    _ => false,
                };
                if guards_equal {
                    let msg = String::from_str("Duplicate guard for event ").concat(
                        ts[p].event.0.as_str(),
                    );
                    proof {
                        assert(tv[p as int] == ts@[p as int]@);
                        assert(tv[q as int] == ts@[q as int]@);
                        assert(tv[p as int].source == tv[q as int].source && tv[p as int].event
                            == tv[q as int].event && tv[p as int].guard == tv[q as int].guard);
                        assert(!guards_distinct(tv)) by {
                            if guards_distinct(tv) {
                                assert(tv[p as int].guard != tv[q as int].guard);
                            }
                        }
                    }
                    return Err(Error::Parse(msg));
                }
            }
            q += 1;
        }
        p += 1;
    }
    Ok(())
}

/// Whether the whole string is whitespace.
pub fn is_blank(s: &str) -> (r: bool)
    ensures
        r == name_blank(s@),
{
    let n = s.unicode_len();
    let mut i: usize = 0;
    while i < n
        invariant
            n == s@.len(),
            i <= n,
            forall|k: int| 0 <= k < i ==> is_ws_char(#[trigger] s@[k]),
        decreases n - i,
    {
        if !is_ws_char_exec(s.get_char(i)) {
            return false;
        }
        i += 1;
    }
    true
}

/// The conditions under which `build` succeeds: an injective action
/// mapping, conflict-free transitions, exactly one root enter state, and a
/// non-blank name.
pub open spec fn spec_build_ok(b: crate::builder::BuilderV) -> bool {
    &&& injective_ok(all_transitions(b.nodes))
    &&& conflicts_ok(all_transitions(b.nodes))
    &&& root_enter_count(b.nodes, b.nodes.len() as int) == 1
    &&& !name_blank(b.name)
}

/// The FSM that a successful `build` returns: the builder's nodes after
/// deepest-enter linking, entered at the deepest-enter resolution of the
/// unique root enter state.
pub open spec fn spec_build_fsm(b: crate::builder::BuilderV) -> FsmV {
    FsmV {
        name: b.name,
        enter: sdeepest_enter(b.nodes, first_root_enter(b.nodes)->0),
        nodes: spec_linked_nodes(b.nodes),
    }
}

/// Flattening over a prefix of the nodes yields a prefix of the flattening
/// over more nodes.
pub proof fn lemma_up_to_prefix(nodes: Seq<NodeV>, i: int, j: int)
    requires
        0 <= i <= j,
    ensures
        all_transitions_up_to(nodes, i).len() <= all_transitions_up_to(nodes, j).len(),
        forall|k: int|
            0 <= k < all_transitions_up_to(nodes, i).len() ==> #[trigger] all_transitions_up_to(
                nodes,
                j,
            )[k] == all_transitions_up_to(nodes, i)[k],
    decreases j - i,
{
    if i < j {
        lemma_up_to_prefix(nodes, i, j - 1);
        assert(all_transitions_up_to(nodes, j) == all_transitions_up_to(nodes, j - 1) + nodes[j
            - 1].transitions);
    }
}

/// Deepest-enter resolution is terminal: the resolved state has no
/// `Enter`-typed child of its own, so resolving it again changes nothing.
/// On a well-formed forest the resolution therefore descends through every
/// level of nested `Enter` children down to the innermost leaf.
pub proof fn lemma_sdeepest_enter_terminal(nodes: Seq<NodeV>, i: int)
    requires
        wf_nodes(nodes),
        0 <= i < nodes.len(),
    ensures
        first_enter_child(nodes, sdeepest_enter(nodes, i)) is None,
        sdeepest_enter(nodes, sdeepest_enter(nodes, i)) == sdeepest_enter(nodes, i),
    decreases nodes.len() - i,
{
    match first_enter_child(nodes, i) {
        Some(j) => {
            lemma_first_enter_child_from_props(nodes, i, 0);
            assert(nodes[j].parent == Some(i));
            assert(i < j);
            lemma_sdeepest_enter_terminal(nodes, j);
        },
        None => {},
    }
}

} // verus!
