//! The parse driver: turns a diagram text into a validated [`ParsedFsm`].
//!
//! The grammar parser yields an element tree; this module walks it
//! depth-first, populating the builder — enter states first, then
//! transitions (through the transition-label sub-parser), then
//! state-description actions, then nested composites, each inside its own
//! scope — and finally runs `build`. The whole pipeline is pinned by
//! [`spec_try_parse`].

use vstd::prelude::*;

use crate::builder::BuilderV;
use crate::builder::NodeV;
use crate::builder::ParsedFsmBuilder;
use crate::builder::TransitionParameters;
use crate::builder::spec_add_enter_action;
use crate::builder::spec_add_exit_action;
use crate::builder::spec_add_state;
use crate::builder::spec_add_transition;
use crate::context::StateAction;
use crate::context::parse_state_description;
use crate::context::parse_transaction_description;
use crate::context::spec_parse_label;
use crate::context::spec_parse_state_desc;
use crate::error::Error;
use crate::fsm::ParsedFsm;
use crate::plantuml::CompositeState;
use crate::plantuml::CompositeV;
use crate::plantuml::ElementsV;
use crate::plantuml::StateDiagram;
use crate::plantuml::StateElements;
use crate::plantuml::TransDescV;
use crate::plantuml::diagram_elems_v;
use crate::plantuml::elems_v;
use crate::plantuml::opt_str_v;
use crate::plantuml::spec_parse_diagram;
use crate::types::StateType;
use crate::validation::FsmV;
use crate::validation::spec_build_fsm;
use crate::validation::spec_build_ok;

verus! {

broadcast use vstd::std_specs::vec::group_vec_axioms, vstd::seq::group_seq_axioms;

/// The ghost model of a composite-state block.
pub open spec fn composite_v(c: CompositeState) -> CompositeV {
    CompositeV { name: c.name@, elements: elems_v(c.elements) }
}

/// The builder after adding the first `n` names as `Enter` states.
pub open spec fn spec_add_enters(b: BuilderV, names: Seq<Seq<char>>, n: int) -> BuilderV
    decreases n,
{
    if n <= 0 || n > names.len() {
        b
    } else {
        spec_add_state(spec_add_enters(b, names, n - 1), names[n - 1], StateType::Enter).0
    }
}

/// The builder after adding the first `n` transition lines, each with its
/// label parsed; `None` when some label is malformed.
pub open spec fn spec_add_transitions(b: BuilderV, ts: Seq<TransDescV>, n: int) -> Option<BuilderV>
    decreases n,
{
    if n <= 0 || n > ts.len() {
        Some(b)
    } else {
        match spec_add_transitions(b, ts, n - 1) {
            Some(b1) => match spec_parse_label(ts[n - 1].description) {
                Some(lbl) => Some(
                    spec_add_transition(b1, ts[n - 1].from, ts[n - 1].to, lbl.0, lbl.2, lbl.1),
                ),
                None => None,
            },
            None => None,
        }
    }
}

/// The builder after applying the first `n` state-description lines;
/// descriptions that are not enter or exit annotations are ignored.
pub open spec fn spec_add_descs(b: BuilderV, ds: Seq<(Seq<char>, Seq<char>)>, n: int) -> BuilderV
    decreases n,
{
    if n <= 0 || n > ds.len() {
        b
    } else {
        let b1 = spec_add_descs(b, ds, n - 1);
        match spec_parse_state_desc(ds[n - 1].1) {
            Some(t) => if t.0 {
                spec_add_enter_action(b1, ds[n - 1].0, t.1)
            } else {
                spec_add_exit_action(b1, ds[n - 1].0, t.1)
            },
            None => b1,
        }
    }
}

/// The builder after processing the first `n` composite blocks under
/// `parent`, depth-first and in declaration order.
pub open spec fn spec_process_composites(
    b: BuilderV,
    cs: Seq<CompositeV>,
    n: int,
    parent: Option<int>,
) -> Option<BuilderV>
    decreases cs, 0int, n,
{
    if n <= 0 || n > cs.len() {
        Some(b)
    } else {
        match spec_process_composites(b, cs, n - 1, parent) {
            Some(b1) => spec_process_one(b1, cs[n - 1], parent),
            None => None,
        }
    }
}

/// The builder after processing one composite block: create (or reuse) its
/// state in the parent scope, then, inside its own scope, add its enter
/// states, its transitions, its state-description actions, and its nested
/// composites.
pub open spec fn spec_process_one(b: BuilderV, c: CompositeV, parent: Option<int>) -> Option<
    BuilderV,
>
    decreases c, 1int, 0int,
{
    let b1 = BuilderV { scope: parent, ..b };
    let (b2, id) = spec_add_state(b1, c.name, StateType::Simple);
    let b3 = BuilderV { scope: Some(id), ..b2 };
    let b4 = spec_add_enters(b3, c.elements.enters, c.elements.enters.len() as int);
    match spec_add_transitions(b4, c.elements.transitions, c.elements.transitions.len() as int) {
        Some(b5) => {
            let b6 = spec_add_descs(b5, c.elements.descriptions, c.elements.descriptions.len() as int);
            spec_process_composites(
                b6,
                c.elements.composites,
                c.elements.composites.len() as int,
                Some(id),
            )
        },
        None => None,
    }
}

/// The builder after processing a whole element tree at top level.
pub open spec fn spec_process_elements(b: BuilderV, e: ElementsV) -> Option<BuilderV> {
    let b1 = spec_add_enters(b, e.enters, e.enters.len() as int);
    match spec_add_transitions(b1, e.transitions, e.transitions.len() as int) {
        Some(b2) => {
            let b3 = spec_add_descs(b2, e.descriptions, e.descriptions.len() as int);
            match spec_process_composites(b3, e.composites, e.composites.len() as int, None) {
                Some(b4) => Some(BuilderV { scope: None, ..b4 }),
                None => None,
            }
        },
        None => None,
    }
}

/// The empty builder named after the diagram.
pub open spec fn spec_initial_builder(name: Option<Seq<char>>) -> BuilderV {
    BuilderV {
        name: match name {
            Some(nm) => nm,
            None => Seq::empty(),
        },
        nodes: Seq::empty(),
        scope: None,
    }
}

/// What a whole diagram text parses and builds to: `Some(fsm)` exactly when
/// the grammar accepts the text, every transition label is well-formed, and
/// the built model passes validation.
pub open spec fn spec_try_parse(s: Seq<char>) -> Option<FsmV> {
    match spec_parse_diagram(s) {
        Some(t) => match spec_process_elements(spec_initial_builder(t.0), t.1) {
            Some(b) => if spec_build_ok(b) {
                Some(spec_build_fsm(b))
            } else {
                None
            },
            None => None,
        },
        None => None,
    }
}

fn add_enters(builder: &mut ParsedFsmBuilder, names: &Vec<String>)
    requires
        old(builder).wf(),
    ensures
        final(builder).wf(),
        final(builder)@ == spec_add_enters(
            old(builder)@,
            names@.map_values(|s: String| s@),
            names@.len() as int,
        ),
{
    let ghost b0 = builder@;
    let ghost nv = names@.map_values(|s: String| s@);
    let n = names.len();
    let mut k: usize = 0;
    while k < n
        invariant
            builder.wf(),
            n == names@.len(),
            nv == names@.map_values(|s: String| s@),
            k <= n,
            builder@ == spec_add_enters(b0, nv, k as int),
        decreases n - k,
    {
        proof {
            assert(nv[k as int] == names@[k as int]@);
        }
        builder.add_state(names[k].as_str(), StateType::Enter);
        k += 1;
    }
}

fn add_transitions(builder: &mut ParsedFsmBuilder, ts: &Vec<crate::plantuml::TransitionDescription>)
    -> (r: Result<(), Error>)
    requires
        old(builder).wf(),
    ensures
        final(builder).wf(),
        ({
            let s = spec_add_transitions(
                old(builder)@,
                ts@.map_values(|t: crate::plantuml::TransitionDescription|
                    crate::plantuml::trans_desc_v(t)),
                ts@.len() as int,
            );
            &&& (r is Ok <==> s is Some)
            &&& (r is Ok ==> final(builder)@ == s->0)
            &&& (r is Err ==> r->Err_0 is Parse)
        }),
{
    let ghost b0 = builder@;
    let ghost tv = ts@.map_values(
        |t: crate::plantuml::TransitionDescription| crate::plantuml::trans_desc_v(t),
    );
    let n = ts.len();
    let mut k: usize = 0;
    while k < n
        invariant
            builder.wf(),
            n == ts@.len(),
            b0 == old(builder)@,
            tv == ts@.map_values(
                |t: crate::plantuml::TransitionDescription| crate::plantuml::trans_desc_v(t),
            ),
            k <= n,
            Some(builder@) == spec_add_transitions(b0, tv, k as int),
        decreases n - k,
    {
        proof {
            assert(tv[k as int] == crate::plantuml::trans_desc_v(ts@[k as int]));
        }
        let t = &ts[k];
        let ctx = match parse_transaction_description(t.description.as_str()) {
            Ok(ctx) => ctx,
            Err(e) => {
                proof {
                    lemma_spec_add_transitions_none(b0, tv, k as int, n as int);
                }
                return Err(e);
            },
        };
        builder.add_transition(
            TransitionParameters {
                source: t.from.as_str(),
                target: t.to.as_str(),
                event: ctx.event,
                action: ctx.action,
                guard: ctx.guard,
            },
        );
        k += 1;
    }
    Ok(())
}

fn add_descs(builder: &mut ParsedFsmBuilder, ds: &Vec<crate::plantuml::StateDescription>)
    requires
        old(builder).wf(),
    ensures
        final(builder).wf(),
        final(builder)@ == spec_add_descs(
            old(builder)@,
            ds@.map_values(|d: crate::plantuml::StateDescription| (d.name@, d.description@)),
            ds@.len() as int,
        ),
{
    let ghost b0 = builder@;
    let ghost dv = ds@.map_values(
        |d: crate::plantuml::StateDescription| (d.name@, d.description@),
    );
    let n = ds.len();
    let mut k: usize = 0;
    while k < n
        invariant
            builder.wf(),
            n == ds@.len(),
            dv == ds@.map_values(
                |d: crate::plantuml::StateDescription| (d.name@, d.description@),
            ),
            k <= n,
            builder@ == spec_add_descs(b0, dv, k as int),
        decreases n - k,
    {
        proof {
            assert(dv[k as int] == (ds@[k as int].name@, ds@[k as int].description@));
        }
        let d = &ds[k];
        match parse_state_description(d.description.as_str()) {
            Some(StateAction::Entry(a)) => {
                builder.add_enter_action(d.name.as_str(), a);
            },
            Some(StateAction::Exit(a)) => {
                builder.add_exit_action(d.name.as_str(), a);
            },
            None => {},
        }
        k += 1;
    }
}

fn process_one_composite(
    builder: &mut ParsedFsmBuilder,
    c: &CompositeState,
    parent: Option<usize>,
) -> (r: Result<(), Error>)
    requires
        old(builder).wf(),
        parent matches Some(p) ==> (p as int) < old(builder)@.nodes.len(),
    ensures
        final(builder).wf(),
        ({
            let s = spec_process_one(old(builder)@, composite_v(*c), crate::builder::opt_id_v(parent));
            &&& (r is Ok <==> s is Some)
            &&& (r is Ok ==> final(builder)@ == s->0)
            &&& (r is Err ==> r->Err_0 is Parse)
        }),
    decreases *c,
{
    let ghost b_start = builder@;
    let ghost cv = composite_v(*c);
    let ghost pv = crate::builder::opt_id_v(parent);
    builder.set_scope(parent);
    let id = builder.add_state(c.name.as_str(), StateType::Simple);
    let ghost b2v = builder@;
    builder.set_scope(Some(id));
    add_enters(builder, &c.elements.enter_states);
    match add_transitions(builder, &c.elements.transitions) {
        Ok(()) => {},
        Err(e) => {
            return Err(e);
        },
    }
    add_descs(builder, &c.elements.state_descriptions);
    let ghost b6 = builder@;
    let ghost csv = elems_v(c.elements).composites;
    proof {
        lemma_spec_add_enters_grows(
            BuilderV { scope: Some(id as int), ..b2v },
            cv.elements.enters,
            cv.elements.enters.len() as int,
        );
        lemma_spec_add_transitions_grows(
            spec_add_enters(
                BuilderV { scope: Some(id as int), ..b2v },
                cv.elements.enters,
                cv.elements.enters.len() as int,
            ),
            cv.elements.transitions,
            cv.elements.transitions.len() as int,
        );
        lemma_spec_add_descs_grows(
            spec_add_transitions(
                spec_add_enters(
                    BuilderV { scope: Some(id as int), ..b2v },
                    cv.elements.enters,
                    cv.elements.enters.len() as int,
                ),
                cv.elements.transitions,
                cv.elements.transitions.len() as int,
            )->0,
            cv.elements.descriptions,
            cv.elements.descriptions.len() as int,
        );
        assert((id as int) < b6.nodes.len());
        assert(spec_process_one(b_start, cv, pv) == spec_process_composites(
            b6,
            cv.elements.composites,
            cv.elements.composites.len() as int,
            Some(id as int),
        ));
    }
    let n = c.elements.composite_states.len();
    let mut k: usize = 0;
    while k < n
        invariant
            builder.wf(),
            n == c.elements.composite_states@.len(),
            csv == elems_v(c.elements).composites,
            cv == composite_v(*c),
            csv == cv.elements.composites,
            csv.len() == n,
            (id as int) < b6.nodes.len(),
            k <= n,
            Some(builder@) == spec_process_composites(b6, csv, k as int, Some(id as int)),
            (id as int) < builder@.nodes.len(),
            b_start == old(builder)@,
            cv == composite_v(*c),
            pv == crate::builder::opt_id_v(parent),
            spec_process_one(b_start, cv, pv) == spec_process_composites(
                b6,
                csv,
                n as int,
                Some(id as int),
            ),
        decreases n - k,
    {
        proof {
            assert(csv[k as int] == composite_v(c.elements.composite_states@[k as int]));
        }
        match process_one_composite(builder, &c.elements.composite_states[k], Some(id)) {
            Ok(()) => {},
            Err(e) => {
                proof {
                    lemma_spec_process_composites_none(
                        b6,
                        csv,
                        k as int,
                        n as int,
                        Some(id as int),
                    );
                }
                return Err(e);
            },
        }
        proof {
            lemma_spec_process_one_grows(
                spec_process_composites(b6, csv, k as int, Some(id as int))->0,
                csv[k as int],
                Some(id as int),
            );
        }
        k += 1;
    }
    Ok(())
}

/// Once one transition's label fails to parse, the whole fold fails.
pub proof fn lemma_spec_add_transitions_none(
    b: BuilderV,
    ts: Seq<TransDescV>,
    k: int,
    m: int,
)
    requires
        0 <= k < m <= ts.len(),
        spec_add_transitions(b, ts, k) is Some,
        spec_parse_label(ts[k].description) is None,
    ensures
        spec_add_transitions(b, ts, m) is None,
    decreases m,
{
    if m == k + 1 {
    } else {
        lemma_spec_add_transitions_none(b, ts, k, m - 1);
    }
}

/// Once one composite step fails, the whole fold fails.
pub proof fn lemma_spec_process_composites_none(
    b: BuilderV,
    cs: Seq<CompositeV>,
    k: int,
    m: int,
    parent: Option<int>,
)
    requires
        0 <= k < m <= cs.len(),
        spec_process_composites(b, cs, k, parent) matches Some(b1) && spec_process_one(
            b1,
            cs[k],
            parent,
        ) is None,
    ensures
        spec_process_composites(b, cs, m, parent) is None,
    decreases m,
{
    if m == k + 1 {
    } else {
        lemma_spec_process_composites_none(b, cs, k, m - 1, parent);
    }
}

/// A successful composite step never shrinks the arena.
pub proof fn lemma_spec_process_one_grows(b: BuilderV, c: CompositeV, parent: Option<int>)
    ensures
        spec_process_one(b, c, parent) matches Some(b2) ==> b2.nodes.len() >= b.nodes.len()
            && b2.name == b.name,
    decreases c, 1int, 0int,
{
    let b1 = BuilderV { scope: parent, ..b };
    let (b2, id) = spec_add_state(b1, c.name, StateType::Simple);
    let b3 = BuilderV { scope: Some(id), ..b2 };
    lemma_spec_add_state_grows(b1, c.name, StateType::Simple);
    let b4 = spec_add_enters(b3, c.elements.enters, c.elements.enters.len() as int);
    lemma_spec_add_enters_grows(b3, c.elements.enters, c.elements.enters.len() as int);
    match spec_add_transitions(b4, c.elements.transitions, c.elements.transitions.len() as int) {
        Some(b5) => {
            lemma_spec_add_transitions_grows(
                b4,
                c.elements.transitions,
                c.elements.transitions.len() as int,
            );
            let b6 = spec_add_descs(b5, c.elements.descriptions, c.elements.descriptions.len() as int);
            lemma_spec_add_descs_grows(
                b5,
                c.elements.descriptions,
                c.elements.descriptions.len() as int,
            );
            lemma_spec_process_composites_grows(
                b6,
                c.elements.composites,
                c.elements.composites.len() as int,
                Some(id),
            );
        },
        None => {},
    }
}

/// Processing composites never shrinks the arena.
pub proof fn lemma_spec_process_composites_grows(
    b: BuilderV,
    cs: Seq<CompositeV>,
    n: int,
    parent: Option<int>,
)
    ensures
        spec_process_composites(b, cs, n, parent) matches Some(b2) ==> b2.nodes.len()
            >= b.nodes.len() && b2.name == b.name,
    decreases cs, 0int, n,
{
    if n <= 0 || n > cs.len() {
    } else {
        lemma_spec_process_composites_grows(b, cs, n - 1, parent);
        match spec_process_composites(b, cs, n - 1, parent) {
            Some(b1) => {
                lemma_spec_process_one_grows(b1, cs[n - 1], parent);
            },
            None => {},
        }
    }
}

/// One `add_state` never shrinks the arena.
pub proof fn lemma_spec_add_state_grows(b: BuilderV, name: Seq<char>, ty: StateType)
    ensures
        spec_add_state(b, name, ty).0.nodes.len() >= b.nodes.len(),
        spec_add_state(b, name, ty).0.name == b.name,
        spec_add_state(b, name, ty).0.scope == b.scope,
{
    crate::builder::lemma_sfind_in_scope_from_in_range(b.nodes, b.scope, name, 0);
}

/// Adding enter states never shrinks the arena.
pub proof fn lemma_spec_add_enters_grows(b: BuilderV, names: Seq<Seq<char>>, n: int)
    ensures
        spec_add_enters(b, names, n).nodes.len() >= b.nodes.len(),
        spec_add_enters(b, names, n).name == b.name,
        spec_add_enters(b, names, n).scope == b.scope,
    decreases n,
{
    if n <= 0 || n > names.len() {
    } else {
        lemma_spec_add_enters_grows(b, names, n - 1);
        lemma_spec_add_state_grows(spec_add_enters(b, names, n - 1), names[n - 1], StateType::Enter);
    }
}

/// Adding transitions never shrinks the arena.
pub proof fn lemma_spec_add_transitions_grows(b: BuilderV, ts: Seq<TransDescV>, n: int)
    ensures
        spec_add_transitions(b, ts, n) matches Some(b2) ==> b2.nodes.len() >= b.nodes.len()
            && b2.name == b.name && b2.scope == b.scope,
    decreases n,
{
    if n <= 0 || n > ts.len() {
    } else {
        lemma_spec_add_transitions_grows(b, ts, n - 1);
        match spec_add_transitions(b, ts, n - 1) {
            Some(b1) => {
                match spec_parse_label(ts[n - 1].description) {
                    Some(lbl) => {
                        lemma_spec_find_or_create_in_range(b1, ts[n - 1].from);
                        let (b2, from) = crate::builder::spec_find_or_create(b1, ts[n - 1].from);
                        lemma_spec_find_or_create_in_range(b2, ts[n - 1].to);
                        let (b3, to) = crate::builder::spec_find_or_create(b2, ts[n - 1].to);
                        assert(b2.nodes.len() >= b1.nodes.len());
                        assert(b3.nodes.len() >= b2.nodes.len());
                        assert(0 <= from < b3.nodes.len());
                        assert(spec_add_transition(
                            b1,
                            ts[n - 1].from,
                            ts[n - 1].to,
                            lbl.0,
                            lbl.2,
                            lbl.1,
                        ).nodes.len() == b3.nodes.len());
                    },
                    None => {},
                }
            },
            None => {},
        }
    }
}

/// One `add_transition` never shrinks the arena.
pub proof fn lemma_spec_add_transition_grows(
    b: BuilderV,
    source: Seq<char>,
    target: Seq<char>,
    event: Seq<char>,
    action: Option<Seq<char>>,
    guard: Option<Seq<char>>,
)
    ensures
        spec_add_transition(b, source, target, event, action, guard).nodes.len() >= b.nodes.len(),
        spec_add_transition(b, source, target, event, action, guard).name == b.name,
        spec_add_transition(b, source, target, event, action, guard).scope == b.scope,
{
    lemma_spec_find_or_create_in_range(b, source);
    let (b2, from) = crate::builder::spec_find_or_create(b, source);
    lemma_spec_find_or_create_in_range(b2, target);
}

/// The node resolved or created by `find_or_create` is a valid index, and
/// the arena never shrinks.
pub proof fn lemma_spec_find_or_create_in_range(b: BuilderV, name: Seq<char>)
    ensures
        ({
            let (b2, i) = crate::builder::spec_find_or_create(b, name);
            &&& b2.nodes.len() >= b.nodes.len()
            &&& 0 <= i < b2.nodes.len()
            &&& b2.name == b.name
            &&& b2.scope == b.scope
        }),
{
    match crate::builder::sfind_descendant(b.nodes, b.scope, name) {
        Some(i) => {
            match b.scope {
                Some(sc) => crate::builder::lemma_sfind_subtree_in_range(b.nodes, sc, name),
                None => crate::builder::lemma_sfind_desc_scan_in_range(b.nodes, None, 0, name),
            }
        },
        None => {},
    }
}

/// Applying state descriptions never shrinks the arena.
pub proof fn lemma_spec_add_descs_grows(b: BuilderV, ds: Seq<(Seq<char>, Seq<char>)>, n: int)
    ensures
        spec_add_descs(b, ds, n).nodes.len() >= b.nodes.len(),
        spec_add_descs(b, ds, n).name == b.name,
        spec_add_descs(b, ds, n).scope == b.scope,
    decreases n,
{
    if n <= 0 || n > ds.len() {
    } else {
        lemma_spec_add_descs_grows(b, ds, n - 1);
        let b1 = spec_add_descs(b, ds, n - 1);
        match spec_parse_state_desc(ds[n - 1].1) {
            Some(t) => {
                match crate::builder::sfind_descendant(b1.nodes, b1.scope, ds[n - 1].0) {
                    Some(i) => {
                        match b1.scope {
                            Some(sc) => crate::builder::lemma_sfind_subtree_in_range(
                                b1.nodes,
                                sc,
                                ds[n - 1].0,
                            ),
                            None => crate::builder::lemma_sfind_desc_scan_in_range(
                                b1.nodes,
                                None,
                                0,
                                ds[n - 1].0,
                            ),
                        }
                    },
                    None => {},
                }
                assert(spec_add_enter_action(b1, ds[n - 1].0, t.1).nodes.len() == b1.nodes.len());
                assert(spec_add_exit_action(b1, ds[n - 1].0, t.1).nodes.len() == b1.nodes.len());
            },
            None => {},
        }
    }
}

impl ParsedFsm {
    /// Parses a diagram text and builds the validated FSM model; succeeds
    /// exactly when [`spec_try_parse`] accepts the text, and then returns
    /// exactly the model it describes.
    pub fn try_parse(content: &str) -> (r: Result<ParsedFsm, Error>)
        ensures
            r is Ok <==> spec_try_parse(content@) is Some,
            r matches Ok(f) ==> Some(f@) == spec_try_parse(content@),
            r is Err ==> r->Err_0 is Parse,
    {
        let diagram = match StateDiagram::parse(content) {
            Ok(d) => d,
            Err(e) => {
                return Err(e);
            },
        };
        let ghost dv = spec_parse_diagram(content@)->0;
        let name_string = match diagram.name {
            Some(nm) => nm,
            None => String::new(),
        };
        let mut builder = ParsedFsmBuilder::new(name_string.as_str());
        proof {
            assert(builder@ =~~= spec_initial_builder(dv.0));
        }
        add_enters(&mut builder, &diagram.enter_states);
        match add_transitions(&mut builder, &diagram.transitions) {
            Ok(()) => {},
            Err(e) => {
                return Err(e);
            },
        }
        add_descs(&mut builder, &diagram.state_descriptions);
        let ghost b3 = builder@;
        let ghost csv = dv.1.composites;
        proof {
            assert(csv.len() == diagram.composite_states@.len());
            assert forall|k2: int| 0 <= k2 < csv.len() implies csv[k2] == composite_v(
                #[trigger] diagram.composite_states@[k2],
            ) by {
            }
            assert(spec_process_elements(spec_initial_builder(dv.0), dv.1) == (
            match spec_process_composites(b3, csv, csv.len() as int, None) {
                Some(b4) => Some(BuilderV { scope: None, ..b4 }),
                None => None,
            }));
        }
        let n = diagram.composite_states.len();
        let mut k: usize = 0;
        while k < n
            invariant
                builder.wf(),
                n == diagram.composite_states@.len(),
                csv.len() == n,
                forall|k2: int|
                    0 <= k2 < n ==> csv[k2] == composite_v(
                        #[trigger] diagram.composite_states@[k2],
                    ),
                k <= n,
                Some(builder@) == spec_process_composites(b3, csv, k as int, None),
                spec_parse_diagram(content@) matches Some(dvv) && dvv == dv,
                spec_process_elements(spec_initial_builder(dv.0), dv.1) == (
                match spec_process_composites(b3, csv, n as int, None) {
                    Some(b4) => Some(BuilderV { scope: None, ..b4 }),
                    None => None,
                }),
            decreases n - k,
        {
            match process_one_composite(&mut builder, &diagram.composite_states[k], None) {
                Ok(()) => {},
                Err(e) => {
                    proof {
                        lemma_spec_process_composites_none(b3, csv, k as int, n as int, None);
                    }
                    return Err(e);
                },
            }
            k += 1;
        }
        builder.set_scope(None);
        proof {
            assert(Some(builder@) == spec_process_elements(spec_initial_builder(dv.0), dv.1));
        }
        builder.build()
    }
}

/// All transitions of a well-formed forest carry valid source and
/// destination indices.
pub proof fn lemma_all_transitions_wf(nodes: Seq<NodeV>, n: int)
    requires
        crate::builder::wf_nodes(nodes),
        0 <= n <= nodes.len(),
    ensures
        forall|p: int|
            0 <= p < crate::validation::all_transitions_up_to(nodes, n).len() ==> {
                let t = #[trigger] crate::validation::all_transitions_up_to(nodes, n)[p];
                0 <= t.source < nodes.len() && 0 <= t.dest < nodes.len()
            },
    decreases n,
{
    if n > 0 {
        lemma_all_transitions_wf(nodes, n - 1);
        assert(crate::validation::all_transitions_up_to(nodes, n)
            == crate::validation::all_transitions_up_to(nodes, n - 1) + nodes[n - 1].transitions);
    }
}

/// Model equality is reflexive on well-formed FSMs.
pub proof fn lemma_sfsm_eq_reflexive(f: FsmV)
    requires
        crate::validation::fsm_v_wf(f),
    ensures
        crate::fsm::sfsm_eq(f, f),
{
    assert forall|i: int| 0 <= i < f.nodes.len() implies crate::fsm::has_matching_state(
        f.nodes,
        (#[trigger] f.nodes[i]).name,
        f.nodes[i].state_type,
    ) by {
        assert(0 <= i < f.nodes.len() && f.nodes[i].name == f.nodes[i].name && f.nodes[
            i
        ].state_type == f.nodes[i].state_type);
    }
    lemma_all_transitions_wf(f.nodes, f.nodes.len() as int);
    let ats = crate::validation::all_transitions(f.nodes);
    assert forall|p: int| 0 <= p < ats.len() implies crate::fsm::has_matching_trans(
        f,
        #[trigger] ats[p],
        f,
    ) by {
        assert(crate::fsm::trans_key_eq(f, ats[p], f, ats[p]));
    }
}

/// Round trip: parsing the same diagram text twice yields models that
/// compare equal under the order-independent model equality. The two model
/// values are both pinned by [`spec_try_parse`], so the law reduces to the
/// reflexivity of the equality on well-formed models.
pub proof fn lemma_parse_round_trip(s: Seq<char>, f1: FsmV, f2: FsmV)
    requires
        spec_try_parse(s) == Some(f1),
        spec_try_parse(s) == Some(f2),
        crate::validation::fsm_v_wf(f1),
        crate::validation::fsm_v_wf(f2),
    ensures
        crate::fsm::sfsm_eq(f1, f2),
{
    assert(f1 == f2);
    lemma_sfsm_eq_reflexive(f1);
}

} // verus!
