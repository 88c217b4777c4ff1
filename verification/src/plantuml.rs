//! The diagram grammar parser.
//!
//! Recognizes, line by line: the `@startuml [name]` / `@enduml` frame,
//! comment lines, enter-transitions (`[*] --> Name`), transitions
//! (`A --> B [: label]` with the arrow spellings `->`, `-->`, `-u->`,
//! `-d->`, `-l->`, `-r->`), composite-state blocks
//! (`state Name {` ... `}`, nested arbitrarily), and state descriptions
//! (`Name : text`). Unrecognized lines are skipped; only a malformed frame
//! or broken braces are errors.

use vstd::prelude::*;

use crate::error::Error;
use crate::text::is_ident_char;
use crate::text::is_ident_char_exec;
use crate::text::is_space_char;
use crate::text::is_space_char_exec;
use crate::text::scan_ident_exec;
use crate::text::scan_ident_from;
use crate::text::skip_spaces_exec;
use crate::text::skip_spaces_from;
use crate::text::spec_trim_spaces;
use crate::text::str_eq;
use crate::text::ws;

verus! {

broadcast use vstd::std_specs::vec::group_vec_axioms, vstd::seq::group_seq_axioms;

/// One transition line: source, target and the free-text label after the
/// colon (empty when there is none).
pub struct TransitionDescription {
    pub from: String,
    pub to: String,
    pub description: String,
}

/// One state-description line: the state name and the text after the colon.
pub struct StateDescription {
    pub name: String,
    pub description: String,
}

/// The elements found in one scope of the diagram.
pub struct StateElements {
    pub enter_states: Vec<String>,
    pub transitions: Vec<TransitionDescription>,
    pub composite_states: Vec<CompositeState>,
    pub state_descriptions: Vec<StateDescription>,
}

/// A composite-state block: its name and the elements of its nested scope.
pub struct CompositeState {
    pub name: String,
    pub elements: StateElements,
}

/// A parsed diagram: the optional name from the `@startuml` line and the
/// top-level elements.
pub struct StateDiagram {
    pub name: Option<String>,
    pub enter_states: Vec<String>,
    pub transitions: Vec<TransitionDescription>,
    pub composite_states: Vec<CompositeState>,
    pub state_descriptions: Vec<StateDescription>,
}

/// Ghost model of a transition line.
#[verifier::ext_equal]
pub struct TransDescV {
    pub from: Seq<char>,
    pub to: Seq<char>,
    pub description: Seq<char>,
}

/// Ghost model of the elements of one scope.
#[verifier::ext_equal]
pub struct ElementsV {
    pub enters: Seq<Seq<char>>,
    pub transitions: Seq<TransDescV>,
    pub composites: Seq<CompositeV>,
    pub descriptions: Seq<(Seq<char>, Seq<char>)>,
}

/// Ghost model of a composite-state block.
#[verifier::ext_equal]
pub struct CompositeV {
    pub name: Seq<char>,
    pub elements: ElementsV,
}

/// The ghost model of a transition line.
pub open spec fn trans_desc_v(t: TransitionDescription) -> TransDescV {
    TransDescV { from: t.from@, to: t.to@, description: t.description@ }
}

/// The ghost model of the elements of one scope.
pub open spec fn elems_v(e: StateElements) -> ElementsV
    decreases e,
{
    ElementsV {
        enters: e.enter_states@.map_values(|s: String| s@),
        transitions: e.transitions@.map_values(|t: TransitionDescription| trans_desc_v(t)),
        composites: Seq::new(
            e.composite_states@.len(),
            |i: int|
                if 0 <= i < e.composite_states@.len() {
                    CompositeV {
                        name: e.composite_states@[i].name@,
                        elements: elems_v(e.composite_states@[i].elements),
                    }
                } else {
                    CompositeV { name: Seq::empty(), elements: empty_elems() }
                },
        ),
        descriptions: e.state_descriptions@.map_values(
            |d: StateDescription| (d.name@, d.description@),
        ),
    }
}

/// A scope with no elements.
pub open spec fn empty_elems() -> ElementsV {
    ElementsV {
        enters: Seq::empty(),
        transitions: Seq::empty(),
        composites: Seq::empty(),
        descriptions: Seq::empty(),
    }
}

/// The first position at or after `i` holding a line break (`s.len()` if
/// none).
pub open spec fn find_nl(s: Seq<char>, i: int) -> int
    decreases s.len() - i,
{
    if i < 0 || i >= s.len() {
        s.len() as int
    } else if s[i] == '\n' {
        i
    } else {
        find_nl(s, i + 1)
    }
}

/// The text split at line breaks. A text without a line break is one line;
/// a trailing line break yields a final empty line.
pub open spec fn spec_lines(s: Seq<char>) -> Seq<Seq<char>>
    decreases s.len(),
{
    let k0 = find_nl(s, 0);
    let k = if 0 <= k0 < s.len() {
        k0
    } else {
        s.len() as int
    };
    if k < s.len() {
        seq![s.take(k)] + spec_lines(s.subrange(k + 1, s.len() as int))
    } else {
        seq![s]
    }
}

/// The keyword `@startuml`.
pub open spec fn startuml_word() -> Seq<char> {
    seq!['@', 's', 't', 'a', 'r', 't', 'u', 'm', 'l']
}

/// The keyword `@enduml`.
pub open spec fn enduml_word() -> Seq<char> {
    seq!['@', 'e', 'n', 'd', 'u', 'm', 'l']
}

/// A line holding nothing, or only a comment (leading apostrophe).
pub open spec fn is_blank_or_comment(l: Seq<char>) -> bool {
    let t = spec_trim_spaces(l);
    t.len() == 0 || t[0] == '\''
}

/// A line holding exactly `@enduml`.
pub open spec fn is_enduml_line(l: Seq<char>) -> bool {
    spec_trim_spaces(l) == enduml_word()
}

/// A line holding exactly `}`.
pub open spec fn is_block_end_line(l: Seq<char>) -> bool {
    spec_trim_spaces(l) =~= seq!['}']
}

/// What a `@startuml` line parses to: `None` when the line is not a
/// `@startuml` line, `Some(name)` otherwise, where the name is the trimmed
/// rest of the line (`None` when it is empty).
pub open spec fn spec_parse_startuml(l: Seq<char>) -> Option<Option<Seq<char>>> {
    let t = spec_trim_spaces(l);
    if t.len() >= 9 && t.subrange(0, 9) == startuml_word() && (t.len() == 9 || is_space_char(
        t[9],
    )) {
        let nm = spec_trim_spaces(t.subrange(9, t.len() as int));
        if nm.len() == 0 {
            Some(None)
        } else {
            Some(Some(nm))
        }
    } else {
        None
    }
}

/// The position after an arrow (`->`, `-->`, `-u->`, `-d->`, `-l->`,
/// `-r->`) starting at `i`, or `None`.
pub open spec fn spec_parse_arrow(s: Seq<char>, i: int) -> Option<int> {
    if !(0 <= i && i < s.len() && s[i] == '-') {
        None
    } else if i + 1 < s.len() && s[i + 1] == '>' {
        Some(i + 2)
    } else if i + 2 < s.len() && s[i + 1] == '-' && s[i + 2] == '>' {
        Some(i + 3)
    } else if i + 3 < s.len() && (s[i + 1] == 'u' || s[i + 1] == 'd' || s[i + 1] == 'l' || s[i + 1]
        == 'r') && s[i + 2] == '-' && s[i + 3] == '>' {
        Some(i + 4)
    } else {
        None
    }
}

/// What an enter-transition line (`[*] --> Name`) parses to: the state
/// name.
pub open spec fn spec_parse_enter_line(l: Seq<char>) -> Option<Seq<char>> {
    let i0 = skip_spaces_from(l, 0);
    if i0 + 3 <= l.len() && l[i0] == '[' && l[i0 + 1] == '*' && l[i0 + 2] == ']' {
        let i1 = skip_spaces_from(l, i0 + 3);
        match spec_parse_arrow(l, i1) {
            Some(i2) => {
                let i3 = skip_spaces_from(l, i2);
                let i4 = scan_ident_from(l, i3);
                if i4 == i3 {
                    None
                } else {
                    let name = l.subrange(i3, i4);
                    if skip_spaces_from(l, i4) >= l.len() {
                        Some(name)
                    } else {
                        None
                    }
                }
            },
            None => None,
        }
    } else {
        None
    }
}

/// What a transition line (`A --> B [: label]`) parses to.
pub open spec fn spec_parse_transition_line(l: Seq<char>) -> Option<TransDescV> {
    let i0 = skip_spaces_from(l, 0);
    let i1 = scan_ident_from(l, i0);
    if i1 == i0 {
        None
    } else {
        let from = l.subrange(i0, i1);
        let i2 = skip_spaces_from(l, i1);
        match spec_parse_arrow(l, i2) {
            Some(i3) => {
                let i4 = skip_spaces_from(l, i3);
                let i5 = scan_ident_from(l, i4);
                if i5 == i4 {
                    None
                } else {
                    let to = l.subrange(i4, i5);
                    let i6 = skip_spaces_from(l, i5);
                    if i6 >= l.len() {
                        Some(TransDescV { from, to, description: Seq::empty() })
                    } else if l[i6] == ':' {
                        Some(
                            TransDescV {
                                from,
                                to,
                                description: spec_trim_spaces(l.subrange(i6 + 1, l.len() as int)),
                            },
                        )
                    } else {
                        None
                    }
                }
            },
            None => None,
        }
    }
}

/// The keyword `state`.
pub open spec fn state_word() -> Seq<char> {
    seq!['s', 't', 'a', 't', 'e']
}

/// What a composite-block opening line (`state Name {`) parses to: the
/// composite's name.
pub open spec fn spec_parse_composite_start(l: Seq<char>) -> Option<Seq<char>> {
    let i0 = skip_spaces_from(l, 0);
    let i1 = scan_ident_from(l, i0);
    if l.subrange(i0, i1) != state_word() {
        None
    } else {
        let i2 = skip_spaces_from(l, i1);
        if i2 == i1 {
            None
        } else {
            let i3 = scan_ident_from(l, i2);
            if i3 == i2 {
                None
            } else {
                let name = l.subrange(i2, i3);
                let i4 = skip_spaces_from(l, i3);
                if i4 < l.len() && l[i4] == '{' && skip_spaces_from(l, i4 + 1) >= l.len() {
                    Some(name)
                } else {
                    None
                }
            }
        }
    }
}

/// What a state-description line (`Name : text`) parses to: the name and
/// the trimmed text.
pub open spec fn spec_parse_desc_line(l: Seq<char>) -> Option<(Seq<char>, Seq<char>)> {
    let i0 = skip_spaces_from(l, 0);
    let i1 = scan_ident_from(l, i0);
    if i1 == i0 {
        None
    } else {
        let name = l.subrange(i0, i1);
        let i2 = skip_spaces_from(l, i1);
        if i2 < l.len() && l[i2] == ':' {
            Some((name, spec_trim_spaces(l.subrange(i2 + 1, l.len() as int))))
        } else {
            None
        }
    }
}

/// Parses the elements of one scope, starting at line `i`. A nested scope
/// ends at a `}` line; the top-level scope ends at `@enduml`. `None` marks
/// a structural error: the terminator is missing, `@enduml` appears inside
/// a block, or a stray `}` appears at top level. On success the resulting
/// index points just past the terminator line.
pub open spec fn spec_elems(lines: Seq<Seq<char>>, i: int, nested: bool) -> Option<
    (ElementsV, int),
>
    decreases lines.len() - i,
{
    if i < 0 || i >= lines.len() {
        None
    } else {
        let l = lines[i];
        if !nested && is_enduml_line(l) {
            Some((empty_elems(), i + 1))
        } else if nested && is_block_end_line(l) {
            Some((empty_elems(), i + 1))
        } else if nested && is_enduml_line(l) {
            None
        } else if !nested && is_block_end_line(l) {
            None
        } else if is_blank_or_comment(l) {
            spec_elems(lines, i + 1, nested)
        } else if spec_parse_enter_line(l) is Some {
            match spec_elems(lines, i + 1, nested) {
                Some(t) => Some(
                    (
                        ElementsV {
                            enters: seq![spec_parse_enter_line(l)->0] + t.0.enters,
                            ..t.0
                        },
                        t.1,
                    ),
                ),
                None => None,
            }
        } else if spec_parse_transition_line(l) is Some {
            match spec_elems(lines, i + 1, nested) {
                Some(t) => Some(
                    (
                        ElementsV {
                            transitions: seq![spec_parse_transition_line(l)->0] + t.0.transitions,
                            ..t.0
                        },
                        t.1,
                    ),
                ),
                None => None,
            }
        } else if spec_parse_composite_start(l) is Some {
            match spec_elems(lines, i + 1, true) {
                Some(inner) => {
                    if i + 1 < inner.1 <= lines.len() {
                        match spec_elems(lines, inner.1, nested) {
                            Some(t) => Some(
                                (
                                    ElementsV {
                                        composites: seq![
                                            CompositeV {
                                                name: spec_parse_composite_start(l)->0,
                                                elements: inner.0,
                                            },
                                        ] + t.0.composites,
                                        ..t.0
                                    },
                                    t.1,
                                ),
                            ),
                            None => None,
                        }
                    } else {
                        None
                    }
                },
                None => None,
            }
        } else if spec_parse_desc_line(l) is Some {
            match spec_elems(lines, i + 1, nested) {
                Some(t) => Some(
                    (
                        ElementsV {
                            descriptions: seq![spec_parse_desc_line(l)->0] + t.0.descriptions,
                            ..t.0
                        },
                        t.1,
                    ),
                ),
                None => None,
            }
        } else {
            spec_elems(lines, i + 1, nested)
        }
    }
}

/// The first line at or after `i` that is not blank and not a comment.
pub open spec fn first_content_line(lines: Seq<Seq<char>>, i: int) -> int
    decreases lines.len() - i,
{
    if i < 0 || i >= lines.len() {
        lines.len() as int
    } else if is_blank_or_comment(lines[i]) {
        first_content_line(lines, i + 1)
    } else {
        i
    }
}

/// What a whole diagram text parses to: the optional diagram name and the
/// top-level elements, or `None` on a structural error (no `@startuml`
/// heading, missing `@enduml`, or broken composite braces).
pub open spec fn spec_parse_diagram(s: Seq<char>) -> Option<(Option<Seq<char>>, ElementsV)> {
    let lines = spec_lines(s);
    let k = first_content_line(lines, 0);
    if k >= lines.len() {
        None
    } else {
        match spec_parse_startuml(lines[k]) {
            Some(name) => match spec_elems(lines, k + 1, false) {
                Some(t) => Some((name, t.0)),
                None => None,
            },
            None => None,
        }
    }
}

/// A successful element parse ends past its starting line and within the
/// line table.
pub proof fn lemma_spec_elems_advances(lines: Seq<Seq<char>>, i: int, nested: bool)
    ensures
        spec_elems(lines, i, nested) matches Some(t) ==> i < t.1 <= lines.len(),
    decreases lines.len() - i,
{
    if i < 0 || i >= lines.len() {
    } else {
        lemma_spec_elems_advances(lines, i + 1, nested);
        lemma_spec_elems_advances(lines, i + 1, true);
        let l = lines[i];
        if spec_parse_composite_start(l) is Some && !(!nested && is_enduml_line(l)) && !(nested
            && is_block_end_line(l)) && !(nested && is_enduml_line(l)) && !(!nested
            && is_block_end_line(l)) && !is_blank_or_comment(l) && spec_parse_enter_line(l) is None
            && spec_parse_transition_line(l) is None {
            match spec_elems(lines, i + 1, true) {
                Some(inner) => {
                    if i + 1 < inner.1 <= lines.len() {
                        lemma_spec_elems_advances(lines, inner.1, nested);
                    }
                },
                None => {},
            }
        }
    }
}

/// The views of a vector of lines.
pub open spec fn line_views(ls: Seq<String>) -> Seq<Seq<char>> {
    ls.map_values(|l: String| l@)
}

/// The view of an optional owned string.
pub open spec fn opt_str_v(o: Option<String>) -> Option<Seq<char>> {
    match o {
        Some(s) => Some(s@),
        None => None,
    }
}

/// The top-level elements of a diagram, as one ghost scope.
pub open spec fn diagram_elems_v(d: StateDiagram) -> ElementsV {
    elems_v(
        StateElements {
            enter_states: d.enter_states,
            transitions: d.transitions,
            composite_states: d.composite_states,
            state_descriptions: d.state_descriptions,
        },
    )
}

fn new_state_elements() -> (r: StateElements)
    ensures
        elems_v(r) == empty_elems(),
{
    let r = StateElements {
        enter_states: Vec::new(),
        transitions: Vec::new(),
        composite_states: Vec::new(),
        state_descriptions: Vec::new(),
    };
    proof {
        assert(elems_v(r).enters =~~= Seq::<Seq<char>>::empty());
        assert(elems_v(r).transitions =~~= Seq::<TransDescV>::empty());
        assert(elems_v(r).composites =~~= Seq::<CompositeV>::empty());
        assert(elems_v(r).descriptions =~~= Seq::<(Seq<char>, Seq<char>)>::empty());
        assert(elems_v(r) =~~= empty_elems());
    }
    r
}

fn find_nl_exec(s: &str, i: usize) -> (r: usize)
    requires
        i <= s@.len(),
    ensures
        r as int == find_nl(s@, i as int),
        i <= r <= s@.len(),
    decreases s@.len() - i,
{
    let n = s.unicode_len();
    if i >= n {
        n
    } else if s.get_char(i) == '\n' {
        i
    } else {
        find_nl_exec(s, i + 1)
    }
}

/// Splits the input at line breaks.
fn split_lines(s: &str) -> (r: Vec<String>)
    ensures
        line_views(r@) == spec_lines(s@),
    decreases s@.len(),
{
    let n = s.unicode_len();
    let k = find_nl_exec(s, 0);
    if k >= n {
        let mut r: Vec<String> = Vec::new();
        r.push(s.to_owned());
        proof {
            assert(line_views(r@) =~~= spec_lines(s@));
        }
        r
    } else {
        let head = s.substring_char(0, k);
        let tail = s.substring_char(k + 1, n);
        let mut r: Vec<String> = Vec::new();
        r.push(head.to_owned());
        let mut rest = split_lines(tail);
        r.append(&mut rest);
        proof {
            assert(head@ =~= s@.take(k as int));
            assert(line_views(r@) =~~= seq![s@.take(k as int)] + spec_lines(
                s@.subrange(k as int + 1, s@.len() as int),
            ));
        }
        r
    }
}

fn is_blank_or_comment_exec(l: &str) -> (r: bool)
    ensures
        r == is_blank_or_comment(l@),
{
    let t = ws(l);
    t.unicode_len() == 0 || t.get_char(0) == '\''
}

fn is_enduml_exec(l: &str) -> (r: bool)
    ensures
        r == is_enduml_line(l@),
{
    proof {
        reveal_strlit("@enduml");
        assert("@enduml"@ =~= enduml_word());
    }
    str_eq(ws(l), "@enduml")
}

fn is_block_end_exec(l: &str) -> (r: bool)
    ensures
        r == is_block_end_line(l@),
{
    proof {
        reveal_strlit("}");
        assert("}"@ =~= seq!['}']);
    }
    str_eq(ws(l), "}")
}

fn parse_startuml_exec(l: &str) -> (r: Option<Option<String>>)
    ensures
        r is Some <==> spec_parse_startuml(l@) is Some,
        r matches Some(nm) ==> opt_str_v(nm) == spec_parse_startuml(l@)->0,
{
    proof {
        reveal_strlit("@startuml");
        assert("@startuml"@ =~= startuml_word());
    }
    let t = ws(l);
    let n = t.unicode_len();
    if n >= 9 && str_eq(t.substring_char(0, 9), "@startuml") {
        if n == 9 || is_space_char_exec(t.get_char(9)) {
            let nm = ws(t.substring_char(9, n));
            if nm.unicode_len() == 0 {
                Some(None)
            } else {
                Some(Some(nm.to_owned()))
            }
        } else {
            None
        }
    } else {
        None
    }
}

fn parse_arrow_exec(l: &str, i: usize) -> (r: Option<usize>)
    requires
        i <= l@.len(),
    ensures
        r is Some <==> spec_parse_arrow(l@, i as int) is Some,
        r matches Some(j) ==> Some(j as int) == spec_parse_arrow(l@, i as int) && j <= l@.len(),
{
    let n = l.unicode_len();
    if !(i < n && l.get_char(i) == '-') {
        return None;
    }
    let rem = n - i;
    if rem >= 2 && l.get_char(i + 1) == '>' {
        Some(i + 2)
    } else if rem >= 3 && l.get_char(i + 1) == '-' && l.get_char(i + 2) == '>' {
        Some(i + 3)
    } else if rem >= 4 && (l.get_char(i + 1) == 'u' || l.get_char(i + 1) == 'd' || l.get_char(
        i + 1,
    ) == 'l' || l.get_char(i + 1) == 'r') && l.get_char(i + 2) == '-' && l.get_char(i + 3) == '>' {
        Some(i + 4)
    } else {
        None
    }
}

fn parse_enter_exec(l: &str) -> (r: Option<String>)
    ensures
        r is Some <==> spec_parse_enter_line(l@) is Some,
        r matches Some(nm) ==> Some(nm@) == spec_parse_enter_line(l@),
{
    let n = l.unicode_len();
    let i0 = skip_spaces_exec(l, 0);
    if !(i0 < n && n - i0 >= 3 && l.get_char(i0) == '[' && l.get_char(i0 + 1) == '*' && l.get_char(
        i0 + 2,
    ) == ']') {
        return None;
    }
    let i1 = skip_spaces_exec(l, i0 + 3);
    let i2 = match parse_arrow_exec(l, i1) {
        Some(i2) => i2,
        None => {
            return None;
        },
    };
    let i3 = skip_spaces_exec(l, i2);
    let i4 = scan_ident_exec(l, i3);
    if i4 == i3 {
        return None;
    }
    if skip_spaces_exec(l, i4) < n {
        return None;
    }
    Some(l.substring_char(i3, i4).to_owned())
}

fn parse_transition_exec(l: &str) -> (r: Option<TransitionDescription>)
    ensures
        r is Some <==> spec_parse_transition_line(l@) is Some,
        r matches Some(t) ==> Some(trans_desc_v(t)) == spec_parse_transition_line(l@),
{
    let n = l.unicode_len();
    let i0 = skip_spaces_exec(l, 0);
    let i1 = scan_ident_exec(l, i0);
    if i1 == i0 {
        return None;
    }
    let i2 = skip_spaces_exec(l, i1);
    let i3 = match parse_arrow_exec(l, i2) {
        Some(i3) => i3,
        None => {
            return None;
        },
    };
    let i4 = skip_spaces_exec(l, i3);
    let i5 = scan_ident_exec(l, i4);
    if i5 == i4 {
        return None;
    }
    let i6 = skip_spaces_exec(l, i5);
    let from = l.substring_char(i0, i1).to_owned();
    let to = l.substring_char(i4, i5).to_owned();
    if i6 >= n {
        let t = TransitionDescription { from, to, description: String::new() };
        proof {
            assert(trans_desc_v(t) =~~= spec_parse_transition_line(l@)->0);
        }
        Some(t)
    } else if l.get_char(i6) == ':' {
        let description = ws(l.substring_char(i6 + 1, n)).to_owned();
        let t = TransitionDescription { from, to, description };
        proof {
            assert(l@.subrange(i6 as int + 1, l@.len() as int) =~= l@.subrange(
                i6 as int + 1,
                n as int,
            ));
            assert(trans_desc_v(t) =~~= spec_parse_transition_line(l@)->0);
        }
        Some(t)
    } else {
        None
    }
}

fn parse_composite_start_exec(l: &str) -> (r: Option<String>)
    ensures
        r is Some <==> spec_parse_composite_start(l@) is Some,
        r matches Some(nm) ==> Some(nm@) == spec_parse_composite_start(l@),
{
    proof {
        reveal_strlit("state");
        assert("state"@ =~= state_word());
    }
    let n = l.unicode_len();
    let i0 = skip_spaces_exec(l, 0);
    let i1 = scan_ident_exec(l, i0);
    if !str_eq(l.substring_char(i0, i1), "state") {
        return None;
    }
    let i2 = skip_spaces_exec(l, i1);
    if i2 == i1 {
        return None;
    }
    let i3 = scan_ident_exec(l, i2);
    if i3 == i2 {
        return None;
    }
    let i4 = skip_spaces_exec(l, i3);
    if i4 < n && l.get_char(i4) == '{' && skip_spaces_exec(l, i4 + 1) >= n {
        Some(l.substring_char(i2, i3).to_owned())
    } else {
        None
    }
}

fn parse_desc_exec(l: &str) -> (r: Option<StateDescription>)
    ensures
        r is Some <==> spec_parse_desc_line(l@) is Some,
        r matches Some(d) ==> Some((d.name@, d.description@)) == spec_parse_desc_line(l@),
{
    let n = l.unicode_len();
    let i0 = skip_spaces_exec(l, 0);
    let i1 = scan_ident_exec(l, i0);
    if i1 == i0 {
        return None;
    }
    let i2 = skip_spaces_exec(l, i1);
    if i2 < n && l.get_char(i2) == ':' {
        let name = l.substring_char(i0, i1).to_owned();
        let description = ws(l.substring_char(i2 + 1, n)).to_owned();
        proof {
            assert(l@.subrange(i2 as int + 1, l@.len() as int) =~= l@.subrange(
                i2 as int + 1,
                n as int,
            ));
        }
        Some(StateDescription { name, description })
    } else {
        None
    }
}

fn first_content_exec(lines: &Vec<String>, i: usize) -> (r: usize)
    requires
        i <= lines@.len(),
    ensures
        r as int == first_content_line(line_views(lines@), i as int),
        i <= r <= lines@.len(),
    decreases lines@.len() - i,
{
    let n = lines.len();
    if i >= n {
        n
    } else if is_blank_or_comment_exec(lines[i].as_str()) {
        proof {
            assert(line_views(lines@)[i as int] == lines@[i as int]@);
        }
        first_content_exec(lines, i + 1)
    } else {
        proof {
            assert(line_views(lines@)[i as int] == lines@[i as int]@);
        }
        i
    }
}

/// Parses the elements of one scope; see [`spec_elems`] for what is
/// recognized and when this fails.
fn parse_elements(lines: &Vec<String>, i: usize, nested: bool) -> (r: Result<
    (StateElements, usize),
    Error,
>)
    requires
        i <= lines@.len(),
    ensures
        r is Ok <==> spec_elems(line_views(lines@), i as int, nested) is Some,
        r matches Ok(t) ==> {
            let s = spec_elems(line_views(lines@), i as int, nested)->0;
            elems_v(t.0) == s.0 && t.1 as int == s.1 && i < t.1 <= lines@.len()
        },
        r is Err ==> r->Err_0 is Parse,
    decreases lines@.len() - i,
{
    let ghost lv = line_views(lines@);
    let n = lines.len();
    if i >= n {
        if nested {
            return Err(Error::Parse(String::from_str("Missing closing brace in composite state")));
        }
        return Err(Error::Parse(String::from_str("Missing @enduml")));
    }
    let line_no = i + 1;
    let l = lines[i].as_str();
    proof {
        assert(lv[i as int] == l@);
    }
    if !nested && is_enduml_exec(l) {
        return Ok((new_state_elements(), i + 1));
    }
    if nested && is_block_end_exec(l) {
        return Ok((new_state_elements(), i + 1));
    }
    if nested && is_enduml_exec(l) {
        return Err(Error::Parse(
            String::from_str("Missing closing brace in composite state before line ").concat(
                line_no.to_string().as_str(),
            ),
        ));
    }
    if !nested && is_block_end_exec(l) {
        return Err(Error::Parse(
            String::from_str("Unmatched closing brace at line ").concat(
                line_no.to_string().as_str(),
            ),
        ));
    }
    if is_blank_or_comment_exec(l) {
        return parse_elements(lines, i + 1, nested);
    }
    if let Some(name) = parse_enter_exec(l) {
        let t = match parse_elements(lines, i + 1, nested) {
            Ok(t) => t,
            Err(e) => {
                return Err(e);
            },
        };
        let (mut elems, j) = t;
        let ghost before = elems;
        elems.enter_states.insert(0, name);
        proof {
            assert(elems_v(elems) =~~= (ElementsV {
                enters: seq![spec_parse_enter_line(lv[i as int])->0] + elems_v(before).enters,
                ..elems_v(before)
            }));
        }
        return Ok((elems, j));
    }
    if let Some(td) = parse_transition_exec(l) {
        let t = match parse_elements(lines, i + 1, nested) {
            Ok(t) => t,
            Err(e) => {
                return Err(e);
            },
        };
        let (mut elems, j) = t;
        let ghost before = elems;
        elems.transitions.insert(0, td);
        proof {
            assert(elems_v(elems) =~~= (ElementsV {
                transitions: seq![spec_parse_transition_line(lv[i as int])->0] + elems_v(
                    before,
                ).transitions,
                ..elems_v(before)
            }));
        }
        return Ok((elems, j));
    }
    if let Some(name) = parse_composite_start_exec(l) {
        let inner = match parse_elements(lines, i + 1, true) {
            Ok(t) => t,
            Err(e) => {
                return Err(e);
            },
        };
        proof {
            lemma_spec_elems_advances(lv, i as int + 1, true);
        }
        let t = match parse_elements(lines, inner.1, nested) {
            Ok(t) => t,
            Err(e) => {
                return Err(e);
            },
        };
        let (mut elems, j) = t;
        let ghost before = elems;
        let comp = CompositeState { name, elements: inner.0 };
        let ghost compg = comp;
        elems.composite_states.insert(0, comp);
        proof {
            let cv = CompositeV {
                name: spec_parse_composite_start(lv[i as int])->0,
                elements: elems_v(compg.elements),
            };
            assert(elems.composite_states@ == before.composite_states@.insert(0, compg));
            assert(elems.composite_states@[0] == compg);
            assert(elems_v(elems).composites[0] == cv);
            assert forall|k: int| 1 <= k < elems.composite_states@.len() implies elems_v(
                elems,
            ).composites[k] == elems_v(before).composites[k - 1] by {
                assert(elems.composite_states@[k] == before.composite_states@[k - 1]);
            }
            assert(elems_v(elems).composites =~~= seq![cv] + elems_v(before).composites);
            assert(elems_v(elems).enters =~~= elems_v(before).enters);
            assert(elems_v(elems).transitions =~~= elems_v(before).transitions);
            assert(elems_v(elems).descriptions =~~= elems_v(before).descriptions);
            assert(elems_v(elems) =~~= (ElementsV {
                composites: seq![cv] + elems_v(before).composites,
                ..elems_v(before)
            }));
        }
        return Ok((elems, j));
    }
    if let Some(d) = parse_desc_exec(l) {
        let t = match parse_elements(lines, i + 1, nested) {
            Ok(t) => t,
            Err(e) => {
                return Err(e);
            },
        };
        let (mut elems, j) = t;
        let ghost before = elems;
        elems.state_descriptions.insert(0, d);
        proof {
            assert(elems_v(elems) =~~= (ElementsV {
                descriptions: seq![spec_parse_desc_line(lv[i as int])->0] + elems_v(
                    before,
                ).descriptions,
                ..elems_v(before)
            }));
        }
        return Ok((elems, j));
    }
    parse_elements(lines, i + 1, nested)
}

/// The diagram grammar itself; [`StateDiagram::parse`] delegates here.
pub struct PlantUmlParser;

impl PlantUmlParser {
    /// Parses a whole diagram text; fails exactly on the texts that
    /// [`spec_parse_diagram`] rejects (no `@startuml` heading, missing
    /// `@enduml`, or broken composite braces).
    pub fn parse(input: &str) -> (r: Result<StateDiagram, Error>)
        ensures
            r is Ok <==> spec_parse_diagram(input@) is Some,
            r matches Ok(d) ==> {
                let t = spec_parse_diagram(input@)->0;
                opt_str_v(d.name) == t.0 && diagram_elems_v(d) == t.1
            },
            r is Err ==> r->Err_0 is Parse,
    {
        let lines = split_lines(input);
        let k = first_content_exec(&lines, 0);
        if k >= lines.len() {
            return Err(Error::Parse(String::from_str("Missing @startuml")));
        }
        let name = match parse_startuml_exec(lines[k].as_str()) {
            Some(name) => name,
            None => {
                proof {
                    assert(line_views(lines@)[k as int] == lines@[k as int]@);
                }
                return Err(Error::Parse(String::from_str("Missing @startuml")));
            },
        };
        proof {
            assert(line_views(lines@)[k as int] == lines@[k as int]@);
        }
        let t = match parse_elements(&lines, k + 1, false) {
            Ok(t) => t,
            Err(e) => {
                return Err(e);
            },
        };
        let (elems, _next) = t;
        let StateElements { enter_states, transitions, composite_states, state_descriptions } =
            elems;
        let d = StateDiagram { name, enter_states, transitions, composite_states,
            state_descriptions };
        proof {
            let se = spec_elems(line_views(lines@), k as int + 1, false)->0;
            assert(diagram_elems_v(d) =~~= se.0);
        }
        Ok(d)
    }
}

impl StateDiagram {
    /// Parses a whole diagram text; see [`PlantUmlParser::parse`].
    pub fn parse(input: &str) -> (r: Result<StateDiagram, Error>)
        ensures
            r is Ok <==> spec_parse_diagram(input@) is Some,
            r matches Ok(d) ==> {
                let t = spec_parse_diagram(input@)->0;
                opt_str_v(d.name) == t.0 && diagram_elems_v(d) == t.1
            },
            r is Err ==> r->Err_0 is Parse,
    {
        PlantUmlParser::parse(input)
    }

    /// The names of the top-level enter transitions, in order.
    pub fn enter_states(&self) -> (r: &Vec<String>)
        ensures
            r == self.enter_states,
    {
        &self.enter_states
    }

    /// The top-level transition lines, in order.
    pub fn transitions(&self) -> (r: &Vec<TransitionDescription>)
        ensures
            r == self.transitions,
    {
        &self.transitions
    }

    /// The top-level composite-state blocks, in order.
    pub fn composite_states(&self) -> (r: &Vec<CompositeState>)
        ensures
            r == self.composite_states,
    {
        &self.composite_states
    }

    /// The top-level state-description lines, in order.
    pub fn state_descriptions(&self) -> (r: &Vec<StateDescription>)
        ensures
            r == self.state_descriptions,
    {
        &self.state_descriptions
    }

    /// The diagram name from the `@startuml` line, if any.
    pub fn name(&self) -> (r: Option<&str>)
        ensures
            r is Some <==> self.name is Some,
            r matches Some(nm) ==> nm@ == self.name->0@,
    {
        match &self.name {
            Some(nm) => Some(nm.as_str()),
            None => None,
        }
    }
}

} // verus!
