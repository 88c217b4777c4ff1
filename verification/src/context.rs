//! The label sub-parsers: a transition label is
//! `event [ '[' guard ']' ] [ '/' action ]` and a state-description label is
//! `entry / action` or `exit / action`, both whitespace-insensitive around
//! tokens. Tokens are ASCII alphanumeric.

use vstd::prelude::*;

use crate::error::Error;
use crate::text::scan_alnum_exec;
use crate::text::scan_alnum_from;
use crate::text::skip_spaces_exec;
use crate::text::skip_spaces_from;
use crate::types::Action;
use crate::types::Event;

verus! {

/// The parts of a parsed transition label.
pub struct TransitionContext {
    pub event: Event,
    pub guard: Option<Action>,
    pub action: Option<Action>,
}

/// The enter or exit action named by a state-description label.
pub enum StateAction {
    Entry(Action),
    Exit(Action),
}

/// What a transition label parses to: the event name, an optional guard and
/// an optional action; `None` when the label is malformed (in particular
/// when the mandatory event name is missing).
pub open spec fn spec_parse_label(s: Seq<char>) -> Option<
    (Seq<char>, Option<Seq<char>>, Option<Seq<char>>),
> {
    let i0 = skip_spaces_from(s, 0);
    let i1 = scan_alnum_from(s, i0);
    if i1 == i0 {
        None
    } else {
        let ev = s.subrange(i0, i1);
        let i2 = skip_spaces_from(s, i1);
        if i2 < s.len() && s[i2] == '[' {
            let i3 = skip_spaces_from(s, i2 + 1);
            let i4 = scan_alnum_from(s, i3);
            if i4 == i3 {
                None
            } else {
                let g = s.subrange(i3, i4);
                let i5 = skip_spaces_from(s, i4);
                if i5 < s.len() && s[i5] == ']' {
                    spec_parse_label_tail(s, ev, Some(g), i5 + 1)
                } else {
                    None
                }
            }
        } else {
            spec_parse_label_tail(s, ev, None, i2)
        }
    }
}

/// The optional `/ action` tail of a transition label, starting at `i`.
pub open spec fn spec_parse_label_tail(
    s: Seq<char>,
    ev: Seq<char>,
    g: Option<Seq<char>>,
    i: int,
) -> Option<(Seq<char>, Option<Seq<char>>, Option<Seq<char>>)> {
    let j = skip_spaces_from(s, i);
    if j >= s.len() {
        Some((ev, g, None))
    } else if s[j] == '/' {
        let j1 = skip_spaces_from(s, j + 1);
        let j2 = scan_alnum_from(s, j1);
        if j2 == j1 {
            None
        } else {
            let a = s.subrange(j1, j2);
            let j3 = skip_spaces_from(s, j2);
            if j3 >= s.len() {
                Some((ev, g, Some(a)))
            } else {
                None
            }
        }
    } else {
        None
    }
}

/// Parses a transition label into its event, optional guard and optional
/// action; fails exactly on the labels that [`spec_parse_label`] rejects.
pub fn parse_transaction_description(input: &str) -> (r: Result<TransitionContext, Error>)
    ensures
        r is Ok <==> spec_parse_label(input@) is Some,
        r matches Ok(c) ==> {
            let t = spec_parse_label(input@)->0;
            &&& c.event@ == t.0
            &&& opt_action_name(c.guard) == t.1
            &&& opt_action_name(c.action) == t.2
        },
        r is Err ==> r->Err_0 is Parse,
{
    let n = input.unicode_len();
    let i0 = skip_spaces_exec(input, 0);
    let i1 = scan_alnum_exec(input, i0);
    if i1 == i0 {
        return Err(Error::Parse(
            String::from_str("Event name is required in transition description: '").concat(
                input,
            ).concat("'"),
        ));
    }
    let event = Event(input.substring_char(i0, i1).to_owned());
    let i2 = skip_spaces_exec(input, i1);
    let mut guard: Option<Action> = None;
    let mut tail_start = i2;
    if i2 < n && input.get_char(i2) == '[' {
        let i3 = skip_spaces_exec(input, i2 + 1);
        let i4 = scan_alnum_exec(input, i3);
        if i4 == i3 {
            return Err(Error::Parse(
                String::from_str("Invalid transition description: '").concat(input).concat("'"),
            ));
        }
        let i5 = skip_spaces_exec(input, i4);
        if !(i5 < n && input.get_char(i5) == ']') {
            return Err(Error::Parse(
                String::from_str("Invalid transition description: '").concat(input).concat("'"),
            ));
        }
        guard = Some(Action(input.substring_char(i3, i4).to_owned()));
        tail_start = i5 + 1;
    }
    let j = skip_spaces_exec(input, tail_start);
    if j >= n {
        return Ok(TransitionContext { event, guard, action: None });
    }
    if input.get_char(j) != '/' {
        return Err(Error::Parse(
            String::from_str("Invalid transition description: '").concat(input).concat("'"),
        ));
    }
    let j1 = skip_spaces_exec(input, j + 1);
    let j2 = scan_alnum_exec(input, j1);
    if j2 == j1 {
        return Err(Error::Parse(
            String::from_str("Invalid transition description: '").concat(input).concat("'"),
        ));
    }
    let j3 = skip_spaces_exec(input, j2);
    if j3 < n {
        return Err(Error::Parse(
            String::from_str("Invalid transition description: '").concat(input).concat("'"),
        ));
    }
    let action = Some(Action(input.substring_char(j1, j2).to_owned()));
    Ok(TransitionContext { event, guard, action })
}

/// The view of an optional action.
pub open spec fn opt_action_name(o: Option<Action>) -> Option<Seq<char>> {
    match o {
        Some(a) => Some(a@),
        None => None,
    }
}

impl TransitionContext {
    /// Parses a transition label; see [`parse_transaction_description`].
    pub fn try_from(value: &str) -> (r: Result<TransitionContext, Error>)
        ensures
            r is Ok <==> spec_parse_label(value@) is Some,
            r matches Ok(c) ==> {
                let t = spec_parse_label(value@)->0;
                &&& c.event@ == t.0
                &&& opt_action_name(c.guard) == t.1
                &&& opt_action_name(c.action) == t.2
            },
            r is Err ==> r->Err_0 is Parse,
    {
        parse_transaction_description(value)
    }
}

/// The keyword `entry`.
pub open spec fn entry_word() -> Seq<char> {
    seq!['e', 'n', 't', 'r', 'y']
}

/// The keyword `exit`.
pub open spec fn exit_word() -> Seq<char> {
    seq!['e', 'x', 'i', 't']
}

/// What a state-description label parses to: `Some((true, action))` for
/// `entry / action`, `Some((false, action))` for `exit / action`, and
/// `None` for any other text (which is legal and ignored).
pub open spec fn spec_parse_state_desc(s: Seq<char>) -> Option<(bool, Seq<char>)> {
    let i0 = skip_spaces_from(s, 0);
    let i1 = scan_alnum_from(s, i0);
    let word = s.subrange(i0, i1);
    if word != entry_word() && word != exit_word() {
        None
    } else {
        let j = skip_spaces_from(s, i1);
        if j < s.len() && s[j] == '/' {
            let j1 = skip_spaces_from(s, j + 1);
            let j2 = scan_alnum_from(s, j1);
            if j2 == j1 {
                None
            } else {
                let a = s.subrange(j1, j2);
                let j3 = skip_spaces_from(s, j2);
                if j3 >= s.len() {
                    Some((word == entry_word(), a))
                } else {
                    None
                }
            }
        } else {
            None
        }
    }
}

/// Parses a state-description label into its enter or exit action; any text
/// that is not of the form `entry / action` or `exit / action` yields
/// `None` rather than an error.
pub fn parse_state_description(input: &str) -> (r: Option<StateAction>)
    ensures
        r is Some <==> spec_parse_state_desc(input@) is Some,
        r matches Some(sa) ==> {
            let t = spec_parse_state_desc(input@)->0;
            match sa {
                StateAction::Entry(a) => t.0 == true && a@ == t.1,
                StateAction::Exit(a) => t.0 == false && a@ == t.1,
            }
        },
{
    let n = input.unicode_len();
    let i0 = skip_spaces_exec(input, 0);
    let i1 = scan_alnum_exec(input, i0);
    let word = input.substring_char(i0, i1);
    let is_entry = crate::text::str_eq(word, "entry");
    let is_exit = crate::text::str_eq(word, "exit");
    proof {
        reveal_strlit("entry");
        reveal_strlit("exit");
        assert("entry"@ =~= entry_word());
        assert("exit"@ =~= exit_word());
    }
    if !is_entry && !is_exit {
        return None;
    }
    let j = skip_spaces_exec(input, i1);
    if !(j < n && input.get_char(j) == '/') {
        return None;
    }
    let j1 = skip_spaces_exec(input, j + 1);
    let j2 = scan_alnum_exec(input, j1);
    if j2 == j1 {
        return None;
    }
    let j3 = skip_spaces_exec(input, j2);
    if j3 < n {
        return None;
    }
    let action = Action(input.substring_char(j1, j2).to_owned());
    if is_entry {
        Some(StateAction::Entry(action))
    } else {
        Some(StateAction::Exit(action))
    }
}

} // verus!
