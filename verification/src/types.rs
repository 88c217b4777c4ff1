//! The small value types of the FSM model: events, actions and state kinds.

use vstd::prelude::*;

verus! {

/// An event name. Two events are equal exactly when their names are equal.
#[derive(Debug, Clone)]
pub struct Event(pub String);

/// An action name. Two actions are equal exactly when their names are equal.
#[derive(Debug, Clone)]
pub struct Action(pub String);

/// The kind of a state. `Simple` is a placeholder that can be promoted to
/// `Enter`; `Enter` marks the state entered when its scope is entered and is
/// never downgraded.
#[derive(Debug, Clone, Copy, PartialEq, Eq, Structural)]
pub enum StateType {
    Simple,
    Enter,
}

impl View for Event {
    type V = Seq<char>;

    open spec fn view(&self) -> Seq<char> {
        self.0@
    }
}

impl View for Action {
    type V = Seq<char>;

    open spec fn view(&self) -> Seq<char> {
        self.0@
    }
}

impl PartialEq for Event {
    fn eq(&self, other: &Self) -> (r: bool) {
        self.0 == other.0
    }
}

impl vstd::std_specs::cmp::PartialEqSpecImpl for Event {
    open spec fn obeys_eq_spec() -> bool {
        true
    }

    open spec fn eq_spec(&self, other: &Self) -> bool {
        self@ == other@
    }
}

impl Eq for Event {}

impl PartialEq for Action {
    fn eq(&self, other: &Self) -> (r: bool) {
        self.0 == other.0
    }
}

impl vstd::std_specs::cmp::PartialEqSpecImpl for Action {
    open spec fn obeys_eq_spec() -> bool {
        true
    }

    open spec fn eq_spec(&self, other: &Self) -> bool {
        self@ == other@
    }
}

impl Eq for Action {}

impl From<&str> for Event {
    fn from(s: &str) -> (r: Self) {
        Event(s.to_owned())
    }
}

impl vstd::std_specs::convert::FromSpecImpl<&str> for Event {
    open spec fn obeys_from_spec() -> bool {
        // A `String` with a prescribed view cannot be named in spec code,
        // so nothing is claimed of the conversion; equality of the result
        // is still governed by `eq_spec`.
        false
    }

    open spec fn from_spec(s: &str) -> Self {
        Event(arbitrary())
    }
}

impl From<&str> for Action {
    fn from(s: &str) -> (r: Self) {
        Action(s.to_owned())
    }
}

impl vstd::std_specs::convert::FromSpecImpl<&str> for Action {
    open spec fn obeys_from_spec() -> bool {
        false
    }

    open spec fn from_spec(s: &str) -> Self {
        Action(arbitrary())
    }
}

impl From<String> for Event {
    fn from(s: String) -> (r: Self) {
        Event(s)
    }
}

impl vstd::std_specs::convert::FromSpecImpl<String> for Event {
    open spec fn obeys_from_spec() -> bool {
        true
    }

    open spec fn from_spec(s: String) -> Self {
        Event(s)
    }
}

impl From<String> for Action {
    fn from(s: String) -> (r: Self) {
        Action(s)
    }
}

impl vstd::std_specs::convert::FromSpecImpl<String> for Action {
    open spec fn obeys_from_spec() -> bool {
        true
    }

    open spec fn from_spec(s: String) -> Self {
        Action(s)
    }
}

} // verus!
