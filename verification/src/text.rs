//! Character-level text helpers shared by the grammar parser and the label
//! sub-parsers.

use vstd::prelude::*;

verus! {

/// Horizontal whitespace: blanks that may surround tokens within a line.
pub open spec fn is_space_char(c: char) -> bool {
    c == ' ' || c == '\t' || c == '\r'
}

/// Any whitespace, including line breaks.
pub open spec fn is_ws_char(c: char) -> bool {
    is_space_char(c) || c == '\n'
}

/// An identifier character: ASCII alphanumeric or underscore.
pub open spec fn is_ident_char(c: char) -> bool {
    ('0' <= c && c <= '9') || ('A' <= c && c <= 'Z') || ('a' <= c && c <= 'z') || c == '_'
}

pub fn is_space_char_exec(c: char) -> (r: bool)
    ensures
        r == is_space_char(c),
{
    c == ' ' || c == '\t' || c == '\r'
}

pub fn is_ws_char_exec(c: char) -> (r: bool)
    ensures
        r == is_ws_char(c),
{
    is_space_char_exec(c) || c == '\n'
}

pub fn is_ident_char_exec(c: char) -> (r: bool)
    ensures
        r == is_ident_char(c),
{
    ('0' <= c && c <= '9') || ('A' <= c && c <= 'Z') || ('a' <= c && c <= 'z') || c == '_'
}

/// Character-wise string equality, stated over the views.
pub fn str_eq(a: &str, b: &str) -> (r: bool)
    ensures
        r == (a@ == b@),
{
    let alen = a.unicode_len();
    let blen = b.unicode_len();
    if alen != blen {
        proof {
            assert(a@ != b@) by {
                if a@ == b@ {
                    assert(a@.len() == b@.len());
                }
            }
        }
        return false;
    }
    let mut i: usize = 0;
    while i < alen
        invariant
            alen == a@.len(),
            alen == b@.len(),
            i <= alen,
            forall|k: int| 0 <= k < i ==> a@[k] == b@[k],
        decreases alen - i,
    {
        if a.get_char(i) != b.get_char(i) {
            proof {
                assert(a@[i as int] != b@[i as int]);
            }
            return false;
        }
        i += 1;
    }
    proof {
        assert(a@ =~= b@);
    }
    true
}

/// An ASCII alphanumeric character: the token alphabet of transition and
/// state-description labels.
pub open spec fn is_alnum_char(c: char) -> bool {
    ('0' <= c && c <= '9') || ('A' <= c && c <= 'Z') || ('a' <= c && c <= 'z')
}

pub fn is_alnum_char_exec(c: char) -> (r: bool)
    ensures
        r == is_alnum_char(c),
{
    ('0' <= c && c <= '9') || ('A' <= c && c <= 'Z') || ('a' <= c && c <= 'z')
}

/// The first position at or after `i` that does not hold horizontal
/// whitespace (`s.len()` if none).
pub open spec fn skip_spaces_from(s: Seq<char>, i: int) -> int
    decreases s.len() - i,
{
    if i < 0 || i >= s.len() {
        i
    } else if is_space_char(s[i]) {
        skip_spaces_from(s, i + 1)
    } else {
        i
    }
}

/// The first position at or after `i` that does not hold an alphanumeric
/// character (`s.len()` if none): the end of the token starting at `i`.
pub open spec fn scan_alnum_from(s: Seq<char>, i: int) -> int
    decreases s.len() - i,
{
    if i < 0 || i >= s.len() {
        i
    } else if is_alnum_char(s[i]) {
        scan_alnum_from(s, i + 1)
    } else {
        i
    }
}

/// The first position at or after `i` that does not hold an identifier
/// character (`s.len()` if none).
pub open spec fn scan_ident_from(s: Seq<char>, i: int) -> int
    decreases s.len() - i,
{
    if i < 0 || i >= s.len() {
        i
    } else if is_ident_char(s[i]) {
        scan_ident_from(s, i + 1)
    } else {
        i
    }
}

/// The position after the last non-whitespace character before `i`
/// (0 if all whitespace).
pub open spec fn rskip_spaces_from(s: Seq<char>, i: int) -> int
    decreases i,
{
    if i <= 0 || i > s.len() {
        0
    } else if is_space_char(s[i - 1]) {
        rskip_spaces_from(s, i - 1)
    } else {
        i
    }
}

/// The text with horizontal whitespace removed from both ends.
pub open spec fn spec_trim_spaces(s: Seq<char>) -> Seq<char> {
    let l = skip_spaces_from(s, 0);
    let r = rskip_spaces_from(s, s.len() as int);
    if l <= r {
        s.subrange(l, r)
    } else {
        Seq::empty()
    }
}

pub fn skip_spaces_exec(s: &str, i: usize) -> (r: usize)
    requires
        i <= s@.len(),
    ensures
        r as int == skip_spaces_from(s@, i as int),
        i <= r <= s@.len(),
    decreases s@.len() - i,
{
    let n = s.unicode_len();
    if i >= n {
        i
    } else if is_space_char_exec(s.get_char(i)) {
        skip_spaces_exec(s, i + 1)
    } else {
        i
    }
}

pub fn scan_alnum_exec(s: &str, i: usize) -> (r: usize)
    requires
        i <= s@.len(),
    ensures
        r as int == scan_alnum_from(s@, i as int),
        i <= r <= s@.len(),
    decreases s@.len() - i,
{
    let n = s.unicode_len();
    if i >= n {
        i
    } else if is_alnum_char_exec(s.get_char(i)) {
        scan_alnum_exec(s, i + 1)
    } else {
        i
    }
}

pub fn scan_ident_exec(s: &str, i: usize) -> (r: usize)
    requires
        i <= s@.len(),
    ensures
        r as int == scan_ident_from(s@, i as int),
        i <= r <= s@.len(),
    decreases s@.len() - i,
{
    let n = s.unicode_len();
    if i >= n {
        i
    } else if is_ident_char_exec(s.get_char(i)) {
        scan_ident_exec(s, i + 1)
    } else {
        i
    }
}

pub fn rskip_spaces_exec(s: &str, i: usize) -> (r: usize)
    requires
        i <= s@.len(),
    ensures
        r as int == rskip_spaces_from(s@, i as int),
        r <= i,
    decreases i,
{
    if i == 0 {
        0
    } else if is_space_char_exec(s.get_char(i - 1)) {
        rskip_spaces_exec(s, i - 1)
    } else {
        i
    }
}

/// Trims horizontal whitespace from both ends; the analogue of wrapping a
/// token parser in optional surrounding spaces.
pub fn ws(s: &str) -> (r: &str)
    ensures
        r@ == spec_trim_spaces(s@),
{
    let n = s.unicode_len();
    let l = skip_spaces_exec(s, 0);
    let r = rskip_spaces_exec(s, n);
    if l <= r {
        s.substring_char(l, r)
    } else {
        proof {
            assert(spec_trim_spaces(s@) == Seq::<char>::empty());
        }
        s.substring_char(0, 0)
    }
}

/// Whitespace including line breaks.
pub open spec fn skip_multi_ws_from(s: Seq<char>, i: int) -> int
    decreases s.len() - i,
{
    if i < 0 || i >= s.len() {
        i
    } else if is_ws_char(s[i]) {
        skip_multi_ws_from(s, i + 1)
    } else {
        i
    }
}

/// The position after the last character before `i` that is not whitespace
/// (line breaks included).
pub open spec fn rskip_multi_ws_from(s: Seq<char>, i: int) -> int
    decreases i,
{
    if i <= 0 || i > s.len() {
        0
    } else if is_ws_char(s[i - 1]) {
        rskip_multi_ws_from(s, i - 1)
    } else {
        i
    }
}

/// The text with any whitespace, line breaks included, removed from both
/// ends.
pub open spec fn spec_trim_multi_ws(s: Seq<char>) -> Seq<char> {
    let l = skip_multi_ws_from(s, 0);
    let r = rskip_multi_ws_from(s, s.len() as int);
    if l <= r {
        s.subrange(l, r)
    } else {
        Seq::empty()
    }
}

fn skip_multi_ws_exec(s: &str, i: usize) -> (r: usize)
    requires
        i <= s@.len(),
    ensures
        r as int == skip_multi_ws_from(s@, i as int),
        i <= r <= s@.len(),
    decreases s@.len() - i,
{
    let n = s.unicode_len();
    if i >= n {
        i
    } else if is_ws_char_exec(s.get_char(i)) {
        skip_multi_ws_exec(s, i + 1)
    } else {
        i
    }
}

fn rskip_multi_ws_exec(s: &str, i: usize) -> (r: usize)
    requires
        i <= s@.len(),
    ensures
        r as int == rskip_multi_ws_from(s@, i as int),
        r <= i,
    decreases i,
{
    if i == 0 {
        0
    } else if is_ws_char_exec(s.get_char(i - 1)) {
        rskip_multi_ws_exec(s, i - 1)
    } else {
        i
    }
}

/// Trims any whitespace, line breaks included, from both ends.
pub fn multi_ws(s: &str) -> (r: &str)
    ensures
        r@ == spec_trim_multi_ws(s@),
{
    let n = s.unicode_len();
    let l = skip_multi_ws_exec(s, 0);
    let r = rskip_multi_ws_exec(s, n);
    if l <= r {
        s.substring_char(l, r)
    } else {
        proof {
            assert(spec_trim_multi_ws(s@) == Seq::<char>::empty());
        }
        s.substring_char(0, 0)
    }
}

} // verus!
