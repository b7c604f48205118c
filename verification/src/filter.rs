//! The filter-expression grammar and parser: a restricted textual query
//! language over attribute paths with the presence and equality operators.
//!
//! Grammar:
//! ```text
//! identifier  := ALPHA (ALNUM | '-' | '_')*
//! attr-path   := identifier ('.' identifier)?
//! filter-expr := attr-path ' ' "pr"
//!              | attr-path ' ' "eq" ' ' value
//! value       := '"' non-quote* '"' | "true" | "false" | integer | bare-token
//! ```
//! Tokens are separated by exactly one space. A quoted value or a bare
//! token becomes a string, `true`/`false` a boolean, and an optionally
//! signed digit run a number; a bare token never holds a space.

use vstd::prelude::*;

use crate::strutil::str_eq;
use crate::wire::{SpecWire, WireValue};

verus! {

/// A failed parse: the text is not in the filter grammar. No partial
/// syntax tree is ever returned.
#[derive(Debug, Clone, Copy, PartialEq, Eq, Structural)]
pub enum FilterError {
    Syntax,
}

/// An alphabetic character.
pub open spec fn spec_is_alpha(c: char) -> bool {
    ('a' <= c && c <= 'z') || ('A' <= c && c <= 'Z')
}

/// A decimal digit.
pub open spec fn spec_is_digit(c: char) -> bool {
    '0' <= c && c <= '9'
}

/// A character allowed after the first character of an identifier.
pub open spec fn spec_is_ident_char(c: char) -> bool {
    spec_is_alpha(c) || spec_is_digit(c) || c == '-' || c == '_'
}

/// An identifier: alphabetic first, then alphanumerics, hyphens and
/// underscores. A leading digit, hyphen or underscore is rejected.
pub open spec fn spec_is_ident(s: Seq<char>) -> bool {
    &&& s.len() > 0
    &&& spec_is_alpha(s[0])
    &&& forall|i: int| 0 < i < s.len() ==> spec_is_ident_char(#[trigger] s[i])
}

/// The first occurrence of a character, or -1 where it does not occur.
pub open spec fn first_occ(s: Seq<char>, c: char) -> int
    decreases s.len(),
{
    if s.len() == 0 {
        -1
    } else if s[0] == c {
        0
    } else {
        let r = first_occ(s.skip(1), c);
        if r == -1 {
            -1
        } else {
            r + 1
        }
    }
}

/// The first occurrence is where a left-to-right scan stops.
pub proof fn lemma_first_occ(s: Seq<char>, c: char, i: int)
    requires
        0 <= i <= s.len(),
        forall|j: int| 0 <= j < i ==> (#[trigger] s[j]) != c,
        i < s.len() ==> s[i] == c,
    ensures
        i < s.len() ==> first_occ(s, c) == i,
        i == s.len() ==> first_occ(s, c) == -1,
    decreases s.len(),
{
    if s.len() > 0 {
        if s[0] == c {
        } else {
            assert(i > 0 || i == 0);
            assert forall|j: int| 0 <= j < i - 1 implies (#[trigger] s.skip(1)[j]) != c by {
                assert(s[j + 1] != c);
            }
            if i < s.len() {
                assert(s.skip(1)[i - 1] == s[i]);
            }
            lemma_first_occ(s.skip(1), c, i - 1);
        }
    }
}

/// View of one filter operand location.
#[verifier::ext_equal]
pub struct SpecAttrPath {
    pub a: Seq<char>,
    pub s: Option<Seq<char>>,
}

/// One filter operand location: an attribute name and an optional
/// sub-attribute name.
#[derive(Debug, Clone, PartialEq, Eq)]
pub struct AttrPath {
    pub a: String,
    pub s: Option<String>,
}

impl DeepView for AttrPath {
    type V = SpecAttrPath;

    open spec fn deep_view(&self) -> SpecAttrPath {
        SpecAttrPath { a: self.a@, s: self.s.deep_view() }
    }
}

/// Parse of an attribute path: one identifier, optionally followed by a
/// single dot and a second identifier.
pub open spec fn spec_parse_attr_path(s: Seq<char>) -> Option<SpecAttrPath> {
    let d = first_occ(s, '.');
    if d == -1 {
        if spec_is_ident(s) {
            Some(SpecAttrPath { a: s, s: None })
        } else {
            None
        }
    } else {
        if spec_is_ident(s.take(d)) && spec_is_ident(s.skip(d + 1)) {
            Some(SpecAttrPath { a: s.take(d), s: Some(s.skip(d + 1)) })
        } else {
            None
        }
    }
}

/// View of one parsed predicate.
#[verifier::ext_equal]
pub enum SpecFilter {
    Present(SpecAttrPath),
    Equal(SpecAttrPath, SpecWire),
}

/// One parsed predicate: attribute presence, or attribute equality with a
/// scalar value. Further operators are an additive extension of this
/// variant set.
#[derive(Debug)]
pub enum ScimFilter {
    Present(AttrPath),
    Equal(AttrPath, WireValue),
}

impl DeepView for ScimFilter {
    type V = SpecFilter;

    open spec fn deep_view(&self) -> SpecFilter {
        match self {
            ScimFilter::Present(p) => SpecFilter::Present(p.deep_view()),
            ScimFilter::Equal(p, v) => SpecFilter::Equal(p.deep_view(), v.deep_view()),
        }
    }
}

/// An optionally signed, non-empty run of digits.
pub open spec fn spec_is_int_text(s: Seq<char>) -> bool {
    &&& s.len() > 0
    &&& (spec_is_digit(s[0]) || (s[0] == '-' && s.len() > 1))
    &&& forall|i: int| 0 < i < s.len() ==> spec_is_digit(#[trigger] s[i])
}

/// Parse of a value operand: a quoted string, a boolean literal, an
/// integer, or a bare token without spaces (taken as a string).
pub open spec fn spec_parse_value(s: Seq<char>) -> Option<SpecWire> {
    if s.len() == 0 {
        None
    } else if s[0] == '"' {
        if s.len() >= 2 && s.last() == '"' && (forall|i: int|
            0 < i < s.len() - 1 ==> (#[trigger] s[i]) != '"') {
            Some(SpecWire::Str(s.subrange(1, s.len() - 1)))
        } else {
            None
        }
    } else if first_occ(s, ' ') != -1 {
        None
    } else if s == "true"@ {
        Some(SpecWire::Bool(true))
    } else if s == "false"@ {
        Some(SpecWire::Bool(false))
    } else if spec_is_int_text(s) {
        Some(SpecWire::Number(s))
    } else {
        Some(SpecWire::Str(s))
    }
}

/// Parse of a whole filter expression.
pub open spec fn spec_parse_filter(s: Seq<char>) -> Option<SpecFilter> {
    let sp = first_occ(s, ' ');
    if sp == -1 {
        None
    } else {
        let path = spec_parse_attr_path(s.take(sp));
        let rest = s.skip(sp + 1);
        if path is None {
            None
        } else if rest == "pr"@ {
            Some(SpecFilter::Present(path->0))
        } else if rest.len() >= 3 && rest.take(2) == "eq"@ && rest[2] == ' ' {
            match spec_parse_value(rest.skip(3)) {
                Some(v) => Some(SpecFilter::Equal(path->0, v)),
                None => None,
            }
        } else {
            None
        }
    }
}

/// Whether every character of a range of a text is an identifier
/// character, its first being alphabetic.
#[verifier::loop_isolation(false)]
fn check_ident(s: &str, from: usize, to: usize) -> (r: bool)
    requires
        from <= to <= s@.len(),
    ensures
        r == spec_is_ident(s@.subrange(from as int, to as int)),
{
    if from == to {
        return false;
    }
    let c0 = s.get_char(from);
    if !(('a' <= c0 && c0 <= 'z') || ('A' <= c0 && c0 <= 'Z')) {
        proof {
            assert(s@.subrange(from as int, to as int)[0] == c0);
        }
        return false;
    }
    let mut i: usize = from + 1;
    while i < to
        invariant
            from < i <= to,
            forall|j: int| from < j < i ==> spec_is_ident_char(#[trigger] s@[j]),
        decreases to - i,
    {
        let c = s.get_char(i);
        if !(('a' <= c && c <= 'z') || ('A' <= c && c <= 'Z') || ('0' <= c && c <= '9')
            || c == '-' || c == '_') {
            proof {
                assert(s@.subrange(from as int, to as int)[i - from] == c);
            }
            return false;
        }
        i += 1;
    }
    proof {
        let sub = s@.subrange(from as int, to as int);
        assert(sub[0] == s@[from as int]);
        assert forall|j: int| 0 < j < sub.len() implies spec_is_ident_char(
            #[trigger] sub[j]) by {
            assert(sub[j] == s@[from + j]);
        }
    }
    true
}

/// Find the first occurrence of a character in a text.
#[verifier::loop_isolation(false)]
fn find_char(s: &str, c: char) -> (r: Option<usize>)
    ensures
        match r {
            Some(i) => i < s@.len() && first_occ(s@, c) == i,
            None => first_occ(s@, c) == -1,
        },
{
    let n = s.unicode_len();
    let mut i: usize = 0;
    while i < n
        invariant
            i <= n,
            n == s@.len(),
            forall|j: int| 0 <= j < i ==> (#[trigger] s@[j]) != c,
        decreases n - i,
    {
        if s.get_char(i) == c {
            proof {
                lemma_first_occ(s@, c, i as int);
            }
            return Some(i);
        }
        i += 1;
    }
    proof {
        lemma_first_occ(s@, c, n as int);
    }
    None
}

/// Parse an attribute name: the text must be one identifier.
pub fn parse_aname(s: &str) -> (r: Result<String, FilterError>)
    ensures
        match r {
            Ok(out) => spec_is_ident(s@) && out@ == s@,
            Err(e) => !spec_is_ident(s@) && e == FilterError::Syntax,
        },
{
    let n = s.unicode_len();
    if check_ident(s, 0, n) {
        proof {
            assert(s@.subrange(0, n as int) =~= s@);
        }
        Ok(String::from_str(s))
    } else {
        proof {
            assert(s@.subrange(0, n as int) =~= s@);
        }
        Err(FilterError::Syntax)
    }
}

/// Parse an attribute path: an identifier, optionally followed by one dot
/// and a second identifier.
pub fn parse_attr_path(s: &str) -> (r: Result<AttrPath, FilterError>)
    ensures
        match r {
            Ok(p) => spec_parse_attr_path(s@) == Some(p.deep_view()),
            Err(e) => spec_parse_attr_path(s@) is None && e == FilterError::Syntax,
        },
{
    let n = s.unicode_len();
    match find_char(s, '.') {
        None => {
            if check_ident(s, 0, n) {
                proof {
                    assert(s@.subrange(0, n as int) =~= s@);
                }
                Ok(AttrPath { a: String::from_str(s), s: None })
            } else {
                proof {
                    assert(s@.subrange(0, n as int) =~= s@);
                }
                Err(FilterError::Syntax)
            }
        },
        Some(d) => {
            if check_ident(s, 0, d) && check_ident(s, d + 1, n) {
                let name = s.substring_char(0, d);
                let sub = s.substring_char(d + 1, n);
                proof {
                    assert(s@.subrange(0, d as int) =~= s@.take(d as int));
                    assert(s@.subrange(d + 1, n as int) =~= s@.skip(d + 1));
                }
                Ok(AttrPath { a: String::from_str(name), s: Some(String::from_str(sub)) })
            } else {
                proof {
                    assert(s@.subrange(0, d as int) =~= s@.take(d as int));
                    assert(s@.subrange(d + 1, n as int) =~= s@.skip(d + 1));
                }
                Err(FilterError::Syntax)
            }
        },
    }
}

/// Parse a value operand.
#[verifier::loop_isolation(false)]
fn parse_value(s: &str) -> (r: Result<WireValue, FilterError>)
    ensures
        match r {
            Ok(v) => spec_parse_value(s@) == Some(crate::wire::wire_view(&v)),
            Err(e) => spec_parse_value(s@) is None && e == FilterError::Syntax,
        },
{
    let n = s.unicode_len();
    if n == 0 {
        return Err(FilterError::Syntax);
    }
    let c0 = s.get_char(0);
    if c0 == '"' {
        if n < 2 || s.get_char(n - 1) != '"' {
            return Err(FilterError::Syntax);
        }
        let mut i: usize = 1;
        while i < n - 1
            invariant
                1 <= i <= n - 1,
                n == s@.len(),
                forall|j: int| 0 < j < i ==> (#[trigger] s@[j]) != '"',
            decreases n - 1 - i,
        {
            if s.get_char(i) == '"' {
                return Err(FilterError::Syntax);
            }
            i += 1;
        }
        let inner = s.substring_char(1, n - 1);
        return Ok(WireValue::Str(String::from_str(inner)));
    }
    match find_char(s, ' ') {
        Some(_) => Err(FilterError::Syntax),
        None => {
            if str_eq(s, "true") {
                return Ok(WireValue::Bool(true));
            }
            if str_eq(s, "false") {
                return Ok(WireValue::Bool(false));
            }
            let mut digits_from: usize = 0;
            if c0 == '-' && n > 1 {
                digits_from = 1;
            }
            let mut all_digits: bool = ('0' <= s.get_char(digits_from) && s.get_char(
                digits_from) <= '9') || (c0 == '-' && n > 1);
            let ghost init_ok = all_digits;
            let mut i: usize = digits_from;
            while i < n
                invariant
                    digits_from <= i <= n,
                    n == s@.len(),
                    digits_from == 0 || digits_from == 1,
                    all_digits == (init_ok && (forall|j: int| digits_from <= j < i
                        ==> spec_is_digit(#[trigger] s@[j]))),
                decreases n - i,
            {
                let c = s.get_char(i);
                if !('0' <= c && c <= '9') {
                    all_digits = false;
                }
                i += 1;
            }
            proof {
                if spec_is_int_text(s@) && !(all_digits && (digits_from == 0 || n > 1)) {
                    if s@[0] == '-' {
                        assert(digits_from == 1);
                        assert(init_ok);
                    } else {
                        assert(digits_from == 0);
                        assert(spec_is_digit(s@[0]));
                        assert(init_ok);
                    }
                    assert(forall|j: int| digits_from <= j < n ==> spec_is_digit(
                        #[trigger] s@[j]));
                    assert(false);
                }
            }
            if all_digits && (digits_from == 0 || n > 1) {
                proof {
                    assert(spec_is_int_text(s@));
                }
                return Ok(WireValue::Number(String::from_str(s)));
            }
            Ok(WireValue::Str(String::from_str(s)))
        },
    }
}

/// Parse a filter expression: an attribute path, then the presence
/// operator `pr` or the equality operator `eq` with a value operand.
pub fn parse_filter(s: &str) -> (r: Result<ScimFilter, FilterError>)
    ensures
        match r {
            Ok(f) => spec_parse_filter(s@) == Some(f.deep_view()),
            Err(e) => spec_parse_filter(s@) is None && e == FilterError::Syntax,
        },
{
    let n = s.unicode_len();
    let sp = match find_char(s, ' ') {
        Some(i) => i,
        None => {
            return Err(FilterError::Syntax);
        },
    };
    let head = s.substring_char(0, sp);
    proof {
        assert(head@ =~= s@.take(sp as int));
    }
    let path = match parse_attr_path(head) {
        Ok(p) => p,
        Err(_) => {
            return Err(FilterError::Syntax);
        },
    };
    let rest = s.substring_char(sp + 1, n);
    proof {
        assert(rest@ =~= s@.skip(sp + 1));
    }
    if str_eq(rest, "pr") {
        return Ok(ScimFilter::Present(path));
    }
    let rn = rest.unicode_len();
    if rn >= 3 {
        let op = rest.substring_char(0, 2);
        proof {
            assert(op@ =~= rest@.take(2));
        }
        if str_eq(op, "eq") && rest.get_char(2) == ' ' {
            let vtext = rest.substring_char(3, rn);
            proof {
                assert(vtext@ =~= rest@.skip(3));
            }
            let v = match parse_value(vtext) {
                Ok(v) => v,
                Err(_) => {
                    return Err(FilterError::Syntax);
                },
            };
            return Ok(ScimFilter::Equal(path, v));
        }
    }
    proof {
        let restg = s@.skip(sp + 1);
        if restg.len() >= 3 && restg.take(2) == "eq"@ && restg[2] == ' ' {
            assert(rn >= 3);
        }
    }
    Err(FilterError::Syntax)
}

} // verus!
