//! Naming conventions of the protocol: type names are written in
//! snake case on the wire, and a few field names are escaped.

use vstd::prelude::*;
use crate::text::{push_char, str_eq};

verus! {

/// Whether `c` is an ASCII upper-case letter.
pub open spec fn is_ascii_upper(c: char) -> bool {
    'A' <= c && c <= 'Z'
}

/// ASCII lower-casing of one character; other characters are unchanged.
pub open spec fn ascii_lower(c: char) -> char {
    if is_ascii_upper(c) { ((c as u32) + 32) as char } else { c }
}

/// The snake-case rendering of the characters after the first one:
/// each ASCII upper-case letter becomes `_` followed by its lower-case form.
pub open spec fn snake_tail(s: Seq<char>) -> Seq<char>
    decreases s.len(),
{
    if s.len() == 0 {
        Seq::empty()
    } else {
        let head = if is_ascii_upper(s[0]) { seq!['_', ascii_lower(s[0])] } else { seq![s[0]] };
        head + snake_tail(s.drop_first())
    }
}

/// The snake-case rendering of a non-empty name: the first character is
/// lower-cased, and every later ASCII upper-case letter is replaced by `_`
/// and its lower-case form.
pub open spec fn snake(s: Seq<char>) -> Seq<char>
    recommends
        s.len() > 0,
{
    seq![ascii_lower(s[0])] + snake_tail(s.drop_first())
}

fn to_ascii_lower(c: char) -> (r: char)
    ensures
        r == ascii_lower(c),
{
    if 'A' <= c && c <= 'Z' {
        let v: u32 = (c as u32) + 32;
        assert(0x61 <= v <= 0x7a);
        (v as u8) as char
    } else {
        c
    }
}

proof fn lemma_snake_tail_split(s: Seq<char>, i: int)
    requires
        0 <= i < s.len(),
    ensures
        snake_tail(s.take(i + 1)) == snake_tail(s.take(i)) + (if is_ascii_upper(s[i]) {
            seq!['_', ascii_lower(s[i])]
        } else {
            seq![s[i]]
        }),
    decreases i,
{
    let t = s.take(i + 1);
    assert(t.drop_first() =~= s.drop_first().take(i));
    if i == 0 {
        assert(s.take(0) =~= Seq::<char>::empty());
        assert(t.drop_first() =~= Seq::<char>::empty());
    } else {
        lemma_snake_tail_split(s.drop_first(), i - 1);
        assert(s.drop_first().take(i - 1) =~= s.take(i).drop_first());
        assert(s.drop_first()[i - 1] == s[i]);
        let h = if is_ascii_upper(s[0]) { seq!['_', ascii_lower(s[0])] } else { seq![s[0]] };
        assert(snake_tail(s.take(i)) == h + snake_tail(s.take(i).drop_first()));
        assert(snake_tail(t) == h + snake_tail(t.drop_first()));
    }
}

/// Converts a type name such as `GetUserInfo` into the wire name
/// `get_user_info`.
pub fn snake_case(s: String) -> (out: String)
    requires
        s@.len() > 0,
    ensures
        out@ == snake(s@),
{
    let n = s.as_str().unicode_len();
    let mut out = String::new();
    let first = s.as_str().get_char(0);
    push_char(&mut out, to_ascii_lower(first));
    let ghost rest = s@.drop_first();
    let mut i: usize = 1;
    assert(rest.take(0) =~= Seq::<char>::empty());
    while i < n
        invariant
            1 <= i <= n,
            n == s@.len(),
            rest == s@.drop_first(),
            out@ == seq![ascii_lower(s@[0])] + snake_tail(rest.take(i - 1)),
        decreases n - i,
    {
        let c = s.as_str().get_char(i);
        proof {
            lemma_snake_tail_split(rest, i - 1);
            assert(rest[i - 1] == c);
        }
        if 'A' <= c && c <= 'Z' {
            push_char(&mut out, '_');
            push_char(&mut out, to_ascii_lower(c));
        } else {
            push_char(&mut out, c);
        }
        i = i + 1;
        proof {
            assert(rest.take(i - 1) == rest.take((i - 2) + 1));
        }
    }
    assert(rest.take(i - 1) =~= rest);
    out
}

/// The escaped wire name of a field: `ty` becomes `type`, `implt`
/// becomes `impl`, `selft` becomes `self`; other names are kept.
pub open spec fn escaped(s: Seq<char>) -> Seq<char> {
    if s == "ty"@ {
        "type"@
    } else if s == "implt"@ {
        "impl"@
    } else if s == "selft"@ {
        "self"@
    } else {
        s
    }
}

/// Replaces a field name that is a Rust keyword workaround by its wire
/// name.
pub fn escape(s: &mut String)
    ensures
        final(s)@ == escaped(old(s)@),
{
    if str_eq(s.as_str(), "ty") {
        *s = "type".to_owned();
    } else if str_eq(s.as_str(), "implt") {
        *s = "impl".to_owned();
    } else if str_eq(s.as_str(), "selft") {
        *s = "self".to_owned();
    }
}

/// The number of ASCII upper-case letters in `s`.
pub open spec fn upper_count(s: Seq<char>) -> nat
    decreases s.len(),
{
    if s.len() == 0 {
        0
    } else {
        (if is_ascii_upper(s[0]) { 1nat } else { 0nat }) + upper_count(s.drop_first())
    }
}

/// No ASCII upper-case letter occurs in `s`.
pub open spec fn no_upper(s: Seq<char>) -> bool {
    forall|i: int| 0 <= i < s.len() ==> !is_ascii_upper(#[trigger] s[i])
}

proof fn lemma_lower_is_not_upper(c: char)
    ensures
        !is_ascii_upper(ascii_lower(c)),
        ascii_lower(ascii_lower(c)) == ascii_lower(c),
{
    if is_ascii_upper(c) {
        let v = (c as u32) + 32;
        assert(0x61 <= v <= 0x7a);
        assert((v as char) as u32 == v);
    }
}

proof fn lemma_snake_tail_facts(s: Seq<char>)
    ensures
        no_upper(snake_tail(s)),
        snake_tail(s).len() == s.len() + upper_count(s),
    decreases s.len(),
{
    if s.len() > 0 {
        lemma_snake_tail_facts(s.drop_first());
        lemma_lower_is_not_upper(s[0]);
        let head = if is_ascii_upper(s[0]) { seq!['_', ascii_lower(s[0])] } else { seq![s[0]] };
        let t = snake_tail(s.drop_first());
        assert(snake_tail(s) == head + t);
        assert forall|i: int| 0 <= i < (head + t).len() implies !is_ascii_upper(#[trigger] (head + t)[i]) by {
            if i >= head.len() {
                assert((head + t)[i] == t[i - head.len()]);
            }
        }
    }
}

proof fn lemma_snake_tail_keeps_lower(s: Seq<char>)
    requires
        no_upper(s),
    ensures
        snake_tail(s) == s,
    decreases s.len(),
{
    if s.len() > 0 {
        assert(no_upper(s.drop_first())) by {
            assert forall|i: int| 0 <= i < s.drop_first().len() implies !is_ascii_upper(#[trigger] s.drop_first()[i]) by {
                assert(s.drop_first()[i] == s[i + 1]);
            }
        }
        lemma_snake_tail_keeps_lower(s.drop_first());
        assert(!is_ascii_upper(s[0]));
        assert(seq![s[0]] + s.drop_first() =~= s);
    }
}

/// A snake-case name holds no ASCII upper-case letter.
pub proof fn law_snake_case_has_no_upper(s: Seq<char>)
    requires
        s.len() > 0,
    ensures
        no_upper(snake(s)),
{
    lemma_snake_tail_facts(s.drop_first());
    lemma_lower_is_not_upper(s[0]);
    let t = snake_tail(s.drop_first());
    assert forall|i: int| 0 <= i < snake(s).len() implies !is_ascii_upper(#[trigger] snake(s)[i]) by {
        if i > 0 {
            assert(snake(s)[i] == t[i - 1]);
        }
    }
}

/// A snake-case name is longer than the name by one `_` for each ASCII
/// upper-case letter after the first character.
pub proof fn law_snake_case_length(s: Seq<char>)
    requires
        s.len() > 0,
    ensures
        snake(s).len() == s.len() + upper_count(s.drop_first()),
{
    lemma_snake_tail_facts(s.drop_first());
}

/// Snake-casing a snake-case name changes nothing.
pub proof fn law_snake_case_idempotent(s: Seq<char>)
    requires
        s.len() > 0,
    ensures
        snake(snake(s)) == snake(s),
{
    let t = snake(s);
    lemma_snake_tail_facts(s.drop_first());
    lemma_lower_is_not_upper(s[0]);
    assert(t.drop_first() =~= snake_tail(s.drop_first()));
    lemma_snake_tail_keeps_lower(t.drop_first());
    assert(t[0] == ascii_lower(s[0]));
    assert(snake(t) =~= t);
}

} // verus!

verus! {

/// The escaped wire name: `ty` becomes `type`, `implt` becomes `impl`,
/// `selft` becomes `self`, and every other name is kept as it is.
pub proof fn law_escape_wire_names(s: Seq<char>)
    ensures
        s =~= seq!['t', 'y'] ==> escaped(s) =~= seq!['t', 'y', 'p', 'e'],
        s =~= seq!['i', 'm', 'p', 'l', 't'] ==> escaped(s) =~= seq!['i', 'm', 'p', 'l'],
        s =~= seq!['s', 'e', 'l', 'f', 't'] ==> escaped(s) =~= seq!['s', 'e', 'l', 'f'],
        !(s =~= seq!['t', 'y']) && !(s =~= seq!['i', 'm', 'p', 'l', 't']) && !(s =~= seq!['s', 'e', 'l', 'f', 't'])
            ==> escaped(s) == s,
{
    reveal_strlit("ty"); reveal_strlit("type"); reveal_strlit("implt"); reveal_strlit("impl");
    reveal_strlit("selft"); reveal_strlit("self");
    assert("ty"@ =~= seq!['t', 'y']);
    assert("type"@ =~= seq!['t', 'y', 'p', 'e']);
    assert("implt"@ =~= seq!['i', 'm', 'p', 'l', 't']);
    assert("impl"@ =~= seq!['i', 'm', 'p', 'l']);
    assert("selft"@ =~= seq!['s', 'e', 'l', 'f', 't']);
    assert("self"@ =~= seq!['s', 'e', 'l', 'f']);
}

} // verus!
