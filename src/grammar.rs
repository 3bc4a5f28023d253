//! The JSON grammar as spec functions, and the proof that every well-formed
//! value is written as JSON.
use vstd::prelude::*;
use crate::model::{
    colon, decimal, escape, escape_char, indent_text, int_text, is_special, quoted, render,
    render_items, render_member, render_members, separator, fill, Json,
};

verus! {

/// The code of a character.
pub open spec fn code_of(c: char) -> int {
    c as u32 as int
}

pub open spec fn is_ws(c: char) -> bool {
    c == ' ' || c == '\t' || c == '\n' || c == '\r'
}

pub open spec fn all_ws(s: Seq<char>) -> bool {
    forall|i: int| 0 <= i < s.len() ==> is_ws(#[trigger] s[i])
}

pub open spec fn is_digit(c: char) -> bool {
    code_of('0') <= code_of(c) <= code_of('9')
}

pub open spec fn all_digits(s: Seq<char>) -> bool {
    s.len() > 0 && forall|i: int| 0 <= i < s.len() ==> is_digit(#[trigger] s[i])
}

/// The integer part of a number: no leading zero but in `0` itself.
pub open spec fn is_int_part(s: Seq<char>) -> bool {
    all_digits(s) && (s[0] == '0' ==> s.len() == 1)
}

pub open spec fn is_fraction(s: Seq<char>) -> bool {
    s.len() == 0 || (s[0] == '.' && all_digits(s.skip(1)))
}

pub open spec fn is_exponent(s: Seq<char>) -> bool {
    s.len() == 0 || ((s[0] == 'e' || s[0] == 'E') && (all_digits(s.skip(1)) || (s.len() >= 2 && (
    s[1] == '+' || s[1] == '-') && all_digits(s.skip(2)))))
}

/// A JSON number: a sign, an integer part, a fraction and an exponent.
pub open spec fn is_number(s: Seq<char>) -> bool {
    exists|a: int, b: int, c: int|
        0 <= a <= b <= c <= s.len() && (a == 0 || (a == 1 && s[0] == '-')) && #[trigger] is_int_part(
            s.subrange(a, b),
        ) && #[trigger] is_fraction(s.subrange(b, c)) && #[trigger] is_exponent(s.skip(c))
}

pub open spec fn is_literal_token(s: Seq<char>) -> bool {
    s == seq!['n', 'u', 'l', 'l'] || s == seq!['t', 'r', 'u', 'e'] || s == seq![
        'f',
        'a',
        'l',
        's',
        'e',
    ] || is_number(s)
}

pub open spec fn is_hex(c: char) -> bool {
    is_digit(c) || (code_of('a') <= code_of(c) <= code_of('f')) || (code_of('A') <= code_of(c)
        <= code_of('F'))
}

/// The body of a JSON string: no bare quote, backslash or control character,
/// and only the escape sequences that JSON defines.
pub open spec fn is_string_body(s: Seq<char>) -> bool
    decreases s.len(),
{
    if s.len() == 0 {
        true
    } else if s[0] == '\\' {
        if s.len() >= 2 && (s[1] == '"' || s[1] == '\\' || s[1] == '/' || s[1] == 'b' || s[1]
            == 'f' || s[1] == 'n' || s[1] == 'r' || s[1] == 't') {
            is_string_body(s.skip(2))
        } else if s.len() >= 6 && s[1] == 'u' && is_hex(s[2]) && is_hex(s[3]) && is_hex(s[4])
            && is_hex(s[5]) {
            is_string_body(s.skip(6))
        } else {
            false
        }
    } else {
        s[0] != '"' && code_of(s[0]) >= 0x20 && is_string_body(s.skip(1))
    }
}

pub open spec fn is_json_string(s: Seq<char>) -> bool {
    s.len() >= 2 && s[0] == '"' && s[s.len() - 1] == '"' && is_string_body(
        s.subrange(1, s.len() - 1),
    )
}

/// A JSON value, with nothing around it.
pub open spec fn is_json_value(s: Seq<char>) -> bool
    decreases s.len(), 0int,
{
    ||| is_literal_token(s)
    ||| is_json_string(s)
    ||| (s.len() >= 2 && s[0] == '[' && s[s.len() - 1] == ']' && (all_ws(
        s.subrange(1, s.len() - 1),
    ) || is_elements(s.subrange(1, s.len() - 1))))
    ||| (s.len() >= 2 && s[0] == '{' && s[s.len() - 1] == '}' && (all_ws(
        s.subrange(1, s.len() - 1),
    ) || is_members(s.subrange(1, s.len() - 1))))
}

/// A JSON value with whitespace on either side: a whole JSON text.
pub open spec fn is_json_text(s: Seq<char>) -> bool
    decreases s.len(), 1int,
{
    exists|a: int, b: int|
        0 <= a <= b <= s.len() && all_ws(#[trigger] s.take(a)) && all_ws(#[trigger] s.skip(b))
            && is_json_value(s.subrange(a, b))
}

/// One or more array elements separated by commas.
pub open spec fn is_elements(s: Seq<char>) -> bool
    decreases s.len(), 2int,
{
    ||| is_json_text(s)
    ||| exists|i: int|
        0 <= i < s.len() && s[i] == ',' && is_elements(#[trigger] s.take(i)) && is_json_text(
            s.skip(i + 1),
        )
}

/// One object member: a key, a colon and a value, with whitespace around.
pub open spec fn is_member(s: Seq<char>) -> bool
    decreases s.len(), 2int,
{
    exists|a: int, b: int|
        0 <= a <= b < s.len() && all_ws(#[trigger] s.take(a)) && is_json_string(
            #[trigger] s.subrange(a, b),
        ) && s[b] == ':' && is_json_text(s.skip(b + 1))
}

/// One or more object members separated by commas.
pub open spec fn is_members(s: Seq<char>) -> bool
    decreases s.len(), 3int,
{
    ||| is_member(s)
    ||| exists|i: int|
        0 <= i < s.len() && s[i] == ',' && is_members(#[trigger] s.take(i)) && is_member(
            s.skip(i + 1),
        )
}

/// Text that the escaper turns into a valid string body: every control
/// character in it is one that the escaper replaces.
pub open spec fn escapable(s: Seq<char>) -> bool {
    forall|i: int| 0 <= i < s.len() ==> is_special(#[trigger] s[i]) || code_of(s[i]) >= 0x20
}

/// A value that the builder writes as valid JSON: its tokens are JSON
/// literals, and its strings and keys are `escapable`.
pub open spec fn well_formed_value(v: Json) -> bool
    decreases v,
{
    match v {
        Json::Lit(t) => is_literal_token(t),
        Json::Str(t) => escapable(t),
        Json::Arr(items) => forall|i: int|
            0 <= i < items.len() ==> well_formed_value(#[trigger] items[i]),
        Json::Obj(members) => forall|i: int|
            0 <= i < members.len() ==> escapable(#[trigger] members[i].0) && well_formed_value(
                members[i].1,
            ),
    }
}

proof fn lemma_body_one(c: char, rest: Seq<char>)
    requires
        is_special(c) || code_of(c) >= 0x20,
        is_string_body(rest),
    ensures
        is_string_body(escape_char(c) + rest),
{
    let s = escape_char(c) + rest;
    let k = escape_char(c).len() as int;
    assert(s.skip(k) =~= rest);
    if c == '<' || c == '>' || c == '\0' {
        assert(is_hex(s[2]) && is_hex(s[3]) && is_hex(s[4]) && is_hex(s[5]));
    }
}

pub proof fn lemma_escape_body(t: Seq<char>)
    requires
        escapable(t),
    ensures
        is_string_body(escape(t)),
    decreases t.len(),
{
    if t.len() > 0 {
        assert(escapable(t.skip(1))) by {
            assert forall|i: int| 0 <= i < t.skip(1).len() implies is_special(
                #[trigger] t.skip(1)[i],
            ) || code_of(t.skip(1)[i]) >= 0x20 by {
                assert(t.skip(1)[i] == t[i + 1]);
            }
        }
        lemma_escape_body(t.skip(1));
        assert(is_special(t[0]) || code_of(t[0]) >= 0x20);
        lemma_body_one(t[0], escape(t.skip(1)));
    }
}

pub proof fn lemma_quoted(t: Seq<char>)
    requires
        escapable(t),
    ensures
        is_json_string(quoted(t)),
{
    lemma_escape_body(t);
    let q = quoted(t);
    assert(q.subrange(1, q.len() - 1) =~= escape(t));
}

proof fn lemma_decimal(n: nat)
    ensures
        is_int_part(decimal(n)),
        decimal(n)[0] == '0' ==> n == 0,
    decreases n,
{
    if n >= 10 {
        lemma_decimal(n / 10);
        let d = decimal(n);
        assert forall|i: int| 0 <= i < d.len() implies is_digit(#[trigger] d[i]) by {
            if i < d.len() - 1 {
                assert(d[i] == decimal(n / 10)[i]);
            }
        }
        assert(d[0] == decimal(n / 10)[0]);
    }
}

/// The decimal text of every integer is a JSON number.
pub proof fn lemma_int_text(i: int)
    ensures
        is_number(int_text(i)),
        is_literal_token(int_text(i)),
{
    let s = int_text(i);
    let a: int = if i < 0 {
        1
    } else {
        0
    };
    let m: nat = if i < 0 {
        (-i) as nat
    } else {
        i as nat
    };
    lemma_decimal(m);
    assert(s.subrange(a, s.len() as int) =~= decimal(m));
    assert(s.subrange(s.len() as int, s.len() as int) =~= Seq::<char>::empty());
    assert(s.skip(s.len() as int) =~= Seq::<char>::empty());
    assert(is_int_part(s.subrange(a, s.len() as int)) && is_fraction(
        s.subrange(s.len() as int, s.len() as int),
    ) && is_exponent(s.skip(s.len() as int)));
}

pub proof fn lemma_indent_ws(depth: nat, width: nat, tabs: bool)
    ensures
        all_ws(indent_text(depth, width, tabs)),
{
    let t = indent_text(depth, width, tabs);
    if width > 0 {
        assert forall|i: int| 0 <= i < t.len() implies is_ws(#[trigger] t[i]) by {
            if i > 0 {
                assert(t[i] == fill(depth * width, tabs)[i - 1]);
            }
        }
    }
}

pub proof fn lemma_text_of(pre: Seq<char>, v: Seq<char>, post: Seq<char>)
    requires
        all_ws(pre),
        all_ws(post),
        is_json_value(v),
    ensures
        is_json_text(pre + v + post),
{
    let s = pre + v + post;
    let a = pre.len() as int;
    let b = a + v.len();
    assert(s.take(a) =~= pre);
    assert(s.skip(b) =~= post);
    assert(s.subrange(a, b) =~= v);
    assert(0 <= a <= b <= s.len() && all_ws(s.take(a)) && all_ws(s.skip(b)) && is_json_value(
        s.subrange(a, b),
    ));
}

proof fn lemma_elements_step(r: Seq<char>, rest: Seq<char>)
    requires
        is_elements(r),
        is_json_text(rest),
    ensures
        is_elements(r + seq![','] + rest),
{
    let s = r + seq![','] + rest;
    let i = r.len() as int;
    assert(s.take(i) =~= r);
    assert(s.skip(i + 1) =~= rest);
    assert(0 <= i < s.len() && s[i] == ',' && is_elements(s.take(i)) && is_json_text(s.skip(i + 1)));
}

proof fn lemma_members_step(r: Seq<char>, rest: Seq<char>)
    requires
        is_members(r),
        is_member(rest),
    ensures
        is_members(r + seq![','] + rest),
{
    let s = r + seq![','] + rest;
    let i = r.len() as int;
    assert(s.take(i) =~= r);
    assert(s.skip(i + 1) =~= rest);
    assert(0 <= i < s.len() && s[i] == ',' && is_members(s.take(i)) && is_member(s.skip(i + 1)));
}

/// Every well-formed value is written as a JSON value, in either mode and at
/// any depth.
pub proof fn lemma_render_valid(v: Json, depth: nat, width: nat, tabs: bool)
    requires
        well_formed_value(v),
    ensures
        is_json_value(render(v, depth, width, tabs)),
    decreases v,
{
    match v {
        Json::Lit(t) => {
            assert(is_literal_token(render(v, depth, width, tabs)));
        },
        Json::Str(t) => {
            lemma_quoted(t);
            assert(is_json_string(render(v, depth, width, tabs)));
        },
        Json::Arr(items) => {
            let s = render(v, depth, width, tabs);
            if items.len() == 0 {
                assert(all_ws(s.subrange(1, s.len() - 1)));
            } else {
                let tail = indent_text(depth, width, tabs);
                lemma_indent_ws(depth, width, tabs);
                lemma_items_valid(items, depth + 1, width, tabs, tail);
                assert(s.subrange(1, s.len() - 1) =~= render_items(items, depth + 1, width, tabs)
                    + tail);
                assert(s[0] == '[' && s[s.len() - 1] == ']');
                assert(is_elements(s.subrange(1, s.len() - 1)));
            }
        },
        Json::Obj(members) => {
            let s = render(v, depth, width, tabs);
            if members.len() == 0 {
                assert(all_ws(s.subrange(1, s.len() - 1)));
            } else {
                let tail = indent_text(depth, width, tabs);
                lemma_indent_ws(depth, width, tabs);
                lemma_members_valid(members, depth + 1, width, tabs, tail);
                assert(s.subrange(1, s.len() - 1) =~= render_members(
                    members,
                    depth + 1,
                    width,
                    tabs,
                ) + tail);
                assert(s[0] == '{' && s[s.len() - 1] == '}');
                assert(is_members(s.subrange(1, s.len() - 1)));
            }
        },
    }
}

proof fn lemma_items_valid(
    items: Seq<Json>,
    depth: nat,
    width: nat,
    tabs: bool,
    tail: Seq<char>,
)
    requires
        items.len() > 0,
        forall|i: int| 0 <= i < items.len() ==> well_formed_value(#[trigger] items[i]),
        all_ws(tail),
    ensures
        is_elements(render_items(items, depth, width, tabs) + tail),
    decreases items,
{
    let n = items.len() - 1;
    let init = items.subrange(0, n);
    let ind = indent_text(depth, width, tabs);
    lemma_indent_ws(depth, width, tabs);
    lemma_render_valid(items[n], depth, width, tabs);
    let last = render(items[n], depth, width, tabs);
    lemma_text_of(ind, last, tail);
    let r = render_items(init, depth, width, tabs);
    assert(render_items(items, depth, width, tabs) == r + separator(n) + ind + last);
    if n == 0 {
        assert(r == Seq::<char>::empty());
        assert(render_items(items, depth, width, tabs) + tail =~= ind + last + tail);
    } else {
        assert forall|j: int| 0 <= j < init.len() implies well_formed_value(#[trigger] init[j]) by {
            assert(init[j] == items[j]);
        }
        lemma_items_valid(init, depth, width, tabs, Seq::empty());
        assert(r + Seq::<char>::empty() =~= r);
        lemma_elements_step(r, ind + last + tail);
        assert(render_items(items, depth, width, tabs) + tail =~= r + seq![','] + (ind + last
            + tail));
    }
}

proof fn lemma_member_valid(
    m: (Seq<char>, Json),
    depth: nat,
    width: nat,
    tabs: bool,
    tail: Seq<char>,
)
    requires
        escapable(m.0),
        well_formed_value(m.1),
        all_ws(tail),
    ensures
        is_member(render_member(m, depth, width, tabs) + tail),
    decreases m,
{
    let ind = indent_text(depth, width, tabs);
    let key = quoted(m.0);
    let val = render(m.1, depth, width, tabs);
    lemma_indent_ws(depth, width, tabs);
    lemma_quoted(m.0);
    lemma_render_valid(m.1, depth, width, tabs);
    let s = render_member(m, depth, width, tabs) + tail;
    let a = ind.len() as int;
    let b = a + key.len();
    let gap = colon(width).skip(1);
    assert(all_ws(gap));
    assert(s =~= ind + key + colon(width) + val + tail);
    assert(s.take(a) =~= ind);
    assert(s.subrange(a, b) =~= key);
    assert(s[b] == ':');
    assert(s.skip(b + 1) =~= gap + val + tail);
    lemma_text_of(gap, val, tail);
    assert(0 <= a <= b < s.len() && all_ws(s.take(a)) && is_json_string(s.subrange(a, b)) && s[b]
        == ':' && is_json_text(s.skip(b + 1)));
}

proof fn lemma_members_valid(
    members: Seq<(Seq<char>, Json)>,
    depth: nat,
    width: nat,
    tabs: bool,
    tail: Seq<char>,
)
    requires
        members.len() > 0,
        forall|i: int|
            0 <= i < members.len() ==> escapable(#[trigger] members[i].0) && well_formed_value(
                members[i].1,
            ),
        all_ws(tail),
    ensures
        is_members(render_members(members, depth, width, tabs) + tail),
    decreases members,
{
    let n = members.len() - 1;
    let init = members.subrange(0, n);
    let last = render_member(members[n], depth, width, tabs);
    lemma_member_valid(members[n], depth, width, tabs, tail);
    let r = render_members(init, depth, width, tabs);
    assert(render_members(members, depth, width, tabs) == r + separator(n) + last);
    if n == 0 {
        assert(r == Seq::<char>::empty());
        assert(render_members(members, depth, width, tabs) + tail =~= last + tail);
    } else {
        assert forall|j: int| 0 <= j < init.len() implies escapable(#[trigger] init[j].0)
            && well_formed_value(init[j].1) by {
            assert(init[j] == members[j]);
        }
        lemma_members_valid(init, depth, width, tabs, Seq::empty());
        assert(r + Seq::<char>::empty() =~= r);
        lemma_members_step(r, last + tail);
        assert(render_members(members, depth, width, tabs) + tail =~= r + seq![','] + (last
            + tail));
    }
}

} // verus!
