//! The text that the library writes, as spec functions: escaping, indentation,
//! and the rendering of a `Json` value.
use vstd::prelude::*;

verus! {

/// Whether the escaper substitutes a sequence for `c`.
pub open spec fn is_special(c: char) -> bool {
    c == '\\' || c == '"' || c == '\n' || c == '\r' || c == '<' || c == '>' || c == '\0'
}

/// What the escaper writes for one character.
pub open spec fn escape_char(c: char) -> Seq<char> {
    if c == '\\' {
        seq!['\\', '\\']
    } else if c == '"' {
        seq!['\\', '"']
    } else if c == '\n' {
        seq!['\\', 'n']
    } else if c == '\r' {
        seq!['\\', 'r']
    } else if c == '<' {
        seq!['\\', 'u', '0', '0', '3', 'c']
    } else if c == '>' {
        seq!['\\', 'u', '0', '0', '3', 'e']
    } else if c == '\0' {
        seq!['\\', 'u', '0', '0', '0', '0']
    } else {
        seq![c]
    }
}

/// The body of a JSON string literal holding the text `s`.
pub open spec fn escape(s: Seq<char>) -> Seq<char>
    decreases s.len(),
{
    if s.len() == 0 {
        Seq::empty()
    } else {
        escape_char(s[0]) + escape(s.skip(1))
    }
}

pub proof fn lemma_escape_append(a: Seq<char>, b: Seq<char>)
    ensures
        escape(a + b) == escape(a) + escape(b),
    decreases a.len(),
{
    if a.len() == 0 {
        assert(a + b =~= b);
        assert(escape(a) + escape(b) =~= escape(b));
    } else {
        assert((a + b).skip(1) =~= a.skip(1) + b);
        lemma_escape_append(a.skip(1), b);
        assert((a + b)[0] == a[0]);
        assert(escape(a + b) =~= escape(a) + escape(b));
    }
}

pub proof fn lemma_escape_push(a: Seq<char>, c: char)
    ensures
        escape(a.push(c)) == escape(a) + escape_char(c),
{
    lemma_escape_append(a, seq![c]);
    assert(a + seq![c] =~= a.push(c));
    assert(seq![c].skip(1) =~= Seq::<char>::empty());
    assert(escape(seq![c].skip(1)) == Seq::<char>::empty());
    assert(escape(seq![c]) =~= escape_char(c));
}

/// A JSON value as the builder writes it.
pub enum Json {
    /// A token written as it is: a number, `true`, `false` or `null`.
    Lit(Seq<char>),
    /// A string, given by the text it holds.
    Str(Seq<char>),
    Arr(Seq<Json>),
    Obj(Seq<(Seq<char>, Json)>),
}

pub open spec fn digit_char(d: nat) -> char {
    seq!['0', '1', '2', '3', '4', '5', '6', '7', '8', '9'][d as int]
}

/// The decimal digits of `n`, without leading zeros.
pub open spec fn decimal(n: nat) -> Seq<char>
    decreases n,
{
    if n < 10 {
        seq![digit_char(n)]
    } else {
        decimal(n / 10).push(digit_char(n % 10))
    }
}

/// The decimal text of an integer, with a minus sign where it is negative.
pub open spec fn int_text(i: int) -> Seq<char> {
    if i < 0 {
        seq!['-'] + decimal((-i) as nat)
    } else {
        decimal(i as nat)
    }
}

pub open spec fn bool_text(b: bool) -> Seq<char> {
    if b {
        seq!['t', 'r', 'u', 'e']
    } else {
        seq!['f', 'a', 'l', 's', 'e']
    }
}

pub open spec fn null_text() -> Seq<char> {
    seq!['n', 'u', 'l', 'l']
}

/// `n` indentation characters.
pub open spec fn fill(n: nat, tabs: bool) -> Seq<char> {
    Seq::new(n, |i: int| if tabs { '\t' } else { ' ' })
}

/// The line break and indentation that start a line at `depth`; nothing in
/// compact mode.
pub open spec fn indent_text(depth: nat, width: nat, tabs: bool) -> Seq<char> {
    if width == 0 {
        Seq::empty()
    } else {
        seq!['\n'] + fill(depth * width, tabs)
    }
}

pub open spec fn quoted(s: Seq<char>) -> Seq<char> {
    seq!['"'] + escape(s) + seq!['"']
}

/// What follows a key: a colon, and a space in pretty mode.
pub open spec fn colon(width: nat) -> Seq<char> {
    if width == 0 {
        seq![':']
    } else {
        seq![':', ' ']
    }
}

/// The comma that precedes every element or member but the first.
pub open spec fn separator(i: int) -> Seq<char> {
    if i == 0 {
        Seq::empty()
    } else {
        seq![',']
    }
}

/// The text of `v` when it starts at nesting `depth`.
pub open spec fn render(v: Json, depth: nat, width: nat, tabs: bool) -> Seq<char>
    decreases v,
{
    match v {
        Json::Lit(t) => t,
        Json::Str(t) => quoted(t),
        Json::Arr(items) => if items.len() == 0 {
            seq!['[', ']']
        } else {
            seq!['['] + render_items(items, depth + 1, width, tabs) + indent_text(depth, width, tabs)
                + seq![']']
        },
        Json::Obj(members) => if members.len() == 0 {
            seq!['{', '}']
        } else {
            seq!['{'] + render_members(members, depth + 1, width, tabs) + indent_text(
                depth,
                width,
                tabs,
            ) + seq!['}']
        },
    }
}

/// The elements of an array, each on its own line at `depth`.
pub open spec fn render_items(items: Seq<Json>, depth: nat, width: nat, tabs: bool) -> Seq<char>
    decreases items,
{
    if items.len() == 0 {
        Seq::empty()
    } else {
        let n = items.len() - 1;
        render_items(items.subrange(0, n), depth, width, tabs) + separator(n) + indent_text(
            depth,
            width,
            tabs,
        ) + render(items[n], depth, width, tabs)
    }
}

/// The text of one member of an object, from its key to the end of its value.
pub open spec fn render_member(m: (Seq<char>, Json), depth: nat, width: nat, tabs: bool) -> Seq<
    char,
>
    decreases m,
{
    indent_text(depth, width, tabs) + quoted(m.0) + colon(width) + render(m.1, depth, width, tabs)
}

/// The members of an object, each on its own line at `depth`.
pub open spec fn render_members(
    members: Seq<(Seq<char>, Json)>,
    depth: nat,
    width: nat,
    tabs: bool,
) -> Seq<char>
    decreases members,
{
    if members.len() == 0 {
        Seq::empty()
    } else {
        let n = members.len() - 1;
        render_members(members.subrange(0, n), depth, width, tabs) + separator(n) + render_member(
            members[n],
            depth,
            width,
            tabs,
        )
    }
}

} // verus!
