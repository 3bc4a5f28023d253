//! What holds across the builder's operations.
use vstd::prelude::*;
use crate::json_builder::{BuilderView, State};
use crate::grammar::{code_of, is_json_text, lemma_render_valid, lemma_text_of, well_formed_value};
use crate::model::{escape, escape_char, fill, indent_text, render, Json};

verus! {

/// The value of a hexadecimal digit, or -1 for another character.
pub open spec fn hex_value(c: char) -> int {
    let n = c as u32 as int;
    if '0' as u32 <= c as u32 <= '9' as u32 {
        n - '0' as u32 as int
    } else if 'a' as u32 <= c as u32 <= 'f' as u32 {
        n - 'a' as u32 as int + 10
    } else if 'A' as u32 <= c as u32 <= 'F' as u32 {
        n - 'A' as u32 as int + 10
    } else {
        -1
    }
}

/// The number that four hexadecimal digits spell, or -1.
pub open spec fn hex4(s: Seq<char>) -> int {
    if hex_value(s[0]) < 0 || hex_value(s[1]) < 0 || hex_value(s[2]) < 0 || hex_value(s[3]) < 0 {
        -1
    } else {
        ((hex_value(s[0]) * 16 + hex_value(s[1])) * 16 + hex_value(s[2])) * 16 + hex_value(s[3])
    }
}

/// The character whose code is `code`.
pub open spec fn char_of(code: int) -> char {
    choose|c: char| #[trigger] code_of(c) == code
}

/// What a JSON reader makes of the body of a string: each escape sequence
/// stands for one character.
pub open spec fn unescape(s: Seq<char>) -> Seq<char>
    decreases s.len(),
{
    if s.len() == 0 {
        Seq::empty()
    } else if s[0] == '\\' && s.len() >= 2 {
        let e = s[1];
        if e == '"' || e == '\\' || e == '/' {
            seq![e] + unescape(s.skip(2))
        } else if e == 'n' {
            seq!['\n'] + unescape(s.skip(2))
        } else if e == 'r' {
            seq!['\r'] + unescape(s.skip(2))
        } else if e == 't' {
            seq!['\t'] + unescape(s.skip(2))
        } else if e == 'b' {
            seq!['\x08'] + unescape(s.skip(2))
        } else if e == 'f' {
            seq!['\x0c'] + unescape(s.skip(2))
        } else if e == 'u' && s.len() >= 6 && hex4(s.subrange(2, 6)) >= 0 {
            seq![char_of(hex4(s.subrange(2, 6)))] + unescape(s.skip(6))
        } else {
            seq![s[0]] + unescape(s.skip(1))
        }
    } else {
        seq![s[0]] + unescape(s.skip(1))
    }
}

proof fn lemma_unescape_one(c: char, rest: Seq<char>)
    ensures
        unescape(escape_char(c) + rest) == seq![c] + unescape(rest),
{
    let s = escape_char(c) + rest;
    let k = escape_char(c).len() as int;
    assert(s.skip(k) =~= rest);
    if c == '<' {
        assert(s.subrange(2, 6) =~= seq!['0', '0', '3', 'c']);
        assert(code_of('<') == 60);
        assert(code_of(char_of(60)) == 60);
    } else if c == '>' {
        assert(s.subrange(2, 6) =~= seq!['0', '0', '3', 'e']);
        assert(code_of('>') == 62);
        assert(code_of(char_of(62)) == 62);
    } else if c == '\0' {
        assert(s.subrange(2, 6) =~= seq!['0', '0', '0', '0']);
        assert(code_of('\0') == 0);
        assert(code_of(char_of(0)) == 0);
    }
}

/// Reading back what the escaper wrote gives the original text, `<` and `>`
/// included.
pub proof fn lemma_escape_round_trip(s: Seq<char>)
    ensures
        unescape(escape(s)) == s,
    decreases s.len(),
{
    if s.len() == 0 {
        assert(escape(s) =~= Seq::<char>::empty());
    } else {
        lemma_escape_round_trip(s.skip(1));
        lemma_unescape_one(s[0], escape(s.skip(1)));
        assert(seq![s[0]] + s.skip(1) =~= s);
    }
}

/// A value written into a fresh builder leaves exactly its text, and the
/// document can then be finished.
pub proof fn lemma_document(v: Json, width: nat, tabs: bool)
    ensures
        BuilderView::fresh(width, tabs).wf(),
        !BuilderView::fresh(width, tabs).value_blocked(),
        BuilderView::fresh(width, tabs).with_value(v).complete(),
        BuilderView::fresh(width, tabs).with_value(v).out == render(v, 0, width, tabs),
{
    let b = BuilderView::fresh(width, tabs);
    assert(BuilderView::after_value(b.stack) =~= seq![State::End]);
    assert(b.with_value(v).out =~= render(v, 0, width, tabs));
}

/// A well-formed value written into a fresh builder and finished by `end`
/// leaves a JSON text, in compact and in pretty mode.
pub proof fn lemma_document_is_json(v: Json, width: nat, tabs: bool)
    requires
        well_formed_value(v),
    ensures
        ({
            let b = BuilderView::fresh(width, tabs).with_value(v);
            b.complete() && is_json_text(b.out + b.trailer())
        }),
{
    lemma_document(v, width, tabs);
    lemma_render_valid(v, 0, width, tabs);
    let b = BuilderView::fresh(width, tabs).with_value(v);
    lemma_text_of(Seq::empty(), b.out, b.trailer());
    assert(Seq::<char>::empty() + b.out + b.trailer() =~= b.out + b.trailer());
}

/// Opening an array or an object and closing it at once writes `[]` or `{}`.
pub proof fn lemma_empty_containers(b: BuilderView)
    requires
        b.wf(),
        !b.value_blocked(),
    ensures
        b.opened('[', State::ArrayFirstElement).closed(']') == b.with_value(Json::Arr(Seq::empty())),
        b.opened('{', State::ObjectFirstKey).closed('}') == b.with_value(Json::Obj(Seq::empty())),
        render(Json::Arr(Seq::empty()), b.depth(), b.width, b.tabs) == seq!['[', ']'],
        render(Json::Obj(Seq::empty()), b.depth(), b.width, b.tabs) == seq!['{', '}'],
{
    let a = b.opened('[', State::ArrayFirstElement);
    let o = b.opened('{', State::ObjectFirstKey);
    assert(a.stack.drop_last() =~= b.stack);
    assert(o.stack.drop_last() =~= b.stack);
    assert(a.closed(']').out =~= b.with_value(Json::Arr(Seq::empty())).out);
    assert(o.closed('}').out =~= b.with_value(Json::Obj(Seq::empty())).out);
}

/// `end` cannot succeed while an array or object is open, and once it has
/// succeeded it fails on every later call, citing `End`.
pub proof fn lemma_end_once(b: BuilderView)
    requires
        b.wf(),
    ensures
        b.stack.len() > 1 ==> !b.complete(),
        b.complete() ==> !(BuilderView { done: true, ..b.written(b.trailer()) }).complete()
            && (BuilderView { done: true, ..b.written(b.trailer()) }).top() == State::End,
{
}

/// In pretty mode a line at `depth` starts with exactly `depth * width`
/// indentation characters, however deep; in compact mode nothing is written.
pub proof fn lemma_indent_exact(depth: nat, width: nat, tabs: bool)
    ensures
        width == 0 ==> indent_text(depth, width, tabs) == Seq::<char>::empty(),
        width > 0 ==> indent_text(depth, width, tabs).len() == depth * width + 1,
        width > 0 ==> indent_text(depth, width, tabs)[0] == '\n',
        width > 0 ==> forall|i: int|
            1 <= i <= depth * width ==> #[trigger] indent_text(depth, width, tabs)[i] == if tabs {
                '\t'
            } else {
                ' '
            },
{
    assert(depth * width >= 0) by (nonlinear_arith);
    if width > 0 {
        let t = indent_text(depth, width, tabs);
        assert forall|i: int| 1 <= i <= depth * width implies #[trigger] t[i] == if tabs {
            '\t'
        } else {
            ' '
        } by {
            assert(t[i] == fill(depth * width, tabs)[i - 1]);
        }
    }
}

} // verus!
