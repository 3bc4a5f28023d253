//! Escaping of text into the body of a JSON string.
use vstd::prelude::*;
use vstd::string::{StrSliceExecFns, StringExecFns};
use crate::model::{escape, escape_char, is_special, lemma_escape_push};

verus! {

/// The replacement text for a character that needs escaping, `None` for one
/// that is written as it is.
fn escape_text(c: char) -> (r: Option<&'static str>)
    ensures
        match r {
            Some(t) => is_special(c) && t@ == escape_char(c),
            None => !is_special(c) && escape_char(c) == seq![c],
        },
{
    proof {
        reveal_strlit("\\\\");
        reveal_strlit("\\\"");
        reveal_strlit("\\n");
        reveal_strlit("\\r");
        reveal_strlit("\\u003c");
        reveal_strlit("\\u003e");
        reveal_strlit("\\u0000");
    }
    if c == '\\' {
        let t = "\\\\";
        assert(t@ =~= escape_char(c));
        Some(t)
    } else if c == '"' {
        let t = "\\\"";
        assert(t@ =~= escape_char(c));
        Some(t)
    } else if c == '\n' {
        let t = "\\n";
        assert(t@ =~= escape_char(c));
        Some(t)
    } else if c == '\r' {
        let t = "\\r";
        assert(t@ =~= escape_char(c));
        Some(t)
    } else if c == '<' {
        let t = "\\u003c";
        assert(t@ =~= escape_char(c));
        Some(t)
    } else if c == '>' {
        let t = "\\u003e";
        assert(t@ =~= escape_char(c));
        Some(t)
    } else if c == '\0' {
        let t = "\\u0000";
        assert(t@ =~= escape_char(c));
        Some(t)
    } else {
        None
    }
}

/// Appends `s` to `out` as the body of a JSON string: runs of characters that
/// need no escaping are copied as a whole, the others are replaced.
pub fn escape_json(s: &str, out: &mut String)
    ensures
        final(out)@ == old(out)@ + escape(s@),
{
    broadcast use vstd::string::group_string_axioms;

    let n = s.unicode_len();
    let mut prev: usize = 0;
    let mut i: usize = 0;
    for c in it: s.chars()
        invariant
            n == s@.len(),
            it.seq() == s@,
            i == it.index(),
            prev <= i <= n,
            out@ + s@.subrange(prev as int, i as int) == old(out)@ + escape(s@.take(i as int)),
    {
        proof {
            assert(s@.take(i as int).push(c) =~= s@.take(i + 1));
            lemma_escape_push(s@.take(i as int), c);
        }
        match escape_text(c) {
            Some(t) => {
                let run = s.substring_char(prev, i);
                out.append(run);
                out.append(t);
                prev = i + 1;
                assert(s@.subrange(prev as int, i + 1) =~= Seq::<char>::empty());
                assert(out@ + s@.subrange(prev as int, i + 1) =~= old(out)@ + escape(s@.take(i + 1)));
            },
            None => {
                assert(s@.subrange(prev as int, i + 1) =~= s@.subrange(prev as int, i as int).push(c));
                assert(out@ + s@.subrange(prev as int, i as int).push(c) =~= (out@ + s@.subrange(prev as int, i as int)).push(c));
                assert(old(out)@ + escape(s@.take(i as int)) + seq![c] =~= (old(out)@ + escape(s@.take(i as int))).push(c));
            },
        }
        i = i + 1;
    }
    let rest = s.substring_char(prev, n);
    out.append(rest);
    assert(s@.take(n as int) =~= s@);
}

} // verus!
