//! Values that write themselves through a builder.
use vstd::prelude::*;
use crate::json_builder::{Error, JSONBuilder, State};
use crate::model::{bool_text, indent_text, int_text, null_text, render, render_items, separator, Json};
use crate::text::{push_char, signed_text, unsigned_text};

verus! {

/// A value that can write itself into a builder.
pub trait IntoJSON {
    /// The JSON value that `into_json` writes. Every impl of this library
    /// states it; an impl written outside verified code, which nothing checks,
    /// may leave it unstated.
    open spec fn json(&self) -> Json {
        arbitrary()
    }

    /// Writes the value from the builder's current state.
    fn into_json(&self, builder: &mut JSONBuilder) -> (r: Result<(), Error>)
        requires
            old(builder)@.wf(),
        ensures
            final(builder)@.wf(),
            old(builder)@.emits(final(builder)@, r, self.json()),
    ;

    /// The compact text of the value as a whole document.
    fn to_json(&self) -> (r: Result<String, Error>)
        ensures
            r matches Ok(s) && s@ == render(self.json(), 0, 0, true),
    {
        let mut builder = JSONBuilder::new();
        self.into_json(&mut builder)?;
        assert(builder@.stack =~= seq![State::End]);
        builder.end()?;
        let s = builder.into_output();
        assert(s@ =~= render(self.json(), 0, 0, true));
        Ok(s)
    }

    /// The text of the value as a whole document, each level indented by
    /// `indent_size` tabs or spaces, and ended by a newline; compact where
    /// `indent_size` is 0.
    fn to_pretty_json(&self, indent_size: usize, tab_indent: bool) -> (r: Result<String, Error>)
        ensures
            r matches Ok(s) && s@ == render(self.json(), 0, indent_size as nat, tab_indent) + if indent_size
                > 0 {
                seq!['\n']
            } else {
                Seq::empty()
            },
    {
        let mut builder = JSONBuilder::new_pretty(indent_size, tab_indent);
        self.into_json(&mut builder)?;
        assert(builder@.stack =~= seq![State::End]);
        builder.end()?;
        let s = builder.into_output();
        assert(s@ =~= render(self.json(), 0, indent_size as nat, tab_indent) + if indent_size > 0 {
            seq!['\n']
        } else {
            Seq::empty()
        });
        Ok(s)
    }
}

impl IntoJSON for bool {
    open spec fn json(&self) -> Json {
        Json::Lit(bool_text(*self))
    }

    fn into_json(&self, builder: &mut JSONBuilder) -> (r: Result<(), Error>) {
        proof {
            reveal_strlit("true");
            reveal_strlit("false");
        }
        let text = if *self {
            "true"
        } else {
            "false"
        };
        assert(text@ =~= bool_text(*self));
        builder.primitive(text)
    }
}

impl IntoJSON for i8 {
    open spec fn json(&self) -> Json {
        Json::Lit(int_text(*self as int))
    }

    fn into_json(&self, builder: &mut JSONBuilder) -> (r: Result<(), Error>) {
        builder.primitive(signed_text(*self as i128).as_str())
    }
}

impl IntoJSON for i16 {
    open spec fn json(&self) -> Json {
        Json::Lit(int_text(*self as int))
    }

    fn into_json(&self, builder: &mut JSONBuilder) -> (r: Result<(), Error>) {
        builder.primitive(signed_text(*self as i128).as_str())
    }
}

impl IntoJSON for i32 {
    open spec fn json(&self) -> Json {
        Json::Lit(int_text(*self as int))
    }

    fn into_json(&self, builder: &mut JSONBuilder) -> (r: Result<(), Error>) {
        builder.primitive(signed_text(*self as i128).as_str())
    }
}

impl IntoJSON for i64 {
    open spec fn json(&self) -> Json {
        Json::Lit(int_text(*self as int))
    }

    fn into_json(&self, builder: &mut JSONBuilder) -> (r: Result<(), Error>) {
        builder.primitive(signed_text(*self as i128).as_str())
    }
}

impl IntoJSON for isize {
    open spec fn json(&self) -> Json {
        Json::Lit(int_text(*self as int))
    }

    fn into_json(&self, builder: &mut JSONBuilder) -> (r: Result<(), Error>) {
        builder.primitive(signed_text(*self as i128).as_str())
    }
}

impl IntoJSON for u8 {
    open spec fn json(&self) -> Json {
        Json::Lit(int_text(*self as int))
    }

    fn into_json(&self, builder: &mut JSONBuilder) -> (r: Result<(), Error>) {
        builder.primitive(unsigned_text(*self as u128).as_str())
    }
}

impl IntoJSON for u16 {
    open spec fn json(&self) -> Json {
        Json::Lit(int_text(*self as int))
    }

    fn into_json(&self, builder: &mut JSONBuilder) -> (r: Result<(), Error>) {
        builder.primitive(unsigned_text(*self as u128).as_str())
    }
}

impl IntoJSON for u32 {
    open spec fn json(&self) -> Json {
        Json::Lit(int_text(*self as int))
    }

    fn into_json(&self, builder: &mut JSONBuilder) -> (r: Result<(), Error>) {
        builder.primitive(unsigned_text(*self as u128).as_str())
    }
}

impl IntoJSON for u64 {
    open spec fn json(&self) -> Json {
        Json::Lit(int_text(*self as int))
    }

    fn into_json(&self, builder: &mut JSONBuilder) -> (r: Result<(), Error>) {
        builder.primitive(unsigned_text(*self as u128).as_str())
    }
}

impl IntoJSON for usize {
    open spec fn json(&self) -> Json {
        Json::Lit(int_text(*self as int))
    }

    fn into_json(&self, builder: &mut JSONBuilder) -> (r: Result<(), Error>) {
        builder.primitive(unsigned_text(*self as u128).as_str())
    }
}

impl IntoJSON for i128 {
    open spec fn json(&self) -> Json {
        Json::Lit(int_text(*self as int))
    }

    fn into_json(&self, builder: &mut JSONBuilder) -> (r: Result<(), Error>) {
        builder.primitive(signed_text(*self).as_str())
    }
}

impl IntoJSON for u128 {
    open spec fn json(&self) -> Json {
        Json::Lit(int_text(*self as int))
    }

    fn into_json(&self, builder: &mut JSONBuilder) -> (r: Result<(), Error>) {
        builder.primitive(unsigned_text(*self).as_str())
    }
}

impl<'a> IntoJSON for &'a str {
    open spec fn json(&self) -> Json {
        Json::Str((*self)@)
    }

    fn into_json(&self, builder: &mut JSONBuilder) -> (r: Result<(), Error>) {
        builder.string(*self)
    }
}

impl IntoJSON for String {
    open spec fn json(&self) -> Json {
        Json::Str(self@)
    }

    fn into_json(&self, builder: &mut JSONBuilder) -> (r: Result<(), Error>) {
        builder.string(self.as_str())
    }
}

impl IntoJSON for char {
    open spec fn json(&self) -> Json {
        Json::Str(seq![*self])
    }

    fn into_json(&self, builder: &mut JSONBuilder) -> (r: Result<(), Error>) {
        let mut text = String::new();
        push_char(&mut text, *self);
        assert(text@ =~= seq![*self]);
        builder.string(text.as_str())
    }
}

impl<'a, T: IntoJSON> IntoJSON for &'a T {
    open spec fn json(&self) -> Json {
        (**self).json()
    }

    fn into_json(&self, builder: &mut JSONBuilder) -> (r: Result<(), Error>) {
        (**self).into_json(builder)
    }
}

impl<T: IntoJSON> IntoJSON for Box<T> {
    open spec fn json(&self) -> Json {
        (**self).json()
    }

    fn into_json(&self, builder: &mut JSONBuilder) -> (r: Result<(), Error>) {
        (**self).into_json(builder)
    }
}

impl<T: IntoJSON> IntoJSON for Option<T> {
    open spec fn json(&self) -> Json {
        match self {
            Some(v) => v.json(),
            None => Json::Lit(null_text()),
        }
    }

    fn into_json(&self, builder: &mut JSONBuilder) -> (r: Result<(), Error>) {
        match self {
            Some(value) => value.into_json(builder),
            None => builder.null(),
        }
    }
}

/// Writes `elems` as an array, each element through its own `into_json`.
fn write_array<T: IntoJSON>(elems: &[T], builder: &mut JSONBuilder) -> (r: Result<(), Error>)
    requires
        old(builder)@.wf(),
    ensures
        final(builder)@.wf(),
        old(builder)@.emits(final(builder)@, r, Json::Arr(elems@.map_values(|x: T| x.json()))),
{
    let ghost b0 = builder@;
    let ghost items = elems@.map_values(|x: T| x.json());
    let ghost inner = b0.depth() + 1;
    builder.begin_array()?;
    let mut i: usize = 0;
    while i < elems.len()
        invariant
            builder@.wf(),
            b0.wf(),
            !b0.value_blocked(),
            0 <= i <= elems@.len(),
            items == elems@.map_values(|x: T| x.json()),
            inner == b0.depth() + 1,
            builder@ == b0.written(
                b0.lead() + seq!['['] + render_items(
                    items.take(i as int),
                    inner,
                    b0.width,
                    b0.tabs,
                ),
            ).with_stack(
                b0.stack.push(
                    if i == 0 {
                        State::ArrayFirstElement
                    } else {
                        State::ArrayElement
                    },
                ),
            ),
        decreases elems@.len() - i,
    {
        let ghost pre = builder@;
        elems[i].into_json(builder)?;
        proof {
            let prefix = b0.lead() + seq!['['];
            let ind = indent_text(inner, b0.width, b0.tabs);
            assert(pre.depth() == inner);
            assert(pre.lead() =~= separator(i as int) + ind);
            assert(items.take(i + 1).subrange(0, i as int) =~= items.take(i as int));
            assert(items.take(i + 1)[i as int] == elems@[i as int].json());
            assert(render_items(items.take(i + 1), inner, b0.width, b0.tabs) == render_items(
                items.take(i as int),
                inner,
                b0.width,
                b0.tabs,
            ) + separator(i as int) + ind + render(elems@[i as int].json(), inner, b0.width, b0.tabs));
            assert(builder@.out =~= b0.out + (prefix + render_items(
                items.take(i + 1),
                inner,
                b0.width,
                b0.tabs,
            )));
            assert(builder@.stack =~= b0.stack.push(State::ArrayElement));
        }
        i = i + 1;
    }
    let r = builder.end_array();
    proof {
        assert(items.take(i as int) =~= items);
        assert(b0.stack.push(State::ArrayElement).drop_last() =~= b0.stack);
        assert(b0.stack.push(State::ArrayFirstElement).drop_last() =~= b0.stack);
        assert(builder@.stack =~= b0.with_value(Json::Arr(elems@.map_values(|x: T| x.json()))).stack);
        assert(builder@.out =~= b0.with_value(Json::Arr(elems@.map_values(|x: T| x.json()))).out);
    }
    r
}

impl<T: IntoJSON> IntoJSON for Vec<T> {
    open spec fn json(&self) -> Json {
        Json::Arr(self@.map_values(|x: T| x.json()))
    }

    fn into_json(&self, builder: &mut JSONBuilder) -> (r: Result<(), Error>) {
        write_array(self.as_slice(), builder)
    }
}

impl<'a, T: IntoJSON> IntoJSON for &'a [T] {
    open spec fn json(&self) -> Json {
        Json::Arr((*self)@.map_values(|x: T| x.json()))
    }

    fn into_json(&self, builder: &mut JSONBuilder) -> (r: Result<(), Error>) {
        write_array(*self, builder)
    }
}

} // verus!
