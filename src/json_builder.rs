//! The builder: a stack of structural states that checks each call, and the
//! text it writes.
use vstd::prelude::*;
use vstd::string::{StrSliceExecFns, StringExecFns};
use crate::escape::escape_json;
use crate::into_json::IntoJSON;
use crate::model::{colon, fill, indent_text, null_text, quoted, render, Json};

verus! {

/// What may happen next at one level of nesting.
#[derive(Copy, Clone, PartialEq, Eq, Debug, Structural)]
pub enum State {
    Begin,
    End,
    ArrayFirstElement,
    ArrayElement,
    ObjectFirstKey,
    ObjectKey,
    ObjectValue,
}

/// An operation was called in a state that does not allow it; the state is
/// the one that was current.
#[derive(Copy, Clone, PartialEq, Eq, Debug, Structural)]
pub enum Error {
    State(State),
}

/// The state that a level moves to once a value has been written in it.
pub open spec fn next_state(s: State) -> State {
    match s {
        State::ArrayFirstElement => State::ArrayElement,
        State::ObjectValue => State::ObjectKey,
        State::Begin => State::End,
        _ => s,
    }
}

/// A state that only an open array or object can be in.
pub open spec fn is_nested(s: State) -> bool {
    !(s is Begin || s is End)
}

/// The builder as a value: its stack of states, what it has written, and its
/// indentation settings.
pub struct BuilderView {
    pub stack: Seq<State>,
    pub out: Seq<char>,
    pub width: nat,
    pub tabs: bool,
    /// Whether `end` has already succeeded.
    pub done: bool,
}

impl BuilderView {
    /// The bottom of the stack is the top-level state; every level above it is
    /// an open array or object.
    pub open spec fn wf(self) -> bool {
        &&& self.stack.len() >= 1
        &&& !is_nested(self.stack[0])
        &&& forall|i: int| 0 < i < self.stack.len() ==> is_nested(#[trigger] self.stack[i])
        &&& self.done ==> self.stack == seq![State::End]
    }

    /// A builder that has written nothing yet.
    pub open spec fn fresh(width: nat, tabs: bool) -> BuilderView {
        BuilderView { stack: seq![State::Begin], out: Seq::empty(), width, tabs, done: false }
    }

    /// Whether `end` may finish the document now: one top-level value was
    /// written and closed, and the document was not finished before.
    pub open spec fn complete(self) -> bool {
        self.stack == seq![State::End] && !self.done
    }

    /// What `end` writes: a newline in pretty mode.
    pub open spec fn trailer(self) -> Seq<char> {
        if self.width > 0 {
            seq!['\n']
        } else {
            Seq::empty()
        }
    }

    pub open spec fn top(self) -> State {
        self.stack.last()
    }

    pub open spec fn depth(self) -> nat {
        (self.stack.len() - 1) as nat
    }

    pub open spec fn indent(self) -> Seq<char> {
        indent_text(self.depth(), self.width, self.tabs)
    }

    /// Where a key, or nothing at all, is expected, so that a value may not start.
    pub open spec fn value_blocked(self) -> bool {
        self.top() is ObjectFirstKey || self.top() is ObjectKey || self.top() is End
    }

    /// What is written before a value that starts here.
    pub open spec fn lead(self) -> Seq<char> {
        match self.top() {
            State::ArrayElement => seq![','] + self.indent(),
            State::ArrayFirstElement => self.indent(),
            _ => Seq::empty(),
        }
    }

    pub open spec fn written(self, t: Seq<char>) -> BuilderView {
        BuilderView { out: self.out + t, ..self }
    }

    pub open spec fn with_stack(self, stack: Seq<State>) -> BuilderView {
        BuilderView { stack, ..self }
    }

    /// The stack once the value that the top level waited for is written.
    pub open spec fn after_value(stack: Seq<State>) -> Seq<State> {
        stack.update(stack.len() - 1, next_state(stack.last()))
    }

    /// The builder after a whole value `v` was written from here.
    pub open spec fn with_value(self, v: Json) -> BuilderView {
        self.written(self.lead() + render(v, self.depth(), self.width, self.tabs)).with_stack(
            Self::after_value(self.stack),
        )
    }

    /// The builder once the innermost open array or object is closed with `c`:
    /// on a line of its own where it holds anything.
    pub open spec fn closed(self, c: char) -> BuilderView {
        let popped = self.with_stack(self.stack.drop_last());
        let t = if self.top() is ArrayFirstElement || self.top() is ObjectFirstKey {
            seq![c]
        } else {
            popped.indent() + seq![c]
        };
        popped.written(t).with_stack(Self::after_value(popped.stack))
    }

    /// The builder once the key `k` is written in the object open here.
    pub open spec fn with_key(self, k: Seq<char>) -> BuilderView {
        let sep = if self.top() is ObjectKey {
            seq![',']
        } else {
            Seq::empty()
        };
        self.written(sep + self.indent() + quoted(k) + colon(self.width)).with_stack(
            self.stack.update(self.stack.len() - 1, State::ObjectValue),
        )
    }

    /// The builder once an array (`c` is `[`) or an object (`c` is `{`) is
    /// opened here.
    pub open spec fn opened(self, c: char, first: State) -> BuilderView {
        self.written(self.lead() + seq![c]).with_stack(self.stack.push(first))
    }

    /// `post` and `r` are what writing the value `v` from here gives: the value
    /// and its separator, or the current state as an error where no value may
    /// start, the builder unchanged.
    pub open spec fn emits(self, post: BuilderView, r: Result<(), Error>, v: Json) -> bool {
        if self.value_blocked() {
            r == Err::<(), Error>(Error::State(self.top())) && post == self
        } else {
            r == Ok::<(), Error>(()) && post == self.with_value(v)
        }
    }
}

/// Writes one JSON document into a text buffer, one checked operation at a time.
pub struct JSONBuilder {
    stack: Vec<State>,
    out: String,
    indent_size: usize,
    tab_indent: bool,
    finished: bool,
}

/// Indentation is written in blocks of this many characters.
const BLOCK: usize = 64;

/// A block of indentation characters.
fn indent_block(tabs: bool) -> (r: &'static str)
    ensures
        r@ == fill(BLOCK as nat, tabs),
{
    if tabs {
        let t = "\t\t\t\t\t\t\t\t\t\t\t\t\t\t\t\t\t\t\t\t\t\t\t\t\t\t\t\t\t\t\t\t\t\t\t\t\t\t\t\t\t\t\t\t\t\t\t\t\t\t\t\t\t\t\t\t\t\t\t\t\t\t\t\t";
        proof {
            reveal_strlit("\t\t\t\t\t\t\t\t\t\t\t\t\t\t\t\t\t\t\t\t\t\t\t\t\t\t\t\t\t\t\t\t\t\t\t\t\t\t\t\t\t\t\t\t\t\t\t\t\t\t\t\t\t\t\t\t\t\t\t\t\t\t\t\t");
        }
        assert(t@ =~= fill(BLOCK as nat, tabs));
        t
    } else {
        let t = "                                                                ";
        proof {
            reveal_strlit("                                                                ");
        }
        assert(t@ =~= fill(BLOCK as nat, tabs));
        t
    }
}

/// Appends `n` indentation characters, whole blocks first, then the rest.
fn write_fill(out: &mut String, tabs: bool, n: usize)
    ensures
        final(out)@ == old(out)@ + fill(n as nat, tabs),
{
    let block = indent_block(tabs);
    let mut left: usize = n;
    while left >= BLOCK
        invariant
            left <= n,
            block@ == fill(BLOCK as nat, tabs),
            out@ == old(out)@ + fill((n - left) as nat, tabs),
        decreases left,
    {
        out.append(block);
        assert(fill((n - left) as nat, tabs) + fill(BLOCK as nat, tabs) =~= fill(
            (n - (left - BLOCK)) as nat,
            tabs,
        ));
        left = left - BLOCK;
    }
    let rest = block.substring_char(0, left);
    out.append(rest);
    assert(fill((n - left) as nat, tabs) + rest@ =~= fill(n as nat, tabs));
}

impl View for JSONBuilder {
    type V = BuilderView;

    closed spec fn view(&self) -> BuilderView {
        BuilderView {
            stack: self.stack@,
            out: self.out@,
            width: self.indent_size as nat,
            tabs: self.tab_indent,
            done: self.finished,
        }
    }
}

impl JSONBuilder {
    /// A builder for compact output.
    pub fn new() -> (r: JSONBuilder)
        ensures
            r@.wf(),
            r@ == BuilderView::fresh(0, true),
    {
        let r = JSONBuilder {
            stack: vec![State::Begin],
            out: String::new(),
            indent_size: 0,
            tab_indent: true,
            finished: false,
        };
        assert(r@.stack =~= seq![State::Begin]);
        r
    }

    /// A builder that indents each level by `indent_size` tabs or spaces;
    /// with `indent_size` 0 the output is compact.
    pub fn new_pretty(indent_size: usize, tab_indent: bool) -> (r: JSONBuilder)
        ensures
            r@.wf(),
            r@ == BuilderView::fresh(indent_size as nat, tab_indent),
    {
        let r = JSONBuilder {
            stack: vec![State::Begin],
            out: String::new(),
            indent_size,
            tab_indent,
            finished: false,
        };
        assert(r@.stack =~= seq![State::Begin]);
        r
    }

    /// What has been written so far.
    pub fn output(&self) -> (r: &str)
        ensures
            r@ == self@.out,
    {
        self.out.as_str()
    }

    /// The written text, the builder given up.
    pub fn into_output(self) -> (r: String)
        ensures
            r@ == self@.out,
    {
        self.out
    }

    fn top(&self) -> (r: State)
        requires
            self@.wf(),
        ensures
            r == self@.top(),
    {
        self.stack[self.stack.len() - 1]
    }

    /// Starts a line at the current depth, in pretty mode only.
    fn indent(&mut self)
        requires
            old(self)@.wf(),
        ensures
            final(self)@ == old(self)@.written(old(self)@.indent()),
    {
        if self.indent_size > 0 {
            proof {
                reveal_strlit("\n");
            }
            self.out.append("\n");
            let levels = self.stack.len() - 1;
            let mut k: usize = 0;
            while k < levels
                invariant
                    self.stack@ == old(self)@.stack,
                    self.indent_size == old(self)@.width,
                    self.tab_indent == old(self)@.tabs,
                    self.finished == old(self)@.done,
                    levels == old(self)@.depth(),
                    k <= levels,
                    self.out@ == old(self)@.out + seq!['\n'] + fill(
                        (k * self.indent_size) as nat,
                        self.tab_indent,
                    ),
                decreases levels - k,
            {
                write_fill(&mut self.out, self.tab_indent, self.indent_size);
                proof {
                    let w = self.indent_size as int;
                    assert((k + 1) * w == k * w + w) by (nonlinear_arith);
                    assert(k * w >= 0) by (nonlinear_arith)
                        requires
                            k >= 0,
                            w >= 0,
                    ;
                    assert(fill((k * w) as nat, self.tab_indent) + fill(w as nat, self.tab_indent)
                        =~= fill(((k + 1) * w) as nat, self.tab_indent));
                }
                k = k + 1;
            }
            assert(self@.out =~= old(self)@.out + old(self)@.indent());
        } else {
            assert(self@.out =~= old(self)@.out + old(self)@.indent());
        }
    }

    /// Checks that a value may start here, and writes what precedes it.
    fn before_value(&mut self) -> (r: Result<(), Error>)
        requires
            old(self)@.wf(),
        ensures
            old(self)@.value_blocked() ==> r == Err::<(), Error>(Error::State(old(self)@.top()))
                && final(self)@ == old(self)@,
            !old(self)@.value_blocked() ==> r == Ok::<(), Error>(()) && final(self)@ == old(
                self,
            )@.written(old(self)@.lead()),
    {
        let current = self.top();
        match current {
            State::ObjectFirstKey | State::ObjectKey | State::End => {
                return Err(Error::State(current));
            },
            State::ArrayElement => {
                proof {
                    reveal_strlit(",");
                }
                self.out.append(",");
                self.indent();
                assert(self@.out =~= old(self)@.out + old(self)@.lead());
            },
            State::ArrayFirstElement => {
                self.indent();
            },
            _ => {
                assert(self@.out =~= old(self)@.out + old(self)@.lead());
            },
        }
        Ok(())
    }

    /// Moves the top level past the value just written.
    fn after_value(&mut self)
        requires
            old(self)@.wf(),
        ensures
            final(self)@ == old(self)@.with_stack(BuilderView::after_value(old(self)@.stack)),
            final(self)@.wf(),
    {
        let i = self.stack.len() - 1;
        match self.stack[i] {
            State::ArrayFirstElement => {
                self.stack.set(i, State::ArrayElement);
            },
            State::ObjectValue => {
                self.stack.set(i, State::ObjectKey);
            },
            State::Begin => {
                self.stack.set(i, State::End);
            },
            _ => {},
        }
        assert(self.stack@ =~= BuilderView::after_value(old(self)@.stack));
    }

    /// Writes `value`, whatever its structure.
    pub fn value<Value: IntoJSON>(&mut self, value: Value) -> (r: Result<(), Error>)
        requires
            old(self)@.wf(),
        ensures
            final(self)@.wf(),
            old(self)@.emits(final(self)@, r, value.json()),
    {
        value.into_json(self)
    }

    /// Writes one member of the open object: the key, then the value.
    pub fn item<Value: IntoJSON>(&mut self, key: &str, value: Value) -> (r: Result<(), Error>)
        requires
            old(self)@.wf(),
        ensures
            final(self)@.wf(),
            old(self)@.top() is ObjectFirstKey || old(self)@.top() is ObjectKey ==> r == Ok::<
                (),
                Error,
            >(()) && final(self)@ == old(self)@.with_key(key@).with_value(value.json()),
            !(old(self)@.top() is ObjectFirstKey || old(self)@.top() is ObjectKey) ==> r == Err::<
                (),
                Error,
            >(Error::State(old(self)@.top())) && final(self)@ == old(self)@,
    {
        self.key(key)?;
        self.value(value)
    }

    /// Writes `text` as it is, as one value: a number or a literal.
    pub fn primitive(&mut self, text: &str) -> (r: Result<(), Error>)
        requires
            old(self)@.wf(),
        ensures
            final(self)@.wf(),
            old(self)@.emits(final(self)@, r, Json::Lit(text@)),
    {
        self.before_value()?;
        self.out.append(text);
        self.after_value();
        assert(self@.out =~= old(self)@.with_value(Json::Lit(text@)).out);
        Ok(())
    }

    /// Writes `null`.
    pub fn null(&mut self) -> (r: Result<(), Error>)
        requires
            old(self)@.wf(),
        ensures
            final(self)@.wf(),
            old(self)@.emits(final(self)@, r, Json::Lit(null_text())),
    {
        proof {
            reveal_strlit("null");
        }
        let text = "null";
        assert(text@ =~= null_text());
        self.primitive(text)
    }

    /// Writes the escaped `text` between quotes.
    fn quote(&mut self, text: &str)
        ensures
            final(self)@ == old(self)@.written(quoted(text@)),
    {
        proof {
            reveal_strlit("\"");
        }
        self.out.append("\"");
        escape_json(text, &mut self.out);
        self.out.append("\"");
        assert(self@.out =~= old(self)@.out + quoted(text@));
    }

    /// Writes `text` as a string value.
    pub fn string(&mut self, text: &str) -> (r: Result<(), Error>)
        requires
            old(self)@.wf(),
        ensures
            final(self)@.wf(),
            old(self)@.emits(final(self)@, r, Json::Str(text@)),
    {
        self.before_value()?;
        self.quote(text);
        self.after_value();
        assert(self@.out =~= old(self)@.with_value(Json::Str(text@)).out);
        Ok(())
    }

    /// Writes the key of the next member of the open object.
    pub fn key(&mut self, key: &str) -> (r: Result<(), Error>)
        requires
            old(self)@.wf(),
        ensures
            final(self)@.wf(),
            old(self)@.top() is ObjectFirstKey || old(self)@.top() is ObjectKey ==> r == Ok::<
                (),
                Error,
            >(()) && final(self)@ == old(self)@.with_key(key@),
            !(old(self)@.top() is ObjectFirstKey || old(self)@.top() is ObjectKey) ==> r == Err::<
                (),
                Error,
            >(Error::State(old(self)@.top())) && final(self)@ == old(self)@,
    {
        let i = self.stack.len() - 1;
        match self.stack[i] {
            State::ObjectFirstKey => {
                self.stack.set(i, State::ObjectValue);
            },
            State::ObjectKey => {
                proof {
                    reveal_strlit(",");
                }
                self.out.append(",");
                self.stack.set(i, State::ObjectValue);
            },
            _ => {
                return Err(Error::State(self.stack[i]));
            },
        }
        self.indent();
        self.quote(key);
        if self.indent_size > 0 {
            proof {
                reveal_strlit(": ");
            }
            self.out.append(": ");
        } else {
            proof {
                reveal_strlit(":");
            }
            self.out.append(":");
        }
        assert(self@.out =~= old(self)@.with_key(key@).out);
        assert(self@.stack =~= old(self)@.with_key(key@).stack);
        Ok(())
    }

    /// Opens an array.
    pub fn begin_array(&mut self) -> (r: Result<(), Error>)
        requires
            old(self)@.wf(),
        ensures
            final(self)@.wf(),
            old(self)@.value_blocked() ==> r == Err::<(), Error>(Error::State(old(self)@.top()))
                && final(self)@ == old(self)@,
            !old(self)@.value_blocked() ==> r == Ok::<(), Error>(()) && final(self)@ == old(
                self,
            )@.opened('[', State::ArrayFirstElement),
    {
        self.before_value()?;
        self.stack.push(State::ArrayFirstElement);
        proof {
            reveal_strlit("[");
        }
        self.out.append("[");
        assert(self@.out =~= old(self)@.opened('[', State::ArrayFirstElement).out);
        Ok(())
    }

    /// Opens an object.
    pub fn begin_object(&mut self) -> (r: Result<(), Error>)
        requires
            old(self)@.wf(),
        ensures
            final(self)@.wf(),
            old(self)@.value_blocked() ==> r == Err::<(), Error>(Error::State(old(self)@.top()))
                && final(self)@ == old(self)@,
            !old(self)@.value_blocked() ==> r == Ok::<(), Error>(()) && final(self)@ == old(
                self,
            )@.opened('{', State::ObjectFirstKey),
    {
        self.before_value()?;
        self.stack.push(State::ObjectFirstKey);
        proof {
            reveal_strlit("{");
        }
        self.out.append("{");
        assert(self@.out =~= old(self)@.opened('{', State::ObjectFirstKey).out);
        Ok(())
    }

    /// Closes the innermost array.
    pub fn end_array(&mut self) -> (r: Result<(), Error>)
        requires
            old(self)@.wf(),
        ensures
            final(self)@.wf(),
            old(self)@.top() is ArrayFirstElement || old(self)@.top() is ArrayElement ==> r == Ok::<
                (),
                Error,
            >(()) && final(self)@ == old(self)@.closed(']'),
            !(old(self)@.top() is ArrayFirstElement || old(self)@.top() is ArrayElement) ==> r
                == Err::<(), Error>(Error::State(old(self)@.top())) && final(self)@ == old(self)@,
    {
        let i = self.stack.len() - 1;
        proof {
            reveal_strlit("]");
        }
        match self.stack[i] {
            State::ArrayElement => {
                self.stack.pop();
                self.indent();
                self.out.append("]");
                self.after_value();
            },
            State::ArrayFirstElement => {
                self.stack.pop();
                self.out.append("]");
                self.after_value();
            },
            _ => {
                return Err(Error::State(self.stack[i]));
            },
        }
        assert(self@.out =~= old(self)@.closed(']').out);
        assert(self@.stack =~= old(self)@.closed(']').stack);
        Ok(())
    }

    /// Closes the innermost object.
    pub fn end_object(&mut self) -> (r: Result<(), Error>)
        requires
            old(self)@.wf(),
        ensures
            final(self)@.wf(),
            old(self)@.top() is ObjectFirstKey || old(self)@.top() is ObjectKey ==> r == Ok::<
                (),
                Error,
            >(()) && final(self)@ == old(self)@.closed('}'),
            !(old(self)@.top() is ObjectFirstKey || old(self)@.top() is ObjectKey) ==> r == Err::<
                (),
                Error,
            >(Error::State(old(self)@.top())) && final(self)@ == old(self)@,
    {
        let i = self.stack.len() - 1;
        proof {
            reveal_strlit("}");
        }
        match self.stack[i] {
            State::ObjectKey => {
                self.stack.pop();
                self.indent();
                self.out.append("}");
                self.after_value();
            },
            State::ObjectFirstKey => {
                self.stack.pop();
                self.out.append("}");
                self.after_value();
            },
            _ => {
                return Err(Error::State(self.stack[i]));
            },
        }
        assert(self@.out =~= old(self)@.closed('}').out);
        assert(self@.stack =~= old(self)@.closed('}').stack);
        Ok(())
    }

    /// Finishes the document: succeeds only once exactly one top-level value
    /// has been written and closed, and only once; ends pretty output with a
    /// newline.
    pub fn end(&mut self) -> (r: Result<(), Error>)
        requires
            old(self)@.wf(),
        ensures
            final(self)@.wf(),
            old(self)@.complete() ==> r == Ok::<(), Error>(()) && final(self)@ == (BuilderView {
                done: true,
                ..old(self)@.written(old(self)@.trailer())
            }),
            !old(self)@.complete() ==> r == Err::<(), Error>(Error::State(old(self)@.top()))
                && final(self)@ == old(self)@,
    {
        let n = self.stack.len();
        let current = self.stack[n - 1];
        if n != 1 || current != State::End || self.finished {
            assert(!self@.complete());
            return Err(Error::State(current));
        }
        assert(self@.stack =~= seq![State::End]);
        if self.indent_size > 0 {
            proof {
                reveal_strlit("\n");
            }
            self.out.append("\n");
            assert(self@.out =~= old(self)@.out + seq!['\n']);
        } else {
            assert(self@.out =~= self@.out + Seq::<char>::empty());
        }
        self.finished = true;
        Ok(())
    }
}

} // verus!
