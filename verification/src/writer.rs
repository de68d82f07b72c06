//! The text sink that declarations are written into. It keeps the column of
//! the line being written, so that a list can be aligned under its first item.

use vstd::prelude::*;
use vstd::string::*;

verus! {

/// The state of a sink: the text written so far, the length of the line being
/// written, and the stack of indentations, innermost last.
pub ghost struct Sink {
    pub text: Seq<char>,
    pub column: nat,
    pub spaces: Seq<nat>,
}

/// One operation on a sink.
pub ghost enum Op {
    /// Append a piece of text.
    Write(Seq<char>),
    /// End the line.
    NewLine,
    /// Indent the lines that follow to the current column.
    Align,
    /// Drop the innermost indentation.
    Unalign,
}

/// `n` blanks.
pub open spec fn blanks(n: nat) -> Seq<char> {
    Seq::new(n, |i: int| ' ')
}

impl Sink {
    /// The sink that nothing was written into.
    pub open spec fn empty() -> Sink {
        Sink { text: Seq::empty(), column: 0, spaces: Seq::empty() }
    }

    /// The indentation of a line that is begun now.
    pub open spec fn indent(self) -> nat {
        if self.spaces.len() > 0 {
            self.spaces.last()
        } else {
            0
        }
    }

    /// The column at which the next piece of text begins.
    pub open spec fn align_column(self) -> nat {
        if self.column > 0 {
            self.column
        } else {
            self.indent()
        }
    }

    /// Text is appended as it is; the first text of a line is preceded by the
    /// line's indentation. Empty text changes nothing.
    pub open spec fn write(self, s: Seq<char>) -> Sink {
        if s.len() == 0 {
            self
        } else if self.column == 0 {
            Sink {
                text: self.text + blanks(self.indent()) + s,
                column: self.indent() + s.len(),
                ..self
            }
        } else {
            Sink { text: self.text + s, column: self.column + s.len(), ..self }
        }
    }

    /// The line is ended; the next begins at column 0.
    pub open spec fn new_line(self) -> Sink {
        Sink { text: self.text + "\n"@, column: 0, ..self }
    }

    /// The lines that are begun from now on are indented by `n` blanks.
    pub open spec fn push_set_spaces(self, n: nat) -> Sink {
        Sink { spaces: self.spaces.push(n), ..self }
    }

    /// The innermost indentation is dropped, if there is one.
    pub open spec fn pop_tab(self) -> Sink {
        if self.spaces.len() > 0 {
            Sink { spaces: self.spaces.drop_last(), ..self }
        } else {
            self
        }
    }

    /// The sink after one operation.
    pub open spec fn apply(self, op: Op) -> Sink {
        match op {
            Op::Write(s) => self.write(s),
            Op::NewLine => self.new_line(),
            Op::Align => self.push_set_spaces(self.align_column()),
            Op::Unalign => self.pop_tab(),
        }
    }

    /// The sink after a sequence of operations, first to last.
    #[verifier::opaque]
    pub open spec fn run(self, ops: Seq<Op>) -> Sink
        decreases ops.len(),
    {
        if ops.len() == 0 {
            self
        } else {
            self.run(ops.drop_last()).apply(ops.last())
        }
    }
}

/// No operation leaves the sink as it is.
pub proof fn lemma_run_empty(s: Sink)
    ensures
        s.run(Seq::empty()) == s,
{
    reveal(Sink::run);
}

/// One more operation is applied to what the others left.
pub proof fn lemma_run_push(s: Sink, ops: Seq<Op>, op: Op)
    ensures
        s.run(ops.push(op)) == s.run(ops).apply(op),
{
    reveal(Sink::run);
    assert(ops.push(op).drop_last() =~= ops);
}

/// A single operation is applied.
pub proof fn lemma_run_one(s: Sink, op: Op)
    ensures
        s.run(seq![op]) == s.apply(op),
{
    lemma_run_empty(s);
    lemma_run_push(s, Seq::empty(), op);
}

/// Running two sequences in a row is running the second on what the first
/// left.
pub proof fn lemma_run_concat(s: Sink, a: Seq<Op>, b: Seq<Op>)
    ensures
        s.run(a + b) == s.run(a).run(b),
    decreases b.len(),
{
    reveal(Sink::run);
    if b.len() == 0 {
        assert(a + b =~= a);
    } else {
        lemma_run_concat(s, a, b.drop_last());
        assert((a + b).drop_last() =~= a + b.drop_last());
    }
}

/// The text of the operations that write, in order.
pub open spec fn written(ops: Seq<Op>) -> Seq<char>
    decreases ops.len(),
{
    if ops.len() == 0 {
        Seq::empty()
    } else {
        written(ops.drop_last()) + (match ops.last() {
            Op::Write(s) => s,
            _ => Seq::empty(),
        })
    }
}

/// Text may be written in one piece or in two.
pub proof fn lemma_write_write(s: Sink, a: Seq<char>, b: Seq<char>)
    ensures
        s.write(a).write(b) == s.write(a + b),
{
    if a.len() == 0 {
        assert(a + b =~= b);
    } else if b.len() == 0 {
        assert(a + b =~= a);
    } else if s.column == 0 {
        assert(s.text + blanks(s.indent()) + a + b =~= s.text + blanks(s.indent()) + (a + b));
    } else {
        assert(s.text + a + b =~= s.text + (a + b));
    }
}

/// Operations that only write may be replaced by one that writes their text.
pub proof fn lemma_run_written(s: Sink, ops: Seq<Op>)
    requires
        forall|i: int| 0 <= i < ops.len() ==> ops[i] is Write,
    ensures
        s.run(ops) == s.write(written(ops)),
    decreases ops.len(),
{
    reveal(Sink::run);
    if ops.len() > 0 {
        lemma_run_written(s, ops.drop_last());
        lemma_write_write(s, written(ops.drop_last()), ops.last()->Write_0);
    }
}

/// The sink is only appended to: what was written stays as it is, at the
/// beginning of the text.
pub proof fn lemma_run_appends(s: Sink, ops: Seq<Op>)
    ensures
        s.text.is_prefix_of(s.run(ops).text),
    decreases ops.len(),
{
    reveal(Sink::run);
    if ops.len() > 0 {
        lemma_run_appends(s, ops.drop_last());
    }
}

/// A sink that collects the text in memory. A column is a number of
/// characters.
pub struct SourceWriter {
    done: String,
    line: String,
    spaces: Vec<usize>,
}

impl View for SourceWriter {
    type V = Sink;

    closed spec fn view(&self) -> Sink {
        Sink {
            text: self.done@ + self.line@,
            column: self.line@.len(),
            spaces: self.spaces@.map_values(|n: usize| n as nat),
        }
    }
}

impl SourceWriter {
    /// The sink that nothing was written into.
    pub fn new() -> (out: SourceWriter)
        ensures
            out@ == Sink::empty(),
    {
        let out = SourceWriter { done: String::new(), line: String::new(), spaces: Vec::new() };
        assert(out@.text =~= Seq::empty());
        assert(out@.spaces =~= Seq::empty());
        out
    }

    /// The indentation of a line that is begun now.
    fn indent(&self) -> (n: usize)
        ensures
            n == self@.indent(),
    {
        let len = self.spaces.len();
        if len > 0 {
            self.spaces[len - 1]
        } else {
            0
        }
    }

    /// The column at which the next piece of text begins.
    pub fn line_length_for_align(&self) -> (n: usize)
        ensures
            n == self@.align_column(),
    {
        if self.line.as_str().is_empty() {
            self.indent()
        } else {
            self.line.as_str().unicode_len()
        }
    }

    /// Indents the lines that are begun from now on by `spaces` blanks.
    pub fn push_set_spaces(&mut self, spaces: usize)
        ensures
            final(self)@ == old(self)@.push_set_spaces(spaces as nat),
    {
        self.spaces.push(spaces);
        assert(self@.spaces =~= old(self)@.spaces.push(spaces as nat));
    }

    /// Drops the innermost indentation, if there is one.
    pub fn pop_tab(&mut self)
        ensures
            final(self)@ == old(self)@.pop_tab(),
    {
        self.spaces.pop();
        assert(self@.spaces =~= old(self)@.pop_tab().spaces);
    }

    /// Ends the line.
    pub fn new_line(&mut self)
        ensures
            final(self)@ == old(self)@.new_line(),
    {
        self.done.append(self.line.as_str());
        self.done.append("\n");
        self.line = String::new();
        assert(self@.text =~= old(self)@.text + "\n"@);
    }

    /// Appends `text`, behind the line's indentation if it is the first of
    /// its line.
    pub fn write(&mut self, text: &str)
        ensures
            final(self)@ == old(self)@.write(text@),
    {
        if text.is_empty() {
            return ;
        }
        if self.line.as_str().is_empty() {
            let n = self.indent();
            let mut i: usize = 0;
            while i < n
                invariant
                    i <= n,
                    self.line@ == blanks(i as nat),
                    self.done == old(self).done,
                    self.spaces == old(self).spaces,
                decreases n - i,
            {
                proof {
                    reveal_strlit(" ");
                }
                self.line.append(" ");
                i = i + 1;
                assert(self.line@ =~= blanks(i as nat));
            }
        }
        self.line.append(text);
        assert(self@.text =~= old(self)@.write(text@).text);
    }

    /// The text written so far.
    pub fn into_string(self) -> (text: String)
        ensures
            text@ == self@.text,
    {
        let mut text = self.done;
        text.append(self.line.as_str());
        text
    }
}

} // verus!
