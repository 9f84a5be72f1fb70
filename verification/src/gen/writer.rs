//! The text that a generator writes, line by line, with the depth of each
//! line.

use crate::gen::string_utils::push_chars;
use vstd::prelude::*;
use vstd::string::StringExecFns;

verus! {

/// One line of generated text.
#[derive(Debug)]
pub struct Line {
    pub level: usize,
    pub text: String,
}

/// What a `Line` holds.
pub ghost struct LineView {
    pub level: nat,
    pub text: Seq<char>,
}

impl View for Line {
    type V = LineView;

    open spec fn view(&self) -> LineView {
        LineView { level: self.level as nat, text: self.text@ }
    }
}

/// The line `text` at the depth `level`.
pub open spec fn line(level: nat, text: Seq<char>) -> LineView {
    LineView { level, text }
}

/// An empty line.
pub open spec fn blank() -> LineView {
    LineView { level: 0, text: Seq::empty() }
}

/// What a vector of lines holds.
pub open spec fn line_views(lines: Seq<Line>) -> Seq<LineView> {
    lines.map_values(|line: Line| line@)
}

/// `n` spaces.
pub open spec fn spaces(n: nat) -> Seq<char> {
    Seq::new(n, |i: int| ' ')
}

/// A line as text: the spaces of its depth, the line, the end of the line.
/// An empty line has no spaces.
pub open spec fn render_line(line: LineView, indent_size: nat) -> Seq<char> {
    if line.text.len() == 0 {
        seq!['\n']
    } else {
        spaces(line.level * indent_size) + line.text + seq!['\n']
    }
}

/// Lines as text, one after the other.
pub open spec fn render(lines: Seq<LineView>, indent_size: nat) -> Seq<char>
    decreases lines.len(),
{
    if lines.len() == 0 {
        Seq::empty()
    } else {
        render(lines.drop_last(), indent_size) + render_line(lines.last(), indent_size)
    }
}

/// Gathers the lines of one generated file. The writer keeps the depth at
/// which the next line stands.
pub struct Writer {
    indent_size: usize,
    level: usize,
    lines: Vec<Line>,
}

impl View for Writer {
    type V = Seq<LineView>;

    /// A writer is seen as the lines that were written.
    closed spec fn view(&self) -> Seq<LineView> {
        line_views(self.lines@)
    }
}

impl Writer {
    /// The depth at which the next line stands.
    pub closed spec fn level(&self) -> nat {
        self.level as nat
    }

    /// The number of spaces to one step of depth.
    pub closed spec fn indent_size(&self) -> nat {
        self.indent_size as nat
    }

    /// A writer without lines, at depth 0.
    pub fn new(indent_size: usize) -> (writer: Writer)
        ensures
            writer@ == Seq::<LineView>::empty(),
            writer.level() == 0,
            writer.indent_size() == indent_size,
    {
        let writer = Writer { indent_size, level: 0, lines: Vec::new() };
        assert(writer@ =~= Seq::<LineView>::empty());
        writer
    }

    /// The depth at which the next line stands.
    pub fn depth(&self) -> (level: usize)
        ensures
            level == self.level(),
    {
        self.level
    }

    /// One step deeper.
    pub fn indent(&mut self)
        requires
            old(self).level() < usize::MAX,
        ensures
            final(self).level() == old(self).level() + 1,
            final(self)@ == old(self)@,
            final(self).indent_size() == old(self).indent_size(),
    {
        self.level = self.level + 1;
    }

    /// One step back. At depth 0 the writer stays at depth 0.
    pub fn outdent(&mut self)
        ensures
            final(self).level() == if old(self).level() == 0 {
                0
            } else {
                old(self).level() - 1
            },
            final(self)@ == old(self)@,
            final(self).indent_size() == old(self).indent_size(),
    {
        if self.level > 0 {
            self.level = self.level - 1;
        }
    }

    /// Writes `text` as a line at the current depth.
    pub fn writeln(&mut self, text: &str)
        ensures
            final(self)@ == old(self)@.push(line(old(self).level(), text@)),
            final(self).level() == old(self).level(),
            final(self).indent_size() == old(self).indent_size(),
    {
        self.lines.push(Line { level: self.level, text: String::from_str(text) });
        assert(self@ =~= old(self)@.push(line(old(self).level(), text@)));
    }

    /// Writes an empty line.
    pub fn newline(&mut self)
        ensures
            final(self)@ == old(self)@.push(blank()),
            final(self).level() == old(self).level(),
            final(self).indent_size() == old(self).indent_size(),
    {
        self.lines.push(Line { level: 0, text: String::new() });
        assert(self@ =~= old(self)@.push(blank()));
    }

    /// Goes one step deeper and writes `text` there.
    pub fn indent_writeln(&mut self, text: &str)
        requires
            old(self).level() < usize::MAX,
        ensures
            final(self)@ == old(self)@.push(line(old(self).level() + 1, text@)),
            final(self).level() == old(self).level() + 1,
            final(self).indent_size() == old(self).indent_size(),
    {
        self.indent();
        self.writeln(text);
    }

    /// Goes one step back and writes `text` there.
    pub fn outdent_writeln(&mut self, text: &str)
        ensures
            final(self).level() == if old(self).level() == 0 {
                0
            } else {
                old(self).level() - 1
            },
            final(self)@ == old(self)@.push(line(final(self).level(), text@)),
            final(self).indent_size() == old(self).indent_size(),
    {
        self.outdent();
        self.writeln(text);
    }

    /// The lines that were written.
    pub fn lines(&self) -> (lines: &Vec<Line>)
        ensures
            line_views(lines@) == self@,
    {
        &self.lines
    }

    /// The text of the file: every line with the spaces of its depth.
    pub fn to_text(&self) -> (text: String)
        ensures
            text@ == render(self@, self.indent_size()),
    {
        let mut text = String::new();
        let mut i: usize = 0;
        assert(self@.take(0) =~= Seq::<LineView>::empty());
        while i < self.lines.len()
            invariant
                i <= self.lines.len(),
                text@ == render(self@.take(i as int), self.indent_size()),
            decreases self.lines.len() - i,
        {
            let ghost done = text@;
            let current = &self.lines[i];
            assert(self@.take(i + 1).drop_last() =~= self@.take(i as int));
            assert(self@.take(i + 1).last() == current@);
            if current.text.as_str().is_empty() {
                text.append("\n");
                proof {
                    reveal_strlit("\n");
                    assert("\n"@ =~= seq!['\n']);
                }
            } else {
                push_spaces(&mut text, current.level, self.indent_size);
                text.append(current.text.as_str());
                text.append("\n");
                proof {
                    reveal_strlit("\n");
                    assert("\n"@ =~= seq!['\n']);
                }
            }
            assert(text@ =~= done + render_line(current@, self.indent_size()));
            i += 1;
        }
        assert(self@.take(i as int) =~= self@);
        text
    }
}

/// Appends the spaces of `level` steps of `indent_size` spaces each.
pub fn push_spaces(out: &mut String, level: usize, indent_size: usize)
    ensures
        final(out)@ == old(out)@ + spaces(level as nat * indent_size as nat),
{
    let mut step: Vec<char> = Vec::new();
    let mut k: usize = 0;
    while k < indent_size
        invariant
            k <= indent_size,
            step@ == spaces(k as nat),
        decreases indent_size - k,
    {
        step.push(' ');
        assert(step@ =~= spaces((k + 1) as nat));
        k += 1;
    }
    let mut l: usize = 0;
    assert(out@ =~= old(out)@ + spaces(0));
    while l < level
        invariant
            l <= level,
            step@ == spaces(indent_size as nat),
            out@ == old(out)@ + spaces(l as nat * indent_size as nat),
        decreases level - l,
    {
        let ghost before = out@;
        push_chars(out, &step);
        assert((l + 1) as nat * indent_size as nat == l as nat * indent_size as nat
            + indent_size as nat) by (nonlinear_arith);
        assert(out@ =~= old(out)@ + spaces((l + 1) as nat * indent_size as nat));
        l += 1;
    }
}

} // verus!
