use vstd::prelude::*;
use crate::text::{push_char, push_text, text_of};

verus! {

/// Accumulates lines of source text, each prefixed by the current indentation.
pub struct CodeWriter {
    output: String,
    indent_level: usize,
    indent_string: String,
}

pub struct CodeWriterV {
    pub output: Seq<char>,
    pub level: nat,
    pub unit: Seq<char>,
}

impl View for CodeWriter {
    type V = CodeWriterV;

    closed spec fn view(&self) -> CodeWriterV {
        CodeWriterV { output: self.output@, level: self.indent_level as nat, unit: self.indent_string@ }
    }
}

/// `unit` written `n` times.
pub open spec fn repeat(unit: Seq<char>, n: nat) -> Seq<char>
    decreases n,
{
    if n == 0 {
        Seq::empty()
    } else {
        repeat(unit, (n - 1) as nat) + unit
    }
}

/// The text of a line at indentation `level`.
pub open spec fn indented_line(w: CodeWriterV, s: Seq<char>) -> Seq<char> {
    repeat(w.unit, w.level) + s + seq!['\n']
}

/// `w` with `extra` appended to its output.
pub open spec fn appended(w: CodeWriterV, extra: Seq<char>) -> CodeWriterV {
    CodeWriterV { output: w.output + extra, ..w }
}

/// `w` at indentation `level`.
pub open spec fn at_level(w: CodeWriterV, level: nat) -> CodeWriterV {
    CodeWriterV { level, ..w }
}

/// `w` one level less deep, never below zero.
pub open spec fn dedented(w: CodeWriterV) -> CodeWriterV {
    at_level(w, if w.level == 0 { 0 } else { (w.level - 1) as nat })
}

/// `w` after writing the line `s` and going one level deeper.
pub open spec fn opened(w: CodeWriterV, s: Seq<char>) -> CodeWriterV {
    at_level(appended(w, indented_line(w, s)), w.level + 1)
}

/// `w` after going one level back and writing the line `s`.
pub open spec fn closed_by(w: CodeWriterV, s: Seq<char>) -> CodeWriterV {
    appended(dedented(w), indented_line(dedented(w), s))
}

impl CodeWriter {
    /// A writer that indents by two spaces.
    pub fn new() -> (r: CodeWriter)
        ensures
            r@.output.len() == 0,
            r@.level == 0,
            r@.unit == "  "@,
    {
        CodeWriter::with_indent("  ")
    }

    /// A writer that indents by `indent`.
    pub fn with_indent(indent: &str) -> (r: CodeWriter)
        ensures
            r@.output.len() == 0,
            r@.level == 0,
            r@.unit == indent@,
    {
        CodeWriter { output: String::new(), indent_level: 0, indent_string: text_of(indent) }
    }

    /// Everything written.
    pub fn into_string(self) -> (r: String)
        ensures
            r@ == self@.output,
    {
        self.output
    }

    /// Writes `s` as one line at the current indentation.
    pub fn line(&mut self, s: &str)
        ensures
            final(self)@ == appended(old(self)@, indented_line(old(self)@, s@)),
    {
        let ghost start = self@;
        let mut k: usize = 0;
        while k < self.indent_level
            invariant
                k <= self.indent_level,
                self.indent_level == start.level,
                self.indent_string@ == start.unit,
                self.output@ == start.output + repeat(start.unit, k as nat),
            decreases self.indent_level - k,
        {
            let ghost before = self.output@;
            push_text(&mut self.output, self.indent_string.as_str());
            assert(self.output@ =~= start.output + repeat(start.unit, (k + 1) as nat));
            k += 1;
        }
        push_text(&mut self.output, s);
        push_char(&mut self.output, '\n');
        assert(self.output@ =~= start.output + indented_line(start, s@));
    }

    /// Writes an empty line, without indentation.
    pub fn empty_line(&mut self)
        ensures
            final(self)@ == appended(old(self)@, seq!['\n']),
    {
        push_char(&mut self.output, '\n');
        assert(self.output@ =~= old(self)@.output + seq!['\n']);
    }

    /// One level deeper.
    pub fn indent(&mut self)
        requires
            old(self)@.level < usize::MAX,
        ensures
            final(self)@ == at_level(old(self)@, old(self)@.level + 1),
    {
        self.indent_level = self.indent_level + 1;
    }

    /// One level less, never below zero.
    pub fn dedent(&mut self)
        ensures
            final(self)@ == dedented(old(self)@),
    {
        if self.indent_level > 0 {
            self.indent_level = self.indent_level - 1;
        }
    }

    /// Writes `opening`, then what `f` writes one level deeper, then `closing`.
    pub fn block<F: FnOnce(CodeWriter) -> CodeWriter>(&mut self, opening: &str, closing: &str, f: F)
        requires
            old(self)@.level < usize::MAX,
            forall|w: CodeWriter| #[trigger] f.requires((w,)),
        ensures
            (exists|inner: CodeWriter, after: CodeWriter|
                inner@ == opened(old(self)@, opening@) && f.ensures((inner,), after)
                    && final(self)@ == closed_by(after@, closing@)),
    {
        self.line(opening);
        self.indent();
        let inner = CodeWriter { output: self.output.clone(), indent_level: self.indent_level, indent_string: self.indent_string.clone() };
        let ghost inner_view = inner;
        let mut after = f(inner);
        let ghost after_view = after;
        after.dedent();
        after.line(closing);
        assert(inner_view@ == opened(old(self)@, opening@));
        assert(after@ == closed_by(after_view@, closing@));
        *self = after;
    }

    /// As `block`, followed by an empty line.
    pub fn block_with_newline<F: FnOnce(CodeWriter) -> CodeWriter>(&mut self, opening: &str, closing: &str, f: F)
        requires
            old(self)@.level < usize::MAX,
            forall|w: CodeWriter| #[trigger] f.requires((w,)),
        ensures
            (exists|inner: CodeWriter, after: CodeWriter|
                inner@ == opened(old(self)@, opening@) && f.ensures((inner,), after)
                    && final(self)@ == appended(closed_by(after@, closing@), seq!['\n'])),
    {
        self.block(opening, closing, f);
        self.empty_line();
    }
}

} // verus!
