//! The lines that a command writes.
use vstd::prelude::*;
use crate::tline::{TLine, TStringView};

verus! {

#[derive(Debug, Clone, Copy, PartialEq, Eq, Structural)]
pub enum CommandStream {
    StdOut,
    StdErr,
}

/// a line coming either from stdout or from stderr
#[derive(Debug)]
pub struct CommandOutputLine {
    pub content: TLine,
    pub origin: CommandStream,
}

/// What a line of command output stands for.
pub struct CommandOutputLineView {
    pub content: Seq<TStringView>,
    pub origin: CommandStream,
}

impl View for CommandOutputLine {
    type V = CommandOutputLineView;

    open spec fn view(&self) -> CommandOutputLineView {
        CommandOutputLineView { content: self.content@, origin: self.origin }
    }
}

impl Clone for CommandOutputLine {
    fn clone(&self) -> (r: Self)
        ensures
            r@ == self@,
    {
        CommandOutputLine { content: self.content.clone(), origin: self.origin }
    }
}

/// The view of a sequence of output lines.
pub open spec fn output_lines_view(s: Seq<CommandOutputLine>) -> Seq<CommandOutputLineView> {
    s.map_values(|l: CommandOutputLine| l@)
}

/// some output lines
#[derive(Debug)]
pub struct CommandOutput {
    pub lines: Vec<CommandOutputLine>,
}

impl View for CommandOutput {
    type V = Seq<CommandOutputLineView>;

    open spec fn view(&self) -> Seq<CommandOutputLineView> {
        output_lines_view(self.lines@)
    }
}

impl Default for CommandOutput {
    fn default() -> (r: Self)
        ensures
            r@ == Seq::<CommandOutputLineView>::empty(),
    {
        CommandOutput { lines: Vec::new() }
    }
}

/// Reversing the lines of an output twice gives back the output
pub proof fn lemma_reverse_twice(lines: Seq<CommandOutputLineView>)
    ensures
        lines.reverse().reverse() == lines,
{
    assert(lines.reverse().reverse() =~= lines);
}

impl CommandOutput {
    pub fn reverse(&mut self)
        ensures
            final(self)@ == old(self)@.reverse(),
    {
        let ghost old_lines = self.lines@;
        let n = self.lines.len();
        let mut reversed: Vec<CommandOutputLine> = Vec::new();
        while self.lines.len() > 0
            invariant
                self.lines@ == old_lines.take(self.lines@.len() as int),
                self.lines@.len() <= n == old_lines.len(),
                reversed@ == old_lines.skip(self.lines@.len() as int).reverse(),
            decreases self.lines@.len(),
        {
            let ghost k = self.lines@.len();
            let line = self.lines.pop().unwrap();
            assert(old_lines.skip(k - 1) =~= seq![old_lines[k - 1]] + old_lines.skip(k as int));
            assert(old_lines.skip(k - 1).reverse() =~= old_lines.skip(k as int).reverse().push(
                old_lines[k - 1],
            ));
            reversed.push(line);
            assert(old_lines.take(k - 1) =~= old_lines.take(k as int).drop_last());
        }
        assert(old_lines.skip(0) =~= old_lines);
        self.lines = reversed;
        assert(output_lines_view(self.lines@) =~= output_lines_view(old_lines).reverse());
    }

    pub fn push(&mut self, line: CommandOutputLine)
        ensures
            final(self)@ == old(self)@.push(line@),
    {
        self.lines.push(line);
        assert(output_lines_view(self.lines@) =~= old(self)@.push(line@));
    }

    pub fn len(&self) -> (r: usize)
        ensures
            r == self@.len(),
    {
        self.lines.len()
    }
}

} // verus!
