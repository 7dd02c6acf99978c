use vstd::prelude::*;

verus! {

/// A request to the terminal, carried out by whoever owns the real output.
pub enum TermCommand {
    /// Clear the visible screen.
    ClearAll,
    /// Clear the scroll-back buffer.
    ClearPurge,
    /// Put the cursor at `(column, row)`.
    MoveTo(u16, u16),
    /// Write this text.
    Write(String),
    /// Push what was written so far to the terminal.
    Flush,
    HideCursor,
    ShowCursor,
    SavePosition,
}

/// A terminal as a queue of commands waiting to be carried out.
pub struct Term {
    pub pending: Vec<TermCommand>,
}

/// `cmd` writes exactly `text`.
pub open spec fn writes(cmd: TermCommand, text: Seq<char>) -> bool {
    match cmd {
        TermCommand::Write(s) => s@ == text,
        _ => false,
    }
}

impl Term {
    /// A terminal with nothing queued.
    pub fn new() -> (t: Term)
        ensures
            t.pending@.len() == 0,
    {
        Term { pending: Vec::new() }
    }

    /// Queues `cmd`.
    pub fn queue(&mut self, cmd: TermCommand)
        ensures
            final(self).pending@ == old(self).pending@.push(cmd),
    {
        self.pending.push(cmd);
    }

    /// Queues a flush.
    pub fn flush(&mut self)
        ensures
            final(self).pending@ == old(self).pending@.push(TermCommand::Flush),
    {
        self.pending.push(TermCommand::Flush);
    }

    /// Queues `cmd` and a flush after it.
    pub fn execute(&mut self, cmd: TermCommand)
        ensures
            final(self).pending@ == old(self).pending@.push(cmd).push(TermCommand::Flush),
    {
        self.queue(cmd);
        self.flush();
    }

    /// Queues writing `output`, then a flush.
    pub fn write_buffer(&mut self, output: &str)
        ensures
            final(self).pending@.len() == old(self).pending@.len() + 2,
            final(self).pending@.subrange(0, old(self).pending@.len() as int) == old(self).pending@,
            writes(final(self).pending@[old(self).pending@.len() as int], output@),
            final(self).pending@.last() == TermCommand::Flush,
    {
        let text = String::from_str(output);
        self.queue(TermCommand::Write(text));
        self.flush();
        assert(self.pending@.subrange(0, old(self).pending@.len() as int) =~= old(self).pending@);
    }

    /// Queues clearing the screen and the scroll-back, moving the cursor to
    /// the top left corner, and a flush.
    pub fn clear_all(&mut self)
        ensures
            final(self).pending@ == old(self).pending@ + seq![
                TermCommand::ClearAll,
                TermCommand::ClearPurge,
                TermCommand::MoveTo(0, 0),
                TermCommand::Flush,
            ],
    {
        self.queue(TermCommand::ClearAll);
        self.queue(TermCommand::ClearPurge);
        self.queue(TermCommand::MoveTo(0, 0));
        self.flush();
        assert(self.pending@ =~= old(self).pending@ + seq![
            TermCommand::ClearAll,
            TermCommand::ClearPurge,
            TermCommand::MoveTo(0, 0),
            TermCommand::Flush,
        ]);
    }

    /// Hands out the queued commands, oldest first, and empties the queue.
    pub fn take_pending(&mut self) -> (cmds: Vec<TermCommand>)
        ensures
            cmds@ == old(self).pending@,
            final(self).pending@.len() == 0,
    {
        let mut cmds: Vec<TermCommand> = Vec::new();
        std::mem::swap(&mut cmds, &mut self.pending);
        cmds
    }
}

} // verus!
