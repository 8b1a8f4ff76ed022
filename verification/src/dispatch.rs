//! The foreground of the device: bytes from the serial line are gathered
//! into lines, each line is read as a command, and each command is turned
//! into what has to be done about it. Gathering and reading touch nothing
//! that an interrupt shares; only [`dispatch`] touches the queue.

use crate::command::{parse_line, Command, CommandErr};
use crate::scheduler::{AlarmRequest, Pending, Scheduler};
use crate::screen::{change_light_color, marker_of, Marker};
use vstd::prelude::*;
use vstd::string::*;

verus! {

/// The byte that ends a line.
pub const LINE_FEED: u8 = 10;

/// The byte that throws away what has been gathered of a line.
pub const CARRIAGE_RETURN: u8 = 13;

/// What has to be done about a line.
#[derive(Clone, Copy, Debug, PartialEq, Eq, Structural)]
pub enum Reaction {
    /// Answer `pong`.
    Pong,
    /// Set the display up anew.
    Reinit,
    /// Draw a marker now.
    Draw(Marker),
    /// A marker has been queued: do this to the alarm.
    Schedule(AlarmRequest),
    /// The line was no command: say so.
    Report(CommandErr),
}

/// What has to be done about a line that was read as `parsed`, while
/// `pending` waits in the queue.
pub open spec fn reaction_of(parsed: Result<Command, CommandErr>, pending: Pending) -> Reaction {
    match parsed {
        Ok(Command::Ping) => Reaction::Pong,
        Ok(Command::Reload) => Reaction::Reinit,
        Ok(Command::Blink(color, position)) => Reaction::Draw(marker_of(color, position)),
        Ok(Command::DelayBlink(_, _, delay)) => Reaction::Schedule(pending.enqueue_request(delay)),
        Err(e) => Reaction::Report(e),
    }
}

/// The queue after a line that was read as `parsed`: a delayed marker is
/// put at its end, and nothing else touches it.
pub open spec fn pending_after(parsed: Result<Command, CommandErr>, pending: Pending) -> Pending {
    match parsed {
        Ok(Command::DelayBlink(color, position, delay)) => pending.enqueue(color, position, delay),
        _ => pending,
    }
}

/// The text that is sent back for a line that was no command.
pub open spec fn message_of(e: CommandErr) -> Seq<char> {
    match e {
        CommandErr::FailToParse => "Unknown command FailToParse"@,
        CommandErr::InvalidString => "Unknown command InvalidString"@,
        CommandErr::EmptyInput => "Unknown command EmptyInput"@,
    }
}

/// The text that a reaction sends back over the serial line, if any.
pub open spec fn reply_of(reaction: Reaction) -> Option<Seq<char>> {
    match reaction {
        Reaction::Pong => Some("pong"@),
        Reaction::Report(e) => Some(message_of(e)),
        _ => None,
    }
}

impl CommandErr {
    /// The text that is sent back, and shown, for a line that was no command.
    pub fn message(&self) -> (text: String)
        ensures
            text@ == message_of(*self),
    {
        match self {
            CommandErr::FailToParse => String::from_str("Unknown command FailToParse"),
            CommandErr::InvalidString => String::from_str("Unknown command InvalidString"),
            CommandErr::EmptyInput => String::from_str("Unknown command EmptyInput"),
        }
    }
}

impl Reaction {
    /// The text to send back over the serial line, if any.
    pub fn reply(&self) -> (text: Option<String>)
        ensures
            text is Some <==> reply_of(*self) is Some,
            text is Some ==> text->0@ == reply_of(*self)->0,
    {
        match self {
            Reaction::Pong => Some(String::from_str("pong")),
            Reaction::Report(e) => Some(e.message()),
            _ => None,
        }
    }
}

/// Turns a line that has been read into what has to be done about it. A
/// delayed marker is queued here; everything else leaves the queue alone.
pub fn dispatch(parsed: Result<Command, CommandErr>, scheduler: &mut Scheduler) -> (reaction:
    Reaction)
    requires
        old(scheduler).wf(),
    ensures
        final(scheduler).wf(),
        final(scheduler)@ == pending_after(parsed, old(scheduler)@),
        reaction == reaction_of(parsed, old(scheduler)@),
{
    match parsed {
        Ok(Command::Ping) => Reaction::Pong,
        Ok(Command::Reload) => Reaction::Reinit,
        Ok(Command::Blink(color, position)) => Reaction::Draw(
            change_light_color(&Command::Blink(color, position)),
        ),
        Ok(Command::DelayBlink(color, position, delay)) => Reaction::Schedule(
            scheduler.enqueue(color, position, delay),
        ),
        Err(e) => Reaction::Report(e),
    }
}

/// The part of a line that has arrived.
pub struct LineBuffer {
    pub chars: Vec<char>,
}

/// The line that a byte completes, if it completes one.
pub open spec fn line_after(gathered: Seq<char>, byte: u8) -> Option<Seq<char>> {
    if byte == LINE_FEED {
        Some(gathered)
    } else {
        None
    }
}

/// What is gathered of the next line once a byte has arrived: a line feed
/// and a carriage return leave nothing, every other byte is added as the
/// character with its number.
pub open spec fn gathered_after(gathered: Seq<char>, byte: u8) -> Seq<char> {
    if byte == LINE_FEED || byte == CARRIAGE_RETURN {
        Seq::empty()
    } else {
        gathered.push(byte as char)
    }
}

impl LineBuffer {
    /// Nothing has arrived.
    pub fn new() -> (buffer: LineBuffer)
        ensures
            buffer.chars@ == Seq::<char>::empty(),
    {
        LineBuffer { chars: Vec::new() }
    }

    /// Takes one byte from the serial line. A line feed hands out the line
    /// gathered so far; a carriage return throws it away.
    pub fn push(&mut self, byte: u8) -> (line: Option<Vec<char>>)
        ensures
            final(self).chars@ == gathered_after(old(self).chars@, byte),
            line is Some <==> line_after(old(self).chars@, byte) is Some,
            line is Some ==> line->0@ == line_after(old(self).chars@, byte)->0,
    {
        if byte == LINE_FEED {
            let mut line: Vec<char> = Vec::new();
            std::mem::swap(&mut self.chars, &mut line);
            Some(line)
        } else if byte == CARRIAGE_RETURN {
            self.chars.clear();
            None
        } else {
            self.chars.push(byte as char);
            None
        }
    }

    /// Takes one byte from the serial line and, when it ends a line, reads
    /// the line as a command.
    pub fn read_command(&mut self, byte: u8) -> (parsed: Option<Result<Command, CommandErr>>)
        ensures
            final(self).chars@ == gathered_after(old(self).chars@, byte),
            parsed == if byte == LINE_FEED {
                Some(parse_line(old(self).chars@))
            } else {
                None::<Result<Command, CommandErr>>
            },
    {
        match self.push(byte) {
            Some(line) => Some(Command::parse(line.as_slice())),
            None => None,
        }
    }
}

} // verus!
