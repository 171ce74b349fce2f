//! Commands for the playback engine, and the fixed mapping from lines of
//! user input to commands.

use crate::item::PlaybackItem;
use vstd::prelude::*;
use vstd::string::*;

verus! {

/// One instruction for the playback engine.
#[derive(Clone, Debug, PartialEq, Eq)]
pub enum Command {
    /// Replace the queue with `items` and start playing at `position`.
    LoadQueue { items: Vec<PlaybackItem>, position: usize },
    Pause,
    Resume,
    Stop,
    Previous,
    Next,
}

/// The mathematical value of a [`Command`].
pub enum CommandView {
    LoadQueue { items: Seq<PlaybackItem>, position: nat },
    Pause,
    Resume,
    Stop,
    Previous,
    Next,
}

impl View for Command {
    type V = CommandView;

    open spec fn view(&self) -> CommandView {
        match *self {
            Command::LoadQueue { items, position } => CommandView::LoadQueue {
                items: items@,
                position: position as nat,
            },
            Command::Pause => CommandView::Pause,
            Command::Resume => CommandView::Resume,
            Command::Stop => CommandView::Stop,
            Command::Previous => CommandView::Previous,
            Command::Next => CommandView::Next,
        }
    }
}

/// What the ingestion actor does with one line of input.
#[derive(Clone, Debug, PartialEq, Eq)]
pub enum LineAction {
    /// Submit this command to the engine.
    Submit(Command),
    /// Log one warning and drop the line.
    Warn,
}

/// The mathematical value of a [`LineAction`].
pub enum LineActionView {
    Submit(CommandView),
    Warn,
}

impl View for LineAction {
    type V = LineActionView;

    open spec fn view(&self) -> LineActionView {
        match *self {
            LineAction::Submit(command) => LineActionView::Submit(command@),
            LineAction::Warn => LineActionView::Warn,
        }
    }
}

/// How many times the item of a run is queued at startup.
pub const QUEUE_COPIES: usize = 3;

/// The queue that a run starts with: `item` three times, playing from the
/// first.
pub open spec fn startup_queue(item: PlaybackItem) -> CommandView {
    CommandView::LoadQueue { items: Seq::new(QUEUE_COPIES as nat, |i: int| item), position: 0 }
}

/// The command that a line of input stands for: `p` pauses, `r` resumes, `s`
/// stops, `<` goes to the previous item and `>` to the next. The match is
/// exact and case-sensitive; no other line stands for a command.
pub open spec fn line_command(line: Seq<char>) -> Option<CommandView> {
    if line.len() != 1 {
        None
    } else if line[0] == 'p' {
        Some(CommandView::Pause)
    } else if line[0] == 'r' {
        Some(CommandView::Resume)
    } else if line[0] == 's' {
        Some(CommandView::Stop)
    } else if line[0] == '<' {
        Some(CommandView::Previous)
    } else if line[0] == '>' {
        Some(CommandView::Next)
    } else {
        None
    }
}

/// What the ingestion actor does with `line`: submit the command it stands
/// for, or warn where it stands for none.
pub open spec fn line_action(line: Seq<char>) -> LineActionView {
    match line_command(line) {
        Some(command) => LineActionView::Submit(command),
        None => LineActionView::Warn,
    }
}

impl Command {
    /// The command that loads the startup queue of `item`.
    pub fn startup(item: PlaybackItem) -> (command: Command)
        ensures
            command@ == startup_queue(item),
            command matches Command::LoadQueue { items, position } && items@ == seq![
                item,
                item,
                item,
            ] && position == 0,
    {
        let mut items: Vec<PlaybackItem> = Vec::new();
        let mut i: usize = 0;
        while i < QUEUE_COPIES
            invariant
                i <= QUEUE_COPIES,
                items@ == Seq::new(i as nat, |k: int| item),
            decreases QUEUE_COPIES - i,
        {
            items.push(item);
            i += 1;
        }
        Command::LoadQueue { items, position: 0 }
    }

    /// Reads one line of user input as a command.
    pub fn parse(line: &str) -> (r: Option<Command>)
        ensures
            match r {
                Some(command) => line_command(line@) == Some(command@),
                None => line_command(line@) is None,
            },
    {
        if line.unicode_len() != 1 {
            return None;
        }
        let c = line.get_char(0);
        if c == 'p' {
            Some(Command::Pause)
        } else if c == 'r' {
            Some(Command::Resume)
        } else if c == 's' {
            Some(Command::Stop)
        } else if c == '<' {
            Some(Command::Previous)
        } else if c == '>' {
            Some(Command::Next)
        } else {
            None
        }
    }
}

/// Decides what the ingestion actor does with one line of input.
pub fn ingest_line(line: &str) -> (action: LineAction)
    ensures
        action@ == line_action(line@),
{
    match Command::parse(line) {
        Some(command) => LineAction::Submit(command),
        None => LineAction::Warn,
    }
}

/// Every line either stands for exactly one command or for none: the five
/// keys stand for five different commands, none of them a queue load, and a
/// line stands for a command only if it is one of the five keys.
pub proof fn law_input_mapping_total(line: Seq<char>)
    ensures
        line_command(seq!['p']) == Some(CommandView::Pause),
        line_command(seq!['r']) == Some(CommandView::Resume),
        line_command(seq!['s']) == Some(CommandView::Stop),
        line_command(seq!['<']) == Some(CommandView::Previous),
        line_command(seq!['>']) == Some(CommandView::Next),
        line_command(line) is Some <==> (line == seq!['p'] || line == seq!['r'] || line == seq!['s']
            || line == seq!['<'] || line == seq!['>']),
        !(line_command(line) matches Some(CommandView::LoadQueue { .. })),
        line_action(line) is Submit <==> line_command(line) is Some,
        line_action(line) is Warn <==> line_command(line) is None,
{
    if line_command(line) is Some {
        assert(line =~= seq![line[0]]);
    }
}

/// Two lines that stand for the same command are the same line.
pub proof fn law_input_mapping_injective(a: Seq<char>, b: Seq<char>)
    requires
        line_command(a) is Some,
        line_command(a) == line_command(b),
    ensures
        a == b,
{
    assert(a =~= b);
}

} // verus!
