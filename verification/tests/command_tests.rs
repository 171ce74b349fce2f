use psst_cli::command::{ingest_line, Command, LineAction, QUEUE_COPIES};
use psst_cli::item::{ItemId, ItemIdType, NormalizationLevel, PlaybackItem};

fn item(id: u128) -> PlaybackItem {
    PlaybackItem {
        item_id: ItemId { id, id_type: ItemIdType::Track },
        norm_level: NormalizationLevel::Track,
    }
}

#[test]
fn each_key_stands_for_its_command() {
    assert_eq!(Command::parse("p"), Some(Command::Pause));
    assert_eq!(Command::parse("r"), Some(Command::Resume));
    assert_eq!(Command::parse("s"), Some(Command::Stop));
    assert_eq!(Command::parse("<"), Some(Command::Previous));
    assert_eq!(Command::parse(">"), Some(Command::Next));
}

#[test]
fn the_five_keys_stand_for_five_different_commands() {
    let keys = ["p", "r", "s", "<", ">"];
    for a in keys {
        for b in keys {
            assert_eq!(Command::parse(a) == Command::parse(b), a == b);
        }
    }
}

#[test]
fn other_single_characters_stand_for_nothing() {
    for line in ["P", "R", "S", "q", "x", " ", "=", "?", "0", "é", "\u{1F600}"] {
        assert_eq!(Command::parse(line), None, "{:?}", line);
    }
}

#[test]
fn longer_and_empty_lines_stand_for_nothing() {
    for line in ["", "pp", "p ", " p", "pause", "stop", "<>", "p\n", "s\r", "rs"] {
        assert_eq!(Command::parse(line), None, "{:?}", line);
    }
}

#[test]
fn a_key_line_is_submitted() {
    assert_eq!(ingest_line("p"), LineAction::Submit(Command::Pause));
    assert_eq!(ingest_line("r"), LineAction::Submit(Command::Resume));
    assert_eq!(ingest_line("s"), LineAction::Submit(Command::Stop));
    assert_eq!(ingest_line("<"), LineAction::Submit(Command::Previous));
    assert_eq!(ingest_line(">"), LineAction::Submit(Command::Next));
}

#[test]
fn any_other_line_gives_one_warning_and_no_command() {
    for line in ["", "play", "S", "p p", ">>", "\t"] {
        assert_eq!(ingest_line(line), LineAction::Warn, "{:?}", line);
    }
}

#[test]
fn a_stream_of_lines_gives_one_action_per_line() {
    let lines = ["p", "bogus", ">", "", "<", "s", "S"];
    let mut commands = Vec::new();
    let mut warnings = 0;
    for line in lines {
        match ingest_line(line) {
            LineAction::Submit(command) => commands.push(command),
            LineAction::Warn => warnings += 1,
        }
    }
    assert_eq!(commands, vec![Command::Pause, Command::Next, Command::Previous, Command::Stop]);
    assert_eq!(warnings, 3);
    assert_eq!(commands.len() + warnings, lines.len());
}

#[test]
fn input_never_loads_a_queue() {
    for line in ["p", "r", "s", "<", ">", "l", "load", ""] {
        assert!(!matches!(Command::parse(line), Some(Command::LoadQueue { .. })));
    }
}

#[test]
fn the_startup_queue_holds_the_item_three_times_from_the_first() {
    let it = item(42);
    assert_eq!(QUEUE_COPIES, 3);
    assert_eq!(Command::startup(it), Command::LoadQueue { items: vec![it, it, it], position: 0 });
}

#[test]
fn the_startup_queue_keeps_the_item_as_it_is() {
    let it = PlaybackItem {
        item_id: ItemId { id: u128::MAX, id_type: ItemIdType::Podcast },
        norm_level: NormalizationLevel::Album,
    };
    match Command::startup(it) {
        Command::LoadQueue { items, position } => {
            assert_eq!(position, 0);
            assert_eq!(items.len(), 3);
            assert!(items.iter().all(|i| *i == it));
        }
        other => panic!("not a queue load: {:?}", other),
    }
}
