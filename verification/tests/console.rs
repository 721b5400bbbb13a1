use midi_ctrl::console::{
    digit_of, interpret, parse_line, parse_number, split_words, Input, Verb,
};
use midi_ctrl::MidiCommand;

fn sent(line: &str, channel: u8) -> MidiCommand {
    match parse_line(line, channel) {
        Input::Send(command) => command,
        other => panic!("{:?} is not a command", other),
    }
}

#[test]
fn control_change_line() {
    assert_eq!(
        sent("cc 74 100", 1),
        MidiCommand::ControlChange { channel: 1, controller: 74, value: 100 }
    );
    assert_eq!(
        sent("  CC\t7   +5  \n", 16),
        MidiCommand::ControlChange { channel: 16, controller: 7, value: 5 }
    );
    assert_eq!(
        sent("cc 200 255 and more", 2),
        MidiCommand::ControlChange { channel: 2, controller: 200, value: 255 }
    );
}

#[test]
fn transport_lines() {
    assert_eq!(sent("start", 1), MidiCommand::Start);
    assert_eq!(sent("Stop", 1), MidiCommand::Stop);
    assert_eq!(sent("CONTINUE", 1), MidiCommand::Continue);
    assert_eq!(sent("start now", 1), MidiCommand::Start);
}

#[test]
fn note_and_program_lines() {
    assert_eq!(sent("pc 5", 3), MidiCommand::ProgramChange { channel: 3, program: 5 });
    assert_eq!(
        sent("noteon 60 100", 3),
        MidiCommand::NoteOn { channel: 3, note: 60, velocity: 100 }
    );
    assert_eq!(sent("NoteOff 60", 3), MidiCommand::NoteOff { channel: 3, note: 60 });
}

#[test]
fn words_without_arguments() {
    assert!(matches!(parse_line("help", 1), Input::Help));
    assert!(matches!(parse_line("LIST", 1), Input::List));
    assert!(matches!(parse_line(" exit ", 1), Input::Exit));
}

#[test]
fn blank_lines() {
    assert!(matches!(parse_line("", 1), Input::Blank));
    assert!(matches!(parse_line("   \t \r\n", 1), Input::Blank));
    assert!(matches!(parse_line("\u{2003}\u{a0}", 1), Input::Blank));
}

#[test]
fn too_few_arguments() {
    assert!(matches!(parse_line("cc", 1), Input::Usage(Verb::ControlChange)));
    assert!(matches!(parse_line("cc 1", 1), Input::Usage(Verb::ControlChange)));
    assert!(matches!(parse_line("pc", 1), Input::Usage(Verb::ProgramChange)));
    assert!(matches!(parse_line("noteon 60", 1), Input::Usage(Verb::NoteOn)));
    assert!(matches!(parse_line("noteoff", 1), Input::Usage(Verb::NoteOff)));
}

#[test]
fn arguments_that_are_not_numbers() {
    assert!(matches!(parse_line("cc x 1", 1), Input::NotNumbers(Verb::ControlChange)));
    assert!(matches!(parse_line("cc 1 256", 1), Input::NotNumbers(Verb::ControlChange)));
    assert!(matches!(parse_line("cc -1 2", 1), Input::NotNumbers(Verb::ControlChange)));
    assert!(matches!(parse_line("pc 1.5", 1), Input::NotNumbers(Verb::ProgramChange)));
    assert!(matches!(parse_line("noteon 60 0x40", 1), Input::NotNumbers(Verb::NoteOn)));
    assert!(matches!(parse_line("noteoff +", 1), Input::NotNumbers(Verb::NoteOff)));
}

#[test]
fn unknown_words_come_back_in_lower_case() {
    match parse_line("Frobnicate 1 2", 1) {
        Input::Unknown(word) => assert_eq!(word, "frobnicate"),
        other => panic!("{:?}", other),
    }
    match parse_line("ÄRGER", 1) {
        Input::Unknown(word) => assert_eq!(word, "ärger"),
        other => panic!("{:?}", other),
    }
    assert!(matches!(parse_line("cc1 2", 1), Input::Unknown(_)));
}

#[test]
fn words_are_split_as_the_standard_library_splits_them() {
    let lines = [
        "",
        " ",
        "a",
        " a",
        "a ",
        "cc 74 100",
        "  cc\t74\u{2003}100\r\n",
        "héllo wörld",
        "\u{a0}x\u{a0}y",
        "one  two   three    ",
        "\u{1F600} smile",
    ];
    for line in lines {
        let expected: Vec<String> = line.split_whitespace().map(|w| w.to_string()).collect();
        assert_eq!(split_words(line), expected, "{:?}", line);
    }
}

#[test]
fn numbers_are_read_as_the_standard_library_reads_them() {
    let alphabet = ['0', '1', '2', '5', '9', '+', '-', ' ', 'a', '٣'];
    let mut texts: Vec<String> = vec![String::new()];
    let mut last: Vec<String> = vec![String::new()];
    for _ in 0..4 {
        let mut next: Vec<String> = Vec::new();
        for text in &last {
            for c in alphabet {
                let mut longer = text.clone();
                longer.push(c);
                next.push(longer);
            }
        }
        texts.extend(next.iter().cloned());
        last = next;
    }
    for n in 0u32..=1000 {
        texts.push(n.to_string());
        texts.push(format!("+{}", n));
        texts.push(format!("00{}", n));
    }
    texts.push("0000000000000000000000000000000255".to_string());
    texts.push("0000000000000000000000000000000256".to_string());
    texts.push("99999999999999999999999999999999999999".to_string());
    for text in &texts {
        assert_eq!(parse_number(text), text.parse::<u8>().ok(), "{:?}", text);
    }
}

#[test]
fn numbers_with_exact_values() {
    assert_eq!(parse_number("0"), Some(0));
    assert_eq!(parse_number("007"), Some(7));
    assert_eq!(parse_number("+127"), Some(127));
    assert_eq!(parse_number("255"), Some(255));
    assert_eq!(parse_number("256"), None);
    assert_eq!(parse_number(""), None);
    assert_eq!(parse_number("+"), None);
    assert_eq!(parse_number("12a"), None);
}

#[test]
fn digits_are_the_ten_ascii_digits() {
    for (value, c) in ('0'..='9').enumerate() {
        assert_eq!(digit_of(c), Some(value as u8));
    }
    assert_eq!(digit_of('a'), None);
    assert_eq!(digit_of('/'), None);
    assert_eq!(digit_of(':'), None);
    assert_eq!(digit_of('٣'), None);
}

#[test]
fn interpret_takes_the_verb_as_it_is() {
    let words: Vec<String> = vec!["CC".to_string(), "1".to_string(), "2".to_string()];
    assert!(matches!(
        interpret("cc", &words, 4),
        Input::Send(MidiCommand::ControlChange { channel: 4, controller: 1, value: 2 })
    ));
    match interpret("CC", &words, 4) {
        Input::Unknown(word) => assert_eq!(word, "CC"),
        other => panic!("{:?}", other),
    }
}
