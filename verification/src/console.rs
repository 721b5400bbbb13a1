//! The lines that a person types at the console, and what they mean.
//!
//! A line is a verb and its arguments, separated by whitespace. The verb is
//! read without regard to case. The arguments are numbers from 0 to 255,
//! written in decimal; whether a number suits the field that it is meant for
//! is for the dispatcher to say.
use crate::command::MidiCommand;
use crate::midi_map::{decimal, digit};
use crate::text::{same_text, texts};
use vstd::prelude::*;
use vstd::string::{StrSliceExecFns, StringExecFns};

verus! {

/// The verbs that take arguments.
#[derive(Clone, Copy, Debug, PartialEq, Eq, Structural)]
pub enum Verb {
    ControlChange,
    ProgramChange,
    NoteOn,
    NoteOff,
}

/// What a line asks for.
#[derive(Clone, Debug)]
pub enum Input {
    /// The line holds nothing but whitespace.
    Blank,
    /// The list of verbs is asked for.
    Help,
    /// The list of controllers is asked for.
    List,
    /// The session is to end.
    Exit,
    /// A command is to be enqueued.
    Send(MidiCommand),
    /// The verb has too few arguments.
    Usage(Verb),
    /// An argument of the verb is not a number.
    NotNumbers(Verb),
    /// The verb, here in lower case, is not one of the console's.
    Unknown(String),
}

/// What a line asks for, as contracts see it.
pub enum Meaning {
    Blank,
    Help,
    List,
    Exit,
    Send(MidiCommand),
    Usage(Verb),
    NotNumbers(Verb),
    Unknown(Seq<char>),
}

impl View for Input {
    type V = Meaning;

    open spec fn view(&self) -> Meaning {
        match *self {
            Input::Blank => Meaning::Blank,
            Input::Help => Meaning::Help,
            Input::List => Meaning::List,
            Input::Exit => Meaning::Exit,
            Input::Send(command) => Meaning::Send(command),
            Input::Usage(verb) => Meaning::Usage(verb),
            Input::NotNumbers(verb) => Meaning::NotNumbers(verb),
            Input::Unknown(word) => Meaning::Unknown(word@),
        }
    }
}

/// Whether `c` is whitespace, as Unicode defines it.
pub uninterp spec fn is_space(c: char) -> bool;

/// `text` in lower case, as Unicode defines it.
pub uninterp spec fn lowercase(text: Seq<char>) -> Seq<char>;

/// `char::is_whitespace` of the standard library: whether the character has
/// the Unicode property White_Space. The answer depends on the character
/// alone; [`is_space`] is the name for it.
#[verifier::external_body]
fn is_whitespace(c: char) -> (space: bool)
    ensures
        space == is_space(c),
{
    c.is_whitespace()
}

/// `str::to_lowercase` of the standard library: the text with each character
/// replaced by its lower case, as the Unicode property Lowercase defines it.
/// The result depends on the text alone; [`lowercase`] is the name for it.
#[verifier::external_body]
fn to_lowercase(text: &str) -> (lower: String)
    ensures
        lower@ == lowercase(text@),
{
    text.to_lowercase()
}

/// The length of the word that `text` begins with: the number of characters
/// before the first whitespace.
pub open spec fn word_len(text: Seq<char>) -> nat
    decreases text.len(),
{
    if text.len() == 0 || is_space(text[0]) {
        0
    } else {
        1 + word_len(text.drop_first())
    }
}

/// The words of a line: its longest runs of characters that are not
/// whitespace, from left to right.
pub open spec fn words_of(text: Seq<char>) -> Seq<Seq<char>>
    decreases text.len(),
    via words_of_decreases
{
    if text.len() == 0 {
        Seq::empty()
    } else if is_space(text[0]) {
        words_of(text.drop_first())
    } else {
        seq![text.take(word_len(text) as int)] + words_of(text.skip(word_len(text) as int))
    }
}

#[via_fn]
proof fn words_of_decreases(text: Seq<char>) {
    lemma_word_len_bounds(text);
}

/// A word is no longer than the text that it begins, and is not empty if the
/// text begins with a character that is not whitespace.
pub proof fn lemma_word_len_bounds(text: Seq<char>)
    ensures
        word_len(text) <= text.len(),
        text.len() > 0 && !is_space(text[0]) ==> word_len(text) >= 1,
    decreases text.len(),
{
    if text.len() > 0 && !is_space(text[0]) {
        lemma_word_len_bounds(text.drop_first());
    }
}

/// The value of a decimal digit.
pub open spec fn digit_value(c: char) -> Option<nat> {
    if c == '0' {
        Some(0)
    } else if c == '1' {
        Some(1)
    } else if c == '2' {
        Some(2)
    } else if c == '3' {
        Some(3)
    } else if c == '4' {
        Some(4)
    } else if c == '5' {
        Some(5)
    } else if c == '6' {
        Some(6)
    } else if c == '7' {
        Some(7)
    } else if c == '8' {
        Some(8)
    } else if c == '9' {
        Some(9)
    } else {
        None
    }
}

/// The value of a run of decimal digits, the most significant first; none if
/// a character of the run is no digit.
pub open spec fn digits_value(digits: Seq<char>) -> Option<nat>
    decreases digits.len(),
{
    if digits.len() == 0 {
        Some(0)
    } else {
        match (digits_value(digits.drop_last()), digit_value(digits.last())) {
            (Some(high), Some(low)) => Some(10 * high + low),
            _ => None,
        }
    }
}

/// The number that `text` writes: an optional plus sign and then one decimal
/// digit or more, with a value of 255 at most.
pub open spec fn number(text: Seq<char>) -> Option<u8> {
    let digits = if text.len() > 0 && text[0] == '+' {
        text.drop_first()
    } else {
        text
    };
    if digits.len() == 0 {
        None
    } else {
        match digits_value(digits) {
            Some(value) => if value <= 255 {
                Some(value as u8)
            } else {
                None
            },
            None => None,
        }
    }
}

/// What `verb`, which is in lower case, asks for with the words of its line.
/// The first of `words` is the verb as it was typed; the arguments follow it.
pub open spec fn meaning(verb: Seq<char>, words: Seq<Seq<char>>, channel: u8) -> Meaning {
    if verb == "help"@ {
        Meaning::Help
    } else if verb == "cc"@ {
        if words.len() < 3 {
            Meaning::Usage(Verb::ControlChange)
        } else {
            match (number(words[1]), number(words[2])) {
                (Some(controller), Some(value)) => Meaning::Send(
                    MidiCommand::ControlChange { channel, controller, value },
                ),
                _ => Meaning::NotNumbers(Verb::ControlChange),
            }
        }
    } else if verb == "start"@ {
        Meaning::Send(MidiCommand::Start)
    } else if verb == "stop"@ {
        Meaning::Send(MidiCommand::Stop)
    } else if verb == "continue"@ {
        Meaning::Send(MidiCommand::Continue)
    } else if verb == "pc"@ {
        if words.len() < 2 {
            Meaning::Usage(Verb::ProgramChange)
        } else {
            match number(words[1]) {
                Some(program) => Meaning::Send(MidiCommand::ProgramChange { channel, program }),
                None => Meaning::NotNumbers(Verb::ProgramChange),
            }
        }
    } else if verb == "noteon"@ {
        if words.len() < 3 {
            Meaning::Usage(Verb::NoteOn)
        } else {
            match (number(words[1]), number(words[2])) {
                (Some(note), Some(velocity)) => Meaning::Send(
                    MidiCommand::NoteOn { channel, note, velocity },
                ),
                _ => Meaning::NotNumbers(Verb::NoteOn),
            }
        }
    } else if verb == "noteoff"@ {
        if words.len() < 2 {
            Meaning::Usage(Verb::NoteOff)
        } else {
            match number(words[1]) {
                Some(note) => Meaning::Send(MidiCommand::NoteOff { channel, note }),
                None => Meaning::NotNumbers(Verb::NoteOff),
            }
        }
    } else if verb == "list"@ {
        Meaning::List
    } else if verb == "exit"@ {
        Meaning::Exit
    } else {
        Meaning::Unknown(verb)
    }
}

/// What a line asks for: nothing if it has no words, and else what its first
/// word, in lower case, asks for with the others.
pub open spec fn line_meaning(line: Seq<char>, channel: u8) -> Meaning {
    let words = words_of(line);
    if words.len() == 0 {
        Meaning::Blank
    } else {
        meaning(lowercase(words[0]), words, channel)
    }
}

/// Reads a decimal digit.
pub fn digit_of(c: char) -> (value: Option<u8>)
    ensures
        value is Some <==> digit_value(c) is Some,
        value matches Some(v) ==> digit_value(c) == Some(v as nat),
{
    match c {
        '0' => Some(0),
        '1' => Some(1),
        '2' => Some(2),
        '3' => Some(3),
        '4' => Some(4),
        '5' => Some(5),
        '6' => Some(6),
        '7' => Some(7),
        '8' => Some(8),
        '9' => Some(9),
        _ => None,
    }
}

/// Reads a number from 0 to 255.
pub fn parse_number(text: &str) -> (value: Option<u8>)
    ensures
        value == number(text@),
{
    let len: usize = text.unicode_len();
    let first: usize = if len > 0 && text.get_char(0) == '+' {
        1
    } else {
        0
    };
    if first == len {
        return None;
    }
    let ghost digits = text@.subrange(first as int, len as int);
    assert(digits =~= (if text@[0] == '+' {
        text@.drop_first()
    } else {
        text@
    }));
    let mut sum: u16 = 0;
    let mut i: usize = first;
    assert(digits.take(0) =~= Seq::<char>::empty());
    while i < len
        invariant
            first <= i <= len,
            len == text@.len(),
            digits == text@.subrange(first as int, len as int),
            digits == (if text@[0] == '+' {
                text@.drop_first()
            } else {
                text@
            }),
            sum <= 256,
            digits_value(digits.take(i - first)) matches Some(value) && sum == (if value > 255 {
                256
            } else {
                value
            }),
        decreases len - i,
    {
        let ghost seen = digits.take(i - first);
        let ghost more = digits.take(i + 1 - first);
        assert(more.drop_last() =~= seen);
        assert(more.last() == text@[i as int]);
        match digit_of(text.get_char(i)) {
            Some(low) => {
                if sum <= 255 {
                    sum = 10 * sum + (low as u16);
                    if sum > 255 {
                        sum = 256;
                    }
                }
            },
            None => {
                proof {
                    lemma_digits_value_prefix(digits, i + 1 - first);
                }
                return None;
            },
        }
        i = i + 1;
    }
    assert(digits.take(len - first) =~= digits);
    if sum <= 255 {
        Some(sum as u8)
    } else {
        None
    }
}

/// A run of digits has a value only if each run that it begins with has one.
proof fn lemma_digits_value_prefix(digits: Seq<char>, len: int)
    requires
        0 <= len <= digits.len(),
        digits_value(digits.take(len)) is None,
    ensures
        digits_value(digits) is None,
    decreases digits.len(),
{
    if len < digits.len() {
        assert(digits.drop_last().take(len) =~= digits.take(len));
        lemma_digits_value_prefix(digits.drop_last(), len);
    } else {
        assert(digits.take(len) =~= digits);
    }
}

/// A text that begins with `len` characters that are not whitespace, and then
/// ends or goes on with whitespace, begins with a word of that length.
proof fn lemma_word_len(text: Seq<char>, len: int)
    requires
        0 <= len <= text.len(),
        forall|k: int| 0 <= k < len ==> !is_space(#[trigger] text[k]),
        len == text.len() || is_space(text[len]),
    ensures
        word_len(text) == len,
    decreases len,
{
    if len > 0 {
        let rest = text.drop_first();
        assert forall|k: int| 0 <= k < len - 1 implies !is_space(#[trigger] rest[k]) by {
            assert(rest[k] == text[k + 1]);
        }
        lemma_word_len(rest, len - 1);
    }
}

/// Splits a line into its words.
pub fn split_words(line: &str) -> (words: Vec<String>)
    ensures
        texts(words@) == words_of(line@),
{
    let len: usize = line.unicode_len();
    let mut words: Vec<String> = Vec::new();
    let mut i: usize = 0;
    assert(line@.skip(0) =~= line@);
    assert(texts(words@) + words_of(line@) =~= words_of(line@));
    while i < len
        invariant
            i <= len,
            len == line@.len(),
            texts(words@) + words_of(line@.skip(i as int)) == words_of(line@),
        decreases len - i,
    {
        let ghost rest = line@.skip(i as int);
        if is_whitespace(line.get_char(i)) {
            assert(rest.drop_first() =~= line@.skip(i + 1));
            i = i + 1;
        } else {
            let mut end: usize = i + 1;
            while end < len && !is_whitespace(line.get_char(end))
                invariant
                    i < end <= len,
                    len == line@.len(),
                    forall|k: int| i <= k < end ==> !is_space(#[trigger] line@[k]),
                decreases len - end,
            {
                end = end + 1;
            }
            proof {
                assert forall|k: int| 0 <= k < end - i implies !is_space(#[trigger] rest[k]) by {
                    assert(rest[k] == line@[i + k]);
                }
                lemma_word_len(rest, end - i);
                assert(rest.take(end - i) =~= line@.subrange(i as int, end as int));
                assert(rest.skip(end - i) =~= line@.skip(end as int));
            }
            let ghost before = words@;
            words.push(String::from_str(line.substring_char(i, end)));
            assert(texts(words@) =~= texts(before).push(line@.subrange(i as int, end as int)));
            assert(texts(words@) + words_of(line@.skip(end as int)) =~= texts(before) + words_of(
                rest,
            ));
            i = end;
        }
    }
    assert(words_of(line@.skip(len as int)) =~= Seq::<Seq<char>>::empty());
    assert(texts(words@) + Seq::<Seq<char>>::empty() =~= texts(words@));
    words
}

/// Says what `verb`, which is in lower case, asks for with the words of its
/// line. The first of `words` is the verb as it was typed; the arguments
/// follow it. `channel` is the channel that messages are addressed to.
pub fn interpret(verb: &str, words: &Vec<String>, channel: u8) -> (input: Input)
    ensures
        input@ == meaning(verb@, texts(words@), channel),
{
    let count: usize = words.len();
    proof {
        assert forall|k: int| 0 <= k < count implies #[trigger] texts(words@)[k] == words@[k]@ by {}
    }
    if same_text(verb, "help") {
        Input::Help
    } else if same_text(verb, "cc") {
        if count < 3 {
            Input::Usage(Verb::ControlChange)
        } else {
            match (parse_number(words[1].as_str()), parse_number(words[2].as_str())) {
                (Some(controller), Some(value)) => Input::Send(
                    MidiCommand::ControlChange { channel, controller, value },
                ),
                _ => Input::NotNumbers(Verb::ControlChange),
            }
        }
    } else if same_text(verb, "start") {
        Input::Send(MidiCommand::Start)
    } else if same_text(verb, "stop") {
        Input::Send(MidiCommand::Stop)
    } else if same_text(verb, "continue") {
        Input::Send(MidiCommand::Continue)
    } else if same_text(verb, "pc") {
        if count < 2 {
            Input::Usage(Verb::ProgramChange)
        } else {
            match parse_number(words[1].as_str()) {
                Some(program) => Input::Send(MidiCommand::ProgramChange { channel, program }),
                None => Input::NotNumbers(Verb::ProgramChange),
            }
        }
    } else if same_text(verb, "noteon") {
        if count < 3 {
            Input::Usage(Verb::NoteOn)
        } else {
            match (parse_number(words[1].as_str()), parse_number(words[2].as_str())) {
                (Some(note), Some(velocity)) => Input::Send(
                    MidiCommand::NoteOn { channel, note, velocity },
                ),
                _ => Input::NotNumbers(Verb::NoteOn),
            }
        }
    } else if same_text(verb, "noteoff") {
        if count < 2 {
            Input::Usage(Verb::NoteOff)
        } else {
            match parse_number(words[1].as_str()) {
                Some(note) => Input::Send(MidiCommand::NoteOff { channel, note }),
                None => Input::NotNumbers(Verb::NoteOff),
            }
        }
    } else if same_text(verb, "list") {
        Input::List
    } else if same_text(verb, "exit") {
        Input::Exit
    } else {
        Input::Unknown(String::from_str(verb))
    }
}

/// Says what a line asks for.
pub fn parse_line(line: &str, channel: u8) -> (input: Input)
    ensures
        input@ == line_meaning(line@, channel),
{
    let words = split_words(line);
    if words.len() == 0 {
        return Input::Blank;
    }
    assert(texts(words@)[0] == words@[0]@);
    let verb = to_lowercase(words[0].as_str());
    interpret(verb.as_str(), &words, channel)
}

/// A word is not empty and holds no whitespace, and a line has no words if
/// and only if it holds nothing but whitespace.
pub proof fn lemma_words_hold_no_space(text: Seq<char>)
    ensures
        forall|i: int|
            0 <= i < words_of(text).len() ==> (#[trigger] words_of(text)[i]).len() > 0,
        forall|i: int, k: int|
            0 <= i < words_of(text).len() && 0 <= k < words_of(text)[i].len() ==> !is_space(
                #[trigger] words_of(text)[i][k],
            ),
        words_of(text).len() == 0 <==> forall|k: int|
            0 <= k < text.len() ==> is_space(#[trigger] text[k]),
    decreases text.len(),
{
    if text.len() == 0 {
    } else if is_space(text[0]) {
        let rest = text.drop_first();
        lemma_words_hold_no_space(rest);
        if words_of(text).len() == 0 {
            assert forall|k: int| 0 <= k < text.len() implies is_space(#[trigger] text[k]) by {
                if k > 0 {
                    assert(rest[k - 1] == text[k]);
                }
            }
        } else {
            let k = choose|k: int| 0 <= k < rest.len() && !is_space(#[trigger] rest[k]);
            assert(text[k + 1] == rest[k]);
        }
    } else {
        let len = word_len(text) as int;
        let word = text.take(len);
        let rest = text.skip(len);
        lemma_word_len_bounds(text);
        lemma_word_has_no_space(text);
        lemma_words_hold_no_space(rest);
        assert forall|i: int| 0 <= i < words_of(text).len() implies (#[trigger] words_of(
            text,
        )[i]).len() > 0 by {
            if i > 0 {
                assert(words_of(text)[i] == words_of(rest)[i - 1]);
            }
        }
        assert forall|i: int, k: int|
            0 <= i < words_of(text).len() && 0 <= k < words_of(text)[i].len() implies !is_space(
            #[trigger] words_of(text)[i][k],
        ) by {
            if i > 0 {
                assert(words_of(text)[i] == words_of(rest)[i - 1]);
            } else {
                assert(words_of(text)[0] == word);
            }
        }
    }
}

/// The word that a text begins with holds no whitespace.
proof fn lemma_word_has_no_space(text: Seq<char>)
    ensures
        forall|k: int| 0 <= k < word_len(text) ==> !is_space(#[trigger] text[k]),
    decreases text.len(),
{
    if text.len() > 0 && !is_space(text[0]) {
        let rest = text.drop_first();
        lemma_word_has_no_space(rest);
        lemma_word_len_bounds(rest);
        assert forall|k: int| 0 <= k < word_len(text) implies !is_space(#[trigger] text[k]) by {
            if k > 0 {
                assert(rest[k - 1] == text[k]);
            }
        }
    }
}

/// A number that is written out in decimal is read back as itself.
pub proof fn lemma_decimal_is_read_back(n: nat)
    requires
        n <= 255,
    ensures
        number(decimal(n)) == Some(n as u8),
{
    lemma_decimal_has_its_value(n);
}

/// The decimal form of a number is a run of digits with the number's value,
/// and it does not begin with a sign.
proof fn lemma_decimal_has_its_value(n: nat)
    ensures
        decimal(n).len() > 0,
        decimal(n)[0] != '+',
        digits_value(decimal(n)) == Some(n),
    decreases n,
{
    assert(digit_value(digit(n % 10)) == Some(n % 10));
    if n < 10 {
        assert(decimal(n).drop_last() =~= Seq::<char>::empty());
        assert(decimal(n).last() == digit(n));
        assert(digits_value(decimal(n).drop_last()) == Some(0nat));
    } else {
        lemma_decimal_has_its_value(n / 10);
        assert(decimal(n).drop_last() =~= decimal(n / 10));
        assert(decimal(n).last() == digit(n % 10));
    }
}

} // verus!
