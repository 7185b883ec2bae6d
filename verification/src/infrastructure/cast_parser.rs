//! The recording decoder: from the event lines of a terminal session
//! recording to the sequence of keys that were pressed.
//!
//! A recording is a text of lines. The first line is a header; every other
//! line that is not blank is a JSON array `[timestamp, event_type, data]`.
//! Only input events (`event_type` is `"i"`) carry keys.

use vstd::prelude::*;
use vstd::string::*;
use crate::domain::key_sequence::KeySequence;
use crate::text::{
    chars_of, hex_digit, hex_digit_char, is_blank, is_blank_line, join_with_spaces, lines_of, push_char, same_text,
    split_lines, texts_of,
};

verus! {

/// One line of a recording, as far as the decoder reads it.
#[derive(Debug)]
pub enum EventLine {
    /// The line is not valid JSON.
    Invalid,
    /// The line is valid JSON, but not an array.
    NotArray,
    /// The line is an array; each element is given by its text where it is a
    /// string, and by nothing where it is anything else.
    Fields(Vec<Option<String>>),
}

/// The mathematical content of an [`EventLine`].
pub enum EventLineView {
    Invalid,
    NotArray,
    Fields(Seq<Option<Seq<char>>>),
}

/// Why a line of a recording is no event.
#[derive(Debug, Clone, Copy, PartialEq, Eq, Structural)]
pub enum ParseError {
    /// The line is not valid JSON.
    InvalidJson,
    /// The line is valid JSON, but not an array.
    NotAnArray,
    /// The event type is not a string.
    EventTypeNotText,
    /// The data of an input event are not a string.
    DataNotText,
}

/// The content of an optional string.
pub open spec fn field_text(field: Option<String>) -> Option<Seq<char>> {
    match field {
        Some(s) => Some(s@),
        None => None,
    }
}

impl View for EventLine {
    type V = EventLineView;

    open spec fn view(&self) -> EventLineView {
        match self {
            EventLine::Invalid => EventLineView::Invalid,
            EventLine::NotArray => EventLineView::NotArray,
            EventLine::Fields(fields) => EventLineView::Fields(
                fields@.map_values(|f: Option<String>| field_text(f)),
            ),
        }
    }
}

/// What `serde_json` makes of a line: whether it is valid JSON, whether it is
/// an array, and which of its elements are strings with which text.
pub uninterp spec fn json_event_line(line: Seq<char>) -> EventLineView;

/// Reads one line as JSON.
///
/// Calls `serde_json::from_str` for a `serde_json::Value` and tells the three
/// outcomes apart; of an array it keeps, element by element, what
/// `Value::as_str` gives. The result depends on the text of the line alone.
#[verifier::external_body]
fn read_event_line(line: &str) -> (event: EventLine)
    ensures
        event@ == json_event_line(line@),
{
    match serde_json::from_str::<serde_json::Value>(line) {
        Ok(serde_json::Value::Array(items)) => EventLine::Fields(
            items.iter().map(|item| item.as_str().map(String::from)).collect(),
        ),
        Ok(_) => EventLine::NotArray,
        Err(_) => EventLine::Invalid,
    }
}

/// The escape character.
pub const ESC: char = '\x1b';

/// Whether a character is an ASCII control character.
pub open spec fn is_ascii_control(c: char) -> bool {
    (c as u32) < 32 || c as u32 == 127
}

/// Whether a character is an ASCII letter or digit.
pub open spec fn is_ascii_alphanumeric(c: char) -> bool {
    ('0' <= c <= '9') || ('a' <= c <= 'z') || ('A' <= c <= 'Z')
}

/// The name of the key that sends a single character: `Enter` for line feed
/// and carriage return, `Esc`, `Space`, `Tab`, `Backspace` for DEL,
/// `Ctrl-<letter>` for the other characters from 1 to 26, `<0xNN>` for the
/// remaining control characters, and the character itself for all others.
pub open spec fn key_name(c: char) -> Seq<char> {
    if c == '\n' || c == '\r' {
        "Enter"@
    } else if c == ESC {
        "Esc"@
    } else if c == ' ' {
        "Space"@
    } else if c == '\t' {
        "Tab"@
    } else if c as u32 == 127 {
        "Backspace"@
    } else if 1 <= c as u32 <= 26 {
        "Ctrl-"@.push(((c as u32 - 1 + 97) as u8) as char)
    } else if is_ascii_control(c) {
        "<0x"@.push(hex_digit((c as u32 / 16) as nat)).push(hex_digit((c as u32 % 16) as nat)).push(
            '>',
        )
    } else {
        seq![c]
    }
}

/// The key names of the characters of `data`, joined with spaces.
pub open spec fn spelled_out(data: Seq<char>) -> Seq<char> {
    join_with_spaces(data.map_values(|c: char| key_name(c)))
}

/// The name of the key that sends the escape sequence `data`, where it is one
/// of the known sequences.
pub open spec fn known_sequence(data: Seq<char>) -> Option<Seq<char>> {
    if data == "\x1b[A"@ {
        Some("Up"@)
    } else if data == "\x1b[B"@ {
        Some("Down"@)
    } else if data == "\x1b[C"@ {
        Some("Right"@)
    } else if data == "\x1b[D"@ {
        Some("Left"@)
    } else if data == "\x1b[H"@ {
        Some("Home"@)
    } else if data == "\x1b[F"@ {
        Some("End"@)
    } else if data == "\x1b[3~"@ {
        Some("Delete"@)
    } else if data == "\x1b[2~"@ {
        Some("Insert"@)
    } else if data == "\x1b[5~"@ {
        Some("PageUp"@)
    } else if data == "\x1b[6~"@ {
        Some("PageDown"@)
    } else {
        None
    }
}

/// The token for input data of more than one character: where the data start
/// with the escape character, the name of a known sequence, or `Alt-<char>`
/// for the escape character and one ASCII letter or digit; in every other
/// case the key names of all characters, joined with spaces into one token.
pub open spec fn escape_sequence_name(data: Seq<char>) -> Seq<char> {
    if data.len() > 0 && data[0] == ESC {
        if data.len() == 1 {
            "Esc"@
        } else if known_sequence(data) is Some {
            known_sequence(data)->0
        } else if data.len() == 2 && is_ascii_alphanumeric(data[1]) {
            "Alt-"@.push(data[1])
        } else {
            spelled_out(data)
        }
    } else {
        spelled_out(data)
    }
}

/// The token for the data of one input event: nothing for no data, the key
/// name for a single character, else the token of the sequence.
pub open spec fn input_token(data: Seq<char>) -> Seq<char> {
    if data.len() == 0 {
        Seq::empty()
    } else if data.len() == 1 {
        key_name(data[0])
    } else {
        escape_sequence_name(data)
    }
}

/// What one line of a recording yields: the token of an input event,
/// nothing where the line is an event of another type or an array of fewer
/// than three elements, or the reason why it is malformed.
pub open spec fn decoded_event(event: EventLineView) -> Result<Option<Seq<char>>, ParseError> {
    match event {
        EventLineView::Invalid => Err(ParseError::InvalidJson),
        EventLineView::NotArray => Err(ParseError::NotAnArray),
        EventLineView::Fields(fields) => {
            if fields.len() < 3 {
                Ok(None)
            } else if fields[1] is None {
                Err(ParseError::EventTypeNotText)
            } else if fields[1]->0 != "i"@ {
                Ok(None)
            } else if fields[2] is None {
                Err(ParseError::DataNotText)
            } else {
                Ok(Some(input_token(fields[2]->0)))
            }
        },
    }
}

/// Whether line `index` of a recording is read as an event at all: the first
/// line is the header, and blank lines are passed over.
pub open spec fn is_event_line(lines: Seq<Seq<char>>, index: int) -> bool {
    0 < index < lines.len() && !is_blank(lines[index])
}

/// The tokens of the input events among the first `upto` lines, in the order
/// of the lines.
pub open spec fn tokens_upto(lines: Seq<Seq<char>>, upto: int) -> Seq<Seq<char>>
    decreases upto,
{
    if upto <= 0 {
        Seq::empty()
    } else {
        let earlier = tokens_upto(lines, upto - 1);
        let index = upto - 1;
        if is_event_line(lines, index) {
            match decoded_event(json_event_line(lines[index])) {
                Ok(Some(token)) => earlier.push(token),
                _ => earlier,
            }
        } else {
            earlier
        }
    }
}

/// The numbers, counted from 1, of the malformed lines among the first `upto`
/// lines.
pub open spec fn malformed_upto(lines: Seq<Seq<char>>, upto: int) -> Seq<int>
    decreases upto,
{
    if upto <= 0 {
        Seq::empty()
    } else {
        let earlier = malformed_upto(lines, upto - 1);
        let index = upto - 1;
        if is_event_line(lines, index) && decoded_event(json_event_line(lines[index])) is Err {
            earlier.push(upto)
        } else {
            earlier
        }
    }
}

/// The key tokens of a recording: one for each well-formed input event, in
/// the order of the events.
pub open spec fn decoded_tokens(text: Seq<char>) -> Seq<Seq<char>> {
    tokens_upto(lines_of(text), lines_of(text).len() as int)
}

/// The numbers, counted from 1, of the malformed lines of a recording.
pub open spec fn malformed_lines(text: Seq<char>) -> Seq<int> {
    malformed_upto(lines_of(text), lines_of(text).len() as int)
}

/// Each line yields at most one token, and a malformed line none: the tokens
/// and the malformed lines together never outnumber the lines after the
/// header.
pub proof fn lemma_token_count(lines: Seq<Seq<char>>, upto: int)
    requires
        0 <= upto <= lines.len(),
    ensures
        tokens_upto(lines, upto).len() + malformed_upto(lines, upto).len() <= if upto > 0 {
            upto - 1
        } else {
            0
        },
    decreases upto,
{
    if upto > 0 {
        lemma_token_count(lines, upto - 1);
    }
}

/// The decoder of session recordings. It holds no state.
pub struct CastParser;

/// What a recording was decoded to.
#[derive(Debug)]
pub struct DecodedRecording {
    /// The keys of the well-formed input events.
    pub keys: KeySequence,
    /// The numbers, counted from 1, of the lines that were malformed and
    /// passed over.
    pub malformed_lines: Vec<usize>,
}

impl CastParser {
    /// The name of the key that sends the character `ch`.
    pub fn char_to_key_name(ch: char) -> (name: String)
        ensures
            name@ == key_name(ch),
    {
        let code: u32 = ch as u32;
        if ch == '\n' || ch == '\r' {
            "Enter".to_string()
        } else if ch == ESC {
            "Esc".to_string()
        } else if ch == ' ' {
            "Space".to_string()
        } else if ch == '\t' {
            "Tab".to_string()
        } else if code == 127 {
            "Backspace".to_string()
        } else if 1 <= code && code <= 26 {
            let mut name = "Ctrl-".to_string();
            push_char(&mut name, ((code - 1 + 97) as u8) as char);
            name
        } else if code < 32 {
            let byte: u8 = code as u8;
            let mut name = "<0x".to_string();
            push_char(&mut name, hex_digit_char(byte / 16));
            push_char(&mut name, hex_digit_char(byte % 16));
            push_char(&mut name, '>');
            name
        } else {
            let mut name = String::new();
            push_char(&mut name, ch);
            assert(name@ =~= seq![ch]);
            name
        }
    }

    /// The key names of the characters of `chars`, joined with spaces.
    fn spell_out(chars: &Vec<char>) -> (token: String)
        ensures
            token@ == spelled_out(chars@),
    {
        let ghost names = chars@.map_values(|c: char| key_name(c));
        let mut token = String::new();
        let mut i: usize = 0;
        proof {
            assert(join_with_spaces(names.take(0)) =~= Seq::empty());
        }
        while i < chars.len()
            invariant
                0 <= i <= chars.len(),
                names == chars@.map_values(|c: char| key_name(c)),
                token@ == join_with_spaces(names.take(i as int)),
            decreases chars.len() - i,
        {
            if i > 0 {
                push_char(&mut token, ' ');
            }
            let name = Self::char_to_key_name(chars[i]);
            token.append(name.as_str());
            proof {
                let next = names.take(i + 1);
                assert(next.drop_last() =~= names.take(i as int));
                assert(next.last() == key_name(chars[i as int]));
                if i == 0 {
                    assert(token@ =~= next[0]);
                }
            }
            i = i + 1;
        }
        assert(names.take(i as int) =~= names);
        token
    }

    /// The name of the key that sends the escape sequence `data`, where it
    /// is one of the known sequences.
    fn known_sequence_name(data: &str) -> (name: Option<&'static str>)
        ensures
            name is Some <==> known_sequence(data@) is Some,
            name is Some ==> name->0@ == known_sequence(data@)->0,
    {
        if same_text(data, "\x1b[A") {
            Some("Up")
        } else if same_text(data, "\x1b[B") {
            Some("Down")
        } else if same_text(data, "\x1b[C") {
            Some("Right")
        } else if same_text(data, "\x1b[D") {
            Some("Left")
        } else if same_text(data, "\x1b[H") {
            Some("Home")
        } else if same_text(data, "\x1b[F") {
            Some("End")
        } else if same_text(data, "\x1b[3~") {
            Some("Delete")
        } else if same_text(data, "\x1b[2~") {
            Some("Insert")
        } else if same_text(data, "\x1b[5~") {
            Some("PageUp")
        } else if same_text(data, "\x1b[6~") {
            Some("PageDown")
        } else {
            None
        }
    }

    /// The token for input data of more than one character.
    pub fn parse_escape_sequence(data: &str) -> (token: String)
        ensures
            token@ == escape_sequence_name(data@),
    {
        let chars = chars_of(data);
        if chars.len() > 0 && chars[0] == ESC {
            if chars.len() == 1 {
                return "Esc".to_string();
            }
            if let Some(name) = Self::known_sequence_name(data) {
                return name.to_string();
            }
            if chars.len() == 2 {
                let ch = chars[1];
                if ('0' <= ch && ch <= '9') || ('a' <= ch && ch <= 'z') || ('A' <= ch && ch
                    <= 'Z') {
                    let mut token = "Alt-".to_string();
                    push_char(&mut token, ch);
                    return token;
                }
            }
        }
        Self::spell_out(&chars)
    }

    /// The token for the data of one input event.
    pub fn parse_input_data(data: &str) -> (token: String)
        ensures
            token@ == input_token(data@),
    {
        let chars = chars_of(data);
        if chars.len() == 0 {
            let token = String::new();
            assert(token@ =~= input_token(data@));
            return token;
        }
        if chars.len() > 1 {
            return Self::parse_escape_sequence(data);
        }
        Self::char_to_key_name(chars[0])
    }

    /// What a line that was read as JSON yields: the token of an input
    /// event, nothing for another event, or the reason why the line is
    /// malformed.
    pub fn decode_event(event: &EventLine) -> (decoded: Result<Option<String>, ParseError>)
        ensures
            decoded is Ok <==> decoded_event(event@) is Ok,
            decoded is Err ==> decoded_event(event@) == Err::<Option<Seq<char>>, ParseError>(
                decoded->Err_0,
            ),
            decoded is Ok ==> field_text(decoded->Ok_0) == decoded_event(event@)->Ok_0,
    {
        match event {
            EventLine::Invalid => Err(ParseError::InvalidJson),
            EventLine::NotArray => Err(ParseError::NotAnArray),
            EventLine::Fields(fields) => {
                if fields.len() < 3 {
                    return Ok(None);
                }
                let ghost views = fields@.map_values(|f: Option<String>| field_text(f));
                assert(views[1] == field_text(fields[1]));
                assert(views[2] == field_text(fields[2]));
                match &fields[1] {
                    None => Err(ParseError::EventTypeNotText),
                    Some(event_type) => {
                        if !same_text(event_type.as_str(), "i") {
                            return Ok(None);
                        }
                        match &fields[2] {
                            None => Err(ParseError::DataNotText),
                            Some(data) => Ok(Some(Self::parse_input_data(data.as_str()))),
                        }
                    },
                }
            },
        }
    }

    /// What one line of a recording yields.
    pub fn parse_event(line: &str) -> (decoded: Result<Option<String>, ParseError>)
        ensures
            decoded is Ok <==> decoded_event(json_event_line(line@)) is Ok,
            decoded is Err ==> decoded_event(json_event_line(line@)) == Err::<
                Option<Seq<char>>,
                ParseError,
            >(decoded->Err_0),
            decoded is Ok ==> field_text(decoded->Ok_0) == decoded_event(
                json_event_line(line@),
            )->Ok_0,
    {
        let event = read_event_line(line);
        Self::decode_event(&event)
    }

    /// Decodes a recording, and tells which lines were malformed. The header
    /// line and blank lines are passed over; so is every malformed line,
    /// without ending the scan; the well-formed input events give one token
    /// each, in their order.
    pub fn parse_with_warnings(contents: &str) -> (decoded: DecodedRecording)
        ensures
            decoded.keys@ == decoded_tokens(contents@),
            decoded.malformed_lines@.map_values(|n: usize| n as int) == malformed_lines(
                contents@,
            ),
    {
        let lines = split_lines(contents);
        let ghost texts = lines_of(contents@);
        let mut keys: Vec<String> = Vec::new();
        let mut malformed: Vec<usize> = Vec::new();
        let mut i: usize = 0;
        proof {
            assert(texts_of(keys@) =~= Seq::empty());
            assert(malformed@.map_values(|n: usize| n as int) =~= Seq::empty());
        }
        while i < lines.len()
            invariant
                0 <= i <= lines.len(),
                texts == lines_of(contents@),
                texts == texts_of(lines@),
                texts_of(keys@) == tokens_upto(texts, i as int),
                malformed@.map_values(|n: usize| n as int) == malformed_upto(texts, i as int),
            decreases lines.len() - i,
        {
            assert(texts[i as int] == lines[i as int]@);
            if i > 0 && !is_blank_line(lines[i].as_str()) {
                match Self::parse_event(lines[i].as_str()) {
                    Ok(Some(key)) => {
                        proof {
                            assert(texts_of(keys@.push(key)) =~= texts_of(keys@).push(key@));
                        }
                        keys.push(key);
                    },
                    Ok(None) => {},
                    Err(_) => {
                        proof {
                            assert(malformed@.push((i + 1) as usize).map_values(
                                |n: usize| n as int,
                            ) =~= malformed@.map_values(|n: usize| n as int).push(i + 1));
                        }
                        malformed.push(i + 1);
                    },
                }
            }
            i = i + 1;
        }
        DecodedRecording { keys: KeySequence::new(keys), malformed_lines: malformed }
    }

    /// Decodes a recording into the sequence of its keys.
    pub fn parse(contents: &str) -> (keys: KeySequence)
        ensures
            keys@ == decoded_tokens(contents@),
    {
        Self::parse_with_warnings(contents).keys
    }
}

} // verus!
