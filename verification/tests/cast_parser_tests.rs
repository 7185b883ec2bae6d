use editor_dojo::infrastructure::cast_parser::{CastParser, EventLine, ParseError};

#[test]
fn test_char_to_key_name() {
    assert_eq!(CastParser::char_to_key_name('a'), "a");
    assert_eq!(CastParser::char_to_key_name('Z'), "Z");
    assert_eq!(CastParser::char_to_key_name('1'), "1");
    assert_eq!(CastParser::char_to_key_name('\n'), "Enter");
    assert_eq!(CastParser::char_to_key_name('\r'), "Enter");
    assert_eq!(CastParser::char_to_key_name('\x1b'), "Esc");
    assert_eq!(CastParser::char_to_key_name(' '), "Space");
    assert_eq!(CastParser::char_to_key_name('\t'), "Tab");
    assert_eq!(CastParser::char_to_key_name('\x7f'), "Backspace");
    assert_eq!(CastParser::char_to_key_name('\x03'), "Ctrl-c");
    assert_eq!(CastParser::char_to_key_name('\x04'), "Ctrl-d");
}

#[test]
fn test_parse_escape_sequences() {
    assert_eq!(CastParser::parse_escape_sequence("\x1b[A"), "Up");
    assert_eq!(CastParser::parse_escape_sequence("\x1b[B"), "Down");
    assert_eq!(CastParser::parse_escape_sequence("\x1b[C"), "Right");
    assert_eq!(CastParser::parse_escape_sequence("\x1b[D"), "Left");
    assert_eq!(CastParser::parse_escape_sequence("\x1b[3~"), "Delete");
    assert_eq!(CastParser::parse_escape_sequence("\x1ba"), "Alt-a");
    assert_eq!(CastParser::parse_escape_sequence("\x1bf"), "Alt-f");
}

#[test]
fn test_parse_input_data() {
    assert_eq!(CastParser::parse_input_data("w"), "w");
    assert_eq!(CastParser::parse_input_data("d"), "d");
    assert_eq!(CastParser::parse_input_data(":"), ":");
    assert_eq!(CastParser::parse_input_data("\n"), "Enter");
    assert_eq!(CastParser::parse_input_data("\x1b"), "Esc");
    assert_eq!(CastParser::parse_input_data("\x1b[A"), "Up");
}

#[test]
fn control_characters_by_name_or_number() {
    assert_eq!(CastParser::char_to_key_name('\x01'), "Ctrl-a");
    assert_eq!(CastParser::char_to_key_name('\x1a'), "Ctrl-z");
    assert_eq!(CastParser::char_to_key_name('\x08'), "Ctrl-h");
    assert_eq!(CastParser::char_to_key_name('\x00'), "<0x00>");
    assert_eq!(CastParser::char_to_key_name('\x1c'), "<0x1c>");
    assert_eq!(CastParser::char_to_key_name('\x1f'), "<0x1f>");
    assert_eq!(CastParser::char_to_key_name('é'), "é");
    assert_eq!(CastParser::char_to_key_name('\u{80}'), "\u{80}");
}

#[test]
fn all_known_escape_sequences() {
    assert_eq!(CastParser::parse_escape_sequence("\x1b[H"), "Home");
    assert_eq!(CastParser::parse_escape_sequence("\x1b[F"), "End");
    assert_eq!(CastParser::parse_escape_sequence("\x1b[2~"), "Insert");
    assert_eq!(CastParser::parse_escape_sequence("\x1b[5~"), "PageUp");
    assert_eq!(CastParser::parse_escape_sequence("\x1b[6~"), "PageDown");
    assert_eq!(CastParser::parse_escape_sequence("\x1b9"), "Alt-9");
    assert_eq!(CastParser::parse_escape_sequence("\x1bQ"), "Alt-Q");
    assert_eq!(CastParser::parse_escape_sequence("\x1b"), "Esc");
}

#[test]
fn unknown_sequences_are_spelled_out_as_one_token() {
    assert_eq!(CastParser::parse_escape_sequence("\x1b[Z"), "Esc [ Z");
    assert_eq!(CastParser::parse_escape_sequence("\x1b-"), "Esc -");
    assert_eq!(CastParser::parse_escape_sequence("\x1bé"), "Esc é");
    assert_eq!(CastParser::parse_escape_sequence("dw"), "d w");
    assert_eq!(CastParser::parse_escape_sequence("a\x1b[A"), "a Esc [ A");
    assert_eq!(CastParser::parse_input_data("d w\n"), "d Space w Enter");
    assert_eq!(CastParser::parse_input_data("é"), "é");
    assert_eq!(CastParser::parse_input_data(""), "");
}

#[test]
fn events_by_line() {
    assert_eq!(CastParser::parse_event("[0.5, \"i\", \"w\"]"), Ok(Some("w".to_string())));
    assert_eq!(CastParser::parse_event("[0.5, \"o\", \"w\"]"), Ok(None));
    assert_eq!(CastParser::parse_event("[0.5, \"i\"]"), Ok(None));
    assert_eq!(CastParser::parse_event("[]"), Ok(None));
    assert_eq!(
        CastParser::parse_event("[0.5, \"i\", \"\\u001b[A\", \"more\"]"),
        Ok(Some("Up".to_string()))
    );
    assert_eq!(CastParser::parse_event("not json"), Err(ParseError::InvalidJson));
    assert_eq!(CastParser::parse_event("{\"a\": 1}"), Err(ParseError::NotAnArray));
    assert_eq!(CastParser::parse_event("[0.5, 7, \"w\"]"), Err(ParseError::EventTypeNotText));
    assert_eq!(CastParser::parse_event("[0.5, \"i\", 7]"), Err(ParseError::DataNotText));
    assert_eq!(CastParser::parse_event("[0.5, \"o\", 7]"), Ok(None));
}

#[test]
fn events_that_were_read_already() {
    let text = |s: &str| Some(s.to_string());
    assert_eq!(CastParser::decode_event(&EventLine::Invalid), Err(ParseError::InvalidJson));
    assert_eq!(CastParser::decode_event(&EventLine::NotArray), Err(ParseError::NotAnArray));
    assert_eq!(
        CastParser::decode_event(&EventLine::Fields(vec![None, text("i"), text("\r")])),
        Ok(Some("Enter".to_string()))
    );
    assert_eq!(
        CastParser::decode_event(&EventLine::Fields(vec![None, text("i")])),
        Ok(None)
    );
    assert_eq!(
        CastParser::decode_event(&EventLine::Fields(vec![None, None, text("x")])),
        Err(ParseError::EventTypeNotText)
    );
    assert_eq!(
        CastParser::decode_event(&EventLine::Fields(vec![None, text("i"), None])),
        Err(ParseError::DataNotText)
    );
    assert_eq!(
        CastParser::decode_event(&EventLine::Fields(vec![None, text("o"), None])),
        Ok(None)
    );
}

#[test]
fn decoder_round_trip() {
    let cast = "{\"version\": 2, \"width\": 80}\n\
                [0.1, \"i\", \"w\"]\n\
                [0.2, \"o\", \"w\"]\n\
                [0.3, \"i\", \"d\"]\n\
                [0.4, \"i\", \":\"]\n\
                [0.5, \"i\", \"\\n\"]\n";
    let keys = CastParser::parse(cast);
    let tokens: Vec<&str> = keys.keys().iter().map(|k| k.as_str()).collect();
    assert_eq!(tokens, vec!["w", "d", ":", "Enter"]);
    assert_eq!(keys.count(), 4);
}

#[test]
fn malformed_lines_are_passed_over() {
    let cast = "[0.0, \"i\", \"header is never an event\"]\r\n\
                [0.1, \"i\", \"a\"]\r\n\
                \r\n\
                this is not json\n\
                   \n\
                [0.2, \"i\", 5]\n\
                [0.3, \"i\", \"\\u001b[3~\"]\n\
                [0.4, \"i\", \"dw\"]";
    let decoded = CastParser::parse_with_warnings(cast);
    let tokens: Vec<&str> = decoded.keys.keys().iter().map(|k| k.as_str()).collect();
    // The last line gives one token for two keys.
    assert_eq!(tokens, vec!["a", "Delete", "d w"]);
    assert_eq!(decoded.malformed_lines, vec![4, 6]);
    assert_eq!(CastParser::parse("").count(), 0);
    assert_eq!(CastParser::parse("[0.1, \"i\", \"a\"]").count(), 0);
}
