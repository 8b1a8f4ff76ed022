use serial_clock::command::{read_color, read_position, spells, Color, Command, CommandErr, Position};
use serial_clock::text::{read_u32, split};

fn chars(s: &str) -> Vec<char> {
    s.chars().collect()
}

fn parse(s: &str) -> Result<Command, CommandErr> {
    Command::try_from(s)
}

#[test]
fn ping_is_read() {
    assert_eq!(parse("ping"), Ok(Command::Ping));
}

#[test]
fn ping_with_more_is_invalid() {
    assert_eq!(parse("pingx"), Err(CommandErr::InvalidString));
    assert_eq!(parse("p"), Err(CommandErr::InvalidString));
    assert_eq!(parse("pin"), Err(CommandErr::InvalidString));
    assert_eq!(parse("ping "), Err(CommandErr::InvalidString));
}

#[test]
fn empty_line_is_empty_input() {
    assert_eq!(parse(""), Err(CommandErr::EmptyInput));
}

#[test]
fn reload_is_read() {
    assert_eq!(parse("reload"), Ok(Command::Reload));
    assert_eq!(parse("reloa"), Err(CommandErr::InvalidString));
    assert_eq!(parse("reloaded"), Err(CommandErr::InvalidString));
    assert_eq!(parse("r"), Err(CommandErr::InvalidString));
}

#[test]
fn other_first_characters_are_invalid() {
    assert_eq!(parse("x"), Err(CommandErr::InvalidString));
    assert_eq!(parse(" ping"), Err(CommandErr::InvalidString));
    assert_eq!(parse("Ping"), Err(CommandErr::InvalidString));
    assert_eq!(parse("red,left"), Err(CommandErr::InvalidString));
    assert_eq!(parse("\u{e9}"), Err(CommandErr::InvalidString));
    assert_eq!(parse(","), Err(CommandErr::InvalidString));
}

#[test]
fn blink_reads_every_colour_and_position() {
    let colors = [("red", Color::Red), ("green", Color::Green), ("blue", Color::Blue)];
    let positions =
        [("left", Position::Left), ("right", Position::Right), ("middle", Position::Middle)];
    for (color_name, color) in colors {
        for (position_name, position) in positions {
            let line = format!("@{},{}", color_name, position_name);
            assert_eq!(parse(&line), Ok(Command::Blink(color, position)));
        }
    }
}

#[test]
fn blink_with_unknown_token_fails() {
    assert_eq!(parse("@purple,left"), Err(CommandErr::FailToParse));
    assert_eq!(parse("@red,top"), Err(CommandErr::FailToParse));
    assert_eq!(parse("@Red,left"), Err(CommandErr::FailToParse));
    assert_eq!(parse("@red, left"), Err(CommandErr::FailToParse));
    assert_eq!(parse("@left,red"), Err(CommandErr::FailToParse));
    assert_eq!(parse("@black,left"), Err(CommandErr::FailToParse));
}

#[test]
fn blink_with_missing_field_fails() {
    assert_eq!(parse("@"), Err(CommandErr::FailToParse));
    assert_eq!(parse("@red"), Err(CommandErr::FailToParse));
    assert_eq!(parse("@red,"), Err(CommandErr::FailToParse));
    assert_eq!(parse("@,left"), Err(CommandErr::FailToParse));
}

#[test]
fn blink_with_a_field_too_many_fails() {
    assert_eq!(parse("@red,left,5"), Err(CommandErr::FailToParse));
    assert_eq!(parse("@red,left,"), Err(CommandErr::FailToParse));
}

#[test]
fn delay_blink_is_read() {
    assert_eq!(parse("#red,left,5"), Ok(Command::DelayBlink(Color::Red, Position::Left, 5)));
    assert_eq!(parse("#blue,middle,5"), Ok(Command::DelayBlink(Color::Blue, Position::Middle, 5)));
    assert_eq!(parse("#green,right,0"), Ok(Command::DelayBlink(Color::Green, Position::Right, 0)));
    assert_eq!(parse("#red,left,007"), Ok(Command::DelayBlink(Color::Red, Position::Left, 7)));
    assert_eq!(parse("#red,left,+12"), Ok(Command::DelayBlink(Color::Red, Position::Left, 12)));
}

#[test]
fn delay_blink_with_bad_delay_fails() {
    assert_eq!(parse("#red,left,abc"), Err(CommandErr::FailToParse));
    assert_eq!(parse("#red,left,"), Err(CommandErr::FailToParse));
    assert_eq!(parse("#red,left,-5"), Err(CommandErr::FailToParse));
    assert_eq!(parse("#red,left,5s"), Err(CommandErr::FailToParse));
    assert_eq!(parse("#red,left, 5"), Err(CommandErr::FailToParse));
    assert_eq!(parse("#red,left,+"), Err(CommandErr::FailToParse));
    assert_eq!(parse("#red,left,1.5"), Err(CommandErr::FailToParse));
}

#[test]
fn delay_blink_delay_is_32_bits() {
    assert_eq!(
        parse("#red,left,4294967295"),
        Ok(Command::DelayBlink(Color::Red, Position::Left, 4294967295))
    );
    assert_eq!(parse("#red,left,4294967296"), Err(CommandErr::FailToParse));
    assert_eq!(parse("#red,left,99999999999999999999999"), Err(CommandErr::FailToParse));
}

#[test]
fn delay_blink_with_wrong_fields_fails() {
    assert_eq!(parse("#"), Err(CommandErr::FailToParse));
    assert_eq!(parse("#red,left"), Err(CommandErr::FailToParse));
    assert_eq!(parse("#purple,left,5"), Err(CommandErr::FailToParse));
    assert_eq!(parse("#red,top,5"), Err(CommandErr::FailToParse));
    assert_eq!(parse("#red,left,5,6"), Err(CommandErr::FailToParse));
}

#[test]
fn characters_and_text_read_alike() {
    for line in ["ping", "reload", "@red,left", "#blue,middle,5", "", "pingx", "#red,left,abc"] {
        let as_chars = chars(line);
        assert_eq!(Command::try_from(&as_chars), Command::try_from(line));
        assert_eq!(Command::parse(&as_chars), Command::try_from(line));
    }
}

#[test]
fn split_cuts_at_every_comma() {
    assert_eq!(split(&chars("a,bc,,d"), 0), vec![chars("a"), chars("bc"), chars(""), chars("d")]);
    assert_eq!(split(&chars("@red,left"), 1), vec![chars("red"), chars("left")]);
    assert_eq!(split(&chars(""), 0), vec![chars("")]);
    assert_eq!(split(&chars(","), 0), vec![chars(""), chars("")]);
    assert_eq!(split(&chars("abc"), 3), vec![chars("")]);
}

#[test]
fn read_u32_reads_decimal_numbers() {
    assert_eq!(read_u32(&chars("0")), Some(0));
    assert_eq!(read_u32(&chars("17")), Some(17));
    assert_eq!(read_u32(&chars("+17")), Some(17));
    assert_eq!(read_u32(&chars("0000000000017")), Some(17));
    assert_eq!(read_u32(&chars("4294967295")), Some(u32::MAX));
    assert_eq!(read_u32(&chars("4294967296")), None);
    assert_eq!(read_u32(&chars("")), None);
    assert_eq!(read_u32(&chars("+")), None);
    assert_eq!(read_u32(&chars("++1")), None);
    assert_eq!(read_u32(&chars("1+")), None);
    assert_eq!(read_u32(&chars("12a")), None);
    assert_eq!(read_u32(&chars("/")), None);
    assert_eq!(read_u32(&chars(":")), None);
}

#[test]
fn read_u32_agrees_with_the_standard_parser() {
    for token in ["0", "5", "+5", "-5", "", "+", "05", "4294967295", "4294967296", "1_000", " 1"] {
        assert_eq!(read_u32(&chars(token)), token.parse::<u32>().ok());
    }
}

#[test]
fn words_are_compared_whole() {
    assert!(spells(&chars("red"), "red"));
    assert!(!spells(&chars("re"), "red"));
    assert!(!spells(&chars("redd"), "red"));
    assert!(!spells(&chars("rad"), "red"));
    assert!(spells(&chars(""), ""));
    assert_eq!(read_color(&chars("green")), Some(Color::Green));
    assert_eq!(read_color(&chars("grey")), None);
    assert_eq!(read_position(&chars("middle")), Some(Position::Middle));
    assert_eq!(read_position(&chars("centre")), None);
}
