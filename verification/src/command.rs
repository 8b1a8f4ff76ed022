//! The commands that arrive over the serial line, one per line of text, and
//! the grammar that reads them.
//!
//! | line                    | command                         |
//! |-------------------------|---------------------------------|
//! | `ping`                  | [`Command::Ping`]               |
//! | `reload`                | [`Command::Reload`]             |
//! | `@color,position`       | [`Command::Blink`]              |
//! | `#color,position,delay` | [`Command::DelayBlink`]         |

use crate::text::{
    commas, lemma_commas_concat, lemma_commas_zero, lemma_field_count, lemma_number_has_no_comma,
    lemma_split_append, lemma_split_comma, parse_u32, read_u32, split, split_fields, views,
};
use vstd::prelude::*;
use vstd::string::*;

verus! {

/// The colour of a marker.
#[derive(Clone, Copy, Debug, PartialEq, Eq, Structural)]
pub enum Color {
    Red,
    Green,
    Blue,
}

/// Where on the screen a marker goes.
#[derive(Clone, Copy, Debug, PartialEq, Eq, Structural)]
pub enum Position {
    Left,
    Right,
    Middle,
}

/// A command, as read from one line.
#[derive(Clone, Copy, Debug, PartialEq, Eq, Structural)]
pub enum Command {
    /// Asks for a sign of life.
    Ping,
    /// Shows a marker at once. Written `@color,position`.
    Blink(Color, Position),
    /// Shows a marker after a delay in seconds. Written `#color,position,delay`.
    DelayBlink(Color, Position, u32),
    /// Sets the display up anew.
    Reload,
}

/// Why a line is no command.
#[derive(Clone, Copy, Debug, PartialEq, Eq, Structural)]
pub enum CommandErr {
    /// The line has the shape of a marker command, but a field of it is
    /// missing, unknown, not a number, or one too many.
    FailToParse,
    /// The line is none of the known commands.
    InvalidString,
    /// The line is empty.
    EmptyInput,
}

/// The colour a token names.
pub open spec fn color_of(token: Seq<char>) -> Option<Color> {
    if token == "red"@ {
        Some(Color::Red)
    } else if token == "green"@ {
        Some(Color::Green)
    } else if token == "blue"@ {
        Some(Color::Blue)
    } else {
        None
    }
}

/// The position a token names.
pub open spec fn position_of(token: Seq<char>) -> Option<Position> {
    if token == "left"@ {
        Some(Position::Left)
    } else if token == "right"@ {
        Some(Position::Right)
    } else if token == "middle"@ {
        Some(Position::Middle)
    } else {
        None
    }
}

/// What follows `@`: exactly the two fields `color,position`.
pub open spec fn parse_blink(rest: Seq<char>) -> Result<Command, CommandErr> {
    let fields = split_fields(rest);
    if fields.len() == 2 && color_of(fields[0]) is Some && position_of(fields[1]) is Some {
        Ok(Command::Blink(color_of(fields[0])->0, position_of(fields[1])->0))
    } else {
        Err(CommandErr::FailToParse)
    }
}

/// What follows `#`: exactly the three fields `color,position,delay`.
pub open spec fn parse_delay_blink(rest: Seq<char>) -> Result<Command, CommandErr> {
    let fields = split_fields(rest);
    if fields.len() == 3 && color_of(fields[0]) is Some && position_of(fields[1]) is Some
        && parse_u32(fields[2]) is Some {
        Ok(
            Command::DelayBlink(
                color_of(fields[0])->0,
                position_of(fields[1])->0,
                parse_u32(fields[2])->0,
            ),
        )
    } else {
        Err(CommandErr::FailToParse)
    }
}

/// The command a line spells, or why it spells none. The first character
/// decides which command the line has to be.
pub open spec fn parse_line(line: Seq<char>) -> Result<Command, CommandErr> {
    if line.len() == 0 {
        Err(CommandErr::EmptyInput)
    } else if line[0] == 'p' {
        if line == "ping"@ {
            Ok(Command::Ping)
        } else {
            Err(CommandErr::InvalidString)
        }
    } else if line[0] == 'r' {
        if line == "reload"@ {
            Ok(Command::Reload)
        } else {
            Err(CommandErr::InvalidString)
        }
    } else if line[0] == '@' {
        parse_blink(line.drop_first())
    } else if line[0] == '#' {
        parse_delay_blink(line.drop_first())
    } else {
        Err(CommandErr::InvalidString)
    }
}

/// Whether `token` is the word `word`, character for character.
pub fn spells(token: &[char], word: &str) -> (same: bool)
    ensures
        same == (token@ == word@),
{
    let n = word.unicode_len();
    if token.len() != n {
        return false;
    }
    let mut i: usize = 0;
    while i < n
        invariant
            i <= n,
            n == word@.len(),
            n == token@.len(),
            forall|k: int| 0 <= k < i ==> token@[k] == word@[k],
        decreases n - i,
    {
        if token[i] != word.get_char(i) {
            return false;
        }
        i += 1;
    }
    assert(token@ =~= word@);
    true
}

/// The characters of a string.
pub fn chars_of(s: &str) -> (chars: Vec<char>)
    ensures
        chars@ == s@,
{
    let n = s.unicode_len();
    let mut chars: Vec<char> = Vec::new();
    let mut i: usize = 0;
    while i < n
        invariant
            i <= n,
            n == s@.len(),
            chars@ == s@.subrange(0, i as int),
        decreases n - i,
    {
        chars.push(s.get_char(i));
        assert(chars@ =~= s@.subrange(0, i + 1));
        i += 1;
    }
    assert(chars@ =~= s@);
    chars
}

/// Reads a colour name.
pub fn read_color(token: &[char]) -> (color: Option<Color>)
    ensures
        color == color_of(token@),
{
    if spells(token, "red") {
        Some(Color::Red)
    } else if spells(token, "green") {
        Some(Color::Green)
    } else if spells(token, "blue") {
        Some(Color::Blue)
    } else {
        None
    }
}

/// Reads a position name.
pub fn read_position(token: &[char]) -> (position: Option<Position>)
    ensures
        position == position_of(token@),
{
    if spells(token, "left") {
        Some(Position::Left)
    } else if spells(token, "right") {
        Some(Position::Right)
    } else if spells(token, "middle") {
        Some(Position::Middle)
    } else {
        None
    }
}

/// No colour name holds a comma.
pub proof fn lemma_color_has_no_comma(token: Seq<char>)
    requires
        color_of(token) is Some,
    ensures
        !token.contains(','),
{
    reveal_strlit("red");
    reveal_strlit("green");
    reveal_strlit("blue");
}

/// No position name holds a comma.
pub proof fn lemma_position_has_no_comma(token: Seq<char>)
    requires
        position_of(token) is Some,
    ensures
        !token.contains(','),
{
    reveal_strlit("left");
    reveal_strlit("right");
    reveal_strlit("middle");
}

/// Two fields without a comma, joined by one, are cut apart again as they were.
pub proof fn lemma_split_two(first: Seq<char>, second: Seq<char>)
    requires
        !first.contains(','),
        !second.contains(','),
    ensures
        split_fields(first.push(',') + second) == seq![first, second],
{
    let none = Seq::<char>::empty();
    lemma_split_append(none, first);
    assert(none + first =~= first);
    assert(split_fields(none) =~= seq![none]);
    assert(split_fields(first) =~= seq![first]);
    lemma_split_comma(first);
    assert(split_fields(first.push(',')) =~= seq![first, none]);
    lemma_split_append(first.push(','), second);
    assert(none + second =~= second);
    assert(split_fields(first.push(',') + second) =~= seq![first, second]);
}

/// Every line is read, and each error has its lines: only the empty line
/// is [`CommandErr::EmptyInput`], only a line that starts with `@` or `#`
/// can be [`CommandErr::FailToParse`], and such a line is never
/// [`CommandErr::InvalidString`].
pub proof fn lemma_errors_by_first_character(line: Seq<char>)
    ensures
        parse_line(line) == Err::<Command, CommandErr>(CommandErr::EmptyInput) <==> line.len()
            == 0,
        parse_line(line) == Err::<Command, CommandErr>(CommandErr::FailToParse) ==> line.len() > 0
            && (line[0] == '@' || line[0] == '#'),
        parse_line(line) == Err::<Command, CommandErr>(CommandErr::InvalidString) ==> line.len()
            > 0 && line[0] != '@' && line[0] != '#',
        parse_line(line) == Ok::<Command, CommandErr>(Command::Ping) <==> line == "ping"@,
        parse_line(line) == Ok::<Command, CommandErr>(Command::Reload) <==> line == "reload"@,
{
    reveal_strlit("ping");
    reveal_strlit("reload");
}

/// A line `@C,P` is the marker command with the colour that `C` names and
/// the position that `P` names; where `C` names no colour or `P` no
/// position, the line fails with [`CommandErr::FailToParse`].
pub proof fn lemma_blink_line(color: Seq<char>, position: Seq<char>)
    ensures
        parse_line(seq!['@'] + color.push(',') + position) == match (
            color_of(color),
            position_of(position),
        ) {
            (Some(c), Some(p)) => Ok::<Command, CommandErr>(Command::Blink(c, p)),
            _ => Err(CommandErr::FailToParse),
        },
{
    let line = seq!['@'] + color.push(',') + position;
    let rest = color.push(',') + position;
    assert(line.drop_first() =~= rest);
    assert(line[0] == '@');
    if color_of(color) is Some && position_of(position) is Some {
        lemma_color_has_no_comma(color);
        lemma_position_has_no_comma(position);
        lemma_split_two(color, position);
    } else if color.contains(',') || position.contains(',') {
        assert(color.push(',') =~= color + seq![',']);
        lemma_commas_concat(color, seq![',']);
        lemma_commas_concat(color.push(','), position);
        lemma_commas_zero(color);
        lemma_commas_zero(position);
        assert(commas(seq![',']) == 1) by {
            assert(seq![','].drop_last() =~= Seq::<char>::empty());
            assert(commas(seq![',']) == commas(seq![','].drop_last()) + 1);
        }
        lemma_field_count(rest);
    } else {
        lemma_split_two(color, position);
    }
}

/// A line `#C,P,D` is the delayed marker command with the colour that `C`
/// names, the position that `P` names and the number that `D` spells;
/// where one of them is none, the line fails with
/// [`CommandErr::FailToParse`].
pub proof fn lemma_delay_blink_line(color: Seq<char>, position: Seq<char>, delay: Seq<char>)
    ensures
        parse_line(seq!['#'] + color.push(',') + position.push(',') + delay) == match (
            color_of(color),
            position_of(position),
            parse_u32(delay),
        ) {
            (Some(c), Some(p), Some(d)) => Ok::<Command, CommandErr>(
                Command::DelayBlink(c, p, d),
            ),
            _ => Err(CommandErr::FailToParse),
        },
{
    let line = seq!['#'] + color.push(',') + position.push(',') + delay;
    let rest = color.push(',') + position.push(',') + delay;
    assert(line.drop_first() =~= rest);
    assert(line[0] == '#');
    if color_of(color) is Some {
        lemma_color_has_no_comma(color);
    }
    if position_of(position) is Some {
        lemma_position_has_no_comma(position);
    }
    if parse_u32(delay) is Some {
        lemma_number_has_no_comma(delay);
    }
    if color.contains(',') || position.contains(',') || delay.contains(',') {
        let comma = seq![','];
        assert(commas(comma) == 1) by {
            assert(comma.drop_last() =~= Seq::<char>::empty());
            assert(commas(comma) == commas(comma.drop_last()) + 1);
        }
        assert(color.push(',') =~= color + comma);
        assert(position.push(',') =~= position + comma);
        lemma_commas_concat(color, comma);
        lemma_commas_concat(position, comma);
        lemma_commas_concat(color.push(','), position.push(','));
        lemma_commas_concat(color.push(',') + position.push(','), delay);
        lemma_commas_zero(color);
        lemma_commas_zero(position);
        lemma_commas_zero(delay);
        lemma_field_count(rest);
    } else {
        let none = Seq::<char>::empty();
        lemma_split_two(color, position);
        assert((color.push(',') + position).push(',') =~= color.push(',') + position.push(','));
        lemma_split_comma(color.push(',') + position);
        lemma_split_append(color.push(',') + position.push(','), delay);
        assert(none + delay =~= delay);
        assert(split_fields(rest) =~= seq![color, position, delay]);
    }
}

impl Command {
    /// Reads one line, without its line end.
    pub fn parse(line: &[char]) -> (parsed: Result<Command, CommandErr>)
        ensures
            parsed == parse_line(line@),
    {
        if line.len() < 1 {
            return Err(CommandErr::EmptyInput);
        }
        let first = line[0];
        if first == 'p' {
            if spells(line, "ping") {
                Ok(Command::Ping)
            } else {
                Err(CommandErr::InvalidString)
            }
        } else if first == 'r' {
            if spells(line, "reload") {
                Ok(Command::Reload)
            } else {
                Err(CommandErr::InvalidString)
            }
        } else if first == '@' {
            assert(line@.drop_first() =~= line@.subrange(1, line@.len() as int));
            let fields = split(line, 1);
            assert(fields@.len() == views(fields@).len());
            if fields.len() != 2 {
                return Err(CommandErr::FailToParse);
            }
            assert(views(fields@)[0] == fields@[0]@ && views(fields@)[1] == fields@[1]@);
            let color = match read_color(fields[0].as_slice()) {
                Some(color) => color,
                None => { return Err(CommandErr::FailToParse); },
            };
            let position = match read_position(fields[1].as_slice()) {
                Some(position) => position,
                None => { return Err(CommandErr::FailToParse); },
            };
            Ok(Command::Blink(color, position))
        } else if first == '#' {
            assert(line@.drop_first() =~= line@.subrange(1, line@.len() as int));
            let fields = split(line, 1);
            assert(fields@.len() == views(fields@).len());
            if fields.len() != 3 {
                return Err(CommandErr::FailToParse);
            }
            assert(views(fields@)[0] == fields@[0]@ && views(fields@)[1] == fields@[1]@
                && views(fields@)[2] == fields@[2]@);
            let color = match read_color(fields[0].as_slice()) {
                Some(color) => color,
                None => { return Err(CommandErr::FailToParse); },
            };
            let position = match read_position(fields[1].as_slice()) {
                Some(position) => position,
                None => { return Err(CommandErr::FailToParse); },
            };
            let delay = match read_u32(fields[2].as_slice()) {
                Some(delay) => delay,
                None => { return Err(CommandErr::FailToParse); },
            };
            Ok(Command::DelayBlink(color, position, delay))
        } else {
            Err(CommandErr::InvalidString)
        }
    }
}

impl<'a> TryFrom<&'a str> for Command {
    type Error = CommandErr;

    fn try_from(value: &'a str) -> (parsed: Result<Self, Self::Error>)
    {
        let chars = chars_of(value);
        Command::parse(chars.as_slice())
    }
}

impl<'a> vstd::std_specs::convert::TryFromSpecImpl<&'a str> for Command {
    open spec fn obeys_try_from_spec() -> bool {
        true
    }

    open spec fn try_from_spec(value: &'a str) -> Result<Self, Self::Error> {
        parse_line(value@)
    }
}

impl<'a> TryFrom<&'a Vec<char>> for Command {
    type Error = CommandErr;

    fn try_from(value: &'a Vec<char>) -> (parsed: Result<Self, Self::Error>)
    {
        Command::parse(value.as_slice())
    }
}

impl<'a> vstd::std_specs::convert::TryFromSpecImpl<&'a Vec<char>> for Command {
    open spec fn obeys_try_from_spec() -> bool {
        true
    }

    open spec fn try_from_spec(value: &'a Vec<char>) -> Result<Self, Self::Error> {
        parse_line(value@)
    }
}

} // verus!
