//! Where things go on the display: the markers, the six digits of the
//! clock, and the frame around the screen. Nothing here draws; every
//! function says what is to be drawn.

use crate::command::{Color, Command, Position};
use crate::time::{changed_digits, DateTime, UpdateIndex, DAY};
use vstd::prelude::*;

verus! {

/// The rightmost column of the screen.
pub const RIGHT_X: u16 = 159;

/// The bottom row of the screen.
pub const BOTTOM_Y: u16 = 79;

/// The diameter of a marker.
pub const MARKER_DIAMETER: u32 = 20;

/// The row on which the clock's digits stand.
pub const DIGIT_Y: i32 = 60;

/// A filled circle.
#[derive(Clone, Copy, Debug, PartialEq, Eq, Structural)]
pub struct Marker {
    pub color: Color,
    pub x: i32,
    pub y: i32,
    pub diameter: u32,
}

/// A digit to put on the screen, in place of what stands at `(x, y)`.
#[derive(Clone, Copy, Debug, PartialEq, Eq, Structural)]
pub struct DigitDraw {
    pub index: UpdateIndex,
    pub x: i32,
    pub y: i32,
    pub digit: i8,
}

/// The column of a marker: a quarter, a half or three quarters of the way
/// across the screen.
pub open spec fn marker_x(position: Position) -> int {
    match position {
        Position::Left => RIGHT_X as int / 4,
        Position::Middle => RIGHT_X as int / 2,
        Position::Right => RIGHT_X as int / 4 * 3,
    }
}

/// The marker of a colour at a position, half way down the screen.
pub open spec fn marker_of(color: Color, position: Position) -> Marker {
    Marker {
        color,
        x: marker_x(position) as i32,
        y: (BOTTOM_Y as int / 2) as i32,
        diameter: MARKER_DIAMETER,
    }
}

/// The column at which a digit of the clock stands: the tens of the hours
/// at 40, each further digit ten pixels to the right.
pub open spec fn digit_x(index: UpdateIndex) -> int {
    match index {
        UpdateIndex::Hour10 => 40,
        UpdateIndex::Hour1 => 50,
        UpdateIndex::Min10 => 60,
        UpdateIndex::Min1 => 70,
        UpdateIndex::Sec10 => 80,
        UpdateIndex::Sec1 => 90,
    }
}

/// What is drawn to show one digit of a clock.
pub open spec fn draw_at(clock: DateTime, index: UpdateIndex) -> DigitDraw {
    DigitDraw { index, x: digit_x(index) as i32, y: DIGIT_Y, digit: clock.spec_digit(index) }
}

/// What is drawn to show the listed digits of a clock, in the order listed.
pub open spec fn draws_of(clock: DateTime, indices: Seq<UpdateIndex>) -> Seq<DigitDraw> {
    Seq::new(indices.len(), |i: int| draw_at(clock, indices[i]))
}

/// The six digit positions from left to right.
pub open spec fn face() -> Seq<UpdateIndex> {
    seq![
        UpdateIndex::Hour10,
        UpdateIndex::Hour1,
        UpdateIndex::Min10,
        UpdateIndex::Min1,
        UpdateIndex::Sec10,
        UpdateIndex::Sec1,
    ]
}

/// The pixels of the frame: the bottom row from left to right, the right
/// column from top to bottom, then the top row and the left column.
pub open spec fn border() -> Seq<(u16, u16)> {
    Seq::new(RIGHT_X as nat + 1, |x: int| (x as u16, BOTTOM_Y)) + Seq::new(
        BOTTOM_Y as nat + 1,
        |y: int| (RIGHT_X, y as u16),
    ) + Seq::new(RIGHT_X as nat + 1, |x: int| (x as u16, 0u16)) + Seq::new(
        BOTTOM_Y as nat + 1,
        |y: int| (0u16, y as u16),
    )
}

/// The marker that a [`Command::Blink`] asks for.
pub fn change_light_color(command: &Command) -> (marker: Marker)
    requires
        command is Blink,
    ensures
        marker == marker_of(command->Blink_0, command->Blink_1),
{
    match command {
        Command::Blink(color, position) => {
            let x: u16 = match position {
                Position::Left => RIGHT_X / 4,
                Position::Middle => RIGHT_X / 2,
                Position::Right => RIGHT_X / 4 * 3,
            };
            Marker { color: *color, x: x as i32, y: (BOTTOM_Y / 2) as i32, diameter: MARKER_DIAMETER }
        },
        _ => vstd::pervasive::unreached(),
    }
}

/// What is drawn to show one digit of a clock.
pub fn digit_draw(clock: &DateTime, index: UpdateIndex) -> (draw: DigitDraw)
    ensures
        draw == draw_at(*clock, index),
{
    let x: i32 = match index {
        UpdateIndex::Hour10 => 40,
        UpdateIndex::Hour1 => 50,
        UpdateIndex::Min10 => 60,
        UpdateIndex::Min1 => 70,
        UpdateIndex::Sec10 => 80,
        UpdateIndex::Sec1 => 90,
    };
    DigitDraw { index, x, y: DIGIT_Y, digit: clock.digit(index) }
}

/// What is drawn to show the whole clock, from left to right.
pub fn draw_digits(now: &DateTime) -> (draws: Vec<DigitDraw>)
    ensures
        draws@ == draws_of(*now, face()),
{
    let mut draws: Vec<DigitDraw> = Vec::new();
    draws.push(digit_draw(now, UpdateIndex::Hour10));
    draws.push(digit_draw(now, UpdateIndex::Hour1));
    draws.push(digit_draw(now, UpdateIndex::Min10));
    draws.push(digit_draw(now, UpdateIndex::Min1));
    draws.push(digit_draw(now, UpdateIndex::Sec10));
    draws.push(digit_draw(now, UpdateIndex::Sec1));
    assert(draws@ =~= draws_of(*now, face()));
    draws
}

/// One tick of the clock: moves it on by a second and says which digits to
/// draw anew, those that changed and no others, least significant first.
pub fn update_time(now: &mut DateTime) -> (draws: Vec<DigitDraw>)
    requires
        old(now).wf(),
    ensures
        final(now).wf(),
        final(now).seconds_of_day() == (old(now).seconds_of_day() + 1) % (DAY as int),
        draws@ == draws_of(*final(now), changed_digits(*old(now), *final(now))),
{
    let changed = now.add_sec();
    let mut draws: Vec<DigitDraw> = Vec::new();
    let mut i: usize = 0;
    while i < changed.len()
        invariant
            i <= changed@.len(),
            draws@ == draws_of(*now, changed@.subrange(0, i as int)),
        decreases changed@.len() - i,
    {
        draws.push(digit_draw(now, changed[i]));
        assert(draws@ =~= draws_of(*now, changed@.subrange(0, i + 1)));
        i += 1;
    }
    assert(changed@.subrange(0, i as int) =~= changed@);
    draws
}

/// The pixels of the frame around the screen.
pub fn border_pixels() -> (pixels: Vec<(u16, u16)>)
    ensures
        pixels@ == border(),
{
    let mut pixels: Vec<(u16, u16)> = Vec::new();
    let ghost bottom = Seq::new(RIGHT_X as nat + 1, |x: int| (x as u16, BOTTOM_Y));
    let ghost right = Seq::new(BOTTOM_Y as nat + 1, |y: int| (RIGHT_X, y as u16));
    let ghost top = Seq::new(RIGHT_X as nat + 1, |x: int| (x as u16, 0u16));
    let ghost left = Seq::new(BOTTOM_Y as nat + 1, |y: int| (0u16, y as u16));
    let mut x: u16 = 0;
    while x <= RIGHT_X
        invariant
            x <= RIGHT_X + 1,
            pixels@ == bottom.subrange(0, x as int),
            bottom == Seq::new(RIGHT_X as nat + 1, |x: int| (x as u16, BOTTOM_Y)),
        decreases RIGHT_X + 1 - x,
    {
        pixels.push((x, BOTTOM_Y));
        assert(pixels@ =~= bottom.subrange(0, x + 1));
        x += 1;
    }
    assert(pixels@ =~= bottom);
    let mut y: u16 = 0;
    while y <= BOTTOM_Y
        invariant
            y <= BOTTOM_Y + 1,
            pixels@ == bottom + right.subrange(0, y as int),
            right == Seq::new(BOTTOM_Y as nat + 1, |y: int| (RIGHT_X, y as u16)),
        decreases BOTTOM_Y + 1 - y,
    {
        pixels.push((RIGHT_X, y));
        assert(pixels@ =~= bottom + right.subrange(0, y + 1));
        y += 1;
    }
    assert(pixels@ =~= bottom + right);
    let mut x: u16 = 0;
    while x <= RIGHT_X
        invariant
            x <= RIGHT_X + 1,
            pixels@ == bottom + right + top.subrange(0, x as int),
            top == Seq::new(RIGHT_X as nat + 1, |x: int| (x as u16, 0u16)),
        decreases RIGHT_X + 1 - x,
    {
        pixels.push((x, 0));
        assert(pixels@ =~= bottom + right + top.subrange(0, x + 1));
        x += 1;
    }
    assert(pixels@ =~= bottom + right + top);
    let mut y: u16 = 0;
    while y <= BOTTOM_Y
        invariant
            y <= BOTTOM_Y + 1,
            pixels@ == bottom + right + top + left.subrange(0, y as int),
            left == Seq::new(BOTTOM_Y as nat + 1, |y: int| (0u16, y as u16)),
        decreases BOTTOM_Y + 1 - y,
    {
        pixels.push((0, y));
        assert(pixels@ =~= bottom + right + top + left.subrange(0, y + 1));
        y += 1;
    }
    assert(pixels@ =~= bottom + right + top + left);
    pixels
}

} // verus!
