//! The wall clock, kept as three pairs of decimal digits so that a tick can
//! say exactly which digits on the display have to be redrawn.

use vstd::prelude::*;
use vstd::string::*;

verus! {

/// One of the six digit positions of the clock face.
#[derive(Clone, Copy, Debug, PartialEq, Eq, Structural)]
pub enum UpdateIndex {
    Sec1,
    Sec10,
    Min1,
    Min10,
    Hour1,
    Hour10,
}

/// A time of day as `(tens, units)` digit pairs.
#[derive(Clone, Copy, Debug, PartialEq, Eq)]
pub struct DateTime {
    pub hour: (i8, i8),
    pub min: (i8, i8),
    pub sec: (i8, i8),
}

/// Seconds in a day.
pub const DAY: u32 = 86400;

/// Seconds added to the timestamp the clock is started from, to make up for
/// the time between taking the timestamp and starting the clock.
pub const START_CORRECTION: u32 = 13;

/// Both components are decimal digits.
pub open spec fn is_digit_pair(p: (i8, i8)) -> bool {
    0 <= p.0 <= 9 && 0 <= p.1 <= 9
}

/// The number a digit pair spells.
pub open spec fn pair_value(p: (i8, i8)) -> int {
    p.0 * 10 + p.1
}

/// `[index]` if the two clocks differ in that digit, else nothing.
pub open spec fn changed_at(before: DateTime, after: DateTime, index: UpdateIndex) -> Seq<
    UpdateIndex,
> {
    if before.spec_digit(index) != after.spec_digit(index) {
        seq![index]
    } else {
        Seq::empty()
    }
}

/// The digit positions in which two clocks differ, from the units of the
/// seconds up to the tens of the hours.
pub open spec fn changed_digits(before: DateTime, after: DateTime) -> Seq<UpdateIndex> {
    changed_at(before, after, UpdateIndex::Sec1) + changed_at(before, after, UpdateIndex::Sec10)
        + changed_at(before, after, UpdateIndex::Min1) + changed_at(
        before,
        after,
        UpdateIndex::Min10,
    ) + changed_at(before, after, UpdateIndex::Hour1) + changed_at(
        before,
        after,
        UpdateIndex::Hour10,
    )
}

/// The second of the day the clock shows after being started from the
/// timestamp `hour:min:sec`.
pub open spec fn start_second(hour: u8, min: u8, sec: u8) -> int {
    (hour * 3600 + min * 60 + sec + START_CORRECTION) % (DAY as int)
}

impl DateTime {
    /// Every field is a pair of digits and spells a value in its range:
    /// hours below 24, minutes and seconds below 60.
    pub open spec fn wf(&self) -> bool {
        &&& is_digit_pair(self.hour) && pair_value(self.hour) < 24
        &&& is_digit_pair(self.min) && pair_value(self.min) < 60
        &&& is_digit_pair(self.sec) && pair_value(self.sec) < 60
    }

    /// Seconds since midnight.
    pub open spec fn seconds_of_day(&self) -> int {
        pair_value(self.hour) * 3600 + pair_value(self.min) * 60 + pair_value(self.sec)
    }

    /// The digit shown at a position.
    pub open spec fn spec_digit(&self, index: UpdateIndex) -> i8 {
        match index {
            UpdateIndex::Sec1 => self.sec.1,
            UpdateIndex::Sec10 => self.sec.0,
            UpdateIndex::Min1 => self.min.1,
            UpdateIndex::Min10 => self.min.0,
            UpdateIndex::Hour1 => self.hour.1,
            UpdateIndex::Hour10 => self.hour.0,
        }
    }

    /// The digit shown at a position.
    #[verifier::when_used_as_spec(spec_digit)]
    pub fn digit(&self, index: UpdateIndex) -> (d: i8)
        ensures
            d == self.spec_digit(index),
    {
        match index {
            UpdateIndex::Sec1 => self.sec.1,
            UpdateIndex::Sec10 => self.sec.0,
            UpdateIndex::Min1 => self.min.1,
            UpdateIndex::Min10 => self.min.0,
            UpdateIndex::Hour1 => self.hour.1,
            UpdateIndex::Hour10 => self.hour.0,
        }
    }

    /// Moves the clock on by one second, wrapping at midnight, and returns
    /// the digits that now read differently, least significant first.
    pub fn add_sec(&mut self) -> (ans: Vec<UpdateIndex>)
        requires
            old(self).wf(),
        ensures
            final(self).wf(),
            final(self).seconds_of_day() == (old(self).seconds_of_day() + 1) % (DAY as int),
            ans@ == changed_digits(*old(self), *final(self)),
            ans@.len() >= 1,
            ans@[0] == UpdateIndex::Sec1,
    {
        let mut ans = Vec::new();
        ans.push(UpdateIndex::Sec1);
        let sec: i8 = self.sec.0 * 10 + self.sec.1 + 1;
        if sec >= 60 {
            self.sec = (0, 0);
            ans.push(UpdateIndex::Sec10);
            ans.push(UpdateIndex::Min1);
            let min: i8 = self.min.0 * 10 + self.min.1 + 1;
            if min >= 60 {
                self.min = (0, 0);
                ans.push(UpdateIndex::Min10);
                ans.push(UpdateIndex::Hour1);
                let hour: i8 = self.hour.0 * 10 + self.hour.1 + 1;
                if hour >= 24 {
                    self.hour = (0, 0);
                    ans.push(UpdateIndex::Hour10);
                } else if self.hour.1 == 9 {
                    self.hour = (self.hour.0 + 1, 0);
                    ans.push(UpdateIndex::Hour10);
                } else {
                    self.hour = (self.hour.0, self.hour.1 + 1);
                }
            } else if self.min.1 == 9 {
                self.min = (self.min.0 + 1, 0);
                ans.push(UpdateIndex::Min10);
            } else {
                self.min = (self.min.0, self.min.1 + 1);
            }
        } else if self.sec.1 == 9 {
            self.sec = (self.sec.0 + 1, 0);
            ans.push(UpdateIndex::Sec10);
        } else {
            self.sec = (self.sec.0, self.sec.1 + 1);
        }
        assert(ans@ =~= changed_digits(*old(self), *self));
        ans
    }

    /// Whether the clock is well formed.
    pub fn is_valid(&self) -> (valid: bool)
        ensures
            valid == self.wf(),
    {
        0 <= self.hour.0 && self.hour.0 <= 9 && 0 <= self.hour.1 && self.hour.1 <= 9
            && self.hour.0 * 10 + self.hour.1 < 24 && 0 <= self.min.0 && self.min.0 <= 5 && 0
            <= self.min.1 && self.min.1 <= 9 && 0 <= self.sec.0 && self.sec.0 <= 5 && 0
            <= self.sec.1 && self.sec.1 <= 9
    }

    /// The clock as text, `HH:MM:SS`.
    pub fn text(&self) -> (text: String)
        requires
            self.wf(),
        ensures
            text@ == text_of(*self),
    {
        proof {
            reveal_strlit(":");
        }
        let text = String::from_str(numeral(self.hour.0));
        let text = text.concat(numeral(self.hour.1));
        let text = text.concat(":");
        let text = text.concat(numeral(self.min.0));
        let text = text.concat(numeral(self.min.1));
        let text = text.concat(":");
        let text = text.concat(numeral(self.sec.0));
        let text = text.concat(numeral(self.sec.1));
        assert(text@ =~= text_of(*self));
        text
    }

    /// Starts the clock from a timestamp `[hour, minute, second]`, moved on
    /// by [`START_CORRECTION`] seconds with the carries that ticking would
    /// make. Bytes that name no time of day are folded into one.
    pub fn build(&mut self, value: &[u8])
        requires
            value@.len() >= 3,
        ensures
            final(self).wf(),
            final(self).seconds_of_day() == start_second(value@[0], value@[1], value@[2]),
    {
        let total: u32 = value[0] as u32 * 3600 + value[1] as u32 * 60 + value[2] as u32
            + START_CORRECTION;
        let second: u32 = total % DAY;
        let hour: u32 = second / 3600;
        let rest: u32 = second % 3600;
        let min: u32 = rest / 60;
        let sec: u32 = rest % 60;
        assert(second == hour * 3600 + rest);
        assert(rest == min * 60 + sec);
        self.hour = pair_of(hour);
        self.min = pair_of(min);
        self.sec = pair_of(sec);
    }
}

/// The character that shows a digit.
pub open spec fn numeral_char(digit: i8) -> char {
    (48 + digit) as u8 as char
}

/// The text that shows a clock: `HH:MM:SS`.
pub open spec fn text_of(clock: DateTime) -> Seq<char> {
    seq![
        numeral_char(clock.hour.0),
        numeral_char(clock.hour.1),
        ':',
        numeral_char(clock.min.0),
        numeral_char(clock.min.1),
        ':',
        numeral_char(clock.sec.0),
        numeral_char(clock.sec.1),
    ]
}

/// The text that shows a digit.
pub fn numeral(digit: i8) -> (glyph: &'static str)
    requires
        0 <= digit <= 9,
    ensures
        glyph@ == seq![numeral_char(digit)],
{
    proof {
        reveal_strlit("0");
        reveal_strlit("1");
        reveal_strlit("2");
        reveal_strlit("3");
        reveal_strlit("4");
        reveal_strlit("5");
        reveal_strlit("6");
        reveal_strlit("7");
        reveal_strlit("8");
        reveal_strlit("9");
    }
    let glyph = match digit {
        0 => "0",
        1 => "1",
        2 => "2",
        3 => "3",
        4 => "4",
        5 => "5",
        6 => "6",
        7 => "7",
        8 => "8",
        _ => "9",
    };
    assert(glyph@ =~= seq![numeral_char(digit)]);
    glyph
}

/// The digit pair that spells a number below one hundred.
pub fn pair_of(value: u32) -> (p: (i8, i8))
    requires
        value < 100,
    ensures
        is_digit_pair(p),
        pair_value(p) == value,
{
    ((value / 10) as i8, (value % 10) as i8)
}

/// A well-formed clock is determined by its second of the day: two that
/// agree on it agree digit for digit.
pub proof fn lemma_second_fixes_digits(a: DateTime, b: DateTime)
    requires
        a.wf(),
        b.wf(),
        a.seconds_of_day() == b.seconds_of_day(),
    ensures
        a == b,
{
    let x = pair_value(a.hour) * 60 + pair_value(a.min);
    let y = pair_value(b.hour) * 60 + pair_value(b.min);
    assert(x * 60 + pair_value(a.sec) == y * 60 + pair_value(b.sec));
    assert(x == y) by {
        if x < y {
            assert(x * 60 + 60 <= y * 60);
        } else if y < x {
            assert(y * 60 + 60 <= x * 60);
        }
    }
    assert(pair_value(a.hour) == pair_value(b.hour)) by {
        if pair_value(a.hour) < pair_value(b.hour) {
            assert(pair_value(a.hour) * 60 + 60 <= pair_value(b.hour) * 60);
        } else if pair_value(b.hour) < pair_value(a.hour) {
            assert(pair_value(b.hour) * 60 + 60 <= pair_value(a.hour) * 60);
        }
    }
    lemma_value_fixes_pair(a.hour, b.hour);
    lemma_value_fixes_pair(a.min, b.min);
    lemma_value_fixes_pair(a.sec, b.sec);
}

/// The second of the day `n` ticks after `second`.
pub open spec fn ticks_after(second: int, n: nat) -> int
    decreases n,
{
    if n == 0 {
        second
    } else {
        (ticks_after(second, (n - 1) as nat) + 1) % (DAY as int)
    }
}

/// The digit positions that read differently after a tick: the units of
/// the seconds always, the tens of a field when its units were at nine or
/// the field is reset, and the units of the next field when a field is
/// reset.
pub open spec fn tick_changes(clock: DateTime) -> Seq<UpdateIndex> {
    let sec_carry = pair_value(clock.sec) == 59;
    let min_carry = sec_carry && pair_value(clock.min) == 59;
    let one = |changes: bool, index: UpdateIndex|
        if changes {
            seq![index]
        } else {
            Seq::<UpdateIndex>::empty()
        };
    seq![UpdateIndex::Sec1] + one(clock.sec.1 == 9, UpdateIndex::Sec10) + one(
        sec_carry,
        UpdateIndex::Min1,
    ) + one(sec_carry && clock.min.1 == 9, UpdateIndex::Min10) + one(min_carry, UpdateIndex::Hour1)
        + one(
        min_carry && (clock.hour.1 == 9 || pair_value(clock.hour) == 23),
        UpdateIndex::Hour10,
    )
}

/// The next digit pair of a field that counts up to `limit` and then
/// starts again at zero.
pub open spec fn next_pair(p: (i8, i8), limit: int) -> (i8, i8) {
    if pair_value(p) + 1 >= limit {
        (0i8, 0i8)
    } else if p.1 == 9 {
        ((p.0 + 1) as i8, 0i8)
    } else {
        (p.0, (p.1 + 1) as i8)
    }
}

/// A tick redraws as little as can be: of two well-formed clocks a second
/// apart, the digits that differ are those of [`tick_changes`], in that
/// order. A field that is not reset changes its tens only with its units at
/// nine; a field that is reset changes both its digits and the units of the
/// field above.
pub proof fn lemma_tick_changes(before: DateTime, after: DateTime)
    requires
        before.wf(),
        after.wf(),
        after.seconds_of_day() == (before.seconds_of_day() + 1) % (DAY as int),
    ensures
        changed_digits(before, after) == tick_changes(before),
{
    let sec_carry = pair_value(before.sec) == 59;
    let min_carry = sec_carry && pair_value(before.min) == 59;
    let expected = DateTime {
        hour: if min_carry {
            next_pair(before.hour, 24)
        } else {
            before.hour
        },
        min: if sec_carry {
            next_pair(before.min, 60)
        } else {
            before.min
        },
        sec: next_pair(before.sec, 60),
    };
    assert(expected.wf());
    assert(expected.seconds_of_day() == (before.seconds_of_day() + 1) % (DAY as int));
    lemma_second_fixes_digits(after, expected);
    assert(changed_digits(before, after) =~= tick_changes(before));
}

/// Ticks add up: `n` ticks move a clock on by `n` seconds, round the day.
pub proof fn lemma_ticks_add(second: int, n: nat)
    requires
        0 <= second < DAY,
    ensures
        ticks_after(second, n) == (second + n) % (DAY as int),
    decreases n,
{
    if n > 0 {
        lemma_ticks_add(second, (n - 1) as nat);
    }
}

/// Starting the clock from a timestamp that names a time of day sets it
/// to where [`START_CORRECTION`] ticks would have taken it from that time.
pub proof fn lemma_start_is_ticks(hour: u8, min: u8, sec: u8)
    requires
        hour < 24,
        min < 60,
        sec < 60,
    ensures
        start_second(hour, min, sec) == ticks_after(
            hour * 3600 + min * 60 + sec,
            START_CORRECTION as nat,
        ),
{
    lemma_ticks_add(hour * 3600 + min * 60 + sec, START_CORRECTION as nat);
}

/// Two digit pairs that spell the same number are the same pair.
pub proof fn lemma_value_fixes_pair(p: (i8, i8), q: (i8, i8))
    requires
        is_digit_pair(p),
        is_digit_pair(q),
        pair_value(p) == pair_value(q),
    ensures
        p == q,
{
    if p.0 < q.0 {
        assert(p.0 * 10 + 10 <= q.0 * 10);
    } else if q.0 < p.0 {
        assert(q.0 * 10 + 10 <= p.0 * 10);
    }
}

} // verus!
