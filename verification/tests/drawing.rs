use serial_clock::command::{Color, Command, Position};
use serial_clock::screen::{
    border_pixels, change_light_color, digit_draw, draw_digits, update_time, DigitDraw, Marker,
};
use serial_clock::time::{DateTime, UpdateIndex};

fn clock(hour: i8, min: i8, sec: i8) -> DateTime {
    DateTime { hour: (hour / 10, hour % 10), min: (min / 10, min % 10), sec: (sec / 10, sec % 10) }
}

#[test]
fn markers_stand_at_quarter_half_and_three_quarters() {
    assert_eq!(
        change_light_color(&Command::Blink(Color::Red, Position::Left)),
        Marker { color: Color::Red, x: 39, y: 39, diameter: 20 }
    );
    assert_eq!(
        change_light_color(&Command::Blink(Color::Green, Position::Middle)),
        Marker { color: Color::Green, x: 79, y: 39, diameter: 20 }
    );
    assert_eq!(
        change_light_color(&Command::Blink(Color::Blue, Position::Right)),
        Marker { color: Color::Blue, x: 117, y: 39, diameter: 20 }
    );
}

#[test]
fn digits_stand_ten_pixels_apart() {
    let now = clock(12, 34, 56);
    assert_eq!(
        draw_digits(&now),
        vec![
            DigitDraw { index: UpdateIndex::Hour10, x: 40, y: 60, digit: 1 },
            DigitDraw { index: UpdateIndex::Hour1, x: 50, y: 60, digit: 2 },
            DigitDraw { index: UpdateIndex::Min10, x: 60, y: 60, digit: 3 },
            DigitDraw { index: UpdateIndex::Min1, x: 70, y: 60, digit: 4 },
            DigitDraw { index: UpdateIndex::Sec10, x: 80, y: 60, digit: 5 },
            DigitDraw { index: UpdateIndex::Sec1, x: 90, y: 60, digit: 6 },
        ]
    );
    assert_eq!(
        digit_draw(&now, UpdateIndex::Min1),
        DigitDraw { index: UpdateIndex::Min1, x: 70, y: 60, digit: 4 }
    );
}

#[test]
fn a_tick_redraws_only_what_changed() {
    let mut now = clock(0, 0, 1);
    let draws = update_time(&mut now);
    assert_eq!(now, clock(0, 0, 2));
    assert_eq!(draws, vec![DigitDraw { index: UpdateIndex::Sec1, x: 90, y: 60, digit: 2 }]);
}

#[test]
fn a_tick_at_midnight_redraws_everything() {
    let mut now = clock(23, 59, 59);
    let draws = update_time(&mut now);
    assert_eq!(now, clock(0, 0, 0));
    assert_eq!(
        draws,
        vec![
            DigitDraw { index: UpdateIndex::Sec1, x: 90, y: 60, digit: 0 },
            DigitDraw { index: UpdateIndex::Sec10, x: 80, y: 60, digit: 0 },
            DigitDraw { index: UpdateIndex::Min1, x: 70, y: 60, digit: 0 },
            DigitDraw { index: UpdateIndex::Min10, x: 60, y: 60, digit: 0 },
            DigitDraw { index: UpdateIndex::Hour1, x: 50, y: 60, digit: 0 },
            DigitDraw { index: UpdateIndex::Hour10, x: 40, y: 60, digit: 0 },
        ]
    );
}

#[test]
fn a_tick_shows_the_new_digits() {
    let mut now = clock(9, 59, 59);
    let draws = update_time(&mut now);
    assert_eq!(draws.len(), 6);
    assert_eq!(draws[4], DigitDraw { index: UpdateIndex::Hour1, x: 50, y: 60, digit: 0 });
    assert_eq!(draws[5], DigitDraw { index: UpdateIndex::Hour10, x: 40, y: 60, digit: 1 });
}

#[test]
fn the_frame_runs_round_the_screen() {
    let pixels = border_pixels();
    assert_eq!(pixels.len(), 480);
    assert_eq!(pixels[0], (0, 79));
    assert_eq!(pixels[159], (159, 79));
    assert_eq!(pixels[160], (159, 0));
    assert_eq!(pixels[239], (159, 79));
    assert_eq!(pixels[240], (0, 0));
    assert_eq!(pixels[399], (159, 0));
    assert_eq!(pixels[400], (0, 0));
    assert_eq!(pixels[479], (0, 79));
    for (x, y) in pixels {
        assert!(x == 0 || x == 159 || y == 0 || y == 79);
    }
}
