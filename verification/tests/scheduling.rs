use serial_clock::command::{Color, Command, Position};
use serial_clock::scheduler::{period_micros, AlarmRequest, Scheduler};

#[test]
fn a_new_queue_is_idle() {
    let queue = Scheduler::new();
    assert!(queue.is_empty());
    assert_eq!(queue.len(), 0);
    assert_eq!(queue.armed_period(), None);
}

#[test]
fn first_entry_arms_the_alarm() {
    let mut queue = Scheduler::new();
    assert_eq!(queue.enqueue(Color::Red, Position::Left, 5), AlarmRequest::Arm(5));
    assert_eq!(queue.armed_period(), Some(5));
    assert_eq!(queue.len(), 1);
    assert!(!queue.is_empty());
}

#[test]
fn later_entries_leave_the_alarm_alone() {
    let mut queue = Scheduler::new();
    queue.enqueue(Color::Red, Position::Left, 5);
    assert_eq!(queue.enqueue(Color::Green, Position::Middle, 2), AlarmRequest::Unchanged);
    assert_eq!(queue.enqueue(Color::Blue, Position::Right, 10), AlarmRequest::Unchanged);
    assert_eq!(queue.armed_period(), Some(5));
    assert_eq!(queue.len(), 3);
}

#[test]
fn entries_fire_in_order_after_the_sum_of_delays() {
    let mut queue = Scheduler::new();
    queue.enqueue(Color::Red, Position::Left, 5);
    queue.enqueue(Color::Green, Position::Middle, 2);
    queue.enqueue(Color::Blue, Position::Right, 10);
    let mut elapsed = 0u32;
    let mut fired = Vec::new();
    while let Some(period) = queue.armed_period() {
        elapsed += period;
        let (action, _) = queue.on_alarm_fire();
        fired.push((elapsed, action));
    }
    assert_eq!(
        fired,
        vec![
            (5, Command::Blink(Color::Red, Position::Left)),
            (7, Command::Blink(Color::Green, Position::Middle)),
            (17, Command::Blink(Color::Blue, Position::Right)),
        ]
    );
}

#[test]
fn late_arrivals_do_not_move_earlier_entries() {
    let mut queue = Scheduler::new();
    let mut elapsed = 0u32;
    queue.enqueue(Color::Red, Position::Left, 5);
    elapsed += queue.armed_period().unwrap();
    queue.enqueue(Color::Green, Position::Middle, 2);
    let (first, request) = queue.on_alarm_fire();
    assert_eq!((elapsed, first), (5, Command::Blink(Color::Red, Position::Left)));
    assert_eq!(request, AlarmRequest::Reprogram(2));
    elapsed += queue.armed_period().unwrap();
    queue.enqueue(Color::Blue, Position::Right, 10);
    let (second, request) = queue.on_alarm_fire();
    assert_eq!((elapsed, second), (7, Command::Blink(Color::Green, Position::Middle)));
    assert_eq!(request, AlarmRequest::Reprogram(10));
    elapsed += queue.armed_period().unwrap();
    let (third, request) = queue.on_alarm_fire();
    assert_eq!((elapsed, third), (17, Command::Blink(Color::Blue, Position::Right)));
    assert_eq!(request, AlarmRequest::Disarm);
}

#[test]
fn last_firing_disarms_the_alarm() {
    let mut queue = Scheduler::new();
    queue.enqueue(Color::Red, Position::Left, 3);
    let (action, request) = queue.on_alarm_fire();
    assert_eq!(action, Command::Blink(Color::Red, Position::Left));
    assert_eq!(request, AlarmRequest::Disarm);
    assert_eq!(queue.armed_period(), None);
    assert!(queue.is_empty());
}

#[test]
fn an_emptied_queue_arms_again() {
    let mut queue = Scheduler::new();
    queue.enqueue(Color::Red, Position::Left, 3);
    queue.on_alarm_fire();
    assert_eq!(queue.enqueue(Color::Blue, Position::Right, 8), AlarmRequest::Arm(8));
    assert_eq!(queue.armed_period(), Some(8));
}

#[test]
fn the_alarm_runs_exactly_while_something_waits() {
    let mut queue = Scheduler::new();
    let delays = [4u32, 1, 9, 2, 6];
    for (i, delay) in delays.iter().enumerate() {
        queue.enqueue(Color::Green, Position::Middle, *delay);
        assert_eq!(queue.len(), i + 1);
        assert_eq!(queue.armed_period(), Some(delays[0]));
    }
    for i in 0..delays.len() {
        assert_eq!(queue.armed_period(), Some(delays[i]));
        let (_, request) = queue.on_alarm_fire();
        assert_eq!(queue.len(), delays.len() - i - 1);
        if i + 1 < delays.len() {
            assert_eq!(request, AlarmRequest::Reprogram(delays[i + 1]));
        } else {
            assert_eq!(request, AlarmRequest::Disarm);
        }
    }
    assert_eq!(queue.armed_period(), None);
}

#[test]
fn a_zero_delay_is_queued_like_any_other() {
    let mut queue = Scheduler::new();
    assert_eq!(queue.enqueue(Color::Red, Position::Left, 0), AlarmRequest::Arm(0));
    assert_eq!(queue.armed_period(), Some(0));
}

#[test]
fn periods_are_given_in_microseconds() {
    assert_eq!(period_micros(0), Some(0));
    assert_eq!(period_micros(1), Some(1_000_000));
    assert_eq!(period_micros(5), Some(5_000_000));
    assert_eq!(period_micros(4294), Some(4_294_000_000));
}

#[test]
fn periods_beyond_the_time_base_are_refused() {
    assert_eq!(period_micros(4295), None);
    assert_eq!(period_micros(u32::MAX), None);
}
