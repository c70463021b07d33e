use usync::util::timer::{
    SenderTimer, SenderTimerOutput, SenderTimerPoll, EXIT_AFTER, MAX_BURST, STOP_AFTER,
};
use usync::util::Compare;

const MS: u64 = 1_000_000;

/// Polls the timer whenever it asks to be polled, sets the rate at the times given,
/// and returns the times, in milliseconds, at which a symbol was permitted, with
/// the time at which the timer closed last.
fn run(start_interval: u64, changes: &[(u64, u64)]) -> Vec<u64> {
    let mut timer = SenderTimer::new(start_interval, 0);
    let mut changes = changes.to_vec();
    let mut now = 0u64;
    let mut sent_times = vec![];
    loop {
        match timer.poll(now) {
            SenderTimerPoll::Ready(SenderTimerOutput::Send(x)) => {
                for _ in 0..x {
                    sent_times.push(now / MS);
                }
            }
            SenderTimerPoll::Ready(SenderTimerOutput::Close) => {
                sent_times.push(now / MS);
                break;
            }
            SenderTimerPoll::Pending { wake_at } => {
                if let Some((at, interval)) = changes.first().copied() {
                    if at <= wake_at {
                        now = at;
                        timer.set_rate(now, Some(interval));
                        changes.remove(0);
                        continue;
                    }
                }
                now = wake_at;
            }
        }
    }
    sent_times
}

#[test]
fn clock() {
    let sent_time = run(900 * MS, &[(3000 * MS, 500 * MS), (20000 * MS, 1500 * MS)]);

    let expected = (0..=2)
        .map(|x| x * 900 + 900)
        .chain((3..=22).map(|x| x * 500 + 1700))
        .chain((23..=29).map(|x| x * 1500 - 14500))
        .chain(std::iter::once(40000));

    let mut compared = 0;
    for (i, (expected, actual)) in expected.zip(sent_time.iter().copied()).enumerate() {
        println!("{} {}ms {}ms", i, expected, actual,);
        assert_eq!(expected, actual);
        compared += 1;
    }
    assert_eq!(compared, 31);
    assert_eq!(sent_time.len(), 31);
}

#[test]
fn pacing_clock_starts_as_told_and_closes_at_forty_seconds() {
    let sent_time = run(900 * MS, &[(3000 * MS, 500 * MS), (20000 * MS, 1500 * MS)]);
    assert_eq!(&sent_time[..5], &[900, 1800, 2700, 3200, 3700]);
    assert_eq!(*sent_time.last().unwrap(), 40000);
    // The timer sleeps from ten seconds after the order of the third second on.
    assert!(!sent_time.iter().any(|t| (13000..20000).contains(t)));
}

#[test]
fn timer_left_alone_sleeps_at_ten_seconds_and_closes_at_twenty() {
    let sent_time = run(1000 * MS, &[]);
    let expected: Vec<u64> = (1..=9).map(|x| x * 1000).chain(std::iter::once(20000)).collect();
    assert_eq!(sent_time, expected);
}

#[test]
fn poll_closes_sleeps_permits_or_waits() {
    let mut timer = SenderTimer::new(100, 1000);
    assert_eq!(timer.interval(), 100);
    // Nothing is due before the first interval ends.
    assert_eq!(timer.poll(1000), SenderTimerPoll::Pending { wake_at: 1100 });
    assert_eq!(timer.poll(1099), SenderTimerPoll::Pending { wake_at: 1100 });
    // One symbol when one interval has passed.
    assert_eq!(
        timer.poll(1100),
        SenderTimerPoll::Ready(SenderTimerOutput::Send(1))
    );
    assert_eq!(timer.poll(1100), SenderTimerPoll::Pending { wake_at: 1200 });
    // Three and a half intervals: three symbols, and the half is kept.
    assert_eq!(
        timer.poll(1450),
        SenderTimerPoll::Ready(SenderTimerOutput::Send(3))
    );
    assert_eq!(timer.poll(1450), SenderTimerPoll::Pending { wake_at: 1500 });
    // Twenty intervals: the burst, and the rest is given up.
    assert_eq!(
        timer.poll(3400),
        SenderTimerPoll::Ready(SenderTimerOutput::Send(MAX_BURST))
    );
    assert_eq!(timer.poll(3400), SenderTimerPoll::Pending { wake_at: 3500 });
    // Asleep from ten seconds on, closed from twenty.
    let sleep = 1000 + STOP_AFTER;
    let exit = 1000 + EXIT_AFTER;
    assert!(matches!(
        timer.poll(sleep - 1),
        SenderTimerPoll::Ready(SenderTimerOutput::Send(8))
    ));
    assert_eq!(timer.poll(sleep), SenderTimerPoll::Pending { wake_at: exit });
    assert_eq!(timer.poll(exit - 1), SenderTimerPoll::Pending { wake_at: exit });
    assert_eq!(
        timer.poll(exit),
        SenderTimerPoll::Ready(SenderTimerOutput::Close)
    );
    assert_eq!(
        timer.poll(exit + 5),
        SenderTimerPoll::Ready(SenderTimerOutput::Close)
    );
}

#[test]
fn set_rate_permits_no_more_than_one_interval_at_once() {
    let mut timer = SenderTimer::new(1000, 0);
    // At 5000 five intervals are due; a new interval of 200 leaves one.
    timer.set_rate(5000, Some(200));
    assert_eq!(
        timer.poll(5000),
        SenderTimerPoll::Ready(SenderTimerOutput::Send(1))
    );
    assert_eq!(timer.poll(5000), SenderTimerPoll::Pending { wake_at: 5200 });
    // A rate call without an interval keeps the interval and renews the lease.
    timer.set_rate(5100, None);
    assert_eq!(timer.interval(), 200);
    assert_eq!(timer.poll(5100), SenderTimerPoll::Pending { wake_at: 5200 });
    assert_eq!(
        timer.poll(5100 + STOP_AFTER),
        SenderTimerPoll::Pending {
            wake_at: 5100 + EXIT_AFTER
        }
    );
    // An interval longer than the clock has run.
    let mut timer = SenderTimer::new(10, 50);
    timer.set_rate(60, Some(1000));
    assert_eq!(timer.poll(60), SenderTimerPoll::Pending { wake_at: 1050 });
}

#[test]
fn steady_state_permits_one_symbol_for_each_interval() {
    let interval = 700u64;
    let mut timer = SenderTimer::new(interval, 0);
    let mut permits = 0u64;
    let mut now = 0u64;
    let mut step = 1u64;
    while now < 1_000_000 {
        if let SenderTimerPoll::Ready(SenderTimerOutput::Send(k)) = timer.poll(now) {
            assert!(k >= 1 && k <= MAX_BURST);
            permits += k as u64;
        }
        assert!(permits * interval <= now);
        step = (step * 7 + 3) % 4001;
        now += step;
    }
    assert!(permits > 0);
}

#[test]
fn cmax_and_cmin_keep_the_greater_and_the_smaller() {
    let mut a = 5u32;
    a.cmax(9);
    assert_eq!(a, 9);
    a.cmax(3);
    assert_eq!(a, 9);
    a.cmin(4);
    assert_eq!(a, 4);
    a.cmin(6);
    assert_eq!(a, 4);
    let mut b = 10u64;
    b.cmax(10);
    assert_eq!(b, 10);
    b.cmin(2);
    assert_eq!(b, 2);
}
