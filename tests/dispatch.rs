use rub::config::{Config, ConfigError};
use rub::dispatch::{DispatchError, Event, Rubber, Step};
use rub::outcome::Outcome;
use rub::stats::Stats;
use std::collections::VecDeque;

const MS: u64 = 1_000_000;

fn uri() -> hyper::Uri {
    "http://localhost:8080/".parse().unwrap()
}

/// Drives a run to completion; request `k` (from 0, in launch order) ends with
/// `outcome(k)`. Completions are taken oldest first. Returns the stats, the
/// number of launches and the highest number in flight seen.
fn drive(number: u32, concurrency: u16, outcome: &dyn Fn(usize) -> Outcome) -> (Stats, usize, u16) {
    let mut d = Rubber::new(uri(), number, concurrency).unwrap();
    let mut in_flight: VecDeque<usize> = VecDeque::new();
    let mut launched = 0usize;
    let mut peak = 0u16;
    loop {
        match d.next_step() {
            Step::Launch => {
                in_flight.push_back(launched);
                launched += 1;
            }
            Step::Await => {
                let k = in_flight.pop_front().expect("awaiting with nothing in flight");
                d.handle(Event::Completed(outcome(k))).unwrap();
            }
            Step::Complete => break,
        }
        peak = peak.max(d.running());
        assert!(d.running() <= concurrency);
        assert_eq!(d.running() as usize, in_flight.len());
    }
    assert!(in_flight.is_empty());
    (d.stats().unwrap(), launched, peak)
}

#[test]
fn launches_exactly_number_within_limit() {
    for &(number, concurrency) in &[(0u32, 1u16), (1, 1), (7, 1), (7, 3), (10, 10), (3, 8), (100, 10)] {
        let (st, launched, peak) = drive(number, concurrency, &|k| {
            if k % 3 == 1 {
                Outcome::Failure
            } else {
                Outcome::Success { duration: (k as u64 + 1) * MS, status: 200 }
            }
        });
        assert_eq!(launched, number as usize);
        assert!(peak <= concurrency);
        assert_eq!(peak as u32, (concurrency as u32).min(number));
        assert_eq!(st.count + st.errors, number);
    }
}

#[test]
fn zero_requests_complete_at_once() {
    let mut d = Rubber::new(uri(), 0, 4).unwrap();
    assert!(d.is_complete());
    assert_eq!(d.next_step(), Step::Complete);
    assert_eq!(d.running(), 0);
    let st = d.stats().unwrap();
    assert_eq!(st.count, 0);
    assert_eq!(st.errors, 0);
    assert_eq!(st.average, 0);
    assert!(st.status_codes.is_empty());
}

#[test]
fn single_slot_is_sequential() {
    let mut d = Rubber::new(uri(), 3, 1).unwrap();
    for k in 0..3u32 {
        assert_eq!(d.next_step(), Step::Launch);
        assert_eq!(d.finished(), k);
        assert_eq!(d.next_step(), Step::Await);
        d.handle(Event::Completed(Outcome::Success { duration: MS, status: 200 })).unwrap();
        assert_eq!(d.outcomes().len(), (k + 1) as usize);
    }
    assert_eq!(d.next_step(), Step::Complete);
}

#[test]
fn five_concurrent_successes() {
    let durations = [10u64, 20, 30, 40, 50];
    let (st, launched, _) = drive(5, 5, &|k| Outcome::Success { duration: durations[k] * MS, status: 200 });
    assert_eq!(launched, 5);
    assert_eq!(st.count, 5);
    assert_eq!(st.errors, 0);
    assert_eq!(st.slowest, 50 * MS);
    assert_eq!(st.fastest, 10 * MS);
    assert_eq!(st.average, 30 * MS);
    assert_eq!(st.total, 150 * MS as u128);
    assert_eq!(st.status_codes.len(), 1);
    assert_eq!(st.status_codes.get(&200), Some(&5));
}

#[test]
fn sequential_run_with_one_failure() {
    let (st, launched, peak) = drive(3, 1, &|k| {
        if k == 1 {
            Outcome::Failure
        } else {
            Outcome::Success { duration: 5 * MS, status: 200 }
        }
    });
    assert_eq!(launched, 3);
    assert_eq!(peak, 1);
    assert_eq!(st.count, 2);
    assert_eq!(st.errors, 1);
    assert_eq!(st.status_codes.len(), 1);
    assert_eq!(st.status_codes.get(&200), Some(&2));
}

#[test]
fn two_slots_never_exceeded() {
    let mut d = Rubber::new(uri(), 4, 2).unwrap();
    assert_eq!(d.next_step(), Step::Launch);
    assert_eq!(d.next_step(), Step::Launch);
    assert_eq!(d.running(), 2);
    assert_eq!(d.next_step(), Step::Await);
    assert_eq!(d.running(), 2);
    d.handle(Event::Completed(Outcome::Success { duration: MS, status: 200 })).unwrap();
    assert_eq!(d.running(), 1);
    assert_eq!(d.next_step(), Step::Launch);
    assert_eq!(d.running(), 2);
    assert_eq!(d.next_step(), Step::Await);
    d.handle(Event::Completed(Outcome::Failure)).unwrap();
    d.handle(Event::Completed(Outcome::Success { duration: MS, status: 404 })).unwrap();
    assert_eq!(d.running(), 0);
    assert_eq!(d.next_step(), Step::Launch);
    assert!(d.running() <= 2);
    assert_eq!(d.next_step(), Step::Await);
    d.handle(Event::Completed(Outcome::Success { duration: MS, status: 200 })).unwrap();
    assert_eq!(d.next_step(), Step::Complete);
    let st = d.stats().unwrap();
    assert_eq!(st.count, 3);
    assert_eq!(st.errors, 1);
    assert_eq!(st.status_codes.get(&200), Some(&2));
    assert_eq!(st.status_codes.get(&404), Some(&1));
}

#[test]
fn channel_closed_early_is_protocol_violation() {
    let mut d = Rubber::new(uri(), 2, 2).unwrap();
    assert_eq!(d.next_step(), Step::Launch);
    assert_eq!(d.handle(Event::Closed), Err(DispatchError::ClosedEarly));
    assert_eq!(d.running(), 1);
    assert!(d.stats().is_none());
}

#[test]
fn channel_closed_after_completion_is_fine() {
    let mut d = Rubber::new(uri(), 1, 1).unwrap();
    assert_eq!(d.next_step(), Step::Launch);
    d.handle(Event::Completed(Outcome::Failure)).unwrap();
    assert_eq!(d.handle(Event::Closed), Ok(()));
    let st = d.stats().unwrap();
    assert_eq!(st.count, 0);
    assert_eq!(st.errors, 1);
    assert_eq!(st.average, 0);
    assert_eq!(st.fastest, u64::MAX);
    assert_eq!(st.slowest, 0);
}

#[test]
fn completion_without_request_in_flight_is_refused() {
    let mut d = Rubber::new(uri(), 2, 1).unwrap();
    let r = d.handle(Event::Completed(Outcome::Failure));
    assert_eq!(r, Err(DispatchError::UnexpectedCompletion));
    assert_eq!(d.finished(), 0);
    assert!(d.outcomes().is_empty());
}

#[test]
fn zero_concurrency_is_refused() {
    assert!(matches!(Rubber::new(uri(), 5, 0), Err(ConfigError::ZeroConcurrency)));
}

#[test]
fn config_is_checked_before_dispatch() {
    let ok = Config { url: "http://example.com/path".to_string(), number: 7, concurrency: 3 };
    let d = Rubber::from_config(&ok).unwrap();
    assert_eq!(d.number(), 7);
    assert_eq!(d.concurrency(), 3);
    assert_eq!(d.uri().to_string(), "http://example.com/path");

    let empty = Config { url: String::new(), number: 7, concurrency: 3 };
    assert!(matches!(Rubber::from_config(&empty), Err(ConfigError::InvalidUrl)));

    let no_authority = Config { url: "http:///x".to_string(), number: 7, concurrency: 3 };
    assert!(matches!(Rubber::from_config(&no_authority), Err(ConfigError::InvalidUrl)));

    let zero = Config { url: "http://example.com".to_string(), number: 7, concurrency: 0 };
    assert!(matches!(Rubber::from_config(&zero), Err(ConfigError::ZeroConcurrency)));

    let bad_and_zero = Config { url: String::new(), number: 7, concurrency: 0 };
    assert!(matches!(Rubber::from_config(&bad_and_zero), Err(ConfigError::InvalidUrl)));
}

#[test]
fn arguments_take_defaults() {
    let c = Config::from_args(Some("http://a.b".to_string()), None, None).unwrap();
    assert_eq!(c.url, "http://a.b");
    assert_eq!(c.number, 100);
    assert_eq!(c.concurrency, 10);

    let c = Config::from_args(Some("http://a.b".to_string()), Some(3), Some(2)).unwrap();
    assert_eq!(c.number, 3);
    assert_eq!(c.concurrency, 2);

    assert!(matches!(Config::from_args(None, Some(3), Some(2)), Err(ConfigError::MissingUrl)));
}
