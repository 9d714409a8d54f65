//! The retry policy driven step by step, as a caller's loop drives it.

use stockbit_cli::error::Error;
use stockbit_cli::retry::{Backoff, RetryStep, MAX_BACKOFF_NANOS};

/// Runs `op` under the policy the way the HTTP clients do, recording delays.
fn run<T>(
    max_retries: u32,
    base_nanos: u128,
    mut op: impl FnMut(u32) -> Result<T, Error>,
) -> (Result<T, Error>, Vec<u128>) {
    let mut b = Backoff::new(max_retries, base_nanos);
    let mut delays = Vec::new();
    loop {
        match op(b.attempt) {
            Ok(v) => return (Ok(v), delays),
            Err(e) => match b.after_failure(&e) {
                RetryStep::GiveUp => return (Err(e), delays),
                RetryStep::RetryAfter { delay_nanos } => delays.push(delay_nanos),
            },
        }
    }
}

const TEN_MS: u128 = 10_000_000;

#[test]
fn retry_returns_immediately_on_success() {
    let mut calls = 0;
    let (v, _) = run(3, TEN_MS, |_| {
        calls += 1;
        Ok(42)
    });
    assert_eq!(v.unwrap(), 42);
    assert_eq!(calls, 1);
}

#[test]
fn retry_retries_then_succeeds_on_transient() {
    let mut calls = 0;
    let (v, delays) = run(3, TEN_MS, |attempt| {
        calls += 1;
        if attempt < 2 {
            Err(Error::Api { status: 503, body: "down".into() })
        } else {
            Ok(7)
        }
    });
    assert_eq!(v.unwrap(), 7);
    assert_eq!(calls, 3);
    assert_eq!(delays, vec![TEN_MS, 2 * TEN_MS]);
}

#[test]
fn retry_does_not_retry_on_non_transient() {
    let mut calls = 0;
    let (res, _) = run(3, TEN_MS, |_| -> Result<i32, Error> {
        calls += 1;
        Err(Error::Api { status: 404, body: "not found".into() })
    });
    assert!(matches!(res, Err(Error::Api { status: 404, .. })));
    assert_eq!(calls, 1);
}

#[test]
fn retry_gives_up_after_max_retries() {
    let mut calls = 0;
    let (res, _) = run(2, TEN_MS, |_| -> Result<i32, Error> {
        calls += 1;
        Err(Error::Api { status: 500, body: "boom".into() })
    });
    assert!(matches!(res, Err(Error::Api { status: 500, .. })));
    assert_eq!(calls, 3);
}

#[test]
fn retries_on_429_rate_limit() {
    let mut calls = 0;
    let (res, _) = run(3, 1, |attempt| {
        calls += 1;
        if attempt == 0 {
            Err(Error::Api { status: 429, body: "slow down".into() })
        } else {
            Ok(1)
        }
    });
    assert_eq!(res.unwrap(), 1);
    assert_eq!(calls, 2);
}

#[test]
fn does_not_retry_on_401_unauthorized() {
    let mut calls = 0;
    let (res, _) = run(3, 1, |_| -> Result<i32, Error> {
        calls += 1;
        Err(Error::Api { status: 401, body: "expired".into() })
    });
    assert!(matches!(res, Err(Error::Api { status: 401, .. })));
    assert_eq!(calls, 1);
}

#[test]
fn retries_on_5xx_then_succeeds() {
    let mut calls = 0;
    let (res, delays) = run(3, 1_000_000, |attempt| {
        calls += 1;
        if attempt < 2 {
            Err(Error::Api { status: 503, body: "upstream".into() })
        } else {
            Ok(1)
        }
    });
    assert_eq!(res.unwrap(), 1);
    assert_eq!(calls, 3);
    assert_eq!(delays, vec![1_000_000, 2_000_000]);
}

#[test]
fn delay_is_capped_at_thirty_seconds() {
    let mut b = Backoff::new(5, 20_000_000_000);
    let e = Error::Api { status: 502, body: String::new() };
    assert_eq!(b.after_failure(&e), RetryStep::RetryAfter { delay_nanos: 20_000_000_000 });
    assert_eq!(b.after_failure(&e), RetryStep::RetryAfter { delay_nanos: MAX_BACKOFF_NANOS });
    assert_eq!(b.attempt, 2);
}

#[test]
fn transient_classification() {
    assert!(Error::Api { status: 599, body: String::new() }.is_transient());
    assert!(!Error::Api { status: 600, body: String::new() }.is_transient());
    assert!(!Error::Api { status: 499, body: String::new() }.is_transient());
    assert!(Error::Http { timeout: false, connect: true, request: false, message: String::new() }.is_transient());
    assert!(!Error::Http { timeout: false, connect: false, request: false, message: String::new() }.is_transient());
    assert!(!Error::MissingToken.is_transient());
}
