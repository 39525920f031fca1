use cellguard::isa::{IsaError, Port};
use cellguard::resilience::bulkhead::{Bulkhead, BulkheadConfig};
use cellguard::resilience::circuit::{CircuitBreaker, CircuitConfig, CircuitState};
use cellguard::resilience::rate_limit::{RateLimit, RateLimitConfig};
use cellguard::resilience::retry::{Retry, RetryConfig};
use std::cell::Cell;
use std::rc::Rc;
use std::sync::atomic::{AtomicU32, Ordering};
use std::sync::Arc;

/// A port made of a name and a closure.
struct PortFn<F> {
    name: String,
    f: F,
}

impl<F> PortFn<F> {
    fn new(name: &str, f: F) -> Self {
        PortFn { name: name.to_string(), f }
    }
}

impl<In, Out, F: FnMut(In) -> Result<Out, IsaError>> Port<In, Out> for PortFn<F> {
    fn name(&self) -> &str {
        &self.name
    }

    fn call(&mut self, input: In) -> Result<Out, IsaError> {
        (self.f)(input)
    }
}

#[test]
fn rejects_when_nested_exceeds_max() {
    let depth = Rc::new(Cell::new(0u32));
    let d = depth.clone();
    let port = PortFn::new("work", move |_x: ()| -> Result<(), IsaError> {
        d.set(d.get() + 1);
        Ok(())
    });
    let mut bh = Bulkhead::new(port, BulkheadConfig { max_concurrent: 1 });
    assert!(bh.call(()).is_ok());
    assert_eq!(bh.in_flight(), 0);
    bh.in_flight = 1;
    let err = bh.call(()).unwrap_err().message();
    assert!(err.contains("bulkhead full"), "{err}");
    assert_eq!(bh.rejected, 1);
}

#[test]
fn allows_within_limit() {
    let port = PortFn::new("ok", |x: i32| Ok(x + 1));
    let mut bh = Bulkhead::new(port, BulkheadConfig { max_concurrent: 2 });
    assert_eq!(bh.call(1).unwrap(), 2);
    assert_eq!(bh.call(2).unwrap(), 3);
    assert_eq!(bh.rejected, 0);
}

#[test]
fn opens_after_threshold() {
    let port = PortFn::new("bad", |_x: ()| -> Result<(), IsaError> { Err(IsaError::port("bad", "fail")) });
    let mut cb = CircuitBreaker::new(port, CircuitConfig { failure_threshold: 2, reset_after_ms: 60_000 });
    assert!(cb.call(()).is_err());
    assert_eq!(cb.state(), CircuitState::Closed);
    assert!(cb.call(()).is_err());
    assert_eq!(cb.state(), CircuitState::Open);
    let err = cb.call(()).unwrap_err();
    assert!(matches!(err, IsaError::CircuitOpen { .. }));
    assert_eq!(cb.rejected_while_open, 1);
}

#[test]
fn success_resets_failures() {
    let mut n = 0;
    let port = PortFn::new("ok", move |_x: ()| {
        n += 1;
        if n == 1 {
            Err(IsaError::port("ok", "once"))
        } else {
            Ok(1)
        }
    });
    let mut cb = CircuitBreaker::new(port, CircuitConfig { failure_threshold: 3, reset_after_ms: 60_000 });
    assert!(cb.call(()).is_err());
    assert_eq!(cb.call(()).unwrap(), 1);
    assert_eq!(cb.state(), CircuitState::Closed);
}

#[test]
fn allows_until_capacity_then_rejects() {
    let port = PortFn::new("echo", |x: i32| Ok(x));
    let mut rl = RateLimit::new(port, RateLimitConfig { capacity: 2, refill_per_sec: 0 });
    assert_eq!(rl.call(1).unwrap(), 1);
    assert_eq!(rl.call(2).unwrap(), 2);
    let err = rl.call(3).unwrap_err().message();
    assert!(err.contains("rate limited"), "{err}");
    assert_eq!(rl.rejected, 1);
}

#[test]
fn retries_until_success() {
    let hits = Arc::new(AtomicU32::new(0));
    let h = hits.clone();
    let port = PortFn::new("flaky", move |_x: i32| {
        let n = h.fetch_add(1, Ordering::SeqCst) + 1;
        if n < 3 {
            Err(IsaError::port("flaky", "not yet"))
        } else {
            Ok(n)
        }
    });
    let mut r = Retry::new(port, RetryConfig { max_attempts: 5 });
    assert_eq!(r.call(1).unwrap(), 3);
    assert_eq!(r.attempts, 3);
}

#[test]
fn exhausts_attempts() {
    let port = PortFn::new("always_bad", |_x: i32| -> Result<i32, IsaError> {
        Err(IsaError::port("always_bad", "nope"))
    });
    let mut r = Retry::new(port, RetryConfig { max_attempts: 2 });
    assert!(r.call(0).is_err());
    assert_eq!(r.attempts, 2);
}

// Exact messages, names and edge cases.

#[test]
fn bulkhead_full_message_names_the_limit() {
    let port = PortFn::new("work", |_x: ()| -> Result<(), IsaError> { Ok(()) });
    let mut bh = Bulkhead::new(port, BulkheadConfig { max_concurrent: 0 });
    let err = bh.call(()).unwrap_err();
    assert_eq!(err.message(), "port bulkhead(work): bulkhead full (max_concurrent=0)");
    assert_eq!(bh.name(), "bulkhead(work)");
    assert_eq!(bh.in_flight(), 0);
}

#[test]
fn bulkhead_default_limit_is_four() {
    let calls = Rc::new(Cell::new(0u32));
    let c = calls.clone();
    let port = PortFn::new("w", move |_x: ()| -> Result<(), IsaError> {
        c.set(c.get() + 1);
        Ok(())
    });
    let mut bh = Bulkhead::wrap(port);
    bh.in_flight = 3;
    assert!(bh.call(()).is_ok());
    assert_eq!(bh.in_flight(), 3);
    bh.in_flight = 4;
    assert!(bh.call(()).is_err());
    assert_eq!(calls.get(), 1);
}

#[test]
fn circuit_half_open_failure_reopens_at_once() {
    let port = PortFn::new("bad", |_x: ()| -> Result<(), IsaError> { Err(IsaError::port("bad", "fail")) });
    let mut cb = CircuitBreaker::new(port, CircuitConfig { failure_threshold: 5, reset_after_ms: 1_000 });
    cb.force_open_at(0);
    // Two seconds later the reset delay has passed: one trial call goes through.
    let err = cb.call_at((), 2_000_000_000).unwrap_err();
    assert!(matches!(err, IsaError::Port { .. }));
    assert_eq!(cb.state(), CircuitState::Open);
    // Within the new window the breaker refuses.
    let err = cb.call_at((), 2_500_000_000).unwrap_err();
    assert_eq!(err.message(), "circuit open: circuit(bad)");
    assert_eq!(cb.rejected_while_open, 1);
}

#[test]
fn circuit_half_open_success_closes() {
    let port = PortFn::new("good", |x: u8| -> Result<u8, IsaError> { Ok(x) });
    let mut cb = CircuitBreaker::new(port, CircuitConfig { failure_threshold: 1, reset_after_ms: 10 });
    cb.force_open_at(1_000_000);
    assert!(cb.call_at(7, 5_000_000).is_err());
    assert_eq!(cb.call_at(7, 11_000_000).unwrap(), 7);
    assert_eq!(cb.state(), CircuitState::Closed);
    cb.force_open();
    assert_eq!(cb.state(), CircuitState::Open);
    cb.reset();
    assert_eq!(cb.state(), CircuitState::Closed);
}

#[test]
fn rate_limit_refills_with_time() {
    let port = PortFn::new("echo", |x: i32| Ok(x));
    let mut rl = RateLimit::new_at(port, RateLimitConfig { capacity: 1, refill_per_sec: 2 }, 0);
    assert_eq!(rl.call_at(1, 0).unwrap(), 1);
    let err = rl.call_at(2, 100_000_000).unwrap_err();
    assert_eq!(err.message(), "port rate_limit(echo): rate limited (capacity=1, refill/s=2)");
    // Half a second at two permits per second restores one permit.
    assert_eq!(rl.call_at(3, 600_000_000).unwrap(), 3);
    assert_eq!(rl.rejected, 1);
}

#[test]
fn retry_message_carries_last_error() {
    let port = PortFn::new("p", |_x: i32| -> Result<i32, IsaError> { Err(IsaError::port("p", "down")) });
    let mut r = Retry::new(port, RetryConfig { max_attempts: 2 });
    let err = r.call(0).unwrap_err();
    assert_eq!(err.message(), "port retry(p): exhausted 2 attempts: port p: down");
}

#[test]
fn retry_with_no_attempts_never_calls() {
    let calls = Rc::new(Cell::new(0u32));
    let c = calls.clone();
    let port = PortFn::new("p", move |_x: i32| -> Result<i32, IsaError> {
        c.set(c.get() + 1);
        Ok(1)
    });
    let mut r = Retry::new(port, RetryConfig { max_attempts: 0 });
    let err = r.call(0).unwrap_err();
    assert_eq!(err.message(), "port retry(p): exhausted 0 attempts: port p: no attempts");
    assert_eq!(calls.get(), 0);
    assert_eq!(r.attempts, 0);
}

#[test]
fn retry_step_hands_on_success_and_asks_again_on_failure() {
    let port = PortFn::new("p", |x: i32| -> Result<i32, IsaError> { Ok(x) });
    let r = Retry::new(port, RetryConfig { max_attempts: 2 });
    assert!(matches!(r.after_attempt(Ok::<i32, IsaError>(7), 1), Ok(Ok(7))));
    match r.after_attempt::<i32>(Err(IsaError::port("p", "boom")), 1) {
        Err(e) => assert_eq!(e.message(), "port p: boom"),
        other => panic!("{other:?}"),
    }
    match r.after_attempt::<i32>(Err(IsaError::port("p", "boom")), 2) {
        Ok(Err(e)) => assert_eq!(e.message(), "port retry(port): exhausted 2 attempts: port p: boom"),
        other => panic!("{other:?}"),
    }
}

#[test]
fn circuit_settle_hands_on_the_port_result() {
    let port = PortFn::new("p", |x: i32| -> Result<i32, IsaError> { Ok(x) });
    let mut cb = CircuitBreaker::new(port, CircuitConfig { failure_threshold: 1, reset_after_ms: 60_000 });
    assert_eq!(cb.settle(Ok::<i32, IsaError>(5), 10).unwrap(), 5);
    assert_eq!(cb.state(), CircuitState::Closed);
    let e = cb.settle::<i32>(Err(IsaError::port("p", "bad")), 20).unwrap_err();
    assert_eq!(e.message(), "port p: bad");
    assert_eq!(cb.state(), CircuitState::Open);
}

#[test]
fn bulkhead_finish_call_leaves_the_flight() {
    let port = PortFn::new("p", |x: i32| -> Result<i32, IsaError> { Ok(x) });
    let mut b = Bulkhead::new(port, BulkheadConfig { max_concurrent: 2 });
    b.in_flight = 1;
    assert_eq!(b.finish_call(Ok::<i32, IsaError>(3)).unwrap(), 3);
    assert_eq!(b.in_flight(), 0);
}
