//! Retries a failing port call up to a fixed number of attempts.

use crate::isa::{isa_error_text, IsaError, IsaErrorView, Port};
use crate::resilience::decorate::{decorate, decorated_name, lemma_decorated_name_of};
use crate::text::{decimal, owned, u64_to_decimal};
use vstd::prelude::*;

verus! {

pub struct RetryConfig {
    pub max_attempts: u32,
}

impl Clone for RetryConfig {
    fn clone(&self) -> (c: Self)
        ensures
            c.max_attempts == self.max_attempts,
    {
        RetryConfig { max_attempts: self.max_attempts }
    }
}

impl Default for RetryConfig {
    fn default() -> (c: Self)
        ensures
            c.max_attempts == 3,
    {
        RetryConfig { max_attempts: 3 }
    }
}

/// A retry wrapper's state as plain values.
pub struct RetryView {
    pub name: Seq<char>,
    pub max_attempts: u32,
    pub attempts: u32,
}

/// `a + k`, stopping at the largest `u32`.
pub open spec fn saturating_add_n(a: u32, k: nat) -> u32 {
    if a + k > u32::MAX {
        u32::MAX
    } else {
        (a + k) as u32
    }
}

/// The inner port's name inside `retry(..)`.
pub open spec fn inner_name_of(name: Seq<char>) -> Seq<char> {
    name.subrange(6, name.len() - 1)
}

/// The start of the error text after every attempt failed.
pub open spec fn exhausted_prefix(max_attempts: u32) -> Seq<char> {
    "exhausted "@ + decimal(max_attempts as nat) + " attempts: "@
}

/// The error of a retry wrapper named `name` whose attempts all failed:
/// its text starts with the number of attempts, the last failure follows.
pub open spec fn exhausted_error(e: IsaErrorView, name: Seq<char>, max_attempts: u32) -> bool {
    match e {
        IsaErrorView::Port { port, message } => {
            &&& port == name
            &&& message.len() >= exhausted_prefix(max_attempts).len()
            &&& message.take(exhausted_prefix(max_attempts).len() as int) == exhausted_prefix(max_attempts)
        },
        IsaErrorView::CircuitOpen { .. } => false,
    }
}

/// The error of a wrapper named `name` after `max_attempts` failed
/// attempts, the last failing with `last`.
pub open spec fn exhausted_view(name: Seq<char>, max_attempts: u32, last: IsaErrorView) -> IsaErrorView {
    IsaErrorView::Port { port: name, message: exhausted_prefix(max_attempts) + isa_error_text(last) }
}

/// How the attempt count moves in one call: a success comes after between
/// one and `max_attempts` calls of the wrapped port, a failure after
/// exactly `max_attempts` of them.
pub open spec fn retry_counted(before: RetryView, after: RetryView, ok: bool) -> bool {
    if ok {
        before.max_attempts >= 1 && exists|k: nat|
            1 <= k <= before.max_attempts && after.attempts == #[trigger] saturating_add_n(
                before.attempts,
                k,
            )
    } else {
        after.attempts == saturating_add_n(before.attempts, before.max_attempts as nat)
    }
}

/// Calls the wrapped port until it succeeds or `max_attempts` calls have
/// failed.
pub struct Retry<P> {
    name: String,
    inner: P,
    config: RetryConfig,
    /// Calls made to the wrapped port, successful or not.
    pub attempts: u32,
}

impl<P> View for Retry<P> {
    type V = RetryView;

    closed spec fn view(&self) -> RetryView {
        RetryView { name: self.name@, max_attempts: self.config.max_attempts, attempts: self.attempts }
    }
}

impl<P> Retry<P> {
    /// The wrapped port.
    pub closed spec fn spec_inner(&self) -> P {
        self.inner
    }

    pub fn new(inner: P, config: RetryConfig) -> (r: Self)
        ensures
            r@ == (RetryView {
                name: "retry(port)"@,
                max_attempts: config.max_attempts,
                attempts: 0,
            }),
            r.spec_inner() == inner,
    {
        let name = decorate("retry", "port");
        proof {
            reveal_strlit("retry");
            reveal_strlit("port");
            reveal_strlit("(");
            reveal_strlit(")");
            reveal_strlit("retry(port)");
            assert(name@ =~= "retry(port)"@);
        }
        Retry { name, inner, config, attempts: 0 }
    }

    /// A retry wrapper with the default number of attempts.
    pub fn wrap(inner: P) -> (r: Self)
        ensures
            r@ == (RetryView { name: "retry(port)"@, max_attempts: 3, attempts: 0 }),
            r.spec_inner() == inner,
    {
        Self::new(inner, RetryConfig::default())
    }

    pub fn into_inner(self) -> (p: P)
        ensures
            p == self.spec_inner(),
    {
        self.inner
    }

    pub fn inner_mut(&mut self) -> (p: &mut P)
        ensures
            *p == old(self).spec_inner(),
            final(self).spec_inner() == *final(p),
            final(self)@ == old(self)@,
    {
        &mut self.inner
    }

    /// The error that ends a call whose attempts are used up, the last
    /// failing with `last`.
    pub fn exhausted(&self, last: &IsaError) -> (e: IsaError)
        ensures
            e@ == exhausted_view(self@.name, self@.max_attempts, last@),
    {
        proof {
            reveal_strlit("exhausted ");
            reveal_strlit(" attempts: ");
        }
        let mut message = owned("exhausted ");
        message.append(u64_to_decimal(self.config.max_attempts as u64).as_str());
        message.append(" attempts: ");
        message.append(last.message().as_str());
        IsaError::port(self.name.as_str(), message.as_str())
    }

    /// What follows from the wrapped port's answer `res` to attempt number
    /// `done`: `Ok(r)` ends the call with `r`, `Err(e)` asks for another
    /// attempt, `e` being the latest failure. A success is handed on as it
    /// came; a failure asks for another attempt while attempts are left,
    /// and otherwise ends the call with the exhausted error.
    pub fn after_attempt<Out>(&self, res: Result<Out, IsaError>, done: u32) -> (step: Result<
        Result<Out, IsaError>,
        IsaError,
    >)
        ensures
            res is Ok ==> step == Ok::<Result<Out, IsaError>, IsaError>(res),
            res matches Err(e) ==> if done < self@.max_attempts {
                step == Err::<Result<Out, IsaError>, IsaError>(e)
            } else {
                step matches Ok(Err(x)) && x@ == exhausted_view(self@.name, self@.max_attempts, e@)
            },
    {
        match res {
            Ok(out) => Ok(Ok(out)),
            Err(e) => {
                if done < self.config.max_attempts {
                    Err(e)
                } else {
                    Ok(Err(self.exhausted(&e)))
                }
            },
        }
    }
}

impl<P: Port<In, Out>, In: Clone, Out> Port<In, Out> for Retry<P> {
    fn name(&self) -> (n: &str)
        ensures
            n@ == self@.name,
    {
        self.name.as_str()
    }

    /// Ok is the first success of the wrapped port; after
    /// `max_attempts` failures (or none at all) the error names this
    /// wrapper and carries the text of the last failure.
    fn call(&mut self, input: In) -> (r: Result<Out, IsaError>)
        ensures
            decorated_name(final(self)@.name, "retry"@),
            final(self)@.max_attempts == old(self)@.max_attempts,
            retry_counted(old(self)@, final(self)@, r is Ok),
            r matches Err(e) ==> exhausted_error(e@, final(self)@.name, old(self)@.max_attempts),
            old(self)@.max_attempts == 0 ==> (r matches Err(e) && e@ == (IsaErrorView::Port {
                port: final(self)@.name,
                message: exhausted_prefix(0) + isa_error_text(
                    IsaErrorView::Port {
                        port: inner_name_of(final(self)@.name),
                        message: "no attempts"@,
                    },
                ),
            })),
    {
        let inner_name = self.inner.name();
        let full_name = decorate("retry", inner_name);
        proof {
            reveal_strlit("retry");
            reveal_strlit("(");
            reveal_strlit(")");
            lemma_decorated_name_of(full_name@, "retry"@);
            assert(inner_name_of(full_name@) =~= inner_name@);
        }
        let mut last_err = IsaError::port(inner_name, "no attempts");
        self.name = full_name;
        let max = self.config.max_attempts;
        let ghost start = self.attempts;
        let mut done: u32 = 0;
        while done < max
            invariant
                done <= max,
                done < max || done == 0,
                max == self.config.max_attempts,
                max == old(self)@.max_attempts,
                start == old(self)@.attempts,
                decorated_name(full_name@, "retry"@),
                self.attempts == saturating_add_n(start, done as nat),
                self@.name == full_name@,
                done == 0 ==> last_err@ == (IsaErrorView::Port {
                    port: inner_name_of(full_name@),
                    message: "no attempts"@,
                }),
            decreases max - done,
        {
            self.attempts = self.attempts.saturating_add(1);
            done = done + 1;
            let res = self.inner.call(input.clone());
            match self.after_attempt(res, done) {
                Ok(r) => {
                    proof {
                        assert(self@.attempts == saturating_add_n(start, done as nat));
                        if r is Err {
                            assert(done == max);
                            let e = r->Err_0;
                            assert(e@->Port_message.take(exhausted_prefix(max).len() as int)
                                =~= exhausted_prefix(max));
                        }
                    }
                    return r;
                },
                Err(e) => {
                    last_err = e;
                },
            }
        }
        let e = self.exhausted(&last_err);
        proof {
            assert(e@->Port_message.take(exhausted_prefix(max).len() as int) =~= exhausted_prefix(max));
        }
        Err(e)
    }
}

/// One call through a retry wrapper calls the wrapped port at most
/// `max_attempts` times, and exactly that often when it fails (the count
/// taken while it does not overflow).
pub proof fn law_retry_calls_at_most_max(before: RetryView, after: RetryView, ok: bool)
    requires
        retry_counted(before, after, ok),
        before.attempts + before.max_attempts <= u32::MAX,
    ensures
        before.attempts <= after.attempts <= before.attempts + before.max_attempts,
        !ok ==> after.attempts == before.attempts + before.max_attempts,
        ok ==> after.attempts >= before.attempts + 1,
{
}

} // verus!
