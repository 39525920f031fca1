//! Bulkhead: a limit on the calls in flight through one wrapper.

use crate::isa::{IsaError, IsaErrorView, Port};
use crate::resilience::decorate::{decorate, decorated_name, lemma_decorated_name_of, saturating_inc};
use crate::text::{decimal, owned, u64_to_decimal};
use vstd::prelude::*;

verus! {

pub struct BulkheadConfig {
    pub max_concurrent: u32,
}

impl Clone for BulkheadConfig {
    fn clone(&self) -> (c: Self)
        ensures
            c.max_concurrent == self.max_concurrent,
    {
        BulkheadConfig { max_concurrent: self.max_concurrent }
    }
}

impl Default for BulkheadConfig {
    fn default() -> (c: Self)
        ensures
            c.max_concurrent == 4,
    {
        BulkheadConfig { max_concurrent: 4 }
    }
}

/// The rejection message of a full bulkhead.
pub open spec fn bulkhead_full_message(max_concurrent: u32) -> Seq<char> {
    "bulkhead full (max_concurrent="@ + decimal(max_concurrent as nat) + ")"@
}

/// Rejects a call when `in_flight` has reached `max_concurrent`.
///
/// For synchronous ports the count guards re-entrant calls through the
/// same wrapper.
pub struct Bulkhead<P> {
    name: String,
    inner: P,
    config: BulkheadConfig,
    /// Calls currently inside the wrapped port.
    pub in_flight: u32,
    /// Calls turned away because the bulkhead was full.
    pub rejected: u32,
}

/// A bulkhead's state as plain values.
pub struct BulkheadView {
    pub name: Seq<char>,
    pub max_concurrent: u32,
    pub in_flight: u32,
    pub rejected: u32,
}

impl<P> View for Bulkhead<P> {
    type V = BulkheadView;

    closed spec fn view(&self) -> BulkheadView {
        BulkheadView {
            name: self.name@,
            max_concurrent: self.config.max_concurrent,
            in_flight: self.in_flight,
            rejected: self.rejected,
        }
    }
}

impl<P> Bulkhead<P> {
    /// The wrapped port.
    pub closed spec fn spec_inner(&self) -> P {
        self.inner
    }

    pub fn new(inner: P, config: BulkheadConfig) -> (b: Self)
        ensures
            b@.name == "bulkhead"@,
            b.spec_inner() == inner,
            b@.max_concurrent == config.max_concurrent,
            b@.in_flight == 0,
            b@.rejected == 0,
    {
        Bulkhead { name: owned("bulkhead"), inner, config, in_flight: 0, rejected: 0 }
    }

    /// A bulkhead with the default limit.
    pub fn wrap(inner: P) -> (b: Self)
        ensures
            b@.name == "bulkhead"@,
            b.spec_inner() == inner,
            b@.max_concurrent == 4,
            b@.in_flight == 0,
            b@.rejected == 0,
    {
        Self::new(inner, BulkheadConfig::default())
    }

    /// Ends a call that went through: it leaves the flight, and what the
    /// wrapped port returned is handed on unchanged.
    pub fn finish_call<Out>(&mut self, res: Result<Out, IsaError>) -> (r: Result<Out, IsaError>)
        requires
            old(self)@.in_flight > 0,
        ensures
            r == res,
            final(self)@ == (BulkheadView { in_flight: (old(self)@.in_flight - 1) as u32, ..old(self)@ }),
            final(self).spec_inner() == old(self).spec_inner(),
    {
        self.in_flight = self.in_flight - 1;
        res
    }

    pub fn in_flight(&self) -> (n: u32)
        ensures
            n == self@.in_flight,
    {
        self.in_flight
    }
}

impl<P: Port<In, Out>, In, Out> Port<In, Out> for Bulkhead<P> {
    fn name(&self) -> (n: &str)
        ensures
            n@ == self@.name,
    {
        self.name.as_str()
    }

    fn call(&mut self, input: In) -> (r: Result<Out, IsaError>)
        ensures
            decorated_name(final(self)@.name, "bulkhead"@),
            final(self)@.max_concurrent == old(self)@.max_concurrent,
            final(self)@.in_flight == old(self)@.in_flight,
            old(self)@.in_flight >= old(self)@.max_concurrent ==> {
                &&& r matches Err(e) && e@ == (IsaErrorView::Port {
                    port: final(self)@.name,
                    message: bulkhead_full_message(old(self)@.max_concurrent),
                })
                &&& final(self)@.rejected == saturating_inc(old(self)@.rejected)
                &&& final(self).spec_inner() == old(self).spec_inner()
            },
            old(self)@.in_flight < old(self)@.max_concurrent ==> final(self)@.rejected == old(self)@.rejected,
    {
        let full_name = decorate("bulkhead", self.inner.name());
        proof {
            reveal_strlit("bulkhead");
            lemma_decorated_name_of(full_name@, "bulkhead"@);
        }
        self.name = full_name;
        if self.in_flight >= self.config.max_concurrent {
            self.rejected = self.rejected.saturating_add(1);
            proof {
                reveal_strlit("bulkhead full (max_concurrent=");
                reveal_strlit(")");
            }
            let mut message = owned("bulkhead full (max_concurrent=");
            message.append(u64_to_decimal(self.config.max_concurrent as u64).as_str());
            message.append(")");
            return Err(IsaError::port(self.name.as_str(), message.as_str()));
        }
        self.in_flight = self.in_flight + 1;
        let result = self.inner.call(input);
        self.finish_call(result)
    }
}

} // verus!
