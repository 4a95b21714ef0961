//! The counters of calls per endpoint since they were last read.

use crate::endpoint::ApiEndpoint;
use std::sync::Mutex;
use vstd::prelude::*;

verus! {

/// How often each endpoint was called since the counters were last read or
/// reset.
#[derive(Clone, Copy, Debug, PartialEq, Eq, Structural)]
pub struct Counters {
    pub to_celsius: u32,
    pub to_fahrenheit: u32,
}

impl Default for Counters {
    fn default() -> (counters: Counters)
        ensures
            counters == (Counters { to_celsius: 0, to_fahrenheit: 0 }),
    {
        Counters { to_celsius: 0, to_fahrenheit: 0 }
    }
}

impl Counters {
    /// The number of calls counted for `endpoint`.
    pub open spec fn count(self, endpoint: ApiEndpoint) -> u32 {
        match endpoint {
            ApiEndpoint::ToCelsius => self.to_celsius,
            ApiEndpoint::ToFahrenheit => self.to_fahrenheit,
        }
    }

    /// The counters after one more call of `endpoint`.
    pub open spec fn recorded(self, endpoint: ApiEndpoint) -> Counters
        recommends
            self.count(endpoint) < u32::MAX,
    {
        match endpoint {
            ApiEndpoint::ToCelsius => Counters {
                to_celsius: (self.to_celsius + 1) as u32,
                ..self
            },
            ApiEndpoint::ToFahrenheit => Counters {
                to_fahrenheit: (self.to_fahrenheit + 1) as u32,
                ..self
            },
        }
    }

    /// Counts one more call of `endpoint`. A counter at its limit cannot
    /// count on.
    pub fn record(&mut self, endpoint: ApiEndpoint)
        requires
            old(self).count(endpoint) < u32::MAX,
        ensures
            *final(self) == old(self).recorded(endpoint),
            final(self).count(endpoint) == old(self).count(endpoint) + 1,
    {
        match endpoint {
            ApiEndpoint::ToCelsius => {
                self.to_celsius = self.to_celsius + 1;
            },
            ApiEndpoint::ToFahrenheit => {
                self.to_fahrenheit = self.to_fahrenheit + 1;
            },
        }
    }

    /// Returns the counts and starts both counters again at zero.
    pub fn take(&mut self) -> (seen: Counters)
        ensures
            seen == *old(self),
            *final(self) == (Counters { to_celsius: 0, to_fahrenheit: 0 }),
    {
        let seen = *self;
        self.reset();
        seen
    }

    /// Starts both counters again at zero.
    pub fn reset(&mut self)
        ensures
            *final(self) == (Counters { to_celsius: 0, to_fahrenheit: 0 }),
    {
        self.to_celsius = 0;
        self.to_fahrenheit = 0;
    }
}

/// The mutex of the standard library, `std::sync::Mutex`, taken as an
/// opaque type: nothing is known here of what it guards.
#[verifier::external_type_specification]
#[verifier::external_body]
#[verifier::reject_recursive_types(T)]
pub struct ExMutex<T: ?Sized>(Mutex<T>);

/// Calls `Mutex::new`. Trusted to return; nothing is claimed of the mutex.
#[verifier::external_body]
fn guarded(counters: Counters) -> (mutex: Mutex<Counters>) {
    Mutex::new(counters)
}

/// The counters of the running service, shared between its handlers.
#[derive(Debug)]
pub struct UsageStats {
    pub counters: Mutex<Counters>,
}

impl UsageStats {
    /// Shared counters that start at zero.
    pub fn new() -> UsageStats {
        UsageStats { counters: guarded(Counters::default()) }
    }
}

impl Default for UsageStats {
    fn default() -> UsageStats {
        UsageStats::new()
    }
}

} // verus!
