use hello_actix::endpoint::ApiEndpoint;
use hello_actix::usage::Counters;

#[test]
fn counters_start_at_zero() {
    assert_eq!(Counters::default(), Counters { to_celsius: 0, to_fahrenheit: 0 });
}

#[test]
fn record_counts_the_endpoint_and_no_other() {
    let mut counters = Counters::default();
    counters.record(ApiEndpoint::ToCelsius);
    counters.record(ApiEndpoint::ToCelsius);
    counters.record(ApiEndpoint::ToFahrenheit);
    assert_eq!(counters, Counters { to_celsius: 2, to_fahrenheit: 1 });
}

#[test]
fn record_counts_up_to_the_limit() {
    let mut counters = Counters { to_celsius: u32::MAX - 1, to_fahrenheit: 0 };
    counters.record(ApiEndpoint::ToCelsius);
    assert_eq!(counters.to_celsius, u32::MAX);
}

#[test]
fn take_returns_the_counts_and_resets() {
    let mut counters = Counters { to_celsius: 3, to_fahrenheit: 4 };
    assert_eq!(counters.take(), Counters { to_celsius: 3, to_fahrenheit: 4 });
    assert_eq!(counters, Counters::default());
    assert_eq!(counters.take(), Counters::default());
}

#[test]
fn reset_starts_again_at_zero() {
    let mut counters = Counters { to_celsius: 3, to_fahrenheit: 4 };
    counters.reset();
    assert_eq!(counters, Counters { to_celsius: 0, to_fahrenheit: 0 });
}

#[test]
fn shared_counters_start_at_zero() {
    let stats = hello_actix::UsageStats::new();
    assert_eq!(*stats.counters.lock().unwrap(), Counters::default());
    let other = hello_actix::usage::UsageStats::default();
    other.counters.lock().unwrap().record(ApiEndpoint::ToFahrenheit);
    assert_eq!(other.counters.lock().unwrap().take(), Counters { to_celsius: 0, to_fahrenheit: 1 });
}
