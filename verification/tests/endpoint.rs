use hello_actix::encoding::same_text;
use hello_actix::endpoint::{ApiEndpoint, UnknownApiEndpoint};

#[test]
fn endpoints_have_their_stored_names() {
    assert_eq!(ApiEndpoint::ToCelsius.as_str(), "to-celsius");
    assert_eq!(ApiEndpoint::ToFahrenheit.as_str(), "to-fahrenheit");
}

#[test]
fn names_are_read_back() {
    assert_eq!(ApiEndpoint::from_str("to-celsius"), Ok(ApiEndpoint::ToCelsius));
    assert_eq!(ApiEndpoint::from_str("to-fahrenheit"), Ok(ApiEndpoint::ToFahrenheit));
    assert_eq!(ApiEndpoint::from_str(ApiEndpoint::ToCelsius.as_str()), Ok(ApiEndpoint::ToCelsius));
    assert_eq!("to-fahrenheit".parse::<ApiEndpoint>(), Ok(ApiEndpoint::ToFahrenheit));
}

#[test]
fn other_names_are_unknown() {
    assert_eq!(
        ApiEndpoint::from_str("to-kelvin"),
        Err(UnknownApiEndpoint("to-kelvin".to_string()))
    );
    assert_eq!(ApiEndpoint::from_str(""), Err(UnknownApiEndpoint(String::new())));
    assert_eq!(
        ApiEndpoint::from_str("To-Celsius"),
        Err(UnknownApiEndpoint("To-Celsius".to_string()))
    );
    assert_eq!(
        "to-celsius ".parse::<ApiEndpoint>(),
        Err(UnknownApiEndpoint("to-celsius ".to_string()))
    );
}

#[test]
fn an_unknown_name_is_shown_in_brackets() {
    let error = UnknownApiEndpoint("to-kelvin".to_string());
    assert_eq!(error.message(), "unknown API endpoint (to-kelvin)");
    assert_eq!(UnknownApiEndpoint(String::new()).message(), "unknown API endpoint ()");
}

#[test]
fn texts_are_compared_by_their_characters() {
    assert!(same_text("abc", "abc"));
    assert!(same_text("", ""));
    assert!(!same_text("abc", "abd"));
    assert!(!same_text("abc", "ab"));
}
