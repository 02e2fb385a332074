use gemini_marketplace::error::MarketplaceError;

#[test]
fn io_error_message_quotes_the_path() {
    let err = MarketplaceError::Io { path: "/tmp/a \"b\"".to_string(), message: "denied".to_string() };
    assert_eq!(err.message(), "I/O error at \"/tmp/a \\\"b\\\"\": denied");
}

#[test]
fn configuration_error_message_carries_the_text() {
    let err = MarketplaceError::Configuration("bad ttl".to_string());
    assert_eq!(err.message(), "configuration error: bad ttl");
}
