use fieri::config::Config;

#[test]
fn new_config_uses_production_endpoint() {
    let c = Config::new(String::from("SECRET-REDACTED"));
    assert_eq!(c.api_key(), "SECRET-REDACTED");
    assert_eq!(c.url(), "https://api.openai.com/v1/");
    assert!(c.headers.is_empty());
    assert_eq!(c.organization, "");
    assert!(url::Url::parse(c.url()).is_ok());
}

#[test]
fn default_config_is_empty_but_for_the_endpoint() {
    let c = Config::default();
    assert_eq!(c.api_key(), "");
    assert_eq!(c.url(), "https://api.openai.com/v1/");
    assert!(c.headers.is_empty());
}

#[test]
fn headers_replaces_only_headers() {
    let c = Config::new(String::from("k"));
    let c = c.headers(vec![(String::from("x-test"), String::from("1"))]);
    assert_eq!(c.api_key(), "k");
    assert_eq!(c.url(), "https://api.openai.com/v1/");
    assert_eq!(c.headers.len(), 1);
    assert_eq!(c.headers[0].0, "x-test");
    assert_eq!(c.headers[0].1, "1");
}
