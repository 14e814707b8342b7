use pertaasr::request::{reqwest_method, request_template, target_host, target_uri, HttpMethod, TemplateError};

#[test]
fn method_names_ignore_case() {
    assert_eq!(reqwest_method("get".to_string()), HttpMethod::Get);
    assert_eq!(reqwest_method("PoSt".to_string()), HttpMethod::Post);
    assert_eq!(reqwest_method("PUT".to_string()), HttpMethod::Put);
    assert_eq!(reqwest_method("delete".to_string()), HttpMethod::Delete);
    assert_eq!(reqwest_method("Patch".to_string()), HttpMethod::Patch);
    assert_eq!(reqwest_method("head".to_string()), HttpMethod::Head);
    assert_eq!(reqwest_method("options".to_string()), HttpMethod::Options);
    assert_eq!(reqwest_method("TRACE".to_string()), HttpMethod::Trace);
    assert_eq!(reqwest_method("connect".to_string()), HttpMethod::Connect);
}

#[test]
fn unknown_method_is_get() {
    assert_eq!(reqwest_method("FETCH".to_string()), HttpMethod::Get);
    assert_eq!(reqwest_method("".to_string()), HttpMethod::Get);
    assert_eq!(reqwest_method("GETS".to_string()), HttpMethod::Get);
    assert_eq!(reqwest_method("pöst".to_string()), HttpMethod::Get);
}

#[test]
fn host_is_text_before_colon() {
    assert_eq!(target_host("localhost:8080"), "localhost");
    assert_eq!(target_host("example.com"), "example.com");
    assert_eq!(target_host(":80"), "");
    assert_eq!(target_host("a:b:c"), "a");
}

#[test]
fn uri_of_target() {
    assert_eq!(target_uri("127.0.0.1:8080"), "http://127.0.0.1:8080/");
}

#[test]
fn template_is_a_keep_alive_get() {
    let bytes = request_template("127.0.0.1:8080").unwrap();
    let text = String::from_utf8(bytes).unwrap();
    assert!(text.starts_with("GET http://127.0.0.1:8080/ HTTP/1.1\r\n"), "{}", text);
    assert!(text.contains("host: 127.0.0.1\r\n"), "{}", text);
    assert!(text.contains("connection: keep-alive\r\n"), "{}", text);
    assert!(text.ends_with("\r\n\r\n"), "{}", text);
}

#[test]
fn template_refuses_bad_target() {
    assert_eq!(request_template("bad host:80").unwrap_err(), TemplateError::InvalidTarget);
}
