use ai_ask::proxy::resolve_proxy_choice;
use ai_ask::proxy::sanitize_for_directory;
use ai_ask::proxy::ProxySelection;
use ai_ask::proxy::ProxyTestConfig;

#[test]
fn sanitize_for_directory_replaces_non_alphanumeric() {
    let sanitized = sanitize_for_directory("http://127.0.0.1:8080/path?query");
    assert_eq!(sanitized, "http___127_0_0_1_8080_path_query");
}

#[test]
fn sanitize_for_directory_keeps_alphanumeric() {
    let sanitized = sanitize_for_directory("abcXYZ123");
    assert_eq!(sanitized, "abcXYZ123");
}

fn config(proxy_type: &str, host: Option<&str>, port: Option<&str>) -> ProxyTestConfig {
    ProxyTestConfig {
        proxy_type: proxy_type.to_string(),
        host: host.map(|h| h.to_string()),
        port: port.map(|p| p.to_string()),
    }
}

#[test]
fn custom_proxy_builds_url_from_host_and_port() {
    let choice = resolve_proxy_choice(&config("custom", Some(" 127.0.0.1 "), Some("8080"))).unwrap();
    match choice {
        ProxySelection::Custom(url) => assert_eq!(url, "http://127.0.0.1:8080"),
        other => panic!("expected a custom proxy, got {:?}", other),
    }
}

#[test]
fn custom_proxy_keeps_explicit_scheme() {
    let choice =
        resolve_proxy_choice(&config("custom", Some("socks5://10.0.0.1:1080"), Some("9"))).unwrap();
    match choice {
        ProxySelection::Custom(url) => assert_eq!(url, "socks5://10.0.0.1:1080"),
        other => panic!("expected a custom proxy, got {:?}", other),
    }
}

#[test]
fn custom_proxy_requires_host_and_port() {
    let missing_host = resolve_proxy_choice(&config("custom", None, Some("8080"))).unwrap_err();
    assert_eq!(missing_host, "Proxy host cannot be empty");

    let blank_host = resolve_proxy_choice(&config("custom", Some("  "), Some("8080"))).unwrap_err();
    assert_eq!(blank_host, "Proxy host cannot be empty");

    let missing_port =
        resolve_proxy_choice(&config("custom", Some("localhost"), None)).unwrap_err();
    assert_eq!(missing_port, "Proxy port cannot be empty");
}

#[test]
fn system_and_none_resolve_directly() {
    assert!(matches!(
        resolve_proxy_choice(&config("system", None, None)),
        Ok(ProxySelection::System)
    ));
    assert!(matches!(
        resolve_proxy_choice(&config("none", None, None)),
        Ok(ProxySelection::NoProxy)
    ));
}

#[test]
fn unknown_proxy_type_is_rejected_by_name() {
    let err = resolve_proxy_choice(&config("ftp", Some("h"), Some("1"))).unwrap_err();
    assert_eq!(err, "Unsupported proxy type: ftp");
}
