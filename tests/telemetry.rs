use y_sweet::telemetry::{
    agent_endpoint_from_env, configure_datadog_otlp_env, direct_ingest_endpoint,
    endpoint_requires_datadog_api_key, extract_port, sanitize_endpoint, non_empty_env, parse_u16, push_decimal,
    str_contains, user_defined_endpoint, TraceEnv,
};

fn empty_env() -> TraceEnv {
    TraceEnv {
        otel_traces_endpoint: None,
        otel_general_endpoint: None,
        otel_traces_headers: None,
        otel_general_headers: None,
        y_sweet_otlp_endpoint: None,
        dd_otlp_grpc_endpoint: None,
        dd_trace_agent_url: None,
        y_sweet_datadog_agent_host: None,
        dd_otlp_grpc_host: None,
        dd_agent_host: None,
        dd_trace_agent_hostname: None,
        y_sweet_datadog_agent_port: None,
        dd_otlp_grpc_port: None,
        y_sweet_datadog_agent_scheme: None,
        dd_otlp_grpc_scheme: None,
        dd_api_key: None,
        dd_site: None,
    }
}

fn s(v: &str) -> Option<String> {
    Some(v.to_string())
}

#[test]
fn blank_values_count_as_unset() {
    assert_eq!(non_empty_env(&None), None);
    assert_eq!(non_empty_env(&s("  \t\n")), None);
    assert_eq!(non_empty_env(&s("\u{3000}")), None);
    assert_eq!(non_empty_env(&s(" x ")), s(" x "));
}

#[test]
fn ports_of_endpoints() {
    assert_eq!(extract_port("http://localhost:4318"), Some(4318));
    assert_eq!(extract_port("127.0.0.1:4317"), Some(4317));
    assert_eq!(extract_port("localhost:4317"), None);
    assert_eq!(extract_port("https://example.com"), None);
    assert_eq!(extract_port("http://example.com:80"), None);
}

#[test]
fn datadog_hosts_need_a_key() {
    assert!(endpoint_requires_datadog_api_key("https://otlp.datadoghq.com:4317"));
    assert!(!endpoint_requires_datadog_api_key("otlp.datadoghq.eu:4317"));
    assert!(endpoint_requires_datadog_api_key("//otlp.datadoghq.eu:4317"));
    assert!(!endpoint_requires_datadog_api_key("http://agent:4317"));
    assert!(str_contains("abcdef", "cde"));
    assert!(str_contains("abc", ""));
    assert!(!str_contains("abc", "abcd"));
}

#[test]
fn user_endpoint_precedence() {
    let mut env = empty_env();
    assert!(user_defined_endpoint(&env).is_none());
    env.dd_trace_agent_url = s("http://agent:8126");
    assert!(user_defined_endpoint(&env).is_none());
    env.dd_trace_agent_url = s("http://agent:4318");
    let e = user_defined_endpoint(&env).unwrap();
    assert_eq!((e.value.as_str(), e.source.as_str(), e.requires_api_key), ("http://agent:4318", "DD_TRACE_AGENT_URL", false));
    env.dd_otlp_grpc_endpoint = s("https://otlp.datadoghq.com:4317");
    let e = user_defined_endpoint(&env).unwrap();
    assert_eq!((e.source.as_str(), e.requires_api_key), ("DD_OTLP_GRPC_ENDPOINT", true));
    env.y_sweet_otlp_endpoint = s("http://collector:4317");
    let e = user_defined_endpoint(&env).unwrap();
    assert_eq!((e.value.as_str(), e.source.as_str(), e.requires_api_key), ("http://collector:4317", "Y_SWEET_OTLP_ENDPOINT", false));
}

#[test]
fn agent_endpoint() {
    let mut env = empty_env();
    assert!(agent_endpoint_from_env(&env).is_none());
    env.dd_agent_host = s("dd-agent");
    let e = agent_endpoint_from_env(&env).unwrap();
    assert_eq!((e.value.as_str(), e.source.as_str()), ("http://dd-agent:4317", "DD_AGENT_HOST"));
    env.y_sweet_datadog_agent_host = s("mine");
    env.dd_otlp_grpc_port = s("+04318");
    env.dd_otlp_grpc_scheme = s("https");
    assert_eq!(agent_endpoint_from_env(&env).unwrap().value, "https://mine:4318");
    env.y_sweet_datadog_agent_port = s("99999");
    assert_eq!(agent_endpoint_from_env(&env).unwrap().value, "https://mine:4317");
}

#[test]
fn direct_ingest() {
    let mut env = empty_env();
    assert!(direct_ingest_endpoint(&env).is_none());
    env.dd_api_key = s("SECRET-REDACTED");
    let e = direct_ingest_endpoint(&env).unwrap();
    assert_eq!((e.value.as_str(), e.source.as_str(), e.requires_api_key), ("https://otlp.datadoghq.com:4317", "DD_SITE", true));
    env.dd_site = s("datadoghq.eu");
    assert_eq!(direct_ingest_endpoint(&env).unwrap().value, "https://otlp.datadoghq.eu:4317");
    env.dd_trace_agent_hostname = s("agent");
    assert!(direct_ingest_endpoint(&env).is_none());
}

#[test]
fn bootstrap_sets_endpoint_and_headers() {
    let mut env = empty_env();
    env.dd_api_key = s("k1");
    let b = configure_datadog_otlp_env(&env);
    assert_eq!(b.set_traces_endpoint, s("https://otlp.datadoghq.com:4317"));
    assert_eq!(b.set_general_headers, s("DD-API-KEY=k1"));
    assert_eq!(b.headers_source, s("DD_API_KEY"));
    assert!(b.requires_api_key);
    assert!(!b.missing_api_key);

    let mut env = empty_env();
    env.otel_traces_endpoint = s("https://trace.datadoghq.com");
    let b = configure_datadog_otlp_env(&env);
    assert_eq!(b.set_traces_endpoint, None);
    assert_eq!(b.endpoint_source, s("preconfigured"));
    assert!(b.missing_api_key);

    let mut env = empty_env();
    env.otel_general_endpoint = s("https://trace.datadoghq.com");
    env.otel_general_headers = s("x=y");
    let b = configure_datadog_otlp_env(&env);
    assert_eq!(b.set_general_headers, None);
    assert!(!b.missing_api_key);

    let b = configure_datadog_otlp_env(&empty_env());
    assert_eq!(b.configured_endpoint, None);
    assert!(!b.requires_api_key);
}

#[test]
fn numbers() {
    assert_eq!(parse_u16("80"), Some(80));
    assert_eq!(parse_u16("+80"), Some(80));
    assert_eq!(parse_u16("65535"), Some(65535));
    assert_eq!(parse_u16("65536"), None);
    assert_eq!(parse_u16("1000000"), None);
    assert_eq!(parse_u16(""), None);
    assert_eq!(parse_u16("+"), None);
    assert_eq!(parse_u16("-1"), None);
    assert_eq!(parse_u16("4a"), None);
    let mut out = String::from("p:");
    push_decimal(&mut out, 4317);
    push_decimal(&mut out, 0);
    assert_eq!(out, "p:43170");
}

#[test]
fn sanitized_endpoints() {
    assert_eq!(sanitize_endpoint("https://user:pw@otlp.example.com:4317/v1?x=1"), "https://otlp.example.com:4317");
    assert_eq!(sanitize_endpoint("https://otlp.example.com/path"), "https://otlp.example.com");
    assert_eq!(sanitize_endpoint("127.0.0.1:4317"), "http://127.0.0.1:4317");
    assert_eq!(sanitize_endpoint("//collector"), "http://collector");
}
