//! Choosing where traces are exported, from the values of the process environment.
use vstd::prelude::*;
use crate::keys::{concat, opt_seq};
use crate::urls::{parse_url, parsed_url, UrlParts};

verus! {

/// The environment variables that decide where traces go, as read at startup.
pub struct TraceEnv {
    pub otel_traces_endpoint: Option<String>,
    pub otel_general_endpoint: Option<String>,
    pub otel_traces_headers: Option<String>,
    pub otel_general_headers: Option<String>,
    pub y_sweet_otlp_endpoint: Option<String>,
    pub dd_otlp_grpc_endpoint: Option<String>,
    pub dd_trace_agent_url: Option<String>,
    pub y_sweet_datadog_agent_host: Option<String>,
    pub dd_otlp_grpc_host: Option<String>,
    pub dd_agent_host: Option<String>,
    pub dd_trace_agent_hostname: Option<String>,
    pub y_sweet_datadog_agent_port: Option<String>,
    pub dd_otlp_grpc_port: Option<String>,
    pub y_sweet_datadog_agent_scheme: Option<String>,
    pub dd_otlp_grpc_scheme: Option<String>,
    pub dd_api_key: Option<String>,
    pub dd_site: Option<String>,
}

/// An export endpoint, where it was configured, and whether it needs an API key header.
pub struct EndpointSetting {
    pub value: String,
    pub source: String,
    pub requires_api_key: bool,
}

/// The view of an endpoint setting.
pub open spec fn setting_view(s: Option<EndpointSetting>) -> Option<(Seq<char>, Seq<char>, bool)> {
    match s {
        Some(e) => Some((e.value@, e.source@, e.requires_api_key)),
        None => None,
    }
}

/// Unicode's `White_Space` characters.
pub open spec fn is_white_space(c: char) -> bool {
    ('\u{9}' <= c && c <= '\u{d}') || c == ' ' || c == '\u{85}' || c == '\u{a0}' || c
        == '\u{1680}' || ('\u{2000}' <= c && c <= '\u{200a}') || c == '\u{2028}' || c == '\u{2029}'
        || c == '\u{202f}' || c == '\u{205f}' || c == '\u{3000}'
}

/// `s` holds a character other than whitespace.
pub open spec fn has_content(s: Seq<char>) -> bool {
    exists|i: int| 0 <= i < s.len() && !is_white_space(#[trigger] s[i])
}

/// A value set to something other than whitespace.
pub open spec fn non_empty(v: Option<Seq<char>>) -> Option<Seq<char>> {
    match v {
        Some(s) => if has_content(s) {
            Some(s)
        } else {
            None
        },
        None => None,
    }
}

/// The first of two values that is set to something other than whitespace.
pub open spec fn first_non_empty(a: Option<Seq<char>>, b: Option<Seq<char>>) -> Option<Seq<char>> {
    if non_empty(a) is Some {
        non_empty(a)
    } else {
        non_empty(b)
    }
}

/// The value of an environment variable where it is set to something other than whitespace.
pub fn non_empty_env(value: &Option<String>) -> (r: Option<String>)
    ensures
        opt_seq(r) == non_empty(opt_seq(*value)),
{
    match value {
        None => None,
        Some(s) => {
            let n = s.unicode_len();
            let mut i: usize = 0;
            while i < n
                invariant
                    n == s@.len(),
                    i <= n,
                    opt_seq(*value) == Some(s@),
                    forall|j: int| 0 <= j < i ==> is_white_space(#[trigger] s@[j]),
                decreases n - i,
            {
                let c = s.get_char(i);
                let ws = ('\u{9}' <= c && c <= '\u{d}') || c == ' ' || c == '\u{85}' || c
                    == '\u{a0}' || c == '\u{1680}' || ('\u{2000}' <= c && c <= '\u{200a}') || c
                    == '\u{2028}' || c == '\u{2029}' || c == '\u{202f}' || c == '\u{205f}' || c
                    == '\u{3000}';
                if !ws {
                    assert(!is_white_space(s@[i as int]));
                    assert(has_content(s@));
                    return Some(s.clone());
                }
                i = i + 1;
            }
            None
        },
    }
}

/// The URL that an endpoint stands for: itself where it parses, else itself after
/// `http://`.
pub open spec fn endpoint_url(s: Seq<char>) -> Option<(Seq<char>, Option<Seq<char>>, Option<u16>)> {
    match parsed_url(s) {
        Some(u) => Some(u),
        None => parsed_url("http://"@ + s),
    }
}

fn endpoint_parts(endpoint: &str) -> (r: Option<UrlParts>)
    ensures
        match r {
            Some(p) => endpoint_url(endpoint@) == Some((p.scheme@, opt_seq(p.host), p.port)),
            None => endpoint_url(endpoint@) is None,
        },
{
    match parse_url(endpoint) {
        Some(u) => Some(u),
        None => {
            let with_scheme = concat("http://", endpoint);
            parse_url(with_scheme.as_str())
        },
    }
}

/// The port of an endpoint.
pub open spec fn endpoint_port(s: Seq<char>) -> Option<u16> {
    match endpoint_url(s) {
        Some(u) => u.2,
        None => None,
    }
}

/// The port of an endpoint, given as a URL or as `host:port`.
pub fn extract_port(endpoint: &str) -> (r: Option<u16>)
    ensures
        r == endpoint_port(endpoint@),
{
    match endpoint_parts(endpoint) {
        Some(u) => u.port,
        None => None,
    }
}

/// `t` occurs in `s`.
pub open spec fn contains_seq(s: Seq<char>, t: Seq<char>) -> bool {
    exists|i: int| 0 <= i && i + t.len() <= s.len() && #[trigger] s.subrange(i, i + t.len()) == t
}

/// Whether `t` occurs in `s`.
pub fn str_contains(s: &str, t: &str) -> (r: bool)
    ensures
        r == contains_seq(s@, t@),
{
    let n = s.unicode_len();
    let m = t.unicode_len();
    if m > n {
        return false;
    }
    let mut i: usize = 0;
    while i <= n - m
        invariant
            n == s@.len(),
            m == t@.len(),
            m <= n,
            i <= n - m + 1,
            forall|k: int| 0 <= k < i ==> #[trigger] s@.subrange(k, k + m) != t@,
        decreases n - m + 1 - i,
    {
        let mut j: usize = 0;
        let mut same = true;
        while j < m
            invariant
                n == s@.len(),
                m == t@.len(),
                i + m <= n,
                j <= m,
                same == (forall|k: int| 0 <= k < j ==> s@[i + k] == t@[k]),
            decreases m - j,
        {
            if s.get_char(i + j) != t.get_char(j) {
                same = false;
            }
            j = j + 1;
        }
        if same {
            assert(s@.subrange(i as int, i + m) =~= t@);
            return true;
        }
        assert(s@.subrange(i as int, i + m) != t@) by {
            let k = choose|k: int| 0 <= k < m && s@[i + k] != t@[k];
            assert(s@.subrange(i as int, i + m)[k] == s@[i + k]);
        }
        i = i + 1;
    }
    assert forall|k: int| 0 <= k && k + t@.len() <= s@.len() implies #[trigger] s@.subrange(
        k,
        k + t@.len(),
    ) != t@ by {
        assert(k < i);
    }
    false
}

/// Endpoints on Datadog's own hosts need an API key.
pub open spec fn needs_api_key(endpoint: Seq<char>) -> bool {
    match endpoint_url(endpoint) {
        Some(u) => match u.1 {
            Some(h) => contains_seq(h, "datadoghq"@),
            None => false,
        },
        None => false,
    }
}

/// Whether an endpoint is one of Datadog's own, which need an API key.
pub fn endpoint_requires_datadog_api_key(endpoint: &str) -> (r: bool)
    ensures
        r == needs_api_key(endpoint@),
{
    match endpoint_parts(endpoint) {
        Some(u) => match u.host {
            Some(h) => str_contains(h.as_str(), "datadoghq"),
            None => false,
        },
        None => false,
    }
}

/// The endpoint that the user set explicitly: the library's own variable, Datadog's OTLP
/// endpoint, or Datadog's agent URL where it names an OTLP port.
pub open spec fn user_endpoint_of(env: &TraceEnv) -> Option<(Seq<char>, Seq<char>, bool)> {
    if let Some(v) = non_empty(opt_seq(env.y_sweet_otlp_endpoint)) {
        Some((v, "Y_SWEET_OTLP_ENDPOINT"@, false))
    } else if let Some(v) = non_empty(opt_seq(env.dd_otlp_grpc_endpoint)) {
        Some((v, "DD_OTLP_GRPC_ENDPOINT"@, needs_api_key(v)))
    } else if let Some(v) = non_empty(opt_seq(env.dd_trace_agent_url)) {
        if endpoint_port(v) == Some(4317u16) || endpoint_port(v) == Some(4318u16) {
            Some((v, "DD_TRACE_AGENT_URL"@, needs_api_key(v)))
        } else {
            None
        }
    } else {
        None
    }
}

/// The endpoint that the user set explicitly, if any.
pub fn user_defined_endpoint(env: &TraceEnv) -> (r: Option<EndpointSetting>)
    ensures
        setting_view(r) == user_endpoint_of(env),
{
    if let Some(value) = non_empty_env(&env.y_sweet_otlp_endpoint) {
        return Some(
            EndpointSetting {
                value,
                source: String::from_str("Y_SWEET_OTLP_ENDPOINT"),
                requires_api_key: false,
            },
        );
    }
    if let Some(value) = non_empty_env(&env.dd_otlp_grpc_endpoint) {
        let requires_api_key = endpoint_requires_datadog_api_key(value.as_str());
        return Some(
            EndpointSetting {
                value,
                source: String::from_str("DD_OTLP_GRPC_ENDPOINT"),
                requires_api_key,
            },
        );
    }
    if let Some(value) = non_empty_env(&env.dd_trace_agent_url) {
        let port = extract_port(value.as_str());
        if port == Some(4317u16) || port == Some(4318u16) {
            let requires_api_key = endpoint_requires_datadog_api_key(value.as_str());
            return Some(
                EndpointSetting {
                    value,
                    source: String::from_str("DD_TRACE_AGENT_URL"),
                    requires_api_key,
                },
            );
        }
    }
    None
}

/// The value of a decimal digit string.
pub open spec fn digits_value(d: Seq<char>) -> int
    decreases d.len(),
{
    if d.len() == 0 {
        0
    } else {
        digits_value(d.drop_last()) * 10 + (d.last() as int - '0' as int)
    }
}

pub open spec fn is_digit(c: char) -> bool {
    '0' <= c && c <= '9'
}

/// Every character of `d` is a decimal digit.
pub open spec fn all_digits(d: Seq<char>) -> bool {
    forall|i: int| 0 <= i < d.len() ==> is_digit(#[trigger] d[i])
}

/// What parsing `s` as a `u16` gives: an optional `+`, then one or more decimal digits of
/// a value that fits.
pub open spec fn parsed_u16(s: Seq<char>) -> Option<u16> {
    let d = if s.len() > 0 && s[0] == '+' {
        s.drop_first()
    } else {
        s
    };
    if d.len() > 0 && all_digits(d) && digits_value(d) <= u16::MAX {
        Some(digits_value(d) as u16)
    } else {
        None
    }
}

proof fn lemma_digits_value_nonneg(d: Seq<char>)
    requires
        forall|i: int| 0 <= i < d.len() ==> is_digit(#[trigger] d[i]),
    ensures
        digits_value(d) >= 0,
    decreases d.len(),
{
    if d.len() > 0 {
        lemma_digits_value_nonneg(d.drop_last());
    }
}

/// Parses a port number as `u16`'s `FromStr` does.
pub fn parse_u16(s: &str) -> (r: Option<u16>)
    ensures
        r == parsed_u16(s@),
{
    let n = s.unicode_len();
    let start: usize = if n > 0 && s.get_char(0) == '+' {
        1
    } else {
        0
    };
    let ghost d = if s@.len() > 0 && s@[0] == '+' {
        s@.drop_first()
    } else {
        s@
    };
    assert(d == s@.subrange(start as int, n as int));
    if start == n {
        return None;
    }
    let mut acc: u32 = 0;
    let mut over = false;
    let mut i: usize = start;
    while i < n
        invariant
            n == s@.len(),
            start <= i <= n,
            d == s@.subrange(start as int, n as int),
            d == (if s@.len() > 0 && s@[0] == '+' {
                s@.drop_first()
            } else {
                s@
            }),
            forall|k: int| start <= k < i ==> is_digit(#[trigger] s@[k]),
            !over ==> acc as int == digits_value(s@.subrange(start as int, i as int)) && acc
                <= u16::MAX,
            over ==> digits_value(s@.subrange(start as int, i as int)) > u16::MAX,
        decreases n - i,
    {
        let c = s.get_char(i);
        if !('0' <= c && c <= '9') {
            assert(d[i - start] == c);
            assert(!is_digit(d[i - start]));
            assert(!all_digits(d));
            return None;
        }
        let ghost pre = s@.subrange(start as int, i as int);
        assert(s@.subrange(start as int, i + 1).drop_last() == pre);
        assert(s@.subrange(start as int, i + 1).last() == c);
        let digit = (c as u32) - ('0' as u32);
        if !over {
            let next = acc * 10 + digit;
            if next > u16::MAX as u32 {
                over = true;
            } else {
                acc = next;
            }
        } else {
            proof {
                assert forall|k: int| 0 <= k < pre.len() implies is_digit(#[trigger] pre[k]) by {
                    assert(pre[k] == s@[start + k]);
                }
                lemma_digits_value_nonneg(pre);
            }
        }
        i = i + 1;
    }
    assert(s@.subrange(start as int, n as int) == d);
    assert(all_digits(d)) by {
        assert forall|k: int| 0 <= k < d.len() implies is_digit(#[trigger] d[k]) by {
            assert(d[k] == s@[start + k]);
        }
    }
    if over {
        None
    } else {
        Some(acc as u16)
    }
}

/// The decimal digits of `n`.
pub open spec fn decimal(n: nat) -> Seq<char>
    decreases n,
{
    if n < 10 {
        seq!["0123456789"@[n as int]]
    } else {
        decimal(n / 10) + seq!["0123456789"@[(n % 10) as int]]
    }
}

/// Appends the decimal digits of `n` to `out`.
pub fn push_decimal(out: &mut String, n: u32)
    ensures
        final(out)@ == old(out)@ + decimal(n as nat),
    decreases n,
{
    let digits = "0123456789";
    proof {
        reveal_strlit("0123456789");
    }
    if n >= 10 {
        push_decimal(out, n / 10);
    }
    let d = (n % 10) as usize;
    out.append(digits.substring_char(d, d + 1));
    assert(digits@.subrange(d as int, d + 1) == seq![digits@[d as int]]);
}

/// The default OTLP port.
pub const OTLP_GRPC_PORT: u16 = 4317;

/// The port of the agent: the first port variable that is set, where it parses, else the
/// default OTLP port.
pub open spec fn agent_port_of(env: &TraceEnv) -> u16 {
    match first_non_empty(
        opt_seq(env.y_sweet_datadog_agent_port),
        opt_seq(env.dd_otlp_grpc_port),
    ) {
        Some(p) => match parsed_u16(p) {
            Some(n) => n,
            None => OTLP_GRPC_PORT,
        },
        None => OTLP_GRPC_PORT,
    }
}

/// The agent's host: the first of the host variables that is set.
pub open spec fn agent_host_of(env: &TraceEnv) -> Option<Seq<char>> {
    first_non_empty(
        first_non_empty(opt_seq(env.y_sweet_datadog_agent_host), opt_seq(env.dd_otlp_grpc_host)),
        first_non_empty(opt_seq(env.dd_agent_host), opt_seq(env.dd_trace_agent_hostname)),
    )
}

/// The scheme to reach the agent with: the first scheme variable that is set, else `http`.
pub open spec fn agent_scheme_of(env: &TraceEnv) -> Seq<char> {
    match first_non_empty(
        opt_seq(env.y_sweet_datadog_agent_scheme),
        opt_seq(env.dd_otlp_grpc_scheme),
    ) {
        Some(s) => s,
        None => "http"@,
    }
}

/// The endpoint of a local agent, where a host for it is set: `scheme://host:port`.
pub open spec fn agent_endpoint_of(env: &TraceEnv) -> Option<(Seq<char>, Seq<char>, bool)> {
    match agent_host_of(env) {
        Some(host) => Some(
            (
                agent_scheme_of(env) + "://"@ + host + ":"@ + decimal(agent_port_of(env) as nat),
                "DD_AGENT_HOST"@,
                false,
            ),
        ),
        None => None,
    }
}

fn first_set(a: &Option<String>, b: &Option<String>) -> (r: Option<String>)
    ensures
        opt_seq(r) == first_non_empty(opt_seq(*a), opt_seq(*b)),
{
    match non_empty_env(a) {
        Some(v) => Some(v),
        None => non_empty_env(b),
    }
}

/// The endpoint of a local agent, where a host for it is set.
pub fn agent_endpoint_from_env(env: &TraceEnv) -> (r: Option<EndpointSetting>)
    ensures
        setting_view(r) == agent_endpoint_of(env),
{
    let h1 = first_set(&env.y_sweet_datadog_agent_host, &env.dd_otlp_grpc_host);
    let h2 = first_set(&env.dd_agent_host, &env.dd_trace_agent_hostname);
    let host = match first_set(&h1, &h2) {
        Some(h) => h,
        None => return None,
    };
    let port = match first_set(&env.y_sweet_datadog_agent_port, &env.dd_otlp_grpc_port) {
        Some(p) => match parse_u16(p.as_str()) {
            Some(n) => n,
            None => OTLP_GRPC_PORT,
        },
        None => OTLP_GRPC_PORT,
    };
    let mut value = match first_set(&env.y_sweet_datadog_agent_scheme, &env.dd_otlp_grpc_scheme) {
        Some(s) => s,
        None => String::from_str("http"),
    };
    value.append("://");
    value.append(host.as_str());
    value.append(":");
    push_decimal(&mut value, port as u32);
    Some(EndpointSetting { value, source: String::from_str("DD_AGENT_HOST"), requires_api_key: false })
}

/// Direct ingestion by Datadog's own OTLP endpoint for the configured site, where no agent
/// host is set and an API key is.
pub open spec fn direct_endpoint_of(env: &TraceEnv) -> Option<(Seq<char>, Seq<char>, bool)> {
    if non_empty(opt_seq(env.dd_agent_host)) is Some || non_empty(
        opt_seq(env.dd_trace_agent_hostname),
    ) is Some || non_empty(opt_seq(env.y_sweet_datadog_agent_host)) is Some {
        None
    } else if non_empty(opt_seq(env.dd_api_key)) is None {
        None
    } else {
        let site = match non_empty(opt_seq(env.dd_site)) {
            Some(s) => s,
            None => "datadoghq.com"@,
        };
        Some(("https://otlp."@ + site + ":4317"@, "DD_SITE"@, true))
    }
}

/// Datadog's own OTLP endpoint, where no agent host is set and an API key is.
pub fn direct_ingest_endpoint(env: &TraceEnv) -> (r: Option<EndpointSetting>)
    ensures
        setting_view(r) == direct_endpoint_of(env),
{
    if non_empty_env(&env.dd_agent_host).is_some() || non_empty_env(
        &env.dd_trace_agent_hostname,
    ).is_some() || non_empty_env(&env.y_sweet_datadog_agent_host).is_some() {
        return None;
    }
    if non_empty_env(&env.dd_api_key).is_none() {
        return None;
    }
    let site = match non_empty_env(&env.dd_site) {
        Some(s) => s,
        None => String::from_str("datadoghq.com"),
    };
    let mut value = String::from_str("https://otlp.");
    value.append(site.as_str());
    value.append(":4317");
    Some(EndpointSetting { value, source: String::from_str("DD_SITE"), requires_api_key: true })
}


/// The endpoint that the exporter will use: one already set in the exporter's own
/// variables, else the first of the user's, the agent's, and direct ingestion.
pub open spec fn chosen_endpoint_of(env: &TraceEnv) -> Option<(Seq<char>, Seq<char>, bool)> {
    match first_non_empty(opt_seq(env.otel_traces_endpoint), opt_seq(env.otel_general_endpoint)) {
        Some(v) => Some((v, "preconfigured"@, needs_api_key(v))),
        None => if user_endpoint_of(env) is Some {
            user_endpoint_of(env)
        } else if agent_endpoint_of(env) is Some {
            agent_endpoint_of(env)
        } else {
            direct_endpoint_of(env)
        },
    }
}

/// What to set in the environment before the exporter starts, and what to report.
pub struct TraceBootstrap {
    /// The value for the exporter's traces endpoint variable, where it must be set.
    pub set_traces_endpoint: Option<String>,
    /// The value for the exporter's headers variable, where it must be set.
    pub set_general_headers: Option<String>,
    pub configured_endpoint: Option<String>,
    pub endpoint_source: Option<String>,
    pub headers_source: Option<String>,
    pub requires_api_key: bool,
    /// The endpoint needs an API key, none is set, and no headers are either.
    pub missing_api_key: bool,
}

/// Decides the exporter's endpoint and authentication headers from the environment.
pub fn configure_datadog_otlp_env(env: &TraceEnv) -> (r: TraceBootstrap)
    ensures
        ({
            let chosen = chosen_endpoint_of(env);
            let preset = first_non_empty(
                opt_seq(env.otel_traces_endpoint),
                opt_seq(env.otel_general_endpoint),
            );
            let needs_key = chosen matches Some(c) && c.2;
            let headers_set = non_empty(opt_seq(env.otel_traces_headers)) is Some || non_empty(
                opt_seq(env.otel_general_headers),
            ) is Some;
            let key = non_empty(opt_seq(env.dd_api_key));
            &&& opt_seq(r.configured_endpoint) == (match chosen {
                Some(c) => Some(c.0),
                None => None,
            })
            &&& opt_seq(r.endpoint_source) == (match chosen {
                Some(c) => Some(c.1),
                None => None,
            })
            &&& r.requires_api_key == needs_key
            &&& opt_seq(r.set_traces_endpoint) == (if preset is None {
                match chosen {
                    Some(c) => Some(c.0),
                    None => None,
                }
            } else {
                None
            })
            &&& opt_seq(r.set_general_headers) == (if needs_key && !headers_set && key is Some {
                Some("DD-API-KEY="@ + key.unwrap())
            } else {
                None
            })
            &&& opt_seq(r.headers_source) == (if needs_key && !headers_set && key is Some {
                Some("DD_API_KEY"@)
            } else {
                None
            })
            &&& r.missing_api_key == (needs_key && !headers_set && key is None)
        }),
{
    let preset = first_set(&env.otel_traces_endpoint, &env.otel_general_endpoint);
    let chosen = match &preset {
        Some(v) => Some(
            EndpointSetting {
                value: v.clone(),
                source: String::from_str("preconfigured"),
                requires_api_key: endpoint_requires_datadog_api_key(v.as_str()),
            },
        ),
        None => match user_defined_endpoint(env) {
            Some(e) => Some(e),
            None => match agent_endpoint_from_env(env) {
                Some(e) => Some(e),
                None => direct_ingest_endpoint(env),
            },
        },
    };
    let mut r = TraceBootstrap {
        set_traces_endpoint: None,
        set_general_headers: None,
        configured_endpoint: None,
        endpoint_source: None,
        headers_source: None,
        requires_api_key: false,
        missing_api_key: false,
    };
    if let Some(e) = chosen {
        if preset.is_none() {
            r.set_traces_endpoint = Some(e.value.clone());
        }
        r.requires_api_key = e.requires_api_key;
        r.endpoint_source = Some(e.source);
        r.configured_endpoint = Some(e.value);
    }
    let headers_set = non_empty_env(&env.otel_traces_headers).is_some() || non_empty_env(
        &env.otel_general_headers,
    ).is_some();
    if r.requires_api_key && !headers_set {
        match non_empty_env(&env.dd_api_key) {
            Some(key) => {
                r.set_general_headers = Some(concat("DD-API-KEY=", key.as_str()));
                r.headers_source = Some(String::from_str("DD_API_KEY"));
            },
            None => {
                r.missing_api_key = true;
            },
        }
    }
    r
}


/// `scheme://host`, with `:port` where there is one.
pub open spec fn origin(scheme: Seq<char>, host: Seq<char>, port: Option<u16>) -> Seq<char> {
    match port {
        Some(p) => scheme + "://"@ + host + ":"@ + decimal(p as nat),
        None => scheme + "://"@ + host,
    }
}

/// An endpoint reduced to scheme, host and port, for logs: query, path and credentials
/// are dropped.
pub open spec fn sanitized(endpoint: Seq<char>) -> Seq<char> {
    match parsed_url(endpoint) {
        Some((scheme, host, port)) => origin(
            scheme,
            match host {
                Some(h) => h,
                None => endpoint,
            },
            port,
        ),
        None => match parsed_url("http://"@ + endpoint) {
            Some((scheme, host, port)) => {
                let h = match host {
                    Some(h) => h,
                    None => endpoint,
                };
                match port {
                    Some(_) => origin(scheme, h, port),
                    None => "http://"@ + h,
                }
            },
            None => endpoint,
        },
    }
}

fn origin_of(scheme: &str, host: &str, port: Option<u16>) -> (r: String)
    ensures
        r@ == origin(scheme@, host@, port),
{
    let mut r = concat(scheme, "://");
    r.append(host);
    if let Some(p) = port {
        r.append(":");
        push_decimal(&mut r, p as u32);
    }
    r
}

/// An endpoint reduced to scheme, host and port, for logs.
pub fn sanitize_endpoint(endpoint: &str) -> (r: String)
    ensures
        r@ == sanitized(endpoint@),
{
    if let Some(u) = parse_url(endpoint) {
        return match u.host {
            Some(h) => origin_of(u.scheme.as_str(), h.as_str(), u.port),
            None => origin_of(u.scheme.as_str(), endpoint, u.port),
        };
    }
    let with_scheme = concat("http://", endpoint);
    if let Some(u) = parse_url(with_scheme.as_str()) {
        let h = match u.host {
            Some(h) => h,
            None => endpoint.to_owned(),
        };
        return match u.port {
            Some(_) => origin_of(u.scheme.as_str(), h.as_str(), u.port),
            None => concat("http://", h.as_str()),
        };
    }
    endpoint.to_owned()
}

} // verus!
