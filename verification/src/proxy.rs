//! Proxy configuration: resolving a user's proxy settings into the choice
//! an HTTP client is built from, and the directory-name sanitizer that
//! isolates per-proxy browser profiles.

use vstd::prelude::*;

verus! {

use vstd::string::StrSliceExecFns;
use vstd::string::StringExecFns;
use crate::text::{push_char, seq_contains, spec_trim, str_contains_sub, str_eq_chars, trim_str};

/// A user's proxy settings as the command surface hands them over.
#[derive(Debug)]
pub struct ProxyTestConfig {
    pub proxy_type: String,
    pub host: Option<String>,
    pub port: Option<String>,
}

/// What an HTTP client is built with: an explicit proxy URL, the system
/// proxy, or none at all.
#[derive(Debug)]
pub enum ProxySelection {
    Custom(String),
    System,
    NoProxy,
}

/// Whether an optional setting holds any non-white-space text.
pub open spec fn setting_present(o: Option<String>) -> bool {
    o matches Some(s) && spec_trim(s@).len() > 0
}

/// The proxy URL a custom configuration resolves to: the host as given when
/// it already names a scheme, otherwise `http://host:port`.
pub open spec fn spec_proxy_url(host: Seq<char>, port: Seq<char>) -> Seq<char> {
    if seq_contains(host, "://"@) {
        host
    } else {
        "http://"@ + host + ":"@ + port
    }
}

/// Resolves a proxy configuration. A `custom` proxy needs a non-empty host
/// and port and yields their URL; `system` and `none` select the system
/// proxy and no proxy; anything else is rejected by name.
pub fn resolve_proxy_choice(config: &ProxyTestConfig) -> (r: Result<ProxySelection, String>)
    ensures
        config.proxy_type@ == "custom"@ ==> (if !setting_present(config.host) {
            r matches Err(m) && m@ == "Proxy host cannot be empty"@
        } else if !setting_present(config.port) {
            r matches Err(m) && m@ == "Proxy port cannot be empty"@
        } else {
            r matches Ok(s) && (s matches ProxySelection::Custom(u) && u@ == spec_proxy_url(
                spec_trim(config.host->Some_0@),
                spec_trim(config.port->Some_0@),
            ))
        }),
        config.proxy_type@ == "system"@ ==> (r matches Ok(s) && s is System),
        config.proxy_type@ == "none"@ ==> (r matches Ok(s) && s is NoProxy),
        !(config.proxy_type@ == "custom"@ || config.proxy_type@ == "system"@
            || config.proxy_type@ == "none"@) ==> (r matches Err(m) && m@
            == "Unsupported proxy type: "@ + config.proxy_type@),
{
    proof {
        reveal_strlit("custom");
        reveal_strlit("system");
        reveal_strlit("none");
        assert("custom"@[0] != "system"@[0]);
        assert("custom"@ != "system"@ && "custom"@ != "none"@ && "system"@ != "none"@);
    }
    if str_eq_chars(config.proxy_type.as_str(), "custom") {
        let host: &str = match &config.host {
            Some(h) => trim_str(h.as_str()),
            None => "",
        };
        proof {
            reveal_strlit("");
        }
        if host.unicode_len() == 0 {
            return Err("Proxy host cannot be empty".to_owned());
        }
        let port: &str = match &config.port {
            Some(p) => trim_str(p.as_str()),
            None => "",
        };
        if port.unicode_len() == 0 {
            return Err("Proxy port cannot be empty".to_owned());
        }
        let url: String = if str_contains_sub(host, "://") {
            host.to_owned()
        } else {
            let mut u: String = "http://".to_owned();
            u.append(host);
            u.append(":");
            u.append(port);
            u
        };
        Ok(ProxySelection::Custom(url))
    } else if str_eq_chars(config.proxy_type.as_str(), "system") {
        Ok(ProxySelection::System)
    } else if str_eq_chars(config.proxy_type.as_str(), "none") {
        Ok(ProxySelection::NoProxy)
    } else {
        let mut m: String = "Unsupported proxy type: ".to_owned();
        m.append(config.proxy_type.as_str());
        Err(m)
    }
}

/// A string with every character that is not ASCII alphanumeric replaced
/// by `_`.
pub open spec fn spec_sanitize_for_directory(s: Seq<char>) -> Seq<char> {
    s.map_values(
        |c: char|
            if ('a' <= c && c <= 'z') || ('A' <= c && c <= 'Z') || ('0' <= c && c <= '9') {
                c
            } else {
                '_'
            },
    )
}

/// Turns an arbitrary proxy URL into a directory-name-safe string: ASCII
/// letters and digits stay, everything else becomes `_`.
pub fn sanitize_for_directory(input: &str) -> (r: String)
    ensures
        r@ == spec_sanitize_for_directory(input@),
{
    let n = input.unicode_len();
    let mut out = String::new();
    let mut i: usize = 0;
    while i < n
        invariant
            0 <= i <= n,
            n == input@.len(),
            out@ =~= spec_sanitize_for_directory(input@.take(i as int)),
        decreases n - i,
    {
        let c = input.get_char(i);
        let keep = (c >= 'a' && c <= 'z') || (c >= 'A' && c <= 'Z') || (c >= '0' && c <= '9');
        if keep {
            push_char(&mut out, c);
        } else {
            push_char(&mut out, '_');
        }
        proof {
            assert(out@ =~= spec_sanitize_for_directory(input@.take(i as int + 1)));
        }
        i = i + 1;
    }
    proof {
        assert(input@.take(n as int) =~= input@);
    }
    out
}

} // verus!
