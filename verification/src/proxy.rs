use vstd::prelude::*;

use crate::error::{AppError, ErrorKind, Result};
use crate::text::{decimal_parse, int_error_text, int_parse_error, parse_decimal, trim, trimmed};

verus! {

/// Hosts and networks that never go through the proxy.
pub open spec fn no_proxy_value() -> Seq<char> {
    "localhost,.localhost,localhost.localdomain,.local,.internal,.home.arpa,127.0.0.0/8,10.0.0.0/8,172.16.0.0/12,192.168.0.0/16,169.254.0.0/16,100.64.0.0/10,::1/128,fc00::/7,fe80::/10"@
}

/// The default `NO_PROXY` value.
pub fn default_no_proxy_value() -> (r: String)
    ensures
        r@ == no_proxy_value(),
{
    "localhost,.localhost,localhost.localdomain,.local,.internal,.home.arpa,127.0.0.0/8,10.0.0.0/8,172.16.0.0/12,192.168.0.0/16,169.254.0.0/16,100.64.0.0/10,::1/128,fc00::/7,fe80::/10".to_owned()
}

/// What `str::parse::<u16>` gives.
pub open spec fn u16_parse(s: Seq<char>) -> Option<u16> {
    match decimal_parse(s, u16::MAX as int) {
        Some(v) => Some(v as u16),
        None => None,
    }
}

/// Parse a decimal `u16` as `str::parse::<u16>` does.
pub fn parse_u16(s: &str) -> (r: Option<u16>)
    ensures
        r == u16_parse(s@),
{
    let r = parse_decimal(s, 65535);
    match r {
        Some(v) => {
            Some(v as u16)
        },
        None => None,
    }
}

// ----- URLs through the url crate --------------------------------------------

/// The serialization of `Url::parse(input)`, or the text of its error.
pub uninterp spec fn url_parsed(input: Seq<char>) -> core::result::Result<Seq<char>, Seq<char>>;

/// The serialization after `set_port(Some(port))` on the URL parsed from
/// `url`, or `None` when either refuses.
pub uninterp spec fn url_with_port(url: Seq<char>, port: u16) -> Option<Seq<char>>;

/// The serialization after `set_username(username)` on the URL parsed from
/// `url`, or `None` when either refuses.
pub uninterp spec fn url_with_username(url: Seq<char>, username: Seq<char>) -> Option<Seq<char>>;

/// The serialization after `set_password(password)` on the URL parsed from
/// `url`, or `None` when either refuses.
pub uninterp spec fn url_with_password(url: Seq<char>, password: Option<Seq<char>>) -> Option<Seq<char>>;

/// A string option seen as an option of character sequences.
pub open spec fn opt_view(s: Option<String>) -> Option<Seq<char>> {
    match s {
        Some(x) => Some(x@),
        None => None,
    }
}

/// Calls `reqwest::Url::parse` (the url crate's parser) and returns the
/// URL's serialization, or the parse error's text; both are named
/// [`url_parsed`] of the input.
#[verifier::external_body]
fn parse_url(input: &str) -> (r: core::result::Result<String, String>)
    ensures
        match r {
            Ok(s) => url_parsed(input@) == Ok::<Seq<char>, Seq<char>>(s@),
            Err(t) => url_parsed(input@) == Err::<Seq<char>, Seq<char>>(t@),
        },
{
    reqwest::Url::parse(input).map(String::from).map_err(|e| e.to_string())
}

/// Calls `Url::set_port(Some(port))` on the URL that `url` parses to and
/// returns the new serialization; named [`url_with_port`].
#[verifier::external_body]
fn set_url_port(url: &str, port: u16) -> (r: Option<String>)
    ensures
        opt_view(r) == url_with_port(url@, port),
{
    let mut u = reqwest::Url::parse(url).ok()?;
    u.set_port(Some(port)).ok()?;
    Some(String::from(u))
}

/// Calls `Url::set_username(username)` on the URL that `url` parses to and
/// returns the new serialization; named [`url_with_username`].
#[verifier::external_body]
fn set_url_username(url: &str, username: &str) -> (r: Option<String>)
    ensures
        opt_view(r) == url_with_username(url@, username@),
{
    let mut u = reqwest::Url::parse(url).ok()?;
    u.set_username(username).ok()?;
    Some(String::from(u))
}

/// Calls `Url::set_password(password)` on the URL that `url` parses to and
/// returns the new serialization; named [`url_with_password`].
#[verifier::external_body]
fn set_url_password(url: &str, password: Option<&str>) -> (r: Option<String>)
    ensures
        opt_view(r) == url_with_password(
            url@,
            match password {
                Some(p) => Some(p@),
                None => None,
            },
        ),
{
    let mut u = reqwest::Url::parse(url).ok()?;
    u.set_password(password).ok()?;
    Some(String::from(u))
}

/// The message of a refused proxy setting.
pub open spec fn invalid_proxy_message() -> Seq<char> {
    "代理地址无效"@
}

/// The message of a refused proxy setting, with the reason.
pub open spec fn invalid_proxy_because(reason: Seq<char>) -> Seq<char> {
    "代理地址无效: "@ + reason
}

/// The proxy URL built from the four configured fields: `Ok(None)` when
/// the URL is blank; an error message when the URL does not parse, the port
/// is not a number, or the URL refuses the port or the credentials. Fields
/// are trimmed; credentials are set when either is non-blank, and a blank
/// password is left out.
pub open spec fn proxy_url_of(url: Seq<char>, port: Seq<char>, username: Seq<char>, password: Seq<char>) -> core::result::Result<Option<Seq<char>>, Seq<char>> {
    let u = trimmed(url);
    let p = trimmed(port);
    let user = trimmed(username);
    let pass = trimmed(password);
    if u.len() == 0 {
        Ok(None)
    } else {
        match url_parsed(u) {
            Err(reason) => Err(invalid_proxy_because(reason)),
            Ok(s0) => {
                let s1 = if p.len() == 0 {
                    Ok(s0)
                } else {
                    match u16_parse(p) {
                        None => Err(invalid_proxy_because(int_error_text(p, u16::MAX as int))),
                        Some(n) => match url_with_port(s0, n) {
                            None => Err(invalid_proxy_message()),
                            Some(s) => Ok(s),
                        },
                    }
                };
                match s1 {
                    Err(m) => Err(m),
                    Ok(s1) => if user.len() == 0 && pass.len() == 0 {
                        Ok(Some(s1))
                    } else {
                        match url_with_username(s1, user) {
                            None => Err(invalid_proxy_message()),
                            Some(s2) => match url_with_password(
                                s2,
                                if pass.len() == 0 {
                                    None
                                } else {
                                    Some(pass)
                                },
                            ) {
                                None => Err(invalid_proxy_message()),
                                Some(s3) => Ok(Some(s3)),
                            },
                        }
                    },
                }
            },
        }
    }
}

/// Build the proxy URL from its configured fields (see [`proxy_url_of`]).
pub fn build_proxy_url(url: &str, port: &str, username: &str, password: &str) -> (r: Result<Option<String>>)
    ensures
        match proxy_url_of(url@, port@, username@, password@) {
            Err(m) => r matches Err(e) && e.kind == ErrorKind::Config && e.message@ == m,
            Ok(v) => r matches Ok(o) && opt_view(o) == v,
        },
{
    let trimmed_url = trim(url);
    if trimmed_url.unicode_len() == 0 {
        return Ok(None);
    }
    let mut parsed = match parse_url(trimmed_url.as_str()) {
        Ok(s) => s,
        Err(reason) => {
            return Err(invalid_proxy(Some(reason.as_str())));
        },
    };
    let trimmed_port = trim(port);
    if trimmed_port.unicode_len() != 0 {
        let parsed_port = match parse_u16(trimmed_port.as_str()) {
            Some(p) => p,
            None => {
                let reason = int_parse_error(trimmed_port.as_str(), 65535);
                return Err(invalid_proxy(Some(reason.as_str())));
            },
        };
        parsed = match set_url_port(parsed.as_str(), parsed_port) {
            Some(s) => s,
            None => {
                return Err(invalid_proxy(None));
            },
        };
    }
    let trimmed_username = trim(username);
    let trimmed_password = trim(password);
    if trimmed_username.unicode_len() != 0 || trimmed_password.unicode_len() != 0 {
        parsed = match set_url_username(parsed.as_str(), trimmed_username.as_str()) {
            Some(s) => s,
            None => {
                return Err(invalid_proxy(None));
            },
        };
        let pass: Option<&str> = if trimmed_password.unicode_len() != 0 {
            Some(trimmed_password.as_str())
        } else {
            None
        };
        parsed = match set_url_password(parsed.as_str(), pass) {
            Some(s) => s,
            None => {
                return Err(invalid_proxy(None));
            },
        };
    }
    Ok(Some(parsed))
}

/// The configuration error for a refused proxy setting, with its reason
/// when there is one.
fn invalid_proxy(reason: Option<&str>) -> (e: AppError)
    ensures
        e.kind == ErrorKind::Config,
        e.message@ == match reason {
            Some(t) => invalid_proxy_because(t@),
            None => invalid_proxy_message(),
        },
{
    match reason {
        Some(t) => {
            let mut m = "代理地址无效: ".to_owned();
            m.append(t);
            AppError::config(m.as_str())
        },
        None => AppError::config("代理地址无效"),
    }
}

/// The proxy fields as stored: trimmed, and all empty when the URL is blank.
pub open spec fn normalized(url: Seq<char>, port: Seq<char>, username: Seq<char>, password: Seq<char>) -> (
    Seq<char>,
    Seq<char>,
    Seq<char>,
    Seq<char>,
) {
    if trimmed(url).len() == 0 {
        (Seq::empty(), Seq::empty(), Seq::empty(), Seq::empty())
    } else {
        (trimmed(url), trimmed(port), trimmed(username), trimmed(password))
    }
}

/// Normalize the proxy fields: trim each; a blank URL clears them all.
pub fn normalized_proxy_fields(url: String, port: String, username: String, password: String) -> (r: (
    String,
    String,
    String,
    String,
))
    ensures
        (r.0@, r.1@, r.2@, r.3@) == normalized(url@, port@, username@, password@),
{
    let normalized_url = trim(url.as_str());
    if normalized_url.unicode_len() == 0 {
        return (String::new(), String::new(), String::new(), String::new());
    }
    (normalized_url, trim(port.as_str()), trim(username.as_str()), trim(password.as_str()))
}

/// Normalizing twice changes nothing more.
pub proof fn law_normalized_idempotent(url: Seq<char>, port: Seq<char>, username: Seq<char>, password: Seq<char>)
    ensures
        ({
            let n = normalized(url, port, username, password);
            normalized(n.0, n.1, n.2, n.3) == n
        }),
{
    crate::text::law_trim_idempotent(url);
    crate::text::law_trim_idempotent(port);
    crate::text::law_trim_idempotent(username);
    crate::text::law_trim_idempotent(password);
    assert(trimmed(Seq::<char>::empty()) =~= Seq::<char>::empty());
}

/// The environment variables that carry a proxy to child processes.
pub open spec fn proxy_env_keys() -> Seq<Seq<char>> {
    seq!["HTTP_PROXY"@, "http_proxy"@, "HTTPS_PROXY"@, "https_proxy"@, "ALL_PROXY"@, "all_proxy"@]
}

/// The environment variables that carry the proxy exceptions.
pub open spec fn no_proxy_env_keys() -> Seq<Seq<char>> {
    seq!["NO_PROXY"@, "no_proxy"@]
}

/// The environment pairs that hand `proxy_url` to a child process: every
/// proxy variable set to it, every exception variable to the default list.
pub open spec fn proxy_env_pairs(proxy_url: Seq<char>) -> Seq<(Seq<char>, Seq<char>)> {
    proxy_env_keys().map_values(|k: Seq<char>| (k, proxy_url)) + no_proxy_env_keys().map_values(
        |k: Seq<char>| (k, no_proxy_value()),
    )
}

/// A list of string pairs seen as pairs of character sequences.
pub open spec fn pairs_view(v: Seq<(String, String)>) -> Seq<(Seq<char>, Seq<char>)> {
    v.map_values(|p: (String, String)| (p.0@, p.1@))
}

/// The environment for a child process that should use the configured
/// proxy: empty when no proxy is configured (see [`proxy_url_of`]).
pub fn build_proxy_env_vars(
    proxy_url: &str,
    proxy_port: &str,
    proxy_username: &str,
    proxy_password: &str,
) -> (r: Result<Vec<(String, String)>>)
    ensures
        match proxy_url_of(proxy_url@, proxy_port@, proxy_username@, proxy_password@) {
            Err(m) => r matches Err(e) && e.kind == ErrorKind::Config && e.message@ == m,
            Ok(None) => r matches Ok(v) && v@.len() == 0,
            Ok(Some(u)) => r matches Ok(v) && pairs_view(v@) == proxy_env_pairs(u),
        },
{
    let url = match build_proxy_url(proxy_url, proxy_port, proxy_username, proxy_password)? {
        Some(u) => u,
        None => {
            return Ok(Vec::new());
        },
    };
    let mut vars: Vec<(String, String)> = Vec::new();
    vars.push(("HTTP_PROXY".to_owned(), url.clone()));
    vars.push(("http_proxy".to_owned(), url.clone()));
    vars.push(("HTTPS_PROXY".to_owned(), url.clone()));
    vars.push(("https_proxy".to_owned(), url.clone()));
    vars.push(("ALL_PROXY".to_owned(), url.clone()));
    vars.push(("all_proxy".to_owned(), url.clone()));
    vars.push(("NO_PROXY".to_owned(), default_no_proxy_value()));
    vars.push(("no_proxy".to_owned(), default_no_proxy_value()));
    proof {
        assert(pairs_view(vars@) =~= proxy_env_pairs(url@));
    }
    Ok(vars)
}


/// Every proxy variable (plain and lower-case HTTP, HTTPS and ALL) carries
/// the proxy URL, and only the two exception variables carry the default
/// exception list; there are no other variables.
pub proof fn law_proxy_env_routes_everything(u: Seq<char>)
    ensures
        proxy_env_pairs(u).len() == 8,
        proxy_env_pairs(u).map_values(|p: (Seq<char>, Seq<char>)| p.0) == seq![
            "HTTP_PROXY"@,
            "http_proxy"@,
            "HTTPS_PROXY"@,
            "https_proxy"@,
            "ALL_PROXY"@,
            "all_proxy"@,
            "NO_PROXY"@,
            "no_proxy"@,
        ],
        forall|i: int|
            0 <= i < proxy_env_pairs(u).len() ==> ((#[trigger] proxy_env_pairs(u)[i]).0 == "NO_PROXY"@
                || proxy_env_pairs(u)[i].0 == "no_proxy"@ || proxy_env_pairs(u)[i].1 == u),
        forall|i: int|
            0 <= i < proxy_env_pairs(u).len() && ((#[trigger] proxy_env_pairs(u)[i]).0 == "NO_PROXY"@
                || proxy_env_pairs(u)[i].0 == "no_proxy"@) ==> proxy_env_pairs(u)[i].1 == no_proxy_value(),
{
    reveal_strlit("HTTP_PROXY");
    reveal_strlit("http_proxy");
    reveal_strlit("HTTPS_PROXY");
    reveal_strlit("https_proxy");
    reveal_strlit("ALL_PROXY");
    reveal_strlit("all_proxy");
    reveal_strlit("NO_PROXY");
    reveal_strlit("no_proxy");
    let p = proxy_env_pairs(u);
    let n = no_proxy_value();
    assert(p =~= seq![
        ("HTTP_PROXY"@, u),
        ("http_proxy"@, u),
        ("HTTPS_PROXY"@, u),
        ("https_proxy"@, u),
        ("ALL_PROXY"@, u),
        ("all_proxy"@, u),
        ("NO_PROXY"@, n),
        ("no_proxy"@, n),
    ]);
    assert forall|i: int| 0 <= i < p.len() && ((#[trigger] p[i]).0 == "NO_PROXY"@ || p[i].0 == "no_proxy"@) implies p[i].1
        == n by {
        if i < 6 {
            assert(p[i].0 != "NO_PROXY"@ && p[i].0 != "no_proxy"@) by {
                if i == 0 { assert(p[i].0.len() == 10); }
                else if i == 1 { assert(p[i].0.len() == 10); }
                else if i == 2 { assert(p[i].0.len() == 11); }
                else if i == 3 { assert(p[i].0.len() == 11); }
                else if i == 4 { assert(p[i].0[0] == 'A'); }
                else { assert(p[i].0[0] == 'a'); }
            }
        }
    }
    assert(p.map_values(|q: (Seq<char>, Seq<char>)| q.0) =~= seq![
        "HTTP_PROXY"@,
        "http_proxy"@,
        "HTTPS_PROXY"@,
        "https_proxy"@,
        "ALL_PROXY"@,
        "all_proxy"@,
        "NO_PROXY"@,
        "no_proxy"@,
    ]);
}

} // verus!
