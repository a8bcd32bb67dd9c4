//! The address of an inference server (Ollama or OpenVINO): the protocol
//! chosen in the settings, the host name or IP address, and the port.
//! Both servers speak HTTP(S), so any other scheme is refused.
use vstd::prelude::*;
use crate::text::{chars_of, copy_string, decimal, decimal_chars, push_chars, push_str_chars, trim, trimmed};
use crate::web_search::fetch::{parse_u64, spec_parse_u64};

verus! {

/// Why a server address was refused.
#[derive(Clone, Copy, Debug, PartialEq, Eq, Structural)]
pub enum ServerAddressError {
    /// The protocol is neither HTTP nor HTTPS.
    UnsupportedScheme,
    /// The host is blank.
    MissingHost,
    /// The port is not a number from 0 to 65535.
    InvalidPort,
}

/// The scheme a protocol field names: `http`, `http://`, `https` or
/// `https://` (surrounding whitespace ignored); anything else names none.
pub open spec fn spec_scheme(protocol: Seq<char>) -> Option<Seq<char>> {
    let p = trim(protocol);
    if p == "http"@ || p == "http://"@ {
        Some("http"@)
    } else if p == "https"@ || p == "https://"@ {
        Some("https"@)
    } else {
        None
    }
}

/// The port a port field names, if it is a number a port can have.
pub open spec fn spec_port(port: Seq<char>) -> Option<u16> {
    match spec_parse_u64(trim(port)) {
        Some(n) => if n <= 65535 {
            Some(n as u16)
        } else {
            None
        },
        None => None,
    }
}

/// The host as it stands in a URL: an IPv6 address (it holds a colon)
/// goes in square brackets unless it already has them.
pub open spec fn spec_url_host(host: Seq<char>) -> Seq<char> {
    let h = trim(host);
    if h.contains(':') && !(h.len() > 0 && h[0] == '[') {
        seq!['['] + h + seq![']']
    } else {
        h
    }
}

/// Whether `port` is the one the scheme uses when none is given.
pub open spec fn is_default_port(scheme: Seq<char>, port: u16) -> bool {
    (scheme == "http"@ && port == 80) || (scheme == "https"@ && port == 443)
}

/// The server's base URL, `scheme://host[:port]/`, with the port left
/// out when it is the scheme's default.
pub open spec fn spec_base_url(scheme: Seq<char>, host: Seq<char>, port: u16) -> Seq<char> {
    scheme + "://"@ + spec_url_host(host) + if is_default_port(scheme, port) {
        Seq::empty()
    } else {
        ":"@ + decimal(port as nat)
    } + "/"@
}

/// What `server_base_url` gives for the three settings fields.
pub open spec fn spec_server_base_url(protocol: Seq<char>, host: Seq<char>, port: Seq<char>) -> Result<
    Seq<char>,
    ServerAddressError,
> {
    match spec_scheme(protocol) {
        None => Err(ServerAddressError::UnsupportedScheme),
        Some(scheme) => if trim(host).len() == 0 {
            Err(ServerAddressError::MissingHost)
        } else {
            match spec_port(port) {
                None => Err(ServerAddressError::InvalidPort),
                Some(p) => Ok(spec_base_url(scheme, host, p)),
            }
        },
    }
}

fn scheme_of(protocol: &str) -> (out: Option<&'static str>)
    ensures
        match out {
            Some(s) => spec_scheme(protocol@) == Some(s@),
            None => spec_scheme(protocol@) is None,
        },
{
    let p = trimmed(protocol);
    proof {
        reveal_strlit("http");
        reveal_strlit("http://");
        reveal_strlit("https");
        reveal_strlit("https://");
    }
    if crate::text::same_text(p.as_str(), "http") || crate::text::same_text(p.as_str(), "http://") {
        Some("http")
    } else if crate::text::same_text(p.as_str(), "https") || crate::text::same_text(p.as_str(), "https://") {
        Some("https")
    } else {
        None
    }
}

fn has_colon(s: &[char]) -> (out: bool)
    ensures
        out == s@.contains(':'),
{
    let mut i: usize = 0;
    while i < s.len()
        invariant
            i <= s@.len(),
            forall|j: int| 0 <= j < i ==> s@[j] != ':',
        decreases s@.len() - i,
    {
        if s[i] == ':' {
            assert(s@[i as int] == ':');
            return true;
        }
        i = i + 1;
    }
    false
}

/// The base URL of an inference server from the protocol, host and port
/// fields of the settings. Only HTTP and HTTPS are accepted, the host
/// must not be blank, and the port must be a number up to 65535.
pub fn server_base_url(protocol: &str, host: &str, port: &str) -> (out: Result<String, ServerAddressError>)
    ensures
        match out {
            Ok(u) => spec_server_base_url(protocol@, host@, port@) == Ok::<Seq<char>, ServerAddressError>(u@),
            Err(e) => spec_server_base_url(protocol@, host@, port@) == Err::<Seq<char>, ServerAddressError>(e),
        },
{
    let scheme = match scheme_of(protocol) {
        Some(s) => s,
        None => return Err(ServerAddressError::UnsupportedScheme),
    };
    let h = chars_of(trimmed(host).as_str());
    if h.len() == 0 {
        return Err(ServerAddressError::MissingHost);
    }
    let p = chars_of(trimmed(port).as_str());
    let number = match parse_u64(p.as_slice()) {
        Some(n) => n,
        None => return Err(ServerAddressError::InvalidPort),
    };
    if number > 65535 {
        return Err(ServerAddressError::InvalidPort);
    }
    let port_number = number as u16;
    assert(port_number as nat == number as nat);
    proof {
        reveal_strlit("http");
        reveal_strlit("https");
        reveal_strlit("[");
        reveal_strlit("]");
        reveal_strlit("://");
        reveal_strlit(":");
        reveal_strlit("/");
    }
    let ghost sh = spec_url_host(host@);
    let mut url = copy_string(scheme);
    push_str_chars(&mut url, "://");
    let bracket = has_colon(h.as_slice()) && !(h[0] == '[');
    if bracket {
        push_str_chars(&mut url, "[");
    }
    push_chars(&mut url, h.as_slice());
    if bracket {
        push_str_chars(&mut url, "]");
    }
    proof {
        if bracket {
            assert(sh =~= seq!['['] + h@ + seq![']']);
            assert(url@ =~= scheme@ + "://"@ + sh);
        } else {
            assert(sh == h@);
            assert(url@ =~= scheme@ + "://"@ + sh);
        }
    }
    let default_port = (crate::text::same_text(scheme, "http") && port_number == 80) || (
    crate::text::same_text(scheme, "https") && port_number == 443);
    assert(default_port == is_default_port(scheme@, port_number));
    let ghost before_port = url@;
    if !default_port {
        push_str_chars(&mut url, ":");
        let digits = decimal_chars(number);
        push_chars(&mut url, digits.as_slice());
        assert(url@ =~= before_port + (":"@ + decimal(port_number as nat)));
    } else {
        assert(url@ =~= before_port + Seq::<char>::empty());
    }
    push_str_chars(&mut url, "/");
    assert(spec_port(port@) == Some(port_number));
    assert(url@ =~= spec_base_url(scheme@, host@, port_number));
    Ok(url)
}

/// The URL of an API path on the server: the base URL without its final
/// slash, then `path`.
pub open spec fn spec_api_url(base: Seq<char>, path: Seq<char>) -> Seq<char> {
    base.drop_last() + path
}

/// The URL of `path` (such as `/api/chat`) on the server the settings name.
pub fn server_api_url(protocol: &str, host: &str, port: &str, path: &str) -> (out: Result<String, ServerAddressError>)
    ensures
        match out {
            Ok(u) => spec_server_base_url(protocol@, host@, port@) matches Ok(b) && u@ == spec_api_url(b, path@),
            Err(e) => spec_server_base_url(protocol@, host@, port@) == Err::<Seq<char>, ServerAddressError>(e),
        },
{
    let base = server_base_url(protocol, host, port)?;
    let b = chars_of(base.as_str());
    proof {
        reveal_strlit("/");
        assert(b@.len() > 0) by {
            assert(b@ == base@);
        }
    }
    let mut url = String::new();
    let mut i: usize = 0;
    let ghost without_slash = b@.drop_last();
    let last: usize = b.len() - 1;
    while i < last
        invariant
            b@.len() > 0,
            i <= last,
            last == b@.len() - 1,
            without_slash == b@.drop_last(),
            url@ == without_slash.take(i as int),
        decreases b@.len() - i,
    {
        crate::text::push_char(&mut url, b[i]);
        assert(without_slash.take(i + 1) =~= without_slash.take(i as int).push(b@[i as int]));
        i = i + 1;
    }
    assert(without_slash.take(i as int) =~= without_slash);
    push_str_chars(&mut url, path);
    Ok(url)
}

} // verus!
