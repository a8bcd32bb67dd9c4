use locoryn::server_address::{server_api_url, server_base_url, ServerAddressError};

#[test]
fn ollama_address_supports_http_https_and_ipv6() {
    assert_eq!(
        server_api_url("https://", "ollama.example.com", "443", "/api/chat").unwrap(),
        "https://ollama.example.com/api/chat"
    );
    assert_eq!(server_base_url("http", "::1", "11434").unwrap(), "http://[::1]:11434/");
}

#[test]
fn ollama_address_rejects_unsupported_schemes_and_bad_ports() {
    assert_eq!(
        server_base_url("ftp", "ollama.example.com", "21"),
        Err(ServerAddressError::UnsupportedScheme)
    );
    assert_eq!(
        server_base_url("https", "ollama.example.com", "invalid"),
        Err(ServerAddressError::InvalidPort)
    );
}

#[test]
fn server_addresses_keep_non_default_ports_and_refuse_blank_hosts() {
    assert_eq!(server_base_url(" http:// ", "127.0.0.1", "8000").unwrap(), "http://127.0.0.1:8000/");
    assert_eq!(server_base_url("http", "localhost", "80").unwrap(), "http://localhost/");
    assert_eq!(server_base_url("https", "[::1]", "8443").unwrap(), "https://[::1]:8443/");
    assert_eq!(server_base_url("http", "   ", "80"), Err(ServerAddressError::MissingHost));
    assert_eq!(server_base_url("http", "host", "65536"), Err(ServerAddressError::InvalidPort));
    assert_eq!(
        server_api_url("gopher", "host", "80", "/api/chat"),
        Err(ServerAddressError::UnsupportedScheme)
    );
}
