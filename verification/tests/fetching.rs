use locoryn::web_search::fetch::{
    check_page_response, decode_html_entities, detect_charset, fetch_target, map_status,
    page_chunk_fits, parse_u64, retry_delay_millis, should_retry_status, validate_public_ip,
    validate_resolved_addresses, validate_public_url, remote_image_url_is_safe, FetchTarget, IpAddress,
    ParsedHost, redirect_step, RedirectStep,
};
use locoryn::web_search::providers::{
    brave_query_pairs, exa_request_body, search_query, tavily_request_body,
};
use locoryn::web_search::{WebSearchError, WebSearchFreshness, MAX_PAGE_BYTES, MAX_REDIRECTS, MAX_RESULT_LIMIT};

#[test]
fn detect_charset_from_content_type() {
    let content_type = "text/html; charset=Shift_JIS";
    let bytes = b"<html></html>";
    let encoding = detect_charset(content_type, bytes);
    assert_eq!(encoding, "Shift_JIS");
}

#[test]
fn detect_charset_from_meta_tag() {
    let content_type = "text/html";
    let bytes = b"<html><head><meta charset=\"euc-jp\"></head><body></body></html>";
    let encoding = detect_charset(content_type, bytes);
    assert_eq!(encoding, "EUC-JP");
}

#[test]
fn detect_charset_falls_back_to_utf8() {
    let content_type = "text/html";
    let bytes = b"<html></html>";
    let encoding = detect_charset(content_type, bytes);
    assert_eq!(encoding, "UTF-8");
}

#[test]
fn blocks_invalid_and_private_urls() {
    assert!(matches!(validate_public_url("file:///tmp/a"), Err(WebSearchError::UnsupportedScheme)));
    assert!(matches!(
        validate_public_url("http://127.0.0.1/private"),
        Err(WebSearchError::UnsafeAddress)
    ));
    assert!(matches!(validate_public_url("http://[::1]/private"), Err(WebSearchError::UnsafeAddress)));
}

#[test]
fn public_urls_name_what_to_connect_to() {
    match validate_public_url("https://example.com/page") {
        Ok(FetchTarget::Lookup(name, port)) => {
            assert_eq!(name, "example.com");
            assert_eq!(port, 443);
        }
        other => panic!("unexpected target: {other:?}"),
    }
    match validate_public_url("http://93.184.216.34:8080/") {
        Ok(FetchTarget::Address(ip, port)) => {
            assert_eq!(ip, IpAddress::V4(93, 184, 216, 34));
            assert_eq!(port, 8080);
        }
        other => panic!("unexpected target: {other:?}"),
    }
    assert!(matches!(validate_public_url("not a url"), Err(WebSearchError::InvalidUrl)));
    assert!(matches!(
        validate_public_url("https://user:pw@example.com/"),
        Err(WebSearchError::InvalidUrl)
    ));
    assert!(matches!(
        validate_public_url("http://[::ffff:10.0.0.1]/"),
        Err(WebSearchError::UnsafeAddress)
    ));
}

#[test]
fn markdown_images_block_local_network_addresses() {
    assert!(remote_image_url_is_safe("https://images.example.com/cat.png"));
    for blocked in [
        "http://localhost/image.png",
        "http://127.0.0.1/image.png",
        "http://169.254.10.2/image.png",
        "http://[::1]/image.png",
        "file:///tmp/private.png",
    ] {
        assert!(!remote_image_url_is_safe(blocked), "{blocked} should be blocked");
    }
}

#[test]
fn markdown_images_allow_public_addresses_and_refuse_usernames() {
    assert!(remote_image_url_is_safe("http://93.184.216.34/a.png"));
    assert!(!remote_image_url_is_safe("https://user@images.example.com/a.png"));
    assert!(!remote_image_url_is_safe("https://preview.LOCALHOST./a.png"));
    assert!(!remote_image_url_is_safe("http://[::ffff:192.168.1.1]/a.png"));
    assert!(!remote_image_url_is_safe("http://255.255.255.255/a.png"));
}

#[test]
fn experimental_provider_requests_map_limits_and_freshness() {
    let tavily = tavily_request_body("release notes", 99, WebSearchFreshness::Month);
    assert_eq!(tavily.max_results, MAX_RESULT_LIMIT);
    assert_eq!(tavily.time_range.as_deref(), Some("month"));
    assert!(!tavily.include_answer);

    let now = chrono::DateTime::parse_from_rfc3339("2026-07-27T00:00:00Z")
        .unwrap()
        .timestamp_millis();
    let exa = exa_request_body("release notes", 3, WebSearchFreshness::Week, now);
    assert_eq!(exa.num_results, 3);
    assert_eq!(exa.start_published_date.as_deref(), Some("2026-07-20T00:00:00.000Z"));
    assert!(exa.highlights);
}

#[test]
fn private_and_special_addresses_are_unsafe() {
    for ip in [
        IpAddress::V4(10, 1, 2, 3),
        IpAddress::V4(172, 16, 0, 1),
        IpAddress::V4(192, 168, 1, 1),
        IpAddress::V4(169, 254, 0, 1),
        IpAddress::V4(100, 64, 0, 1),
        IpAddress::V4(224, 0, 0, 1),
        IpAddress::V4(0, 1, 2, 3),
        IpAddress::V6(0, 0, 0, 0, 0, 0, 0, 0),
        IpAddress::V6(0xfc00, 0, 0, 0, 0, 0, 0, 1),
        IpAddress::V6(0xfe80, 0, 0, 0, 0, 0, 0, 1),
        IpAddress::V6(0xff02, 0, 0, 0, 0, 0, 0, 1),
        IpAddress::V6(0, 0, 0, 0, 0, 0xffff, 0x7f00, 0x0001),
    ] {
        assert!(matches!(validate_public_ip(ip), Err(WebSearchError::UnsafeAddress)), "{ip:?}");
    }
    assert!(validate_public_ip(IpAddress::V4(93, 184, 216, 34)).is_ok());
    assert!(validate_public_ip(IpAddress::V6(0x2606, 0x2800, 0x220, 1, 0x248, 0x1893, 0x25c8, 0x1946)).is_ok());
    assert!(validate_public_ip(IpAddress::V6(0, 0, 0, 0, 0, 0xffff, 0x5db8, 0xd822)).is_ok());
}

#[test]
fn resolved_addresses_must_all_be_public() {
    assert!(matches!(validate_resolved_addresses(&[]), Err(WebSearchError::InvalidUrl)));
    assert!(validate_resolved_addresses(&[IpAddress::V4(8, 8, 8, 8)]).is_ok());
    assert!(matches!(
        validate_resolved_addresses(&[IpAddress::V4(8, 8, 8, 8), IpAddress::V4(127, 0, 0, 1)]),
        Err(WebSearchError::UnsafeAddress)
    ));
}

#[test]
fn fetch_targets_refuse_credentials_localhost_and_missing_ports() {
    assert!(matches!(
        fetch_target("https", true, Some(ParsedHost::Domain("example.com".into())), Some(443)),
        Err(WebSearchError::InvalidUrl)
    ));
    assert!(matches!(
        fetch_target("https", false, Some(ParsedHost::Domain("localhost".into())), Some(443)),
        Err(WebSearchError::UnsafeAddress)
    ));
    assert!(matches!(
        fetch_target("https", false, Some(ParsedHost::Domain("app.localhost".into())), Some(443)),
        Err(WebSearchError::UnsafeAddress)
    ));
    assert!(matches!(
        fetch_target("https", false, Some(ParsedHost::Domain("example.com".into())), None),
        Err(WebSearchError::InvalidUrl)
    ));
    assert!(matches!(
        fetch_target("https", false, None, Some(443)),
        Err(WebSearchError::InvalidUrl)
    ));
    match fetch_target("https", false, Some(ParsedHost::Domain("example.com".into())), Some(443)) {
        Ok(FetchTarget::Lookup(name, port)) => {
            assert_eq!(name, "example.com");
            assert_eq!(port, 443);
        }
        other => panic!("unexpected {other:?}"),
    }
}

#[test]
fn statuses_map_to_errors() {
    assert!(map_status(200).is_ok());
    assert!(map_status(204).is_ok());
    assert!(matches!(map_status(401), Err(WebSearchError::Unauthorized)));
    assert!(matches!(map_status(403), Err(WebSearchError::Unauthorized)));
    assert!(matches!(map_status(429), Err(WebSearchError::RateLimited)));
    match map_status(404) {
        Err(WebSearchError::ProviderUnavailable(message)) => {
            assert_eq!(message, "HTTP 404 Not Found")
        }
        other => panic!("unexpected {other:?}"),
    }
    match map_status(599) {
        Err(WebSearchError::ProviderUnavailable(message)) => {
            assert_eq!(message, "HTTP 599 <unknown status code>")
        }
        other => panic!("unexpected {other:?}"),
    }
}

#[test]
fn only_transient_statuses_are_retried_and_only_twice() {
    assert!(should_retry_status(429, 0));
    assert!(should_retry_status(503, 1));
    assert!(!should_retry_status(503, 2));
    assert!(!should_retry_status(500, 0));
}

#[test]
fn retry_delays_follow_retry_after_and_stay_bounded() {
    assert_eq!(retry_delay_millis(Some(" 3 "), 0), 3000);
    assert_eq!(retry_delay_millis(Some("0"), 0), 500);
    assert_eq!(retry_delay_millis(Some("120"), 0), 15000);
    assert_eq!(retry_delay_millis(Some("soon"), 2), 4000);
    assert_eq!(retry_delay_millis(None, 0), 1000);
    assert_eq!(retry_delay_millis(None, 9), 8000);
}

#[test]
fn numbers_parse_like_u64_from_str() {
    let digits = |s: &str| s.chars().collect::<Vec<_>>();
    assert_eq!(parse_u64(&digits("42")), Some(42));
    assert_eq!(parse_u64(&digits("+7")), Some(7));
    assert_eq!(parse_u64(&digits("18446744073709551615")), Some(u64::MAX));
    assert_eq!(parse_u64(&digits("18446744073709551616")), None);
    assert_eq!(parse_u64(&digits("")), None);
    assert_eq!(parse_u64(&digits("+")), None);
    assert_eq!(parse_u64(&digits("1a")), None);
    for text in ["0", "+12", "99999", "1 2", "-1"] {
        assert_eq!(parse_u64(&digits(text)), text.parse::<u64>().ok(), "{text}");
    }
}

#[test]
fn page_responses_are_checked_before_reading() {
    assert_eq!(check_page_response("Text/HTML; charset=utf-8", None).unwrap(), "text/html; charset=utf-8");
    assert!(matches!(
        check_page_response("image/png", Some(10)),
        Err(WebSearchError::UnsupportedContentType)
    ));
    assert!(matches!(
        check_page_response("text/plain", Some(MAX_PAGE_BYTES as u64 + 1)),
        Err(WebSearchError::ResponseTooLarge)
    ));
    assert!(page_chunk_fits(0, MAX_PAGE_BYTES));
    assert!(!page_chunk_fits(1, MAX_PAGE_BYTES));
}

#[test]
fn entities_are_decoded_in_order() {
    // `&amp;` is decoded first, so the `&lt;` it leaves is decoded next.
    assert_eq!(decode_html_entities("a &amp;lt; b &nbsp;&#39;x&#39;"), "a < b  'x'");
}

#[test]
fn provider_requests_carry_the_clamped_limit() {
    let pairs = brave_query_pairs("rust", 0, WebSearchFreshness::Week);
    let pairs: Vec<(&str, &str)> = pairs.iter().map(|(k, v)| (k.as_str(), v.as_str())).collect();
    assert_eq!(pairs, vec![("q", "rust"), ("count", "1"), ("freshness", "pw")]);
    assert!(matches!(search_query("   "), Err(WebSearchError::EmptyResults)));
    assert_eq!(search_query("  rust ").unwrap(), "rust");
}

#[test]
fn redirects_are_followed_up_to_the_limit() {
    assert_eq!(redirect_step(0, false), RedirectStep::Done);
    assert_eq!(redirect_step(0, true), RedirectStep::Follow);
    assert_eq!(redirect_step(MAX_REDIRECTS - 1, true), RedirectStep::Follow);
    assert_eq!(redirect_step(MAX_REDIRECTS, true), RedirectStep::TooMany);
    assert_eq!(redirect_step(MAX_REDIRECTS, false), RedirectStep::Done);
}
