use httpredis::options::is_num;
use httpredis::options::normalize_host;
use httpredis::options::Redis;
use httpredis::parse::parse_u64;
use httpredis::parse::trim;
use httpredis::rejections::handle_rejection;
use httpredis::rejections::Rejection;
use httpredis::rejections::RequestTimeout;
use httpredis::rejections::ServiceUnavailable;
use httpredis::verdict::status_of;
use httpredis::verdict::ProbeError;
use httpredis::verdict::ReplicationVerdict;

#[test]
fn is_num_accepts_a_port() {
    assert!(is_num("36379".to_string()).is_ok());
}

#[test]
fn is_num_accepts_a_leading_plus() {
    assert!(is_num("+42".to_string()).is_ok());
}

#[test]
fn is_num_rejects_letters() {
    assert_eq!(
        is_num("abc".to_string()),
        Err("Not a valid number!".to_string())
    );
}

#[test]
fn is_num_rejects_the_empty_string() {
    assert!(is_num("".to_string()).is_err());
    assert!(is_num("+".to_string()).is_err());
}

#[test]
fn is_num_rejects_a_negative_number() {
    assert!(is_num("-1".to_string()).is_err());
}

#[test]
fn is_num_rejects_an_oversized_number() {
    assert!(is_num("99999999999999999999999999".to_string()).is_err());
}

#[test]
fn host_without_port_gets_the_default() {
    assert_eq!(normalize_host("redis.example"), "redis.example:6379");
}

#[test]
fn host_with_port_is_kept() {
    assert_eq!(normalize_host("redis.example:123"), "redis.example:123");
}

#[test]
fn host_with_several_colons_gets_the_default_appended() {
    assert_eq!(normalize_host("::1"), "::1:6379");
}

#[test]
fn parse_u64_reads_a_plain_number() {
    assert_eq!(parse_u64("42"), Some(42));
    assert_eq!(parse_u64("007"), Some(7));
    assert_eq!(parse_u64("0"), Some(0));
}

#[test]
fn parse_u64_reads_the_largest_value() {
    assert_eq!(parse_u64("18446744073709551615"), Some(u64::MAX));
    assert_eq!(parse_u64("18446744073709551616"), None);
}

#[test]
fn parse_u64_rejects_non_digits() {
    assert_eq!(parse_u64(""), None);
    assert_eq!(parse_u64("1a"), None);
    assert_eq!(parse_u64(" 1"), None);
    assert_eq!(parse_u64("+1"), None);
}

#[test]
fn trim_strips_surrounding_whitespace() {
    assert_eq!(trim("  42\t"), "42");
    assert_eq!(trim("\r\n"), "");
    assert_eq!(trim("a b"), "a b");
}

#[test]
fn status_of_maps_every_outcome() {
    assert_eq!(status_of(&Ok(ReplicationVerdict::Healthy)), 200);
    assert_eq!(status_of(&Ok(ReplicationVerdict::Unhealthy)), 503);
    assert_eq!(status_of(&Ok(ReplicationVerdict::AuthRejected)), 503);
    assert_eq!(status_of(&Err(ProbeError::ConnectTimeout)), 408);
    assert_eq!(status_of(&Err(ProbeError::ConnectFailed)), 503);
    assert_eq!(status_of(&Err(ProbeError::TlsFailed)), 503);
    assert_eq!(status_of(&Err(ProbeError::ProtocolError)), 503);
    assert_eq!(status_of(&Err(ProbeError::ParseError)), 503);
}

#[test]
fn timeout_rejection_maps_to_408() {
    let rejection = Rejection::Timeout(RequestTimeout("deadline has elapsed".to_string()));
    let (code, message) = handle_rejection(&rejection);
    assert_eq!(code, 408);
    assert_eq!(
        message,
        "Failed to connect, connection timed out: deadline has elapsed"
    );
}

#[test]
fn unavailable_rejection_maps_to_503() {
    let rejection = Rejection::Unavailable(ServiceUnavailable("AUTH failed".to_string()));
    let (code, message) = handle_rejection(&rejection);
    assert_eq!(code, 503);
    assert_eq!(message, "service unavailable: AUTH failed");
}

#[test]
fn unhandled_rejection_maps_to_500() {
    let (code, message) = handle_rejection(&Rejection::Unhandled);
    assert_eq!(code, 500);
    assert_eq!(message, "Internal Server Error");
}

#[test]
fn rejection_message_is_kept() {
    let timeout = RequestTimeout("cause".to_string());
    assert_eq!(timeout.message(), "cause");
    let unavailable = ServiceUnavailable("cause".to_string());
    assert_eq!(unavailable.message(), "cause");
}

#[test]
fn config_holds_plain_values() {
    let redis = Redis {
        host: normalize_host("127.0.0.1"),
        user: None,
        pass: Some("secret".to_string()),
        v46: false,
        port: 36379,
    };
    assert_eq!(redis.host, "127.0.0.1:6379");
    assert_eq!(redis.pass.as_deref(), Some("secret"));
    assert!(!redis.v46);
}
