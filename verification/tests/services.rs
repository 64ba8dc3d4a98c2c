use rust_samples::clock::{current_time_millis, millis_checked, millis_from_timespec, now_and_hour_later, one_hour_later};
use rust_samples::hello_service::{gen_data, gen_data_at, wrap_response};
use rust_samples::iron_service::{
    assign_request_id, authentication_filter, future_handler, gen_response_data, session_cookie, start_session,
    ErrorResponse, FutureToIronResult, Readiness, StringError,
};
use rust_samples::random_entry::{entry_body, handle};

fn is_uuid_v4(id: &str) -> bool {
    let b = id.as_bytes();
    b.len() == 36
        && b.iter().enumerate().all(|(i, c)| match i {
            8 | 13 | 18 | 23 => *c == b'-',
            _ => c.is_ascii_digit() || (b'a'..=b'f').contains(c),
        })
        && b[14] == b'4'
        && matches!(b[19], b'8' | b'9' | b'a' | b'b')
}

#[test]
fn millis_from_seconds_and_nanos() {
    assert_eq!(millis_from_timespec(1, 999_999_999), 1999);
    assert_eq!(millis_from_timespec(1_500_000_000, 123_456_789), 1_500_000_000_123);
    assert_eq!(millis_from_timespec(-2, 800_000_000), -1200);
    assert_eq!(millis_from_timespec(0, 0), 0);
    assert_eq!(millis_checked(1, 999_999_999), Some(1999));
    assert_eq!(millis_checked(i64::MAX, 0), None);
    assert_eq!(millis_checked(i64::MIN / 1000, 0), Some(i64::MIN / 1000 * 1000));
    assert_eq!(millis_checked(i64::MIN / 1000 - 1, 0), None);
}

#[test]
fn clock_reads_a_recent_time() {
    let now = current_time_millis().unwrap();
    assert!(now > 1_500_000_000_000);
    let data = gen_data().unwrap();
    assert!(data.metadata.timestamp >= now);
    assert_eq!(data.payload.message, "hello");
}

#[test]
fn hello_data_and_reply() {
    let data = gen_data_at(42);
    assert_eq!(data.metadata.timestamp, 42);
    assert_eq!(data.payload.message, "hello");
    let reply = wrap_response("h\u{e9}llo".to_string());
    assert_eq!(reply.content_length, 6);
    assert_eq!(reply.body, "h\u{e9}llo");
}

#[test]
fn authentication_lets_root_and_cookies_through() {
    assert!(authentication_filter(&vec!["".to_string()], false).is_ok());
    assert!(authentication_filter(&vec!["future".to_string()], true).is_ok());
    let err = authentication_filter(&vec!["future".to_string()], false).unwrap_err();
    assert_eq!(err.error.description(), "authentication failed.");
    assert!(matches!(err.response, ErrorResponse::Status(400)));
    assert!(authentication_filter(&vec!["".to_string(), "".to_string()], false).is_err());
    assert!(authentication_filter(&vec![], false).is_err());
}

#[test]
fn session_cookie_format() {
    assert_eq!(session_cookie("abc"), "sid=abc; Path=/; Domain=0.0.0.0; Max-Age=3600");
    assert_eq!(start_session(true), None);
    let cookie = start_session(false).unwrap();
    assert!(cookie.starts_with("sid="));
    assert!(cookie.ends_with("; Path=/; Domain=0.0.0.0; Max-Age=3600"));
    assert!(is_uuid_v4(&cookie[4..40]));
}

#[test]
fn request_ids_are_fresh_uuids() {
    let a = assign_request_id();
    let b = assign_request_id();
    assert!(is_uuid_v4(&a));
    assert!(is_uuid_v4(&b));
    assert_ne!(a, b);
}

#[test]
fn response_data_carries_request() {
    let data = gen_response_data("id-1".to_string(), 7);
    assert_eq!(data.metadata.request_id, "id-1");
    assert_eq!(data.metadata.timestamp, 7);
    assert_eq!(data.payload.message, "hello");
}

#[test]
fn string_error_display_and_description() {
    let e = StringError("authentication failed.".to_string());
    assert_eq!(e.description(), "authentication failed.");
    assert_eq!(e.to_string(), "StringError(\"authentication failed.\")");
    let quoted = StringError("say \"hi\"\n".to_string());
    assert_eq!(quoted.to_string(), "StringError(\"say \\\"hi\\\"\\n\")");
}

#[test]
fn future_results() {
    let reply = future_handler().ok().unwrap();
    assert_eq!(reply.status, 200);
    assert_eq!(reply.body, "is future response");
    let pending: FutureToIronResult<u8> = FutureToIronResult::from_readiness(Readiness::NotReady);
    let err = pending.into_result().unwrap_err();
    assert_eq!(err.error.description(), "error");
    assert!(matches!(err.response, ErrorResponse::Body(ref b) if b == "error"));
    let ready: FutureToIronResult<u8> = FutureToIronResult::from_readiness(Readiness::Ready(5));
    assert_eq!(ready.into_result().ok(), Some(5));
}

#[test]
fn json_entry_body() {
    assert_eq!(entry_body(42, "abc").unwrap(), "{\n  \"42\": \"abc\"\n}");
    assert_eq!(
        entry_body(7, "a\"b\\c\n\t\u{1}\u{1f}\u{7f}\u{e9}").unwrap(),
        "{\n  \"7\": \"a\\\"b\\\\c\\n\\t\\u0001\\u001f\u{7f}\u{e9}\"\n}"
    );
    assert_eq!(entry_body(u64::MAX, "").unwrap(), "{\n  \"18446744073709551615\": \"\"\n}");
    let body = handle().unwrap();
    assert!(body.starts_with("{\n  \""));
    assert!(body.ends_with("\"\n}"));
    let id_start = body.find(": \"").unwrap() + 3;
    assert!(is_uuid_v4(&body[id_start..id_start + 36]));
}

#[test]
fn hour_later() {
    assert_eq!(one_hour_later(10, 5), Some((3610, 5)));
    assert_eq!(one_hour_later(i64::MAX - 3600, 0), Some((i64::MAX, 0)));
    assert_eq!(one_hour_later(i64::MAX - 3599, 0), None);
    let ((sec, nsec), later) = now_and_hour_later();
    assert!(sec > 1_500_000_000);
    assert_eq!(later, Some((sec + 3600, nsec)));
}
