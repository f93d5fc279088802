use kacrab_protocol::error_code::ErrorCode;

#[test]
fn known_codes_round_trip() {
    for c in -1i16..=133 {
        let e = ErrorCode::from(c);
        assert!(!matches!(e, ErrorCode::Unknown(_)), "code {} should be known", c);
        assert_eq!(e.code(), c);
        assert_eq!(i16::from(e), c);
    }
}

#[test]
fn unknown_codes_are_kept() {
    for c in [-2i16, 134, 1000, i16::MIN, i16::MAX] {
        let e = ErrorCode::from(c);
        assert_eq!(e, ErrorCode::Unknown(c));
        assert_eq!(e.code(), c);
        assert!(!e.is_retriable());
        assert!(e.is_error());
    }
}

#[test]
fn selected_codes() {
    assert_eq!(ErrorCode::from(0), ErrorCode::NoError);
    assert_eq!(ErrorCode::from(-1), ErrorCode::UnknownServerError);
    assert_eq!(ErrorCode::from(6), ErrorCode::NotLeaderOrFollower);
    assert_eq!(ErrorCode::from(35), ErrorCode::UnsupportedVersion);
    assert_eq!(ErrorCode::from(133), ErrorCode::ShareSessionLimitReached);
    assert_eq!(ErrorCode::RebootstrapRequired.code(), 129);
}

#[test]
fn only_no_error_is_not_an_error() {
    assert!(!ErrorCode::NoError.is_error());
    assert!(ErrorCode::UnknownServerError.is_error());
    assert!(ErrorCode::OffsetOutOfRange.is_error());
}

#[test]
fn retriable_codes() {
    assert!(ErrorCode::NotLeaderOrFollower.is_retriable());
    assert!(ErrorCode::CorruptMessage.is_retriable());
    assert!(ErrorCode::RebootstrapRequired.is_retriable());
    assert!(!ErrorCode::NoError.is_retriable());
    assert!(!ErrorCode::UnknownServerError.is_retriable());
    assert!(!ErrorCode::TopicAuthorizationFailed.is_retriable());
    let n = (-1i16..=133).filter(|c| ErrorCode::from(*c).is_retriable()).count();
    assert_eq!(n, 34);
    for c in -1i16..=133 {
        let e = ErrorCode::from(c);
        if e.is_retriable() {
            assert!(e.is_error());
        }
    }
}

#[test]
fn messages() {
    assert_eq!(ErrorCode::NoError.to_string(), "NONE");
    assert_eq!(
        ErrorCode::UnknownServerError.to_string(),
        "The server experienced an unexpected error when processing the request."
    );
    assert_eq!(
        ErrorCode::CorruptMessage.to_string(),
        "This message has failed its CRC checksum, exceeds the valid size, has a null key for a compacted topic, or is otherwise corrupt."
    );
    assert_eq!(
        ErrorCode::ShareSessionLimitReached.to_string(),
        "The limit of share sessions has been reached."
    );
    assert_eq!(ErrorCode::Unknown(999).to_string(), "Unknown error code: 999");
    assert_eq!(ErrorCode::Unknown(-5).to_string(), "Unknown error code: -5");
    assert_eq!(ErrorCode::Unknown(0).to_string(), "Unknown error code: 0");
}
