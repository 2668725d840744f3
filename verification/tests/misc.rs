use musicsync::error::AppError;
use musicsync::net::derive_cidr24;
use musicsync::store::{Config, Settings};

#[test]
fn cidr24_zeroes_the_host_octet() {
    assert_eq!(derive_cidr24([192, 168, 10, 47]), "192.168.10.0/24");
    assert_eq!(derive_cidr24([10, 0, 0, 1]), "10.0.0.0/24");
}

#[test]
fn error_codes_are_stable() {
    assert_eq!(AppError::Store("x".into()).code(), "store_error");
    assert_eq!(AppError::Store("x".into()).message(), "storage error: x");
    assert_eq!(AppError::Auth("x".into()).code(), "auth_error");
    assert_eq!(AppError::LockedOut { secs: 3 }.message(), "Too many failed attempts. Try again in 3s.");
    assert_eq!(AppError::InvalidInput("x".into()).code(), "invalid_input");
    assert_eq!(AppError::Internal("x".into()).code(), "internal_error");
}

#[test]
fn defaults_match_first_launch() {
    let s = Settings::default();
    assert_eq!(s.poll_ms, 3000);
    assert_eq!(s.theme, "dark");
    assert_eq!(s.guard_mode, "ask");
    assert_eq!(s.failover_mode, "prompt");
    let c = Config::default();
    assert!(c.auth.is_none());
    assert!(c.devices.is_empty());
    assert!(!c.remember_me);
}
