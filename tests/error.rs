use accelerometer::{Error, ErrorKind};

#[test]
fn new_error_has_no_cause() {
    let e: Error<u32> = Error::new(ErrorKind::Device);
    assert_eq!(e.kind(), ErrorKind::Device);
    assert_eq!(e.cause(), None);
}

#[test]
fn error_with_cause() {
    let e = Error::new_with_cause(ErrorKind::Param, "bad".to_string());
    assert_eq!(e.kind(), ErrorKind::Param);
    assert_eq!(e.cause(), Some(&"bad".to_string()));
    assert_eq!(e.into_cause(), "bad");
}

#[test]
fn from_cause_is_a_bus_error() {
    let e: Error<i32> = Error::from(-5);
    assert_eq!(e.kind(), ErrorKind::Bus);
    assert_eq!(e.into_cause(), -5);
}

#[test]
fn err_builds_an_error_result() {
    let r: Result<(), Error<u8>> = ErrorKind::Mode.err();
    let e = r.unwrap_err();
    assert_eq!(e.kind(), ErrorKind::Mode);
    assert!(e.cause().is_none());
}

#[test]
fn descriptions() {
    assert_eq!(ErrorKind::Bus.description(), "bus error");
    assert_eq!(ErrorKind::Device.description(), "device error");
    assert_eq!(ErrorKind::Mode.description(), "invalid mode");
    assert_eq!(ErrorKind::Param.description(), "invalid parameter");
}
