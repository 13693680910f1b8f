use openshell_apple_container::error::no_supervisor_session_message;
use openshell_apple_container::error::ComputeDriverError;
use openshell_apple_container::error::Error;
use openshell_apple_container::error::IoFailure;
use openshell_apple_container::error::NO_SUPERVISOR_SESSION_MARKER;

#[test]
fn errors_read_and_are_coded_by_kind() {
    let io = Error::from(IoFailure { message: "disk".to_string(), os_code: Some(5) });
    for (error, text, code) in [
        (Error::config("m"), "configuration error: m", "openshell::config"),
        (io, "I/O error: disk", "openshell::io"),
        (Error::tls("m"), "TLS error: m", "openshell::tls"),
        (Error::transport("m"), "transport error: m", "openshell::transport"),
        (Error::execution("m"), "execution error: m", "openshell::execution"),
        (Error::process("m"), "process error: m", "openshell::process"),
        (Error::Timeout, "operation timed out", "openshell::timeout"),
    ] {
        assert_eq!(error.to_text(), text);
        assert_eq!(error.diagnostic_code(), code);
    }
}

#[test]
fn each_driver_error_has_its_status() {
    for (error, code, message) in [
        (ComputeDriverError::AlreadyExists, tonic::Code::AlreadyExists, "sandbox already exists"),
        (ComputeDriverError::NotFound, tonic::Code::NotFound, "sandbox not found"),
        (
            ComputeDriverError::InvalidArgument("a".to_string()),
            tonic::Code::InvalidArgument,
            "a",
        ),
        (
            ComputeDriverError::Precondition("p".to_string()),
            tonic::Code::FailedPrecondition,
            "p",
        ),
        (ComputeDriverError::Message("m".to_string()), tonic::Code::Internal, "m"),
    ] {
        assert_eq!(error.to_text(), message);
        let status = error.into_status();
        assert_eq!(tonic::Code::from_i32(status.code), code);
        assert_eq!(status.message, message);
    }
}

#[test]
fn status_codes_on_the_wire() {
    assert_eq!(ComputeDriverError::AlreadyExists.into_status().code, 6);
    assert_eq!(ComputeDriverError::NotFound.into_status().code, 5);
    assert_eq!(ComputeDriverError::InvalidArgument(String::new()).into_status().code, 3);
    assert_eq!(ComputeDriverError::Precondition(String::new()).into_status().code, 9);
    assert_eq!(ComputeDriverError::Message(String::new()).into_status().code, 13);
}

#[test]
fn the_message_about_no_session_ends_in_its_marker() {
    let message = no_supervisor_session_message();
    assert_eq!(NO_SUPERVISOR_SESSION_MARKER, "openshell:no-supervisor-session");
    assert!(message.ends_with("sessions are required. [openshell:no-supervisor-session]"));
    assert!(message.starts_with(
        "this sandbox's topology runs no supervisor inside the sandbox, so SSH, exec, port \
         forwarding, and file transfer are unavailable. Policy-enforced"
    ));
}
