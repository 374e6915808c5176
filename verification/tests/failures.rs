use docker_registry::errors::{Error, TransportKind};
use docker_registry::text::contains_text;

#[test]
fn a_failure_that_speaks_of_a_certificate_is_a_certificate_failure() {
    let message = "client error (Connect): error:0A000086:SSL routines:tls_post_process_server_certificate:certificate verify failed";
    assert_eq!(
        Error::transport(false, message.to_string()),
        Error::Transport(TransportKind::Certificate, message.to_string())
    );
    assert_eq!(
        Error::transport(true, "certificate".to_string()),
        Error::Transport(TransportKind::Certificate, "certificate".to_string())
    );
}

#[test]
fn a_failure_on_which_time_ran_out_is_a_timeout() {
    assert_eq!(
        Error::transport(true, "operation timed out".to_string()),
        Error::Transport(TransportKind::Timeout, "operation timed out".to_string())
    );
}

#[test]
fn any_other_failure_of_the_connection_is_told_as_it_was_said() {
    assert_eq!(
        Error::transport(false, "connection refused".to_string()),
        Error::Transport(TransportKind::Other, "connection refused".to_string())
    );
    assert_eq!(
        Error::transport(false, "".to_string()),
        Error::Transport(TransportKind::Other, "".to_string())
    );
    assert_eq!(
        Error::transport(false, "Certificate".to_string()),
        Error::Transport(TransportKind::Other, "Certificate".to_string())
    );
}

#[test]
fn finds_a_text_within_a_text() {
    assert!(contains_text("abc", ""));
    assert!(contains_text("", ""));
    assert!(contains_text("abc", "abc"));
    assert!(contains_text("xabcx", "abc"));
    assert!(contains_text("aab", "ab"));
    assert!(contains_text("abab", "bab"));
    assert!(!contains_text("", "a"));
    assert!(!contains_text("ab", "abc"));
    assert!(!contains_text("abd", "abc"));
    assert!(!contains_text("certificat", "certificate"));
}
