use pimostat::socket::{check_listen_env, ListenError};

#[test]
fn listen_env_ok() {
    assert_eq!(check_listen_env(Some("1234"), Some("1"), 1234), Ok(()));
    assert_eq!(check_listen_env(Some("+01234"), Some("+1"), 1234), Ok(()));
}

#[test]
fn listen_env_errors_in_order() {
    assert_eq!(check_listen_env(None, None, 1), Err(ListenError::PidNotSet));
    assert_eq!(check_listen_env(Some("x"), None, 1), Err(ListenError::InvalidPid));
    assert_eq!(check_listen_env(Some("4294967296"), Some("1"), 1), Err(ListenError::InvalidPid));
    assert_eq!(check_listen_env(Some("1"), None, 1), Err(ListenError::FdsNotSet));
    assert_eq!(check_listen_env(Some("1"), Some(""), 1), Err(ListenError::InvalidFds));
    assert_eq!(check_listen_env(Some("2"), Some("1"), 1), Err(ListenError::PidMismatch));
    assert_eq!(check_listen_env(Some("2"), Some("2"), 2), Err(ListenError::FdsNotOne));
    assert_eq!(check_listen_env(Some("2"), Some("0"), 2), Err(ListenError::FdsNotOne));
}

#[test]
fn listen_env_largest_pid() {
    assert_eq!(check_listen_env(Some("4294967295"), Some("1"), u32::MAX), Ok(()));
}
