use dnote::client::{check_close_request, listen_forever, ClientError};

#[test]
fn zero_is_rejected_locally_as_a_close_target() {
    assert!(matches!(check_close_request(0), Err(ClientError::ZeroId)));
}

#[test]
fn nonzero_close_targets_go_through_unchanged() {
    assert_eq!(check_close_request(1).ok(), Some(1));
    assert_eq!(check_close_request(u32::MAX).ok(), Some(u32::MAX));
}

#[test]
fn listening_is_a_no_op_for_a_stateless_client() {
    listen_forever();
}
