use culebra::server::{
    connection_step, echo_reply, timer_step, ConnEvent, IoEvent, TaskStep, CLIENT_RECV_BUF_LEN,
    SERVER_PORT, SERVER_RECV_BUF_LEN,
};

#[test]
fn ping_is_echoed_padded_to_the_buffer_length() {
    let reply = echo_reply(&b"ping".to_vec());
    assert_eq!(reply.len(), 1024);
    assert_eq!(&reply[..4], b"ping");
    assert!(reply[4..].iter().all(|&b| b == 0));
}

#[test]
fn an_empty_datagram_is_echoed_as_zeroes() {
    let reply = echo_reply(&Vec::new());
    assert_eq!(reply, vec![0u8; 1024]);
}

#[test]
fn a_full_buffer_is_echoed_unchanged() {
    let payload = vec![7u8; 1024];
    assert_eq!(echo_reply(&payload), payload);
}

#[test]
fn the_connection_task_retries_on_routine_outcomes() {
    assert_eq!(
        connection_step(&ConnEvent::Received(IoEvent::Ready)),
        TaskStep::Retry
    );
    assert_eq!(
        connection_step(&ConnEvent::Received(IoEvent::WouldBlock)),
        TaskStep::Retry
    );
    assert_eq!(connection_step(&ConnEvent::RecvWouldBlock), TaskStep::Retry);
}

#[test]
fn the_connection_task_retires_on_hard_failures() {
    assert_eq!(
        connection_step(&ConnEvent::Received(IoEvent::Failed)),
        TaskStep::Done
    );
    assert_eq!(connection_step(&ConnEvent::RecvFailed), TaskStep::Done);
}

#[test]
fn the_timer_task_always_rearms() {
    assert_eq!(timer_step(), TaskStep::Retry);
}

#[test]
fn transport_constants() {
    assert_eq!(SERVER_PORT, 7777);
    assert_eq!(SERVER_RECV_BUF_LEN, 1024);
    assert_eq!(CLIENT_RECV_BUF_LEN, 4096);
}
