use mcp_manager::{
    event_channel, output_event, reader_step, EventGate, ReadOutcome, ReaderStep, ServerEvent,
    StreamKind,
};

#[test]
fn channel_is_prefixed_by_message_scheme() {
    assert_eq!(event_channel(&"abc".to_string()), "mcp://message/abc");
}

#[test]
fn output_event_tags_the_stream() {
    assert_eq!(output_event(StreamKind::Stdout, vec![1, 2]), ServerEvent::Stdout(vec![1, 2]));
    assert_eq!(output_event(StreamKind::Stderr, vec![3]), ServerEvent::Stderr(vec![3]));
}

#[test]
fn reader_emits_chunks_verbatim() {
    match reader_step(StreamKind::Stdout, ReadOutcome::Data(b"hello\n".to_vec())) {
        ReaderStep::Emit(ev) => assert_eq!(ev, ServerEvent::Stdout(b"hello\n".to_vec())),
        ReaderStep::Stop => panic!("chunk was dropped"),
    }
}

#[test]
fn reader_stops_on_eof_error_and_empty_read() {
    assert!(matches!(reader_step(StreamKind::Stdout, ReadOutcome::Eof), ReaderStep::Stop));
    assert!(matches!(reader_step(StreamKind::Stderr, ReadOutcome::Failed), ReaderStep::Stop));
    assert!(matches!(reader_step(StreamKind::Stderr, ReadOutcome::Data(Vec::new())), ReaderStep::Stop));
}

#[test]
fn gate_publishes_output_then_one_exit() {
    let mut gate = EventGate::new();
    assert!(!gate.exited());
    assert_eq!(gate.admit_output(StreamKind::Stdout, vec![b'a']), Some(ServerEvent::Stdout(vec![b'a'])));
    assert_eq!(gate.admit_output(StreamKind::Stderr, vec![b'b']), Some(ServerEvent::Stderr(vec![b'b'])));
    assert_eq!(gate.admit_exit(Some(0)), Some(ServerEvent::Exit(Some(0))));
    assert!(gate.exited());
}

#[test]
fn gate_drops_everything_after_exit() {
    let mut gate = EventGate::new();
    assert_eq!(gate.admit_exit(None), Some(ServerEvent::Exit(None)));
    assert_eq!(gate.admit_exit(Some(1)), None);
    assert_eq!(gate.admit_output(StreamKind::Stdout, vec![1]), None);
    assert!(gate.exited());
}
