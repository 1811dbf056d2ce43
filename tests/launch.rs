use mcp_manager::{
    abandon_start, begin_start, event_channel, finish_start, kill_outcome, reader_step,
    with_newline, Error, EventGate, ReadOutcome, ReaderStep, Registry, ServerEvent, StreamKind,
};

fn is_v4_text(s: &str) -> bool {
    let c: Vec<char> = s.chars().collect();
    c.len() == 36
        && c.iter().enumerate().all(|(i, ch)| {
            if [8, 13, 18, 23].contains(&i) {
                *ch == '-'
            } else {
                ch.is_ascii_digit() || ('a'..='f').contains(ch)
            }
        })
        && c[14] == '4'
        && "89ab".contains(c[19])
}

#[test]
fn begin_start_draws_a_v4_id() {
    let mut reg: Registry<u8> = Registry::new();
    let p = begin_start(&mut reg, None).unwrap();
    assert!(is_v4_text(&p.server_id), "{}", p.server_id);
    assert!(p.name.is_none());
}

#[test]
fn starts_get_distinct_ids() {
    let mut reg: Registry<u8> = Registry::new();
    let mut ids = Vec::new();
    for i in 0..20u8 {
        let name = format!("s{}", i);
        let p = begin_start(&mut reg, Some(name.clone())).unwrap();
        let r = finish_start(&mut reg, p, Some(100 + i as u32), Some(i), true, true).unwrap();
        assert_eq!(r.name, Some(name));
        ids.push(r.server_id);
    }
    let mut sorted = ids.clone();
    sorted.sort();
    sorted.dedup();
    assert_eq!(sorted.len(), 20);
    for id in &ids {
        assert!(reg.contains(id));
    }
}

#[test]
fn start_with_live_name_is_a_name_conflict() {
    let mut reg: Registry<u8> = Registry::new();
    let p = begin_start(&mut reg, Some("svc".to_string())).unwrap();
    let first = finish_start(&mut reg, p, Some(1), Some(1), true, true).unwrap();
    let r = begin_start(&mut reg, Some("svc".to_string()));
    assert!(matches!(r, Err(Error::ServerNameExists(n)) if n == "svc"));
    assert!(reg.contains(&first.server_id));
}

#[test]
fn start_with_pending_name_is_a_name_conflict() {
    let mut reg: Registry<u8> = Registry::new();
    let _p = begin_start(&mut reg, Some("svc".to_string())).unwrap();
    assert!(matches!(begin_start(&mut reg, Some("svc".to_string())), Err(Error::ServerNameExists(_))));
}

#[test]
fn spawn_failure_registers_nothing_and_frees_the_name() {
    let mut reg: Registry<u8> = Registry::new();
    let p = begin_start(&mut reg, Some("svc".to_string())).unwrap();
    let id = p.server_id.clone();
    let cause = std::io::Error::new(std::io::ErrorKind::NotFound, "no such file");
    let e = abandon_start(&mut reg, p, cause);
    assert!(matches!(e, Error::Command(c) if c.kind() == std::io::ErrorKind::NotFound));
    assert!(!reg.contains(&id));
    assert!(reg.drain().is_empty());
    assert!(begin_start(&mut reg, Some("svc".to_string())).is_ok());
}

#[test]
fn missing_pid_or_pipe_is_a_pipe_error() {
    let mut reg: Registry<u8> = Registry::new();
    let cases = [
        (None, Some(1u8), true, true),
        (Some(1u32), None, true, true),
        (Some(1u32), Some(1u8), false, true),
        (Some(1u32), Some(1u8), true, false),
    ];
    for (pid, stdin, out, err) in cases {
        let p = begin_start(&mut reg, Some("svc".to_string())).unwrap();
        let id = p.server_id.clone();
        let r = finish_start(&mut reg, p, pid, stdin, out, err);
        assert!(matches!(r, Err(Error::Pipe)));
        assert!(!reg.contains(&id));
    }
}

#[test]
fn send_to_unknown_id_is_not_found() {
    let mut reg: Registry<u8> = Registry::new();
    let p = begin_start(&mut reg, None).unwrap();
    finish_start(&mut reg, p, Some(5), Some(5), true, true).unwrap();
    let r = reg.get(&"00000000-0000-4000-8000-000000000000".to_string());
    assert!(matches!(r, Err(Error::ServerNotFound(_))));
}

#[test]
fn echo_session_then_kill() {
    let mut reg: Registry<u8> = Registry::new();
    let p = begin_start(&mut reg, None).unwrap();
    let started = finish_start(&mut reg, p, Some(42), Some(9), true, true).unwrap();
    let id = started.server_id;
    assert_eq!(event_channel(&id), format!("mcp://message/{}", id));
    let mut gate = EventGate::new();

    let stdin = reg.get(&id).unwrap();
    assert_eq!(stdin.stdin, 9);
    let written = with_newline("hello".to_string());
    assert_eq!(written, "hello\n");

    let echoed = match reader_step(StreamKind::Stdout, ReadOutcome::Data(written.into_bytes())) {
        ReaderStep::Emit(ServerEvent::Stdout(bytes)) => bytes,
        _ => panic!("expected a stdout chunk"),
    };
    assert_eq!(
        gate.admit_output(StreamKind::Stdout, echoed),
        Some(ServerEvent::Stdout(b"hello\n".to_vec()))
    );

    let killed = reg.remove(&id).unwrap();
    assert_eq!(killed.pid, 42);
    assert!(kill_outcome(id.clone(), true).is_ok());
    assert!(matches!(reg.get(&id), Err(Error::ServerNotFound(_))));

    assert_eq!(gate.admit_exit(None), Some(ServerEvent::Exit(None)));
    assert!(!reg.discard(&id));
    assert_eq!(gate.admit_exit(None), None);
    assert!(matches!(reg.get(&id), Err(Error::ServerNotFound(s)) if s == id));
}
