use mcp_manager::{Error, ManagedProcess, Registry};

fn proc(pid: u32) -> ManagedProcess<u32> {
    ManagedProcess { pid, stdin: pid * 10 }
}

#[test]
fn new_registry_knows_no_server() {
    let reg: Registry<u32> = Registry::new();
    assert!(!reg.contains(&"a".to_string()));
    assert!(matches!(reg.get(&"a".to_string()), Err(Error::ServerNotFound(id)) if id == "a"));
}

#[test]
fn insert_then_get_returns_the_process() {
    let mut reg = Registry::new();
    assert!(reg.insert("a".to_string(), None, proc(7)).is_ok());
    let p = reg.get(&"a".to_string()).unwrap();
    assert_eq!(p.pid, 7);
    assert_eq!(p.stdin, 70);
    assert!(reg.contains(&"a".to_string()));
    assert!(!reg.contains(&"b".to_string()));
}

#[test]
fn insert_under_live_id_is_refused() {
    let mut reg = Registry::new();
    reg.insert("a".to_string(), None, proc(1)).unwrap();
    let r = reg.insert("a".to_string(), None, proc(2));
    assert!(matches!(r, Err(Error::ServerIdExists(id)) if id == "a"));
    assert_eq!(reg.get(&"a".to_string()).unwrap().pid, 1);
}

#[test]
fn remove_takes_the_entry_out_once() {
    let mut reg = Registry::new();
    reg.insert("a".to_string(), None, proc(3)).unwrap();
    let p = reg.remove(&"a".to_string()).unwrap();
    assert_eq!(p.pid, 3);
    assert!(matches!(reg.remove(&"a".to_string()), Err(Error::ServerNotFound(id)) if id == "a"));
    assert!(matches!(reg.get(&"a".to_string()), Err(Error::ServerNotFound(_))));
}

#[test]
fn discard_is_idempotent() {
    let mut reg = Registry::new();
    reg.insert("a".to_string(), None, proc(3)).unwrap();
    assert!(reg.discard(&"a".to_string()));
    assert!(!reg.discard(&"a".to_string()));
    assert!(!reg.contains(&"a".to_string()));
}

#[test]
fn kill_then_exit_reconcile_without_double_removal() {
    let mut reg = Registry::new();
    reg.insert("a".to_string(), None, proc(3)).unwrap();
    reg.insert("b".to_string(), None, proc(4)).unwrap();
    assert!(reg.remove(&"a".to_string()).is_ok());
    assert!(!reg.discard(&"a".to_string()));
    assert!(reg.contains(&"b".to_string()));
}

#[test]
fn reserved_name_is_refused_until_released() {
    let mut reg: Registry<u32> = Registry::new();
    assert!(reg.reserve_name("svc".to_string()).is_ok());
    let r = reg.reserve_name("svc".to_string());
    assert!(matches!(r, Err(Error::ServerNameExists(n)) if n == "svc"));
    reg.release_name(&"svc".to_string());
    assert!(reg.reserve_name("svc".to_string()).is_ok());
}

#[test]
fn live_server_name_is_refused_and_freed_by_removal() {
    let mut reg = Registry::new();
    reg.reserve_name("svc".to_string()).unwrap();
    reg.insert("a".to_string(), Some("svc".to_string()), proc(1)).unwrap();
    assert!(matches!(reg.reserve_name("svc".to_string()), Err(Error::ServerNameExists(_))));
    reg.remove(&"a".to_string()).unwrap();
    assert!(reg.reserve_name("svc".to_string()).is_ok());
}

#[test]
fn distinct_names_all_reserve() {
    let mut reg: Registry<u32> = Registry::new();
    for n in ["one", "two", "three", "four"] {
        assert!(reg.reserve_name(n.to_string()).is_ok());
    }
    assert!(reg.reserve_name("two".to_string()).is_err());
}

#[test]
fn drain_returns_every_live_server() {
    let mut reg = Registry::new();
    reg.insert("a".to_string(), None, proc(1)).unwrap();
    reg.insert("b".to_string(), None, proc(2)).unwrap();
    reg.insert("c".to_string(), None, proc(3)).unwrap();
    reg.remove(&"b".to_string()).unwrap();
    let mut all: Vec<(String, u32)> = reg.drain().into_iter().map(|(id, p)| (id, p.pid)).collect();
    all.sort();
    assert_eq!(all, vec![("a".to_string(), 1), ("c".to_string(), 3)]);
    assert!(!reg.contains(&"a".to_string()));
    assert!(reg.drain().is_empty());
}
