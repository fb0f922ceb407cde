use lunash::session::arg_entries;
use lunash::session::exit_code_for;
use lunash::session::is_reserved_global;
use lunash::session::resolution_message;
use lunash::session::BindError;
use lunash::session::LaunchError;
use lunash::session::Registry;
use lunash::session::Session;

#[test]
fn registering_twice_across_sessions_leaks_nothing() {
    let mut a = Registry::new();
    let mut b = Registry::new();
    assert!(a.register_standard().is_ok());
    assert!(b.register_standard().is_ok());
    assert_eq!(a.bound_names(), b.bound_names());
    assert_eq!(
        a.bound_names(),
        vec![
            "fs".to_string(),
            "stringx".to_string(),
            "regex".to_string(),
            "http".to_string(),
            "clipboard".to_string(),
        ]
    );
}

#[test]
fn duplicate_binding_is_refused() {
    let mut r = Registry::new();
    assert!(r.register("fs".to_string()).is_ok());
    match r.register("fs".to_string()) {
        Err(BindError::Duplicate) => {}
        _ => panic!("a second binding under the same name must be refused"),
    }
    assert_eq!(r.bound_names(), vec!["fs".to_string()]);
}

#[test]
fn reserved_global_is_refused() {
    let mut r = Registry::new();
    match r.register("print".to_string()) {
        Err(BindError::Reserved) => {}
        _ => panic!("a reserved guest global must not be shadowed"),
    }
    match r.register("arg".to_string()) {
        Err(BindError::Reserved) => {}
        _ => panic!("the injected argument global must not be shadowed"),
    }
    assert!(r.bound_names().is_empty());
}

#[test]
fn reserved_globals_are_recognized() {
    assert!(is_reserved_global("print"));
    assert!(is_reserved_global("arg"));
    assert!(!is_reserved_global("fs"));
    assert!(!is_reserved_global("http"));
}

#[test]
fn argument_vector_is_one_indexed() {
    let args = vec!["lunash".to_string(), "run".to_string(), "foo".to_string()];
    let entries = arg_entries(&args);
    assert_eq!(entries.len(), 3);
    assert_eq!(entries[0], (1, "lunash".to_string()));
    assert_eq!(entries[1], (2, "run".to_string()));
    assert_eq!(entries[2], (3, "foo".to_string()));
}

#[test]
fn completed_session_exits_zero() {
    let mut s = Session::new();
    assert!(s.configure(vec!["lunash".to_string()]).is_ok());
    s.load(Ok(()));
    s.start();
    s.finish(Ok(()));
    assert_eq!(s.exit_code(), 0);
}

#[test]
fn runtime_fault_exits_nonzero() {
    let mut s = Session::new();
    assert!(s.configure(Vec::new()).is_ok());
    s.load(Ok(()));
    s.start();
    s.finish(Err("attempt to call a nil value".to_string()));
    assert_ne!(s.exit_code(), 0);
}

#[test]
fn compile_failure_faults_before_running() {
    let mut s = Session::new();
    assert!(s.configure(Vec::new()).is_ok());
    s.load(Err("unexpected symbol near 'end'".to_string()));
    assert_ne!(s.exit_code(), 0);
}

#[test]
fn launcher_exit_codes_follow_outcome() {
    assert_eq!(exit_code_for(&Ok(())), 0);
    assert_ne!(
        exit_code_for(&Err(LaunchError::Resolution("foo".to_string()))),
        0
    );
}

#[test]
fn resolution_failure_names_the_script() {
    assert_eq!(
        resolution_message("foo"),
        "Script for 'foo' not found".to_string()
    );
}
