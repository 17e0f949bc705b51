use backend_supervisor::reclaim::{
    contains_sub, listening_pids, plan_from_connection_table, plan_from_pid_list, push_decimal,
    split_lines, split_tokens, RECLAIM_GRACE_MS,
};

fn strs(v: &[Vec<u8>]) -> Vec<String> {
    v.iter().map(|b| String::from_utf8(b.clone()).unwrap()).collect()
}

#[test]
fn nothing_listening_means_no_wait() {
    let plan = plan_from_pid_list(true, b"");
    assert!(plan.targets.is_empty());
    assert_eq!(plan.grace_ms, 0);
    let plan = plan_from_pid_list(false, b"");
    assert!(plan.targets.is_empty());
    assert_eq!(plan.grace_ms, 0);
    let plan = plan_from_pid_list(true, b" \n\n");
    assert!(plan.targets.is_empty());
    assert_eq!(plan.grace_ms, 0);
}

#[test]
fn single_listener_is_targeted() {
    let plan = plan_from_pid_list(true, b"4242\n");
    assert_eq!(strs(&plan.targets), vec!["4242"]);
    assert_eq!(plan.grace_ms, RECLAIM_GRACE_MS);
    assert_eq!(plan.grace_ms, 500);
}

#[test]
fn repeated_pids_are_targeted_once() {
    let plan = plan_from_pid_list(true, b"12\n 34 \n12\n");
    assert_eq!(strs(&plan.targets), vec!["12", "34"]);
    assert_eq!(plan.grace_ms, 500);
}

#[test]
fn connection_table_listeners() {
    let table = b"Active Connections\r\n\r\n  Proto  Local Address          Foreign Address        State           PID\r\n  TCP    0.0.0.0:8000           0.0.0.0:0              LISTENING       5120\r\n  TCP    [::]:8000              [::]:0                 LISTENING       5120\r\n  TCP    127.0.0.1:8000         127.0.0.1:53012        ESTABLISHED     5120\r\n  TCP    0.0.0.0:135            0.0.0.0:0              LISTENING       948\r\n  TCP    0.0.0.0:8000           0.0.0.0:0              LISTENING       777\r\n";
    assert_eq!(strs(&listening_pids(table, 8000)), vec!["5120", "777"]);
    assert_eq!(strs(&listening_pids(table, 135)), vec!["948"]);
    assert!(listening_pids(table, 9000).is_empty());
    let plan = plan_from_connection_table(true, table, 8000);
    assert_eq!(strs(&plan.targets), vec!["5120", "777"]);
    assert_eq!(plan.grace_ms, 500);
    let plan = plan_from_connection_table(true, table, 9000);
    assert!(plan.targets.is_empty());
    assert_eq!(plan.grace_ms, 0);
    let plan = plan_from_connection_table(false, table, 8000);
    assert!(plan.targets.is_empty());
}

#[test]
fn decimal_digits() {
    let mut out: Vec<u8> = vec![b':'];
    push_decimal(8000, &mut out);
    assert_eq!(out, b":8000".to_vec());
    let mut out: Vec<u8> = Vec::new();
    push_decimal(0, &mut out);
    assert_eq!(out, b"0".to_vec());
    let mut out: Vec<u8> = Vec::new();
    push_decimal(65535, &mut out);
    assert_eq!(out, b"65535".to_vec());
}

#[test]
fn splitting() {
    assert_eq!(strs(&split_tokens(b"  a bc\t d\n")), vec!["a", "bc", "d"]);
    assert!(split_tokens(b"").is_empty());
    assert_eq!(strs(&split_lines(b"x\n\ny z\n")), vec!["x", "", "y z"]);
    assert_eq!(strs(&split_lines(b"last")), vec!["last"]);
}

#[test]
fn substring_search() {
    assert!(contains_sub(b"0.0.0.0:8000 LISTENING", b":8000"));
    assert!(!contains_sub(b"0.0.0.0:800 LISTENING", b":8000"));
    assert!(contains_sub(b"abc", b""));
    assert!(!contains_sub(b"ab", b"abc"));
}
