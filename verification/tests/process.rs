use niri_waybar_windowlist::process::{foreground_process, ProcEntry, ProcStat, command_name, parse_i64, ProcessError, ProcessInfo};

#[test]
fn stat_lines_give_the_parent() {
    let info = ProcessInfo::from_stat(12, "12 (bash) S 7 12 12 34816").ok().unwrap();
    assert_eq!(info.parent_id, Some(7));
    let info = ProcessInfo::from_stat(1, "1 (init) S 0 1 1").ok().unwrap();
    assert_eq!(info.parent_id, None);
}

#[test]
fn malformed_stat_lines_are_errors() {
    match ProcessInfo::from_stat(5, "5 (x) S") {
        Err(ProcessError::MalformedStat { pid }) => assert_eq!(pid, 5),
        _ => panic!("expected a malformed line"),
    }
    match ProcessInfo::from_stat(5, "5 (my app) S 3") {
        Err(ProcessError::InvalidPpid { value, pid }) => {
            assert_eq!(value, "S");
            assert_eq!(pid, 5);
        }
        _ => panic!("expected an invalid parent"),
    }
}

#[test]
fn integers_parse_as_the_standard_library_does() {
    assert_eq!(parse_i64("42"), Some(42));
    assert_eq!(parse_i64("+42"), Some(42));
    assert_eq!(parse_i64("-42"), Some(-42));
    assert_eq!(parse_i64("-9223372036854775808"), Some(i64::MIN));
    assert_eq!(parse_i64("9223372036854775807"), Some(i64::MAX));
    assert_eq!(parse_i64("9223372036854775808"), None);
    assert_eq!(parse_i64(""), None);
    assert_eq!(parse_i64("-"), None);
    assert_eq!(parse_i64("4 2"), None);
    for s in ["0", "17", "-3", "+0", "x", "1e3"] {
        assert_eq!(parse_i64(s), s.parse::<i64>().ok(), "{s}");
    }
}

#[test]
fn command_names_drop_the_directory() {
    assert_eq!(command_name("/usr/bin/nvim"), "nvim");
    assert_eq!(command_name("htop"), "htop");
}

fn entry(pid: i32, stat: Option<(i32, i32, i32)>, children: Vec<usize>) -> ProcEntry {
    ProcEntry { pid, stat: stat.map(|(tty_nr, pgrp, tpgid)| ProcStat { tty_nr, pgrp, tpgid }), children }
}

#[test]
fn shell_leading_its_group_is_the_foreground() {
    let table = vec![
        entry(100, Some((0, 100, -1)), vec![1, 2]),
        entry(101, Some((0, 101, -1)), vec![]),
        entry(102, Some((34816, 102, 102)), vec![]),
    ];
    assert_eq!(foreground_process(&table), Some(102));
}

#[test]
fn foreground_group_leader_below_the_shell_is_found() {
    let table = vec![
        entry(100, Some((0, 100, -1)), vec![1]),
        entry(200, Some((34816, 200, 300)), vec![2, 3]),
        entry(250, Some((34816, 250, 300)), vec![4]),
        entry(260, None, vec![]),
        entry(300, Some((34816, 300, 300)), vec![]),
    ];
    assert_eq!(foreground_process(&table), Some(300));
}

#[test]
fn foreground_is_the_group_leader_not_the_first_member() {
    let table = vec![
        entry(100, Some((0, 100, -1)), vec![1]),
        entry(200, Some((34816, 200, 300)), vec![2, 3]),
        entry(301, Some((34816, 300, 300)), vec![]),
        entry(300, Some((34816, 300, 300)), vec![]),
    ];
    assert_eq!(foreground_process(&table), Some(300));
}

#[test]
fn shell_stands_in_when_no_group_member_is_found() {
    let table = vec![entry(100, None, vec![1]), entry(200, Some((1, 200, 999)), vec![])];
    assert_eq!(foreground_process(&table), Some(200));
}

#[test]
fn terminal_without_a_shell_has_no_foreground() {
    let table = vec![entry(100, None, vec![1, 0]), entry(200, Some((0, 200, 200)), vec![])];
    assert_eq!(foreground_process(&table), None);
    assert_eq!(foreground_process(&vec![]), None);
}
