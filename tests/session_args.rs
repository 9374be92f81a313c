use pty_proxy::clock::{log_file_name, log_file_name_now, LocalTime};
use pty_proxy::session::{
    join_args, new_token, parse_worker_args, target_from_args, without_hyphens, worker_command_line,
    ProxySession,
};

fn strings(v: &[&str]) -> Vec<String> {
    v.iter().map(|s| s.to_string()).collect()
}

fn is_token(t: &str) -> bool {
    t.len() == 32 && t.chars().all(|c| c.is_ascii_digit() || ('a'..='f').contains(&c))
}

#[test]
fn tokens_are_32_hex_digits_and_differ() {
    let a = new_token();
    let b = new_token();
    assert!(is_token(&a), "{a}");
    assert!(is_token(&b), "{b}");
    assert_ne!(a, b);
}

#[test]
fn session_pipe_names_use_the_tokens() {
    let s = ProxySession::generate();
    assert!(is_token(&s.inbound_token));
    assert!(is_token(&s.outbound_token));
    assert_eq!(s.inbound_pipe_name(), format!(r"\\.\pipe\ptyproxy{}", s.inbound_token));
    assert_eq!(s.outbound_pipe_name(), format!(r"\\.\pipe\ptyproxy{}", s.outbound_token));
}

#[test]
fn hyphens_are_removed() {
    assert_eq!(without_hyphens("67e55044-10b1-426f-9247-bb680e5fe0c8"), "67e5504410b1426f9247bb680e5fe0c8");
    assert_eq!(without_hyphens("---"), "");
}

#[test]
fn args_are_joined_with_spaces() {
    let args = strings(&["prog", "cmd.exe", "/C", "echo hi"]);
    assert_eq!(join_args(&args, 2), "/C echo hi");
    assert_eq!(join_args(&args, 3), "echo hi");
    assert_eq!(join_args(&args, 4), "");
    assert_eq!(join_args(&args, 9), "");
}

#[test]
fn command_line_matches_the_launch_contract() {
    let s = ProxySession { inbound_token: "in1".to_string(), outbound_token: "out2".to_string() };
    let line = worker_command_line(r"C:\bin\pty-proxy-child.exe", &s, "cmd.exe", "/C echo hi");
    assert_eq!(line, "\"C:\\bin\\pty-proxy-child.exe\" in1 out2 \"cmd.exe\" /C echo hi");
    assert_eq!(worker_command_line("w", &s, "t", ""), "\"w\" in1 out2 \"t\" ");
}

#[test]
fn worker_reads_back_what_the_supervisor_sent() {
    let args = strings(&["child", "in1", "out2", "cmd.exe", "/C", "echo", "hi"]);
    let w = parse_worker_args(&args).unwrap();
    assert_eq!(w.write_token, "in1");
    assert_eq!(w.read_token, "out2");
    assert_eq!(w.target.program, "cmd.exe");
    assert_eq!(w.target.args, "/C echo hi");
    assert_eq!(w.write_pipe_name(), r"\\.\pipe\ptyproxyin1");
    assert_eq!(w.read_pipe_name(), r"\\.\pipe\ptyproxyout2");
    let w = parse_worker_args(&strings(&["child", "a", "b", "prog"])).unwrap();
    assert_eq!(w.target.args, "");
}

#[test]
fn worker_needs_three_arguments() {
    assert!(parse_worker_args(&strings(&["child", "a", "b"])).is_none());
    assert!(parse_worker_args(&strings(&[])).is_none());
}

#[test]
fn supervisor_target_from_arguments() {
    let t = target_from_args(&strings(&["pty-proxy", "cmd.exe", "/K"])).unwrap();
    assert_eq!(t.program, "cmd.exe");
    assert_eq!(t.args, "/K");
    assert!(target_from_args(&strings(&["pty-proxy"])).is_none());
}

fn at(year: i32) -> LocalTime {
    LocalTime { year, month: 3, day: 7, hour: 9, minute: 5, second: 59, epoch_millis: 0 }
}

#[test]
fn log_file_name_is_stamped() {
    assert_eq!(log_file_name(&at(2024)), "output_log_20240307090559.txt");
    assert_eq!(log_file_name(&at(987)), "output_log_09870307090559.txt");
    assert_eq!(log_file_name(&at(12345)), "output_log_+123450307090559.txt");
    assert_eq!(log_file_name(&at(-3)), "output_log_-00030307090559.txt");
}

#[test]
fn log_file_name_now_has_the_shape() {
    let n = log_file_name_now();
    assert!(n.starts_with("output_log_"));
    assert!(n.ends_with(".txt"));
    assert_eq!(n.len(), "output_log_".len() + 14 + ".txt".len());
}
