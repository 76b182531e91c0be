use mini_shell::builtin::BuiltinCommand;
use mini_shell::handlers::{
    cd_failure_message, cd_target, command_not_found, handle_cd, handle_echo, handle_exit,
    handle_type, parse_exit_status, spawn_failure_message, wait_failure_message,
};
use mini_shell::path::{
    find_in_path, is_executable_file, join_dir, path_candidates, split_colon_list, FileMeta,
};
use mini_shell::router::{dispatch, lookup_target, Effect};
use mini_shell::text::{concat_str, join_with_spaces, same_text};
use mini_shell::tokenizer::{is_space, parse_input};

fn words(ws: &[&str]) -> Vec<String> {
    ws.iter().map(|w| w.to_string()).collect()
}

fn exe() -> Option<FileMeta> {
    Some(FileMeta { is_file: true, mode: 0o755 })
}

#[test]
fn tokenize_collapses_repeated_whitespace() {
    assert_eq!(parse_input("echo  hello   world"), words(&["echo", "hello", "world"]));
}

#[test]
fn tokenize_keeps_whitespace_inside_quotes() {
    assert_eq!(parse_input("echo 'a  b' c"), words(&["echo", "a  b", "c"]));
}

#[test]
fn tokenize_accepts_unterminated_quote() {
    assert_eq!(parse_input("echo 'unterminated"), words(&["echo", "unterminated"]));
}

#[test]
fn tokenize_edge_cases() {
    assert_eq!(parse_input(""), words(&[]));
    assert_eq!(parse_input("   \t "), words(&[]));
    assert_eq!(parse_input("''"), words(&[]));
    assert_eq!(parse_input("'"), words(&[""]));
    assert_eq!(parse_input("a'b c'd e"), words(&["ab cd", "e"]));
    assert_eq!(parse_input("x\u{3000}y\u{a0}z"), words(&["x", "y", "z"]));
    assert_eq!(parse_input("héllo wörld"), words(&["héllo", "wörld"]));
}

#[test]
fn tokens_never_hold_a_quote() {
    for line in ["'a' 'b'c'", "it's a 'test'", "''''", "a''b"] {
        for w in parse_input(line) {
            assert!(!w.contains('\''));
        }
    }
}

#[test]
fn whitespace_classification_matches_std() {
    for c in ['\t', '\n', '\u{b}', '\u{c}', '\r', ' ', '\u{85}', '\u{a0}', '\u{1680}', '\u{2000}',
        '\u{200a}', '\u{2028}', '\u{2029}', '\u{202f}', '\u{205f}', '\u{3000}', 'a', '\'', '\u{200b}',
        '\u{180e}', '\u{feff}', '0']
    {
        assert_eq!(is_space(c), c.is_whitespace(), "{:?}", c);
    }
}

#[test]
fn builtin_names_are_exact() {
    assert_eq!(BuiltinCommand::from_str("exit"), Some(BuiltinCommand::Exit));
    assert_eq!(BuiltinCommand::from_str("echo"), Some(BuiltinCommand::Echo));
    assert_eq!(BuiltinCommand::from_str("type"), Some(BuiltinCommand::Type));
    assert_eq!(BuiltinCommand::from_str("pwd"), Some(BuiltinCommand::Pwd));
    assert_eq!(BuiltinCommand::from_str("cd"), Some(BuiltinCommand::Cd));
    assert_eq!(BuiltinCommand::from_str("Exit"), None);
    assert_eq!(BuiltinCommand::from_str("ls"), None);
    assert_eq!(BuiltinCommand::from_str(""), None);
}

#[test]
fn type_reports_builtins() {
    for name in ["exit", "echo", "type", "pwd", "cd"] {
        let r = handle_type(&words(&[name]), &Some("/bin/x".to_string()));
        assert_eq!(r, format!("{} is a shell builtin", name));
    }
}

#[test]
fn type_reports_path_hit_and_miss() {
    let cands = path_candidates("tool", &Some("/usr/bin:/opt/tools:/bin".to_string()));
    assert_eq!(cands, words(&["/usr/bin/tool", "/opt/tools/tool", "/bin/tool"]));
    let metas = vec![None, exe(), None];
    let found = find_in_path(&cands, &metas);
    assert_eq!(found, Some("/opt/tools/tool".to_string()));
    assert_eq!(handle_type(&words(&["tool"]), &found), "tool is /opt/tools/tool");
    let none = find_in_path(&cands, &vec![None, None, None]);
    assert_eq!(none, None);
    assert_eq!(handle_type(&words(&["tool"]), &none), "tool: not found");
    assert_eq!(handle_type(&words(&[]), &None), "Usage: type <command>");
}

#[test]
fn search_takes_first_executable() {
    let cands = words(&["/a/x", "/b/x", "/c/x"]);
    let dir = Some(FileMeta { is_file: false, mode: 0o755 });
    let plain = Some(FileMeta { is_file: true, mode: 0o644 });
    assert_eq!(find_in_path(&cands, &vec![dir, plain, exe()]), Some("/c/x".to_string()));
    assert_eq!(find_in_path(&cands, &vec![exe(), exe(), None]), Some("/a/x".to_string()));
    assert_eq!(find_in_path(&words(&[]), &vec![]), None);
}

#[test]
fn executable_bits() {
    assert!(is_executable_file(Some(FileMeta { is_file: true, mode: 0o100 })));
    assert!(is_executable_file(Some(FileMeta { is_file: true, mode: 0o010 })));
    assert!(is_executable_file(Some(FileMeta { is_file: true, mode: 0o100001 })));
    assert!(!is_executable_file(Some(FileMeta { is_file: true, mode: 0o100644 })));
    assert!(!is_executable_file(Some(FileMeta { is_file: false, mode: 0o777 })));
    assert!(!is_executable_file(None));
}

#[test]
fn search_list_splitting_and_joining() {
    assert_eq!(split_colon_list(""), words(&[""]));
    assert_eq!(split_colon_list("a::b:"), words(&["a", "", "b", ""]));
    assert_eq!(join_dir("/bin", "ls"), "/bin/ls");
    assert_eq!(join_dir("/bin/", "ls"), "/bin/ls");
    assert_eq!(join_dir("", "ls"), "ls");
    assert_eq!(join_dir("/bin", "/usr/bin/ls"), "/usr/bin/ls");
    assert_eq!(path_candidates("ls", &None), words(&[]));
    assert_eq!(path_candidates("ls", &Some("/bin::.".to_string())), words(&["/bin/ls", "ls", "./ls"]));
}

#[test]
fn exit_statuses() {
    assert_eq!(handle_exit(&words(&["0"])), (0, None));
    assert_eq!(handle_exit(&words(&["7"])), (7, None));
    assert_eq!(
        handle_exit(&words(&["abc"])),
        (1, Some("exit: numeric argument required: abc".to_string()))
    );
    assert_eq!(handle_exit(&words(&[])), (0, None));
}

#[test]
fn exit_status_parsing() {
    assert_eq!(parse_exit_status("255"), Some(255));
    assert_eq!(parse_exit_status("256"), None);
    assert_eq!(parse_exit_status("007"), Some(7));
    assert_eq!(parse_exit_status("+3"), Some(3));
    assert_eq!(parse_exit_status("+"), None);
    assert_eq!(parse_exit_status("-1"), None);
    assert_eq!(parse_exit_status(""), None);
    assert_eq!(parse_exit_status("99999999999999999999"), None);
    for s in ["0", "12", "255", "256", "+4", "-0", "1a", " 1", "٣"] {
        assert_eq!(parse_exit_status(s), s.parse::<u8>().ok(), "{}", s);
    }
}

#[test]
fn echo_lines() {
    assert_eq!(handle_echo(&words(&[])), "");
    assert_eq!(handle_echo(&words(&["a", "b", "c"])), "a b c");
    assert_eq!(handle_echo(&words(&["a  b"])), "a  b");
    assert_eq!(join_with_spaces(&words(&["", ""])), " ");
}

#[test]
fn cd_targets() {
    let home = Some("/home/me".to_string());
    assert_eq!(cd_target(&words(&["~"]), &home), Ok("/home/me".to_string()));
    assert_eq!(cd_target(&words(&["~"]), &None), Err("cd: HOME not set".to_string()));
    assert_eq!(cd_target(&words(&["/tmp"]), &home), Ok("/tmp".to_string()));
    assert_eq!(cd_target(&words(&[]), &home), Err("cd: missing argument".to_string()));
    assert_eq!(handle_cd(&words(&["/nonexistent"])), Ok("/nonexistent".to_string()));
    assert_eq!(
        cd_failure_message("/nonexistent"),
        "cd: /nonexistent: No such file or directory"
    );
}

#[test]
fn unknown_command_is_reported_and_session_goes_on() {
    let line = words(&["frobnicate", "x"]);
    assert_eq!(lookup_target(&line), Some("frobnicate".to_string()));
    match dispatch(&line, &None) {
        Effect::Print(s) => assert_eq!(s, "frobnicate: command not found"),
        _ => panic!("expected a report"),
    }
    assert_eq!(command_not_found("nope"), "nope: command not found");
    match dispatch(&words(&["echo", "still", "here"]), &None) {
        Effect::Print(s) => assert_eq!(s, "still here"),
        _ => panic!("expected a line"),
    }
}

#[test]
fn external_program_keeps_typed_name() {
    let line = words(&["prog", "-v", "x y"]);
    match dispatch(&line, &Some("/usr/local/bin/prog".to_string())) {
        Effect::Launch(l) => {
            assert_eq!(l.program, "/usr/local/bin/prog");
            assert_eq!(l.argv0, "prog");
            assert_eq!(l.args, words(&["-v", "x y"]));
        }
        _ => panic!("expected a launch"),
    }
}

#[test]
fn dispatch_builtins() {
    match dispatch(&words(&["exit", "7"]), &None) {
        Effect::Exit { status, error } => {
            assert_eq!(status, 7);
            assert_eq!(error, None);
        }
        _ => panic!("expected exit"),
    }
    match dispatch(&words(&["exit", "abc"]), &None) {
        Effect::Exit { status, error } => {
            assert_eq!(status, 1);
            assert_eq!(error, Some("exit: numeric argument required: abc".to_string()));
        }
        _ => panic!("expected exit"),
    }
    assert!(matches!(dispatch(&words(&["pwd"]), &None), Effect::PrintCwd));
    match dispatch(&words(&["cd", "/tmp"]), &None) {
        Effect::ChangeDir(d) => assert_eq!(d, "/tmp"),
        _ => panic!("expected cd"),
    }
    match dispatch(&words(&["cd"]), &None) {
        Effect::PrintError(m) => assert_eq!(m, "cd: missing argument"),
        _ => panic!("expected an error"),
    }
    match dispatch(&words(&["type", "ls"]), &Some("/bin/ls".to_string())) {
        Effect::Print(s) => assert_eq!(s, "ls is /bin/ls"),
        _ => panic!("expected a line"),
    }
    assert_eq!(lookup_target(&words(&["type", "ls"])), Some("ls".to_string()));
    assert_eq!(lookup_target(&words(&["type", "echo"])), None);
    assert_eq!(lookup_target(&words(&["type"])), None);
    assert_eq!(lookup_target(&words(&["echo", "ls"])), None);
}

#[test]
fn text_helpers() {
    assert!(same_text("abc", "abc"));
    assert!(!same_text("abc", "abd"));
    assert!(!same_text("ab", "abc"));
    assert_eq!(concat_str("ab", "cd"), "abcd");
    assert_eq!(
        spawn_failure_message("/bin/x", "denied"),
        "Shell: Failed to execute command '/bin/x': denied"
    );
    assert_eq!(
        wait_failure_message("/bin/x", "gone"),
        "Shell: Failed to wait for command '/bin/x': gone"
    );
}
