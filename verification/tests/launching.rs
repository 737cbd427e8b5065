use playground_sandbox::runtime::{
    collected, compiler_id, exit_status, exited, launched, output_permissions, removed,
    ExecutionRequest, Printed, Task,
};
use playground_sandbox::supervisor::Event;
use playground_sandbox::util::{BuildMode, CrateType, Edition, RustChannel};

fn ran(success: bool, stdout: &[u8], stderr: &[u8]) -> Printed {
    Printed { success, stdout: stdout.to_vec(), stderr: stderr.to_vec() }
}

fn request(tool: Option<&str>) -> ExecutionRequest {
    ExecutionRequest {
        channel: RustChannel::Beta,
        edition: Edition::E2021,
        crate_type: CrateType::Library,
        mode: BuildMode::Release,
        tool: tool.map(str::to_string),
        source: "pub fn f() {}".to_string(),
    }
}

#[test]
fn image_of_a_channel() {
    let mut plain = request(None);
    assert_eq!(plain.image("registry"), "registry/rust-beta");
    plain.channel = RustChannel::Stable;
    assert_eq!(plain.image("registry"), "registry/rust-stable");
    plain.channel = RustChannel::Nightly;
    assert_eq!(plain.image("a/b"), "a/b/rust-nightly");
    assert_eq!(plain.image(""), "/rust-nightly");
}

#[test]
fn image_of_a_tool() {
    assert_eq!(request(Some("rustfmt")).image("registry"), "registry/rustfmt");
    assert_eq!(request(Some("clippy")).image("registry"), "registry/clippy");
    assert_eq!(request(Some("miri")).image("registry"), "registry/miri");
}

#[test]
fn arguments_of_a_plain_build() {
    let arguments =
        request(None).launch_arguments(Task::Compile, "registry", "/tmp/x/input", "/tmp/x/output");
    assert_eq!(
        arguments,
        vec![
            "run",
            "--detach",
            "--network",
            "none",
            "--memory",
            "512m",
            "--cpus",
            "1",
            "--user",
            "nobody",
            "--volume",
            "/tmp/x/input:/playground/input:ro",
            "--volume",
            "/tmp/x/output:/playground/output",
            "registry/rust-beta",
            "compile",
            "--edition",
            "2021",
            "--crate-type",
            "lib",
            "--mode",
            "release",
        ]
    );
}

#[test]
fn arguments_of_a_tool() {
    let mut wanted = request(Some("rustfmt"));
    wanted.edition = Edition::E2015;
    wanted.crate_type = CrateType::Binary;
    wanted.mode = BuildMode::Debug;
    let arguments = wanted.launch_arguments(Task::RunTool, "registry", "in", "out");
    assert_eq!(
        arguments,
        vec![
            "run",
            "--detach",
            "--network",
            "none",
            "--memory",
            "512m",
            "--cpus",
            "1",
            "--user",
            "nobody",
            "--volume",
            "in:/playground/input",
            "--volume",
            "out:/playground/output",
            "registry/rustfmt",
            "tool",
            "--edition",
            "2015",
            "--crate-type",
            "bin",
            "--mode",
            "debug",
        ]
    );
}

#[test]
fn arguments_name_the_task() {
    let cases = [
        (Task::Compile, "compile", true),
        (Task::Execute, "execute", true),
        (Task::RunTool, "tool", false),
        (Task::ResolveDependencies, "dependencies", true),
        (Task::QueryVersion, "version", true),
    ];
    for (task, word, read_only) in cases {
        assert_eq!(task.as_str(), word);
        let arguments = request(None).launch_arguments(task, "registry", "in", "out");
        assert_eq!(arguments.len(), 22);
        assert_eq!(arguments[14], "registry/rust-beta");
        assert_eq!(arguments[15], word);
        let mount = if read_only { "in:/playground/input:ro" } else { "in:/playground/input" };
        assert_eq!(arguments[11], mount);
        assert_eq!(arguments[13], "out:/playground/output");
    }
    let version = request(Some("clippy")).launch_arguments(Task::QueryVersion, "r", "in", "out");
    assert_eq!(version[11], "in:/playground/input:ro");
    assert_eq!(version[14], "r/clippy");
    assert_eq!(version[15], "version");
}

#[test]
fn permissions_of_the_workspace() {
    assert_eq!(output_permissions(), 0o777);
    for task in [Task::Compile, Task::Execute, Task::ResolveDependencies, Task::QueryVersion] {
        assert!(!task.writes_back());
        assert_eq!(task.source_permissions(), 0o444);
    }
    assert!(Task::RunTool.writes_back());
    assert_eq!(Task::RunTool.source_permissions(), 0o666);
}

#[test]
fn identifier_is_the_first_line() {
    assert_eq!(compiler_id("0123abcd\n"), Some("0123abcd".to_string()));
    assert_eq!(compiler_id("0123abcd"), Some("0123abcd".to_string()));
    assert_eq!(compiler_id("  0123abcd \r\nsecond line\n"), Some("0123abcd".to_string()));
    assert_eq!(compiler_id("\t a b \t\n"), Some("a b".to_string()));
}

#[test]
fn identifier_is_missing() {
    assert_eq!(compiler_id(""), None);
    assert_eq!(compiler_id("\n"), None);
    assert_eq!(compiler_id("   \r\n"), None);
    assert_eq!(compiler_id("\n0123abcd\n"), None);
}

#[test]
fn launch_output_becomes_an_event() {
    assert!(matches!(
        launched(ran(true, b"0123abcd\n", b"")),
        Event::Launched(Some(id)) if id == "0123abcd"
    ));
    assert!(matches!(
        launched(ran(true, b" 0123abcd \n", b"a warning\n")),
        Event::Launched(Some(id)) if id == "0123abcd"
    ));
    assert!(matches!(launched(ran(true, b"", b"")), Event::Launched(None)));
    assert!(matches!(launched(ran(true, b" \n", b"")), Event::Launched(None)));
    assert!(matches!(launched(ran(true, &[b'a', 0xff, b'\n'], b"")), Event::Launched(None)));
}

#[test]
fn a_launch_that_reports_no_success_is_a_failure() {
    match launched(ran(false, b"0123abcd\n", b"no such image")) {
        Event::Failed(cause) => assert_eq!(cause.to_string(), "no such image"),
        other => panic!("{:?}", other),
    }
    assert!(matches!(launched(ran(false, b"", b"")), Event::Failed(_)));
    match launched(ran(false, b"", &[0xff, 0xfe])) {
        Event::Failed(cause) => assert_eq!(cause.to_string(), "the command failed"),
        other => panic!("{:?}", other),
    }
}

#[test]
fn exit_status_is_the_number_on_the_first_line() {
    assert_eq!(exit_status("0\n"), Some(0));
    assert_eq!(exit_status("101\n"), Some(101));
    assert_eq!(exit_status("  137 \r\nmore\n"), Some(137));
    assert_eq!(exit_status("007"), Some(7));
    assert_eq!(exit_status("2147483647"), Some(2147483647));
    assert_eq!(exit_status("0000000002147483647"), Some(2147483647));
}

#[test]
fn exit_status_is_not_a_number() {
    assert_eq!(exit_status(""), None);
    assert_eq!(exit_status("\n1\n"), None);
    assert_eq!(exit_status("   "), None);
    assert_eq!(exit_status("-1"), None);
    assert_eq!(exit_status("+1"), None);
    assert_eq!(exit_status("1 2"), None);
    assert_eq!(exit_status("12a"), None);
    assert_eq!(exit_status("0x10"), None);
    assert_eq!(exit_status("\u{661}\u{662}"), None);
    assert_eq!(exit_status("2147483648"), None);
    assert_eq!(exit_status("99999999999999999999999999999999999999"), None);
}

#[test]
fn wait_output_becomes_an_event() {
    assert!(matches!(exited(ran(true, b"0\n", b"")), Event::Exited(Some(0))));
    assert!(matches!(exited(ran(true, b"255\n", b"noise")), Event::Exited(Some(255))));
    assert!(matches!(exited(ran(true, b"", b"")), Event::Exited(None)));
    assert!(matches!(exited(ran(true, b"killed", b"")), Event::Exited(None)));
    assert!(matches!(exited(ran(true, &[b'1', 0xff], b"")), Event::Exited(None)));
}

#[test]
fn a_wait_that_reports_no_success_is_a_failure() {
    match exited(ran(false, b"0\n", b"no such container")) {
        Event::Failed(cause) => assert_eq!(cause.to_string(), "no such container"),
        other => panic!("{:?}", other),
    }
}

#[test]
fn retrieved_output_is_standard_output_then_standard_error() {
    match collected(ran(true, b"out\n", b"err\n")) {
        Event::Collected(bytes) => assert_eq!(bytes, b"out\nerr\n".to_vec()),
        other => panic!("{:?}", other),
    }
    match collected(ran(true, b"", &[0xff])) {
        Event::Collected(bytes) => assert_eq!(bytes, vec![0xff]),
        other => panic!("{:?}", other),
    }
    assert!(matches!(collected(ran(true, b"", b"")), Event::Collected(bytes) if bytes.is_empty()));
    match collected(ran(false, b"out\n", b"gone")) {
        Event::Failed(cause) => assert_eq!(cause.to_string(), "gone"),
        other => panic!("{:?}", other),
    }
}

#[test]
fn removal_succeeds_as_the_command_reports() {
    assert!(matches!(removed(ran(true, b"0123abcd\n", b"")), Event::Succeeded));
    assert!(matches!(removed(ran(true, b"", b"a warning")), Event::Succeeded));
    match removed(ran(false, b"", b"still running")) {
        Event::Failed(cause) => assert_eq!(cause.to_string(), "still running"),
        other => panic!("{:?}", other),
    }
}
