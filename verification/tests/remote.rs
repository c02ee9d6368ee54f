use vpsguard::platform::DistroFamily;
use vpsguard::remote::{
    check, exists_command, platform_of, quote, read_command, read_result, remote_command,
    remove_command, rename_command, write_command, write_command_in, ExecCollector, ExecEvent,
};
use vpsguard::types::Output;

#[test]
fn quoting_wraps_and_escapes() {
    assert_eq!(quote("/etc/ssh"), "'/etc/ssh'");
    assert_eq!(quote("a'b"), "'a'\\''b'");
}

#[test]
fn write_command_sends_base64_body() {
    assert_eq!(
        write_command("/etc/x/a.conf", "hi"),
        "mkdir -p '/etc/x' && printf %s 'aGk=' | base64 -d > '/etc/x/a.conf'"
    );
    assert_eq!(
        write_command("/f", "hello\n"),
        "mkdir -p '/' && printf %s 'aGVsbG8K' | base64 -d > '/f'"
    );
}

#[test]
fn write_command_of_root_has_no_mkdir() {
    assert_eq!(write_command("/", ""), "printf %s '' | base64 -d > '/'");
}

#[test]
fn path_commands_quote_their_paths() {
    assert_eq!(read_command("/etc/o s"), "cat -- '/etc/o s'");
    assert_eq!(remove_command("/a"), "rm -f -- '/a'");
    assert_eq!(exists_command("/a"), "test -e '/a'");
    assert_eq!(rename_command("/a", "/b'c"), "mv -- '/a' '/b'\\''c'");
    assert_eq!(
        remote_command("systemctl", &vec!["restart".to_string(), "ssh".to_string()]),
        "systemctl 'restart' 'ssh'"
    );
}

fn out(code: i32, stdout: &str, stderr: &str) -> Output {
    Output {
        code,
        stdout: stdout.to_string(),
        stderr: stderr.to_string(),
    }
}

#[test]
fn read_and_check_results() {
    assert_eq!(read_result(&out(0, "x\n", "")).as_deref(), Some("x\n"));
    assert_eq!(read_result(&out(1, "x\n", "")), None);
    assert!(check(&out(0, "", ""), "true").is_ok());
    let e = check(&out(2, "", "boom"), "false").unwrap_err();
    assert_eq!(e.message(), "command `false` failed (exit 2): boom");
}

#[test]
fn remote_platform_from_os_release() {
    let p = platform_of(&Some(out(0, "ID=ubuntu\nID_LIKE=debian\n", "")));
    assert_eq!(p.family, DistroFamily::Debian);
    assert_eq!(p.id, "ubuntu");
    assert_eq!(platform_of(&None).family, DistroFamily::Unknown);
}

#[test]
fn collector_gathers_streams_and_status() {
    let mut c = ExecCollector::new();
    c.observe(ExecEvent::Data(b"hel".to_vec()));
    c.observe(ExecEvent::ExtendedData { data: b"warn".to_vec(), ext: 1 });
    c.observe(ExecEvent::ExtendedData { data: b"ignored".to_vec(), ext: 2 });
    c.observe(ExecEvent::Data(b"lo".to_vec()));
    c.observe(ExecEvent::Other);
    c.observe(ExecEvent::ExitStatus(3));
    let o = c.finish();
    assert_eq!(o.code, 3);
    assert_eq!(o.stdout, "hello");
    assert_eq!(o.stderr, "warn");
}

#[test]
fn collector_without_status_reports_minus_one_and_decodes_lossily() {
    let mut c = ExecCollector::new();
    c.observe(ExecEvent::Data(vec![b'a', 0xff, b'b']));
    let o = c.finish();
    assert_eq!(o.code, -1);
    assert_eq!(o.stdout, "a\u{fffd}b");
}

#[test]
fn write_command_in_given_directory() {
    assert_eq!(
        write_command_in(&Some("/srv/a b".to_string()), "/srv/a b/f", "abc"),
        "mkdir -p '/srv/a b' && printf %s 'YWJj' | base64 -d > '/srv/a b/f'"
    );
    assert_eq!(write_command_in(&None, "f", "ab"), "printf %s 'YWI=' | base64 -d > 'f'");
}
