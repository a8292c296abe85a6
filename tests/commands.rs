use dev_sync::cli::{Cli, Command};
use dev_sync::rsync::command;
use dev_sync::rsync_cli::{RsyncFlag, RsyncOption};
use dev_sync::rsyncer::Rsyncer;
use dev_sync::ssh::{SSHOption, SSHShell};
use dev_sync::text::{join_strings, same_text};

#[test]
fn flags_are_written_as_rsync_expects() {
    assert_eq!(RsyncFlag::Recursive.as_cli_arg(), "-r");
    assert_eq!(RsyncFlag::IncludeLinks.as_cli_arg(), "-l");
    assert_eq!(RsyncFlag::PreservePermissions.as_cli_arg(), "-p");
    assert_eq!(RsyncFlag::PreserveModTimes.as_cli_arg(), "-t");
    assert_eq!(RsyncFlag::Compress.as_cli_arg(), "-z");
    assert_eq!(RsyncFlag::Verbose.as_cli_arg(), "-v");
    assert_eq!(RsyncFlag::DeleteAfter.as_cli_arg(), "--delete-after");
    assert_eq!(
        RsyncOption::Exclude("*.o".to_string()).as_cli_args(),
        vec!["--exclude".to_string(), "*.o".to_string()]
    );
}

#[test]
fn ssh_options_are_written_as_ssh_expects() {
    assert_eq!(SSHOption::PasswordAuthentication(false).as_cli_opt(), "-o PasswordAuthentication=false");
    assert_eq!(SSHOption::ServerAliveInterval(10).as_cli_opt(), "-o ServerAliveInterval=10");
    assert_eq!(SSHOption::ServerAliveCountMax(-3).as_cli_opt(), "-o ServerAliveCountMax=-3");
    assert_eq!(SSHOption::ConnectTimeout(0).as_cli_opt(), "-o ConnectTimeout=0");
    assert_eq!(SSHOption::ConnectTimeout(i32::MIN).as_cli_opt(), "-o ConnectTimeout=-2147483648");
    assert_eq!(SSHOption::ConnectTimeout(i32::MAX).as_cli_opt(), "-o ConnectTimeout=2147483647");
    assert_eq!(SSHOption::ServerAliveInterval(1200).as_cli_opt(), "-o ServerAliveInterval=1200");
    assert_eq!(SSHOption::ControlMaster("auto".to_string()).as_cli_opt(), "-o ControlMaster=auto");
    assert_eq!(SSHOption::ControlPersist("10m".to_string()).as_cli_opt(), "-o ControlPersist=10m");
    assert_eq!(SSHOption::ControlPath("/tmp/c".to_string()).as_cli_opt(), "-o ControlPath=/tmp/c");
    assert_eq!(SSHOption::IdentityFile("k.pem".to_string()).as_cli_opt(), "-i k.pem");
}

#[test]
fn shell_argument_joins_options() {
    let shell = SSHShell::new(vec![SSHOption::ConnectTimeout(20), SSHOption::IdentityFile("k".to_string())]);
    assert_eq!(shell.as_arg(), "ssh -o -o ConnectTimeout=20 -o -i k");
    assert_eq!(SSHShell::new(vec![]).as_arg(), "ssh -o ");
}

#[test]
fn command_lists_flags_shell_options_source_and_destination() {
    let shell = SSHShell::new(vec![SSHOption::ConnectTimeout(5)]);
    let args = command(
        "/src/",
        "/dst",
        Some("host"),
        Some("me"),
        Some(&shell),
        &[RsyncFlag::Recursive, RsyncFlag::Compress],
        &[RsyncOption::Exclude("a".to_string()), RsyncOption::Exclude("b".to_string())],
    );
    assert_eq!(
        args,
        vec![
            "-r", "-z", "-e", "ssh -o -o ConnectTimeout=5", "--exclude", "a", "--exclude", "b",
            "/src/", "me@host:/dst"
        ]
    );
    assert_eq!(command("/s", "/d", None, None, None, &[], &[]), vec!["/s", "/d"]);
    assert_eq!(command("/s", "/d", Some("h"), None, None, &[], &[]), vec!["/s", "h:/d"]);
    assert_eq!(command("/s", "/d", None, Some("u"), None, &[], &[]), vec!["/s", "u:/d"]);
    assert_eq!(command("/s", "/d", Some(""), None, None, &[], &[]), vec!["/s", "/d"]);
}

#[test]
fn target_command_uses_workspace_as_source() {
    let r = Rsyncer::new("/dst", Some("h"), &[RsyncFlag::Verbose], &[], None);
    assert_eq!(r.command_args("/ws/"), vec!["-v", "/ws/", "h:/dst"]);
}

#[test]
fn config_path_defaults_under_home() {
    let cli = Cli { config: None, command: Command::Sync };
    assert_eq!(cli.config_path("/home/me"), "/home/me/.config/rust-dev-sync-config.yaml");
    let given = Cli { config: Some("/etc/c.yaml".to_string()), command: Command::Init };
    assert_eq!(given.config_path("/home/me"), "/etc/c.yaml");
}

#[test]
fn text_helpers() {
    assert!(same_text("GENERATE", "GENERATE"));
    assert!(!same_text("GENERATE", "GENERATED"));
    assert!(!same_text("abc", "abd"));
    assert_eq!(join_strings(&vec!["a".to_string(), "b".to_string(), "c".to_string()], ", "), "a, b, c");
    assert_eq!(join_strings(&vec![], ", "), "");
}
