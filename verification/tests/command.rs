use cozydot::operations::cargo_binstall::{managed_directory_check, managed_directory_repair};
use cozydot::operations::command::{cli_check, cli_missing, stdout_line};

#[test]
fn cli_checks_ask_for_the_version() {
    let check = cli_check("Docker", "docker");
    assert_eq!(check.label, "Docker CLI version check");
    assert_eq!(check.program, "docker");
    assert_eq!(check.args, vec!["--version"]);
    assert!(check.check);
    assert_eq!(cli_missing("Docker", "docker"), "Docker integration requires an existing usable docker CLI");
}

#[test]
fn stdout_must_be_one_record() {
    assert_eq!(stdout_line(b"1000\n", "id -u"), Ok("1000".to_string()));
    assert_eq!(stdout_line(b"1000", "id -u"), Ok("1000".to_string()));
    assert_eq!(stdout_line(b"\n", "id -u").unwrap_err(), "id -u returned malformed record output");
    assert_eq!(stdout_line(b"", "id -u").unwrap_err(), "id -u returned malformed record output");
    assert_eq!(stdout_line(b"1\n2\n", "id -u").unwrap_err(), "id -u returned malformed record output");
    assert_eq!(stdout_line(&[0xff], "id -u").unwrap_err(), "id -u returned non-UTF-8 output");
}

#[test]
fn managed_directories_are_private_to_their_owner() {
    assert_eq!(managed_directory_repair(true, 1000, 1000, 0o40775), Some(0o755));
    assert_eq!(managed_directory_repair(true, 1000, 1000, 0o40700), None);
    assert_eq!(managed_directory_repair(true, 0, 1000, 0o40777), None);
    assert_eq!(managed_directory_check("/h/.cargo", true, 1000, 1000, 0o40755), Ok(()));
    assert_eq!(
        managed_directory_check("/h/.cargo", true, 0, 1000, 0o40755).unwrap_err(),
        "managed directory /h/.cargo is unsafe"
    );
    assert!(managed_directory_check("/h/.cargo", false, 1000, 1000, 0o100644).is_err());
    assert!(managed_directory_check("/h/.cargo", true, 1000, 1000, 0o40777).is_err());
}
