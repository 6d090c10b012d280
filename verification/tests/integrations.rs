use cozydot::json::Json;
use cozydot::operations::desktop::{
    color_scheme_command, idle_delay_command, idle_dim_command, terminal_commands_for, unavailable_terminal,
    DesktopEnvironment,
};
use cozydot::config::Theme;
use cozydot::operations::integrations::{
    check_daemon_mode, check_version_probe, daemon_absence_commands, daemon_settings_in_place,
    effective_user_login, extension_installs, extensions_still_missing, group_creation_command, group_gid,
    group_membership_command, group_not_created, installed_extensions, membership_not_added, one_utf8_record,
    parse_decimal_id, probe_failure, user_group_ids, validate_max_size, version_probe, DockerLocalLogOperation,
    Product, VsCodeExtensionOperation,
};

fn chars(s: &str) -> Vec<char> {
    s.chars().collect()
}

#[test]
fn version_probes_follow_each_product_format() {
    check_version_probe(Product::Docker, b"Docker version 27.3.1, build ce12230\n").unwrap();
    check_version_probe(Product::Docker, b"Docker version 24.0.7-1ubuntu1, build 24.0.7-0ubuntu4\n").unwrap();
    assert_eq!(
        check_version_probe(Product::Docker, b"Docker 27.3.1\n").unwrap_err(),
        "Docker version probe returned malformed output"
    );
    check_version_probe(Product::VirtualBox, b"7.0.14r161095\n").unwrap();
    assert!(check_version_probe(Product::VirtualBox, b"7r161095\n").is_err());
    check_version_probe(Product::VsCode, b"1.95.3\nf1a4fb101478ce6ec82fe9627c43efbf9e98c813\nx64\n").unwrap();
    assert!(check_version_probe(Product::VsCode, b"1.95.3\nabc\nx64\n").is_err());
    assert_eq!(
        check_version_probe(Product::VsCode, &[0xff]).unwrap_err(),
        "VS Code version probe returned non-UTF-8 output"
    );
    let probe = version_probe(Product::VirtualBox);
    assert_eq!(probe.label, "VirtualBox existing-product preflight");
    assert_eq!(probe.program, "VBoxManage");
    assert_eq!(probe_failure(Product::Docker), "Docker integration requires an existing usable docker CLI");
}

#[test]
fn records_users_and_groups() {
    assert_eq!(one_utf8_record(b"x\n", "q").unwrap(), "x");
    assert_eq!(one_utf8_record(b"x\ny\n", "q").unwrap_err(), "q returned malformed record output");
    assert_eq!(parse_decimal_id(&chars("4294967295")), Some(u32::MAX));
    assert_eq!(parse_decimal_id(&chars("4294967296")), None);
    assert_eq!(parse_decimal_id(&chars("+1")), None);
    assert_eq!(
        effective_user_login(b"alice:x:1000:1000:Alice:/home/alice:/bin/bash\n", 1000).unwrap(),
        "alice"
    );
    assert_eq!(
        effective_user_login(b"alice:x:1001:1000:Alice:/home/alice:/bin/bash\n", 1000).unwrap_err(),
        "getent passwd returned a malformed or mismatched effective-user record"
    );
    assert_eq!(group_gid(true, Some(0), b"docker:x:998:alice\n", "", "", "docker").unwrap(), Some(998));
    assert_eq!(group_gid(false, Some(2), b"", "exit status: 2", "", "docker").unwrap(), None);
    assert_eq!(
        group_gid(false, Some(1), b"", "exit status: 1", " boom \n", "docker").unwrap_err(),
        "system group query failed (exit status: 1): boom"
    );
    assert_eq!(
        group_gid(true, Some(0), b"wheel:x:10:\n", "", "", "docker").unwrap_err(),
        "getent group returned a malformed or mismatched group record"
    );
    assert_eq!(user_group_ids(b"1000 27 998\n").unwrap(), vec![1000, 27, 998]);
    assert_eq!(user_group_ids(b"1000 1000\n").unwrap_err(), "id -G returned duplicate group IDs");
    assert_eq!(user_group_ids(b"1000 x\n").unwrap_err(), "id -G returned malformed group IDs");
    assert_eq!(group_creation_command(Product::Docker, "docker").args, vec!["groupadd", "--system", "docker"]);
    assert_eq!(
        group_membership_command(Product::VirtualBox, "vboxusers", "alice").args,
        vec!["usermod", "-aG", "vboxusers", "--", "alice"]
    );
    assert_eq!(group_not_created(Product::Docker, "docker"), "Docker group creation did not create docker");
    assert_eq!(
        membership_not_added(Product::Docker, "alice", "docker"),
        "Docker group membership mutation did not add alice to docker"
    );
}

#[test]
fn docker_daemon_configuration() {
    check_daemon_mode(b"81a4\n").unwrap();
    assert_eq!(
        check_daemon_mode(b"41ed\n").unwrap_err(),
        "Docker daemon config destination is not a regular file"
    );
    assert_eq!(check_daemon_mode(b"zz\n").unwrap_err(), "sudo stat returned malformed mode output");
    assert_eq!(daemon_absence_commands().len(), 2);
    let local = Json::Object(vec![
        ("log-driver".into(), Json::Str("local".into())),
        ("log-opts".into(), Json::Object(vec![("max-size".into(), Json::Str("10m".into()))])),
    ]);
    assert!(daemon_settings_in_place(&local, None).unwrap());
    assert!(daemon_settings_in_place(&local, Some("10m")).unwrap());
    assert!(!daemon_settings_in_place(&local, Some("20m")).unwrap());
    assert!(!daemon_settings_in_place(&Json::Object(vec![]), None).unwrap());
    assert_eq!(
        daemon_settings_in_place(&Json::Array(vec![]), None).unwrap_err(),
        "Docker daemon config must be a JSON object"
    );
    let odd = Json::Object(vec![("log-opts".into(), Json::Str("x".into()))]);
    assert_eq!(
        daemon_settings_in_place(&odd, Some("1m")).unwrap_err(),
        "Docker daemon config log-opts must be a JSON object"
    );
    assert!(DockerLocalLogOperation::new(Some("0k".into())).is_err());
    validate_max_size(Some("5g")).unwrap();
}

#[test]
fn vscode_extensions_installed_and_missing() {
    let installed = installed_extensions(b"ms-python.Python\nrust-lang.rust-analyzer\n").unwrap();
    assert_eq!(installed, vec!["ms-python.python".to_string(), "rust-lang.rust-analyzer".to_string()]);
    assert_eq!(
        installed_extensions(b"a.b\nA.B\n").unwrap_err(),
        "code returned duplicate case-folded extension identifiers"
    );
    assert_eq!(
        installed_extensions(b"nodot\n").unwrap_err(),
        "code returned malformed extension identifier: \"nodot\""
    );
    let operation = VsCodeExtensionOperation::new(vec!["ms-python.python".into(), "golang.go".into()]).unwrap();
    let installs = extension_installs(&operation, &installed);
    assert_eq!(installs.len(), 1);
    assert_eq!(installs[0].args, vec!["--install-extension", "golang.go"]);
    assert_eq!(
        extensions_still_missing(&operation, &installed).unwrap(),
        "VS Code extension installation did not install configured extensions: golang.go"
    );
}

#[test]
fn desktop_settings_commands() {
    let c = color_scheme_command(DesktopEnvironment::Cinnamon, Theme::Dark);
    assert_eq!(c.args, vec!["set", "org.cinnamon.desktop.interface", "color-scheme", "'prefer-dark'"]);
    let t = terminal_commands_for(DesktopEnvironment::Gnome, "kitty");
    assert_eq!(t[0].args, vec!["set", "org.gnome.desktop.default-applications.terminal", "exec", "'kitty'"]);
    assert_eq!(t[1].args, vec!["set", "org.gnome.desktop.default-applications.terminal", "exec-arg", "''"]);
    assert_eq!(
        idle_delay_command(DesktopEnvironment::Gnome, 300).args,
        vec!["set", "org.gnome.desktop.session", "idle-delay", "uint32 300"]
    );
    assert_eq!(idle_dim_command(DesktopEnvironment::Gnome, false).args[3], "false");
    assert_eq!(unavailable_terminal("kitty"), "desktop terminal executable \"kitty\" is unavailable");
}
