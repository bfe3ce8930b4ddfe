use rexec::service::{
    quote_systemd_arg, systemctl_calls, systemctl_result, unit_contents, unit_dir, unit_path,
    SystemctlOutcome,
};

#[test]
fn service_starts_the_silent_host() {
    let unit = unit_contents(b"/opt/rexec bin/rexec").unwrap();
    assert!(unit.contains("ExecStart=\"/opt/rexec bin/rexec\" --start-host --silent"));
    assert!(unit.contains("WantedBy=default.target"));
}

#[test]
fn executable_path_escapes_systemd_specifiers() {
    assert_eq!(
        quote_systemd_arg("/opt/100%/re\\xec\"bin".as_bytes()).unwrap(),
        "\"/opt/100%%/re\\\\xec\\\"bin\""
    );
}

#[test]
fn unit_file_is_complete() {
    assert_eq!(
        unit_contents(b"/usr/bin/rexec").unwrap(),
        "[Unit]\nDescription=rexec per-user command execution host\n\n[Service]\nType=simple\n\
         ExecStart=\"/usr/bin/rexec\" --start-host --silent\nRestart=on-failure\n\n[Install]\n\
         WantedBy=default.target\n"
    );
}

#[test]
fn unsuitable_executables_are_refused() {
    assert_eq!(
        quote_systemd_arg(b"/opt/\xff").unwrap_err(),
        "rexec executable path is not valid UTF-8"
    );
    for bad in ["/opt/a\nb", "/opt/\u{7f}", "/opt/\u{85}"] {
        assert_eq!(
            unit_contents(bad.as_bytes()).unwrap_err(),
            "rexec executable path contains a control character"
        );
    }
    assert!(quote_systemd_arg("/opt/\u{a0}\u{e9}".as_bytes()).is_ok());
}

#[test]
fn unit_file_has_its_place() {
    assert_eq!(
        unit_path(None, Some(b"/home/a")).unwrap(),
        b"/home/a/.config/systemd/user/rexec.service"
    );
    assert_eq!(
        unit_path(Some(b""), Some(b"/home/a/")).unwrap(),
        b"/home/a/.config/systemd/user/rexec.service"
    );
    assert_eq!(
        unit_path(Some(b"/etc/xdg"), None).unwrap(),
        b"/etc/xdg/systemd/user/rexec.service"
    );
    assert_eq!(unit_dir(Some(b"/x/"), None).unwrap(), b"/x/systemd/user");
    assert_eq!(unit_path(Some(b""), None).unwrap_err(), "HOME is not set");
}

#[test]
fn service_manager_is_asked_twice() {
    assert_eq!(
        systemctl_calls(),
        vec![
            vec!["--user", "daemon-reload"],
            vec!["--user", "enable", "--now", "rexec.service"]
        ]
    );
}

#[test]
fn service_manager_failures_are_told() {
    let args = vec!["--user".to_string(), "daemon-reload".to_string()];
    assert!(systemctl_result(&args, SystemctlOutcome::Succeeded).is_ok());
    assert_eq!(
        systemctl_result(&args, SystemctlOutcome::NotRun("no such file".into())).unwrap_err(),
        "failed to run systemctl: no such file"
    );
    let failed = |stderr: &[u8]| SystemctlOutcome::Failed {
        status: "exit status: 1".into(),
        stderr: stderr.to_vec(),
    };
    assert_eq!(
        systemctl_result(&args, failed(b" \n")).unwrap_err(),
        "systemctl --user daemon-reload failed with exit status: 1"
    );
    assert_eq!(
        systemctl_result(&args, failed(b"  no bus\xff\n")).unwrap_err(),
        "systemctl --user daemon-reload failed: no bus\u{fffd}"
    );
}
