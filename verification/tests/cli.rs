use clap::builder::RangedU64ValueParser;
use clap::{Arg, ArgAction, Command};
use rexec::cli::{dispatch, exit_status, Cli, ColorChoice, Mode, RunArgs};

fn flag(name: &'static str) -> Arg {
    Arg::new(name).long(name).action(ArgAction::SetTrue)
}

fn command() -> Command {
    Command::new("rexec")
        .arg(flag("check-host").short('c'))
        .arg(flag("start-host").short('s'))
        .arg(flag("silent").requires("start-host"))
        .arg(
            Arg::new("list")
                .short('l')
                .long("list")
                .num_args(0..=1)
                .default_missing_value("10")
                .value_parser(RangedU64ValueParser::<usize>::new()),
        )
        .arg(flag("print").short('p'))
        .arg(flag("follow").short('f').requires("print"))
        .arg(flag("attach"))
        .arg(flag("no-color").requires("attach").conflicts_with("force-color"))
        .arg(flag("force-color").requires("attach").conflicts_with("no-color"))
        .arg(flag("install"))
        .arg(flag("mcp-stdio").short('m'))
        .arg(Arg::new("whoami").long("whoami"))
        .arg(Arg::new("dir").long("dir"))
        .arg(Arg::new("env").long("env").action(ArgAction::Append))
        .arg(flag("read-stdin"))
        .arg(
            Arg::new("timeout")
                .long("timeout")
                .default_value("0")
                .value_parser(RangedU64ValueParser::<u64>::new()),
        )
        .arg(
            Arg::new("args")
                .num_args(0..)
                .trailing_var_arg(true)
                .allow_hyphen_values(true),
        )
}

fn parse_from(argv: &[&str]) -> Cli {
    let matches = command().try_get_matches_from(argv).unwrap();
    let texts = |name: &str| -> Vec<String> {
        matches
            .get_many::<String>(name)
            .map(|values| values.cloned().collect())
            .unwrap_or_default()
    };
    Cli {
        check_host: matches.get_flag("check-host"),
        start_host: matches.get_flag("start-host"),
        silent: matches.get_flag("silent"),
        list: matches.get_one::<usize>("list").map(|n| Some(*n)),
        print: matches.get_flag("print"),
        follow: matches.get_flag("follow"),
        attach: matches.get_flag("attach"),
        no_color: matches.get_flag("no-color"),
        force_color: matches.get_flag("force-color"),
        install: matches.get_flag("install"),
        mcp_stdio: matches.get_flag("mcp-stdio"),
        whoami: matches.get_one::<String>("whoami").cloned(),
        dir: matches
            .get_one::<String>("dir")
            .map(|dir| dir.clone().into_bytes()),
        env: texts("env"),
        read_stdin: matches.get_flag("read-stdin"),
        timeout: *matches.get_one::<u64>("timeout").unwrap(),
        args: texts("args"),
    }
}

fn run_args(argv: &[&str]) -> RunArgs {
    let Mode::Run(args) = dispatch(parse_from(argv)).unwrap() else {
        panic!("expected run mode");
    };
    args
}

fn problem(argv: &[&str]) -> String {
    dispatch(parse_from(argv)).err().unwrap()
}

#[test]
fn run_timeout_defaults_to_zero() {
    let cli = parse_from(&["rexec", "--whoami", "test", "--dir", "/tmp", "--", "true"]);
    let Mode::Run(args) = dispatch(cli).unwrap() else {
        panic!("expected run mode");
    };
    assert_eq!(args.timeout, 0);
}

#[test]
fn parses_run_timeout_seconds() {
    let cli = parse_from(&[
        "rexec", "--whoami", "test", "--dir", "/tmp", "--timeout", "17", "--", "true",
    ]);
    let Mode::Run(args) = dispatch(cli).unwrap() else {
        panic!("expected run mode");
    };
    assert_eq!(args.timeout, 17);
}

#[test]
fn list_defaults_to_ten() {
    let cli = parse_from(&["rexec", "--list"]);
    assert!(matches!(dispatch(cli).unwrap(), Mode::List(10)));
}

#[test]
fn list_count_can_be_overridden() {
    let cli = parse_from(&["rexec", "-l", "23"]);
    assert!(matches!(dispatch(cli).unwrap(), Mode::List(23)));
}

#[test]
fn long_list_value_still_works() {
    let cli = parse_from(&["rexec", "--list", "7"]);
    assert!(matches!(dispatch(cli).unwrap(), Mode::List(7)));
}

#[test]
fn short_s_still_means_start_host() {
    let cli = parse_from(&["rexec", "-s"]);
    assert!(matches!(
        dispatch(cli).unwrap(),
        Mode::StartHost { silent: false }
    ));
}

#[test]
fn silent_is_a_long_only_host_option() {
    let cli = parse_from(&["rexec", "--start-host", "--silent"]);
    assert!(matches!(
        dispatch(cli).unwrap(),
        Mode::StartHost { silent: true }
    ));
}

#[test]
fn attach_color_flags_are_mapped() {
    let cli = parse_from(&["rexec", "--attach", "--force-color"]);
    assert!(matches!(
        dispatch(cli).unwrap(),
        Mode::Attach {
            color: ColorChoice::Always
        }
    ));
}

#[test]
fn the_other_attach_colors_are_mapped() {
    assert!(matches!(
        dispatch(parse_from(&["rexec", "--attach"])).unwrap(),
        Mode::Attach { color: ColorChoice::Auto }
    ));
    assert!(matches!(
        dispatch(parse_from(&["rexec", "--attach", "--no-color"])).unwrap(),
        Mode::Attach { color: ColorChoice::Never }
    ));
}

#[test]
fn list_without_a_value_means_ten() {
    let mut cli = parse_from(&["rexec", "--list"]);
    cli.list = Some(None);
    assert!(matches!(dispatch(cli).unwrap(), Mode::List(10)));
}

#[test]
fn run_arguments_are_taken_over() {
    let args = run_args(&[
        "rexec", "--whoami", "Codex", "--dir", "/repo", "--env", "A=1", "--env", "B=x=y",
        "--read-stdin", "--", "cargo", "test", "--workspace",
    ]);
    assert_eq!(args.whoami, "Codex");
    assert_eq!(args.dir, b"/repo");
    assert_eq!(
        args.envs,
        vec![
            ("A".to_string(), "1".to_string()),
            ("B".to_string(), "x=y".to_string())
        ]
    );
    assert_eq!(args.argv, vec!["cargo", "test", "--workspace"]);
    assert!(args.read_stdin);
}

#[test]
fn simple_modes_are_recognised() {
    assert!(matches!(dispatch(parse_from(&["rexec", "-c"])).unwrap(), Mode::CheckHost));
    assert!(matches!(
        dispatch(parse_from(&["rexec", "--install"])).unwrap(),
        Mode::Install
    ));
    match dispatch(parse_from(&["rexec", "-p", "-f", "2026-05-21-09:42:18"])).unwrap() {
        Mode::Print { name, follow } => {
            assert_eq!(name, "2026-05-21-09:42:18");
            assert!(follow);
        }
        other => panic!("{other:?}"),
    }
    match dispatch(parse_from(&["rexec", "-m", "--whoami", "agent"])).unwrap() {
        Mode::McpStdio { whoami } => assert_eq!(whoami, "agent"),
        other => panic!("{other:?}"),
    }
}

#[test]
fn earlier_modes_win() {
    let mut cli = parse_from(&["rexec", "--check-host"]);
    cli.start_host = true;
    cli.attach = true;
    assert!(matches!(dispatch(cli).unwrap(), Mode::CheckHost));
    let mut cli = parse_from(&["rexec", "--install"]);
    cli.print = true;
    assert!(matches!(dispatch(cli).unwrap(), Mode::Install));
}

#[test]
fn usage_errors_are_told() {
    assert_eq!(
        problem(&["rexec", "--dir", "/", "--", "true"]),
        "--whoami is required when running a command"
    );
    assert_eq!(
        problem(&["rexec", "--whoami", "a", "--", "true"]),
        "--dir is required when running a command"
    );
    assert_eq!(
        problem(&["rexec", "--whoami", "a", "--dir", "/"]),
        "no command to run (pass it after `--`)"
    );
    assert_eq!(
        problem(&["rexec", "--whoami", "a", "--dir", "/", "--env", "FOO", "--", "true"]),
        "--env requires VAR=value form, got: FOO"
    );
    assert_eq!(
        problem(&["rexec", "--whoami", "a", "--dir", "/", "--env", "=x", "--", "true"]),
        "--env name is empty: =x"
    );
    assert_eq!(
        problem(&["rexec", "--print"]),
        "--print requires exactly one transcript name"
    );
    assert_eq!(
        problem(&["rexec", "--print", "a", "b"]),
        "--print requires exactly one transcript name"
    );
    assert_eq!(
        problem(&["rexec", "--mcp-stdio"]),
        "--whoami is required with --mcp-stdio"
    );
    assert_eq!(
        problem(&["rexec", "--mcp-stdio", "--whoami", "a", "--", "x"]),
        "--mcp-stdio takes no positional arguments"
    );
}

#[test]
fn exit_codes_become_statuses() {
    assert_eq!(exit_status(0), 0);
    assert_eq!(exit_status(127), 127);
    assert_eq!(exit_status(255), 255);
    assert_eq!(exit_status(256), 0);
    assert_eq!(exit_status(-1), 255);
    assert_eq!(exit_status(i32::MIN), 0);
}
