use proton_caller::error::Kind;
use proton_caller::launch::{check_exit, launch_failure, Exit, Launch, Proton, Variable};
use proton_caller::options::{parse_options, RuntimeOption};
use proton_caller::version::Version;

fn variable(name: &str, value: &str) -> Variable {
    Variable { name: name.to_string(), value: value.to_string() }
}

fn words(list: &[&str]) -> Vec<String> {
    list.iter().map(|word| word.to_string()).collect()
}

fn sample() -> Proton {
    Proton::new(
        Version::release(6, 3),
        "/common/6.3".to_string(),
        "/games/foo.exe".to_string(),
        words(&["--goes", "--to", "program", "a b", ""]),
        vec![RuntimeOption::Log, RuntimeOption::NoEsync],
        "/data".to_string(),
        "/steam".to_string(),
        None,
    )
}

#[test]
fn launch_gives_the_argument_vector_in_order() {
    assert_eq!(
        sample().launch().arguments,
        words(&["/common/6.3/proton", "run", "/games/foo.exe", "--goes", "--to", "program", "a b", ""])
    );
}

#[test]
fn launch_gives_one_variable_for_each_directory_and_option() {
    assert_eq!(
        sample().launch().environment,
        vec![
            variable("STEAM_COMPAT_DATA_PATH", "/data"),
            variable("STEAM_COMPAT_CLIENT_INSTALL_PATH", "/steam"),
            variable("PROTON_LOG", "1"),
            variable("PROTON_NO_ESYNC", "1"),
        ]
    );
}

#[test]
fn launch_is_the_same_for_the_same_parameters() {
    let first: Launch = sample().launch();
    let second: Launch = sample().launch();
    assert_eq!(first, second);
    assert_eq!(sample().launch(), first);
}

#[test]
fn launch_with_a_container_runtime_names_it_last() {
    let mut proton = sample();
    proton.runtime = Some("/common/SteamLinuxRuntime".to_string());
    proton.options = vec![];
    proton.args = vec![];
    let launch = proton.launch();
    assert_eq!(launch.arguments, words(&["/common/6.3/proton", "run", "/games/foo.exe"]));
    assert_eq!(
        launch.environment,
        vec![
            variable("STEAM_COMPAT_DATA_PATH", "/data"),
            variable("STEAM_COMPAT_CLIENT_INSTALL_PATH", "/steam"),
            variable("STEAM_RUNTIME", "/common/SteamLinuxRuntime"),
        ]
    );
}

#[test]
fn launch_keeps_every_option_even_a_repeated_one() {
    let mut proton = sample();
    proton.options = vec![
        RuntimeOption::Wined3d,
        RuntimeOption::NoD3d11,
        RuntimeOption::NoD3d10,
        RuntimeOption::NoFsync,
        RuntimeOption::EnableNvapi,
        RuntimeOption::Wined3d,
    ];
    let names: Vec<String> = proton.launch().environment.into_iter().skip(2).map(|v| v.name).collect();
    assert_eq!(
        names,
        words(&[
            "PROTON_USE_WINED3D",
            "PROTON_NO_D3D11",
            "PROTON_NO_D3D10",
            "PROTON_NO_FSYNC",
            "PROTON_ENABLE_NVAPI",
            "PROTON_USE_WINED3D",
        ])
    );
}

#[test]
fn exit_with_success_is_no_failure() {
    assert_eq!(check_exit(Exit { success: true, code: Some(0) }), Ok(()));
    assert_eq!(check_exit(Exit { success: true, code: None }), Ok(()));
}

#[test]
fn exit_code_seven_is_a_failure_of_the_child_that_tells_the_code() {
    let error = check_exit(Exit { success: false, code: Some(7) }).unwrap_err();
    assert_eq!(error.kind, Kind::ProtonExit);
    assert!(error.message.contains("7"));
    assert_eq!(error.message, "code: 7");
    assert_eq!(error.exit_code(), 3);
}

#[test]
fn exit_codes_are_told_in_decimal() {
    for (code, text) in [
        (1, "code: 1"),
        (10, "code: 10"),
        (255, "code: 255"),
        (-1, "code: -1"),
        (0, "code: 0"),
        (i32::MAX, "code: 2147483647"),
        (i32::MIN, "code: -2147483648"),
    ] {
        let error = check_exit(Exit { success: false, code: Some(code) }).unwrap_err();
        assert_eq!(error.message, text);
    }
}

#[test]
fn exit_without_a_code_is_a_failure_of_the_child() {
    let error = check_exit(Exit { success: false, code: None }).unwrap_err();
    assert_eq!(error.kind, Kind::ProtonExit);
    assert_eq!(error.message, "an error");
}

#[test]
fn a_launch_that_never_started_is_an_io_failure() {
    let error = launch_failure("No such file or directory (os error 2)");
    assert_eq!(error.kind, Kind::Io);
    assert_ne!(error.kind, Kind::ProtonExit);
    assert_eq!(error.message, "failed to launch Proton: No such file or directory (os error 2)");
    assert_eq!(error.exit_code(), 1);
}

#[test]
fn each_token_asks_for_its_option() {
    for (token, option, name) in [
        ("log", RuntimeOption::Log, "PROTON_LOG"),
        ("wined3d", RuntimeOption::Wined3d, "PROTON_USE_WINED3D"),
        ("nod3d11", RuntimeOption::NoD3d11, "PROTON_NO_D3D11"),
        ("nod3d10", RuntimeOption::NoD3d10, "PROTON_NO_D3D10"),
        ("noesync", RuntimeOption::NoEsync, "PROTON_NO_ESYNC"),
        ("nofsync", RuntimeOption::NoFsync, "PROTON_NO_FSYNC"),
        ("enablenvapi", RuntimeOption::EnableNvapi, "PROTON_ENABLE_NVAPI"),
    ] {
        assert_eq!(RuntimeOption::from_token(token), Some(option));
        assert_eq!(RuntimeOption::parse(token), Ok(option));
        assert_eq!(option.token(), token);
        assert_eq!(option.variable(), name);
    }
}

#[test]
fn an_unknown_token_is_a_usage_error() {
    for token in ["", "LOG", "log ", "esync", "nod3d12", "-l"] {
        assert_eq!(RuntimeOption::from_token(token), None);
        let error = RuntimeOption::parse(token).unwrap_err();
        assert_eq!(error.kind, Kind::Usage);
        assert_eq!(error.message, format!("unknown runtime option: {}", token));
    }
}

#[test]
fn options_are_read_in_order_and_none_is_passed_over() {
    assert_eq!(parse_options(&vec![]), Ok(vec![]));
    assert_eq!(
        parse_options(&words(&["noesync", "log", "noesync"])),
        Ok(vec![RuntimeOption::NoEsync, RuntimeOption::Log, RuntimeOption::NoEsync])
    );
    let error = parse_options(&words(&["log", "fast", "nofsync", "faster"])).unwrap_err();
    assert_eq!(error.kind, Kind::Usage);
    assert_eq!(error.message, "unknown runtime option: fast");
}
