use proton_caller::error::{Error, Kind};
use proton_caller::launch::Proton;
use proton_caller::options::RuntimeOption;
use proton_caller::request::{custom_mode, normal_mode, Config, Mode, Request};
use proton_caller::version::Version;

fn config() -> Config {
    Config { data: "/data".to_string(), steam: "/steam".to_string(), common: "/common".to_string() }
}

fn request() -> Request {
    Request {
        program: "foo.exe".to_string(),
        version: Version::release(6, 3),
        custom: None,
        options: vec![RuntimeOption::Log],
        args: vec!["a".to_string(), "b".to_string()],
        runtime: None,
        data: None,
    }
}

#[test]
fn normal_mode_takes_the_directories_of_the_configuration() {
    let proton = normal_mode(&config(), request(), "/common/6.3".to_string(), None);
    assert_eq!(
        proton.unwrap(),
        Proton {
            version: Version::release(6, 3),
            path: "/common/6.3".to_string(),
            program: "foo.exe".to_string(),
            args: vec!["a".to_string(), "b".to_string()],
            options: vec![RuntimeOption::Log],
            data: "/data".to_string(),
            steam: "/steam".to_string(),
            runtime: None,
        }
    );
}

#[test]
fn the_data_directory_of_the_request_goes_before_the_configured_one() {
    let asked = Request { data: Some("/mine".to_string()), runtime: Some(Version::release(1, 0)), ..request() };
    let proton = normal_mode(&config(), asked.clone(), "/common/6.3".to_string(), Some("/rt".to_string())).unwrap();
    assert_eq!(proton.data, "/mine");
    assert_eq!(proton.steam, "/steam");
    assert_eq!(proton.runtime, Some("/rt".to_string()));
    let asked = Request { runtime: None, ..asked };
    let asked = Request { custom: Some("/opt/ge".to_string()), ..asked };
    assert_eq!(custom_mode(&config(), asked, None).unwrap().data, "/mine");
}

#[test]
fn custom_mode_bypasses_the_index() {
    let asked = Request { custom: Some("/opt/Proton GE/".to_string()), ..request() };
    let proton = custom_mode(&config(), asked, None).unwrap();
    assert_eq!(proton.version, Version::Custom("Proton GE".to_string()));
    assert_eq!(proton.path, "/opt/Proton GE/");
    assert_eq!(proton.program, "foo.exe");
    assert_eq!(proton.args, vec!["a".to_string(), "b".to_string()]);
    assert_eq!(proton.options, vec![RuntimeOption::Log]);
    assert_eq!(proton.data, "/data");
}

#[test]
fn custom_mode_without_a_directory_is_an_internal_error() {
    let error = custom_mode(&config(), request(), None).unwrap_err();
    assert_eq!(error, Error::new(Kind::Internal, "failed to run custom mode".to_string()));
    assert_eq!(error.exit_code(), 1);
}

#[test]
fn each_kind_of_failure_has_its_exit_code() {
    let code = |kind: Kind| Error::new(kind, String::new()).exit_code();
    assert_eq!(code(Kind::Internal), 1);
    assert_eq!(code(Kind::Usage), 1);
    assert_eq!(code(Kind::Config), 1);
    assert_eq!(code(Kind::Io), 1);
    assert_eq!(code(Kind::ProtonMissing), 2);
    assert_eq!(code(Kind::ProtonExit), 3);
}

#[test]
fn a_failure_is_reported_on_one_line_with_the_program() {
    let error = Error::new(Kind::ProtonMissing, "Proton 7.0 does not exist".to_string());
    assert_eq!(error.kind(), Kind::ProtonMissing);
    assert_eq!(error.report("proton-call"), "proton-call: Proton 7.0 does not exist");
    assert_eq!(Error::new(Kind::Io, String::new()).report(""), ": ");
}

#[test]
fn no_request_is_launched_without_the_runtime_it_asks_for() {
    let asked = Request { runtime: Some(Version::release(1, 0)), ..request() };
    let error = normal_mode(&config(), asked.clone(), "/common/6.3".to_string(), None).unwrap_err();
    assert_eq!(error, Error::new(Kind::Internal, "the runtime of the request was not resolved".to_string()));
    let error = normal_mode(&config(), request(), "/common/6.3".to_string(), Some("/rt".to_string())).unwrap_err();
    assert_eq!(error.kind, Kind::Internal);
    let custom = Request { custom: Some("/opt/ge".to_string()), ..asked };
    let error = custom_mode(&config(), custom.clone(), None).unwrap_err();
    assert_eq!(error.message, "the runtime of the request was not resolved");
    assert_eq!(custom_mode(&config(), custom, Some("/rt".to_string())).unwrap().runtime, Some("/rt".to_string()));
    let neither = Request { custom: None, runtime: Some(Version::release(1, 0)), ..request() };
    assert_eq!(custom_mode(&config(), neither, None).unwrap_err().message, "failed to run custom mode");
}

#[test]
fn the_mode_follows_the_custom_directory() {
    assert_eq!(request().mode(), Mode::Indexed);
    assert_eq!(Request { custom: Some("/opt/ge".to_string()), ..request() }.mode(), Mode::Custom);
}
