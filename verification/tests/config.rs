use proton_caller::config::{find_char, parse_config, trim};
use proton_caller::error::Kind;
use proton_caller::request::Config;

fn config(data: &str, steam: &str, common: &str) -> Config {
    Config { data: data.to_string(), steam: steam.to_string(), common: common.to_string() }
}

fn failure(text: &str) -> String {
    let error = parse_config(text).unwrap_err();
    assert_eq!(error.kind, Kind::Config);
    assert_eq!(error.exit_code(), 1);
    error.message
}

#[test]
fn the_three_directories_are_read() {
    let text = "data = \"/home/avery/Documents/Proton/env/\"\nsteam = \"/home/avery/.steam/steam/\"\ncommon = \"/home/avery/.steam/steam/steamapps/common/\"\n";
    assert_eq!(
        parse_config(text),
        Ok(config(
            "/home/avery/Documents/Proton/env/",
            "/home/avery/.steam/steam/",
            "/home/avery/.steam/steam/steamapps/common/"
        ))
    );
}

#[test]
fn blanks_comments_and_the_order_of_lines_do_not_matter() {
    let text = "# where things are\r\n\r\n  common=\"/c\"  \r\n\tsteam =\"/s\"\n\n   # more\ndata= \"/d d\"";
    assert_eq!(parse_config(text), Ok(config("/d d", "/s", "/c")));
}

#[test]
fn a_later_line_for_a_key_replaces_an_earlier_one() {
    let text = "data = \"/first\"\nsteam = \"/s\"\ncommon = \"/c\"\ndata = \"/second\"";
    assert_eq!(parse_config(text), Ok(config("/second", "/s", "/c")));
}

#[test]
fn a_value_may_be_empty_and_may_hold_an_equals_sign() {
    let text = "data = \"\"\nsteam = \"a=b\"\ncommon = \" /c \"";
    assert_eq!(parse_config(text), Ok(config("", "a=b", " /c ")));
}

#[test]
fn a_directory_that_no_line_gives_is_an_error() {
    assert_eq!(failure(""), "missing key in the configuration: data");
    assert_eq!(failure("steam = \"/s\"\ncommon = \"/c\""), "missing key in the configuration: data");
    assert_eq!(failure("data = \"/d\"\ncommon = \"/c\""), "missing key in the configuration: steam");
    assert_eq!(failure("data = \"/d\"\nsteam = \"/s\""), "missing key in the configuration: common");
}

#[test]
fn a_key_that_names_no_directory_is_an_error() {
    assert_eq!(failure("data = \"/d\"\nruntime = \"/r\""), "unknown key in the configuration: runtime");
    assert_eq!(failure("Data = \"/d\""), "unknown key in the configuration: Data");
    assert_eq!(failure(" = \"/d\""), "unknown key in the configuration: ");
}

#[test]
fn the_first_line_that_cannot_be_read_is_an_error() {
    assert_eq!(failure("data"), "invalid line in the configuration: data");
    assert_eq!(failure("data = /d"), "invalid line in the configuration: data = /d");
    assert_eq!(failure("data = \"/d"), "invalid line in the configuration: data = \"/d");
    assert_eq!(failure("data = \""), "invalid line in the configuration: data = \"");
    assert_eq!(failure("data = \"a\"b\""), "invalid line in the configuration: data = \"a\"b\"");
    assert_eq!(failure("data = \"/d\" # mine"), "invalid line in the configuration: data = \"/d\" # mine");
    assert_eq!(
        failure("steam = \"/s\"\n  bad one \nworse\nother = \"x\""),
        "invalid line in the configuration:   bad one "
    );
    assert_eq!(failure("other = \"x\"\nbad"), "unknown key in the configuration: other");
}

#[test]
fn trim_takes_the_blanks_off_both_ends() {
    let chars = |text: &str| text.chars().collect::<Vec<char>>();
    assert_eq!(trim(&chars("  a b\t\r")), chars("a b"));
    assert_eq!(trim(&chars("a")), chars("a"));
    assert_eq!(trim(&chars(" \t ")), chars(""));
    assert_eq!(trim(&chars("")), chars(""));
    assert_eq!(trim(&chars("\na\n")), chars("\na\n"));
}

#[test]
fn find_char_gives_the_first_position_or_the_length() {
    let chars = |text: &str| text.chars().collect::<Vec<char>>();
    assert_eq!(find_char(&chars("a=b=c"), '='), 1);
    assert_eq!(find_char(&chars("=a"), '='), 0);
    assert_eq!(find_char(&chars("abc"), '='), 3);
    assert_eq!(find_char(&chars(""), '='), 0);
}
