use proton_caller::error::Kind;
use proton_caller::version::{rank_components, render_components, Rank, Version};

fn release(components: &[u64]) -> Version {
    Version::from_components(&components.to_vec()).unwrap()
}

#[test]
fn parse_reads_major_and_minor() {
    assert_eq!(Version::parse("5.13"), Ok(Version::release(5, 13)));
    assert_eq!(Version::parse("6.3"), Ok(Version::release(6, 3)));
    assert_eq!(Version::parse("0.0"), Ok(Version::release(0, 0)));
}

#[test]
fn parse_reads_finer_components() {
    assert_eq!(
        Version::parse("6.3.1"),
        Ok(Version::Release { major: 6, minor: 3, finer: vec![1] })
    );
    assert_eq!(Version::parse("1.2.3.4"), Ok(release(&[1, 2, 3, 4])));
}

#[test]
fn parse_then_text_gives_the_text_back() {
    for text in ["5.13", "6.3", "0.0", "10.20.30", "18446744073709551615.0", "7.0.0.0"] {
        assert_eq!(Version::parse(text).unwrap().text(), text);
    }
}

#[test]
fn text_then_parse_gives_the_version_back() {
    for version in [Version::release(5, 13), release(&[6, 3, 1]), Version::release(u64::MAX, 0)] {
        assert_eq!(Version::parse(&version.text()), Ok(version));
    }
}

#[test]
fn parse_refuses_what_is_no_release_name() {
    for text in [
        "", "5", "5.", ".5", ".", "5..13", "05.13", "5.013", "00.1", " 5.13", "5.13 ", "5. 13",
        "+5.13", "-5.13", "5.-1", "a.b", "5.13a", "5,13", "latest", "experimental",
        "18446744073709551616.0", "1.99999999999999999999", "\u{665}.\u{661}",
    ] {
        let error = Version::parse(text).unwrap_err();
        assert_eq!(error.kind, Kind::Usage, "{:?}", text);
        assert_eq!(error.message, format!("invalid Proton version: {}", text));
    }
}

#[test]
fn parse_does_not_trim() {
    assert!(Version::parse("5.13\n").is_err());
    assert!(Version::parse("\t5.13").is_err());
}

#[test]
fn directory_names_that_are_no_release_give_none() {
    for name in ["README", "scripts", "", "experimental", "Proton 6.3", "SteamLinuxRuntime", "5"] {
        assert_eq!(Version::from_directory_name(name), None, "{:?}", name);
    }
}

#[test]
fn directory_names_of_releases_are_read() {
    assert_eq!(Version::from_directory_name("5.13"), Some(Version::release(5, 13)));
    assert_eq!(Version::from_directory_name("6.3.1"), Some(release(&[6, 3, 1])));
}

#[test]
fn custom_path_is_labelled_by_its_last_component() {
    assert_eq!(
        Version::from_custom_path("/path/to/Proton 6.3"),
        Version::Custom("Proton 6.3".to_string())
    );
    assert_eq!(
        Version::from_custom_path("/path/to/Proton 6.3/"),
        Version::Custom("Proton 6.3".to_string())
    );
    assert_eq!(Version::from_custom_path("/opt//ge//"), Version::Custom("ge".to_string()));
    assert_eq!(Version::from_custom_path("relative"), Version::Custom("relative".to_string()));
    assert_eq!(Version::from_custom_path("/"), Version::Custom(String::new()));
    assert_eq!(Version::from_custom_path(""), Version::Custom(String::new()));
}

#[test]
fn custom_path_that_looks_like_a_release_stays_custom() {
    let version = Version::from_custom_path("/common/6.3");
    assert_eq!(version, Version::Custom("6.3".to_string()));
    assert!(version.is_custom());
    assert_ne!(version, Version::release(6, 3));
}

#[test]
fn default_asks_for_the_newest() {
    assert_eq!(Version::default(), Version::Latest);
    assert!(Version::default().is_latest());
    assert!(!Version::release(1, 0).is_latest());
}

#[test]
fn text_of_the_other_variants() {
    assert_eq!(Version::Latest.text(), "latest");
    assert_eq!(Version::Custom("Proton GE".to_string()).text(), "Proton GE");
}

#[test]
fn major_decides_before_minor() {
    assert_eq!(Version::release(5, 13).rank(&Version::release(6, 0)), Some(Rank::Older));
    assert_eq!(Version::release(6, 0).rank(&Version::release(5, 13)), Some(Rank::Newer));
    assert_eq!(Version::release(5, 999).rank(&release(&[6, 0, 0])), Some(Rank::Older));
}

#[test]
fn minor_decides_among_equal_majors() {
    assert_eq!(Version::release(5, 9).rank(&Version::release(5, 13)), Some(Rank::Older));
    assert_eq!(Version::release(5, 13).rank(&Version::release(5, 9)), Some(Rank::Newer));
    assert_eq!(Version::release(5, 13).rank(&Version::release(5, 13)), Some(Rank::Same));
}

#[test]
fn finer_components_decide_last() {
    assert_eq!(Version::release(6, 3).rank(&release(&[6, 3, 0])), Some(Rank::Older));
    assert_eq!(release(&[6, 3, 1]).rank(&release(&[6, 3, 0, 9])), Some(Rank::Newer));
    assert_eq!(release(&[6, 3, 1]).rank(&release(&[6, 3, 1])), Some(Rank::Same));
    assert_eq!(release(&[6, 3, 8]).rank(&Version::release(6, 4)), Some(Rank::Older));
}

#[test]
fn only_releases_are_ranked() {
    let custom = Version::Custom("6.3".to_string());
    let release = Version::release(6, 3);
    assert_eq!(custom.rank(&release), None);
    assert_eq!(release.rank(&custom), None);
    assert_eq!(custom.rank(&custom), None);
    assert_eq!(Version::Latest.rank(&release), None);
    assert_eq!(release.rank(&Version::Latest), None);
    assert_eq!(Version::Latest.rank(&Version::Latest), None);
}

#[test]
fn components_of_each_variant() {
    assert_eq!(release(&[6, 3, 1]).components(), Some(vec![6, 3, 1]));
    assert_eq!(Version::Latest.components(), None);
    assert_eq!(Version::Custom("x".to_string()).components(), None);
    assert_eq!(Version::from_components(&vec![6]), None);
    assert_eq!(Version::from_components(&vec![]), None);
}

#[test]
fn component_lists_are_written_and_ranked_as_they_stand() {
    let text = |list: &[u64]| render_components(&list.to_vec()).into_iter().collect::<String>();
    assert_eq!(text(&[]), "");
    assert_eq!(text(&[5]), "5");
    assert_eq!(text(&[5, 13]), "5.13");
    assert_eq!(text(&[0, 0, 10]), "0.0.10");
    assert_eq!(rank_components(&vec![], &vec![]), Rank::Same);
    assert_eq!(rank_components(&vec![], &vec![0]), Rank::Older);
    assert_eq!(rank_components(&vec![1], &vec![0, 9]), Rank::Newer);
}
