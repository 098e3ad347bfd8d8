use proton_caller::error::Kind;
use proton_caller::index::{Child, Index};
use proton_caller::resolve::{resolve, Attempt, Step};
use proton_caller::version::Version;

fn directory(name: &str) -> Child {
    Child { name: name.to_string(), path: format!("/common/{}", name), is_dir: true }
}

/// Runs the lookup as a caller does, with `later` for what the rebuild
/// finds; gives the result and the number of rebuilds.
fn look_up(index: &mut Index, version: &Version, later: &Vec<Child>) -> (Result<String, String>, u32) {
    let mut rebuilds = 0;
    let mut attempt = Attempt::First;
    loop {
        match resolve(index, version, attempt) {
            Step::Found(path) => return (Ok(path), rebuilds),
            Step::Missing(error) => {
                assert_eq!(error.kind, Kind::ProtonMissing);
                return (Err(error.message), rebuilds);
            },
            Step::Rebuild(next) => {
                assert_eq!(attempt, Attempt::First);
                assert_eq!(next, Attempt::AfterRebuild);
                index.rebuild(later);
                rebuilds += 1;
                attempt = next;
            },
        }
    }
}

#[test]
fn a_known_release_costs_no_rebuild() {
    let mut index = Index::new("/common").unwrap();
    index.rebuild(&vec![directory("5.13"), directory("6.3")]);
    let (result, rebuilds) = look_up(&mut index, &Version::release(5, 13), &vec![]);
    assert_eq!(result, Ok("/common/5.13".to_string()));
    assert_eq!(rebuilds, 0);
    assert_eq!(index.len(), 2);
}

#[test]
fn a_release_that_appears_is_found_after_one_rebuild() {
    let mut index = Index::new("/common").unwrap();
    index.rebuild(&vec![directory("5.13")]);
    let later = vec![directory("5.13"), directory("7.0")];
    let (result, rebuilds) = look_up(&mut index, &Version::release(7, 0), &later);
    assert_eq!(result, Ok("/common/7.0".to_string()));
    assert_eq!(rebuilds, 1);
}

#[test]
fn a_release_that_stays_absent_fails_after_one_rebuild() {
    let mut index = Index::new("/common").unwrap();
    index.rebuild(&vec![directory("5.13")]);
    let later = vec![directory("5.13"), directory("6.3")];
    let (result, rebuilds) = look_up(&mut index, &Version::release(7, 0), &later);
    assert_eq!(result, Err("Proton 7.0 does not exist".to_string()));
    assert_eq!(rebuilds, 1);
}

#[test]
fn the_newest_of_an_empty_index_is_looked_for_once_more() {
    let mut index = Index::new("/common").unwrap();
    let (result, rebuilds) = look_up(&mut index, &Version::Latest, &vec![directory("6.3")]);
    assert_eq!(result, Ok("/common/6.3".to_string()));
    assert_eq!(rebuilds, 1);
    let mut index = Index::new("/common").unwrap();
    let (result, rebuilds) = look_up(&mut index, &Version::Latest, &vec![]);
    assert_eq!(result, Err("Proton latest does not exist".to_string()));
    assert_eq!(rebuilds, 1);
}

#[test]
fn the_steps_of_each_attempt() {
    let mut index = Index::new("/common").unwrap();
    index.rebuild(&vec![directory("6.3")]);
    let known = Version::release(6, 3);
    let unknown = Version::release(6, 4);
    assert_eq!(resolve(&index, &known, Attempt::First), Step::Found("/common/6.3".to_string()));
    assert_eq!(resolve(&index, &known, Attempt::AfterRebuild), Step::Found("/common/6.3".to_string()));
    assert_eq!(resolve(&index, &unknown, Attempt::First), Step::Rebuild(Attempt::AfterRebuild));
    match resolve(&index, &unknown, Attempt::AfterRebuild) {
        Step::Missing(error) => {
            assert_eq!(error.kind, Kind::ProtonMissing);
            assert_eq!(error.message, "Proton 6.4 does not exist");
            assert_eq!(error.exit_code(), 2);
        },
        other => panic!("{:?}", other),
    }
    let custom = Version::Custom("ge".to_string());
    assert_eq!(resolve(&index, &custom, Attempt::First), Step::Rebuild(Attempt::AfterRebuild));
}
