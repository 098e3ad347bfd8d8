use proton_caller::error::Kind;
use proton_caller::index::{Child, Index};
use proton_caller::version::Version;

fn child(root: &str, name: &str, is_dir: bool) -> Child {
    Child { name: name.to_string(), path: format!("{}/{}", root, name), is_dir }
}

fn scanned_root() -> Vec<Child> {
    vec![
        child("/common", "6.3", true),
        child("/common", "experimental", true),
        child("/common", "6.3.1", false),
        child("/common", "5.13", true),
    ]
}

#[test]
fn new_index_is_empty_and_bound_to_its_root() {
    let index = Index::new("/common").unwrap();
    assert!(index.is_empty());
    assert_eq!(index.len(), 0);
    assert_eq!(index.root(), "/common");
    assert_eq!(index.get(&Version::default()), None);
    assert_eq!(index.get(&Version::release(5, 13)), None);
    assert_eq!(index.listing(), "");
    assert_eq!(index.entries(), vec![]);
}

#[test]
fn rebuild_lists_the_release_directories_in_ascending_order() {
    let mut index = Index::new("/common").unwrap();
    index.rebuild(&scanned_root());
    assert_eq!(
        index.entries(),
        vec![
            (Version::release(5, 13), "/common/5.13".to_string()),
            (Version::release(6, 3), "/common/6.3".to_string()),
        ]
    );
    assert_eq!(index.len(), 2);
    assert_eq!(index.listing(), "5.13 /common/5.13\n6.3 /common/6.3\n");
    assert_eq!(index.root(), "/common");
}

#[test]
fn get_answers_for_the_newest_and_for_a_named_release() {
    let mut index = Index::new("/common").unwrap();
    index.rebuild(&scanned_root());
    assert_eq!(index.get(&Version::default()), Some("/common/6.3".to_string()));
    assert_eq!(index.get(&Version::parse("5.13").unwrap()), Some("/common/5.13".to_string()));
    assert_eq!(index.get(&Version::parse("6.3").unwrap()), Some("/common/6.3".to_string()));
    assert_eq!(index.get(&Version::parse("7.0").unwrap()), None);
    assert_eq!(index.get(&Version::parse("6.3.1").unwrap()), None);
}

#[test]
fn get_never_answers_for_a_custom_installation() {
    let mut index = Index::new("/common").unwrap();
    index.rebuild(&scanned_root());
    assert_eq!(index.get(&Version::Custom("6.3".to_string())), None);
    assert_eq!(index.get(&Version::from_custom_path("/common/6.3")), None);
}

#[test]
fn releases_are_ordered_by_number_and_not_by_text() {
    let mut index = Index::new("/c").unwrap();
    index.rebuild(&vec![
        child("/c", "5.13", true),
        child("/c", "5.9", true),
        child("/c", "10.0", true),
        child("/c", "5.9.2", true),
        child("/c", "9.99", true),
    ]);
    assert_eq!(index.listing(), "5.9 /c/5.9\n5.9.2 /c/5.9.2\n5.13 /c/5.13\n9.99 /c/9.99\n10.0 /c/10.0\n");
    assert_eq!(index.get(&Version::Latest), Some("/c/10.0".to_string()));
}

#[test]
fn the_later_of_two_directories_for_one_release_stays() {
    let mut index = Index::new("/c").unwrap();
    index.rebuild(&vec![
        Child { name: "6.3".to_string(), path: "/c/first".to_string(), is_dir: true },
        child("/c", "5.0", true),
        Child { name: "6.3".to_string(), path: "/c/second".to_string(), is_dir: true },
    ]);
    assert_eq!(index.len(), 2);
    assert_eq!(index.get(&Version::release(6, 3)), Some("/c/second".to_string()));
}

#[test]
fn rebuild_replaces_what_was_indexed() {
    let mut index = Index::new("/c").unwrap();
    index.rebuild(&vec![child("/c", "5.13", true), child("/c", "6.3", true)]);
    index.rebuild(&vec![child("/c", "7.0", true)]);
    assert_eq!(index.entries(), vec![(Version::release(7, 0), "/c/7.0".to_string())]);
    assert_eq!(index.get(&Version::release(5, 13)), None);
    index.rebuild(&vec![]);
    assert!(index.is_empty());
    assert_eq!(index.get(&Version::Latest), None);
}

#[test]
fn files_and_foreign_names_are_passed_over() {
    let mut index = Index::new("/c").unwrap();
    index.rebuild(&vec![
        child("/c", "README", false),
        child("/c", "scripts", true),
        child("/c", "", true),
        child("/c", "7.1", false),
        child("/c", "05.13", true),
        child("/c", "5.13 ", true),
    ]);
    assert!(index.is_empty());
}

#[test]
fn a_root_that_is_no_path_is_refused() {
    let error = Index::new("").unwrap_err();
    assert_eq!(error.kind, Kind::Config);
    assert_eq!(error.message, "unusable root directory: ");
    let error = Index::new("/com\0mon").unwrap_err();
    assert_eq!(error.message, "unusable root directory: /com\0mon");
    assert!(Index::new("relative/dir").is_ok());
    assert!(Index::new("/").is_ok());
}
