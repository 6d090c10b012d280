use cozydot::operations::managed_apt::discovery::{
    discovered_source_paths, DUPLICATE_PATH_ERROR, NON_UTF8_PATH_ERROR,
};
use cozydot::operations::managed_apt::{FILENAME_ERROR, OUTSIDE_ERROR};

#[test]
fn discovered_sources_are_sorted_with_the_main_list_first() {
    let output = b"/etc/apt/sources.list.d/zz.sources\0/etc/apt/sources.list.d/a-b.list\0/etc/apt/sources.list\0/etc/apt/sources.list.d/a.list\0";
    assert_eq!(
        discovered_source_paths(output).unwrap(),
        vec![
            "/etc/apt/sources.list",
            "/etc/apt/sources.list.d/a-b.list",
            "/etc/apt/sources.list.d/a.list",
            "/etc/apt/sources.list.d/zz.sources",
        ]
    );
    assert!(discovered_source_paths(b"").unwrap().is_empty());
    assert!(discovered_source_paths(b"\0\0").unwrap().is_empty());
    assert_eq!(discovered_source_paths(b"/etc/apt/sources.list").unwrap(), vec!["/etc/apt/sources.list"]);
}

#[test]
fn discovery_errors_name_the_first_bad_path() {
    assert_eq!(
        discovered_source_paths(b"/etc/apt/sources.list\0/etc/apt/sources.list\0").unwrap_err(),
        DUPLICATE_PATH_ERROR
    );
    assert_eq!(
        discovered_source_paths(b"/etc/apt/sources.list.d/a.list\0/etc/apt/sources.list.d//a.list\0").unwrap_err(),
        DUPLICATE_PATH_ERROR
    );
    assert_eq!(discovered_source_paths(b"/etc/apt/sources.list.d/\xff.list\0").unwrap_err(), NON_UTF8_PATH_ERROR);
    assert_eq!(discovered_source_paths(b"/etc/apt/other.list\0").unwrap_err(), OUTSIDE_ERROR);
    assert_eq!(discovered_source_paths(b"/etc/apt/sources.list.d/a b.list\0").unwrap_err(), FILENAME_ERROR);
    assert_eq!(
        discovered_source_paths(b"/etc/apt/other.list\0/etc/apt/sources.list.d/\xff\0").unwrap_err(),
        OUTSIDE_ERROR
    );
}
