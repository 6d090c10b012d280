use cozydot::paths::join_path;

#[test]
fn joining_paths_follows_std() {
    let cases = [
        ("/home/me", "Applications"),
        ("/home/me/", "Applications"),
        ("/home/me", "/opt/tool"),
        ("", "relative"),
        ("base", ""),
        ("/", "etc"),
        ("a//", "b/c"),
    ];
    for (base, tail) in cases {
        let expected = std::path::Path::new(base).join(tail).to_string_lossy().into_owned();
        assert_eq!(join_path(base, tail), expected, "{base:?} joined with {tail:?}");
    }
    assert_eq!(join_path("/home/me", "Applications"), "/home/me/Applications");
    assert_eq!(join_path("base", ""), "base/");
}
