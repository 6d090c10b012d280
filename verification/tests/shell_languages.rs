use cozydot::operations::languages::{fnm_bootstrap, fnm_missing, node_version_commands, rustup, uv_bootstrap, uv_missing};
use cozydot::operations::shell::append_once;

#[test]
fn snippets_are_appended_once() {
    let snippet = "export PATH=\"/usr/local/go/bin:$PATH\"";
    assert_eq!(append_once("", snippet).unwrap(), format!("{snippet}\n"));
    assert_eq!(append_once("alias ll='ls -l'", snippet).unwrap(), format!("\n{snippet}\n"));
    assert_eq!(append_once("alias ll='ls -l'\n", snippet).unwrap(), format!("{snippet}\n"));
    let once = format!("x{}", append_once("x", snippet).unwrap());
    assert!(append_once(&once, snippet).is_none());
}

#[test]
fn toolchain_bootstraps() {
    let r = rustup("/tmp/rustup");
    assert_eq!(r[0].args.last().unwrap(), "https://sh.rustup.rs");
    assert_eq!(r[1].args, vec!["/tmp/rustup", "-y", "--default-toolchain", "none"]);
    let f = fnm_bootstrap("/tmp/fnm");
    assert_eq!(f[1].program, "bash");
    assert_eq!(f[1].args, vec!["/tmp/fnm", "--skip-shell"]);
    let u = uv_bootstrap("/tmp/uv", "/home/a/.local/bin");
    assert_eq!(u[1].args, vec!["UV_UNMANAGED_INSTALL=/home/a/.local/bin", "sh", "/tmp/uv"]);
    assert_eq!(fnm_missing("/x/fnm"), "FNM bootstrap did not publish executable /x/fnm");
    assert_eq!(uv_missing("/x/uv"), "uv bootstrap did not publish executable /x/uv");
    let lts = node_version_commands("/x/fnm", "lts");
    assert_eq!(lts[0].args, vec!["install", "--progress", "never", "--lts"]);
    assert_eq!(lts[1].args, vec!["default", "--", "lts-latest"]);
    let pinned = node_version_commands("/x/fnm", "22");
    assert_eq!(pinned[0].args, vec!["install", "--progress", "never", "--", "22"]);
    assert_eq!(pinned[1].args, vec!["default", "--", "22"]);
}
