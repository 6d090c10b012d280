use cozydot::assets::{checksum_asset, read_checksum_text, release_architecture, release_asset, release_url, DEFAULT_RELEASE_BASE};

#[test]
fn rejects_oversized_and_malformed_checksum_text() {
    assert!(read_checksum_text(&vec![b'a'; 4097]).is_none());
    assert!(read_checksum_text(b"not-a-sha256\n").is_none());
}

#[test]
fn checksum_text_states_a_lowercase_digest() {
    let digest = "ABCDEF0123456789abcdef0123456789ABCDEF0123456789abcdef0123456789";
    let text = format!("{digest}  cozydot-1.0.0-linux-amd64.tar.gz\n");
    assert_eq!(read_checksum_text(text.as_bytes()).unwrap(), digest.to_ascii_lowercase());
    assert!(read_checksum_text(&[0xff, 0xfe]).is_none());
    assert!(read_checksum_text(b"").is_none());
}

#[test]
fn release_assets_are_named_by_version_and_architecture() {
    assert_eq!(release_architecture("x86_64").unwrap(), "amd64");
    assert_eq!(release_architecture("aarch64").unwrap(), "arm64");
    assert_eq!(release_architecture("riscv64").unwrap_err(), "unsupported architecture: riscv64");
    let asset = release_asset("1.2.3", "arm64");
    assert_eq!(asset, "cozydot-1.2.3-linux-arm64.tar.gz");
    assert_eq!(checksum_asset(&asset), "cozydot-1.2.3-linux-arm64.tar.gz.sha256");
    assert_eq!(
        release_url(DEFAULT_RELEASE_BASE, "1.2.3"),
        "https://github.com/adoreblvnk/cozydot/releases/download/v1.2.3"
    );
}
