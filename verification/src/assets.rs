//! The release archive of bundled assets: its name for a version and an
//! architecture, where it is downloaded from, and the checksum file that
//! vouches for it.
use vstd::prelude::*;
use crate::text::{
    all_chars, chars_of, concat, concat3, digit, eq_str, is_digit, lowercase_chars, string_of, to_lower,
    unicode_words, unicode_words_of, utf8_text, views,
};

verus! {

/// The architecture of a release asset, for the architecture that Rust
/// names (`std::env::consts::ARCH`).
pub open spec fn release_arch(arch: Seq<char>) -> Result<Seq<char>, Seq<char>> {
    if arch == "x86_64"@ {
        Ok("amd64"@)
    } else if arch == "aarch64"@ {
        Ok("arm64"@)
    } else {
        Err("unsupported architecture: "@ + arch)
    }
}

pub fn release_architecture(arch: &str) -> (r: Result<&'static str, String>)
    ensures
        match r {
            Ok(a) => release_arch(arch@) == Ok::<Seq<char>, Seq<char>>(a@),
            Err(e) => release_arch(arch@) == Err::<Seq<char>, Seq<char>>(e@),
        },
{
    let v = chars_of(arch);
    if eq_str(&v, "x86_64") {
        Ok("amd64")
    } else if eq_str(&v, "aarch64") {
        Ok("arm64")
    } else {
        Err(concat("unsupported architecture: ", arch))
    }
}

/// The archive of a release for an architecture.
pub fn release_asset(version: &str, arch: &str) -> (r: String)
    ensures
        r@ == "cozydot-"@ + version@ + "-linux-"@ + arch@ + ".tar.gz"@,
{
    let mut r = concat3("cozydot-", version, "-linux-");
    r.append(arch);
    r.append(".tar.gz");
    r
}

/// The checksum file published beside an archive.
pub fn checksum_asset(asset: &str) -> (r: String)
    ensures
        r@ == asset@ + ".sha256"@,
{
    concat(asset, ".sha256")
}

pub const DEFAULT_RELEASE_BASE: &'static str = "https://github.com/adoreblvnk/cozydot/releases";

/// Where the assets of a release are downloaded from.
pub fn release_url(base: &str, version: &str) -> (r: String)
    ensures
        r@ == base@ + "/download/v"@ + version@,
{
    concat3(base, "/download/v", version)
}

/// The most bytes a release download may have.
pub const MAX_DOWNLOAD: u64 = 536870912;

/// The most bytes a checksum file may have.
pub const MAX_CHECKSUM_TEXT: usize = 4096;

pub open spec fn is_hex_digit(c: char) -> bool {
    is_digit(c) || ('a' <= c && c <= 'f') || ('A' <= c && c <= 'F')
}

pub open spec fn first_word(ws: Seq<Seq<char>>) -> Seq<char> {
    if ws.len() > 0 {
        ws[0]
    } else {
        Seq::empty()
    }
}

/// 64 hexadecimal digits.
pub open spec fn hex_digest(w: Seq<char>) -> bool {
    w.len() == 64 && forall|k: int| 0 <= k < w.len() ==> is_hex_digit(#[trigger] w[k])
}

/// The SHA-256 digest that a checksum file states, lowercased: the first
/// whitespace-separated word, 64 hexadecimal digits. A file that is too
/// long, not UTF-8 or of another form states none.
pub open spec fn stated_checksum(bytes: Seq<u8>) -> Option<Seq<char>> {
    if bytes.len() > MAX_CHECKSUM_TEXT || !vstd::utf8::valid_utf8(bytes) {
        None
    } else {
        let first = first_word(unicode_words(vstd::utf8::decode_utf8(bytes)));
        if hex_digest(first) {
            Some(to_lower(first))
        } else {
            None
        }
    }
}

pub fn read_checksum_text(bytes: &[u8]) -> (r: Option<String>)
    ensures
        match r {
            Some(s) => stated_checksum(bytes@) == Some(s@),
            None => stated_checksum(bytes@) is None,
        },
{
    if bytes.len() > MAX_CHECKSUM_TEXT {
        return None;
    }
    let text = utf8_text(bytes)?;
    let ws = unicode_words_of(&chars_of(text.as_str()));
    let first: Vec<char> = if ws.len() > 0 {
        assert(views(ws@)[0] == ws@[0]@);
        ws[0].clone()
    } else {
        let empty: Vec<char> = Vec::new();
        assert(empty@ =~= Seq::<char>::empty());
        empty
    };
    let ghost wv = unicode_words(vstd::utf8::decode_utf8(bytes@));
    assert(first@ == first_word(wv));
    let hex = |c: char| -> (b: bool)
        ensures
            b == is_hex_digit(c),
        { digit(c) || ('a' <= c && c <= 'f') || ('A' <= c && c <= 'F') };
    if first.len() != 64 || !all_chars(&first, hex, Ghost(|c: char| is_hex_digit(c))) {
        return None;
    }
    Some(string_of(&lowercase_chars(&first)))
}

} // verus!
