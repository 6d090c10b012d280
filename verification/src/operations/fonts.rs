//! Nerd Fonts families: which may be installed, what an archive may hold,
//! and how an installed family is recognised.
use vstd::prelude::*;
use crate::patterns::definition_grammar;
use crate::text::{
    all_chars, alnum, chars_of, concat, debug_str, debug_text, eq_chars, has_control, is_control,
    lines, lines_of, split, split_chars, string_views, utf8_text, views, any_chars, control, eq_str,
};
use crate::patterns::name_char;
use crate::weburl::{replace_last_segment, url_with_last_segment};

verus! {

#[derive(Clone, Copy, Debug, PartialEq, Eq, Structural)]
pub enum NerdFontsMode {
    EnsurePresent,
    Update,
}

/// Installing or updating a set of Nerd Fonts families.
#[derive(Debug)]
pub struct NerdFontsOperation {
    families: Vec<String>,
    mode: NerdFontsMode,
}

pub const EMPTY_FAMILIES_ERROR: &'static str = "Nerd Font family sequence must not be empty";

/// The family names: a non-empty sequence of distinct definition names.
pub open spec fn families_check(fs: Seq<Seq<char>>) -> Result<(), Seq<char>> {
    if fs.len() == 0 {
        Err(EMPTY_FAMILIES_ERROR@)
    } else {
        families_from(fs, 0)
    }
}

/// The families from the `k`th on, each valid and not equal to an earlier one.
pub open spec fn families_from(fs: Seq<Seq<char>>, k: int) -> Result<(), Seq<char>>
    decreases fs.len() - k,
{
    if k < 0 || k >= fs.len() {
        Ok(())
    } else if !definition_grammar(fs[k]) {
        Err("invalid Nerd Font family name "@ + debug_text(fs[k]))
    } else if exists|j: int| 0 <= j < k && #[trigger] fs[j] == fs[k] {
        Err("duplicate Nerd Font family "@ + debug_text(fs[k]))
    } else {
        families_from(fs, k + 1)
    }
}

fn family_name_ok(f: &[char]) -> (r: bool)
    ensures
        r == definition_grammar(f@),
{
    if f.len() == 0 || !alnum(f[0]) || !alnum(f[f.len() - 1]) {
        return false;
    }
    let g = |c: char| -> (b: bool)
        ensures
            b == name_char(c),
        { alnum(c) || c == '.' || c == '_' || c == '-' };
    all_chars(f, g, Ghost(|c: char| name_char(c)))
}

fn validate_families(families: &Vec<String>) -> (r: Result<(), String>)
    ensures
        match r {
            Ok(_) => families_check(string_views(families@)) is Ok,
            Err(e) => families_check(string_views(families@)) == Err::<(), Seq<char>>(e@),
        },
{
    if families.len() == 0 {
        return Err(EMPTY_FAMILIES_ERROR.to_owned());
    }
    let ghost fs = string_views(families@);
    let mut seen: Vec<Vec<char>> = Vec::new();
    let mut i: usize = 0;
    while i < families.len()
        invariant
            i <= fs.len(),
            fs == string_views(families@),
            fs.len() > 0,
            families@.len() == fs.len(),
            seen@.len() == i,
            views(seen@) == fs.take(i as int),
            families_check(fs) == families_from(fs, i as int),
        decreases fs.len() - i,
    {
        let f = chars_of(families[i].as_str());
        assert(f@ == fs[i as int]);
        if !family_name_ok(&f) {
            return Err(concat("invalid Nerd Font family name ", debug_str(families[i].as_str()).as_str()));
        }
        let mut j: usize = 0;
        while j < seen.len()
            invariant
                j <= seen@.len(),
                seen@.len() == i,
                views(seen@) == fs.take(i as int),
                f@ == fs[i as int],
                i < fs.len(),
                families@.len() == fs.len(),
                definition_grammar(fs[i as int]),
                fs == string_views(families@),
                families_check(fs) == families_from(fs, i as int),
                forall|k: int| 0 <= k < j ==> fs[k] != fs[i as int],
            decreases seen@.len() - j,
        {
            assert(views(seen@)[j as int] == fs[j as int]);
            if eq_chars(&seen[j], &f) {
                assert(fs[j as int] == fs[i as int]);
                return Err(concat("duplicate Nerd Font family ", debug_str(families[i].as_str()).as_str()));
            }
            j += 1;
        }
        let ghost before = views(seen@);
        seen.push(f);
        assert(views(seen@) =~= fs.take(i + 1)) by {
            assert(views(seen@) =~= before.push(fs[i as int]));
        }
        i += 1;
    }
    Ok(())
}

pub open spec fn mode_name(m: NerdFontsMode) -> Seq<char> {
    match m {
        NerdFontsMode::EnsurePresent => "ensure-present"@,
        NerdFontsMode::Update => "update"@,
    }
}

impl NerdFontsOperation {
    /// The operation for `families` (distinct valid family names) in `mode`.
    pub fn new(families: Vec<String>, mode: NerdFontsMode) -> (r: Result<Self, String>)
        ensures
            match r {
                Ok(op) => families_check(string_views(families@)) is Ok && op.families_view() == string_views(families@) && op.mode_view() == mode,
                Err(e) => families_check(string_views(families@)) == Err::<(), Seq<char>>(e@),
            },
    {
        validate_families(&families)?;
        Ok(NerdFontsOperation { families, mode })
    }

    pub closed spec fn families_view(&self) -> Seq<Seq<char>> {
        string_views(self.families@)
    }

    pub closed spec fn mode_view(&self) -> NerdFontsMode {
        self.mode
    }

    /// The words that describe the operation in a plan listing.
    pub fn display_args(&self) -> (r: Vec<String>)
        ensures
            string_views(r@) == seq!["nerd-fonts"@, mode_name(self.mode_view())] + self.families_view(),
    {
        let mut r: Vec<String> = Vec::new();
        r.push("nerd-fonts".to_owned());
        r.push(
            match self.mode {
                NerdFontsMode::EnsurePresent => "ensure-present".to_owned(),
                NerdFontsMode::Update => "update".to_owned(),
            },
        );
        let ghost head = seq!["nerd-fonts"@, mode_name(self.mode)];
        assert(string_views(r@) =~= head + string_views(self.families@).take(0));
        let mut i: usize = 0;
        while i < self.families.len()
            invariant
                i <= self.families@.len(),
                head == seq!["nerd-fonts"@, mode_name(self.mode)],
                string_views(r@) == head + string_views(self.families@).take(i as int),
            decreases self.families@.len() - i,
        {
            let ghost before = string_views(r@);
            let f = self.families[i].clone();
            assert(f@ == self.families@[i as int]@);
            r.push(f);
            i += 1;
            assert(string_views(r@) =~= before.push(self.families@[i - 1]@));
            assert(string_views(r@) =~= head + string_views(self.families@).take(i as int));
        }
        assert(string_views(self.families@).take(i as int) =~= string_views(self.families@));
        r
    }
}

/// An archive entry that may be extracted: non-empty, relative, without a
/// `..` component, without control characters.
pub open spec fn safe_entry(entry: Seq<char>) -> bool {
    entry.len() > 0 && entry[0] != '/' && !split(entry, '/').contains(".."@) && !has_control(entry)
}

pub const LISTING_UTF8_ERROR: &'static str = "Nerd Font archive listing is not UTF-8";

pub const LISTING_EMPTY_ERROR: &'static str = "Nerd Font archive is empty";

pub const LISTING_UNSAFE_ERROR: &'static str = "Nerd Font archive contains an unsafe path";

/// The verdict on a `tar --list` of a font archive.
pub open spec fn listing_check(output: Seq<u8>) -> Result<(), Seq<char>> {
    if !vstd::utf8::valid_utf8(output) {
        Err(LISTING_UTF8_ERROR@)
    } else {
        let text = vstd::utf8::decode_utf8(output);
        if text.len() == 0 {
            Err(LISTING_EMPTY_ERROR@)
        } else if exists|i: int| 0 <= i < lines(text).len() && !safe_entry(#[trigger] lines(text)[i]) {
            Err(LISTING_UNSAFE_ERROR@)
        } else {
            Ok(())
        }
    }
}

pub fn safe_entry_exec(entry: &[char]) -> (r: bool)
    ensures
        r == safe_entry(entry@),
{
    if entry.len() == 0 || entry[0] == '/' {
        return false;
    }
    let parts = split_chars(entry, '/');
    assert(views(parts@) == split(entry@, '/'));
    let dots = chars_of("..");
    let mut i: usize = 0;
    while i < parts.len()
        invariant
            i <= parts@.len(),
            dots@ == ".."@,
            entry@.len() > 0,
            entry@[0] != '/',
            views(parts@) == split(entry@, '/'),
            forall|k: int| 0 <= k < i ==> #[trigger] views(parts@)[k] != ".."@,
        decreases parts@.len() - i,
    {
        if eq_chars(&parts[i], &dots) {
            assert(views(parts@)[i as int] == ".."@);
            assert(views(parts@).contains(".."@));
            return false;
        }
        i += 1;
    }
    assert(!views(parts@).contains(".."@)) by {
        if views(parts@).contains(".."@) {
            let k = choose|k: int| 0 <= k < views(parts@).len() && views(parts@)[k] == ".."@;
            assert(views(parts@)[k] != ".."@);
        }
    }
    let f = |c: char| -> (b: bool)
        ensures
            b == is_control(c),
        { control(c) };
    !any_chars(entry, f, Ghost(|c: char| is_control(c)))
}

/// Checks a font archive's listing before extraction.
pub fn validate_archive_listing(output: &[u8]) -> (r: Result<(), String>)
    ensures
        match r {
            Ok(_) => listing_check(output@) is Ok,
            Err(e) => listing_check(output@) == Err::<(), Seq<char>>(e@),
        },
{
    let text = match utf8_text(output) {
        None => {
            return Err(LISTING_UTF8_ERROR.to_owned());
        },
        Some(t) => t,
    };
    let t = chars_of(text.as_str());
    if t.len() == 0 {
        return Err(LISTING_EMPTY_ERROR.to_owned());
    }
    let ls = lines_of(&t);
    let mut i: usize = 0;
    while i < ls.len()
        invariant
            i <= ls@.len(),
            views(ls@) == lines(t@),
            vstd::utf8::valid_utf8(output@),
            t@ == vstd::utf8::decode_utf8(output@),
            t@.len() > 0,
            forall|k: int| 0 <= k < i ==> safe_entry(#[trigger] lines(t@)[k]),
        decreases ls@.len() - i,
    {
        assert(lines(t@)[i as int] == ls@[i as int]@);
        if !safe_entry_exec(&ls[i]) {
            assert(!safe_entry(lines(t@)[i as int]));
            return Err(LISTING_UNSAFE_ERROR.to_owned());
        }
        i += 1;
    }
    Ok(())
}

// ------------------------------------------------------------ installing a family
//
// Installing a family downloads, unpacks and publishes it; the decisions
// between those steps stand here, and the caller performs the steps.

pub const RELATIVE_DATA_HOME: &'static str = "Nerd Fonts XDG data directory must be absolute";

/// The data directory that families are installed under must be absolute
/// (it starts at the root, as `Path::is_absolute` tells on Unix).
pub fn check_data_home(path: &str) -> (r: Result<(), String>)
    ensures
        r is Ok <==> (path@.len() > 0 && path@[0] == '/'),
        r matches Err(e) ==> e@ == RELATIVE_DATA_HOME@,
{
    let p = chars_of(path);
    if p.len() > 0 && p[0] == '/' {
        Ok(())
    } else {
        Err(RELATIVE_DATA_HOME.to_owned())
    }
}

/// The address whose last segment names the archive to download.
pub const ARCHIVE_PLACEHOLDER: &'static str = "https://github.com/ryanoasis/nerd-fonts/releases/latest/download/placeholder.tar.xz";

pub const NOT_A_BASE: &'static str = "Nerd Fonts URL cannot be a base";

/// The latest release archive of a family: the placeholder address with
/// its last segment replaced by `family.tar.xz`.
pub open spec fn archive_url_result(family: Seq<char>) -> Result<Seq<char>, Seq<char>> {
    match url_with_last_segment(ARCHIVE_PLACEHOLDER@, family + ".tar.xz"@) {
        Some(u) => Ok(u),
        None => Err(NOT_A_BASE@),
    }
}

pub fn family_archive_url(family: &str) -> (r: Result<String, String>)
    ensures
        match r {
            Ok(u) => archive_url_result(family@) == Ok::<Seq<char>, Seq<char>>(u@),
            Err(e) => archive_url_result(family@) == Err::<Seq<char>, Seq<char>>(e@),
        },
{
    let segment = concat(family, ".tar.xz");
    match replace_last_segment(ARCHIVE_PLACEHOLDER, segment.as_str()) {
        Some(u) => Ok(u),
        None => Err(NOT_A_BASE.to_owned()),
    }
}

/// Whether publishing replaces an installed family: what is at the
/// destination must be a directory (`Some(true)`) or nothing (`None`).
pub open spec fn replacing_result(found: Option<bool>, destination: Seq<char>) -> Result<bool, Seq<char>> {
    match found {
        None => Ok(false),
        Some(true) => Ok(true),
        Some(false) => Err("Nerd Font destination conflict at "@ + destination),
    }
}

pub fn destination_replacing(found: Option<bool>, destination: &str) -> (r: Result<bool, String>)
    ensures
        match r {
            Ok(b) => replacing_result(found, destination@) == Ok::<bool, Seq<char>>(b),
            Err(e) => replacing_result(found, destination@) == Err::<bool, Seq<char>>(e@),
        },
{
    match found {
        None => Ok(false),
        Some(true) => Ok(true),
        Some(false) => Err(concat("Nerd Font destination conflict at ", destination)),
    }
}


pub const FONT_STATE_UTF8_ERROR: &'static str = "fc-list returned non-UTF-8 font state";

pub const FONT_STATE_ERROR: &'static str = "fc-list returned malformed font state";

/// Whether `fc-list --format=%{family}\n` listed the family `<family> Nerd
/// Font`: some line holds it as one of its comma-separated names. Output
/// that is not UTF-8, or holds a carriage return or a NUL, is refused.
pub open spec fn font_present_result(output: Seq<u8>, family: Seq<char>) -> Result<bool, Seq<char>> {
    if !vstd::utf8::valid_utf8(output) {
        Err(FONT_STATE_UTF8_ERROR@)
    } else {
        let text = vstd::utf8::decode_utf8(output);
        if text.contains('\r') || text.contains('\0') {
            Err(FONT_STATE_ERROR@)
        } else {
            Ok(exists|i: int, j: int| 0 <= i < lines(text).len() && 0 <= j < split(lines(text)[i], ',').len()
                && #[trigger] split(lines(text)[i], ',')[j] == family + " Nerd Font"@)
        }
    }
}

pub fn font_present(output: &[u8], family: &str) -> (r: Result<bool, String>)
    ensures
        match r {
            Ok(b) => font_present_result(output@, family@) == Ok::<bool, Seq<char>>(b),
            Err(e) => font_present_result(output@, family@) == Err::<bool, Seq<char>>(e@),
        },
{
    let text = match utf8_text(output) {
        None => {
            return Err(FONT_STATE_UTF8_ERROR.to_owned());
        },
        Some(t) => chars_of(t.as_str()),
    };
    let bad = |c: char| -> (b: bool)
        ensures
            b == (c == '\r' || c == '\0'),
        { c == '\r' || c == '\0' };
    if any_chars(&text, bad, Ghost(|c: char| c == '\r' || c == '\0')) {
        proof {
            let k = choose|k: int| 0 <= k < text@.len() && (text@[k] == '\r' || text@[k] == '\0');
            assert(text@.contains(text@[k]));
        }
        return Err(FONT_STATE_ERROR.to_owned());
    }
    proof {
        if text@.contains('\r') {
            let k = choose|k: int| 0 <= k < text@.len() && text@[k] == '\r';
            assert(text@[k] == '\r' || text@[k] == '\0');
        }
        if text@.contains('\0') {
            let k = choose|k: int| 0 <= k < text@.len() && text@[k] == '\0';
            assert(text@[k] == '\r' || text@[k] == '\0');
        }
    }
    assert(text@ == vstd::utf8::decode_utf8(output@));
    let expected = chars_of(concat(family, " Nerd Font").as_str());
    let ls = lines_of(&text);
    let ghost lv = lines(text@);
    let mut i: usize = 0;
    while i < ls.len()
        invariant
            i <= ls@.len(),
            views(ls@) == lv,
            lv == lines(text@),
            text@ == vstd::utf8::decode_utf8(output@),
            vstd::utf8::valid_utf8(output@),
            !text@.contains('\r') && !text@.contains('\0'),
            expected@ == family@ + " Nerd Font"@,
            forall|a: int, j: int| 0 <= a < i && 0 <= j < split(lv[a], ',').len()
                ==> #[trigger] split(lv[a], ',')[j] != expected@,
        decreases ls@.len() - i,
    {
        assert(lv[i as int] == ls@[i as int]@);
        let parts = split_chars(&ls[i], ',');
        let mut j: usize = 0;
        while j < parts.len()
            invariant
                i < ls@.len(),
                views(ls@) == lv,
                lv == lines(text@),
                text@ == vstd::utf8::decode_utf8(output@),
                vstd::utf8::valid_utf8(output@),
                !text@.contains('\r') && !text@.contains('\0'),
                expected@ == family@ + " Nerd Font"@,
                forall|a: int, jj: int| 0 <= a < i && 0 <= jj < split(lv[a], ',').len()
                    ==> #[trigger] split(lv[a], ',')[jj] != expected@,
                j <= parts@.len(),
                views(parts@) == split(lv[i as int], ','),
                forall|b: int| 0 <= b < j ==> #[trigger] split(lv[i as int], ',')[b] != expected@,
            decreases parts@.len() - j,
        {
            assert(views(parts@)[j as int] == parts@[j as int]@);
            if eq_chars(&parts[j], &expected) {
                assert(split(lv[i as int], ',')[j as int] == family@ + " Nerd Font"@);
                assert(text@ == vstd::utf8::decode_utf8(output@));
                assert(0 <= i < lines(text@).len() && 0 <= j < split(lines(text@)[i as int], ',').len());
                return Ok(true);
            }
            j += 1;
        }
        i += 1;
    }
    Ok(false)
}

/// An entry of an unpacked font archive, in the order the check walks the
/// tree.
#[derive(Debug)]
pub enum ExtractedEntry {
    Directory,
    /// A regular file, with its extension (`Path::extension`) and length.
    File { extension: Option<String>, len: u64 },
    /// Anything else, at its path.
    Other { path: String },
}

pub const NO_FONTS_ERROR: &'static str = "Nerd Font archive contains no non-empty TTF or OTF files";

pub open spec fn font_file(e: ExtractedEntry) -> bool {
    match e {
        ExtractedEntry::File { extension: Some(x), len } => (x@ == "ttf"@ || x@ == "otf"@) && len > 0,
        _ => false,
    }
}

/// The first entry that is neither a directory nor a regular file is
/// refused; else the tree must hold a non-empty TTF or OTF file.
pub open spec fn extracted_check(es: Seq<ExtractedEntry>) -> Result<(), Seq<char>> {
    if exists|i: int| 0 <= i < es.len() && (#[trigger] es[i]) is Other {
        let i = choose|i: int| 0 <= i < es.len() && es[i] is Other && forall|k: int| 0 <= k < i ==> !(es[k] is Other);
        Err("Nerd Font archive contains an unsupported file type at "@ + es[i]->path@)
    } else if exists|i: int| 0 <= i < es.len() && font_file(#[trigger] es[i]) {
        Ok(())
    } else {
        Err(NO_FONTS_ERROR@)
    }
}

pub fn validate_extracted_entries(entries: &Vec<ExtractedEntry>) -> (r: Result<(), String>)
    ensures
        match r {
            Ok(_) => extracted_check(entries@) == Ok::<(), Seq<char>>(()),
            Err(e) => extracted_check(entries@) == Err::<(), Seq<char>>(e@),
        },
{
    let mut found = false;
    let mut i: usize = 0;
    while i < entries.len()
        invariant
            i <= entries@.len(),
            forall|k: int| 0 <= k < i ==> !(#[trigger] entries@[k] is Other),
            found <==> exists|k: int| 0 <= k < i && font_file(#[trigger] entries@[k]),
        decreases entries@.len() - i,
    {
        match &entries[i] {
            ExtractedEntry::Other { path } => {
                let ghost es = entries@;
                assert(es[i as int] is Other && forall|k: int| 0 <= k < i ==> !(es[k] is Other));
                let ghost c = choose|c: int| 0 <= c < es.len() && es[c] is Other && forall|k: int| 0 <= k < c ==> !(es[k] is Other);
                assert(c == i) by {
                    if c < i {
                        assert(!(es[c] is Other));
                    } else if c > i {
                        assert(!(es[i as int] is Other));
                    }
                }
                return Err(concat("Nerd Font archive contains an unsupported file type at ", path.as_str()));
            },
            ExtractedEntry::File { extension: Some(x), len } => {
                let xv = chars_of(x.as_str());
                if (eq_str(&xv, "ttf") || eq_str(&xv, "otf")) && *len > 0 {
                    found = true;
                }
            },
            _ => {},
        }
        assert(font_file(entries@[i as int]) ==> found);
        i += 1;
    }
    if !found {
        return Err(NO_FONTS_ERROR.to_owned());
    }
    Ok(())
}

/// Where a published font family stands: being checked, being restored
/// after a failed check (which `failure` holds), having the font cache
/// refreshed after the restore, or done.
pub enum PublicationStage {
    Checking,
    RollingBack(String),
    RefreshingAfterRollback(String),
    Finished,
}

pub enum PublicationStageView {
    Checking,
    RollingBack(Seq<char>),
    RefreshingAfterRollback(Seq<char>),
    Finished,
}

impl View for PublicationStage {
    type V = PublicationStageView;

    open spec fn view(&self) -> PublicationStageView {
        match self {
            PublicationStage::Checking => PublicationStageView::Checking,
            PublicationStage::RollingBack(e) => PublicationStageView::RollingBack(e@),
            PublicationStage::RefreshingAfterRollback(e) => PublicationStageView::RefreshingAfterRollback(e@),
            PublicationStage::Finished => PublicationStageView::Finished,
        }
    }
}

/// What follows a step of a publication.
pub enum PublicationAction {
    /// Restore the previous family (or remove the new one).
    RollBack,
    /// Refresh the font cache of the destination's directory.
    RefreshCache,
    /// Stop with this outcome.
    Finish(Result<(), String>),
}

pub enum PublicationActionView {
    RollBack,
    RefreshCache,
    Finish(Result<(), Seq<char>>),
}

impl View for PublicationAction {
    type V = PublicationActionView;

    open spec fn view(&self) -> PublicationActionView {
        match self {
            PublicationAction::RollBack => PublicationActionView::RollBack,
            PublicationAction::RefreshCache => PublicationActionView::RefreshCache,
            PublicationAction::Finish(Ok(())) => PublicationActionView::Finish(Ok(())),
            PublicationAction::Finish(Err(e)) => PublicationActionView::Finish(Err(e@)),
        }
    }
}

pub const ROLLBACK_FAILED: &'static str = "Nerd Font mutation failed and rollback failed: ";

pub const MUTATION_FAILED: &'static str = "Nerd Font mutation failed: ";

pub open spec fn outcome_view(r: Result<(), String>) -> Result<(), Seq<char>> {
    match r {
        Ok(()) => Ok(()),
        Err(e) => Err(e@),
    }
}

/// One step after a font family was published: a failed check (cache
/// refresh and presence) rolls the publication back and refreshes the
/// cache again; the error is the check's, wrapped where the rollback or
/// that refresh failed as well.
pub open spec fn publication_step(stage: PublicationStageView, outcome: Result<(), Seq<char>>) -> (PublicationStageView, PublicationActionView) {
    match stage {
        PublicationStageView::Checking => match outcome {
            Ok(()) => (PublicationStageView::Finished, PublicationActionView::Finish(Ok(()))),
            Err(e) => (PublicationStageView::RollingBack(e), PublicationActionView::RollBack),
        },
        PublicationStageView::RollingBack(e) => match outcome {
            Ok(()) => (PublicationStageView::RefreshingAfterRollback(e), PublicationActionView::RefreshCache),
            Err(_) => (PublicationStageView::Finished, PublicationActionView::Finish(Err(ROLLBACK_FAILED@ + e))),
        },
        PublicationStageView::RefreshingAfterRollback(e) => match outcome {
            Ok(()) => (PublicationStageView::Finished, PublicationActionView::Finish(Err(e))),
            Err(_) => (PublicationStageView::Finished, PublicationActionView::Finish(Err(MUTATION_FAILED@ + e))),
        },
        PublicationStageView::Finished => (PublicationStageView::Finished, PublicationActionView::Finish(outcome)),
    }
}

/// Decides what follows the outcome of the last action of a publication:
/// at `Checking`, the outcome of refreshing the cache and finding the family.
pub fn publication(stage: PublicationStage, outcome: Result<(), String>) -> (r: (PublicationStage, PublicationAction))
    ensures
        (r.0@, r.1@) == publication_step(stage@, outcome_view(outcome)),
{
    match stage {
        PublicationStage::Checking => match outcome {
            Ok(()) => (PublicationStage::Finished, PublicationAction::Finish(Ok(()))),
            Err(e) => (PublicationStage::RollingBack(e), PublicationAction::RollBack),
        },
        PublicationStage::RollingBack(e) => match outcome {
            Ok(()) => (PublicationStage::RefreshingAfterRollback(e), PublicationAction::RefreshCache),
            Err(_) => (PublicationStage::Finished, PublicationAction::Finish(Err(concat(ROLLBACK_FAILED, e.as_str())))),
        },
        PublicationStage::RefreshingAfterRollback(e) => match outcome {
            Ok(()) => (PublicationStage::Finished, PublicationAction::Finish(Err(e))),
            Err(_) => (PublicationStage::Finished, PublicationAction::Finish(Err(concat(MUTATION_FAILED, e.as_str())))),
        },
        PublicationStage::Finished => (PublicationStage::Finished, PublicationAction::Finish(outcome)),
    }
}

/// The actions of a publication whose check gives `checked`, whose
/// rollback gives `rolled_back` and whose later cache refresh gives
/// `refreshed`, for at most `steps` steps from `stage`.
pub open spec fn publication_run(
    stage: PublicationStageView,
    checked: Result<(), Seq<char>>,
    rolled_back: Result<(), Seq<char>>,
    refreshed: Result<(), Seq<char>>,
    steps: nat,
) -> Seq<PublicationActionView>
    decreases steps,
{
    if steps == 0 || stage == PublicationStageView::Finished {
        Seq::empty()
    } else {
        let outcome = match stage {
            PublicationStageView::Checking => checked,
            PublicationStageView::RollingBack(_) => rolled_back,
            _ => refreshed,
        };
        let (next, action) = publication_step(stage, outcome);
        seq![action] + publication_run(next, checked, rolled_back, refreshed, (steps - 1) as nat)
    }
}

/// A published family is rolled back exactly where its check fails, and
/// the cache is refreshed after a successful rollback; the publication
/// succeeds exactly where the check does, and otherwise fails with the
/// check's error (wrapped where the rollback or the refresh failed too).
pub proof fn lemma_publication_rolls_back_failures(
    checked: Result<(), Seq<char>>,
    rolled_back: Result<(), Seq<char>>,
    refreshed: Result<(), Seq<char>>,
)
    ensures
        publication_run(PublicationStageView::Checking, checked, rolled_back, refreshed, 3) == match checked {
            Ok(()) => seq![PublicationActionView::Finish(Ok(()))],
            Err(e) => match rolled_back {
                Err(_) => seq![PublicationActionView::RollBack, PublicationActionView::Finish(Err(ROLLBACK_FAILED@ + e))],
                Ok(()) => seq![
                    PublicationActionView::RollBack,
                    PublicationActionView::RefreshCache,
                    PublicationActionView::Finish(
                        match refreshed {
                            Ok(()) => Err(e),
                            Err(_) => Err(MUTATION_FAILED@ + e),
                        },
                    ),
                ],
            },
        },
{
    reveal_with_fuel(publication_run, 4);
    let run = publication_run(PublicationStageView::Checking, checked, rolled_back, refreshed, 3);
    match checked {
        Ok(()) => {
            assert(run =~= seq![PublicationActionView::Finish(Ok(()))]);
        },
        Err(e) => {
            let rest = publication_run(PublicationStageView::RollingBack(e), checked, rolled_back, refreshed, 2);
            match rolled_back {
                Err(_) => {
                    assert(rest =~= seq![PublicationActionView::Finish(Err(ROLLBACK_FAILED@ + e))]);
                },
                Ok(()) => {
                    let last = publication_run(PublicationStageView::RefreshingAfterRollback(e), checked, rolled_back, refreshed, 1);
                    assert(last.len() == 1);
                    assert(rest =~= seq![PublicationActionView::RefreshCache] + last);
                },
            }
        },
    }
}

} // verus!
