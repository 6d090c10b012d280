//! Initialization of the configuration root: the presets, and the record
//! of the files this tool manages there (`.managed-files`), one
//! `<sha256>\t<relative path>` line per file, sorted by path.
use vstd::prelude::*;
use crate::sorted::{less_pieces, lemma_pieces_irreflexive, lemma_pieces_total, lemma_pieces_transitive, pieces_less};
use crate::text::{
    all_chars, chars_of, concat, digit, first_index, first_index_of, is_digit, join_lines, lines,
    lines_of, slice_to_vec, split, split_chars, string_of, views,
};

verus! {

/// The starting configuration that `init` writes.
#[derive(Clone, Copy, Debug, PartialEq, Eq, Structural)]
pub enum Preset {
    Cozydot,
    Cli,
    Vm,
}

pub open spec fn preset_name(p: Preset) -> Seq<char> {
    match p {
        Preset::Cozydot => "cozydot"@,
        Preset::Cli => "cli"@,
        Preset::Vm => "vm"@,
    }
}

impl Preset {
    /// The preset's file among the bundled configurations.
    pub fn file_name(self) -> (r: String)
        ensures
            r@ == "configs/"@ + preset_name(self) + ".yaml"@,
    {
        let name = match self {
            Preset::Cozydot => "cozydot",
            Preset::Cli => "cli",
            Preset::Vm => "vm",
        };
        crate::text::concat3("configs/", name, ".yaml")
    }
}

/// The mode of a bundled file: executable where it starts with `#!`.
pub fn bundled_mode(bytes: &[u8]) -> (r: u32)
    ensures
        r == if bytes@.len() >= 2 && bytes@[0] == 0x23u8 && bytes@[1] == 0x21u8 { 0o755u32 } else { 0o644u32 },
{
    if bytes.len() >= 2 && bytes[0] == 0x23 && bytes[1] == 0x21 {
        0o755
    } else {
        0o644
    }
}

// ------------------------------------------------------------ paths and digests

pub open spec fn piece_kept(x: Seq<char>) -> bool {
    x.len() > 0 && x != "."@
}

pub open spec fn kept() -> spec_fn(Seq<char>) -> bool {
    |x: Seq<char>| piece_kept(x)
}

/// The components of a relative path, as `Path::components` yields them:
/// empty pieces and `.` pieces are dropped.
pub open spec fn path_key(p: Seq<char>) -> Seq<Seq<char>> {
    split(p, '/').filter(kept())
}

/// A path that names a file below the root: not empty, relative, every
/// component a plain name (no leading `.`, no `..`), and without a tab or
/// a newline.
pub open spec fn safe_relative(p: Seq<char>) -> bool {
    let pieces = split(p, '/');
    &&& p.len() > 0
    &&& !p.contains('\t')
    &&& !p.contains('\n')
    &&& p[0] != '/'
    &&& pieces[0] != "."@
    &&& forall|i: int| 0 <= i < pieces.len() ==> #[trigger] pieces[i] != ".."@
}

pub open spec fn is_hex_digit(c: char) -> bool {
    is_digit(c) || ('a' <= c && c <= 'f') || ('A' <= c && c <= 'F')
}

/// A SHA-256 digest in hexadecimal.
pub open spec fn valid_hash(h: Seq<char>) -> bool {
    h.len() == 64 && forall|k: int| 0 <= k < h.len() ==> is_hex_digit(#[trigger] h[k])
}

fn hash_ok(h: &[char]) -> (r: bool)
    ensures
        r == valid_hash(h@),
{
    let f = |c: char| -> (b: bool)
        ensures
            b == is_hex_digit(c),
        { digit(c) || ('a' <= c && c <= 'f') || ('A' <= c && c <= 'F') };
    h.len() == 64 && all_chars(h, f, Ghost(|c: char| is_hex_digit(c)))
}

fn safe_relative_exec(p: &Vec<char>) -> (r: bool)
    ensures
        r == safe_relative(p@),
{
    if p.len() == 0 || crate::text::contains_char(p, '\t') || crate::text::contains_char(p, '\n') || p[0] == '/' {
        return false;
    }
    let pieces = split_chars(p, '/');
    let ghost pv = split(p@, '/');
    assert(pv[0] == pieces@[0]@);
    if crate::text::eq_str(&pieces[0], ".") {
        return false;
    }
    let mut i: usize = 0;
    while i < pieces.len()
        invariant
            i <= pieces@.len(),
            views(pieces@) == pv,
            p@.len() > 0 && !p@.contains('\t') && !p@.contains('\n') && p@[0] != '/' && pv[0] != "."@,
            pv == split(p@, '/'),
            forall|k: int| 0 <= k < i ==> #[trigger] pv[k] != ".."@,
        decreases pieces@.len() - i,
    {
        assert(pv[i as int] == pieces@[i as int]@);
        if crate::text::eq_str(&pieces[i], "..") {
            return false;
        }
        i += 1;
    }
    true
}

/// The components of a path.
pub fn key_of(p: &Vec<char>) -> (r: Vec<Vec<char>>)
    ensures
        views(r@) == path_key(p@),
{
    let pieces = split_chars(p, '/');
    let ghost pv = split(p@, '/');
    let mut r: Vec<Vec<char>> = Vec::new();
    let mut i: usize = 0;
    proof {
        reveal(Seq::filter);
    }
    assert(pv.take(0).filter(kept()) =~= Seq::<Seq<char>>::empty());
    while i < pieces.len()
        invariant
            i <= pieces@.len(),
            views(pieces@) == pv,
            views(r@) == pv.take(i as int).filter(kept()),
        decreases pieces@.len() - i,
    {
        proof {
            reveal(Seq::filter);
        }
        assert(pv.take(i + 1).drop_last() =~= pv.take(i as int));
        assert(pv[i as int] == pieces@[i as int]@);
        let ghost before = views(r@);
        if pieces[i].len() > 0 && !crate::text::eq_str(&pieces[i], ".") {
            r.push(pieces[i].clone());
            assert(views(r@) =~= before.push(pv[i as int]));
        }
        i += 1;
    }
    assert(pv.take(i as int) =~= pv);
    r
}

// ------------------------------------------------------------ the record of managed files

/// A managed file: its path below the root and the digest of what was
/// written there.
#[derive(Debug)]
pub struct ManagedFile {
    pub relative: String,
    pub hash: String,
}

pub struct ManagedFileView {
    pub relative: Seq<char>,
    pub hash: Seq<char>,
}

impl View for ManagedFile {
    type V = ManagedFileView;

    open spec fn view(&self) -> ManagedFileView {
        ManagedFileView { relative: self.relative@, hash: self.hash@ }
    }
}

pub open spec fn file_views(fs: Seq<ManagedFile>) -> Seq<ManagedFileView> {
    fs.map_values(|f: ManagedFile| f@)
}

pub open spec fn record_hash(line: Seq<char>) -> Seq<char> {
    line.take(first_index(line, '\t')->0)
}

pub open spec fn record_path(line: Seq<char>) -> Seq<char> {
    line.skip(first_index(line, '\t')->0 + 1)
}

pub const MALFORMED_RECORD: &'static str = "malformed managed-files record";

pub const INVALID_HASH: &'static str = "invalid SHA-256 record";

pub const DUPLICATE_RECORD: &'static str = "duplicate managed-files record";

/// The record at `i`: a digest and a tab before a safe path that no
/// earlier record names (as components).
pub open spec fn record_check(ls: Seq<Seq<char>>, i: int) -> Result<(), Seq<char>> {
    let l = ls[i];
    if first_index(l, '\t') is None {
        Err(MALFORMED_RECORD@)
    } else if !valid_hash(record_hash(l)) {
        Err(INVALID_HASH@)
    } else if !safe_relative(record_path(l)) {
        Err("unsafe managed path: "@ + record_path(l))
    } else if exists|j: int| 0 <= j < i && #[trigger] path_key(record_path(ls[j])) == path_key(record_path(l)) {
        Err(DUPLICATE_RECORD@)
    } else {
        Ok(())
    }
}

/// The managed files that the record's text holds, line by line; an
/// error for the first line that is malformed, unsafe or repeated.
pub open spec fn manifest_result(text: Seq<char>) -> Result<Seq<ManagedFileView>, Seq<char>> {
    let ls = lines(text);
    match crate::text::first_error(Seq::new(ls.len(), |i: int| record_check(ls, i))) {
        Err(e) => Err(e),
        Ok(_) => Ok(ls.map_values(|l: Seq<char>| ManagedFileView { relative: record_path(l), hash: record_hash(l) })),
    }
}

fn repeated_key(keys: &Vec<Vec<Vec<char>>>, key: &Vec<Vec<char>>) -> (r: bool)
    ensures
        r == exists|k: int| 0 <= k < keys@.len() && #[trigger] views(keys@[k]@) == views(key@),
{
    let mut j: usize = 0;
    while j < keys.len()
        invariant
            j <= keys@.len(),
            forall|k: int| 0 <= k < j ==> #[trigger] views(keys@[k]@) != views(key@),
        decreases keys@.len() - j,
    {
        if !less_pieces(&keys[j], key) && !less_pieces(key, &keys[j]) {
            proof {
                let a = views(keys@[j as int]@);
                let b = views(key@);
                if a != b {
                    lemma_pieces_total(a, b);
                }
            }
            return true;
        }
        proof {
            lemma_pieces_irreflexive(views(key@));
        }
        j += 1;
    }
    false
}

/// Reads the record of managed files (an absent record holds none).
#[verifier::rlimit(30)]
pub fn read_manifest(text: &str) -> (r: Result<Vec<ManagedFile>, String>)
    ensures
        match r {
            Ok(fs) => manifest_result(text@) == Ok::<Seq<ManagedFileView>, Seq<char>>(file_views(fs@)),
            Err(e) => manifest_result(text@) == Err::<Seq<ManagedFileView>, Seq<char>>(e@),
        },
{
    let ls = lines_of(&chars_of(text));
    let ghost lv = lines(text@);
    let ghost cs = Seq::new(lv.len(), |i: int| record_check(lv, i));
    let mut files: Vec<ManagedFile> = Vec::new();
    let mut keys: Vec<Vec<Vec<char>>> = Vec::new();
    let mut i: usize = 0;
    assert(cs.take(0) =~= Seq::<Result<(), Seq<char>>>::empty());
    while i < ls.len()
        invariant
            i <= ls@.len(),
            views(ls@) == lv,
            lv == lines(text@),
            cs == Seq::new(lv.len(), |i: int| record_check(lv, i)),
            crate::text::first_error(cs.take(i as int)) is Ok,
            files@.len() == i,
            keys@.len() == i,
            forall|k: int| 0 <= k < i ==> (#[trigger] file_views(files@)[k]) == (ManagedFileView { relative: record_path(lv[k]), hash: record_hash(lv[k]) }),
            forall|k: int| 0 <= k < i ==> views(#[trigger] keys@[k]@) == path_key(record_path(lv[k])),
        decreases ls@.len() - i,
    {
        proof {
            crate::text::lemma_first_error_step(cs, i as int);
        }
        let line = &ls[i];
        assert(lv[i as int] == line@);
        let tab = match first_index_of(line, '\t') {
            None => {
                proof {
                    crate::text::lemma_first_error_stop(cs, i + 1);
                }
                return Err(MALFORMED_RECORD.to_owned());
            },
            Some(k) => k,
        };
        let n = line.len();
        assert(tab < n);
        let hash = slice_to_vec(line, 0, tab);
        let relative = slice_to_vec(line, tab + 1, n);
        assert(hash@ =~= record_hash(line@));
        assert(relative@ =~= record_path(line@));
        if !hash_ok(&hash) {
            proof {
                crate::text::lemma_first_error_stop(cs, i + 1);
            }
            return Err(INVALID_HASH.to_owned());
        }
        if !safe_relative_exec(&relative) {
            proof {
                crate::text::lemma_first_error_stop(cs, i + 1);
            }
            return Err(concat("unsafe managed path: ", string_of(&relative).as_str()));
        }
        let key = key_of(&relative);
        if repeated_key(&keys, &key) {
            proof {
                let k = choose|k: int| 0 <= k < keys@.len() && #[trigger] views(keys@[k]@) == views(key@);
                assert(path_key(record_path(lv[k])) == path_key(record_path(lv[i as int])));
                crate::text::lemma_first_error_stop(cs, i + 1);
            }
            return Err(DUPLICATE_RECORD.to_owned());
        }
        proof {
            if exists|k: int| 0 <= k < i && #[trigger] path_key(record_path(lv[k])) == path_key(record_path(lv[i as int])) {
                let k = choose|k: int| 0 <= k < i && #[trigger] path_key(record_path(lv[k])) == path_key(record_path(lv[i as int]));
                assert(views(keys@[k]@) == views(key@));
            }
        }
        let ghost before = file_views(files@);
        let file = ManagedFile { relative: string_of(&relative), hash: string_of(&hash) };
        files.push(file);
        keys.push(key);
        assert(file_views(files@) =~= before.push(file_views(files@)[i as int]));
        i += 1;
    }
    proof {
        crate::text::lemma_first_error_whole(cs);
    }
    assert(file_views(files@) =~= lv.map_values(|l: Seq<char>| ManagedFileView { relative: record_path(l), hash: record_hash(l) }));
    Ok(files)
}

pub open spec fn file_key(f: ManagedFileView) -> Seq<Seq<char>> {
    path_key(f.relative)
}

/// Files in ascending order of their paths' components, each path once.
pub open spec fn sorted_by_key(fs: Seq<ManagedFileView>) -> bool {
    forall|i: int, j: int| 0 <= i < j < fs.len() ==> pieces_less(file_key(#[trigger] fs[i]), file_key(#[trigger] fs[j]))
}

/// No two files name the same path (as components).
pub open spec fn distinct_keys(fs: Seq<ManagedFileView>) -> bool {
    forall|i: int, j: int| 0 <= i < fs.len() && 0 <= j < fs.len() && i != j ==> file_key(#[trigger] fs[i]) != file_key(#[trigger] fs[j])
}

/// `sorted` holds the files of `fs`, in ascending order.
pub open spec fn sorted_files_of(sorted: Seq<ManagedFileView>, fs: Seq<ManagedFileView>) -> bool {
    &&& sorted_by_key(sorted)
    &&& sorted.len() == fs.len()
    &&& forall|f: ManagedFileView| sorted.contains(f) <==> fs.contains(f)
}

fn file_key_of(f: &ManagedFile) -> (r: Vec<Vec<char>>)
    ensures
        views(r@) == file_key(f@),
{
    key_of(&chars_of(f.relative.as_str()))
}

fn insert_by_key(sorted: &mut Vec<ManagedFile>, item: ManagedFile)
    requires
        sorted_by_key(file_views(old(sorted)@)),
        forall|k: int| 0 <= k < old(sorted)@.len() ==> file_key(#[trigger] file_views(old(sorted)@)[k]) != file_key(item@),
    ensures
        sorted_by_key(file_views(final(sorted)@)),
        final(sorted)@.len() == old(sorted)@.len() + 1,
        forall|f: ManagedFileView| file_views(final(sorted)@).contains(f) <==> (file_views(old(sorted)@).contains(f) || f == item@),
{
    let ghost before = file_views(sorted@);
    let ghost ik = file_key(item@);
    let x = file_key_of(&item);
    let mut k: usize = 0;
    while k < sorted.len()
        invariant
            k <= sorted@.len(),
            before == file_views(sorted@),
            views(x@) == ik,
            ik == file_key(item@),
            forall|m: int| 0 <= m < sorted@.len() ==> file_key(#[trigger] before[m]) != ik,
            forall|m: int| 0 <= m < k ==> pieces_less(file_key(#[trigger] before[m]), ik),
        ensures
            k <= before.len(),
            forall|m: int| 0 <= m < k ==> pieces_less(file_key(#[trigger] before[m]), ik),
            k < before.len() ==> pieces_less(ik, file_key(before[k as int])),
        decreases sorted@.len() - k,
    {
        let current = file_key_of(&sorted[k]);
        assert(before[k as int] == sorted@[k as int]@);
        if less_pieces(&x, &current) {
            break;
        }
        proof {
            lemma_pieces_total(file_key(before[k as int]), ik);
        }
        k += 1;
    }
    let ghost iv = item@;
    sorted.insert(k, item);
    let ghost after = file_views(sorted@);
    assert(after =~= before.insert(k as int, iv));
    assert forall|i: int, j: int| 0 <= i < j < after.len() implies pieces_less(file_key(#[trigger] after[i]), file_key(#[trigger] after[j])) by {
        if j < k {
            assert(after[i] == before[i] && after[j] == before[j]);
        } else if j == k {
            assert(after[j] == iv);
            assert(after[i] == before[i]);
        } else if i == k {
            assert(after[i] == iv);
            assert(after[j] == before[j - 1]);
            if j - 1 > k {
                lemma_pieces_transitive(ik, file_key(before[k as int]), file_key(before[j - 1]));
            }
        } else if i < k {
            assert(after[i] == before[i] && after[j] == before[j - 1]);
            if k < before.len() {
                lemma_pieces_transitive(file_key(before[i]), ik, file_key(before[k as int]));
                if j - 1 > k {
                    lemma_pieces_transitive(file_key(before[i]), file_key(before[k as int]), file_key(before[j - 1]));
                }
            }
        } else {
            assert(after[i] == before[i - 1] && after[j] == before[j - 1]);
        }
    }
    assert forall|f: ManagedFileView| after.contains(f) <==> (before.contains(f) || f == iv) by {
        if after.contains(f) {
            let m = choose|m: int| 0 <= m < after.len() && after[m] == f;
            if m < k {
                assert(before[m] == f);
            } else if m > k {
                assert(before[m - 1] == f);
            }
        }
        if before.contains(f) {
            let m = choose|m: int| 0 <= m < before.len() && before[m] == f;
            if m < k {
                assert(after[m] == f);
            } else {
                assert(after[m + 1] == f);
            }
        }
        if f == iv {
            assert(after[k as int] == f);
        }
    }
}

fn copy_file(f: &ManagedFile) -> (r: ManagedFile)
    ensures
        r@ == f@,
{
    ManagedFile {
        relative: string_of(&chars_of(f.relative.as_str())),
        hash: string_of(&chars_of(f.hash.as_str())),
    }
}

/// The files in ascending order of their paths, as a `BTreeMap` keyed by
/// path walks them.
pub fn sort_by_key(files: &Vec<ManagedFile>) -> (r: Vec<ManagedFile>)
    requires
        distinct_keys(file_views(files@)),
    ensures
        sorted_files_of(file_views(r@), file_views(files@)),
{
    let ghost fv = file_views(files@);
    let mut sorted: Vec<ManagedFile> = Vec::new();
    let mut i: usize = 0;
    while i < files.len()
        invariant
            i <= files@.len(),
            fv == file_views(files@),
            distinct_keys(fv),
            sorted@.len() == i,
            sorted_by_key(file_views(sorted@)),
            forall|f: ManagedFileView| file_views(sorted@).contains(f) <==> fv.take(i as int).contains(f),
        decreases files@.len() - i,
    {
        let f = copy_file(&files[i]);
        let ghost g = f@;
        assert(g == fv[i as int]);
        proof {
            assert forall|k: int| 0 <= k < sorted@.len() implies file_key(#[trigger] file_views(sorted@)[k]) != file_key(g) by {
                let h = file_views(sorted@)[k];
                assert(file_views(sorted@).contains(h));
                assert(fv.take(i as int).contains(h));
                let q = choose|q: int| 0 <= q < i && #[trigger] fv.take(i as int)[q] == h;
                assert(fv[q] == h);
            }
        }
        insert_by_key(&mut sorted, f);
        proof {
            let prev = fv.take(i as int);
            let next = fv.take(i + 1);
            assert(next =~= prev.push(g));
            assert forall|h: ManagedFileView| file_views(sorted@).contains(h) <==> next.contains(h) by {
                if next.contains(h) {
                    let q = choose|q: int| 0 <= q < next.len() && #[trigger] next[q] == h;
                    if q < i {
                        assert(prev[q] == h);
                    }
                }
                if prev.contains(h) {
                    let q = choose|q: int| 0 <= q < prev.len() && #[trigger] prev[q] == h;
                    assert(next[q] == h);
                }
                if h == g {
                    assert(next[i as int] == h);
                }
            }
        }
        i += 1;
    }
    assert(fv.take(i as int) =~= fv);
    sorted
}

/// The line that records a managed file.
pub open spec fn record_line(f: ManagedFileView) -> Seq<char> {
    f.hash + "\t"@ + f.relative
}

pub open spec fn manifest_text(fs: Seq<ManagedFileView>) -> Seq<char> {
    join_lines(fs.map_values(|f: ManagedFileView| record_line(f)))
}

/// The text of the record of managed files: one line per file, in
/// ascending order of their paths.
pub fn write_manifest(files: &Vec<ManagedFile>) -> (r: String)
    requires
        distinct_keys(file_views(files@)),
    ensures
        exists|sorted: Seq<ManagedFileView>| sorted_files_of(sorted, file_views(files@)) && r@ == manifest_text(sorted),
{
    let sorted = sort_by_key(files);
    let ghost sv = file_views(sorted@);
    let mut r = String::new();
    let mut i: usize = 0;
    proof {
        reveal_strlit("\t");
        reveal_strlit("\n");
    }
    assert(r@ =~= manifest_text(sv.take(0)));
    while i < sorted.len()
        invariant
            i <= sorted@.len(),
            sv == file_views(sorted@),
            r@ == manifest_text(sv.take(i as int)),
            "\t"@ == seq!['\t'],
            "\n"@ == seq!['\n'],
        decreases sorted@.len() - i,
    {
        let ghost prefix = sv.take(i as int);
        r.append(sorted[i].hash.as_str());
        r.append("\t");
        r.append(sorted[i].relative.as_str());
        r.append("\n");
        i += 1;
        proof {
            let ls = sv.take(i as int).map_values(|f: ManagedFileView| record_line(f));
            assert(ls.drop_last() =~= prefix.map_values(|f: ManagedFileView| record_line(f)));
            assert(ls.last() == record_line(sv[i - 1]));
            assert(r@ =~= manifest_text(sv.take(i as int)));
        }
    }
    assert(sv.take(i as int) =~= sv);
    r
}

proof fn lemma_first_error_all_ok(cs: Seq<Result<(), Seq<char>>>)
    requires
        forall|i: int| 0 <= i < cs.len() ==> #[trigger] cs[i] is Ok,
    ensures
        crate::text::first_error(cs) is Ok,
    decreases cs.len(),
{
    if cs.len() > 0 {
        assert forall|i: int| 0 <= i < cs.drop_last().len() implies #[trigger] cs.drop_last()[i] is Ok by {
            assert(cs.drop_last()[i] == cs[i]);
        }
        lemma_first_error_all_ok(cs.drop_last());
        assert(cs.last() == cs[cs.len() - 1]);
    }
}

/// A file that the record can hold and give back: a digest, and a safe
/// path that does not end with a carriage return (which reading a line
/// drops).
pub open spec fn recordable(f: ManagedFileView) -> bool {
    valid_hash(f.hash) && safe_relative(f.relative) && f.relative.last() != '\r'
}

proof fn lemma_record_line(f: ManagedFileView)
    requires
        recordable(f),
    ensures
        !record_line(f).contains('\n'),
        strip_cr_of(record_line(f)) == record_line(f),
        first_index(record_line(f), '\t') == Some(f.hash.len() as int),
        record_hash(record_line(f)) == f.hash,
        record_path(record_line(f)) == f.relative,
{
    reveal_strlit("\t");
    let l = record_line(f);
    let n = f.hash.len() as int;
    assert(l.len() == n + 1 + f.relative.len());
    assert forall|k: int| 0 <= k < n implies #[trigger] l[k] == f.hash[k] && l[k] != '\t' && l[k] != '\n' by {
        assert(is_hex_digit(f.hash[k]));
    }
    assert(l[n] == '\t');
    assert forall|k: int| n < k < l.len() implies #[trigger] l[k] == f.relative[k - n - 1] by {}
    assert(!l.contains('\n')) by {
        if l.contains('\n') {
            let k = choose|k: int| 0 <= k < l.len() && l[k] == '\n';
            if k > n {
                assert(f.relative[k - n - 1] == '\n');
                assert(f.relative.contains('\n'));
            }
        }
    }
    assert(l.last() == f.relative.last());
    assert(l.contains('\t'));
    let c = choose|k: int| 0 <= k < l.len() && l[k] == '\t' && forall|j: int| 0 <= j < k ==> l[j] != '\t';
    if c < n {
        assert(l[c] != '\t');
    } else if c > n {
        assert(l[n] != '\t');
    }
    assert(first_index(l, '\t') == Some(n));
    assert(record_hash(l) =~= f.hash);
    assert(record_path(l) =~= f.relative);
}

pub open spec fn strip_cr_of(l: Seq<char>) -> Seq<char> {
    crate::text::strip_cr(l)
}

/// Reading the record gives back what writing it wrote: the files, in
/// ascending order of their paths.
pub proof fn lemma_manifest_round_trip(fs: Seq<ManagedFileView>)
    requires
        sorted_by_key(fs),
        forall|i: int| 0 <= i < fs.len() ==> recordable(#[trigger] fs[i]),
    ensures
        manifest_result(manifest_text(fs)) == Ok::<Seq<ManagedFileView>, Seq<char>>(fs),
{
    let ls = fs.map_values(|f: ManagedFileView| record_line(f));
    assert forall|i: int| 0 <= i < ls.len() implies !(#[trigger] ls[i]).contains('\n') by {
        lemma_record_line(fs[i]);
    }
    crate::text::lemma_split_join_lines(ls, Seq::empty());
    assert(join_lines(ls) + Seq::<char>::empty() =~= join_lines(ls));
    let text = manifest_text(fs);
    let parts = split(text, '\n');
    assert(parts == ls.push(Seq::<char>::empty()));
    assert(parts.drop_last() =~= ls);
    assert(lines(text) =~= ls) by {
        assert forall|i: int| 0 <= i < ls.len() implies #[trigger] crate::text::strip_cr(ls[i]) == ls[i] by {
            lemma_record_line(fs[i]);
        }
        assert(ls.map_values(crate::text::strip_cr_fn()) =~= ls);
    }
    let cs = Seq::new(ls.len(), |i: int| record_check(ls, i));
    assert forall|i: int| 0 <= i < cs.len() implies #[trigger] cs[i] is Ok by {
        lemma_record_line(fs[i]);
        assert(ls[i] == record_line(fs[i]));
        if exists|j: int| 0 <= j < i && #[trigger] path_key(record_path(ls[j])) == path_key(record_path(ls[i])) {
            let j = choose|j: int| 0 <= j < i && #[trigger] path_key(record_path(ls[j])) == path_key(record_path(ls[i]));
            lemma_record_line(fs[j]);
            assert(ls[j] == record_line(fs[j]));
            assert(pieces_less(file_key(fs[j]), file_key(fs[i])));
            lemma_pieces_irreflexive(file_key(fs[i]));
        }
    }
    lemma_first_error_all_ok(cs);
    let read = ls.map_values(|l: Seq<char>| ManagedFileView { relative: record_path(l), hash: record_hash(l) });
    assert forall|i: int| 0 <= i < fs.len() implies #[trigger] read[i] == fs[i] by {
        lemma_record_line(fs[i]);
        assert(ls[i] == record_line(fs[i]));
    }
    assert(read =~= fs);
}

/// What `write_manifest` writes of recordable files with distinct paths
/// reads back as those files, each once, in ascending order of their paths.
pub proof fn lemma_write_then_read(fs: Seq<ManagedFileView>, sorted: Seq<ManagedFileView>)
    requires
        forall|i: int| 0 <= i < fs.len() ==> recordable(#[trigger] fs[i]),
        sorted_files_of(sorted, fs),
    ensures
        manifest_result(manifest_text(sorted)) == Ok::<Seq<ManagedFileView>, Seq<char>>(sorted),
{
    assert forall|i: int| 0 <= i < sorted.len() implies recordable(#[trigger] sorted[i]) by {
        assert(sorted.contains(sorted[i]));
        assert(fs.contains(sorted[i]));
        let k = choose|k: int| 0 <= k < fs.len() && fs[k] == sorted[i];
        assert(recordable(fs[k]));
    }
    lemma_manifest_round_trip(sorted);
}


// ------------------------------------------------------------ syncing the presets

/// Whether the preset is written to `cozydot.yaml`: where nothing is there,
/// or where a regular file is there whose digest (where it could be read) is
/// the one recorded for it, so that the user did not change it.
pub open spec fn config_write_of(missing: bool, is_file: bool, current: Option<Seq<char>>, recorded: Option<Seq<char>>) -> bool {
    missing || (is_file && recorded is Some && current == recorded)
}

pub fn config_should_write(missing: bool, is_file: bool, current: Option<&str>, recorded: Option<&str>) -> (r: bool)
    ensures
        r == config_write_of(
            missing,
            is_file,
            match current { Some(c) => Some(c@), None => None },
            match recorded { Some(c) => Some(c@), None => None },
        ),
{
    if missing {
        return true;
    }
    match (current, recorded) {
        (Some(c), Some(h)) => is_file && crate::text::eq_chars(&chars_of(c), &chars_of(h)),
        (None, Some(_)) => false,
        (_, None) => false,
    }
}

/// Whether a managed path lies below the package (its components extend the
/// package's).
pub open spec fn below(package: Seq<Seq<char>>, p: Seq<char>) -> bool {
    package.len() < path_key(p).len() && path_key(p).take(package.len() as int) == package
}

/// What is at a bundled dotfiles package's directory.
#[derive(Debug)]
pub enum PackageState {
    Missing,
    NotDirectory,
    /// A directory: the regular files below it (relative to the root), or
    /// `None` where something below it is neither a directory nor a regular
    /// file; and for each managed file the digest of what is there now,
    /// where it could be read.
    Directory { real_files: Option<Vec<String>>, current: Vec<Option<String>> },
}

pub open spec fn opt_views(v: Seq<Option<String>>) -> Seq<Option<Seq<char>>> {
    v.map_values(|o: Option<String>| match o { Some(s) => Some(s@), None => None })
}

/// Whether the bundled package may be synced again: the user has not
/// changed it. Missing, it must have no managed files; else it must be a
/// directory with managed files, holding exactly the managed files below
/// it, each with its recorded digest.
pub open spec fn package_unmodified_of(
    package: Seq<Seq<char>>,
    managed: Seq<ManagedFileView>,
    missing: bool,
    is_dir: bool,
    found_files: Option<Seq<Seq<char>>>,
    current: Seq<Option<Seq<char>>>,
) -> bool {
    let any = exists|i: int| 0 <= i < managed.len() && below(package, #[trigger] managed[i].relative);
    if missing {
        !any
    } else if !is_dir || !any {
        false
    } else {
        match found_files {
            None => false,
            Some(files) => {
                &&& forall|k: int| 0 <= k < files.len() ==> exists|i: int| 0 <= i < managed.len()
                    && below(package, managed[i].relative) && path_key(managed[i].relative) == path_key(#[trigger] files[k])
                &&& forall|i: int| 0 <= i < managed.len() && below(package, #[trigger] managed[i].relative) ==> exists|k: int|
                    0 <= k < files.len() && path_key(managed[i].relative) == path_key(files[k])
                &&& forall|i: int| 0 <= i < managed.len() && below(package, #[trigger] managed[i].relative) ==> current[i] == Some(managed[i].hash)
            },
        }
    }
}

fn eq_keys(a: &Vec<Vec<char>>, b: &Vec<Vec<char>>) -> (r: bool)
    ensures
        r == (views(a@) == views(b@)),
{
    if a.len() != b.len() {
        assert(views(a@).len() != views(b@).len());
        return false;
    }
    let mut i: usize = 0;
    while i < a.len()
        invariant
            a@.len() == b@.len(),
            i <= a@.len(),
            forall|j: int| 0 <= j < i ==> a@[j]@ == b@[j]@,
        decreases a@.len() - i,
    {
        if !crate::text::eq_chars(&a[i], &b[i]) {
            assert(views(a@)[i as int] != views(b@)[i as int]);
            return false;
        }
        i += 1;
    }
    assert(views(a@) =~= views(b@));
    true
}

fn below_exec(package: &Vec<Vec<char>>, key: &Vec<Vec<char>>) -> (r: bool)
    ensures
        r == (views(package@).len() < views(key@).len() && views(key@).take(package@.len() as int) == views(package@)),
{
    if package.len() >= key.len() {
        return false;
    }
    let mut i: usize = 0;
    while i < package.len()
        invariant
            package@.len() < key@.len(),
            i <= package@.len(),
            forall|j: int| 0 <= j < i ==> package@[j]@ == key@[j]@,
        decreases package@.len() - i,
    {
        if !crate::text::eq_chars(&package[i], &key[i]) {
            assert(views(key@).take(package@.len() as int)[i as int] != views(package@)[i as int]);
            return false;
        }
        i += 1;
    }
    assert(views(key@).take(package@.len() as int) =~= views(package@));
    true
}

/// Whether the bundled package whose path is `package` (its first two
/// components) is unmodified (`package_unmodified_of`).
#[verifier::loop_isolation(false)]
#[verifier::rlimit(60)]
pub fn package_unmodified(package: &str, managed: &Vec<ManagedFile>, state: &PackageState) -> (r: bool)
    requires
        state matches PackageState::Directory { current, .. } ==> current@.len() == managed@.len(),
    ensures
        r == package_unmodified_of(
            path_key(package@),
            file_views(managed@),
            state is Missing,
            state is Directory,
            match state { PackageState::Directory { real_files: Some(fs), .. } => Some(views_of_strings(fs@)), _ => None },
            match state { PackageState::Directory { current, .. } => opt_views(current@), _ => Seq::empty() },
        ),
{
    let pkg = key_of(&chars_of(package));
    let ghost pk = path_key(package@);
    let ghost ms = file_views(managed@);
    // which managed files lie below the package
    let mut under: Vec<bool> = Vec::new();
    let mut keys: Vec<Vec<Vec<char>>> = Vec::new();
    let mut any = false;
    let mut i: usize = 0;
    while i < managed.len()
        invariant
            i <= managed@.len(),
            ms == file_views(managed@),
            views(pkg@) == pk,
            under@.len() == i,
            keys@.len() == i,
            forall|j: int| 0 <= j < i ==> views(#[trigger] keys@[j]@) == path_key(ms[j].relative),
            forall|j: int| 0 <= j < i ==> under@[j] == below(pk, #[trigger] ms[j].relative),
            any == exists|j: int| 0 <= j < i && below(pk, #[trigger] ms[j].relative),
        decreases managed@.len() - i,
    {
        let key = key_of(&chars_of(managed[i].relative.as_str()));
        assert(ms[i as int].relative == managed@[i as int].relative@);
        let b = below_exec(&pkg, &key);
        under.push(b);
        keys.push(key);
        if b {
            any = true;
        }
        i += 1;
    }
    match state {
        PackageState::Missing => !any,
        PackageState::NotDirectory => false,
        PackageState::Directory { real_files, current } => {
            if !any {
                return false;
            }
            let files = match real_files {
                None => {
                    return false;
                },
                Some(fs) => fs,
            };
            let ghost fv = views_of_strings(files@);
            // every real file is a managed file below the package
            let mut k: usize = 0;
            while k < files.len()
                invariant
                    k <= files@.len(),
                    fv == views_of_strings(files@),
                    ms == file_views(managed@),
                    under@.len() == managed@.len(),
                    keys@.len() == managed@.len(),
                    forall|j: int| 0 <= j < managed@.len() ==> views(#[trigger] keys@[j]@) == path_key(ms[j].relative),
                    forall|j: int| 0 <= j < managed@.len() ==> under@[j] == below(pk, #[trigger] ms[j].relative),
                    forall|q: int| 0 <= q < k ==> exists|i: int| 0 <= i < ms.len()
                        && below(pk, ms[i].relative) && path_key(ms[i].relative) == path_key(#[trigger] fv[q]),
                decreases files@.len() - k,
            {
                let fk = key_of(&chars_of(files[k].as_str()));
                assert(fv[k as int] == files@[k as int]@);
                let mut found = false;
                let mut j: usize = 0;
                while j < managed.len() && !found
                    invariant
                        j <= managed@.len(),
                        k < files@.len(),
                        fv == views_of_strings(files@),
                        ms == file_views(managed@),
                        under@.len() == managed@.len(),
                        keys@.len() == managed@.len(),
                        views(fk@) == path_key(fv[k as int]),
                        forall|q: int| 0 <= q < managed@.len() ==> views(#[trigger] keys@[q]@) == path_key(ms[q].relative),
                        forall|q: int| 0 <= q < managed@.len() ==> under@[q] == below(pk, #[trigger] ms[q].relative),
                        found ==> exists|i: int| 0 <= i < ms.len()
                            && below(pk, ms[i].relative) && path_key(ms[i].relative) == path_key(fv[k as int]),
                        !found ==> forall|q: int| 0 <= q < j ==> !(below(pk, #[trigger] ms[q].relative)
                            && path_key(ms[q].relative) == path_key(fv[k as int])),
                    decreases managed@.len() - j + (if found { 0int } else { 1int }),
                {
                    if under[j] && eq_keys(&keys[j], &fk) {
                        assert(below(pk, ms[j as int].relative) && path_key(ms[j as int].relative) == path_key(fv[k as int]));
                        found = true;
                    } else {
                        assert(views(keys@[j as int]@) == path_key(ms[j as int].relative));
                        assert(under@[j as int] == below(pk, ms[j as int].relative));
                        j += 1;
                    }
                }
                if !found {
                    assert(!(exists|i: int| 0 <= i < ms.len()
                        && below(pk, ms[i].relative) && path_key(ms[i].relative) == path_key(fv[k as int])));
                    return false;
                }
                k += 1;
            }
            // every managed file below the package is a real file with its digest
            let mut i: usize = 0;
            while i < managed.len()
                invariant
                    i <= managed@.len(),
                    fv == views_of_strings(files@),
                    ms == file_views(managed@),
                    current@.len() == managed@.len(),
                    under@.len() == managed@.len(),
                    keys@.len() == managed@.len(),
                    forall|j: int| 0 <= j < managed@.len() ==> views(#[trigger] keys@[j]@) == path_key(ms[j].relative),
                    forall|j: int| 0 <= j < managed@.len() ==> under@[j] == below(pk, #[trigger] ms[j].relative),
                    forall|q: int| 0 <= q < i && below(pk, #[trigger] ms[q].relative) ==> exists|k: int|
                        0 <= k < fv.len() && path_key(ms[q].relative) == path_key(fv[k]),
                    forall|q: int| 0 <= q < i && below(pk, #[trigger] ms[q].relative) ==> opt_views(current@)[q] == Some(ms[q].hash),
                decreases managed@.len() - i,
            {
                if under[i] {
                    let hash_ok = match &current[i] {
                        Some(h) => crate::text::eq_chars(&chars_of(h.as_str()), &chars_of(managed[i].hash.as_str())),
                        None => false,
                    };
                    assert(opt_views(current@)[i as int] == match current@[i as int] { Some(s) => Some(s@), None => None::<Seq<char>> });
                    if !hash_ok {
                        assert(ms[i as int].hash == managed@[i as int].hash@);
                        assert(below(pk, ms[i as int].relative));
                        assert(opt_views(current@)[i as int] != Some(ms[i as int].hash));
                        return false;
                    }
                    let mut found = false;
                    let mut k: usize = 0;
                    while k < files.len() && !found
                        invariant
                            k <= files@.len(),
                            i < managed@.len(),
                            fv == views_of_strings(files@),
                            keys@.len() == managed@.len(),
                            views(keys@[i as int]@) == path_key(ms[i as int].relative),
                            found ==> exists|k: int| 0 <= k < fv.len() && path_key(ms[i as int].relative) == path_key(fv[k]),
                            !found ==> forall|q: int| 0 <= q < k ==> path_key(ms[i as int].relative) != path_key(#[trigger] fv[q]),
                        decreases files@.len() - k + (if found { 0int } else { 1int }),
                    {
                        let fk = key_of(&chars_of(files[k].as_str()));
                        assert(fv[k as int] == files@[k as int]@);
                        if eq_keys(&keys[i], &fk) {
                            found = true;
                        } else {
                            assert(path_key(ms[i as int].relative) != path_key(fv[k as int]));
                            k += 1;
                        }
                    }
                    if !found {
                        assert(below(pk, ms[i as int].relative));
                        return false;
                    }
                    assert(ms[i as int].hash == managed@[i as int].hash@);
                }
                i += 1;
            }
            true
        },
    }
}

pub open spec fn views_of_strings(v: Seq<String>) -> Seq<Seq<char>> {
    v.map_values(|s: String| s@)
}

} // verus!
