//! The source files that `find -print0` reports under `/etc/apt`: each path
//! decoded, checked and kept once, in the order of their paths.
use vstd::prelude::*;
use crate::paths::{file_name_of, path_file_name, paths_equal, same_path};
use crate::sorted::{less_text, text_less};
use crate::text::{chars_of, string_views, utf8_text};
use super::{source_path_check, validate_source_path};

verus! {

pub const NON_UTF8_PATH_ERROR: &'static str = "managed APT source discovery returned a non-UTF-8 path";

pub const DUPLICATE_PATH_ERROR: &'static str = "managed APT source discovery returned a duplicate path";

pub const MAIN_SOURCE_LIST: &'static str = "/etc/apt/sources.list";

/// The pieces of `bytes` between NUL bytes, in order, empty ones included
/// (one empty piece for no bytes).
pub open spec fn nul_pieces(bytes: Seq<u8>) -> Seq<Seq<u8>>
    decreases bytes.len(),
{
    if bytes.len() == 0 {
        seq![Seq::empty()]
    } else {
        let before = nul_pieces(bytes.drop_last());
        if bytes.last() == 0 {
            before.push(Seq::empty())
        } else {
            before.update(before.len() - 1, before.last().push(bytes.last()))
        }
    }
}

proof fn lemma_nul_pieces_nonempty(bytes: Seq<u8>)
    ensures
        nul_pieces(bytes).len() >= 1,
    decreases bytes.len(),
{
    if bytes.len() > 0 {
        lemma_nul_pieces_nonempty(bytes.drop_last());
    }
}

/// The paths kept so far and one more piece: an empty piece is skipped; a
/// piece must be UTF-8, pass `source_path_check` and not name a path kept
/// already.
pub open spec fn piece_step(kept: Seq<Seq<char>>, piece: Seq<u8>) -> Result<Seq<Seq<char>>, Seq<char>> {
    if piece.len() == 0 {
        Ok(kept)
    } else if !vstd::utf8::valid_utf8(piece) {
        Err(NON_UTF8_PATH_ERROR@)
    } else {
        let path = vstd::utf8::decode_utf8(piece);
        match source_path_check(path) {
            Err(e) => Err(e),
            Ok(_) => if exists|k: int| 0 <= k < kept.len() && paths_equal(#[trigger] kept[k], path) {
                Err(DUPLICATE_PATH_ERROR@)
            } else {
                Ok(kept.push(path))
            },
        }
    }
}

/// The paths of the pieces, in the order found, or the first error.
pub open spec fn accepted_pieces(pieces: Seq<Seq<u8>>) -> Result<Seq<Seq<char>>, Seq<char>>
    decreases pieces.len(),
{
    if pieces.len() == 0 {
        Ok(Seq::empty())
    } else {
        match accepted_pieces(pieces.drop_last()) {
            Err(e) => Err(e),
            Ok(kept) => piece_step(kept, pieces.last()),
        }
    }
}

/// Where a path stands in the order: the main source list first, then the
/// files of the source directory by name. On the paths that the check
/// accepts, kept once each, this is the order of `std::path::Path`.
pub open spec fn source_key(path: Seq<char>) -> Seq<char> {
    if paths_equal(path, MAIN_SOURCE_LIST@) {
        Seq::empty()
    } else {
        match path_file_name(path) {
            Some(name) => name,
            None => Seq::empty(),
        }
    }
}

/// `path` put into the sorted `sorted` after every path whose key is not
/// above its own.
pub open spec fn insert_by_key(sorted: Seq<Seq<char>>, path: Seq<char>) -> Seq<Seq<char>>
    decreases sorted.len(),
{
    if sorted.len() == 0 {
        seq![path]
    } else if text_less(source_key(path), source_key(sorted[0])) {
        seq![path] + sorted
    } else {
        seq![sorted[0]] + insert_by_key(sorted.drop_first(), path)
    }
}

/// The paths sorted by key, equal keys in the order found.
pub open spec fn sort_by_key(paths: Seq<Seq<char>>) -> Seq<Seq<char>>
    decreases paths.len(),
{
    if paths.len() == 0 {
        Seq::empty()
    } else {
        insert_by_key(sort_by_key(paths.drop_last()), paths.last())
    }
}

/// What `discovered_source_paths` gives for the output of the discovery.
pub open spec fn discovered(output: Seq<u8>) -> Result<Seq<Seq<char>>, Seq<char>> {
    match accepted_pieces(nul_pieces(output)) {
        Err(e) => Err(e),
        Ok(paths) => Ok(sort_by_key(paths)),
    }
}

fn key_of(path: &str) -> (r: Vec<char>)
    ensures
        r@ == source_key(path@),
{
    if same_path(path, MAIN_SOURCE_LIST) {
        return Vec::new();
    }
    match file_name_of(path) {
        Some(name) => chars_of(name.as_str()),
        None => Vec::new(),
    }
}

/// Adds one piece to the paths kept so far, or gives its error.
fn take_piece(kept: &mut Vec<String>, piece: &Vec<u8>) -> (r: Result<(), String>)
    ensures
        match r {
            Ok(()) => piece_step(string_views(old(kept)@), piece@) == Ok::<Seq<Seq<char>>, Seq<char>>(
                string_views(final(kept)@),
            ),
            Err(e) => piece_step(string_views(old(kept)@), piece@) == Err::<Seq<Seq<char>>, Seq<char>>(e@),
        },
{
    if piece.len() == 0 {
        return Ok(());
    }
    let path = match utf8_text(piece.as_slice()) {
        None => {
            return Err(NON_UTF8_PATH_ERROR.to_owned());
        },
        Some(p) => p,
    };
    let path = validate_source_path(path.as_str())?;
    let ghost before = string_views(kept@);
    let mut k: usize = 0;
    while k < kept.len()
        invariant
            k <= kept@.len(),
            before == string_views(kept@),
            kept@ == old(kept)@,
            piece@.len() > 0,
            vstd::utf8::valid_utf8(piece@),
            path@ == vstd::utf8::decode_utf8(piece@),
            source_path_check(path@) is Ok,
            forall|m: int| 0 <= m < k ==> !paths_equal(#[trigger] before[m], path@),
        decreases kept@.len() - k,
    {
        if same_path(kept[k].as_str(), path.as_str()) {
            assert(paths_equal(before[k as int], path@));
            assert(exists|m: int| 0 <= m < before.len() && paths_equal(#[trigger] before[m], path@));
            return Err(DUPLICATE_PATH_ERROR.to_owned());
        }
        k += 1;
    }
    let ghost pv = path@;
    kept.push(path);
    assert(string_views(kept@) =~= before.push(pv));
    Ok(())
}

/// Puts `path`, whose key is `key`, into `sorted`, whose keys are `keys`.
fn insert_keyed(sorted: &mut Vec<String>, keys: &mut Vec<Vec<char>>, path: String, key: Vec<char>)
    requires
        old(keys)@.len() == old(sorted)@.len(),
        forall|m: int| 0 <= m < old(sorted)@.len() ==> (#[trigger] old(keys)@[m])@ == source_key(old(sorted)@[m]@),
        key@ == source_key(path@),
    ensures
        final(keys)@.len() == final(sorted)@.len(),
        forall|m: int| 0 <= m < final(sorted)@.len() ==> (#[trigger] final(keys)@[m])@ == source_key(final(sorted)@[m]@),
        string_views(final(sorted)@) == insert_by_key(string_views(old(sorted)@), path@),
{
    let ghost s = string_views(sorted@);
    let mut k: usize = 0;
    assert(s.skip(0) =~= s);
    assert(s.take(0) + insert_by_key(s.skip(0), path@) =~= insert_by_key(s, path@));
    while k < sorted.len() && !less_text(key.as_slice(), keys[k].as_slice())
        invariant
            k <= sorted@.len(),
            s == string_views(sorted@),
            keys@.len() == sorted@.len(),
            forall|m: int| 0 <= m < sorted@.len() ==> (#[trigger] keys@[m])@ == source_key(sorted@[m]@),
            key@ == source_key(path@),
            insert_by_key(s, path@) == s.take(k as int) + insert_by_key(s.skip(k as int), path@),
        decreases sorted@.len() - k,
    {
        let ghost rest = s.skip(k as int);
        assert(rest[0] == s[k as int]);
        assert(rest.drop_first() =~= s.skip(k + 1));
        assert(s.take(k + 1) =~= s.take(k as int).push(s[k as int]));
        assert(s.take(k as int) + insert_by_key(rest, path@) =~= s.take(k + 1) + insert_by_key(s.skip(k + 1), path@));
        k += 1;
    }
    let ghost rest = s.skip(k as int);
    if k < sorted.len() {
        assert(rest[0] == s[k as int]);
        assert(insert_by_key(rest, path@) == seq![path@] + rest);
    } else {
        assert(rest.len() == 0);
    }
    let ghost pv = path@;
    sorted.insert(k, path);
    keys.insert(k, key);
    assert(string_views(sorted@) =~= s.take(k as int) + (seq![pv] + rest));
    assert forall|m: int| 0 <= m < sorted@.len() implies (#[trigger] keys@[m])@ == source_key(sorted@[m]@) by {
        if m < k {
        } else if m > k {
        }
    }
}

/// The source files that the discovery reported: the NUL-separated pieces
/// of its output, empty ones skipped, each decoded as UTF-8, accepted by
/// `validate_source_path` and not a second time; then sorted, the main
/// source list first and the files of the source directory by name. The
/// first piece that fails gives the error.
pub fn discovered_source_paths(output: &[u8]) -> (r: Result<Vec<String>, String>)
    ensures
        match r {
            Ok(paths) => discovered(output@) == Ok::<Seq<Seq<char>>, Seq<char>>(string_views(paths@)),
            Err(e) => discovered(output@) == Err::<Seq<Seq<char>>, Seq<char>>(e@),
        },
{
    let mut kept: Vec<String> = Vec::new();
    let mut failure: Option<String> = None;
    let mut piece: Vec<u8> = Vec::new();
    let mut i: usize = 0;
    assert(output@.take(0) =~= Seq::<u8>::empty());
    assert(nul_pieces(output@.take(0)) == seq![Seq::<u8>::empty()]);
    assert(nul_pieces(output@.take(0)).drop_last() =~= Seq::<Seq<u8>>::empty());
    assert(string_views(kept@) =~= Seq::<Seq<char>>::empty());
    while i < output.len()
        invariant
            i <= output@.len(),
            nul_pieces(output@.take(i as int)).len() >= 1,
            nul_pieces(output@.take(i as int)).last() == piece@,
            match failure {
                None => accepted_pieces(nul_pieces(output@.take(i as int)).drop_last())
                    == Ok::<Seq<Seq<char>>, Seq<char>>(string_views(kept@)),
                Some(e) => accepted_pieces(nul_pieces(output@.take(i as int)).drop_last())
                    == Err::<Seq<Seq<char>>, Seq<char>>(e@),
            },
        decreases output@.len() - i,
    {
        let ghost before = nul_pieces(output@.take(i as int));
        assert(output@.take(i + 1).drop_last() =~= output@.take(i as int));
        assert(output@.take(i + 1).last() == output@[i as int]);
        let b = output[i];
        if b == 0 {
            let ghost done = before.drop_last();
            assert(nul_pieces(output@.take(i + 1)) == before.push(Seq::empty()));
            assert(before.push(Seq::<u8>::empty()).drop_last() =~= before);
            assert(before =~= done.push(piece@));
            if failure.is_none() {
                match take_piece(&mut kept, &piece) {
                    Ok(()) => {},
                    Err(e) => {
                        failure = Some(e);
                    },
                }
            }
            piece = Vec::new();
        } else {
            let ghost last = before.last();
            piece.push(b);
            assert(nul_pieces(output@.take(i + 1)) == before.update(before.len() - 1, last.push(b)));
            assert(before.update(before.len() - 1, last.push(b)).drop_last() =~= before.drop_last());
        }
        i += 1;
    }
    assert(output@.take(i as int) =~= output@);
    let ghost pieces = nul_pieces(output@);
    assert(pieces.drop_last().push(pieces.last()) =~= pieces);
    if let Some(e) = failure {
        return Err(e);
    }
    take_piece(&mut kept, &piece)?;
    let mut sorted: Vec<String> = Vec::new();
    let mut keys: Vec<Vec<char>> = Vec::new();
    let mut j: usize = 0;
    let ghost paths = string_views(kept@);
    assert(paths.take(0) =~= Seq::<Seq<char>>::empty());
    while j < kept.len()
        invariant
            j <= kept@.len(),
            paths == string_views(kept@),
            keys@.len() == sorted@.len(),
            forall|m: int| 0 <= m < sorted@.len() ==> (#[trigger] keys@[m])@ == source_key(sorted@[m]@),
            string_views(sorted@) == sort_by_key(paths.take(j as int)),
        decreases kept@.len() - j,
    {
        let path = kept[j].clone();
        let key = key_of(path.as_str());
        assert(paths.take(j + 1).drop_last() =~= paths.take(j as int));
        assert(paths.take(j + 1).last() == paths[j as int]);
        insert_keyed(&mut sorted, &mut keys, path, key);
        j += 1;
    }
    assert(paths.take(j as int) =~= paths);
    Ok(sorted)
}

} // verus!
