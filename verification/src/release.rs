//! The members that a release archive may hold: the `cozydot` binary, the
//! default configuration and the dotfiles, as regular files and
//! directories at safe relative paths, each once, none below a file.
use vstd::prelude::*;
use crate::text::{chars_of, concat, eq_chars, eq_str, split, split_chars, views};

verus! {

/// The type of a member as the archive's header gives it.
#[derive(Clone, Copy, Debug, PartialEq, Eq, Structural)]
pub enum MemberKind {
    Regular,
    Directory,
    /// A link, a device or another special file.
    Other,
}

pub const UNSAFE_PATH: &'static str = "unsafe release path: ";

pub const SPECIAL_MEMBER: &'static str = "release contains a link or special file: ";

pub const UNEXPECTED_PATH: &'static str = "unexpected release path: ";

pub const DUPLICATE_PATH: &'static str = "duplicate release path: ";

pub const PATH_COLLISION: &'static str = "release path collision: ";

pub const REQUIRED_MEMBERS: &'static str = "release must contain exactly one cozydot and configs/default.yaml";

/// The components of a relative path where each is a normal name, as
/// `std::path::Path::components` reads it (repeated separators and `.` after
/// the start are skipped); `None` for the empty path, a root, a leading `.`
/// or a `..` anywhere.
pub open spec fn normal_components(p: Seq<char>) -> Option<Seq<Seq<char>>> {
    let pieces = split(p, '/');
    if p.len() == 0 || pieces[0].len() == 0 || pieces[0] == "."@ || pieces.contains(".."@) {
        None
    } else {
        Some(named_pieces(pieces))
    }
}

/// The pieces that are neither empty nor `.`, in order.
pub open spec fn named_pieces(ps: Seq<Seq<char>>) -> Seq<Seq<char>>
    decreases ps.len(),
{
    if ps.len() == 0 {
        Seq::empty()
    } else if ps.last().len() > 0 && ps.last() != "."@ {
        named_pieces(ps.drop_last()).push(ps.last())
    } else {
        named_pieces(ps.drop_last())
    }
}

/// The paths that a release may hold.
pub open spec fn allowed_member(c: Seq<Seq<char>>) -> bool {
    ||| c == seq!["cozydot"@]
    ||| c == seq!["configs"@, "default.yaml"@]
    ||| c == seq!["configs"@]
    ||| (c.len() > 0 && c[0] == "dotfiles"@)
}

/// `a` is a shorter path that `b` lies below.
pub open spec fn strictly_below(b: Seq<Seq<char>>, a: Seq<Seq<char>>) -> bool {
    a.len() < b.len() && b.take(a.len() as int) == a
}

/// The members kept so far (their components, and whether each is a
/// regular file) and one more: the first rule that it breaks gives the error.
pub open spec fn member_step(kept: Seq<(Seq<Seq<char>>, bool)>, path: Seq<char>, kind: MemberKind) -> Result<Seq<(Seq<Seq<char>>, bool)>, Seq<char>> {
    match normal_components(path) {
        None => Err(UNSAFE_PATH@ + path),
        Some(c) => if kind == MemberKind::Other {
            Err(SPECIAL_MEMBER@ + path)
        } else if !allowed_member(c) {
            Err(UNEXPECTED_PATH@ + path)
        } else if exists|k: int| 0 <= k < kept.len() && (#[trigger] kept[k]).0 == c {
            Err(DUPLICATE_PATH@ + path)
        } else if exists|k: int| 0 <= k < kept.len() && (#[trigger] kept[k]).1 && strictly_below(c, kept[k].0) {
            Err(PATH_COLLISION@ + path)
        } else if kind == MemberKind::Regular && exists|k: int| 0 <= k < kept.len() && strictly_below((#[trigger] kept[k]).0, c) {
            Err(PATH_COLLISION@ + path)
        } else {
            Ok(kept.push((c, kind == MemberKind::Regular)))
        }
    }
}

pub open spec fn members_fold(members: Seq<(Seq<char>, MemberKind)>) -> Result<Seq<(Seq<Seq<char>>, bool)>, Seq<char>>
    decreases members.len(),
{
    if members.len() == 0 {
        Ok(Seq::empty())
    } else {
        match members_fold(members.drop_last()) {
            Err(e) => Err(e),
            Ok(kept) => member_step(kept, members.last().0, members.last().1),
        }
    }
}

pub open spec fn holds_file(kept: Seq<(Seq<Seq<char>>, bool)>, c: Seq<Seq<char>>) -> bool {
    exists|k: int| 0 <= k < kept.len() && (#[trigger] kept[k]).0 == c && kept[k].1
}

/// The verdict on the members of a release, in archive order.
pub open spec fn release_check(members: Seq<(Seq<char>, MemberKind)>) -> Result<(), Seq<char>> {
    match members_fold(members) {
        Err(e) => Err(e),
        Ok(kept) => if holds_file(kept, seq!["cozydot"@]) && holds_file(kept, seq!["configs"@, "default.yaml"@]) {
            Ok(())
        } else {
            Err(REQUIRED_MEMBERS@)
        },
    }
}

pub open spec fn member_views(ms: Seq<(String, MemberKind)>) -> Seq<(Seq<char>, MemberKind)> {
    ms.map_values(|m: (String, MemberKind)| (m.0@, m.1))
}

/// The normal components of a member path (`normal_components`).
pub fn member_components(path: &str) -> (r: Option<Vec<Vec<char>>>)
    ensures
        match r {
            None => normal_components(path@) is None,
            Some(c) => normal_components(path@) == Some(views(c@)),
        },
{
    let chars: Vec<char> = chars_of(path);
    let pieces = split_chars(&chars, '/');
    let ghost ps = views(pieces@);
    assert(ps[0] == pieces@[0]@);
    assert(chars@ == path@);
    assert(ps[0].len() == pieces@[0]@.len());
    if chars.len() == 0 {
        return None;
    }
    if pieces[0].len() == 0 {
        assert(ps[0].len() == 0);
        return None;
    }
    if eq_str(&pieces[0], ".") {
        assert(ps[0] == "."@);
        return None;
    }
    let mut r: Vec<Vec<char>> = Vec::new();
    let mut i: usize = 0;
    assert(ps.take(0) =~= Seq::<Seq<char>>::empty());
    assert(views(r@) =~= Seq::<Seq<char>>::empty());
    while i < pieces.len()
        invariant
            i <= pieces@.len(),
            ps == views(pieces@),
            ps == split(path@, '/'),
            path@.len() > 0,
            ps[0].len() > 0,
            ps[0] != "."@,
            views(r@) == named_pieces(ps.take(i as int)),
            forall|k: int| 0 <= k < i ==> ps[k] != ".."@,
        decreases pieces@.len() - i,
    {
        let piece = &pieces[i];
        assert(ps[i as int] == piece@);
        if eq_str(piece, "..") {
            assert(ps.contains(".."@));
            return None;
        }
        let ghost before = views(r@);
        assert(ps.take(i + 1).drop_last() =~= ps.take(i as int));
        assert(ps.take(i + 1).last() == ps[i as int]);
        if piece.len() > 0 && !eq_str(piece, ".") {
            r.push(piece.clone());
            assert(views(r@) =~= before.push(ps[i as int]));
        } else {
            assert(views(r@) =~= before);
        }
        i += 1;
    }
    assert(ps.take(i as int) =~= ps);
    assert(!ps.contains(".."@));
    Some(r)
}

fn same_components(a: &Vec<Vec<char>>, b: &Vec<Vec<char>>) -> (r: bool)
    ensures
        r == (views(a@) == views(b@)),
{
    if a.len() != b.len() {
        assert(views(a@).len() != views(b@).len());
        return false;
    }
    let mut i: usize = 0;
    while i < a.len()
        invariant
            i <= a@.len(),
            a@.len() == b@.len(),
            forall|k: int| 0 <= k < i ==> a@[k]@ == b@[k]@,
        decreases a@.len() - i,
    {
        if !eq_chars(&a[i], &b[i]) {
            assert(views(a@)[i as int] != views(b@)[i as int]);
            return false;
        }
        i += 1;
    }
    assert(views(a@) =~= views(b@));
    true
}

/// Whether `b` lies below the shorter `a`.
fn below(b: &Vec<Vec<char>>, a: &Vec<Vec<char>>) -> (r: bool)
    ensures
        r == strictly_below(views(b@), views(a@)),
{
    if a.len() >= b.len() {
        return false;
    }
    let mut i: usize = 0;
    while i < a.len()
        invariant
            i <= a@.len(),
            a@.len() < b@.len(),
            forall|k: int| 0 <= k < i ==> a@[k]@ == b@[k]@,
        decreases a@.len() - i,
    {
        if !eq_chars(&a[i], &b[i]) {
            assert(views(b@).take(a@.len() as int)[i as int] != views(a@)[i as int]);
            return false;
        }
        i += 1;
    }
    assert(views(b@).take(a@.len() as int) =~= views(a@));
    true
}

pub open spec fn kept_views(kept: Seq<(Vec<Vec<char>>, bool)>) -> Seq<(Seq<Seq<char>>, bool)> {
    kept.map_values(|m: (Vec<Vec<char>>, bool)| (views(m.0@), m.1))
}

fn is_single(c: &Vec<Vec<char>>, a: &str) -> (r: bool)
    ensures
        r == (views(c@) == seq![a@]),
{
    if c.len() != 1 {
        assert(views(c@).len() != 1);
        return false;
    }
    let r = eq_str(&c[0], a);
    assert(views(c@)[0] == c@[0]@);
    if r {
        assert(views(c@) =~= seq![a@]);
    }
    r
}

fn is_pair(c: &Vec<Vec<char>>, a: &str, b: &str) -> (r: bool)
    ensures
        r == (views(c@) == seq![a@, b@]),
{
    if c.len() != 2 {
        assert(views(c@).len() != 2);
        return false;
    }
    let r = eq_str(&c[0], a) && eq_str(&c[1], b);
    assert(views(c@)[0] == c@[0]@ && views(c@)[1] == c@[1]@);
    if r {
        assert(views(c@) =~= seq![a@, b@]);
    }
    r
}

/// Adds one member to those kept, or gives the error of the first rule
/// that it breaks.
fn take_member(kept: &mut Vec<(Vec<Vec<char>>, bool)>, path: &str, kind: MemberKind) -> (r: Result<(), String>)
    ensures
        match r {
            Ok(()) => member_step(kept_views(old(kept)@), path@, kind) == Ok::<Seq<(Seq<Seq<char>>, bool)>, Seq<char>>(
                kept_views(final(kept)@),
            ),
            Err(e) => member_step(kept_views(old(kept)@), path@, kind) == Err::<Seq<(Seq<Seq<char>>, bool)>, Seq<char>>(e@),
        },
{
    let c = match member_components(path) {
        None => {
            return Err(concat(UNSAFE_PATH, path));
        },
        Some(c) => c,
    };
    if kind == MemberKind::Other {
        return Err(concat(SPECIAL_MEMBER, path));
    }
    let allowed = is_single(&c, "cozydot") || is_pair(&c, "configs", "default.yaml") || is_single(&c, "configs")
        || (c.len() > 0 && eq_str(&c[0], "dotfiles"));
    proof {
        if c@.len() > 0 {
            assert(views(c@)[0] == c@[0]@);
        }
    }
    if !allowed {
        return Err(concat(UNEXPECTED_PATH, path));
    }
    let ghost kv = kept_views(kept@);
    let ghost cv = views(c@);
    let mut k: usize = 0;
    while k < kept.len()
        invariant
            k <= kept@.len(),
            kv == kept_views(kept@),
            cv == views(c@),
            kept@ == old(kept)@,
            normal_components(path@) == Some(cv),
            kind != MemberKind::Other,
            allowed_member(cv),
            forall|m: int| 0 <= m < k ==> (#[trigger] kv[m]).0 != cv,
        decreases kept@.len() - k,
    {
        if same_components(&kept[k].0, &c) {
            assert(kv[k as int].0 == cv);
            return Err(concat(DUPLICATE_PATH, path));
        }
        k += 1;
    }
    let mut k: usize = 0;
    while k < kept.len()
        invariant
            k <= kept@.len(),
            kv == kept_views(kept@),
            cv == views(c@),
            kept@ == old(kept)@,
            normal_components(path@) == Some(cv),
            kind != MemberKind::Other,
            allowed_member(cv),
            forall|m: int| 0 <= m < kv.len() ==> (#[trigger] kv[m]).0 != cv,
            forall|m: int| 0 <= m < k ==> !((#[trigger] kv[m]).1 && strictly_below(cv, kv[m].0)),
        decreases kept@.len() - k,
    {
        if kept[k].1 && below(&c, &kept[k].0) {
            assert(kv[k as int].1 && strictly_below(cv, kv[k as int].0));
            return Err(concat(PATH_COLLISION, path));
        }
        k += 1;
    }
    if kind == MemberKind::Regular {
        let mut k: usize = 0;
        while k < kept.len()
            invariant
                k <= kept@.len(),
                kv == kept_views(kept@),
                cv == views(c@),
                kept@ == old(kept)@,
                normal_components(path@) == Some(cv),
                kind != MemberKind::Other,
                allowed_member(cv),
                kind == MemberKind::Regular,
                forall|m: int| 0 <= m < kv.len() ==> (#[trigger] kv[m]).0 != cv,
                forall|m: int| 0 <= m < kv.len() ==> !((#[trigger] kv[m]).1 && strictly_below(cv, kv[m].0)),
                forall|m: int| 0 <= m < k ==> !strictly_below((#[trigger] kv[m]).0, cv),
            decreases kept@.len() - k,
        {
            if below(&kept[k].0, &c) {
                assert(strictly_below(kv[k as int].0, cv));
                return Err(concat(PATH_COLLISION, path));
            }
            k += 1;
        }
    }
    kept.push((c, kind == MemberKind::Regular));
    assert(kept_views(kept@) =~= kv.push((cv, kind == MemberKind::Regular)));
    Ok(())
}

/// Checks the members of a release archive, in archive order: each at a
/// safe relative path (`normal_components`), a regular file or a directory,
/// one of `cozydot`, `configs/default.yaml`, `configs` or below `dotfiles`,
/// not a second time, not below a file and, for a file, with nothing below
/// it; and the release holds `cozydot` and `configs/default.yaml` as files.
pub fn release_members_check(members: &Vec<(String, MemberKind)>) -> (r: Result<(), String>)
    ensures
        match r {
            Ok(()) => release_check(member_views(members@)) is Ok,
            Err(e) => release_check(member_views(members@)) == Err::<(), Seq<char>>(e@),
        },
{
    let ghost ms = member_views(members@);
    let mut kept: Vec<(Vec<Vec<char>>, bool)> = Vec::new();
    let mut i: usize = 0;
    assert(ms.take(0) =~= Seq::<(Seq<char>, MemberKind)>::empty());
    assert(kept_views(kept@) =~= Seq::<(Seq<Seq<char>>, bool)>::empty());
    while i < members.len()
        invariant
            i <= members@.len(),
            ms == member_views(members@),
            members_fold(ms.take(i as int)) == Ok::<Seq<(Seq<Seq<char>>, bool)>, Seq<char>>(kept_views(kept@)),
        decreases members@.len() - i,
    {
        assert(ms.take(i + 1).drop_last() =~= ms.take(i as int));
        assert(ms.take(i + 1).last() == ms[i as int]);
        let r = take_member(&mut kept, members[i].0.as_str(), members[i].1);
        if let Err(e) = r {
            proof {
                lemma_fold_stays_failed(ms, i as int + 1);
            }
            assert(ms.take(ms.len() as int) =~= ms);
            return Err(e);
        }
        i += 1;
    }
    assert(ms.take(i as int) =~= ms);
    let ghost kv = kept_views(kept@);
    let mut binary = false;
    let mut config = false;
    let mut k: usize = 0;
    while k < kept.len()
        invariant
            k <= kept@.len(),
            kv == kept_views(kept@),
            binary == exists|m: int| 0 <= m < k && (#[trigger] kv[m]).0 == seq!["cozydot"@] && kv[m].1,
            config == exists|m: int| 0 <= m < k && (#[trigger] kv[m]).0 == seq!["configs"@, "default.yaml"@] && kv[m].1,
        decreases kept@.len() - k,
    {
        assert(kv[k as int].0 == views(kept@[k as int].0@) && kv[k as int].1 == kept@[k as int].1);
        if kept[k].1 {
            if is_single(&kept[k].0, "cozydot") {
                binary = true;
            }
            if is_pair(&kept[k].0, "configs", "default.yaml") {
                config = true;
            }
        }
        k += 1;
    }
    if binary && config {
        Ok(())
    } else {
        Err(REQUIRED_MEMBERS.to_owned())
    }
}

/// Once a prefix of the members fails, the whole fails with its error.
proof fn lemma_fold_stays_failed(ms: Seq<(Seq<char>, MemberKind)>, n: int)
    requires
        0 <= n <= ms.len(),
        members_fold(ms.take(n)) is Err,
    ensures
        members_fold(ms.take(ms.len() as int)) == members_fold(ms.take(n)),
    decreases ms.len() - n,
{
    if n < ms.len() {
        assert(ms.take(n + 1).drop_last() =~= ms.take(n));
        lemma_fold_stays_failed(ms, n + 1);
    }
}

} // verus!
