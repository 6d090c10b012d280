//! Flatpak applications from Flathub: which IDs may be configured, what
//! `flatpak list` reports, and the installs and updates that follow.
use vstd::prelude::*;
use crate::operations::cargo::{missing_from, missing_packages};
use crate::sorted::{insert_sorted, sorted_set_of};
use crate::operations::command::{checked, words, Command, CommandView};
use crate::text::{
    alnum, alpha, chars_of, concat, debug_str, debug_text, eq_chars, is_alnum, is_alpha, join, join_strings,
    lines, lines_of, same_outcome, split, split_chars, string_of, string_views, utf8_text, views,
};

verus! {

/// One segment of an application ID: a letter, then letters, digits and `_`.
pub open spec fn valid_segment(s: Seq<char>) -> bool {
    s.len() > 0 && is_alpha(s[0]) && forall|k: int| 0 <= k < s.len() ==> (is_alnum(#[trigger] s[k]) || s[k] == '_')
}

/// A canonical application ID: at least three dot-separated segments.
pub open spec fn valid_app_id(app: Seq<char>) -> bool {
    let segments = split(app, '.');
    segments.len() >= 3 && forall|i: int| 0 <= i < segments.len() ==> #[trigger] valid_segment(segments[i])
}

fn valid_segment_exec(s: &[char]) -> (r: bool)
    ensures
        r == valid_segment(s@),
{
    if s.len() == 0 || !alpha(s[0]) {
        return false;
    }
    let mut k: usize = 0;
    while k < s.len()
        invariant
            k <= s@.len(),
            forall|j: int| 0 <= j < k ==> (is_alnum(#[trigger] s@[j]) || s@[j] == '_'),
        decreases s@.len() - k,
    {
        if !(alnum(s[k]) || s[k] == '_') {
            return false;
        }
        k += 1;
    }
    true
}

pub fn valid_app_id_exec(app: &[char]) -> (r: bool)
    ensures
        r == valid_app_id(app@),
{
    let segments = split_chars(app, '.');
    let mut i: usize = 0;
    while i < segments.len()
        invariant
            i <= segments@.len(),
            views(segments@) == split(app@, '.'),
            forall|j: int| 0 <= j < i ==> #[trigger] valid_segment(split(app@, '.')[j]),
        decreases segments@.len() - i,
    {
        assert(split(app@, '.')[i as int] == segments@[i as int]@);
        if !valid_segment_exec(&segments[i]) {
            return false;
        }
        i += 1;
    }
    segments.len() >= 3
}

pub open spec fn app_id_error(app: Seq<char>) -> Seq<char> {
    "invalid canonical Flatpak application ID: "@ + debug_text(app)
}

/// Checks one application ID.
pub fn validate_app_id(app: &str) -> (r: Result<(), String>)
    ensures
        r is Ok <==> valid_app_id(app@),
        r matches Err(e) ==> e@ == app_id_error(app@),
{
    if !valid_app_id_exec(&chars_of(app)) {
        return Err(concat("invalid canonical Flatpak application ID: ", debug_str(app).as_str()));
    }
    Ok(())
}

pub const EMPTY_REFS_ERROR: &'static str = "Flatpak application sequence must not be empty";

pub open spec fn refs_from(rs: Seq<Seq<char>>, k: int) -> Result<(), Seq<char>>
    decreases rs.len() - k,
{
    if k < 0 || k >= rs.len() {
        Ok(())
    } else if !valid_app_id(rs[k]) {
        Err(app_id_error(rs[k]))
    } else if exists|j: int| 0 <= j < k && #[trigger] rs[j] == rs[k] {
        Err("duplicate Flatpak application ID: "@ + debug_text(rs[k]))
    } else {
        refs_from(rs, k + 1)
    }
}

/// The configured applications: a non-empty sequence of distinct valid IDs.
pub open spec fn refs_check(rs: Seq<Seq<char>>) -> Result<(), Seq<char>> {
    if rs.len() == 0 {
        Err(EMPTY_REFS_ERROR@)
    } else {
        refs_from(rs, 0)
    }
}

pub fn validate_refs(refs: &Vec<String>) -> (r: Result<(), String>)
    ensures
        match r {
            Ok(_) => refs_check(string_views(refs@)) is Ok,
            Err(e) => refs_check(string_views(refs@)) == Err::<(), Seq<char>>(e@),
        },
{
    if refs.len() == 0 {
        return Err(EMPTY_REFS_ERROR.to_owned());
    }
    let ghost rs = string_views(refs@);
    let mut i: usize = 0;
    while i < refs.len()
        invariant
            i <= rs.len(),
            rs == string_views(refs@),
            rs.len() > 0,
            refs_check(rs) == refs_from(rs, i as int),
        decreases rs.len() - i,
    {
        validate_app_id(refs[i].as_str())?;
        let p = chars_of(refs[i].as_str());
        let mut j: usize = 0;
        while j < i
            invariant
                j <= i < rs.len(),
                rs == string_views(refs@),
                p@ == rs[i as int],
                valid_app_id(rs[i as int]),
                refs_check(rs) == refs_from(rs, i as int),
                forall|k: int| 0 <= k < j ==> rs[k] != rs[i as int],
            decreases i - j,
        {
            if eq_chars(&chars_of(refs[j].as_str()), &p) {
                assert(rs[j as int] == rs[i as int]);
                return Err(concat("duplicate Flatpak application ID: ", debug_str(refs[i].as_str()).as_str()));
            }
            j += 1;
        }
        i += 1;
    }
    Ok(())
}

/// The installed applications that `flatpak list --app --columns=application` reports.
pub open spec fn installed_result(output: Seq<u8>) -> Result<Seq<Seq<char>>, Seq<char>> {
    if !vstd::utf8::valid_utf8(output) {
        Err("flatpak returned non-UTF-8 installed application state"@)
    } else {
        let ls = lines(vstd::utf8::decode_utf8(output));
        match crate::text::first_error(Seq::new(ls.len(), |i: int| if valid_app_id(ls[i]) {
            Ok(())
        } else {
            Err("flatpak returned malformed installed application ID: "@ + debug_text(ls[i]))
        })) {
            Err(e) => Err(e),
            Ok(_) => Ok(ls),
        }
    }
}

pub fn installed_apps(output: &[u8]) -> (r: Result<Vec<String>, String>)
    ensures
        match r {
            Ok(apps) => installed_result(output@) == Ok::<Seq<Seq<char>>, Seq<char>>(string_views(apps@)),
            Err(e) => installed_result(output@) == Err::<Seq<Seq<char>>, Seq<char>>(e@),
        },
{
    let text = match utf8_text(output) {
        None => {
            return Err("flatpak returned non-UTF-8 installed application state".to_owned());
        },
        Some(t) => t,
    };
    let t = chars_of(text.as_str());
    let ls = lines_of(&t);
    let ghost lv = lines(t@);
    let ghost cs = Seq::new(lv.len(), |i: int| if valid_app_id(lv[i]) {
        Ok(())
    } else {
        Err("flatpak returned malformed installed application ID: "@ + debug_text(lv[i]))
    });
    let mut apps: Vec<String> = Vec::new();
    let mut i: usize = 0;
    assert(cs.take(0) =~= Seq::<Result<(), Seq<char>>>::empty());
    while i < ls.len()
        invariant
            i <= ls@.len(),
            views(ls@) == lv,
            lv == lines(vstd::utf8::decode_utf8(output@)),
            vstd::utf8::valid_utf8(output@),
            cs == Seq::new(lv.len(), |i: int| if valid_app_id(lv[i]) {
                Ok(())
            } else {
                Err("flatpak returned malformed installed application ID: "@ + debug_text(lv[i]))
            }),
            crate::text::first_error(cs.take(i as int)) is Ok,
            string_views(apps@) == lv.take(i as int),
        decreases ls@.len() - i,
    {
        proof {
            crate::text::lemma_first_error_step(cs, i as int);
        }
        assert(lv[i as int] == ls@[i as int]@);
        let app = string_of(&ls[i]);
        if !valid_app_id_exec(&ls[i]) {
            proof {
                crate::text::lemma_first_error_stop(cs, i + 1);
            }
            return Err(concat("flatpak returned malformed installed application ID: ", debug_str(app.as_str()).as_str()));
        }
        let ghost before = string_views(apps@);
        let ghost av = app@;
        apps.push(app);
        i += 1;
        assert(string_views(apps@) =~= before.push(av));
        assert(string_views(apps@) =~= lv.take(i as int));
    }
    proof {
        crate::text::lemma_first_error_whole(cs);
    }
    assert(lv.take(i as int) =~= lv);
    Ok(apps)
}

pub open spec fn install_args(missing: Seq<Seq<char>>) -> Seq<Seq<char>> {
    seq!["--user"@, "install"@, "--app"@, "--noninteractive"@, "-y"@, "flathub"@, "--"@] + missing
}

/// The `flatpak` arguments that install the configured applications not
/// listed as installed by `listing` (the output of `flatpak list`), or
/// `None` where all are installed.
pub fn ensure_apps(refs: &Vec<String>, listing: &[u8]) -> (r: Result<Option<Vec<String>>, String>)
    ensures
        match r {
            Err(e) => refs_check(string_views(refs@)) == Err::<(), Seq<char>>(e@) || (refs_check(
                string_views(refs@),
            ) is Ok && installed_result(listing@) == Err::<Seq<Seq<char>>, Seq<char>>(e@)),
            Ok(plan) => refs_check(string_views(refs@)) is Ok && (installed_result(listing@) matches Ok(installed)
                && match plan {
                None => missing_packages(string_views(refs@), installed).len() == 0,
                Some(args) => missing_packages(string_views(refs@), installed).len() > 0 && string_views(args@)
                    == install_args(missing_packages(string_views(refs@), installed)),
            }),
        },
{
    validate_refs(refs)?;
    let installed = installed_apps(listing)?;
    let missing = missing_from(refs, &installed);
    if missing.len() == 0 {
        return Ok(None);
    }
    let mut args: Vec<String> = vec![
        "--user".to_owned(),
        "install".to_owned(),
        "--app".to_owned(),
        "--noninteractive".to_owned(),
        "-y".to_owned(),
        "flathub".to_owned(),
        "--".to_owned(),
    ];
    let ghost head = string_views(args@);
    assert(head =~= seq!["--user"@, "install"@, "--app"@, "--noninteractive"@, "-y"@, "flathub"@, "--"@]);
    let mut i: usize = 0;
    assert(string_views(args@) =~= head + string_views(missing@).take(0));
    while i < missing.len()
        invariant
            i <= missing@.len(),
            string_views(args@) == head + string_views(missing@).take(i as int),
        decreases missing@.len() - i,
    {
        let ghost before = string_views(args@);
        args.push(missing[i].clone());
        i += 1;
        assert(string_views(args@) =~= before.push(missing@[i - 1]@));
        assert(string_views(args@) =~= head + string_views(missing@).take(i as int));
    }
    assert(string_views(missing@).take(i as int) =~= string_views(missing@));
    Ok(Some(args))
}

pub open spec fn update_args(refs: Seq<Seq<char>>) -> Seq<Seq<char>> {
    seq!["--user"@, "update"@, "--app"@, "--noninteractive"@, "-y"@, "--"@] + refs
}

/// The `flatpak` arguments that update the configured applications.
pub fn update_apps(refs: &Vec<String>) -> (r: Result<Vec<String>, String>)
    ensures
        match r {
            Err(e) => refs_check(string_views(refs@)) == Err::<(), Seq<char>>(e@),
            Ok(args) => refs_check(string_views(refs@)) is Ok && string_views(args@) == update_args(string_views(refs@)),
        },
{
    validate_refs(refs)?;
    let mut args: Vec<String> = vec![
        "--user".to_owned(),
        "update".to_owned(),
        "--app".to_owned(),
        "--noninteractive".to_owned(),
        "-y".to_owned(),
        "--".to_owned(),
    ];
    let ghost head = string_views(args@);
    assert(head =~= seq!["--user"@, "update"@, "--app"@, "--noninteractive"@, "-y"@, "--"@]);
    let mut i: usize = 0;
    assert(string_views(args@) =~= head + string_views(refs@).take(0));
    while i < refs.len()
        invariant
            i <= refs@.len(),
            string_views(args@) == head + string_views(refs@).take(i as int),
        decreases refs@.len() - i,
    {
        let ghost before = string_views(args@);
        args.push(refs[i].clone());
        i += 1;
        assert(string_views(args@) =~= before.push(refs@[i - 1]@));
        assert(string_views(args@) =~= head + string_views(refs@).take(i as int));
    }
    assert(string_views(refs@).take(i as int) =~= string_views(refs@));
    Ok(args)
}

// ------------------------------------------------------------ the Flathub remote

pub const FLATHUB_NAME: &'static str = "flathub";

pub const FLATHUB_DESCRIPTOR_URL: &'static str = "https://dl.flathub.org/repo/flathub.flatpakrepo";

pub const FLATHUB_REPOSITORY_URL: &'static str = "https://dl.flathub.org/repo/";

/// A per-user Flatpak remote as `flatpak remotes --columns=name,url,options,filter`
/// reports it; its options are distinct and in ascending order.
#[derive(Debug)]
pub struct UserRemote {
    pub name: String,
    pub url: String,
    pub options: Vec<String>,
    pub filter: String,
}

/// The options of a remote: none where the column is empty, else the
/// comma-separated pieces.
pub open spec fn option_pieces(column: Seq<char>) -> Seq<Seq<char>> {
    if column.len() == 0 {
        Seq::empty()
    } else {
        split(column, ',')
    }
}

/// A well-formed line: exactly four tab-separated columns; name, URL and
/// filter not empty; a URL that `url` parses; options without an empty or
/// repeated piece.
pub open spec fn remote_line_ok(line: Seq<char>) -> bool {
    let f = split(line, '\t');
    &&& f.len() == 4
    &&& f[0].len() > 0
    &&& f[1].len() > 0
    &&& f[3].len() > 0
    &&& crate::weburl::url_parse(f[1]) is Some
    &&& !option_pieces(f[2]).contains(Seq::<char>::empty())
    &&& option_pieces(f[2]).no_duplicates()
}

pub open spec fn remote_name(line: Seq<char>) -> Seq<char> {
    split(line, '\t')[0]
}

pub const MALFORMED_REMOTE: &'static str = "flatpak returned malformed per-user remote state: ";

pub const DUPLICATE_REMOTE: &'static str = "flatpak returned duplicate per-user remote name: ";

/// The line at `i`: well-formed, and naming a remote that no earlier line
/// names.
pub open spec fn remote_line_check(ls: Seq<Seq<char>>, i: int) -> Result<(), Seq<char>> {
    if !remote_line_ok(ls[i]) {
        Err(MALFORMED_REMOTE@ + debug_text(ls[i]))
    } else if exists|j: int| 0 <= j < i && #[trigger] remote_name(ls[j]) == remote_name(ls[i]) {
        Err(DUPLICATE_REMOTE@ + debug_text(remote_name(ls[i])))
    } else {
        Ok(())
    }
}

pub open spec fn remote_lines(output: Seq<u8>) -> Seq<Seq<char>> {
    lines(vstd::utf8::decode_utf8(output))
}

/// The error in the output of `flatpak remotes`, if any: not UTF-8, or the
/// first line that is malformed or repeats a name.
pub open spec fn remotes_check(output: Seq<u8>) -> Result<(), Seq<char>> {
    if !vstd::utf8::valid_utf8(output) {
        Err("flatpak returned non-UTF-8 per-user remote state"@)
    } else {
        crate::text::first_error(Seq::new(remote_lines(output).len(), |i: int| remote_line_check(remote_lines(output), i)))
    }
}

/// The remote read from a well-formed line.
pub open spec fn remote_read(r: UserRemote, line: Seq<char>) -> bool {
    let f = split(line, '\t');
    &&& r.name@ == f[0]
    &&& r.url@ == f[1]
    &&& r.filter@ == f[3]
    &&& sorted_set_of(string_views(r.options@), option_pieces(f[2]))
}

fn no_repeated_piece(pieces: &Vec<Vec<char>>) -> (r: bool)
    ensures
        r == (!views(pieces@).contains(Seq::<char>::empty()) && views(pieces@).no_duplicates()),
{
    let ghost ps = views(pieces@);
    let mut i: usize = 0;
    while i < pieces.len()
        invariant
            i <= pieces@.len(),
            ps == views(pieces@),
            forall|k: int| 0 <= k < i ==> ps[k].len() > 0,
            forall|k: int, m: int| 0 <= k < m < i ==> ps[k] != ps[m],
        decreases pieces@.len() - i,
    {
        assert(ps[i as int] == pieces@[i as int]@);
        if pieces[i].len() == 0 {
            assert(ps[i as int] =~= Seq::<char>::empty());
            return false;
        }
        let mut j: usize = 0;
        while j < i
            invariant
                j <= i < pieces@.len(),
                ps == views(pieces@),
                forall|m: int| 0 <= m < j ==> ps[m] != ps[i as int],
            decreases i - j,
        {
            assert(ps[j as int] == pieces@[j as int]@);
            if eq_chars(&pieces[j], &pieces[i]) {
                assert(ps[j as int] == ps[i as int]);
                assert(!ps.no_duplicates());
                return false;
            }
            j += 1;
        }
        i += 1;
    }
    assert forall|k: int, m: int| 0 <= k < ps.len() && 0 <= m < ps.len() && k != m implies ps[k] != ps[m] by {
        if k > m {
            assert(ps[m] != ps[k]);
        }
    }
    proof {
        if ps.contains(Seq::<char>::empty()) {
            let k = choose|k: int| 0 <= k < ps.len() && ps[k] == Seq::<char>::empty();
            assert(ps[k].len() > 0);
        }
    }
    true
}

/// Reads one line; `None` where it is malformed.
fn read_remote(line: &Vec<char>) -> (r: Option<UserRemote>)
    ensures
        match r {
            Some(remote) => remote_line_ok(line@) && remote_read(remote, line@),
            None => !remote_line_ok(line@),
        },
{
    let fields = split_chars(line, '\t');
    let ghost f = split(line@, '\t');
    if fields.len() != 4 {
        return None;
    }
    assert(fields@[0]@ == f[0] && fields@[1]@ == f[1] && fields@[2]@ == f[2] && fields@[3]@ == f[3]);
    if fields[0].len() == 0 || fields[1].len() == 0 || fields[3].len() == 0 {
        return None;
    }
    let url = string_of(&fields[1]);
    if crate::weburl::parse_url(url.as_str()).is_none() {
        return None;
    }
    let pieces: Vec<Vec<char>> = if fields[2].len() == 0 {
        Vec::new()
    } else {
        split_chars(&fields[2], ',')
    };
    assert(views(pieces@) =~= option_pieces(f[2]));
    if !no_repeated_piece(&pieces) {
        return None;
    }
    let mut options: Vec<String> = Vec::new();
    let ghost ps = views(pieces@);
    let mut i: usize = 0;
    while i < pieces.len()
        invariant
            i <= pieces@.len(),
            ps == views(pieces@),
            ps.no_duplicates(),
            sorted_set_of(string_views(options@), ps.take(i as int)),
        decreases pieces@.len() - i,
    {
        let piece = string_of(&pieces[i]);
        assert(piece@ == ps[i as int]);
        proof {
            if string_views(options@).contains(piece@) {
                assert(ps.take(i as int).contains(piece@));
                let prev = ps.take(i as int);
                let k = choose|k: int| 0 <= k < prev.len() && #[trigger] prev[k] == piece@;
                assert(prev[k] == ps[k]);
                assert(ps[k] == ps[i as int]);
            }
        }
        let ghost pv = piece@;
        let ghost before = string_views(options@);
        insert_sorted(&mut options, piece);
        proof {
            let next = ps.take(i + 1);
            let prev = ps.take(i as int);
            assert(next =~= prev.push(pv));
            assert forall|t: Seq<char>| string_views(options@).contains(t) <==> next.contains(t) by {
                if next.contains(t) {
                    let k = choose|k: int| 0 <= k < next.len() && #[trigger] next[k] == t;
                    if k < i {
                        assert(prev[k] == t);
                    }
                }
                if prev.contains(t) {
                    let k = choose|k: int| 0 <= k < prev.len() && #[trigger] prev[k] == t;
                    assert(next[k] == t);
                }
                if t == pv {
                    assert(next[i as int] == t);
                }
            }
        }
        i += 1;
    }
    assert(ps.take(i as int) =~= ps);
    Some(UserRemote { name: string_of(&fields[0]), url, options, filter: string_of(&fields[3]) })
}

fn earlier_remote_named(remotes: &Vec<UserRemote>, name: &String) -> (r: bool)
    ensures
        r == exists|j: int| 0 <= j < remotes@.len() && #[trigger] remotes@[j].name@ == name@,
{
    let target = chars_of(name.as_str());
    let mut j: usize = 0;
    while j < remotes.len()
        invariant
            j <= remotes@.len(),
            target@ == name@,
            forall|k: int| 0 <= k < j ==> #[trigger] remotes@[k].name@ != name@,
        decreases remotes@.len() - j,
    {
        if eq_chars(&chars_of(remotes[j].name.as_str()), &target) {
            return true;
        }
        j += 1;
    }
    false
}

/// The per-user remotes that `flatpak remotes` reports, one per line, in
/// order.
pub fn user_remotes(output: &[u8]) -> (r: Result<Vec<UserRemote>, String>)
    ensures
        match r {
            Err(e) => remotes_check(output@) == Err::<(), Seq<char>>(e@),
            Ok(remotes) => remotes_check(output@) is Ok && remotes@.len() == remote_lines(output@).len()
                && forall|i: int| 0 <= i < remotes@.len() ==> #[trigger] remote_read(remotes@[i], remote_lines(output@)[i]),
        },
{
    let text = match utf8_text(output) {
        None => {
            return Err("flatpak returned non-UTF-8 per-user remote state".to_owned());
        },
        Some(t) => t,
    };
    let ls = lines_of(&chars_of(text.as_str()));
    let ghost lv = remote_lines(output@);
    let ghost cs = Seq::new(lv.len(), |i: int| remote_line_check(lv, i));
    let mut remotes: Vec<UserRemote> = Vec::new();
    let mut i: usize = 0;
    assert(cs.take(0) =~= Seq::<Result<(), Seq<char>>>::empty());
    while i < ls.len()
        invariant
            i <= ls@.len(),
            views(ls@) == lv,
            lv == remote_lines(output@),
            vstd::utf8::valid_utf8(output@),
            cs == Seq::new(lv.len(), |i: int| remote_line_check(lv, i)),
            crate::text::first_error(cs.take(i as int)) is Ok,
            remotes@.len() == i,
            forall|k: int| 0 <= k < i ==> remote_line_ok(lv[k]),
            forall|k: int| 0 <= k < i ==> #[trigger] remote_read(remotes@[k], lv[k]),
        decreases ls@.len() - i,
    {
        proof {
            crate::text::lemma_first_error_step(cs, i as int);
        }
        assert(lv[i as int] == ls@[i as int]@);
        let remote = match read_remote(&ls[i]) {
            None => {
                proof {
                    crate::text::lemma_first_error_stop(cs, i + 1);
                }
                let line = string_of(&ls[i]);
                return Err(concat(MALFORMED_REMOTE, debug_str(line.as_str()).as_str()));
            },
            Some(r) => r,
        };
        if earlier_remote_named(&remotes, &remote.name) {
            proof {
                let j = choose|j: int| 0 <= j < remotes@.len() && #[trigger] remotes@[j].name@ == remote.name@;
                assert(remote_read(remotes@[j], lv[j]));
                assert(remote_name(lv[j]) == remote_name(lv[i as int]));
                crate::text::lemma_first_error_stop(cs, i + 1);
            }
            return Err(concat(DUPLICATE_REMOTE, debug_str(remote.name.as_str()).as_str()));
        }
        proof {
            if exists|j: int| 0 <= j < i && #[trigger] remote_name(lv[j]) == remote_name(lv[i as int]) {
                let j = choose|j: int| 0 <= j < i && #[trigger] remote_name(lv[j]) == remote_name(lv[i as int]);
                assert(remote_read(remotes@[j], lv[j]));
                assert(remotes@[j].name@ == remote.name@);
            }
        }
        remotes.push(remote);
        i += 1;
    }
    proof {
        crate::text::lemma_first_error_whole(cs);
    }
    Ok(remotes)
}

/// The first remote, from `from` on, with the name.
pub open spec fn named_index(rs: Seq<UserRemote>, name: Seq<char>, from: int) -> Option<int>
    decreases rs.len() - from,
{
    if from < 0 || from >= rs.len() {
        None
    } else if rs[from].name@ == name {
        Some(from)
    } else {
        named_index(rs, name, from + 1)
    }
}

/// Options that turn off GPG verification or enumeration, or disable the
/// remote.
pub open spec fn insecure_options(options: Seq<Seq<char>>) -> bool {
    options.contains("disabled"@) || options.contains("no-gpg-verify"@) || options.contains("no-enumerate"@)
}

pub const MISMATCH_HEAD: &'static str = "Flathub remote mismatch: expected URL \"https://dl.flathub.org/repo/\" with GPG verification and enumeration enabled and no local filter; found URL ";

pub const MISMATCH_TAIL: &'static str = ". Repair or remove the per-user \"flathub\" remote and retry";

pub open spec fn mismatch_message(r: UserRemote) -> Seq<char> {
    MISMATCH_HEAD@ + debug_text(r.url@) + ", options "@ + debug_text(join(string_views(r.options@), ","@))
        + ", and filter "@ + debug_text(r.filter@) + MISMATCH_TAIL@
}

/// Whether the Flathub remote is configured: not at all, as expected, or
/// otherwise (an error that describes it).
pub open spec fn flathub_outcome(rs: Seq<UserRemote>) -> Result<bool, Seq<char>> {
    match named_index(rs, FLATHUB_NAME@, 0) {
        None => Ok(false),
        Some(i) => if rs[i].url@ != FLATHUB_REPOSITORY_URL@ || insecure_options(string_views(rs[i].options@))
            || rs[i].filter@ != "-"@ {
            Err(mismatch_message(rs[i]))
        } else {
            Ok(true)
        },
    }
}

fn has_option(options: &Vec<String>, wanted: &str) -> (r: bool)
    ensures
        r == string_views(options@).contains(wanted@),
{
    let w = chars_of(wanted);
    let mut i: usize = 0;
    while i < options.len()
        invariant
            i <= options@.len(),
            w@ == wanted@,
            forall|k: int| 0 <= k < i ==> string_views(options@)[k] != wanted@,
        decreases options@.len() - i,
    {
        assert(string_views(options@)[i as int] == options@[i as int]@);
        if eq_chars(&chars_of(options[i].as_str()), &w) {
            return true;
        }
        i += 1;
    }
    false
}

/// Checks the Flathub remote among the per-user remotes: `false` where
/// there is none, `true` where it has the expected URL, no local filter
/// and no option that weakens it.
pub fn validate_flathub(remotes: &Vec<UserRemote>) -> (r: Result<bool, String>)
    ensures
        match r {
            Ok(b) => flathub_outcome(remotes@) == Ok::<bool, Seq<char>>(b),
            Err(e) => flathub_outcome(remotes@) == Err::<bool, Seq<char>>(e@),
        },
{
    let name = chars_of(FLATHUB_NAME);
    let mut i: usize = 0;
    while i < remotes.len()
        invariant
            i <= remotes@.len(),
            name@ == FLATHUB_NAME@,
            named_index(remotes@, FLATHUB_NAME@, 0) == named_index(remotes@, FLATHUB_NAME@, i as int),
        ensures
            i <= remotes@.len(),
            i == remotes@.len() ==> named_index(remotes@, FLATHUB_NAME@, 0) is None,
            i < remotes@.len() ==> named_index(remotes@, FLATHUB_NAME@, 0) == Some(i as int),
        decreases remotes@.len() - i,
    {
        if eq_chars(&chars_of(remotes[i].name.as_str()), &name) {
            break;
        }
        i += 1;
    }
    if i == remotes.len() {
        return Ok(false);
    }
    let remote = &remotes[i];
    let insecure = has_option(&remote.options, "disabled") || has_option(&remote.options, "no-gpg-verify")
        || has_option(&remote.options, "no-enumerate");
    if !eq_chars(&chars_of(remote.url.as_str()), &chars_of(FLATHUB_REPOSITORY_URL)) || insecure || !eq_chars(
        &chars_of(remote.filter.as_str()),
        &chars_of("-"),
    ) {
        let options = join_strings(&remote.options, ",");
        let mut m = concat(MISMATCH_HEAD, debug_str(remote.url.as_str()).as_str());
        m.append(", options ");
        m.append(debug_str(options.as_str()).as_str());
        m.append(", and filter ");
        m.append(debug_str(remote.filter.as_str()).as_str());
        m.append(MISMATCH_TAIL);
        return Err(m);
    }
    Ok(true)
}

pub const FLATHUB_MISSING: &'static str = "Flathub remote mismatch: expected the per-user \"flathub\" remote to exist after mutation";

/// After a change: the Flathub remote must be there, as expected.
pub open spec fn require_outcome(rs: Seq<UserRemote>) -> Result<(), Seq<char>> {
    match flathub_outcome(rs) {
        Ok(true) => Ok(()),
        Ok(false) => Err(FLATHUB_MISSING@),
        Err(e) => Err(e),
    }
}

pub fn require_flathub(remotes: &Vec<UserRemote>) -> (r: Result<(), String>)
    ensures
        same_outcome(r, require_outcome(remotes@)),
{
    match validate_flathub(remotes) {
        Ok(true) => Ok(()),
        Ok(false) => Err(FLATHUB_MISSING.to_owned()),
        Err(e) => Err(e),
    }
}

/// The arguments of the `flatpak` query that lists the per-user remotes.
pub fn remotes_query_args() -> (r: Vec<String>)
    ensures
        string_views(r@) == seq!["--user"@, "remotes"@, "--show-disabled"@, "--columns=name,url,options,filter"@],
{
    let r = words(&["--user", "remotes", "--show-disabled", "--columns=name,url,options,filter"]);
    assert(string_views(r@) =~= seq!["--user"@, "remotes"@, "--show-disabled"@, "--columns=name,url,options,filter"@]);
    r
}

pub open spec fn add_remote_command() -> CommandView {
    CommandView {
        label: "Flathub remote ensure"@,
        program: "flatpak"@,
        args: seq!["--user"@, "remote-add"@, FLATHUB_NAME@, FLATHUB_DESCRIPTOR_URL@],
        check: true,
    }
}

pub open spec fn use_for_deps_command() -> CommandView {
    CommandView {
        label: "Flathub dependency use enablement"@,
        program: "flatpak"@,
        args: seq!["--user"@, "remote-modify"@, "--use-for-deps"@, FLATHUB_NAME@],
        check: true,
    }
}

/// Where ensuring the Flathub remote stands, each time after the remotes
/// were listed.
#[derive(Clone, Copy, Debug, PartialEq, Eq, Structural)]
pub enum FlathubStage {
    /// the first listing
    Inspected,
    /// the listing after the remote was added
    Added,
    /// the listing after dependency use was enabled
    DepsEnabled,
}

/// What follows a listing of the remotes: an error, the command to run
/// before listing them again (and the stage that listing is in), or
/// nothing where the remote is ensured.
pub open spec fn flathub_step(stage: FlathubStage, rs: Seq<UserRemote>) -> Result<Option<(CommandView, FlathubStage)>, Seq<char>> {
    match stage {
        FlathubStage::Inspected => match flathub_outcome(rs) {
            Err(e) => Err(e),
            Ok(false) => Ok(Some((add_remote_command(), FlathubStage::Added))),
            Ok(true) => Ok(Some((use_for_deps_command(), FlathubStage::DepsEnabled))),
        },
        FlathubStage::Added => match require_outcome(rs) {
            Err(e) => Err(e),
            Ok(_) => Ok(Some((use_for_deps_command(), FlathubStage::DepsEnabled))),
        },
        FlathubStage::DepsEnabled => match require_outcome(rs) {
            Err(e) => Err(e),
            Ok(_) => Ok(None),
        },
    }
}

/// Decides the next step of ensuring the per-user Flathub remote from the
/// remotes just listed.
pub fn ensure_flathub(stage: FlathubStage, remotes: &Vec<UserRemote>) -> (r: Result<Option<(Command, FlathubStage)>, String>)
    ensures
        match r {
            Err(e) => flathub_step(stage, remotes@) == Err::<Option<(CommandView, FlathubStage)>, Seq<char>>(e@),
            Ok(None) => flathub_step(stage, remotes@) == Ok::<Option<(CommandView, FlathubStage)>, Seq<char>>(None),
            Ok(Some((c, next))) => flathub_step(stage, remotes@) == Ok::<Option<(CommandView, FlathubStage)>, Seq<char>>(Some((c@, next))),
        },
{
    let add = checked("Flathub remote ensure", "flatpak", words(&["--user", "remote-add", FLATHUB_NAME, FLATHUB_DESCRIPTOR_URL]));
    let deps = checked("Flathub dependency use enablement", "flatpak", words(&["--user", "remote-modify", "--use-for-deps", FLATHUB_NAME]));
    assert(add@.args =~= add_remote_command().args);
    assert(deps@.args =~= use_for_deps_command().args);
    match stage {
        FlathubStage::Inspected => {
            if validate_flathub(remotes)? {
                Ok(Some((deps, FlathubStage::DepsEnabled)))
            } else {
                Ok(Some((add, FlathubStage::Added)))
            }
        },
        FlathubStage::Added => {
            require_flathub(remotes)?;
            Ok(Some((deps, FlathubStage::DepsEnabled)))
        },
        FlathubStage::DepsEnabled => {
            require_flathub(remotes)?;
            Ok(None)
        },
    }
}

/// The listing that a stage reads: the first, the one after the remote was
/// added, or the one after dependency use was enabled.
pub open spec fn listing_at(stage: FlathubStage, first: Seq<UserRemote>, added: Seq<UserRemote>, enabled: Seq<UserRemote>) -> Seq<UserRemote> {
    match stage {
        FlathubStage::Inspected => first,
        FlathubStage::Added => added,
        FlathubStage::DepsEnabled => enabled,
    }
}

/// The commands that at most `steps` steps of `ensure_flathub` run from
/// `stage`, each reading its listing, and how the run ends.
pub open spec fn flathub_run(
    stage: FlathubStage,
    first: Seq<UserRemote>,
    added: Seq<UserRemote>,
    enabled: Seq<UserRemote>,
    steps: nat,
) -> (Seq<CommandView>, Result<(), Seq<char>>)
    decreases steps,
{
    if steps == 0 {
        (Seq::empty(), Ok(()))
    } else {
        match flathub_step(stage, listing_at(stage, first, added, enabled)) {
            Err(e) => (Seq::empty(), Err(e)),
            Ok(None) => (Seq::empty(), Ok(())),
            Ok(Some((c, next))) => {
                let (rest, outcome) = flathub_run(next, first, added, enabled, (steps - 1) as nat);
                (seq![c] + rest, outcome)
            },
        }
    }
}

/// Ensuring the Flathub remote adds it only where the first listing lacks
/// it, checks it after the addition, always enables its use for
/// dependencies once it is there, and checks it again after that; the first
/// failed check ends the run with its error.
pub proof fn lemma_flathub_sequence(first: Seq<UserRemote>, added: Seq<UserRemote>, enabled: Seq<UserRemote>)
    ensures
        flathub_run(FlathubStage::Inspected, first, added, enabled, 3) == match flathub_outcome(first) {
            Err(e) => (Seq::<CommandView>::empty(), Err::<(), Seq<char>>(e)),
            Ok(true) => (seq![use_for_deps_command()], require_outcome(enabled)),
            Ok(false) => match require_outcome(added) {
                Err(e) => (seq![add_remote_command()], Err::<(), Seq<char>>(e)),
                Ok(_) => (seq![add_remote_command(), use_for_deps_command()], require_outcome(enabled)),
            },
        },
{
    reveal_with_fuel(flathub_run, 4);
    let deps = use_for_deps_command();
    let add = add_remote_command();
    assert(seq![deps] + Seq::<CommandView>::empty() =~= seq![deps]);
    assert(seq![add] + Seq::<CommandView>::empty() =~= seq![add]);
    assert(seq![add] + seq![deps] =~= seq![add, deps]);
}

} // verus!
