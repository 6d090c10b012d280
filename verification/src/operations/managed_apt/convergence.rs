//! Why migrating a deb822 source file a second time changes nothing.
use vstd::prelude::*;
use crate::text::{
    doubled, contains_seq, is_ascii_space, is_space, to_lower, trim, trim_start, trim_end, words,
    lines, split, split_by, is_char, strip_cr, strip_cr_fn, first_index, lemma_split_by_nonempty,
    lemma_split_parts_free, lemma_split_parts_lack, lemma_split_inner_nonempty,
    lemma_first_index_some, lemma_first_index_at, lemma_trim_empty_iff,
};
use crate::text::{
    join, lemma_lines_join, lemma_join_no_doubled, lemma_join_lacks, lemma_join_holds,
    lemma_words_head,
};
use crate::text::{
    split_str, lemma_split_append, lemma_split_str_doubled_parts, lemma_split_str_join_doubled,
    occurs_at,
};
use crate::platform::ManagedAptSourcesView;
use super::{
    indented, types_fold, types_step, fields_fold, field_step, field_lookup, paragraph_out,
    paragraph_decision, replaced_types, deb822_fields, field_words, enabled_state, deb822_fold,
    reconciled_deb822, reconciled_list, reconciled, changes_fold, file_change, saw_owned,
    lemma_list_migration_idempotent, SourceFileView, SourceChangeView, OWNED_SOURCE,
};
use crate::platform::deb822_text;
use crate::paths::{path_extension, paths_equal};

verus! {

proof fn literal_facts()
    ensures
        to_lower("Types"@) == "types"@,
        trim(seq![' '] + "deb-src"@) == "deb-src"@,
        forall|k: int| 0 <= k < "deb-src"@.len() ==> !is_ascii_space(#[trigger] "deb-src"@[k]),
        "deb-src"@.len() > 0,
        "\n\n"@ == doubled('\n'),
        "\n"@ == seq!['\n'],
{
    reveal_strlit("Types");
    reveal_strlit("types");
    reveal_strlit("deb-src");
    reveal_strlit("\n\n");
    reveal_strlit("\n");
    assert(to_lower("Types"@) =~= "types"@);
    let d = "deb-src"@;
    let a = seq![' '] + d;
    assert(a.drop_first() =~= d);
    assert(!is_space(d[0]) && !is_space(d.last()));
    assert(trim_start(d) == d);
    assert(trim_start(a) == trim_start(d));
    assert(trim_end(d) == d);
}


/// The lines of a paragraph without blank lines or carriage returns: none
/// holds a newline or a carriage return, and all but the first hold something.
proof fn lemma_paragraph_lines(q: Seq<char>)
    requires
        !contains_seq(q, doubled('\n')),
        !q.contains('\r'),
    ensures
        forall|i: int| 0 <= i < lines(q).len() ==> !(#[trigger] lines(q)[i]).contains('\n') && !lines(q)[i].contains('\r'),
        forall|i: int| 1 <= i < lines(q).len() ==> (#[trigger] lines(q)[i]).len() > 0,
{
    let parts = split(q, '\n');
    lemma_split_by_nonempty(q, is_char('\n'));
    lemma_split_parts_free(q, '\n');
    lemma_split_parts_lack(q, '\n', '\r');
    lemma_split_inner_nonempty(q, '\n');
    let front = parts.drop_last();
    assert forall|i: int| 0 <= i < front.len() implies #[trigger] strip_cr(front[i]) == front[i] by {
        assert(front[i] == parts[i]);
        if front[i].len() > 0 {
            assert(front[i][front[i].len() - 1] == front[i].last());
        }
    }
    assert(front.map_values(strip_cr_fn()) =~= front);
    assert(parts.last() == parts[parts.len() - 1]);
    assert forall|i: int| 0 <= i < front.len() implies #[trigger] front[i] == parts[i] by {}
}

/// The lines that the `Types` rewrite writes: none holds a newline or a
/// carriage return, all but the first hold something, and once the field
/// is found the last one holds something and one of them holds a colon.
proof fn lemma_types_shape(ls: Seq<Seq<char>>, k: int, repl: Seq<char>)
    requires
        0 <= k <= ls.len(),
        forall|i: int| 0 <= i < ls.len() ==> !(#[trigger] ls[i]).contains('\n') && !ls[i].contains('\r'),
        forall|i: int| 1 <= i < ls.len() ==> (#[trigger] ls[i]).len() > 0,
        !repl.contains('\n'),
        !repl.contains('\r'),
        types_fold(ls, k, repl) is Ok,
    ensures
        ({
            let (out, _, found) = types_fold(ls, k, repl)->Ok_0;
            &&& out.len() <= k
            &&& forall|j: int| 0 <= j < out.len() ==> !(#[trigger] out[j]).contains('\n') && !out[j].contains('\r')
            &&& forall|j: int| 1 <= j < out.len() ==> (#[trigger] out[j]).len() > 0
            &&& found ==> out.len() >= 1 && out.last().len() > 0
            &&& found ==> exists|j: int| 0 <= j < out.len() && (#[trigger] out[j]).contains(':')
        }),
    decreases k,
{
    if k > 0 {
        if types_fold(ls, k - 1, repl) is Err {
            assert(types_fold(ls, k, repl) is Err);
        }
        lemma_types_shape(ls, k - 1, repl);
        let (o1, r1, f1) = types_fold(ls, k - 1, repl)->Ok_0;
        let line = ls[k - 1];
        let (o, r, f) = types_fold(ls, k, repl)->Ok_0;
        assert(types_fold(ls, k, repl) == types_step((o1, r1, f1), line, repl));
        if indented(line) && r1 {
        } else {
            match first_index(line, ':') {
                Some(c) => {
                    if to_lower(line.take(c)) == to_lower("Types"@) {
                        lemma_first_index_some(line, ':');
                        reveal_strlit(": ");
                        let nl = line.take(c) + ": "@ + repl;
                        assert(o == o1.push(nl));
                        assert(nl[c] == ':');
                        assert(nl.contains(':'));
                        assert(!nl.contains('\n') && !nl.contains('\r')) by {
                            if nl.contains('\n') || nl.contains('\r') {
                                let m = choose|m: int| 0 <= m < nl.len() && (nl[m] == '\n' || nl[m] == '\r');
                                if m < c {
                                    assert(line[m] == nl[m]);
                                } else if m < c + 2 {
                                } else {
                                    assert(repl[m - c - 2] == nl[m]);
                                }
                            }
                        }
                        assert(o[o.len() - 1] == nl);
                        if f1 {
                        }
                        assert(forall|j: int| 0 <= j < o1.len() ==> o[j] == o1[j]);
                    } else {
                        assert(o == o1.push(line));
                        assert(forall|j: int| 0 <= j < o1.len() ==> o[j] == o1[j]);
                        if f {
                            let j = choose|j: int| 0 <= j < o1.len() && (#[trigger] o1[j]).contains(':');
                            assert(o[j] == o1[j]);
                        }
                    }
                },
                None => {
                    assert(o == o1.push(line));
                    assert(forall|j: int| 0 <= j < o1.len() ==> o[j] == o1[j]);
                    if f {
                        let j = choose|j: int| 0 <= j < o1.len() && (#[trigger] o1[j]).contains(':');
                        assert(o[j] == o1[j]);
                    }
                },
            }
        }
    }
}


/// The `Types` rewrite of the first `n` lines reads no further.
proof fn lemma_types_fold_prefix(a: Seq<Seq<char>>, b: Seq<Seq<char>>, n: int, repl: Seq<char>)
    requires
        0 <= n <= a.len(),
        n <= b.len(),
        forall|i: int| 0 <= i < n ==> a[i] == b[i],
    ensures
        types_fold(a, n, repl) == types_fold(b, n, repl),
    decreases n,
{
    if n > 0 {
        lemma_types_fold_prefix(a, b, n - 1, repl);
        assert(a[n - 1] == b[n - 1]);
    }
}

/// The fields of the first `n` lines read no further.
proof fn lemma_fields_fold_prefix(a: Seq<Seq<char>>, b: Seq<Seq<char>>, n: int)
    requires
        0 <= n <= a.len(),
        n <= b.len(),
        forall|i: int| 0 <= i < n ==> a[i] == b[i],
    ensures
        fields_fold(a, n) == fields_fold(b, n),
    decreases n,
{
    if n > 0 {
        lemma_fields_fold_prefix(a, b, n - 1);
        assert(a[n - 1] == b[n - 1]);
    }
}

/// The lines that the `Types` rewrite writes are their own rewrite, in the
/// same state.
proof fn lemma_types_fixed(ls: Seq<Seq<char>>, k: int, repl: Seq<char>)
    requires
        0 <= k <= ls.len(),
        !repl.contains(':'),
        types_fold(ls, k, repl) is Ok,
    ensures
        types_fold(types_fold(ls, k, repl)->Ok_0.0, types_fold(ls, k, repl)->Ok_0.0.len() as int, repl)
            == types_fold(ls, k, repl),
    decreases k,
{
    if k > 0 {
        if types_fold(ls, k - 1, repl) is Err {
            assert(types_fold(ls, k, repl) is Err);
        }
        lemma_types_fixed(ls, k - 1, repl);
        let (o1, r1, f1) = types_fold(ls, k - 1, repl)->Ok_0;
        let line = ls[k - 1];
        let (o, r, f) = types_fold(ls, k, repl)->Ok_0;
        assert(types_fold(ls, k, repl) == types_step((o1, r1, f1), line, repl));
        if indented(line) && r1 {
        } else {
            let kept = match first_index(line, ':') {
                Some(c) => to_lower(line.take(c)) != to_lower("Types"@),
                None => true,
            };
            if kept {
                assert(o == o1.push(line));
                lemma_types_fold_prefix(o, o1, o1.len() as int, repl);
                assert(types_fold(o, o.len() as int, repl) == types_step((o1, r1, f1), line, repl));
            } else {
                let c = first_index(line, ':')->Some_0;
                lemma_first_index_some(line, ':');
                reveal_strlit(": ");
                reveal_strlit("Types");
                let name = line.take(c);
                let nl = name + ": "@ + repl;
                assert(o == o1.push(nl));
                assert(to_lower(name).len() == name.len());
                assert(c > 0);
                assert(nl[0] == line[0]);
                assert(nl[c] == ':');
                assert(forall|j: int| 0 <= j < c ==> nl[j] == line[j]);
                lemma_first_index_at(nl, ':', c);
                assert(nl.take(c) =~= name);
                lemma_types_fold_prefix(o, o1, o1.len() as int, repl);
                assert(types_fold(o, o.len() as int, repl) == types_step((o1, r1, f1), nl, repl));
                assert(name + ": "@ + repl == nl);
            }
        }
    }
}


/// A field value that starts with `repl`, followed by nothing or a space.
spec fn repl_head(v: Seq<char>, repl: Seq<char>) -> bool {
    &&& repl.len() <= v.len()
    &&& v.take(repl.len() as int) == repl
    &&& (v.len() == repl.len() || v[repl.len() as int] == ' ')
}

/// The fields of a paragraph and of its `Types` rewrite: the same names in
/// the same order, the same values but for `types`, whose new value starts
/// with `repl`; while continuation lines of `Types` are being dropped, the
/// last field is `types`.
spec fn related(f: Seq<(Seq<char>, Seq<char>)>, g: Seq<(Seq<char>, Seq<char>)>, repl: Seq<char>, rep: bool) -> bool {
    &&& f.len() == g.len()
    &&& forall|j: int| 0 <= j < f.len() ==> (#[trigger] f[j]).0 == g[j].0
    &&& forall|j: int| 0 <= j < f.len() && (#[trigger] f[j]).0 != "types"@ ==> f[j].1 == g[j].1
    &&& forall|j: int| 0 <= j < f.len() && (#[trigger] f[j]).0 == "types"@ ==> repl_head(g[j].1, repl)
    &&& rep ==> f.len() > 0 && f.last().0 == "types"@
}

/// Related fields are found under the same names, with the same values but
/// for `types`.
proof fn lemma_related_lookup(
    f: Seq<(Seq<char>, Seq<char>)>,
    g: Seq<(Seq<char>, Seq<char>)>,
    repl: Seq<char>,
    rep: bool,
    key: Seq<char>,
)
    requires
        related(f, g, repl, rep),
    ensures
        field_lookup(f, key) is Some <==> field_lookup(g, key) is Some,
        key != "types"@ ==> field_lookup(f, key) == field_lookup(g, key),
        key == "types"@ && field_lookup(g, key) is Some ==> repl_head(field_lookup(g, key)->Some_0, repl),
    decreases f.len(),
{
    if f.len() > 0 {
        let n = f.len() - 1;
        assert(f[n].0 == g[n].0);
        assert(f.last() == f[n] && g.last() == g[n]);
        if f[n].0 != key {
            let fd = f.drop_last();
            let gd = g.drop_last();
            assert forall|j: int| 0 <= j < fd.len() implies fd[j] == f[j] && gd[j] == g[j] by {}
            assert(related(fd, gd, repl, false));
            lemma_related_lookup(fd, gd, repl, false, key);
        }
    }
}

/// Fields read from a paragraph and from its `Types` rewrite are related.
#[verifier::rlimit(40)]
proof fn lemma_fields_related(ls: Seq<Seq<char>>, k: int, repl: Seq<char>)
    requires
        0 <= k <= ls.len(),
        !repl.contains(':'),
        repl.len() > 0,
        trim(seq![' '] + repl) == repl,
        types_fold(ls, k, repl) is Ok,
        fields_fold(ls, k) is Ok,
    ensures
        fields_fold(types_fold(ls, k, repl)->Ok_0.0, types_fold(ls, k, repl)->Ok_0.0.len() as int) is Ok,
        related(
            fields_fold(ls, k)->Ok_0,
            fields_fold(types_fold(ls, k, repl)->Ok_0.0, types_fold(ls, k, repl)->Ok_0.0.len() as int)->Ok_0,
            repl,
            types_fold(ls, k, repl)->Ok_0.1,
        ),
    decreases k,
{
    if k > 0 {
        if types_fold(ls, k - 1, repl) is Err {
            assert(types_fold(ls, k, repl) is Err);
        }
        if fields_fold(ls, k - 1) is Err {
            assert(fields_fold(ls, k) is Err);
        }
        lemma_fields_related(ls, k - 1, repl);
        literal_facts();
        reveal_strlit("types");
        reveal_strlit("Types");
        let (o1, r1, f1) = types_fold(ls, k - 1, repl)->Ok_0;
        let line = ls[k - 1];
        let (o, r, fnd) = types_fold(ls, k, repl)->Ok_0;
        let ff1 = fields_fold(ls, k - 1)->Ok_0;
        let ff = fields_fold(ls, k)->Ok_0;
        let gg1 = fields_fold(o1, o1.len() as int)->Ok_0;
        assert(types_fold(ls, k, repl) == types_step((o1, r1, f1), line, repl));
        assert(fields_fold(ls, k) == field_step(ff1, line));
        if indented(line) && r1 {
            assert(o == o1);
            assert(line[0] == ' ' || line[0] == '\t');
            if trim(line).len() == 0 {
                assert(ff == ff1);
            } else {
                let n = ff1.len() - 1;
                assert(ff == ff1.update(n, (ff1.last().0, ff1.last().1.push(' ') + trim(line))));
                assert forall|j: int| 0 <= j < ff.len() implies (#[trigger] ff[j]).0 == gg1[j].0 by {
                    if j != n {
                        assert(ff[j] == ff1[j]);
                    }
                }
                assert forall|j: int| 0 <= j < ff.len() && (#[trigger] ff[j]).0 != "types"@ implies ff[j].1 == gg1[j].1 by {
                    assert(ff[j] == ff1[j]);
                }
                assert forall|j: int| 0 <= j < ff.len() && (#[trigger] ff[j]).0 == "types"@ implies repl_head(gg1[j].1, repl) by {
                    if j != n {
                        assert(ff[j] == ff1[j]);
                    } else {
                        assert(ff1[j].0 == "types"@);
                    }
                }
            }
        } else {
            let kept = match first_index(line, ':') {
                Some(c) => to_lower(line.take(c)) != to_lower("Types"@),
                None => true,
            };
            if kept {
                assert(o == o1.push(line));
                lemma_fields_fold_prefix(o, o1, o1.len() as int);
                assert(fields_fold(o, o.len() as int) == field_step(gg1, line));
                lemma_fields_kept(ff1, gg1, repl, r1, line);
            } else {
                let c = first_index(line, ':')->Some_0;
                lemma_first_index_some(line, ':');
                reveal_strlit(": ");
                let name = line.take(c);
                let nl = name + ": "@ + repl;
                assert(o == o1.push(nl));
                assert(to_lower(name).len() == name.len());
                assert(c == 5);
                assert(to_lower(name)[0] == 't');
                assert(name[0] == line[0]);
                assert(line[0] != '#' && line[0] != ' ' && line[0] != '\t');
                assert(nl[0] == line[0]);
                assert(nl[c] == ':');
                assert(forall|j: int| 0 <= j < c ==> nl[j] == line[j]);
                lemma_first_index_at(nl, ':', c);
                assert(nl.take(c) =~= name);
                lemma_trim_empty_iff(line);
                lemma_trim_empty_iff(nl);
                assert(!is_space(line[c]));
                assert(!is_space(nl[c]));
                assert(nl.skip(c + 1) =~= seq![' '] + repl);
                lemma_fields_fold_prefix(o, o1, o1.len() as int);
                assert(fields_fold(o, o.len() as int) == field_step(gg1, nl));
                lemma_related_lookup(ff1, gg1, repl, r1, to_lower(name));
                let gg = fields_fold(o, o.len() as int)->Ok_0;
                assert(ff == ff1.push((to_lower(name), trim(line.skip(c + 1)))));
                assert(gg == gg1.push((to_lower(name), repl)));
                assert(repl.take(repl.len() as int) =~= repl);
                assert forall|j: int| 0 <= j < ff.len() implies (#[trigger] ff[j]).0 == gg[j].0 by {
                    if j < ff1.len() {
                        assert(ff[j] == ff1[j] && gg[j] == gg1[j]);
                    }
                }
                assert forall|j: int| 0 <= j < ff.len() && (#[trigger] ff[j]).0 != "types"@ implies ff[j].1 == gg[j].1 by {
                    assert(ff[j] == ff1[j] && gg[j] == gg1[j]);
                }
                assert forall|j: int| 0 <= j < ff.len() && (#[trigger] ff[j]).0 == "types"@ implies repl_head(gg[j].1, repl) by {
                    if j < ff1.len() {
                        assert(ff[j] == ff1[j] && gg[j] == gg1[j]);
                    }
                }
            }
        }
    }
}

/// A line kept by the `Types` rewrite is read alike into related fields.
proof fn lemma_fields_kept(
    ff1: Seq<(Seq<char>, Seq<char>)>,
    gg1: Seq<(Seq<char>, Seq<char>)>,
    repl: Seq<char>,
    rep: bool,
    line: Seq<char>,
)
    requires
        related(ff1, gg1, repl, rep),
        field_step(ff1, line) is Ok,
        match first_index(line, ':') {
            Some(c) => to_lower(line.take(c)) != "types"@,
            None => true,
        },
    ensures
        field_step(gg1, line) is Ok,
        related(field_step(ff1, line)->Ok_0, field_step(gg1, line)->Ok_0, repl, false),
{
    let ff = field_step(ff1, line)->Ok_0;
    let gg = field_step(gg1, line)->Ok_0;
    if trim(line).len() == 0 || (line.len() > 0 && line[0] == '#') {
    } else if indented(line) {
        let n = ff1.len() - 1;
        assert(ff1.last() == ff1[n] && gg1.last() == gg1[n]);
        assert(ff1[n].0 == gg1[n].0);
        assert forall|j: int| 0 <= j < ff.len() implies (#[trigger] ff[j]).0 == gg[j].0 by {
            if j != n {
                assert(ff[j] == ff1[j] && gg[j] == gg1[j]);
            }
        }
        assert forall|j: int| 0 <= j < ff.len() && (#[trigger] ff[j]).0 != "types"@ implies ff[j].1 == gg[j].1 by {
            if j != n {
                assert(ff[j] == ff1[j] && gg[j] == gg1[j]);
            } else {
                assert(ff1[n].1 == gg1[n].1);
            }
        }
        assert forall|j: int| 0 <= j < ff.len() && (#[trigger] ff[j]).0 == "types"@ implies repl_head(gg[j].1, repl) by {
            if j != n {
                assert(ff[j] == ff1[j] && gg[j] == gg1[j]);
            } else {
                let v = gg1[n].1;
                assert(repl_head(v, repl));
                let w = v.push(' ') + trim(line);
                assert(gg[j].1 == w);
                assert(w.take(repl.len() as int) =~= v.take(repl.len() as int));
                if v.len() == repl.len() {
                    assert(w[repl.len() as int] == ' ');
                } else {
                    assert(w[repl.len() as int] == v[repl.len() as int]);
                }
            }
        }
    } else {
        let c = first_index(line, ':')->Some_0;
        let name = line.take(c);
        lemma_related_lookup(ff1, gg1, repl, rep, to_lower(name));
        assert(ff == ff1.push((to_lower(name), trim(line.skip(c + 1)))));
        assert(gg == gg1.push((to_lower(name), trim(line.skip(c + 1)))));
        assert forall|j: int| 0 <= j < ff.len() implies (#[trigger] ff[j]).0 == gg[j].0 && (ff[j].0 != "types"@ ==> ff[j].1 == gg[j].1) && (ff[j].0 == "types"@ ==> repl_head(gg[j].1, repl)) by {
            if j < ff1.len() {
                assert(ff[j] == ff1[j] && gg[j] == gg1[j]);
            }
        }
    }
}


/// A paragraph that the migration rewrites becomes one that the migration
/// keeps as it is; the new text has no blank line and no carriage return,
/// and does not end with a newline.
#[verifier::rlimit(60)]
proof fn lemma_rewritten_stable(p: ManagedAptSourcesView, q: Seq<char>, t: Seq<char>)
    requires
        !contains_seq(q, doubled('\n')),
        !q.contains('\r'),
        paragraph_out(p, q) == Ok::<Option<Seq<char>>, Seq<char>>(Some(t)),
        t != q,
    ensures
        paragraph_out(p, t) == Ok::<Option<Seq<char>>, Seq<char>>(Some(t)),
        !contains_seq(t, doubled('\n')),
        !t.contains('\r'),
        !(t.len() > 0 && t.last() == '\n'),
{
    literal_facts();
    let repl = "deb-src"@;
    reveal_strlit("types");
    reveal_strlit("enabled");
    reveal_strlit("uris");
    reveal_strlit("suites");
    reveal_strlit("architectures");
    reveal_strlit("architectures-add");
    reveal_strlit("architectures-remove");
    reveal_strlit("deb-src");
    let ls = lines(q);
    let n = ls.len() as int;
    let f = deb822_fields(q)->Ok_0;
    assert(deb822_fields(q) is Ok);
    assert(replaced_types(q, repl) == Ok::<Seq<char>, Seq<char>>(t));
    let (o, rep, found) = types_fold(ls, n, repl)->Ok_0;
    assert(found && t == join(o, "\n"@));
    assert(!repl.contains('\n') && !repl.contains('\r') && !repl.contains(':')) by {
        if repl.contains('\n') || repl.contains('\r') || repl.contains(':') {
            let m = choose|m: int| 0 <= m < repl.len() && (repl[m] == '\n' || repl[m] == '\r' || repl[m] == ':');
            assert(!is_ascii_space(repl[m]));
        }
    }
    lemma_paragraph_lines(q);
    lemma_types_shape(ls, n, repl);
    lemma_lines_join(o);
    lemma_join_no_doubled(o, '\n');
    lemma_join_lacks(o, seq!['\n'], '\r');
    assert(!seq!['\n'].contains('\r')) by {
        assert(seq!['\n'][0] == '\n');
    }
    lemma_types_fixed(ls, n, repl);
    assert(replaced_types(t, repl) == Ok::<Seq<char>, Seq<char>>(t));
    lemma_fields_related(ls, n, repl);
    let g = fields_fold(o, o.len() as int)->Ok_0;
    assert(deb822_fields(t) == Ok::<Seq<(Seq<char>, Seq<char>)>, Seq<char>>(g));
    assert("enabled"@.len() == 7 && "types"@.len() == 5 && "uris"@.len() == 4 && "suites"@.len() == 6);
    assert("architectures"@.len() == 13 && "architectures-add"@.len() == 17 && "architectures-remove"@.len() == 20);
    assert("enabled"@ != "types"@ && "uris"@ != "types"@ && "suites"@ != "types"@);
    assert("architectures"@ != "types"@ && "architectures-add"@ != "types"@ && "architectures-remove"@ != "types"@);
    lemma_related_lookup(f, g, repl, rep, "types"@);
    lemma_related_lookup(f, g, repl, rep, "enabled"@);
    lemma_related_lookup(f, g, repl, rep, "uris"@);
    lemma_related_lookup(f, g, repl, rep, "suites"@);
    lemma_related_lookup(f, g, repl, rep, "architectures"@);
    lemma_related_lookup(f, g, repl, rep, "architectures-add"@);
    lemma_related_lookup(f, g, repl, rep, "architectures-remove"@);
    assert(field_lookup(f, "types"@) is Some);
    let v = field_lookup(g, "types"@)->Some_0;
    assert(repl_head(v, repl));
    let w = v.skip(repl.len() as int);
    assert(repl + w =~= v);
    lemma_words_head(repl, w);
    assert(field_words(g, "types"@).contains(repl));
    let j = choose|j: int| 0 <= j < o.len() && (#[trigger] o[j]).contains(':');
    lemma_join_holds(o, "\n"@, j, ':');
    lemma_trim_empty_iff(t);
    let m = choose|m: int| 0 <= m < t.len() && t[m] == ':';
    assert(!is_space(t[m]));
    assert(trim(t).len() != 0);
    assert(enabled_state(g) == enabled_state(f));
}


/// A paragraph kept as it is, followed by a newline, is kept as it is or
/// comes out without that newline.
#[verifier::rlimit(40)]
proof fn lemma_push_newline(p: ManagedAptSourcesView, x: Seq<char>)
    requires
        paragraph_out(p, x) == Ok::<Option<Seq<char>>, Seq<char>>(Some(x)),
        !x.contains('\r'),
        !(x.len() > 0 && x.last() == '\n'),
    ensures
        paragraph_out(p, x.push('\n')) == Ok::<Option<Seq<char>>, Seq<char>>(Some(x.push('\n')))
            || paragraph_out(p, x.push('\n')) == Ok::<Option<Seq<char>>, Seq<char>>(Some(x)),
{
    let y = x.push('\n');
    lemma_trim_empty_iff(x);
    lemma_trim_empty_iff(y);
    assert(is_space('\n'));
    if x.len() == 0 {
        assert(forall|k: int| 0 <= k < y.len() ==> is_space(#[trigger] y[k]));
    } else {
        assert((forall|k: int| 0 <= k < y.len() ==> is_space(#[trigger] y[k]))
            <==> (forall|k: int| 0 <= k < x.len() ==> is_space(#[trigger] x[k]))) by {
            if forall|k: int| 0 <= k < x.len() ==> is_space(#[trigger] x[k]) {
                assert forall|k: int| 0 <= k < y.len() implies is_space(#[trigger] y[k]) by {
                    if k < x.len() {
                        assert(y[k] == x[k]);
                    }
                }
            }
            if forall|k: int| 0 <= k < y.len() ==> is_space(#[trigger] y[k]) {
                assert forall|k: int| 0 <= k < x.len() implies is_space(#[trigger] x[k]) by {
                    assert(y[k] == x[k]);
                }
            }
        }
        lemma_split_append(x, '\n', Seq::<char>::empty());
        assert(y + Seq::<char>::empty() =~= y);
        let px = split(x, '\n');
        lemma_split_by_nonempty(x.drop_last(), is_char('\n'));
        lemma_split_by_nonempty(x, is_char('\n'));
        assert(x.last() != '\n');
        assert(px.last().len() > 0);
        lemma_split_parts_lack(x, '\n', '\r');
        assert(px.last() == px[px.len() - 1]);
        assert(strip_cr(px.last()) == px.last()) by {
            assert(px.last()[px.last().len() - 1] == px.last().last());
        }
        assert(split(y, '\n') == px.push(Seq::<char>::empty()));
        assert(px.push(Seq::<char>::empty()).drop_last() =~= px);
        assert(px.map_values(strip_cr_fn()) =~= px.drop_last().map_values(strip_cr_fn()).push(px.last()));
        assert(lines(y) == lines(x));
        assert(deb822_fields(y) == deb822_fields(x));
        assert(replaced_types(y, "deb-src"@) == replaced_types(x, "deb-src"@));
    }
}

/// Migrating paragraphs that the migration keeps as they are gives them back.
proof fn lemma_fold_stable(p: ManagedAptSourcesView, qs: Seq<Seq<char>>, m: int)
    requires
        0 <= m <= qs.len(),
        forall|j: int| 0 <= j < m ==> paragraph_out(p, #[trigger] qs[j]) == Ok::<Option<Seq<char>>, Seq<char>>(Some(qs[j])),
    ensures
        deb822_fold(p, qs, m) == Ok::<Seq<Seq<char>>, Seq<char>>(qs.take(m)),
    decreases m,
{
    if m > 0 {
        lemma_fold_stable(p, qs, m - 1);
        assert(paragraph_out(p, qs[m - 1]) == Ok::<Option<Seq<char>>, Seq<char>>(Some(qs[m - 1])));
        assert(qs.take(m) =~= qs.take(m - 1).push(qs[m - 1]));
    } else {
        assert(qs.take(0) =~= Seq::<Seq<char>>::empty());
    }
}

/// What the migration of the first `m` paragraphs gives: paragraphs without
/// blank lines or carriage returns, each kept as it is by the migration, and
/// only the last one, taken from the last paragraph, ending with a newline.
proof fn lemma_fold_shape(p: ManagedAptSourcesView, ps: Seq<Seq<char>>, m: int)
    requires
        0 <= m <= ps.len(),
        forall|i: int| 0 <= i < ps.len() ==> !contains_seq(#[trigger] ps[i], doubled('\n')) && !ps[i].contains('\r'),
        forall|i: int| 0 <= i < ps.len() - 1 ==> !((#[trigger] ps[i]).len() > 0 && ps[i].last() == '\n'),
        deb822_fold(p, ps, m) is Ok,
    ensures
        ({
            let out = deb822_fold(p, ps, m)->Ok_0;
            &&& forall|j: int| 0 <= j < out.len() ==> !contains_seq(#[trigger] out[j], doubled('\n')) && !out[j].contains('\r')
            &&& forall|j: int| 0 <= j < out.len() ==> paragraph_out(p, #[trigger] out[j]) == Ok::<Option<Seq<char>>, Seq<char>>(Some(out[j]))
            &&& forall|j: int| 0 <= j < out.len() && (#[trigger] out[j]).len() > 0 && out[j].last() == '\n'
                ==> m == ps.len() && j == out.len() - 1
        }),
    decreases m,
{
    if m > 0 {
        if deb822_fold(p, ps, m - 1) is Err {
            assert(deb822_fold(p, ps, m) is Err);
        }
        lemma_fold_shape(p, ps, m - 1);
        let o1 = deb822_fold(p, ps, m - 1)->Ok_0;
        let q = ps[m - 1];
        let out = deb822_fold(p, ps, m)->Ok_0;
        match paragraph_out(p, q) {
            Ok(Some(t)) => {
                assert(out == o1.push(t));
                if t != q {
                    lemma_rewritten_stable(p, q, t);
                }
                assert forall|j: int| 0 <= j < o1.len() implies #[trigger] out[j] == o1[j] by {}
            },
            _ => {},
        }
    }
}

/// Paragraphs without blank lines, none but the last ending with a newline,
/// each kept as it is by the migration, joined by blank lines, are their own
/// migration.
proof fn lemma_rerun_joined(p: ManagedAptSourcesView, qs: Seq<Seq<char>>)
    requires
        qs.len() >= 1,
        forall|j: int| 0 <= j < qs.len() ==> !contains_seq(#[trigger] qs[j], doubled('\n')),
        forall|j: int| 0 <= j < qs.len() - 1 ==> !((#[trigger] qs[j]).len() > 0 && qs[j].last() == '\n'),
        forall|j: int| 0 <= j < qs.len() ==> paragraph_out(p, #[trigger] qs[j]) == Ok::<Option<Seq<char>>, Seq<char>>(Some(qs[j])),
    ensures
        reconciled_deb822(p, join(qs, doubled('\n'))) == Ok::<Seq<char>, Seq<char>>(join(qs, doubled('\n'))),
{
    literal_facts();
    lemma_split_str_join_doubled(qs, '\n');
    lemma_fold_stable(p, qs, qs.len() as int);
    assert(qs.take(qs.len() as int) =~= qs);
}

/// The same paragraphs, with a newline after the last one that does not end
/// with one, are their own migration too.
proof fn lemma_rerun_pushed(p: ManagedAptSourcesView, qs: Seq<Seq<char>>)
    requires
        qs.len() >= 1,
        forall|j: int| 0 <= j < qs.len() ==> !contains_seq(#[trigger] qs[j], doubled('\n')),
        forall|j: int| 0 <= j < qs.len() ==> !((#[trigger] qs[j]).len() > 0 && qs[j].last() == '\n'),
        forall|j: int| 0 <= j < qs.len() ==> paragraph_out(p, #[trigger] qs[j]) == Ok::<Option<Seq<char>>, Seq<char>>(Some(qs[j])),
        !qs.last().contains('\r'),
        qs.last().len() == 0 ==> qs.len() == 1,
    ensures
        reconciled_deb822(p, join(qs, doubled('\n')).push('\n'))
            == Ok::<Seq<char>, Seq<char>>(join(qs, doubled('\n')).push('\n')),
{
    literal_facts();
    let dd = doubled('\n');
    let n = qs.len() - 1;
    let x = qs[n];
    assert(qs.last() == x);
    let x1 = x.push('\n');
    let qs1 = qs.update(n, x1);
    let big = join(qs, dd).push('\n');
    assert(join(qs1, dd) == big) by {
        if n == 0 {
            assert(qs1 =~= seq![x1]);
        } else {
            assert(qs1.drop_last() =~= qs.drop_last());
            assert(join(qs, dd) == join(qs.drop_last(), dd) + dd + x);
            assert(join(qs1, dd) == join(qs1.drop_last(), dd) + dd + x1);
            assert(join(qs1, dd) =~= join(qs, dd).push('\n'));
        }
    }
    assert forall|k: int| !occurs_at(x1, dd, k) by {
        if occurs_at(x1, dd, k) {
            let sub = x1.subrange(k, k + 2);
            assert(x1[k] == sub[0] && x1[k + 1] == sub[1]);
            if k + 2 <= x.len() {
                assert(x.subrange(k, k + 2) =~= sub);
                assert(occurs_at(x, dd, k));
            } else {
                assert(x1[k] == x[k]);
                assert(x.last() == x[x.len() - 1]);
            }
        }
    }
    assert forall|j: int| 0 <= j < qs1.len() implies !contains_seq(#[trigger] qs1[j], dd) by {
        if j != n {
            assert(qs1[j] == qs[j]);
        }
    }
    assert forall|j: int| 0 <= j < qs1.len() - 1 implies !((#[trigger] qs1[j]).len() > 0 && qs1[j].last() == '\n') by {
        assert(qs1[j] == qs[j]);
    }
    lemma_split_str_join_doubled(qs1, '\n');
    assert(split_str(big, dd) == qs1);
    assert forall|j: int| 0 <= j < n implies paragraph_out(p, #[trigger] qs1[j]) == Ok::<Option<Seq<char>>, Seq<char>>(Some(qs1[j])) by {
        assert(qs1[j] == qs[j]);
    }
    lemma_fold_stable(p, qs1, n);
    lemma_push_newline(p, x);
    assert(qs1[n] == x1);
    assert(qs1.take(n) =~= qs.drop_last());
    if paragraph_out(p, x1) == Ok::<Option<Seq<char>>, Seq<char>>(Some(x1)) {
        assert(qs.drop_last().push(x1) =~= qs1);
        assert(deb822_fold(p, qs1, qs1.len() as int) == Ok::<Seq<Seq<char>>, Seq<char>>(qs1));
    } else {
        assert(qs.drop_last().push(x) =~= qs);
        assert(deb822_fold(p, qs1, qs1.len() as int) == Ok::<Seq<Seq<char>>, Seq<char>>(qs));
        assert(!(join(qs, dd).len() > 0 && join(qs, dd).last() == '\n')) by {
            if n == 0 {
            } else {
                assert(join(qs, dd) == join(qs.drop_last(), dd) + dd + x);
                assert(x.len() > 0);
                assert(join(qs, dd).last() == x.last());
            }
        }
    }
}

/// Migrating a deb822 source file twice changes nothing the second time:
/// the migrated text is its own migration. This holds of every text without
/// carriage returns.
pub proof fn lemma_deb822_migration_idempotent(p: ManagedAptSourcesView, text: Seq<char>)
    requires
        reconciled_deb822(p, text) is Ok,
        !text.contains('\r'),
    ensures
        reconciled_deb822(p, reconciled_deb822(p, text)->Ok_0) == reconciled_deb822(p, text),
{
    literal_facts();
    let dd = doubled('\n');
    let ps = split_str(text, dd);
    lemma_split_str_doubled_parts(text, '\n', '\r');
    if deb822_fold(p, ps, ps.len() as int) is Err {
        assert(reconciled_deb822(p, text) is Err);
    }
    lemma_fold_shape(p, ps, ps.len() as int);
    let out = deb822_fold(p, ps, ps.len() as int)->Ok_0;
    let r = join(out, dd);
    let big = reconciled_deb822(p, text)->Ok_0;
    let out0 = if out.len() == 0 { seq![Seq::<char>::empty()] } else { out };
    assert(join(out0, dd) == r);
    assert(paragraph_out(p, Seq::<char>::empty()) == Ok::<Option<Seq<char>>, Seq<char>>(Some(Seq::<char>::empty()))) by {
        lemma_trim_empty_iff(Seq::<char>::empty());
    }
    assert forall|j: int| 0 <= j < out0.len() implies
        !contains_seq(#[trigger] out0[j], dd) && !out0[j].contains('\r')
        && paragraph_out(p, out0[j]) == Ok::<Option<Seq<char>>, Seq<char>>(Some(out0[j]))
        && (j < out0.len() - 1 ==> !(out0[j].len() > 0 && out0[j].last() == '\n')) by {
        if out.len() == 0 {
            assert(out0[j] == Seq::<char>::empty());
            assert forall|k: int| !occurs_at(out0[j], dd, k) by {}
        }
    }
    let pushed = text.len() > 0 && text.last() == '\n' && !(r.len() > 0 && r.last() == '\n');
    if !pushed {
        assert(big == r);
        lemma_rerun_joined(p, out0);
    } else {
        assert(big == r.push('\n'));
        let n = out0.len() - 1;
        let x = out0[n];
        assert(!(x.len() > 0 && x.last() == '\n') && (x.len() == 0 ==> n == 0)) by {
            if n == 0 {
                assert(r == x);
            } else {
                assert(r == join(out0.drop_last(), dd) + dd + out0.last());
                assert(out0.last() == x);
                if x.len() == 0 {
                    assert(r.last() == dd[1]);
                } else {
                    assert(r.last() == x.last());
                }
            }
        }
        assert(out0.last() == x);
        lemma_rerun_pushed(p, out0);
    }
}


/// A deb822 source file that holds the result of an earlier migration of a
/// text without carriage returns needs no change.
pub proof fn lemma_migrated_deb822_file_unchanged(p: ManagedAptSourcesView, f: SourceFileView, earlier: Seq<char>)
    requires
        !paths_equal(f.path, OWNED_SOURCE@),
        path_extension(f.path) == Some("sources"@),
        reconciled_deb822(p, earlier) == Ok::<Seq<char>, Seq<char>>(f.text),
        !earlier.contains('\r'),
    ensures
        file_change(p, f) == Ok::<Option<SourceChangeView>, Seq<char>>(None),
{
    reveal_strlit("list");
    reveal_strlit("sources");
    assert("sources"@ != "list"@) by {
        assert("sources"@.len() != "list"@.len());
    }
    lemma_deb822_migration_idempotent(p, earlier);
}

/// A source file in a state that the migration leaves alone: the owned
/// source holding the policy's rendering, or another source file holding
/// what migrating `earlier` gave (a deb822 one from a text without carriage
/// returns).
pub open spec fn settled(p: ManagedAptSourcesView, f: SourceFileView, earlier: Seq<char>) -> bool {
    if paths_equal(f.path, OWNED_SOURCE@) {
        f.text == deb822_text(p.stanzas)
    } else if path_extension(f.path) is None || path_extension(f.path) == Some("list"@) {
        reconciled_list(p, earlier) == Ok::<Seq<char>, Seq<char>>(f.text)
    } else {
        &&& path_extension(f.path) == Some("sources"@)
        &&& !earlier.contains('\r')
        &&& reconciled_deb822(p, earlier) == Ok::<Seq<char>, Seq<char>>(f.text)
    }
}

proof fn lemma_settled_changes(p: ManagedAptSourcesView, files: Seq<SourceFileView>, earlier: Seq<Seq<char>>, n: int)
    requires
        0 <= n <= files.len(),
        earlier.len() == files.len(),
        forall|i: int| 0 <= i < files.len() ==> settled(p, #[trigger] files[i], earlier[i]),
    ensures
        changes_fold(p, files, n) == Ok::<Seq<SourceChangeView>, Seq<char>>(Seq::empty()),
    decreases n,
{
    if n > 0 {
        lemma_settled_changes(p, files, earlier, n - 1);
        let f = files[n - 1];
        assert(settled(p, f, earlier[n - 1]));
        if paths_equal(f.path, OWNED_SOURCE@) {
        } else if path_extension(f.path) is None || path_extension(f.path) == Some("list"@) {
            lemma_list_migration_idempotent(p, earlier[n - 1]);
        } else {
            lemma_migrated_deb822_file_unchanged(p, f, earlier[n - 1]);
        }
    }
}

/// Reconciling source files that an earlier reconciliation left, with the
/// owned source among them, asks for no change: a second run is a no-op.
pub proof fn lemma_reconcile_converged(p: ManagedAptSourcesView, files: Seq<SourceFileView>, earlier: Seq<Seq<char>>)
    requires
        earlier.len() == files.len(),
        saw_owned(files),
        forall|i: int| 0 <= i < files.len() ==> settled(p, #[trigger] files[i], earlier[i]),
    ensures
        reconciled(p, files) == Ok::<Seq<SourceChangeView>, Seq<char>>(Seq::empty()),
{
    lemma_settled_changes(p, files, earlier, files.len() as int);
}

} // verus!
