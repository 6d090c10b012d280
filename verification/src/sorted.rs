//! Texts in the order of `String`'s `Ord` (code point by code point, a
//! proper prefix first), and sorted lists of distinct texts, as a
//! `BTreeSet<String>` holds them.
use vstd::prelude::*;
use crate::text::{chars_of, string_views};

verus! {

/// `a` comes before `b`: at the first position where they differ, `a` has
/// the smaller code point, or `a` is a proper prefix of `b`.
pub open spec fn text_less(a: Seq<char>, b: Seq<char>) -> bool
    decreases a.len(),
{
    if a.len() == 0 {
        b.len() > 0
    } else if b.len() == 0 {
        false
    } else if a[0] != b[0] {
        (a[0] as int) < (b[0] as int)
    } else {
        text_less(a.drop_first(), b.drop_first())
    }
}

/// Distinct texts in ascending order.
pub open spec fn strictly_sorted(s: Seq<Seq<char>>) -> bool {
    forall|i: int, j: int| 0 <= i < j < s.len() ==> text_less(#[trigger] s[i], #[trigger] s[j])
}

/// `sorted` holds exactly the texts of `items`, each once, in ascending
/// order: what collecting `items` into a `BTreeSet` and walking it gives.
pub open spec fn sorted_set_of(sorted: Seq<Seq<char>>, items: Seq<Seq<char>>) -> bool {
    &&& strictly_sorted(sorted)
    &&& forall|t: Seq<char>| sorted.contains(t) <==> items.contains(t)
}

pub proof fn lemma_less_irreflexive(a: Seq<char>)
    ensures
        !text_less(a, a),
    decreases a.len(),
{
    if a.len() > 0 {
        lemma_less_irreflexive(a.drop_first());
    }
}

pub proof fn lemma_less_transitive(a: Seq<char>, b: Seq<char>, c: Seq<char>)
    requires
        text_less(a, b),
        text_less(b, c),
    ensures
        text_less(a, c),
    decreases a.len(),
{
    if a.len() > 0 && b.len() > 0 && c.len() > 0 && a[0] == b[0] && b[0] == c[0] {
        lemma_less_transitive(a.drop_first(), b.drop_first(), c.drop_first());
    }
}

pub proof fn lemma_less_total(a: Seq<char>, b: Seq<char>)
    requires
        a != b,
    ensures
        text_less(a, b) || text_less(b, a),
    decreases a.len(),
{
    if a.len() > 0 && b.len() > 0 && a[0] == b[0] {
        if a.drop_first() == b.drop_first() {
            assert(a =~= seq![a[0]] + a.drop_first());
            assert(b =~= seq![b[0]] + b.drop_first());
        }
        lemma_less_total(a.drop_first(), b.drop_first());
    } else if a.len() == 0 && b.len() == 0 {
        assert(a =~= b);
    }
}

/// Whether `a` comes before `b`.
pub fn less_text(a: &[char], b: &[char]) -> (r: bool)
    ensures
        r == text_less(a@, b@),
{
    let mut i: usize = 0;
    assert(a@.skip(0) =~= a@);
    assert(b@.skip(0) =~= b@);
    while i < a.len() && i < b.len() && a[i] == b[i]
        invariant
            i <= a@.len(),
            i <= b@.len(),
            text_less(a@, b@) == text_less(a@.skip(i as int), b@.skip(i as int)),
        decreases a@.len() - i,
    {
        assert(a@.skip(i as int).drop_first() =~= a@.skip(i + 1));
        assert(b@.skip(i as int).drop_first() =~= b@.skip(i + 1));
        i += 1;
    }
    let ghost sa = a@.skip(i as int);
    let ghost sb = b@.skip(i as int);
    assert(sa.len() == a@.len() - i && sb.len() == b@.len() - i);
    assert(text_less(a@, b@) == text_less(sa, sb));
    if i < a.len() {
        assert(sa[0] == a@[i as int]);
    }
    if i < b.len() {
        assert(sb[0] == b@[i as int]);
    }
    if i == a.len() {
        assert(text_less(sa, sb) == (sb.len() > 0));
        i < b.len()
    } else if i == b.len() {
        assert(!text_less(sa, sb));
        false
    } else {
        assert(a@[i as int] != b@[i as int]);
        assert(text_less(sa, sb) == ((a@[i as int] as int) < (b@[i as int] as int)));
        a[i] < b[i]
    }
}

/// Adds `item` to a sorted list of distinct texts that lacks it, at its
/// place.
pub fn insert_sorted(sorted: &mut Vec<String>, item: String)
    requires
        strictly_sorted(string_views(old(sorted)@)),
        !string_views(old(sorted)@).contains(item@),
    ensures
        strictly_sorted(string_views(final(sorted)@)),
        forall|t: Seq<char>| string_views(final(sorted)@).contains(t) <==> (string_views(old(sorted)@).contains(t) || t == item@),
{
    let ghost before = string_views(sorted@);
    let x = chars_of(item.as_str());
    let mut k: usize = 0;
    while k < sorted.len()
        invariant
            k <= sorted@.len(),
            before == string_views(sorted@),
            x@ == item@,
            !before.contains(item@),
            forall|m: int| 0 <= m < k ==> text_less(#[trigger] before[m], item@),
        ensures
            k <= before.len(),
            forall|m: int| 0 <= m < k ==> text_less(#[trigger] before[m], item@),
            k < before.len() ==> text_less(item@, before[k as int]),
        decreases sorted@.len() - k,
    {
        let current = chars_of(sorted[k].as_str());
        assert(before[k as int] == sorted@[k as int]@);
        if less_text(&x, &current) {
            break;
        }
        assert(before.contains(before[k as int]));
        assert(before[k as int] != item@);
        proof {
            lemma_less_total(before[k as int], item@);
        }
        k += 1;
    }
    let ghost iv = item@;
    sorted.insert(k, item);
    let ghost after = string_views(sorted@);
    assert(after =~= before.insert(k as int, iv));
    assert forall|i: int, j: int| 0 <= i < j < after.len() implies text_less(#[trigger] after[i], #[trigger] after[j]) by {
        if j < k {
            assert(after[i] == before[i] && after[j] == before[j]);
        } else if j == k {
            assert(after[j] == iv);
            assert(after[i] == before[i]);
        } else if i == k {
            assert(after[i] == iv);
            assert(after[j] == before[j - 1]);
            if j - 1 > k {
                lemma_less_transitive(iv, before[k as int], before[j - 1]);
            }
        } else if i < k {
            assert(after[i] == before[i] && after[j] == before[j - 1]);
            assert(text_less(before[i], iv));
            if k < before.len() {
                lemma_less_transitive(before[i], iv, before[k as int]);
                if j - 1 > k {
                    lemma_less_transitive(before[i], before[k as int], before[j - 1]);
                }
            }
        } else {
            assert(after[i] == before[i - 1] && after[j] == before[j - 1]);
        }
    }
    assert forall|t: Seq<char>| after.contains(t) <==> (before.contains(t) || t == iv) by {
        if after.contains(t) {
            let m = choose|m: int| 0 <= m < after.len() && after[m] == t;
            if m < k {
                assert(before[m] == t);
            } else if m > k {
                assert(before[m - 1] == t);
            }
        }
        if before.contains(t) {
            let m = choose|m: int| 0 <= m < before.len() && before[m] == t;
            if m < k {
                assert(after[m] == t);
            } else {
                assert(after[m + 1] == t);
            }
        }
        if t == iv {
            assert(after[k as int] == t);
        }
    }
}

/// Sequences of texts in lexicographic order over `text_less`, a proper
/// prefix first: the order of paths by their components.
pub open spec fn pieces_less(a: Seq<Seq<char>>, b: Seq<Seq<char>>) -> bool
    decreases a.len(),
{
    if a.len() == 0 {
        b.len() > 0
    } else if b.len() == 0 {
        false
    } else if a[0] != b[0] {
        text_less(a[0], b[0])
    } else {
        pieces_less(a.drop_first(), b.drop_first())
    }
}

pub proof fn lemma_pieces_irreflexive(a: Seq<Seq<char>>)
    ensures
        !pieces_less(a, a),
    decreases a.len(),
{
    if a.len() > 0 {
        lemma_pieces_irreflexive(a.drop_first());
    }
}

pub proof fn lemma_pieces_transitive(a: Seq<Seq<char>>, b: Seq<Seq<char>>, c: Seq<Seq<char>>)
    requires
        pieces_less(a, b),
        pieces_less(b, c),
    ensures
        pieces_less(a, c),
    decreases a.len(),
{
    if a.len() > 0 && b.len() > 0 && c.len() > 0 {
        if a[0] == b[0] && b[0] == c[0] {
            lemma_pieces_transitive(a.drop_first(), b.drop_first(), c.drop_first());
        } else if a[0] == b[0] {
            assert(text_less(b[0], c[0]));
        } else if b[0] == c[0] {
            assert(text_less(a[0], b[0]));
        } else {
            lemma_less_transitive(a[0], b[0], c[0]);
            if a[0] == c[0] {
                lemma_less_transitive(a[0], b[0], a[0]);
                lemma_less_irreflexive(a[0]);
            }
        }
    }
}

pub proof fn lemma_pieces_total(a: Seq<Seq<char>>, b: Seq<Seq<char>>)
    requires
        a != b,
    ensures
        pieces_less(a, b) || pieces_less(b, a),
    decreases a.len(),
{
    if a.len() > 0 && b.len() > 0 {
        if a[0] == b[0] {
            if a.drop_first() == b.drop_first() {
                assert(a =~= seq![a[0]] + a.drop_first());
                assert(b =~= seq![b[0]] + b.drop_first());
            }
            lemma_pieces_total(a.drop_first(), b.drop_first());
        } else {
            lemma_less_total(a[0], b[0]);
        }
    } else if a.len() == 0 && b.len() == 0 {
        assert(a =~= b);
    }
}

/// Whether `a` comes before `b`, piece by piece.
pub fn less_pieces(a: &Vec<Vec<char>>, b: &Vec<Vec<char>>) -> (r: bool)
    ensures
        r == pieces_less(crate::text::views(a@), crate::text::views(b@)),
{
    let ghost av = crate::text::views(a@);
    let ghost bv = crate::text::views(b@);
    let mut i: usize = 0;
    assert(av.skip(0) =~= av);
    assert(bv.skip(0) =~= bv);
    loop
        invariant
            i <= a@.len(),
            i <= b@.len(),
            av == crate::text::views(a@),
            bv == crate::text::views(b@),
            pieces_less(av, bv) == pieces_less(av.skip(i as int), bv.skip(i as int)),
        decreases a@.len() - i,
    {
        let ghost sa = av.skip(i as int);
        let ghost sb = bv.skip(i as int);
        if i == a.len() {
            return i < b.len();
        }
        if i == b.len() {
            return false;
        }
        assert(sa[0] == a@[i as int]@ && sb[0] == b@[i as int]@);
        if !crate::text::eq_chars(&a[i], &b[i]) {
            return less_text(&a[i], &b[i]);
        }
        assert(sa.drop_first() =~= av.skip(i + 1));
        assert(sb.drop_first() =~= bv.skip(i + 1));
        i += 1;
    }
}

} // verus!
