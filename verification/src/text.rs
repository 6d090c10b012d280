//! Character classes and string helpers shared by the validators.
//!
//! Text is handled as a sequence of `char`s: `&str` and `String` both view
//! as `Seq<char>`, and the helpers below work on `&[char]` slices whose view
//! is the same sequence.
use vstd::prelude::*;

verus! {

pub open spec fn is_lower(c: char) -> bool {
    'a' <= c && c <= 'z'
}

pub open spec fn is_upper(c: char) -> bool {
    'A' <= c && c <= 'Z'
}

pub open spec fn is_digit(c: char) -> bool {
    '0' <= c && c <= '9'
}

pub open spec fn is_alpha(c: char) -> bool {
    is_lower(c) || is_upper(c)
}

pub open spec fn is_alnum(c: char) -> bool {
    is_alpha(c) || is_digit(c)
}

pub open spec fn is_hex_lower(c: char) -> bool {
    is_digit(c) || ('a' <= c && c <= 'f')
}

/// The Unicode general category Cc, as `char::is_control` tests it.
pub open spec fn is_control(c: char) -> bool {
    c <= '\u{1f}' || ('\u{7f}' <= c && c <= '\u{9f}')
}

/// ASCII whitespace as `u8::is_ascii_whitespace` and `split_ascii_whitespace` use it.
pub open spec fn is_ascii_space(c: char) -> bool {
    c == ' ' || c == '\t' || c == '\n' || c == '\u{0c}' || c == '\r'
}

/// The Unicode White_Space property, as `char::is_whitespace` and `str::trim` use it.
pub open spec fn is_space(c: char) -> bool {
    ('\u{09}' <= c && c <= '\u{0d}') || c == ' ' || c == '\u{85}' || c == '\u{a0}'
        || c == '\u{1680}' || ('\u{2000}' <= c && c <= '\u{200a}') || c == '\u{2028}'
        || c == '\u{2029}' || c == '\u{202f}' || c == '\u{205f}' || c == '\u{3000}'
}

pub fn lower(c: char) -> (r: bool)
    ensures
        r == is_lower(c),
{
    'a' <= c && c <= 'z'
}

pub fn upper(c: char) -> (r: bool)
    ensures
        r == is_upper(c),
{
    'A' <= c && c <= 'Z'
}

pub fn digit(c: char) -> (r: bool)
    ensures
        r == is_digit(c),
{
    '0' <= c && c <= '9'
}

pub fn alpha(c: char) -> (r: bool)
    ensures
        r == is_alpha(c),
{
    lower(c) || upper(c)
}

pub fn alnum(c: char) -> (r: bool)
    ensures
        r == is_alnum(c),
{
    alpha(c) || digit(c)
}

pub fn hex_lower(c: char) -> (r: bool)
    ensures
        r == is_hex_lower(c),
{
    digit(c) || ('a' <= c && c <= 'f')
}

pub fn control(c: char) -> (r: bool)
    ensures
        r == is_control(c),
{
    c <= '\u{1f}' || ('\u{7f}' <= c && c <= '\u{9f}')
}

pub fn ascii_space(c: char) -> (r: bool)
    ensures
        r == is_ascii_space(c),
{
    c == ' ' || c == '\t' || c == '\n' || c == '\u{0c}' || c == '\r'
}

pub fn space(c: char) -> (r: bool)
    ensures
        r == is_space(c),
{
    ('\u{09}' <= c && c <= '\u{0d}') || c == ' ' || c == '\u{85}' || c == '\u{a0}' || c
        == '\u{1680}' || ('\u{2000}' <= c && c <= '\u{200a}') || c == '\u{2028}' || c
        == '\u{2029}' || c == '\u{202f}' || c == '\u{205f}' || c == '\u{3000}'
}

/// The characters of `s`, in order.
pub fn chars_of(s: &str) -> (v: Vec<char>)
    ensures
        v@ == s@,
{
    let mut v: Vec<char> = Vec::new();
    for c in it: s.chars()
        invariant
            v@ == it.seq().take(it.index() as int),
    {
        v.push(c);
    }
    v
}

/// Appends one character to a `String` (`String::push`).
#[verifier::external_body]
pub(crate) fn push_char(s: &mut String, c: char)
    ensures
        final(s)@ == old(s)@.push(c),
{
    s.push(c);
}

/// The decimal text of `n` (what `usize`'s `Display` writes).
pub(crate) fn decimal(n: usize) -> (r: String)
    ensures
        r@ == decimal_text(n as nat),
{
    decimal_u128(n as u128)
}

/// The decimal text of `n` (what `u64`'s `Display` writes).
pub(crate) fn decimal_u64(n: u64) -> (r: String)
    ensures
        r@ == decimal_text(n as nat),
{
    decimal_u128(n as u128)
}

fn digit_of_value(d: u128) -> (c: char)
    requires
        d < 10,
    ensures
        c == digit_char(d as nat),
{
    if d == 0 {
        '0'
    } else if d == 1 {
        '1'
    } else if d == 2 {
        '2'
    } else if d == 3 {
        '3'
    } else if d == 4 {
        '4'
    } else if d == 5 {
        '5'
    } else if d == 6 {
        '6'
    } else if d == 7 {
        '7'
    } else if d == 8 {
        '8'
    } else {
        '9'
    }
}

/// The decimal text of `n` (what `u128`'s `Display` writes).
pub(crate) fn decimal_u128(n: u128) -> (r: String)
    ensures
        r@ == decimal_text(n as nat),
    decreases n,
{
    if n < 10 {
        let mut r = String::new();
        push_char(&mut r, digit_of_value(n));
        assert(r@ =~= seq![digit_char(n as nat)]);
        r
    } else {
        let mut r = decimal_u128(n / 10);
        push_char(&mut r, digit_of_value(n % 10));
        r
    }
}

/// The decimal text of a signed number: a minus sign before the digits of
/// a negative number.
pub open spec fn signed_text(n: int) -> Seq<char> {
    if n < 0 {
        "-"@ + decimal_text((-n) as nat)
    } else {
        decimal_text(n as nat)
    }
}

/// The decimal text of `n` (what `i32`'s `Display` writes).
pub(crate) fn decimal_i32(n: i32) -> (r: String)
    ensures
        r@ == signed_text(n as int),
{
    if n < 0 {
        let magnitude: i64 = -(n as i64);
        let digits = decimal_u128(magnitude as u128);
        let mut r = String::new();
        push_char(&mut r, '-');
        r.append(digits.as_str());
        proof {
            reveal_strlit("-");
        }
        assert(r@ =~= "-"@ + decimal_text((-(n as int)) as nat));
        r
    } else {
        decimal_u128(n as u128)
    }
}

pub open spec fn digit_char(d: nat) -> char {
    if d == 0 {
        '0'
    } else if d == 1 {
        '1'
    } else if d == 2 {
        '2'
    } else if d == 3 {
        '3'
    } else if d == 4 {
        '4'
    } else if d == 5 {
        '5'
    } else if d == 6 {
        '6'
    } else if d == 7 {
        '7'
    } else if d == 8 {
        '8'
    } else {
        '9'
    }
}

/// Decimal digits of `n` without leading zeros (`"0"` for zero).
pub open spec fn decimal_text(n: nat) -> Seq<char>
    decreases n,
{
    if n < 10 {
        seq![digit_char(n)]
    } else {
        decimal_text(n / 10).push(digit_char(n % 10))
    }
}

/// A `String` holding exactly the characters of `v`.
pub fn string_of(v: &[char]) -> (s: String)
    ensures
        s@ == v@,
{
    let mut s = String::new();
    let mut i: usize = 0;
    while i < v.len()
        invariant
            i <= v@.len(),
            s@ == v@.take(i as int),
        decreases v@.len() - i,
    {
        push_char(&mut s, v[i]);
        i += 1;
        assert(s@ =~= v@.take(i as int));
    }
    assert(v@.take(v@.len() as int) =~= v@);
    s
}

/// `base` followed by `suffix`.
pub fn concat(base: &str, suffix: &str) -> (r: String)
    ensures
        r@ == base@ + suffix@,
{
    let mut r = base.to_owned();
    r.append(suffix);
    r
}

/// `path[index]`, the label of one element of a configured sequence.
pub fn indexed(path: &str, index: usize) -> (r: String)
    ensures
        r@ == path@ + "["@ + decimal_text(index as nat) + "]"@,
{
    let mut r = path.to_owned();
    r.append("[");
    let digits = decimal(index);
    r.append(digits.as_str());
    r.append("]");
    r
}

/// `path: detail`, an error message about one configuration path.
pub fn message(path: &str, detail: &str) -> (r: String)
    ensures
        r@ == path@ + ": "@ + detail@,
{
    let mut r = path.to_owned();
    r.append(": ");
    r.append(detail);
    r
}

pub open spec fn views(v: Seq<Vec<char>>) -> Seq<Seq<char>> {
    v.map_values(|x: Vec<char>| x@)
}

pub open spec fn string_views(v: Seq<String>) -> Seq<Seq<char>> {
    v.map_values(|x: String| x@)
}

/// Does every character satisfy `p`?
pub fn all_chars<F: Fn(char) -> bool>(s: &[char], f: F, Ghost(p): Ghost<spec_fn(char) -> bool>) -> (r: bool)
    requires
        forall|c: char| #[trigger] f.requires((c,)),
        forall|c: char, b: bool| f.ensures((c,), b) ==> b == p(c),
    ensures
        r == (forall|i: int| 0 <= i < s@.len() ==> p(#[trigger] s@[i])),
{
    let mut i: usize = 0;
    while i < s.len()
        invariant
            i <= s@.len(),
            forall|c: char| #[trigger] f.requires((c,)),
            forall|c: char, b: bool| f.ensures((c,), b) ==> b == p(c),
            forall|k: int| 0 <= k < i ==> p(#[trigger] s@[k]),
        decreases s@.len() - i,
    {
        if !f(s[i]) {
            return false;
        }
        i += 1;
    }
    true
}

/// Does some character satisfy `p`?
pub fn any_chars<F: Fn(char) -> bool>(s: &[char], f: F, Ghost(p): Ghost<spec_fn(char) -> bool>) -> (r: bool)
    requires
        forall|c: char| #[trigger] f.requires((c,)),
        forall|c: char, b: bool| f.ensures((c,), b) ==> b == p(c),
    ensures
        r == (exists|i: int| 0 <= i < s@.len() && p(#[trigger] s@[i])),
{
    let mut i: usize = 0;
    while i < s.len()
        invariant
            i <= s@.len(),
            forall|c: char| #[trigger] f.requires((c,)),
            forall|c: char, b: bool| f.ensures((c,), b) ==> b == p(c),
            forall|k: int| 0 <= k < i ==> !p(#[trigger] s@[k]),
        decreases s@.len() - i,
    {
        if f(s[i]) {
            return true;
        }
        i += 1;
    }
    false
}

pub fn contains_char(s: &[char], c: char) -> (r: bool)
    ensures
        r == s@.contains(c),
{
    let mut i: usize = 0;
    while i < s.len()
        invariant
            i <= s@.len(),
            forall|k: int| 0 <= k < i ==> s@[k] != c,
        decreases s@.len() - i,
    {
        if s[i] == c {
            return true;
        }
        i += 1;
    }
    false
}

/// Equality of two character sequences.
pub fn eq_chars(a: &[char], b: &[char]) -> (r: bool)
    ensures
        r == (a@ == b@),
{
    if a.len() != b.len() {
        return false;
    }
    let mut i: usize = 0;
    while i < a.len()
        invariant
            i <= a@.len(),
            a@.len() == b@.len(),
            forall|k: int| 0 <= k < i ==> a@[k] == b@[k],
        decreases a@.len() - i,
    {
        if a[i] != b[i] {
            return false;
        }
        i += 1;
    }
    assert(a@ =~= b@);
    true
}

/// Equality of a character sequence and a string.
pub fn eq_str(a: &[char], b: &str) -> (r: bool)
    ensures
        r == (a@ == b@),
{
    let bv = chars_of(b);
    eq_chars(a, &bv)
}

pub open spec fn has_prefix(s: Seq<char>, t: Seq<char>) -> bool {
    t.len() <= s.len() && s.subrange(0, t.len() as int) == t
}

pub open spec fn has_suffix(s: Seq<char>, t: Seq<char>) -> bool {
    t.len() <= s.len() && s.subrange(s.len() - t.len(), s.len() as int) == t
}

/// Does `t` occur in `s` starting at `at`?
pub open spec fn occurs_at(s: Seq<char>, t: Seq<char>, at: int) -> bool {
    0 <= at && at + t.len() <= s.len() && s.subrange(at, at + t.len()) == t
}

pub open spec fn contains_seq(s: Seq<char>, t: Seq<char>) -> bool {
    exists|at: int| occurs_at(s, t, at)
}

/// Does `t` occur in `s` at `at`? (a bounded check, no allocation)
pub fn matches_at(s: &[char], t: &[char], at: usize) -> (r: bool)
    ensures
        r == occurs_at(s@, t@, at as int),
{
    if at > s.len() || t.len() > s.len() - at {
        return false;
    }
    let mut i: usize = 0;
    while i < t.len()
        invariant
            s@.len() <= usize::MAX,
            at + t@.len() <= s@.len(),
            i <= t@.len(),
            forall|k: int| 0 <= k < i ==> s@[at + k] == t@[k],
        decreases t@.len() - i,
    {
        if s[at + i] != t[i] {
            assert(s@.subrange(at as int, at + t@.len())[i as int] != t@[i as int]);
            return false;
        }
        i += 1;
    }
    assert(s@.subrange(at as int, at + t@.len()) =~= t@);
    true
}

pub fn starts_with(s: &[char], t: &[char]) -> (r: bool)
    ensures
        r == has_prefix(s@, t@),
{
    matches_at(s, t, 0)
}

pub fn ends_with(s: &[char], t: &[char]) -> (r: bool)
    ensures
        r == has_suffix(s@, t@),
{
    if t.len() > s.len() {
        return false;
    }
    matches_at(s, t, s.len() - t.len())
}

/// The first position at which `t` occurs in `s`, if any.
pub fn find_seq(s: &[char], t: &[char]) -> (r: Option<usize>)
    ensures
        match r {
            Some(at) => occurs_at(s@, t@, at as int) && forall|k: int|
                0 <= k < at ==> !#[trigger] occurs_at(s@, t@, k),
            None => !contains_seq(s@, t@),
        },
{
    let mut at: usize = 0;
    loop
        invariant
            at <= s@.len(),
            forall|k: int| 0 <= k < at ==> !#[trigger] occurs_at(s@, t@, k),
        ensures
            forall|k: int| 0 <= k <= s@.len() ==> !#[trigger] occurs_at(s@, t@, k),
        decreases s@.len() - at,
    {
        if matches_at(s, t, at) {
            return Some(at);
        }
        if at == s.len() {
            break;
        }
        at += 1;
    }
    None
}

pub fn contains_str(s: &[char], t: &str) -> (r: bool)
    ensures
        r == contains_seq(s@, t@),
{
    let tv = chars_of(t);
    find_seq(s, &tv).is_some()
}

/// The characters of `s` from `start` to `end`.
pub fn slice_to_vec(s: &[char], start: usize, end: usize) -> (r: Vec<char>)
    requires
        start <= end <= s@.len(),
    ensures
        r@ == s@.subrange(start as int, end as int),
{
    let mut r: Vec<char> = Vec::new();
    let mut i = start;
    while i < end
        invariant
            start <= i <= end <= s@.len(),
            r@ == s@.subrange(start as int, i as int),
        decreases end - i,
    {
        r.push(s[i]);
        i += 1;
        assert(r@ =~= s@.subrange(start as int, i as int));
    }
    r
}

/// Splitting `s` at every character that satisfies `p`, as `str::split` does
/// (adjacent separators give empty parts; the empty text gives one empty part).
pub open spec fn split_by(s: Seq<char>, p: spec_fn(char) -> bool) -> Seq<Seq<char>>
    decreases s.len(),
{
    if s.len() == 0 {
        seq![Seq::<char>::empty()]
    } else {
        let prev = split_by(s.drop_last(), p);
        if p(s.last()) {
            prev.push(Seq::<char>::empty())
        } else {
            prev.update(prev.len() - 1, prev.last().push(s.last()))
        }
    }
}

/// The predicate "is the character `sep`".
pub open spec fn is_char(sep: char) -> spec_fn(char) -> bool {
    |c: char| c == sep
}

pub open spec fn split(s: Seq<char>, sep: char) -> Seq<Seq<char>> {
    split_by(s, is_char(sep))
}

pub proof fn lemma_split_by_nonempty(s: Seq<char>, p: spec_fn(char) -> bool)
    ensures
        split_by(s, p).len() >= 1,
    decreases s.len(),
{
    if s.len() > 0 {
        lemma_split_by_nonempty(s.drop_last(), p);
    }
}

pub fn split_by_chars<F: Fn(char) -> bool>(s: &[char], f: F, Ghost(p): Ghost<spec_fn(char) -> bool>) -> (r: Vec<Vec<char>>)
    requires
        forall|c: char| #[trigger] f.requires((c,)),
        forall|c: char, b: bool| f.ensures((c,), b) ==> b == p(c),
    ensures
        views(r@) == split_by(s@, p),
        r@.len() >= 1,
{
    let mut done: Vec<Vec<char>> = Vec::new();
    let mut cur: Vec<char> = Vec::new();
    let mut i: usize = 0;
    assert(s@.take(0) =~= Seq::<char>::empty());
    assert(views(done@).push(cur@) =~= split_by(s@.take(0), p));
    while i < s.len()
        invariant
            i <= s@.len(),
            forall|c: char| #[trigger] f.requires((c,)),
            forall|c: char, b: bool| f.ensures((c,), b) ==> b == p(c),
            views(done@).push(cur@) == split_by(s@.take(i as int), p),
        decreases s@.len() - i,
    {
        let ghost before = s@.take(i as int);
        let c = s[i];
        assert(s@.take(i + 1).drop_last() =~= before);
        assert(s@.take(i + 1).last() == c);
        if f(c) {
            let old_cur = cur;
            done.push(old_cur);
            cur = Vec::new();
            assert(views(done@).push(cur@) =~= views(done@).push(Seq::<char>::empty()));
            assert(views(done@) =~= split_by(before, p));
        } else {
            let ghost prev = split_by(before, p);
            cur.push(c);
            assert(views(done@).push(cur@) =~= prev.update(prev.len() - 1, prev.last().push(c)));
        }
        i += 1;
    }
    let last = cur;
    done.push(last);
    assert(s@.take(s@.len() as int) =~= s@);
    assert(views(done@) =~= split_by(s@, p));
    done
}

pub fn split_chars(s: &[char], sep: char) -> (r: Vec<Vec<char>>)
    ensures
        views(r@) == split(s@, sep),
        r@.len() >= 1,
{
    let is_sep = |c: char| -> (b: bool)
        ensures
            b == (c == sep),
        { c == sep };
    split_by_chars(s, is_sep, Ghost(is_char(sep)))
}


/// `s` without leading whitespace (`str::trim_start`).
pub open spec fn trim_start(s: Seq<char>) -> Seq<char>
    decreases s.len(),
{
    if s.len() > 0 && is_space(s[0]) {
        trim_start(s.drop_first())
    } else {
        s
    }
}

/// `s` without trailing whitespace (`str::trim_end`).
pub open spec fn trim_end(s: Seq<char>) -> Seq<char>
    decreases s.len(),
{
    if s.len() > 0 && is_space(s.last()) {
        trim_end(s.drop_last())
    } else {
        s
    }
}

/// `s` without leading or trailing whitespace (`str::trim`).
pub open spec fn trim(s: Seq<char>) -> Seq<char> {
    trim_end(trim_start(s))
}

pub fn trim_start_chars(s: &[char]) -> (r: Vec<char>)
    ensures
        r@ == trim_start(s@),
{
    let mut i: usize = 0;
    assert(s@.skip(0) =~= s@);
    while i < s.len() && space(s[i])
        invariant
            i <= s@.len(),
            trim_start(s@) == trim_start(s@.skip(i as int)),
        decreases s@.len() - i,
    {
        assert(s@.skip(i as int).drop_first() =~= s@.skip(i + 1));
        i += 1;
    }
    let r = slice_to_vec(s, i, s.len());
    assert(r@ =~= s@.skip(i as int));
    r
}

pub fn trim_end_chars(s: &[char]) -> (r: Vec<char>)
    ensures
        r@ == trim_end(s@),
{
    let mut j: usize = s.len();
    assert(s@.take(j as int) =~= s@);
    while j > 0 && space(s[j - 1])
        invariant
            j <= s@.len(),
            trim_end(s@) == trim_end(s@.take(j as int)),
        decreases j,
    {
        assert(s@.take(j as int).drop_last() =~= s@.take(j - 1));
        j -= 1;
    }
    let r = slice_to_vec(s, 0, j);
    assert(r@ =~= s@.take(j as int));
    r
}

pub fn trim_chars(s: &[char]) -> (r: Vec<char>)
    ensures
        r@ == trim(s@),
{
    let a = trim_start_chars(s);
    trim_end_chars(&a)
}

/// A line without the carriage return that ended it, if any.
pub open spec fn strip_cr(line: Seq<char>) -> Seq<char> {
    if line.len() > 0 && line.last() == '\r' {
        line.drop_last()
    } else {
        line
    }
}

pub open spec fn strip_cr_fn() -> spec_fn(Seq<char>) -> Seq<char> {
    |l: Seq<char>| strip_cr(l)
}

/// The lines of `s`, as `str::lines` yields them: split at `\n`, a final
/// empty piece dropped, and `\r` removed before each `\n`.
pub open spec fn lines(s: Seq<char>) -> Seq<Seq<char>> {
    let parts = split(s, '\n');
    let ended = parts.drop_last().map_values(strip_cr_fn());
    if parts.last().len() == 0 {
        ended
    } else {
        ended.push(parts.last())
    }
}

pub fn strip_cr_chars(line: Vec<char>) -> (r: Vec<char>)
    ensures
        r@ == strip_cr(line@),
{
    let mut line = line;
    if line.len() > 0 && line[line.len() - 1] == '\r' {
        line.pop();
    }
    line
}

pub fn lines_of(s: &[char]) -> (r: Vec<Vec<char>>)
    ensures
        views(r@) == lines(s@),
{
    let parts = split_chars(s, '\n');
    let ghost pv = split(s@, '\n');
    let n = parts.len();
    assert(pv.len() == views(parts@).len());
    let mut r: Vec<Vec<char>> = Vec::new();
    let mut i: usize = 0;
    while i + 1 < n
        invariant
            n == parts@.len(),
            n >= 1,
            pv.len() == n,
            views(parts@) == pv,
            i + 1 <= n,
            r@.len() == i,
            views(r@) == pv.drop_last().take(i as int).map_values(strip_cr_fn()),
        decreases n - i,
    {
        let piece = parts[i].clone();
        assert(piece@ == pv[i as int]);
        let line = strip_cr_chars(piece);
        let ghost old_r = r@;
        r.push(line);
        i += 1;
        proof {
            let target = pv.drop_last().take(i as int).map_values(strip_cr_fn());
            assert(views(r@).len() == target.len());
            assert forall|k: int| 0 <= k < target.len() implies views(r@)[k] == target[k] by {
                if k < i - 1 {
                    assert(views(old_r)[k] == pv.drop_last().take(i - 1).map_values(strip_cr_fn())[k]);
                    assert(r@[k] == old_r[k]);
                } else {
                    assert(r@[k] == line);
                }
            }
            assert(views(r@) =~= target);
        }
    }
    assert(pv.drop_last().take(i as int) =~= pv.drop_last());
    let last = parts[n - 1].clone();
    assert(last@ == pv.last());
    if last.len() > 0 {
        r.push(last);
        assert(views(r@) =~= pv.drop_last().map_values(strip_cr_fn()).push(pv.last()));
    }
    r
}

pub open spec fn ascii_space_fn() -> spec_fn(char) -> bool {
    |c: char| is_ascii_space(c)
}

pub open spec fn nonempty_fn() -> spec_fn(Seq<char>) -> bool {
    |w: Seq<char>| w.len() > 0
}

/// The words of `s`, as `str::split_ascii_whitespace` yields them.
pub open spec fn words(s: Seq<char>) -> Seq<Seq<char>> {
    split_by(s, ascii_space_fn()).filter(nonempty_fn())
}

pub fn words_of(s: &[char]) -> (r: Vec<Vec<char>>)
    ensures
        views(r@) == words(s@),
{
    let is_space = |c: char| -> (b: bool)
        ensures
            b == is_ascii_space(c),
        { ascii_space(c) };
    let parts = split_by_chars(s, is_space, Ghost(ascii_space_fn()));
    let ghost pv = split_by(s@, ascii_space_fn());
    let mut r: Vec<Vec<char>> = Vec::new();
    let mut i: usize = 0;
    while i < parts.len()
        invariant
            i <= parts@.len(),
            views(parts@) == pv,
            views(r@) == pv.take(i as int).filter(nonempty_fn()),
        decreases parts@.len() - i,
    {
        let piece = parts[i].clone();
        assert(piece@ == pv[i as int]);
        proof {
            pv.take(i as int).lemma_filter_push(pv[i as int], nonempty_fn());
            assert(pv.take(i + 1) =~= pv.take(i as int).push(pv[i as int]));
        }
        if piece.len() > 0 {
            r.push(piece);
        }
        i += 1;
        assert(views(r@) =~= pv.take(i as int).filter(nonempty_fn()));
    }
    assert(pv.take(i as int) =~= pv);
    r
}

pub open spec fn to_lower_char(c: char) -> char {
    if is_upper(c) {
        ((c as u32) + 32) as char
    } else {
        c
    }
}

pub open spec fn to_lower(s: Seq<char>) -> Seq<char> {
    s.map_values(|c: char| to_lower_char(c))
}

pub fn lower_char(c: char) -> (r: char)
    ensures
        r == to_lower_char(c),
{
    if upper(c) {
        ((c as u8) + 32) as char
    } else {
        c
    }
}

/// ASCII lowercase of `s` (`str::to_ascii_lowercase`).
pub fn lowercase_chars(s: &[char]) -> (r: Vec<char>)
    ensures
        r@ == to_lower(s@),
{
    let mut r: Vec<char> = Vec::new();
    let mut i: usize = 0;
    while i < s.len()
        invariant
            i <= s@.len(),
            r@ == to_lower(s@.take(i as int)),
        decreases s@.len() - i,
    {
        let c = lower_char(s[i]);
        r.push(c);
        i += 1;
        assert(r@ =~= to_lower(s@.take(i as int)));
    }
    assert(s@.take(i as int) =~= s@);
    r
}

/// Case-insensitive ASCII equality (`str::eq_ignore_ascii_case`).
pub fn eq_ignore_case(a: &[char], b: &str) -> (r: bool)
    ensures
        r == (to_lower(a@) == to_lower(b@)),
{
    let la = lowercase_chars(a);
    let bv = chars_of(b);
    let lb = lowercase_chars(&bv);
    eq_chars(&la, &lb)
}


/// The first position of `c` in `s`, if any.
pub open spec fn first_index(s: Seq<char>, c: char) -> Option<int> {
    if s.contains(c) {
        Some(
            choose|k: int|
                0 <= k < s.len() && s[k] == c && forall|j: int| 0 <= j < k ==> s[j] != c,
        )
    } else {
        None
    }
}

/// The last position of `c` in `s`, if any.
pub open spec fn last_index(s: Seq<char>, c: char) -> Option<int> {
    if s.contains(c) {
        Some(
            choose|k: int|
                0 <= k < s.len() && s[k] == c && forall|j: int| k < j < s.len() ==> s[j] != c,
        )
    } else {
        None
    }
}

pub fn first_index_of(s: &[char], c: char) -> (r: Option<usize>)
    ensures
        match r {
            Some(k) => first_index(s@, c) == Some(k as int) && k < s@.len() && s@[k as int] == c,
            None => first_index(s@, c) is None,
        },
{
    let mut i: usize = 0;
    while i < s.len()
        invariant
            i <= s@.len(),
            forall|j: int| 0 <= j < i ==> s@[j] != c,
        decreases s@.len() - i,
    {
        if s[i] == c {
            assert(s@.contains(c));
            let ghost k = choose|k: int|
                0 <= k < s@.len() && s@[k] == c && forall|j: int| 0 <= j < k ==> s@[j] != c;
            assert(0 <= i < s@.len() && s@[i as int] == c && forall|j: int| 0 <= j < i ==> s@[j] != c);
            assert(k == i);
            return Some(i);
        }
        i += 1;
    }
    None
}

pub fn last_index_of(s: &[char], c: char) -> (r: Option<usize>)
    ensures
        match r {
            Some(k) => last_index(s@, c) == Some(k as int) && k < s@.len() && s@[k as int] == c,
            None => last_index(s@, c) is None,
        },
{
    let mut j: usize = s.len();
    while j > 0
        invariant
            j <= s@.len(),
            forall|x: int| j <= x < s@.len() ==> s@[x] != c,
        decreases j,
    {
        if s[j - 1] == c {
            let i = j - 1;
            assert(s@.contains(c));
            let ghost k = choose|k: int|
                0 <= k < s@.len() && s@[k] == c && forall|x: int| k < x < s@.len() ==> s@[x] != c;
            assert(0 <= i < s@.len() && s@[i as int] == c && forall|x: int| i < x < s@.len() ==> s@[x] != c);
            assert(k == i);
            return Some(i);
        }
        j -= 1;
    }
    None
}

/// `s` without any trailing `c` characters (`str::trim_end_matches`).
pub open spec fn trim_end_char(s: Seq<char>, c: char) -> Seq<char>
    decreases s.len(),
{
    if s.len() > 0 && s.last() == c {
        trim_end_char(s.drop_last(), c)
    } else {
        s
    }
}

pub fn trim_end_char_chars(s: &[char], c: char) -> (r: Vec<char>)
    ensures
        r@ == trim_end_char(s@, c),
{
    let mut j: usize = s.len();
    assert(s@.take(j as int) =~= s@);
    while j > 0 && s[j - 1] == c
        invariant
            j <= s@.len(),
            trim_end_char(s@, c) == trim_end_char(s@.take(j as int), c),
        decreases j,
    {
        assert(s@.take(j as int).drop_last() =~= s@.take(j - 1));
        j -= 1;
    }
    let r = slice_to_vec(s, 0, j);
    assert(r@ =~= s@.take(j as int));
    r
}

pub open spec fn join(parts: Seq<Seq<char>>, sep: Seq<char>) -> Seq<char>
    decreases parts.len(),
{
    if parts.len() == 0 {
        Seq::empty()
    } else if parts.len() == 1 {
        parts[0]
    } else {
        join(parts.drop_last(), sep) + sep + parts.last()
    }
}

/// `parts` joined by `sep` (`[T]::join`).
pub fn join_strings(parts: &Vec<String>, sep: &str) -> (r: String)
    ensures
        r@ == join(string_views(parts@), sep@),
{
    let mut r = String::new();
    let mut i: usize = 0;
    while i < parts.len()
        invariant
            i <= parts@.len(),
            r@ == join(string_views(parts@).take(i as int), sep@),
        decreases parts@.len() - i,
    {
        let ghost sv = string_views(parts@);
        assert(sv.take(i + 1).drop_last() =~= sv.take(i as int));
        if i > 0 {
            r.append(sep);
        } else {
            assert(r@ =~= Seq::<char>::empty());
        }
        r.append(parts[i].as_str());
        i += 1;
        assert(r@ =~= join(sv.take(i as int), sep@));
    }
    assert(string_views(parts@).take(i as int) =~= string_views(parts@));
    r
}

/// The first position at which `t` occurs in `s`, if any.
pub open spec fn first_occurrence(s: Seq<char>, t: Seq<char>) -> Option<int> {
    if contains_seq(s, t) {
        Some(choose|k: int| occurs_at(s, t, k) && forall|j: int| 0 <= j < k ==> !occurs_at(s, t, j))
    } else {
        None
    }
}

/// Splitting `s` at every non-overlapping occurrence of the non-empty `t`,
/// from the left (`str::split` with a string pattern).
#[verifier::opaque]
pub open spec fn split_str(s: Seq<char>, t: Seq<char>) -> Seq<Seq<char>>
    decreases s.len(),
{
    if t.len() == 0 {
        seq![s]
    } else {
        match first_occurrence(s, t) {
            None => seq![s],
            Some(k) => if 0 <= k && k + t.len() <= s.len() {
                seq![s.take(k)] + split_str(s.skip(k + t.len()), t)
            } else {
                seq![s]
            },
        }
    }
}

pub proof fn lemma_split_str_step(s: Seq<char>, t: Seq<char>, k: int)
    requires
        t.len() > 0,
        occurs_at(s, t, k),
        forall|j: int| 0 <= j < k ==> !#[trigger] occurs_at(s, t, j),
    ensures
        split_str(s, t) == seq![s.take(k)] + split_str(s.skip(k + t.len()), t),
{
    reveal(split_str);
    assert(contains_seq(s, t));
    let kc = choose|k: int| occurs_at(s, t, k) && forall|j: int| 0 <= j < k ==> !occurs_at(s, t, j);
    assert(occurs_at(s, t, kc) && forall|j: int| 0 <= j < kc ==> !occurs_at(s, t, j));
    assert(kc == k);
}

pub proof fn lemma_split_str_none(s: Seq<char>, t: Seq<char>)
    requires
        !contains_seq(s, t),
    ensures
        split_str(s, t) == seq![s],
{
    reveal(split_str);
}

pub fn split_str_chars(s: &[char], t: &str) -> (r: Vec<Vec<char>>)
    requires
        t@.len() > 0,
    ensures
        views(r@) == split_str(s@, t@),
{
    let tv = chars_of(t);
    let tlen = tv.len();
    let mut done: Vec<Vec<char>> = Vec::new();
    let mut rest = slice_to_vec(s, 0, s.len());
    assert(rest@ =~= s@);
    loop
        invariant
            tv@ == t@,
            tlen == tv@.len(),
            tv@.len() > 0,
            views(done@) + split_str(rest@, t@) == split_str(s@, t@),
        ensures
            views(done@) + split_str(rest@, t@) == split_str(s@, t@),
            !contains_seq(rest@, t@),
        decreases rest@.len(),
    {
        let rlen = rest.len();
        match find_seq(&rest, &tv) {
            None => {
                break;
            },
            Some(k) => {
                let ghost old_rest = rest@;
                let ghost old_done = views(done@);
                proof {
                    lemma_split_str_step(old_rest, t@, k as int);
                }
                let head = slice_to_vec(&rest, 0, k);
                let tail = slice_to_vec(&rest, k + tlen, rlen);
                done.push(head);
                rest = tail;
                assert(views(done@) =~= old_done.push(old_rest.take(k as int)));
                assert(views(done@) + split_str(rest@, t@) =~= old_done + split_str(old_rest, t@));
            },
        }
    }
    let last = rest;
    proof {
        lemma_split_str_none(last@, t@);
    }
    let ghost before = views(done@);
    done.push(last);
    assert(views(done@) =~= before + seq![last@]);
    done
}

/// The value of a digit character in base 16 or below, if it is one.
pub open spec fn digit_value(c: char) -> Option<nat> {
    if '0' <= c && c <= '9' {
        Some((c as u32 - '0' as u32) as nat)
    } else if 'a' <= c && c <= 'f' {
        Some((c as u32 - 'a' as u32 + 10) as nat)
    } else if 'A' <= c && c <= 'F' {
        Some((c as u32 - 'A' as u32 + 10) as nat)
    } else {
        None
    }
}

pub open spec fn is_radix_digit(c: char, radix: nat) -> bool {
    digit_value(c) matches Some(d) && d < radix
}

/// The number that the digits `ds` write in base `radix`.
pub open spec fn digits_value(ds: Seq<char>, radix: nat) -> nat
    decreases ds.len(),
{
    if ds.len() == 0 {
        0
    } else {
        digits_value(ds.drop_last(), radix) * radix + digit_value(ds.last()).unwrap_or(0)
    }
}

/// An unsigned number as `from_str_radix` reads it for an unsigned type
/// whose largest value is `max`: an optional `+`, then at least one digit
/// of the base, and a value no larger than `max`.
pub open spec fn parsed_unsigned(s: Seq<char>, radix: nat, max: nat) -> Option<nat> {
    parsed_digits(sign_stripped(s), radix, max)
}

/// The text without one leading `+`.
pub open spec fn sign_stripped(s: Seq<char>) -> Seq<char> {
    if s.len() > 0 && s[0] == '+' {
        s.drop_first()
    } else {
        s
    }
}

/// At least one digit of the base, with a value no larger than `max`.
pub open spec fn parsed_digits(ds: Seq<char>, radix: nat, max: nat) -> Option<nat> {
    if ds.len() == 0 || exists|i: int| 0 <= i < ds.len() && !is_radix_digit(#[trigger] ds[i], radix) {
        None
    } else if digits_value(ds, radix) > max {
        None
    } else {
        Some(digits_value(ds, radix))
    }
}

pub fn digit_of(c: char) -> (r: Option<u64>)
    ensures
        match r {
            Some(d) => digit_value(c) == Some(d as nat),
            None => digit_value(c) is None,
        },
{
    if '0' <= c && c <= '9' {
        Some((c as u32 - '0' as u32) as u64)
    } else if 'a' <= c && c <= 'f' {
        Some((c as u32 - 'a' as u32 + 10) as u64)
    } else if 'A' <= c && c <= 'F' {
        Some((c as u32 - 'A' as u32 + 10) as u64)
    } else {
        None
    }
}

proof fn lemma_digits_value_mono(ds: Seq<char>, radix: nat, k: int)
    requires
        2 <= radix,
        0 <= k <= ds.len(),
        forall|i: int| 0 <= i < ds.len() ==> is_radix_digit(#[trigger] ds[i], radix),
    ensures
        digits_value(ds.take(k), radix) <= digits_value(ds, radix),
    decreases ds.len() - k,
{
    if k == ds.len() {
        assert(ds.take(k) =~= ds);
    } else {
        let t = ds.take(k + 1);
        assert(t.drop_last() =~= ds.take(k));
        lemma_digits_value_mono(ds, radix, k + 1);
        let v = digits_value(ds.take(k), radix);
        assert(v * radix >= v) by (nonlinear_arith)
            requires
                radix >= 2,
        ;
    }
}

/// Parses an unsigned number in base `radix` (2 to 16) no larger than
/// `max`, as `u64::from_str_radix` and the unsigned `FromStr` impls do.
pub fn parse_unsigned(s: &[char], radix: u64, max: u64) -> (r: Option<u64>)
    requires
        2 <= radix <= 16,
    ensures
        match r {
            Some(v) => parsed_unsigned(s@, radix as nat, max as nat) == Some(v as nat),
            None => parsed_unsigned(s@, radix as nat, max as nat) is None,
        },
{
    let start: usize = if s.len() > 0 && s[0] == '+' {
        1
    } else {
        0
    };
    let ds = slice_to_vec(s, start, s.len());
    let ghost dv = sign_stripped(s@);
    assert(ds@ =~= dv);
    if ds.len() == 0 {
        return None;
    }
    let mut value: u64 = 0;
    let mut i: usize = 0;
    assert(dv.take(0) =~= Seq::<char>::empty());
    while i < ds.len()
        invariant
            2 <= radix <= 16,
            ds@ == dv,
            dv == sign_stripped(s@),
            i <= ds@.len(),
            value as nat == digits_value(dv.take(i as int), radix as nat),
            value <= max,
            forall|k: int| 0 <= k < i ==> is_radix_digit(#[trigger] dv[k], radix as nat),
        decreases ds@.len() - i,
    {
        let c = ds[i];
        assert(dv.take(i + 1).drop_last() =~= dv.take(i as int));
        assert(dv.take(i + 1).last() == c);
        let d = match digit_of(c) {
            None => {
                assert(!is_radix_digit(dv[i as int], radix as nat));
                return None;
            },
            Some(d) => d,
        };
        if d >= radix {
            assert(!is_radix_digit(dv[i as int], radix as nat));
            return None;
        }
        // the value so far, times the base, plus the digit
        if d > max || value > (max - d) / radix {
            proof {
                if d <= max {
                    let q: int = (max as int - d as int) / (radix as int);
                    assert(value * radix + d > max) by (nonlinear_arith)
                        requires
                            value > q,
                            q == (max as int - d as int) / (radix as int),
                            radix > 0,
                            d <= max,
                    ;
                }
                assert(dv.take(i + 1).drop_last() =~= dv.take(i as int));
                assert(digits_value(dv.take(i + 1), radix as nat) > max);
            }
            let ghost bad = i;
            // the remaining characters may still be invalid digits, which also refuse
            let mut j: usize = i + 1;
            while j < ds.len()
                invariant
                    2 <= radix <= 16,
                    ds@ == dv,
                    dv == sign_stripped(s@),
                    digits_value(dv.take(i + 1), radix as nat) > max,
                    i < j <= ds@.len(),
                    forall|k: int| 0 <= k <= i ==> is_radix_digit(#[trigger] dv[k], radix as nat),
                    forall|k: int| i < k < j ==> is_radix_digit(#[trigger] dv[k], radix as nat),
                decreases ds@.len() - j,
            {
                match digit_of(ds[j]) {
                    None => {
                        assert(!is_radix_digit(dv[j as int], radix as nat));
                        return None;
                    },
                    Some(e) => {
                        if e >= radix {
                            assert(!is_radix_digit(dv[j as int], radix as nat));
                            return None;
                        }
                    },
                }
                j += 1;
            }
            proof {
                assert forall|k: int| 0 <= k < dv.len() implies is_radix_digit(#[trigger] dv[k], radix as nat) by {
                    if k <= i {
                    } else {
                    }
                }
                lemma_digits_value_mono(dv, radix as nat, i + 1);
            }
            return None;
        }
        proof {
            let q: int = (max as int - d as int) / (radix as int);
            assert(value * radix + d <= max) by (nonlinear_arith)
                requires
                    value <= q,
                    q == (max as int - d as int) / (radix as int),
                    radix > 0,
                    d <= max,
            ;
        }
        value = value * radix + d;
        i += 1;
    }
    assert(dv.take(i as int) =~= dv);
    Some(value)
}

/// The quoted, escaped form of a text that `str`'s `Debug` writes.
pub uninterp spec fn debug_text(s: Seq<char>) -> Seq<char>;

/// Writes `s` as `str`'s `Debug` impl does (`format!("{s:?}")`): quoted,
/// with quotes, backslashes and unprintable characters escaped. The
/// contract names the result `debug_text` of the text.
#[verifier::external_body]
pub(crate) fn debug_str(s: &str) -> (r: String)
    ensures
        r@ == debug_text(s@),
{
    format!("{s:?}")
}

/// The first error among the checks, in order, or success where none fails.
pub open spec fn first_error(cs: Seq<Result<(), Seq<char>>>) -> Result<(), Seq<char>>
    decreases cs.len(),
{
    if cs.len() == 0 {
        Ok(())
    } else {
        match first_error(cs.drop_last()) {
            Err(e) => Err(e),
            Ok(_) => cs.last(),
        }
    }
}

/// Whether an executable outcome is the one a check describes, message included.
pub open spec fn same_outcome(r: Result<(), String>, c: Result<(), Seq<char>>) -> bool {
    match r {
        Ok(_) => c is Ok,
        Err(e) => c == Err::<(), Seq<char>>(e@),
    }
}

pub proof fn lemma_first_error_step(cs: Seq<Result<(), Seq<char>>>, i: int)
    requires
        0 <= i < cs.len(),
        first_error(cs.take(i)) is Ok,
    ensures
        first_error(cs.take(i + 1)) == cs[i],
{
    assert(cs.take(i + 1).drop_last() =~= cs.take(i));
}

pub proof fn lemma_first_error_stop(cs: Seq<Result<(), Seq<char>>>, i: int)
    requires
        0 <= i <= cs.len(),
        first_error(cs.take(i)) is Err,
    ensures
        first_error(cs) == first_error(cs.take(i)),
    decreases cs.len() - i,
{
    if i == cs.len() {
        assert(cs.take(i) =~= cs);
    } else {
        assert(cs.drop_last().take(i) =~= cs.take(i));
        lemma_first_error_stop(cs.drop_last(), i);
    }
}

pub proof fn lemma_first_error_whole(cs: Seq<Result<(), Seq<char>>>)
    ensures
        first_error(cs.take(cs.len() as int)) == first_error(cs),
{
    assert(cs.take(cs.len() as int) =~= cs);
}

/// `path[index]`, the path of one element of a configured sequence.
pub open spec fn element_path(path: Seq<char>, index: int) -> Seq<char> {
    path + "["@ + decimal_text(index as nat) + "]"@
}

/// Whether some character of `s` is a control character.
pub open spec fn has_control(s: Seq<char>) -> bool {
    exists|i: int| 0 <= i < s.len() && is_control(#[trigger] s[i])
}

pub fn contains_control(s: &str) -> (r: bool)
    ensures
        r == has_control(s@),
{
    let v = chars_of(s);
    let f = |c: char| -> (b: bool)
        ensures
            b == is_control(c),
        { control(c) };
    any_chars(&v, f, Ghost(|c: char| is_control(c)))
}

/// `a` followed by `b` and `c`.
pub fn concat3(a: &str, b: &str, c: &str) -> (r: String)
    ensures
        r@ == a@ + b@ + c@,
{
    let mut r = a.to_owned();
    r.append(b);
    r.append(c);
    r
}

pub proof fn lemma_first_occurrence_at(s: Seq<char>, t: Seq<char>, at: int)
    requires
        occurs_at(s, t, at),
        forall|k: int| 0 <= k < at ==> !#[trigger] occurs_at(s, t, k),
    ensures
        first_occurrence(s, t) == Some(at),
{
    assert(contains_seq(s, t));
    let kc = choose|k: int| occurs_at(s, t, k) && forall|j: int| 0 <= j < k ==> !occurs_at(s, t, j);
    assert(occurs_at(s, t, kc) && forall|j: int| 0 <= j < kc ==> !occurs_at(s, t, j));
    assert(kc == at);
}

pub open spec fn space_fn() -> spec_fn(char) -> bool {
    |c: char| is_space(c)
}

/// The words of `s`, as `str::split_whitespace` yields them (Unicode whitespace).
pub open spec fn unicode_words(s: Seq<char>) -> Seq<Seq<char>> {
    split_by(s, space_fn()).filter(nonempty_fn())
}

pub fn unicode_words_of(s: &[char]) -> (r: Vec<Vec<char>>)
    ensures
        views(r@) == unicode_words(s@),
{
    let is_space_char = |c: char| -> (b: bool)
        ensures
            b == is_space(c),
        { space(c) };
    let parts = split_by_chars(s, is_space_char, Ghost(space_fn()));
    let ghost pv = split_by(s@, space_fn());
    let mut r: Vec<Vec<char>> = Vec::new();
    let mut i: usize = 0;
    while i < parts.len()
        invariant
            i <= parts@.len(),
            views(parts@) == pv,
            views(r@) == pv.take(i as int).filter(nonempty_fn()),
        decreases parts@.len() - i,
    {
        let piece = parts[i].clone();
        assert(piece@ == pv[i as int]);
        proof {
            pv.take(i as int).lemma_filter_push(pv[i as int], nonempty_fn());
            assert(pv.take(i + 1) =~= pv.take(i as int).push(pv[i as int]));
        }
        if piece.len() > 0 {
            r.push(piece);
        }
        i += 1;
        assert(views(r@) =~= pv.take(i as int).filter(nonempty_fn()));
    }
    assert(pv.take(i as int) =~= pv);
    r
}

/// Decodes UTF-8 bytes with `std::str::from_utf8`: the text where the bytes
/// are valid UTF-8, `None` otherwise. The contract states this over vstd's
/// UTF-8 decoding specification.
#[verifier::external_body]
pub(crate) fn utf8_text(bytes: &[u8]) -> (r: Option<String>)
    ensures
        r is Some <==> vstd::utf8::valid_utf8(bytes@),
        r matches Some(s) ==> s@ == vstd::utf8::decode_utf8(bytes@),
{
    std::str::from_utf8(bytes).ok().map(str::to_owned)
}

/// The lines joined with a newline after each.
pub open spec fn join_lines(ls: Seq<Seq<char>>) -> Seq<char>
    decreases ls.len(),
{
    if ls.len() == 0 {
        Seq::empty()
    } else {
        join_lines(ls.drop_last()) + ls.last().push('\n')
    }
}

/// No part of a split holds the separator.
pub proof fn lemma_split_parts_free(s: Seq<char>, sep: char)
    ensures
        forall|i: int| 0 <= i < split(s, sep).len() ==> !(#[trigger] split(s, sep)[i]).contains(sep),
    decreases s.len(),
{
    crate::text::lemma_split_by_nonempty(s, is_char(sep));
    if s.len() > 0 {
        lemma_split_parts_free(s.drop_last(), sep);
        let prev = split(s.drop_last(), sep);
        crate::text::lemma_split_by_nonempty(s.drop_last(), is_char(sep));
        if s.last() != sep {
            let last = prev.last().push(s.last());
            assert(!last.contains(sep)) by {
                if last.contains(sep) {
                    let k = choose|k: int| 0 <= k < last.len() && last[k] == sep;
                    if k < prev.last().len() {
                        assert(prev.last()[k] == sep);
                        assert(prev.last().contains(sep));
                    }
                }
            }
        } else {
            assert(!Seq::<char>::empty().contains(sep));
        }
    }
}

/// A text without the separator splits into itself alone.
pub proof fn lemma_split_free(f: Seq<char>, sep: char)
    requires
        !f.contains(sep),
    ensures
        split(f, sep) == seq![f],
    decreases f.len(),
{
    if f.len() > 0 {
        assert(!f.drop_last().contains(sep)) by {
            if f.drop_last().contains(sep) {
                let k = choose|k: int| 0 <= k < f.drop_last().len() && f.drop_last()[k] == sep;
                assert(f[k] == sep);
            }
        }
        lemma_split_free(f.drop_last(), sep);
        assert(f.last() != sep) by {
            assert(f[f.len() - 1] == f.last());
        }
        assert(f.drop_last().push(f.last()) =~= f);
        assert(seq![f.drop_last()].update(0, f.drop_last().push(f.last())) =~= seq![f]);
    } else {
        assert(f =~= Seq::<char>::empty());
    }
}

/// Text, a separator, and a tail without it split into the text's parts and the tail.
pub proof fn lemma_split_append(s: Seq<char>, sep: char, f: Seq<char>)
    requires
        !f.contains(sep),
    ensures
        split(s.push(sep) + f, sep) == split(s, sep).push(f),
    decreases f.len(),
{
    if f.len() == 0 {
        assert(s.push(sep) + f =~= s.push(sep));
        assert((s.push(sep)).drop_last() =~= s);
        assert(f =~= Seq::<char>::empty());
        assert(is_char(sep)(s.push(sep).last()));
    } else {
        let g = f.drop_last();
        assert(!g.contains(sep)) by {
            if g.contains(sep) {
                let k = choose|k: int| 0 <= k < g.len() && g[k] == sep;
                assert(f[k] == sep);
            }
        }
        lemma_split_append(s, sep, g);
        let whole = s.push(sep) + f;
        assert(whole.drop_last() =~= s.push(sep) + g);
        assert(whole.last() == f.last());
        assert(f.last() != sep) by {
            assert(f[f.len() - 1] == f.last());
        }
        assert(g.push(f.last()) =~= f);
        let prev = split(s.push(sep) + g, sep);
        assert(prev == split(s, sep).push(g));
        assert(!is_char(sep)(whole.last()));
        assert(split(whole, sep) == prev.update(prev.len() - 1, prev.last().push(whole.last())));
        assert(split(s, sep).push(g).update(split(s, sep).len() as int, g.push(f.last())) =~= split(s, sep).push(f));
    }
}

/// Lines without newlines, each ended by one, then a tail without one,
/// split at newlines into those lines and the tail.
pub proof fn lemma_split_join_lines(ls: Seq<Seq<char>>, f: Seq<char>)
    requires
        forall|i: int| 0 <= i < ls.len() ==> !(#[trigger] ls[i]).contains('\n'),
        !f.contains('\n'),
    ensures
        split(join_lines(ls) + f, '\n') == ls.push(f),
    decreases ls.len(),
{
    if ls.len() == 0 {
        assert(join_lines(ls) + f =~= f);
        lemma_split_free(f, '\n');
        assert(ls.push(f) =~= seq![f]);
    } else {
        let prev = ls.drop_last();
        let l = ls.last();
        assert(!l.contains('\n')) by {
            assert(ls[ls.len() - 1] == l);
        }
        assert forall|i: int| 0 <= i < prev.len() implies !(#[trigger] prev[i]).contains('\n') by {
            assert(prev[i] == ls[i]);
        }
        lemma_split_join_lines(prev, l);
        lemma_split_append(join_lines(prev) + l, '\n', f);
        assert(join_lines(ls) + f =~= (join_lines(prev) + l).push('\n') + f);
        assert(prev.push(l) =~= ls);
    }
}


/// The character `c` twice.
pub open spec fn doubled(c: char) -> Seq<char> {
    seq![c, c]
}

/// A position of `c` in `s` gives a first one.
proof fn lemma_first_index_exists(s: Seq<char>, c: char, k: int)
    requires
        0 <= k < s.len(),
        s[k] == c,
    ensures
        exists|m: int| 0 <= m < s.len() && s[m] == c && forall|j: int| 0 <= j < m ==> s[j] != c,
    decreases k,
{
    if exists|j: int| 0 <= j < k && s[j] == c {
        let j = choose|j: int| 0 <= j < k && s[j] == c;
        lemma_first_index_exists(s, c, j);
    } else {
        assert(0 <= k < s.len() && s[k] == c && forall|j: int| 0 <= j < k ==> s[j] != c);
    }
}

/// Where `s` holds `c`, `first_index` gives its first position.
pub proof fn lemma_first_index_some(s: Seq<char>, c: char)
    requires
        s.contains(c),
    ensures
        first_index(s, c) is Some,
        0 <= first_index(s, c)->Some_0 < s.len(),
        s[first_index(s, c)->Some_0] == c,
        forall|j: int| 0 <= j < first_index(s, c)->Some_0 ==> s[j] != c,
{
    let k0 = choose|k: int| 0 <= k < s.len() && s[k] == c;
    lemma_first_index_exists(s, c, k0);
}

/// A position of `c` with none before it is the first one.
pub proof fn lemma_first_index_at(s: Seq<char>, c: char, k: int)
    requires
        0 <= k < s.len(),
        s[k] == c,
        forall|j: int| 0 <= j < k ==> s[j] != c,
    ensures
        first_index(s, c) == Some(k),
{
    assert(s.contains(c));
    lemma_first_index_some(s, c);
    let m = first_index(s, c)->Some_0;
    if m < k {
        assert(s[m] != c);
    } else if m > k {
        assert(s[k] != c);
    }
}

proof fn lemma_occurrence_min_exists(s: Seq<char>, t: Seq<char>, at: int)
    requires
        occurs_at(s, t, at),
    ensures
        exists|k: int| occurs_at(s, t, k) && forall|j: int| 0 <= j < k ==> !occurs_at(s, t, j),
    decreases at,
{
    if exists|j: int| 0 <= j < at && occurs_at(s, t, j) {
        let j = choose|j: int| 0 <= j < at && occurs_at(s, t, j);
        lemma_occurrence_min_exists(s, t, j);
    } else {
        assert(occurs_at(s, t, at) && forall|j: int| 0 <= j < at ==> !occurs_at(s, t, j));
    }
}

/// Where `first_occurrence` gives a position, `t` occurs there and nowhere before.
pub proof fn lemma_first_occurrence_some(s: Seq<char>, t: Seq<char>)
    requires
        first_occurrence(s, t) is Some,
    ensures
        occurs_at(s, t, first_occurrence(s, t)->Some_0),
        forall|j: int| 0 <= j < first_occurrence(s, t)->Some_0 ==> !occurs_at(s, t, j),
{
    let at = choose|at: int| occurs_at(s, t, at);
    lemma_occurrence_min_exists(s, t, at);
}

/// The parts of a split at a doubled character `cc`: there is at least one,
/// none holds `cc`, none but the last ends with `c`, and none holds a
/// character `d` that `s` lacks.
pub proof fn lemma_split_str_doubled_parts(s: Seq<char>, c: char, d: char)
    ensures
        split_str(s, doubled(c)).len() >= 1,
        forall|i: int| 0 <= i < split_str(s, doubled(c)).len()
            ==> !contains_seq(#[trigger] split_str(s, doubled(c))[i], doubled(c)),
        forall|i: int| 0 <= i < split_str(s, doubled(c)).len() - 1
            ==> !((#[trigger] split_str(s, doubled(c))[i]).len() > 0 && split_str(s, doubled(c))[i].last() == c),
        !s.contains(d) ==> forall|i: int| 0 <= i < split_str(s, doubled(c)).len()
            ==> !(#[trigger] split_str(s, doubled(c))[i]).contains(d),
    decreases s.len(),
{
    let t = doubled(c);
    match first_occurrence(s, t) {
        None => {
            lemma_split_str_none(s, t);
            if !s.contains(d) {
                assert(split_str(s, t)[0] == s);
            }
        },
        Some(k) => {
            lemma_first_occurrence_some(s, t);
            lemma_split_str_step(s, t, k);
            let head = s.take(k);
            let rest = s.skip(k + 2);
            lemma_split_str_doubled_parts(rest, c, d);
            lemma_split_str_head(s, c, d, k);
            let parts = split_str(s, t);
            assert(parts == seq![head] + split_str(rest, t));
            assert forall|i: int| 1 <= i < parts.len() implies parts[i] == split_str(rest, t)[i - 1] by {}
        },
    }
}

proof fn lemma_split_str_head(s: Seq<char>, c: char, d: char, k: int)
    requires
        occurs_at(s, doubled(c), k),
        forall|j: int| 0 <= j < k ==> !occurs_at(s, doubled(c), j),
    ensures
        !contains_seq(s.take(k), doubled(c)),
        !(s.take(k).len() > 0 && s.take(k).last() == c),
        !s.contains(d) ==> !s.take(k).contains(d) && !s.skip(k + 2).contains(d),
{
    let t = doubled(c);
    let head = s.take(k);
    let rest = s.skip(k + 2);
    assert forall|j: int| !occurs_at(head, t, j) by {
        if occurs_at(head, t, j) {
            assert(head.subrange(j, j + 2) =~= s.subrange(j, j + 2));
            assert(occurs_at(s, t, j));
        }
    }
    assert(!(head.len() > 0 && head.last() == c)) by {
        if head.len() > 0 && head.last() == c {
            assert(s.subrange(k, k + 2) == t);
            assert(s[k] == s.subrange(k, k + 2)[0]);
            assert(s.subrange(k - 1, k + 1) =~= t);
            assert(occurs_at(s, t, k - 1));
        }
    }
    if !s.contains(d) {
        assert(!head.contains(d)) by {
            if head.contains(d) {
                let m = choose|m: int| 0 <= m < head.len() && head[m] == d;
                assert(s[m] == d);
            }
        }
        assert(!rest.contains(d)) by {
            if rest.contains(d) {
                let m = choose|m: int| 0 <= m < rest.len() && rest[m] == d;
                assert(s[m + k + 2] == d);
            }
        }
    }
}

/// Joining at least two parts puts the first, then the separator, then the
/// rest joined.
pub proof fn lemma_join_front(parts: Seq<Seq<char>>, sep: Seq<char>)
    requires
        parts.len() >= 2,
    ensures
        join(parts, sep) == parts[0] + sep + join(parts.skip(1), sep),
    decreases parts.len(),
{
    if parts.len() == 2 {
        assert(parts.skip(1) =~= seq![parts[1]]);
        assert(parts.drop_last() =~= seq![parts[0]]);
        assert(join(parts.drop_last(), sep) == parts[0]);
        assert(join(parts.skip(1), sep) == parts[1]);
        assert(join(parts, sep) =~= parts[0] + sep + parts[1]);
    } else {
        let prev = parts.drop_last();
        let tail = parts.skip(1);
        lemma_join_front(prev, sep);
        assert(prev.skip(1) =~= tail.drop_last());
        assert(tail.last() == parts.last());
        assert(prev[0] == parts[0]);
        assert(join(parts, sep) == join(prev, sep) + sep + parts.last());
        assert(join(tail, sep) == join(tail.drop_last(), sep) + sep + tail.last());
        assert(join(tail, sep) == join(prev.skip(1), sep) + sep + parts.last());
        assert(join(parts, sep) =~= parts[0] + sep + (join(prev.skip(1), sep) + sep + parts.last()));
    }
}

/// Parts without `cc`, none but the last ending with `c`, joined by `cc`
/// split at `cc` into themselves.
pub proof fn lemma_split_str_join_doubled(qs: Seq<Seq<char>>, c: char)
    requires
        qs.len() >= 1,
        forall|i: int| 0 <= i < qs.len() ==> !contains_seq(#[trigger] qs[i], doubled(c)),
        forall|i: int| 0 <= i < qs.len() - 1 ==> !((#[trigger] qs[i]).len() > 0 && qs[i].last() == c),
    ensures
        split_str(join(qs, doubled(c)), doubled(c)) == qs,
    decreases qs.len(),
{
    let t = doubled(c);
    if qs.len() == 1 {
        assert(!contains_seq(qs[0], t));
        lemma_split_str_none(qs[0], t);
        assert(seq![qs[0]] =~= qs);
    } else {
        lemma_join_front(qs, t);
        let q0 = qs[0];
        let rest = join(qs.skip(1), t);
        let s = q0 + t + rest;
        assert(!(q0.len() > 0 && q0.last() == c));
        assert(s.subrange(q0.len() as int, q0.len() as int + 2) =~= t);
        assert forall|j: int| 0 <= j < q0.len() implies !#[trigger] occurs_at(s, t, j) by {
            if occurs_at(s, t, j) {
                if j + 2 <= q0.len() {
                    assert(q0.subrange(j, j + 2) =~= s.subrange(j, j + 2));
                    assert(occurs_at(q0, t, j));
                } else {
                    assert(s[j] == s.subrange(j, j + 2)[0]);
                    assert(s[j] == q0[j]);
                }
            }
        }
        lemma_split_str_step(s, t, q0.len() as int);
        assert(s.take(q0.len() as int) =~= q0);
        assert(s.skip(q0.len() as int + 2) =~= rest);
        let tail = qs.skip(1);
        assert forall|i: int| 0 <= i < tail.len() implies !contains_seq(#[trigger] tail[i], t) by {
            assert(tail[i] == qs[i + 1]);
        }
        assert forall|i: int| 0 <= i < tail.len() - 1 implies !((#[trigger] tail[i]).len() > 0 && tail[i].last() == c) by {
            assert(tail[i] == qs[i + 1]);
        }
        lemma_split_str_join_doubled(tail, c);
        assert(seq![q0] + tail =~= qs);
    }
}

/// Parts without the separator, joined by it, split into themselves.
pub proof fn lemma_split_join(ls: Seq<Seq<char>>, sep: char)
    requires
        ls.len() >= 1,
        forall|i: int| 0 <= i < ls.len() ==> !(#[trigger] ls[i]).contains(sep),
    ensures
        split(join(ls, seq![sep]), sep) == ls,
    decreases ls.len(),
{
    if ls.len() == 1 {
        lemma_split_free(ls[0], sep);
        assert(seq![ls[0]] =~= ls);
    } else {
        let prev = ls.drop_last();
        assert forall|i: int| 0 <= i < prev.len() implies !(#[trigger] prev[i]).contains(sep) by {
            assert(prev[i] == ls[i]);
        }
        lemma_split_join(prev, sep);
        assert(!ls.last().contains(sep)) by {
            assert(ls[ls.len() - 1] == ls.last());
        }
        assert(join(ls, seq![sep]) =~= join(prev, seq![sep]).push(sep) + ls.last());
        lemma_split_append(join(prev, seq![sep]), sep, ls.last());
        assert(prev.push(ls.last()) =~= ls);
    }
}

/// Lines without newlines or carriage returns, the last not empty, joined by
/// newlines, read back as themselves.
pub proof fn lemma_lines_join(ls: Seq<Seq<char>>)
    requires
        ls.len() >= 1,
        forall|i: int| 0 <= i < ls.len() ==> !(#[trigger] ls[i]).contains('\n') && !ls[i].contains('\r'),
        ls.last().len() > 0,
    ensures
        lines(join(ls, seq!['\n'])) == ls,
{
    lemma_split_join(ls, '\n');
    let front = ls.drop_last();
    assert forall|i: int| 0 <= i < front.len() implies #[trigger] strip_cr(front[i]) == front[i] by {
        assert(front[i] == ls[i]);
        if front[i].len() > 0 {
            assert(front[i][front[i].len() - 1] == front[i].last());
        }
    }
    assert(front.map_values(strip_cr_fn()) =~= front);
    assert(front.push(ls.last()) =~= ls);
}

/// Parts without `c`, all but the first not empty, joined by `c`, hold no
/// doubled `c` and do not end with `c`.
pub proof fn lemma_join_no_doubled(ls: Seq<Seq<char>>, c: char)
    requires
        ls.len() >= 1,
        forall|i: int| 0 <= i < ls.len() ==> !(#[trigger] ls[i]).contains(c),
        forall|i: int| 1 <= i < ls.len() ==> (#[trigger] ls[i]).len() > 0,
    ensures
        !contains_seq(join(ls, seq![c]), doubled(c)),
        join(ls, seq![c]).len() > 0 ==> join(ls, seq![c]).last() != c,
    decreases ls.len(),
{
    let t = doubled(c);
    if ls.len() == 1 {
        let s = ls[0];
        assert forall|j: int| !occurs_at(s, t, j) by {
            if occurs_at(s, t, j) {
                assert(s[j] == s.subrange(j, j + 2)[0]);
            }
        }
        if s.len() > 0 {
            assert(s[s.len() - 1] == s.last());
        }
    } else {
        let prev = ls.drop_last();
        assert forall|i: int| 0 <= i < prev.len() implies !(#[trigger] prev[i]).contains(c) by {
            assert(prev[i] == ls[i]);
        }
        assert forall|i: int| 1 <= i < prev.len() implies (#[trigger] prev[i]).len() > 0 by {
            assert(prev[i] == ls[i]);
        }
        lemma_join_no_doubled(prev, c);
        let jn = join(prev, seq![c]);
        let l = ls.last();
        assert(!l.contains(c) && l.len() > 0) by {
            assert(ls[ls.len() - 1] == l);
        }
        let s = join(ls, seq![c]);
        assert(s =~= jn.push(c) + l);
        assert forall|j: int| !occurs_at(s, t, j) by {
            if occurs_at(s, t, j) {
                let sub = s.subrange(j, j + 2);
                assert(s[j] == sub[0] && s[j + 1] == sub[1]);
                if j + 2 <= jn.len() {
                    assert(jn.subrange(j, j + 2) =~= sub);
                    assert(occurs_at(jn, t, j));
                } else if j + 1 == jn.len() {
                    assert(s[j] == jn.last());
                } else if j == jn.len() {
                    assert(s[j + 1] == l[0]);
                } else {
                    assert(s[j] == l[j - jn.len() - 1]);
                }
            }
        }
        assert(s.last() == l[l.len() - 1]);
    }
}

/// A text is all whitespace exactly when trimming leaves nothing.
pub proof fn lemma_trim_empty_iff(s: Seq<char>)
    ensures
        trim(s).len() == 0 <==> forall|k: int| 0 <= k < s.len() ==> is_space(#[trigger] s[k]),
{
    if forall|k: int| 0 <= k < s.len() ==> is_space(#[trigger] s[k]) {
        lemma_trim_start_all_space(s);
    } else {
        let k = choose|k: int| 0 <= k < s.len() && !is_space(s[k]);
        lemma_trim_start_keeps(s, k);
        let a = trim_start(s);
        let m = choose|m: int| 0 <= m < a.len() && !is_space(a[m]);
        lemma_trim_end_keeps(a, m);
    }
}

proof fn lemma_trim_start_all_space(s: Seq<char>)
    requires
        forall|k: int| 0 <= k < s.len() ==> is_space(#[trigger] s[k]),
    ensures
        trim_start(s).len() == 0,
    decreases s.len(),
{
    if s.len() > 0 {
        assert(is_space(s[0]));
        assert forall|k: int| 0 <= k < s.drop_first().len() implies is_space(#[trigger] s.drop_first()[k]) by {
            assert(s.drop_first()[k] == s[k + 1]);
        }
        lemma_trim_start_all_space(s.drop_first());
    }
}

proof fn lemma_trim_start_keeps(s: Seq<char>, k: int)
    requires
        0 <= k < s.len(),
        !is_space(s[k]),
    ensures
        exists|m: int| 0 <= m < trim_start(s).len() && !is_space(#[trigger] trim_start(s)[m]),
    decreases s.len(),
{
    if is_space(s[0]) {
        assert(s.drop_first()[k - 1] == s[k]);
        lemma_trim_start_keeps(s.drop_first(), k - 1);
        assert(trim_start(s) == trim_start(s.drop_first()));
    } else {
        assert(trim_start(s) == s);
        assert(!is_space(trim_start(s)[k]));
    }
}

proof fn lemma_trim_end_keeps(s: Seq<char>, k: int)
    requires
        0 <= k < s.len(),
        !is_space(s[k]),
    ensures
        trim_end(s).len() > 0,
    decreases s.len(),
{
    if is_space(s.last()) {
        assert(k < s.len() - 1);
        assert(s.drop_last()[k] == s[k]);
        lemma_trim_end_keeps(s.drop_last(), k);
    }
}

/// Text without a separator character `p` followed by one with it (or by
/// nothing) has the text as its first part.
proof fn lemma_split_by_head(a: Seq<char>, w: Seq<char>, p: spec_fn(char) -> bool)
    requires
        forall|k: int| 0 <= k < a.len() ==> !p(#[trigger] a[k]),
        w.len() == 0 || p(w[0]),
    ensures
        split_by(a + w, p).len() >= 1,
        split_by(a + w, p)[0] == a,
        w.len() > 0 ==> split_by(a + w, p).len() >= 2,
    decreases a.len() + w.len(),
{
    lemma_split_by_nonempty(a + w, p);
    if w.len() == 0 {
        assert(a + w =~= a);
        if a.len() > 0 {
            let b = a.drop_last();
            assert forall|k: int| 0 <= k < b.len() implies !p(#[trigger] b[k]) by {
                assert(b[k] == a[k]);
            }
            lemma_split_by_head(b, w, p);
            assert(b + w =~= b);
            assert(a.drop_last() == b);
            assert(!p(a.last())) by {
                assert(a[a.len() - 1] == a.last());
            }
            lemma_split_by_nonempty(b, p);
            let prev = split_by(b, p);
            assert(prev.len() == 1) by {
                lemma_split_by_count(b, p);
            }
            assert(b.push(a.last()) =~= a);
        }
    } else {
        let v = w.drop_last();
        assert((a + w).drop_last() =~= a + v);
        if v.len() == 0 {
            lemma_split_by_head(a, v, p);
            assert(a + v =~= a);
            assert(w.last() == w[0]);
            lemma_split_by_nonempty(a, p);
        } else {
            assert(v[0] == w[0]);
            lemma_split_by_head(a, v, p);
        }
    }
}

/// Text without separator characters splits into one part.
proof fn lemma_split_by_count(a: Seq<char>, p: spec_fn(char) -> bool)
    requires
        forall|k: int| 0 <= k < a.len() ==> !p(#[trigger] a[k]),
    ensures
        split_by(a, p).len() == 1,
    decreases a.len(),
{
    if a.len() > 0 {
        let b = a.drop_last();
        assert forall|k: int| 0 <= k < b.len() implies !p(#[trigger] b[k]) by {
            assert(b[k] == a[k]);
        }
        lemma_split_by_count(b, p);
        assert(!p(a.last())) by {
            assert(a[a.len() - 1] == a.last());
        }
    }
}

/// A word followed by nothing or by a space is among the words.
pub proof fn lemma_words_head(a: Seq<char>, w: Seq<char>)
    requires
        a.len() > 0,
        forall|k: int| 0 <= k < a.len() ==> !is_ascii_space(#[trigger] a[k]),
        w.len() == 0 || is_ascii_space(w[0]),
    ensures
        words(a + w).contains(a),
{
    lemma_split_by_head(a, w, ascii_space_fn());
    let parts = split_by(a + w, ascii_space_fn());
    assert(nonempty_fn()(parts[0]));
    parts.lemma_filter_contains(nonempty_fn(), 0);
}


/// No part of a split holds a character that the text lacks.
pub proof fn lemma_split_parts_lack(s: Seq<char>, sep: char, d: char)
    requires
        !s.contains(d),
    ensures
        forall|i: int| 0 <= i < split(s, sep).len() ==> !(#[trigger] split(s, sep)[i]).contains(d),
    decreases s.len(),
{
    lemma_split_by_nonempty(s, is_char(sep));
    if s.len() > 0 {
        let t = s.drop_last();
        assert(!t.contains(d)) by {
            if t.contains(d) {
                let k = choose|k: int| 0 <= k < t.len() && t[k] == d;
                assert(s[k] == d);
            }
        }
        lemma_split_parts_lack(t, sep, d);
        let prev = split(t, sep);
        lemma_split_by_nonempty(t, is_char(sep));
        if s.last() != sep {
            let last = prev.last().push(s.last());
            assert(s.last() != d) by {
                assert(s[s.len() - 1] == s.last());
            }
            assert(!last.contains(d)) by {
                if last.contains(d) {
                    let k = choose|k: int| 0 <= k < last.len() && last[k] == d;
                    if k < prev.last().len() {
                        assert(prev.last()[k] == d);
                        assert(prev[prev.len() - 1] == prev.last());
                    }
                }
            }
        } else {
            assert(!Seq::<char>::empty().contains(d));
        }
    }
}

/// In a text without a doubled separator, every part of its split but the
/// first and the last holds something, and so does the last where the text
/// ends with something else.
pub proof fn lemma_split_inner_nonempty(s: Seq<char>, sep: char)
    requires
        !contains_seq(s, doubled(sep)),
    ensures
        forall|i: int| 1 <= i < split(s, sep).len() - 1 ==> (#[trigger] split(s, sep)[i]).len() > 0,
        s.len() > 0 && s.last() != sep ==> split(s, sep).last().len() > 0,
    decreases s.len(),
{
    lemma_split_by_nonempty(s, is_char(sep));
    if s.len() > 0 {
        let t = s.drop_last();
        assert(!contains_seq(t, doubled(sep))) by {
            if contains_seq(t, doubled(sep)) {
                let j = choose|j: int| occurs_at(t, doubled(sep), j);
                assert(s.subrange(j, j + 2) =~= t.subrange(j, j + 2));
                assert(occurs_at(s, doubled(sep), j));
            }
        }
        lemma_split_inner_nonempty(t, sep);
        lemma_split_by_nonempty(t, is_char(sep));
        let prev = split(t, sep);
        if s.last() == sep {
            if prev.len() >= 2 {
                assert(t.len() > 0) by {
                    if t.len() == 0 {
                        assert(split(t, sep) == seq![Seq::<char>::empty()]);
                    }
                }
                assert(t.last() != sep) by {
                    if t.last() == sep {
                        assert(s.subrange(s.len() - 2, s.len() as int) =~= doubled(sep));
                        assert(occurs_at(s, doubled(sep), s.len() - 2));
                    }
                }
                assert(prev.last() == prev[prev.len() - 1]);
            }
        }
    }
}

/// Joined parts without a character hold none of it where the separator
/// holds none either.
pub proof fn lemma_join_lacks(ls: Seq<Seq<char>>, sep: Seq<char>, d: char)
    requires
        forall|i: int| 0 <= i < ls.len() ==> !(#[trigger] ls[i]).contains(d),
        !sep.contains(d),
    ensures
        !join(ls, sep).contains(d),
    decreases ls.len(),
{
    if ls.len() == 1 {
        assert(!ls[0].contains(d));
    } else if ls.len() >= 2 {
        let prev = ls.drop_last();
        assert forall|i: int| 0 <= i < prev.len() implies !(#[trigger] prev[i]).contains(d) by {
            assert(prev[i] == ls[i]);
        }
        lemma_join_lacks(prev, sep, d);
        let l = ls.last();
        assert(!l.contains(d)) by {
            assert(ls[ls.len() - 1] == l);
        }
        let j = join(prev, sep);
        let s = join(ls, sep);
        assert(s =~= j + sep + l);
        if s.contains(d) {
            let k = choose|k: int| 0 <= k < s.len() && s[k] == d;
            if k < j.len() {
                assert(j[k] == d);
            } else if k < j.len() + sep.len() {
                assert(sep[k - j.len()] == d);
            } else {
                assert(l[k - j.len() - sep.len()] == d);
            }
        }
    }
}

/// A character of one of the parts is a character of the joined text.
pub proof fn lemma_join_holds(ls: Seq<Seq<char>>, sep: Seq<char>, i: int, d: char)
    requires
        0 <= i < ls.len(),
        ls[i].contains(d),
    ensures
        join(ls, sep).contains(d),
    decreases ls.len(),
{
    if ls.len() >= 2 {
        let prev = ls.drop_last();
        let l = ls.last();
        let s = join(ls, sep);
        let j = join(prev, sep);
        assert(s =~= j + sep + l);
        if i < ls.len() - 1 {
            assert(prev[i] == ls[i]);
            lemma_join_holds(prev, sep, i, d);
            let k = choose|k: int| 0 <= k < j.len() && j[k] == d;
            assert(s[k] == d);
        } else {
            let k = choose|k: int| 0 <= k < l.len() && l[k] == d;
            assert(s[j.len() + sep.len() + k] == d);
        }
    }
}

} // verus!
