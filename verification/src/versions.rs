//! Semantic versions (`semver`) and human-readable durations (`humantime`),
//! read by their crates and handed to the rules as plain values.
use vstd::prelude::*;
use crate::text::{alpha, chars_of, digit, eq_str, is_alpha, is_digit};

verus! {

/// What `semver::Version::parse` gives for the text: `None` where it
/// refuses it, else the pre-release and build metadata as they display.
pub uninterp spec fn semver_parse(text: Seq<char>) -> Option<(Seq<char>, Seq<char>)>;

/// What `humantime::parse_duration` gives for the text: `None` where it
/// refuses it, else the whole seconds and the nanoseconds beyond them.
pub uninterp spec fn humantime_duration(text: Seq<char>) -> Option<(u64, u32)>;

/// Parses a semantic version with `semver::Version::parse` and returns its
/// pre-release and build metadata texts. The contract names the result
/// `semver_parse` of the text; the semver grammar is not restated.
#[verifier::external_body]
pub(crate) fn parse_semver(text: &str) -> (r: Option<(String, String)>)
    ensures
        match r {
            Some((pre, build)) => semver_parse(text@) == Some((pre@, build@)),
            None => semver_parse(text@) is None,
        },
{
    let v = semver::Version::parse(text).ok()?;
    Some((v.pre.to_string(), v.build.to_string()))
}

/// Parses a duration with `humantime::parse_duration` and returns its whole
/// seconds and sub-second nanoseconds. The contract names the result
/// `humantime_duration` of the text; the duration grammar is not restated.
/// `humantime` adds the items of a duration into a `std::time::Duration`,
/// and can overflow its seconds inside `Duration::new` (a panic) only where
/// the sum reaches `u64::MAX` seconds while a carry of nanoseconds is
/// pending; `requires` admits the texts whose items stay below 10^19
/// seconds (see `duration_weight`) and those with no sub-second part, whose
/// nanoseconds stay 0 (see `subsecond_free`).
#[verifier::external_body]
pub(crate) fn parse_duration(text: &str) -> (r: Option<(u64, u32)>)
    requires
        duration_in_reach(text@) || subsecond_free(text@),
    ensures
        r == humantime_duration(text@),
{
    let d = humantime::parse_duration(text).ok()?;
    Some((d.as_secs(), d.subsec_nanos()))
}

/// A letter of a `humantime` unit name.
pub open spec fn unit_letter(c: char) -> bool {
    is_alpha(c) || c == '\u{b5}'
}

/// The `humantime` unit names of nanoseconds to seconds.
pub open spec fn short_unit(u: Seq<char>) -> bool {
    ||| u == "nanos"@ || u == "nsec"@ || u == "ns"@
    ||| u == "usec"@ || u == "us"@ || u == "\u{b5}s"@
    ||| u == "millis"@ || u == "msec"@ || u == "ms"@
    ||| u == "seconds"@ || u == "second"@ || u == "secs"@ || u == "sec"@ || u == "s"@
}

/// An upper bound of the seconds in one unit: 1 up to a second, else a year
/// (365.25 days, the longest `humantime` unit); unknown names count as years.
pub open spec fn unit_factor(u: Seq<char>) -> nat {
    if short_unit(u) {
        1
    } else {
        31_557_600
    }
}

pub open spec fn pow10(d: nat) -> nat
    decreases d,
{
    if d == 0 {
        1
    } else {
        10 * pow10((d - 1) as nat)
    }
}

/// An upper bound of the seconds that the items of `s` from `i` on add up
/// to, read as `humantime` reads them: a run of characters that are not
/// letters holds one number, whose integer part (the digits before a `.`)
/// has `digits` significant digits so far, and the letters after it name its
/// unit. Each item counts 10^digits times its unit's factor.
pub open spec fn duration_weight(s: Seq<char>, i: int, digits: nat, sig: bool, frac: bool, unit: Seq<char>) -> nat
    decreases s.len() - i, unit.len(),
{
    if i >= s.len() {
        pow10(digits) * unit_factor(unit)
    } else if unit_letter(s[i]) {
        duration_weight(s, i + 1, digits, sig, frac, unit.push(s[i]))
    } else if unit.len() > 0 {
        pow10(digits) * unit_factor(unit) + duration_weight(s, i, 0, false, false, Seq::empty())
    } else if s[i] == '.' {
        duration_weight(s, i + 1, digits, sig, true, unit)
    } else if is_digit(s[i]) && !frac && (sig || s[i] != '0') {
        duration_weight(s, i + 1, digits + 1, true, frac, unit)
    } else {
        duration_weight(s, i + 1, digits, sig, frac, unit)
    }
}

/// The texts that `parse_duration` may be handed: those whose items stay
/// below 10^19 seconds in all.
pub open spec fn duration_in_reach(text: Seq<char>) -> bool {
    duration_weight(text, 0, 0, false, false, Seq::empty()) <= 10_000_000_000_000_000_000
}

/// The `humantime` unit names below a second.
pub open spec fn subsecond_unit(u: Seq<char>) -> bool {
    ||| u == "nanos"@ || u == "nsec"@ || u == "ns"@
    ||| u == "usec"@ || u == "us"@ || u == "\u{b5}s"@
    ||| u == "millis"@ || u == "msec"@ || u == "ms"@
}

/// Whether the text from `i` on, with the unit letters `unit` read so far,
/// has neither a `.` nor a run of unit letters that names a unit below a
/// second: every item of such a text adds whole seconds only.
pub open spec fn subsecond_free_from(s: Seq<char>, i: int, unit: Seq<char>) -> bool
    decreases s.len() - i, unit.len(),
{
    if i >= s.len() {
        !subsecond_unit(unit)
    } else if unit_letter(s[i]) {
        subsecond_free_from(s, i + 1, unit.push(s[i]))
    } else if unit.len() > 0 {
        !subsecond_unit(unit) && subsecond_free_from(s, i, Seq::empty())
    } else if s[i] == '.' {
        false
    } else {
        subsecond_free_from(s, i + 1, unit)
    }
}

pub open spec fn subsecond_free(text: Seq<char>) -> bool {
    subsecond_free_from(text, 0, Seq::empty())
}

fn subsecond_unit_exec(u: &[char]) -> (r: bool)
    ensures
        r == subsecond_unit(u@),
{
    eq_str(u, "nanos") || eq_str(u, "nsec") || eq_str(u, "ns") || eq_str(u, "usec") || eq_str(u, "us")
        || eq_str(u, "\u{b5}s") || eq_str(u, "millis") || eq_str(u, "msec") || eq_str(u, "ms")
}

/// Whether the text has no sub-second part (`subsecond_free`).
pub fn whole_seconds_only(text: &str) -> (r: bool)
    ensures
        r == subsecond_free(text@),
{
    let s = chars_of(text);
    let mut unit: Vec<char> = Vec::new();
    let mut i: usize = 0;
    while i < s.len()
        invariant
            i <= s@.len(),
            s@ == text@,
            subsecond_free(text@) == subsecond_free_from(s@, i as int, unit@),
        decreases s@.len() - i, unit@.len(),
    {
        let c = s[i];
        if alpha(c) || c == '\u{b5}' {
            unit.push(c);
            i += 1;
        } else if unit.len() > 0 {
            if subsecond_unit_exec(unit.as_slice()) {
                return false;
            }
            unit = Vec::new();
        } else if c == '.' {
            return false;
        } else {
            i += 1;
        }
    }
    !subsecond_unit_exec(unit.as_slice())
}

proof fn lemma_pow10_grows(d: nat)
    ensures
        pow10(d) >= 1,
        pow10(d + 1) == 10 * pow10(d),
    decreases d,
{
    if d > 0 {
        lemma_pow10_grows((d - 1) as nat);
    }
}

proof fn lemma_pow10_20()
    ensures
        pow10(20) == 100_000_000_000_000_000_000,
{
    reveal_with_fuel(pow10, 21);
}

proof fn lemma_pow10_mono(a: nat, b: nat)
    requires
        a <= b,
    ensures
        pow10(a) <= pow10(b),
    decreases b - a,
{
    if a < b {
        lemma_pow10_mono(a, (b - 1) as nat);
        lemma_pow10_grows((b - 1) as nat);
    }
}

/// What remains of the weight counts at least the current number.
proof fn lemma_weight_floor(s: Seq<char>, i: int, digits: nat, sig: bool, frac: bool, unit: Seq<char>)
    ensures
        duration_weight(s, i, digits, sig, frac, unit) >= pow10(digits),
    decreases s.len() - i, unit.len(),
{
    lemma_pow10_grows(digits);
    if i >= s.len() {
        assert(pow10(digits) * unit_factor(unit) >= pow10(digits)) by (nonlinear_arith)
            requires unit_factor(unit) >= 1;
    } else if unit_letter(s[i]) {
        lemma_weight_floor(s, i + 1, digits, sig, frac, unit.push(s[i]));
    } else if unit.len() > 0 {
        assert(pow10(digits) * unit_factor(unit) >= pow10(digits)) by (nonlinear_arith)
            requires unit_factor(unit) >= 1;
    } else if s[i] == '.' {
        lemma_weight_floor(s, i + 1, digits, sig, true, unit);
    } else if is_digit(s[i]) && !frac && (sig || s[i] != '0') {
        lemma_weight_floor(s, i + 1, digits + 1, true, frac, unit);
        lemma_pow10_mono(digits, digits + 1);
    } else {
        lemma_weight_floor(s, i + 1, digits, sig, frac, unit);
    }
}

fn short_unit_exec(u: &[char]) -> (r: bool)
    ensures
        r == short_unit(u@),
{
    eq_str(u, "nanos") || eq_str(u, "nsec") || eq_str(u, "ns") || eq_str(u, "usec") || eq_str(u, "us")
        || eq_str(u, "\u{b5}s") || eq_str(u, "millis") || eq_str(u, "msec") || eq_str(u, "ms")
        || eq_str(u, "seconds") || eq_str(u, "second") || eq_str(u, "secs") || eq_str(u, "sec")
        || eq_str(u, "s")
}

fn pow10_exec(d: u32) -> (r: u128)
    requires
        d <= 20,
    ensures
        r == pow10(d as nat),
{
    let mut r: u128 = 1;
    let mut k: u32 = 0;
    while k < d
        invariant
            k <= d <= 20,
            r == pow10(k as nat),
        decreases d - k,
    {
        proof {
            lemma_pow10_grows(k as nat);
            lemma_pow10_mono((k + 1) as nat, 20);
            lemma_pow10_20();
        }
        r = r * 10;
        k += 1;
    }
    r
}

fn item_weight(digits: u32, unit: &Vec<char>) -> (r: u128)
    requires
        digits <= 20,
    ensures
        r == pow10(digits as nat) * unit_factor(unit@),
        r <= 100_000_000_000_000_000_000 * 31_557_600,
{
    let p = pow10_exec(digits);
    proof {
        lemma_pow10_mono(digits as nat, 20);
        lemma_pow10_20();
    }
    let f: u128 = if short_unit_exec(unit.as_slice()) { 1 } else { 31_557_600 };
    assert(p * f <= 100_000_000_000_000_000_000 * 31_557_600) by (nonlinear_arith)
        requires p <= 100_000_000_000_000_000_000, f <= 31_557_600;
    p * f
}

/// Whether `parse_duration` may be handed the text (`duration_in_reach`).
pub fn duration_reach(text: &str) -> (r: bool)
    ensures
        r == duration_in_reach(text@),
{
    let s = chars_of(text);
    let ghost w = duration_weight(s@, 0, 0, false, false, Seq::empty());
    let bound: u128 = 10_000_000_000_000_000_000;
    let mut acc: u128 = 0;
    let mut digits: u32 = 0;
    let mut sig = false;
    let mut frac = false;
    let mut unit: Vec<char> = Vec::new();
    let mut i: usize = 0;
    while i < s.len()
        invariant
            i <= s@.len(),
            s@ == text@,
            w == duration_weight(s@, 0, 0, false, false, Seq::empty()),
            acc <= bound,
            digits <= 20,
            bound == 10_000_000_000_000_000_000,
            acc + duration_weight(s@, i as int, digits as nat, sig, frac, unit@) == w,
        decreases s@.len() - i, unit@.len(),
    {
        let c = s[i];
        if alpha(c) || c == '\u{b5}' {
            unit.push(c);
            i += 1;
        } else if unit.len() > 0 {
            let add = item_weight(digits, &unit);
            if add > bound - acc {
                proof {
                    lemma_weight_floor(s@, i as int, 0, false, false, Seq::empty());
                }
                return false;
            }
            acc = acc + add;
            digits = 0;
            sig = false;
            frac = false;
            unit = Vec::new();
        } else if c == '.' {
            frac = true;
            i += 1;
        } else if digit(c) && !frac && (sig || c != '0') {
            if digits == 20 {
                proof {
                    lemma_weight_floor(s@, i + 1, 21, true, frac, unit@);
                    lemma_pow10_mono(20, 21);
                    lemma_pow10_20();
                }
                return false;
            }
            digits = digits + 1;
            sig = true;
            i += 1;
        } else {
            i += 1;
        }
    }
    let add = item_weight(digits, &unit);
    add <= bound - acc
}

} // verus!
