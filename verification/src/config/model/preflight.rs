//! Checks on the configuration text that come before it is read into the
//! model: YAML features that version 1.0.0 does not allow, the version
//! field, and explicit nulls.
use vstd::prelude::*;
use yaml_rust2::parser::{Event, Parser};
use yaml_rust2::scanner::Scanner;
use crate::text::{
    chars_of, concat, concat3, debug_str, debug_text, decimal_text, decimal_u128, element_path,
    eq_str, indexed, same_outcome, first_index, first_index_of, has_prefix, slice_to_vec, starts_with,
};
use crate::config::model::VERSION_TEXT;

verus! {

/// The classes of YAML scanner tokens that the preflight tells apart.
#[derive(Clone, Copy, Debug, PartialEq, Eq, Structural)]
pub enum YamlTokenKind {
    /// a `%YAML` or `%TAG` directive
    Directive,
    Tag,
    Anchor,
    Alias,
    Other,
}

/// The tokens of a YAML text, each as the `Debug` text of its
/// `yaml_rust2::scanner::TokenType` (the variant's name, then its fields in
/// brackets where it has any) with the line and column of the marker where
/// it starts (`yaml_rust2` counts lines from one and columns from zero), as
/// its scanner yields them (up to its first error, where it stops).
pub uninterp spec fn yaml_tokens(text: Seq<char>) -> Seq<(Seq<char>, usize, usize)>;

/// Scans the text with `yaml_rust2::scanner::Scanner` and hands out each
/// token's type, written with its derived `Debug`, and its start position.
/// The contract names the result `yaml_tokens` of the text; which tokens the
/// scanner yields is not stated.
#[verifier::external_body]
fn scan_yaml_tokens(text: &str) -> (r: Vec<(String, usize, usize)>)
    ensures
        string_triples(r@) == yaml_tokens(text@),
{
    Scanner::new(text.chars()).map(|token| (format!("{:?}", token.1), token.0.line(), token.0.col())).collect()
}

pub open spec fn string_triples(v: Seq<(String, usize, usize)>) -> Seq<(Seq<char>, usize, usize)> {
    v.map_values(|t: (String, usize, usize)| (t.0@, t.1, t.2))
}

/// The name of the variant that a derived `Debug` text writes: the text up
/// to its first `(`, or all of it.
pub open spec fn variant_name(d: Seq<char>) -> Seq<char> {
    match first_index(d, '(') {
        Some(k) => d.take(k),
        None => d,
    }
}

fn variant_name_of(d: &[char]) -> (r: Vec<char>)
    ensures
        r@ == variant_name(d@),
{
    match first_index_of(d, '(') {
        Some(k) => slice_to_vec(d, 0, k),
        None => slice_to_vec(d, 0, d.len()),
    }
}

/// The class of a token: directives, tags, anchors and aliases are YAML
/// features that the version refuses; every other token is `Other`.
pub open spec fn token_kind(d: Seq<char>) -> YamlTokenKind {
    let n = variant_name(d);
    if n == "VersionDirective"@ || n == "TagDirective"@ {
        YamlTokenKind::Directive
    } else if n == "Tag"@ {
        YamlTokenKind::Tag
    } else if n == "Anchor"@ {
        YamlTokenKind::Anchor
    } else if n == "Alias"@ {
        YamlTokenKind::Alias
    } else {
        YamlTokenKind::Other
    }
}

pub fn classify_token(d: &str) -> (r: YamlTokenKind)
    ensures
        r == token_kind(d@),
{
    let n = variant_name_of(&chars_of(d));
    if eq_str(&n, "VersionDirective") || eq_str(&n, "TagDirective") {
        YamlTokenKind::Directive
    } else if eq_str(&n, "Tag") {
        YamlTokenKind::Tag
    } else if eq_str(&n, "Anchor") {
        YamlTokenKind::Anchor
    } else if eq_str(&n, "Alias") {
        YamlTokenKind::Alias
    } else {
        YamlTokenKind::Other
    }
}

/// The classes of the tokens, each at its position.
pub open spec fn token_kinds(ts: Seq<(Seq<char>, usize, usize)>) -> Seq<(YamlTokenKind, usize, usize)> {
    ts.map_values(|t: (Seq<char>, usize, usize)| (token_kind(t.0), t.1, t.2))
}

/// What the message calls a YAML feature.
pub open spec fn feature_name(k: YamlTokenKind) -> Seq<char> {
    match k {
        YamlTokenKind::Directive => "YAML directives"@,
        YamlTokenKind::Tag => "YAML tags"@,
        YamlTokenKind::Anchor => "YAML anchors"@,
        YamlTokenKind::Alias => "YAML aliases"@,
        YamlTokenKind::Other => ""@,
    }
}

fn feature(k: YamlTokenKind) -> (r: &'static str)
    ensures
        r@ == feature_name(k),
{
    match k {
        YamlTokenKind::Directive => "YAML directives",
        YamlTokenKind::Tag => "YAML tags",
        YamlTokenKind::Anchor => "YAML anchors",
        YamlTokenKind::Alias => "YAML aliases",
        YamlTokenKind::Other => "",
    }
}

/// The end of the message for a feature that configuration version 1.0.0
/// does not allow.
pub const UNSUPPORTED_FEATURE: &'static str = " are not supported by configuration version 1.0.0";

/// The message for a feature found at a marker's line and column; it
/// writes each of them plus one, and ends with `suffix`, which names the
/// format that refuses the feature.
pub open spec fn feature_error(k: YamlTokenKind, line: usize, col: usize, suffix: Seq<char>) -> Seq<char> {
    "line "@ + decimal_text(line as nat + 1) + ", column "@ + decimal_text(col as nat + 1) + ": "@
        + feature_name(k) + suffix
}

/// The first token, from `from` on, of a class that the version does not
/// allow.
pub open spec fn first_feature(ts: Seq<(YamlTokenKind, usize, usize)>, from: int) -> Option<int>
    decreases ts.len() - from,
{
    if from < 0 || from >= ts.len() {
        None
    } else if ts[from].0 != YamlTokenKind::Other {
        Some(from)
    } else {
        first_feature(ts, from + 1)
    }
}

pub open spec fn tokens_check(ts: Seq<(YamlTokenKind, usize, usize)>, suffix: Seq<char>) -> Result<(), Seq<char>> {
    match first_feature(ts, 0) {
        Some(i) => Err(feature_error(ts[i].0, ts[i].1, ts[i].2, suffix)),
        None => Ok(()),
    }
}

/// The error for the first disallowed token of the scanned tokens.
pub fn check_yaml_tokens(tokens: &Vec<(YamlTokenKind, usize, usize)>, suffix: &str) -> (r: Result<(), String>)
    ensures
        same_outcome(r, tokens_check(tokens@, suffix@)),
{
    let mut i: usize = 0;
    while i < tokens.len()
        invariant
            i <= tokens@.len(),
            first_feature(tokens@, 0) == first_feature(tokens@, i as int),
        decreases tokens@.len() - i,
    {
        let (kind, line, col) = tokens[i];
        if kind != YamlTokenKind::Other {
            let mut m = concat("line ", decimal_u128(line as u128 + 1).as_str());
            m.append(", column ");
            m.append(decimal_u128(col as u128 + 1).as_str());
            m.append(": ");
            m.append(feature(kind));
            m.append(suffix);
            return Err(m);
        }
        i += 1;
    }
    Ok(())
}

/// Rejects YAML directives, tags, anchors and aliases, as the scanner
/// finds them in the text: the first one found is reported.
pub fn reject_yaml_tokens(text: &str, suffix: &str) -> (r: Result<(), String>)
    ensures
        same_outcome(r, tokens_check(token_kinds(yaml_tokens(text@)), suffix@)),
{
    let tokens = scan_yaml_tokens(text);
    let mut kinds: Vec<(YamlTokenKind, usize, usize)> = Vec::new();
    let mut i: usize = 0;
    while i < tokens.len()
        invariant
            i <= tokens@.len(),
            kinds@ =~= token_kinds(string_triples(tokens@)).take(i as int),
        decreases tokens@.len() - i,
    {
        let (line, col) = (tokens[i].1, tokens[i].2);
        kinds.push((classify_token(tokens[i].0.as_str()), line, col));
        i += 1;
    }
    assert(token_kinds(string_triples(tokens@)).take(i as int) =~= token_kinds(string_triples(tokens@)));
    check_yaml_tokens(&kinds, suffix)
}

/// A YAML value as the preflight reads it: explicit nulls, strings,
/// sequences, mappings (each key a string, or `None` for another kind of
/// key), and every other scalar.
#[derive(Debug)]
pub enum YamlNode {
    Null,
    Str(String),
    Sequence(Vec<YamlNode>),
    Mapping(Vec<(Option<String>, YamlNode)>),
    Other,
}

pub const NULL_RULE: &'static str = ": explicit null is invalid; omit the field instead";

/// The path of a mapping's child: the key alone at the top, else
/// `parent.key`; a key that is no string is written `<non-string-key>`.
pub open spec fn child_path(path: Seq<char>, key: Option<String>) -> Seq<char> {
    let k = match key {
        Some(s) => s@,
        None => "<non-string-key>"@,
    };
    if path == "config"@ {
        k
    } else {
        path + "."@ + k
    }
}

/// The first explicit null in the value, in document order, reported at
/// its path.
pub open spec fn nulls_check(v: YamlNode, path: Seq<char>) -> Result<(), Seq<char>>
    decreases v, 0int,
{
    match v {
        YamlNode::Null => Err(path + NULL_RULE@),
        YamlNode::Sequence(items) => items_nulls(items@, path, 0),
        YamlNode::Mapping(entries) => entries_nulls(entries@, path, 0),
        _ => Ok(()),
    }
}

pub open spec fn items_nulls(items: Seq<YamlNode>, path: Seq<char>, i: int) -> Result<(), Seq<char>>
    decreases items, items.len() - i,
{
    if i < 0 || i >= items.len() {
        Ok(())
    } else {
        match nulls_check(items[i], element_path(path, i)) {
            Err(e) => Err(e),
            Ok(_) => items_nulls(items, path, i + 1),
        }
    }
}

pub open spec fn entries_nulls(entries: Seq<(Option<String>, YamlNode)>, path: Seq<char>, i: int) -> Result<(), Seq<char>>
    decreases entries, entries.len() - i,
{
    if i < 0 || i >= entries.len() {
        Ok(())
    } else {
        match nulls_check(entries[i].1, child_path(path, entries[i].0)) {
            Err(e) => Err(e),
            Ok(_) => entries_nulls(entries, path, i + 1),
        }
    }
}


/// Reports the first explicit null in the value, in document order.
pub fn reject_nulls(v: &YamlNode, path: &str) -> (r: Result<(), String>)
    ensures
        same_outcome(r, nulls_check(*v, path@)),
    decreases v,
{
    match v {
        YamlNode::Null => Err(concat(path, NULL_RULE)),
        YamlNode::Sequence(items) => {
            let mut i: usize = 0;
            while i < items.len()
                invariant
                    *v == YamlNode::Sequence(*items),
                    i <= items@.len(),
                    nulls_check(*v, path@) == items_nulls(items@, path@, i as int),
                decreases items@.len() - i,
            {
                let item = indexed(path, i);
                assert(decreases_to!(*v => items@[i as int]));
                reject_nulls(&items[i], item.as_str())?;
                i += 1;
            }
            Ok(())
        },
        YamlNode::Mapping(entries) => {
            let mut i: usize = 0;
            let top = eq_str(&chars_of(path), "config");
            while i < entries.len()
                invariant
                    *v == YamlNode::Mapping(*entries),
                    i <= entries@.len(),
                    top == (path@ == "config"@),
                    nulls_check(*v, path@) == entries_nulls(entries@, path@, i as int),
                decreases entries@.len() - i,
            {
                let key = match &entries[i].0 {
                    Some(k) => k.as_str(),
                    None => "<non-string-key>",
                };
                let child = if top { key.to_owned() } else { concat3(path, ".", key) };
                assert(child@ == child_path(path@, entries@[i as int].0));
                assert(decreases_to!(*v => entries@[i as int].1));
                reject_nulls(&entries[i].1, child.as_str())?;
                i += 1;
            }
            Ok(())
        },
        _ => Ok(()),
    }
}

/// The position of the entry keyed by the string `version`, from `from` on.
pub open spec fn version_entry(entries: Seq<(Option<String>, YamlNode)>, from: int) -> Option<int>
    decreases entries.len() - from,
{
    if from < 0 || from >= entries.len() {
        None
    } else if entries[from].0 matches Some(k) && k@ == "version"@ {
        Some(from)
    } else {
        version_entry(entries, from + 1)
    }
}

pub const VERSION_MISSING: &'static str = "version: missing required configuration version; only version \"1.0.0\" is supported";

/// The document must be a mapping whose `version` is the string "1.0.0",
/// and hold no explicit null. Where the version is no string, the message
/// quotes `version_debug`, the `Debug` rendering of its value.
pub open spec fn preflight_check(root: YamlNode, version_debug: Seq<char>) -> Result<(), Seq<char>> {
    match root {
        YamlNode::Mapping(entries) => match version_entry(entries@, 0) {
            None => Err(VERSION_MISSING@),
            Some(j) => match entries@[j].1 {
                YamlNode::Str(s) => if s@ == VERSION_TEXT@ {
                    nulls_check(root, "config"@)
                } else {
                    Err("version: unsupported configuration version "@ + debug_text(s@) + "; only version \"1.0.0\" is supported"@)
                },
                _ => Err("version: unsupported configuration version value "@ + version_debug + "; expected YAML string \"1.0.0\""@),
            },
        },
        _ => Err("config: expected a YAML mapping"@),
    }
}

fn find_version(entries: &Vec<(Option<String>, YamlNode)>) -> (r: Option<usize>)
    ensures
        match r {
            Some(i) => version_entry(entries@, 0) == Some(i as int) && i < entries@.len(),
            None => version_entry(entries@, 0) is None,
        },
{
    let mut i: usize = 0;
    while i < entries.len()
        invariant
            i <= entries@.len(),
            version_entry(entries@, 0) == version_entry(entries@, i as int),
        decreases entries@.len() - i,
    {
        let is_version = match &entries[i].0 {
            Some(k) => eq_str(&chars_of(k.as_str()), "version"),
            None => false,
        };
        if is_version {
            return Some(i);
        }
        i += 1;
    }
    None
}

pub fn preflight_document(root: &YamlNode, version_debug: &str) -> (r: Result<(), String>)
    ensures
        same_outcome(r, preflight_check(*root, version_debug@)),
{
    let entries = match root {
        YamlNode::Mapping(entries) => entries,
        _ => {
            return Err("config: expected a YAML mapping".to_owned());
        },
    };
    let i = match find_version(entries) {
        Some(i) => i,
        None => {
            return Err(VERSION_MISSING.to_owned());
        },
    };
    match &entries[i].1 {
        YamlNode::Str(s) => {
            if eq_str(&chars_of(s.as_str()), VERSION_TEXT) {
                reject_nulls(root, "config")
            } else {
                let quoted = debug_str(s.as_str());
                Err(concat3("version: unsupported configuration version ", quoted.as_str(), "; only version \"1.0.0\" is supported"))
            }
        },
        _ => Err(concat3("version: unsupported configuration version value ", version_debug, "; expected YAML string \"1.0.0\"")),
    }
}


/// The classes of YAML parser events that the preflight tells apart.
#[derive(Clone, Copy, Debug, PartialEq, Eq, Structural)]
pub enum YamlEventKind {
    DocumentStart,
    Alias,
    /// a scalar, sequence or mapping with an anchor
    Anchored,
    /// a scalar, sequence or mapping with a tag and no anchor
    Tagged,
    Other,
}

/// The number of document starts among the first `n` events.
pub open spec fn document_starts(evs: Seq<(YamlEventKind, usize, usize)>, n: int) -> nat
    decreases n,
{
    if n <= 0 || evs.len() == 0 {
        0
    } else if n > evs.len() {
        document_starts(evs, evs.len() as int)
    } else {
        document_starts(evs, n - 1) + if evs[n - 1].0 == YamlEventKind::DocumentStart { 1nat } else { 0nat }
    }
}

/// The feature that the `i`th event shows, if the version does not allow it.
pub open spec fn event_feature(evs: Seq<(YamlEventKind, usize, usize)>, i: int) -> Option<Seq<char>> {
    match evs[i].0 {
        YamlEventKind::DocumentStart => if document_starts(evs, i + 1) > 1 {
            Some("multiple YAML documents"@)
        } else {
            None
        },
        YamlEventKind::Alias => Some("YAML aliases"@),
        YamlEventKind::Anchored => Some("YAML anchors"@),
        YamlEventKind::Tagged => Some("YAML tags"@),
        YamlEventKind::Other => None,
    }
}

pub open spec fn first_event_feature(evs: Seq<(YamlEventKind, usize, usize)>, from: int) -> Option<int>
    decreases evs.len() - from,
{
    if from < 0 || from >= evs.len() {
        None
    } else if event_feature(evs, from) is Some {
        Some(from)
    } else {
        first_event_feature(evs, from + 1)
    }
}

/// After the parser has gone through the text: its error where it failed,
/// else the first event that shows a feature the version does not allow.
pub open spec fn events_check(evs: Seq<(YamlEventKind, usize, usize)>, loaded: Result<(), Seq<char>>, suffix: Seq<char>) -> Result<(), Seq<char>> {
    match loaded {
        Err(e) => Err("parse YAML extension preflight: "@ + e),
        Ok(_) => match first_event_feature(evs, 0) {
            Some(i) => Err("line "@ + decimal_text(evs[i].1 as nat + 1) + ", column "@ + decimal_text(evs[i].2 as nat + 1)
                + ": "@ + event_feature(evs, i)->0 + suffix),
            None => Ok(()),
        },
    }
}

/// Checks the events that the YAML parser delivered, in order, and how
/// loading ended.
pub fn check_yaml_events(events: &Vec<(YamlEventKind, usize, usize)>, loaded: Result<(), String>, suffix: &str) -> (r: Result<(), String>)
    ensures
        same_outcome(r, events_check(events@, match loaded { Ok(_) => Ok(()), Err(e) => Err(e@) }, suffix@)),
{
    if let Err(e) = &loaded {
        return Err(concat("parse YAML extension preflight: ", e.as_str()));
    }
    let ghost evs = events@;
    let mut documents: usize = 0;
    let mut i: usize = 0;
    while i < events.len()
        invariant
            evs == events@,
            loaded is Ok,
            i <= evs.len(),
            documents == document_starts(evs, i as int),
            documents <= i,
            first_event_feature(evs, 0) == first_event_feature(evs, i as int),
        decreases evs.len() - i,
    {
        let (kind, line, col) = events[i];
        if kind == YamlEventKind::DocumentStart {
            documents += 1;
        }
        assert(documents == document_starts(evs, i + 1));
        let found = match kind {
            YamlEventKind::DocumentStart => if documents > 1 { Some("multiple YAML documents") } else { None },
            YamlEventKind::Alias => Some("YAML aliases"),
            YamlEventKind::Anchored => Some("YAML anchors"),
            YamlEventKind::Tagged => Some("YAML tags"),
            YamlEventKind::Other => None,
        };
        if let Some(name) = found {
            assert(event_feature(evs, i as int) == Some(name@));
            let mut m = concat("line ", decimal_u128(line as u128 + 1).as_str());
            m.append(", column ");
            m.append(decimal_u128(col as u128 + 1).as_str());
            m.append(": ");
            m.append(name);
            m.append(suffix);
            return Err(m);
        }
        i += 1;
    }
    Ok(())
}


/// The events of a YAML text, each as the `Debug` text of its
/// `yaml_rust2::parser::Event` at the line and column of its marker, as the
/// `yaml_rust2` parser yields them up to the end of the stream, and its
/// error message where it fails before.
pub uninterp spec fn yaml_events(text: Seq<char>) -> (Seq<(Seq<char>, usize, usize)>, Option<Seq<char>>);

/// Runs `yaml_rust2::parser::Parser` over the text, taking its events until
/// the end of the stream or its first error, each written with its derived
/// `Debug`. The contract names the result `yaml_events` of the text; which
/// events the parser yields is not stated.
#[verifier::external_body]
fn parse_yaml_events(text: &str) -> (r: (Vec<(String, usize, usize)>, Option<String>))
    ensures
        string_triples(r.0@) == yaml_events(text@).0,
        match r.1 { None => yaml_events(text@).1 is None, Some(e) => yaml_events(text@).1 == Some(e@) },
{
    let (mut parser, mut events) = (Parser::new_from_str(text), Vec::new());
    loop {
        let (event, mark) = match parser.next_token() { Ok(next) => next, Err(error) => return (events, Some(error.to_string())) };
        events.push((format!("{event:?}"), mark.line(), mark.col()));
        if event == Event::StreamEnd { return (events, None); }
    }
}

/// Where a `Debug`-written string that starts before `i` ends: just after
/// the first quote that no backslash escapes.
pub open spec fn quoted_end(s: Seq<char>, i: int) -> Option<int>
    decreases s.len() + 1 - i,
{
    if i < 0 || i >= s.len() {
        None
    } else if s[i] == '\\' {
        quoted_end(s, i + 2)
    } else if s[i] == '"' {
        Some(i + 1)
    } else {
        quoted_end(s, i + 1)
    }
}

/// The first position of `c` at or after `i`.
pub open spec fn index_from(s: Seq<char>, c: char, i: int) -> Option<int> {
    match first_index(s.skip(i), c) {
        Some(k) => Some(i + k),
        None => None,
    }
}

/// The anchor id and the tag of a node event, written from `i` on as
/// `<anchor>, None)` or `<anchor>, Some(...)`: whether the anchor is not 0,
/// and whether there is a tag.
pub open spec fn node_fields(s: Seq<char>, i: int) -> Option<(bool, bool)> {
    if 0 <= i <= s.len() {
        match index_from(s, ',', i) {
            Some(j) => Some((s.subrange(i, j) != "0"@, j + 2 <= s.len() && has_prefix(s.skip(j + 2), "Some("@))),
            None => None,
        }
    } else {
        None
    }
}

/// The fields of a scalar event, written `Scalar("<value>", <style>,
/// <anchor>, <tag>)`: the anchor and tag after the value and the style.
pub open spec fn scalar_fields(s: Seq<char>) -> Option<(bool, bool)> {
    if has_prefix(s, "Scalar(\""@) {
        match quoted_end(s, 8) {
            Some(e) => if e + 2 <= s.len() {
                match index_from(s, ',', e + 2) {
                    Some(k) => node_fields(s, k + 2),
                    None => None,
                }
            } else {
                None
            },
            None => None,
        }
    } else {
        None
    }
}

/// The class of an event by its `Debug` text: a document start, an alias,
/// a node (scalar, sequence or mapping start) with an anchor, one with a
/// tag and no anchor, or anything else.
pub open spec fn event_kind(d: Seq<char>) -> YamlEventKind {
    let n = variant_name(d);
    let fields = if n == "Scalar"@ {
        scalar_fields(d)
    } else if n == "SequenceStart"@ || n == "MappingStart"@ {
        node_fields(d, n.len() as int + 1)
    } else {
        None
    };
    if n == "DocumentStart"@ {
        YamlEventKind::DocumentStart
    } else if n == "Alias"@ {
        YamlEventKind::Alias
    } else {
        match fields {
            Some((anchored, tagged)) => if anchored {
                YamlEventKind::Anchored
            } else if tagged {
                YamlEventKind::Tagged
            } else {
                YamlEventKind::Other
            },
            None => YamlEventKind::Other,
        }
    }
}

fn quoted_end_of(s: &[char], i: usize) -> (r: Option<usize>)
    ensures
        match r {
            Some(e) => quoted_end(s@, i as int) == Some(e as int),
            None => quoted_end(s@, i as int) is None,
        },
{
    let mut k: usize = i;
    while k < s.len()
        invariant
            i <= k || k == i,
            quoted_end(s@, i as int) == quoted_end(s@, k as int),
        decreases s@.len() - k,
    {
        if s[k] == '\\' {
            if s.len() - k < 2 {
                assert(quoted_end(s@, k + 2) is None);
                return None;
            }
            k = k + 2;
        } else if s[k] == '"' {
            return Some(k + 1);
        } else {
            k = k + 1;
        }
    }
    None
}

fn index_from_of(s: &[char], c: char, i: usize) -> (r: Option<usize>)
    requires
        i <= s@.len(),
    ensures
        match r {
            Some(j) => index_from(s@, c, i as int) == Some(j as int) && i <= j < s@.len(),
            None => index_from(s@, c, i as int) is None,
        },
{
    let rest = slice_to_vec(s, i, s.len());
    assert(rest@ =~= s@.skip(i as int));
    match first_index_of(&rest, c) {
        Some(k) => Some(i + k),
        None => None,
    }
}

#[verifier::rlimit(40)]
fn node_fields_of(s: &[char], i: usize) -> (r: Option<(bool, bool)>)
    ensures
        r == node_fields(s@, i as int),
{
    if i > s.len() {
        return None;
    }
    match index_from_of(s, ',', i) {
        Some(j) => {
            let anchor = slice_to_vec(s, i, j);
            let tagged = if s.len() - j >= 2 {
                let tail = slice_to_vec(s, j + 2, s.len());
                assert(tail@ =~= s@.skip(j + 2));
                starts_with(&tail, &chars_of("Some("))
            } else {
                false
            };
            Some((!eq_str(&anchor, "0"), tagged))
        },
        None => None,
    }
}

fn scalar_fields_of(s: &[char]) -> (r: Option<(bool, bool)>)
    ensures
        r == scalar_fields(s@),
{
    if !starts_with(s, &chars_of("Scalar(\"")) {
        return None;
    }
    proof {
        reveal_strlit("Scalar(\"");
    }
    match quoted_end_of(s, 8) {
        Some(e) => {
            if e > s.len() || s.len() - e < 2 {
                return None;
            }
            match index_from_of(s, ',', e + 2) {
                Some(k) => if s.len() - k < 2 {
                    None
                } else {
                    node_fields_of(s, k + 2)
                },
                None => None,
            }
        },
        None => None,
    }
}

pub fn classify_event(d: &str) -> (r: YamlEventKind)
    ensures
        r == event_kind(d@),
{
    let s = chars_of(d);
    let n = variant_name_of(&s);
    let fields = if eq_str(&n, "Scalar") {
        scalar_fields_of(&s)
    } else if eq_str(&n, "SequenceStart") || eq_str(&n, "MappingStart") {
        if n.len() >= s.len() {
            None
        } else {
            node_fields_of(&s, n.len() + 1)
        }
    } else {
        None
    };
    if eq_str(&n, "DocumentStart") {
        YamlEventKind::DocumentStart
    } else if eq_str(&n, "Alias") {
        YamlEventKind::Alias
    } else {
        match fields {
            Some((anchored, tagged)) => if anchored {
                YamlEventKind::Anchored
            } else if tagged {
                YamlEventKind::Tagged
            } else {
                YamlEventKind::Other
            },
            None => YamlEventKind::Other,
        }
    }
}

pub open spec fn event_kinds(evs: Seq<(Seq<char>, usize, usize)>) -> Seq<(YamlEventKind, usize, usize)> {
    evs.map_values(|e: (Seq<char>, usize, usize)| (event_kind(e.0), e.1, e.2))
}

/// Rejects multiple documents, aliases, anchors and tags as the YAML parser
/// finds them in the text (after its own errors): the first one found is
/// reported.
pub fn reject_yaml_events(text: &str, suffix: &str) -> (r: Result<(), String>)
    ensures
        same_outcome(
            r,
            events_check(
                event_kinds(yaml_events(text@).0),
                match yaml_events(text@).1 { None => Ok(()), Some(e) => Err(e) },
                suffix@,
            ),
        ),
{
    let (events, failure) = parse_yaml_events(text);
    let mut kinds: Vec<(YamlEventKind, usize, usize)> = Vec::new();
    let mut i: usize = 0;
    while i < events.len()
        invariant
            i <= events@.len(),
            kinds@ =~= event_kinds(string_triples(events@)).take(i as int),
        decreases events@.len() - i,
    {
        let (line, col) = (events[i].1, events[i].2);
        kinds.push((classify_event(events[i].0.as_str()), line, col));
        i += 1;
    }
    assert(event_kinds(string_triples(events@)).take(i as int) =~= event_kinds(string_triples(events@)));
    let loaded = match failure {
        None => Ok(()),
        Some(e) => Err(e),
    };
    check_yaml_events(&kinds, loaded, suffix)
}

} // verus!
