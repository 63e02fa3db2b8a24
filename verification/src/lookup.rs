//! Lookup lists: how a list is read and what is then asked of it.

use crate::glob::{glob_matches, GlobPattern};
use crate::text::{
    chars_of, debug_form, debug_string, find_chars, find_from, is_prefix, occurs_at_chars, str_eq,
    trim, trimmed,
};
use regex::Regex;
use vstd::prelude::*;
use vstd::string::{StrSliceExecFns, StringExecFns};

verus! {

/// How the entries of a lookup list are compared with a candidate.
#[derive(Debug, Clone, Copy, PartialEq, Eq, Hash, Structural)]
pub enum LookupType {
    /// An entry matches the candidate that is equal to it.
    List,
    /// An entry is a pattern in which `*` stands for any run of characters
    /// and `?` for any one character.
    Glob,
    /// An entry is a regular expression.
    Regex,
    /// An entry gives a key and the value that belongs to it.
    Mapping,
}

/// How the lines of a lookup list are read.
#[derive(Debug, Clone)]
pub struct LookupFormat {
    pub lookup_type: LookupType,
    /// Lines that begin with this marker are left out.
    pub comment: Option<String>,
    /// What stands between a key and its value.
    pub separator: Option<String>,
}

impl Default for LookupFormat {
    fn default() -> (format: LookupFormat)
        ensures
            format.lookup_type == LookupType::Glob,
            format.comment is None,
            format.separator is None,
    {
        LookupFormat { lookup_type: LookupType::Glob, comment: None, separator: None }
    }
}

/// What is said of a value that names no lookup type, given the key and the
/// value as they are to be shown.
pub open spec fn invalid_type_message(key_shown: Seq<char>, value_shown: Seq<char>) -> Seq<char> {
    "Invalid value for lookup type "@ + key_shown + ": "@ + value_shown
}

/// Puts together what is said of a value that names no lookup type.
pub fn invalid_type_error(key_shown: &str, value_shown: &str) -> (message: String)
    ensures
        message@ == invalid_type_message(key_shown@, value_shown@),
{
    let mut message = "Invalid value for lookup type ".to_owned();
    message.append(key_shown);
    message.append(": ");
    message.append(value_shown);
    message
}

impl LookupType {
    /// The lookup type that a word names, if it names one.
    pub open spec fn of_token(word: Seq<char>) -> Option<LookupType> {
        if word == "list"@ {
            Some(LookupType::List)
        } else if word == "glob"@ {
            Some(LookupType::Glob)
        } else if word == "regex"@ {
            Some(LookupType::Regex)
        } else if word == "map"@ {
            Some(LookupType::Mapping)
        } else {
            None
        }
    }

    /// Reads a lookup type from the value of the configuration key `key`.
    /// The four names are `list`, `glob`, `regex` and `map`, in lower case;
    /// any other value is an error that shows the key and the value.
    pub fn parse_value(key: &str, value: &str) -> (r: Result<LookupType, String>)
        ensures
            match LookupType::of_token(value@) {
                Some(lookup_type) => r == Ok::<LookupType, String>(lookup_type),
                None => r matches Err(message) && message@ == invalid_type_message(
                    debug_form(key@),
                    debug_form(value@),
                ),
            },
    {
        if str_eq(value, "list") {
            Ok(LookupType::List)
        } else if str_eq(value, "glob") {
            Ok(LookupType::Glob)
        } else if str_eq(value, "regex") {
            Ok(LookupType::Regex)
        } else if str_eq(value, "map") {
            Ok(LookupType::Mapping)
        } else {
            let key_shown = debug_string(key);
            let value_shown = debug_string(value);
            Err(invalid_type_error(key_shown.as_str(), value_shown.as_str()))
        }
    }
}

/// A regular expression of the regex crate, ready to be matched.
#[verifier::external_type_specification]
#[verifier::external_body]
pub struct ExRegex(Regex);

/// Why the regex crate did not take a pattern.
#[verifier::external_type_specification]
#[verifier::external_body]
pub struct ExRegexError(regex::Error);

/// Whether the regex crate takes `pattern` as a regular expression.
pub uninterp spec fn regex_accepts(pattern: Seq<char>) -> bool;

/// Whether `regex` is what `Regex::new` of the regex crate makes of
/// `pattern`: the pattern compiled with the options that the crate sets by
/// itself.
pub uninterp spec fn regex_compiled(regex: Regex, pattern: Seq<char>) -> bool;

/// Whether the regular expression `pattern`, compiled with the options
/// that the regex crate sets by itself, finds a match somewhere in `text`.
pub uninterp spec fn regex_finds(pattern: Seq<char>, text: Seq<char>) -> bool;

/// `Regex::new` of the regex crate: the pattern is compiled if the crate
/// takes it, with the options that the crate sets by itself.
#[verifier::external_body]
fn regex_new(pattern: &str) -> (r: Result<Regex, regex::Error>)
    ensures
        r is Ok <==> regex_accepts(pattern@),
        r matches Ok(regex) ==> regex_compiled(regex, pattern@),
{
    Regex::new(pattern)
}

/// `Regex::is_match` of the regex crate, on the expression that
/// `Regex::new` made of the text it is kept with: whether the expression
/// finds a match somewhere in the text. Of an expression that was built in
/// another way nothing is said.
#[verifier::external_body]
fn regex_is_match(pattern: &Pattern, text: &str) -> (found: bool)
    requires
        regex_compiled(pattern.regex, pattern.source@),
    ensures
        found == regex_finds(pattern.source@, text@),
{
    pattern.regex.is_match(text)
}

/// A regular expression that was compiled once and is matched against many
/// texts. It is made by [`Pattern::compile`] alone, so that the compiled
/// form always belongs to the text it is kept with.
pub struct Pattern {
    source: String,
    regex: Regex,
}

impl View for Pattern {
    type V = Seq<char>;

    closed spec fn view(&self) -> Seq<char> {
        self.source@
    }
}

impl Pattern {
    /// The compiled form is the one of the text.
    #[verifier::type_invariant]
    closed spec fn compiled(&self) -> bool {
        regex_compiled(self.regex, self.source@)
    }

    /// Compiles a regular expression, if the regex crate takes it as one.
    pub fn compile(pattern: &str) -> (r: Option<Pattern>)
        ensures
            r is Some <==> regex_accepts(pattern@),
            r matches Some(compiled) ==> compiled@ == pattern@,
    {
        match regex_new(pattern) {
            Ok(regex) => Some(Pattern { source: pattern.to_owned(), regex }),
            Err(_) => None,
        }
    }

    /// The text that the expression was compiled from.
    pub fn as_str(&self) -> (source: &str)
        ensures
            source@ == self@,
    {
        self.source.as_str()
    }

    /// Whether the expression finds a match somewhere in `text`.
    pub fn is_match(&self, text: &str) -> (found: bool)
        ensures
            found == regex_finds(self@, text@),
    {
        proof {
            use_type_invariant(self);
        }
        regex_is_match(self, text)
    }
}

/// The entry that a line gives: the line without the white space around
/// it, unless nothing is left of it or it begins with the comment marker.
pub open spec fn entry_of(comment: Option<Seq<char>>, line: Seq<char>) -> Option<Seq<char>> {
    let inner = trimmed(line);
    if inner.len() == 0 {
        None
    } else if comment is Some && is_prefix(comment->0, inner) {
        None
    } else {
        Some(inner)
    }
}

/// The entries that the lines give, in the order of the lines.
pub open spec fn entries_of(comment: Option<Seq<char>>, lines: Seq<Seq<char>>) -> Seq<Seq<char>>
    decreases lines.len(),
{
    if lines.len() == 0 {
        Seq::empty()
    } else {
        let before = entries_of(comment, lines.drop_last());
        match entry_of(comment, lines.last()) {
            Some(entry) => before.push(entry),
            None => before,
        }
    }
}

/// The key and the value that an entry gives. With a separator the entry is
/// cut at the first place where the separator stands, and the white space
/// around both parts is dropped. Without a separator, or where it stands
/// nowhere, the entry is the key and the value is empty.
pub open spec fn pair_of(separator: Option<Seq<char>>, entry: Seq<char>) -> (Seq<char>, Seq<char>) {
    match separator {
        Some(mark) => match find_from(entry, mark, 0) {
            Some(at) => (
                trimmed(entry.subrange(0, at)),
                trimmed(entry.subrange(at + mark.len(), entry.len() as int)),
            ),
            None => (entry, Seq::<char>::empty()),
        },
        None => (entry, Seq::<char>::empty()),
    }
}

/// The first of the patterns that the regex crate does not take.
pub open spec fn first_rejected(patterns: Seq<Seq<char>>) -> Option<Seq<char>>
    decreases patterns.len(),
{
    if patterns.len() == 0 {
        None
    } else if !regex_accepts(patterns[0]) {
        Some(patterns[0])
    } else {
        first_rejected(patterns.drop_first())
    }
}

/// The value that stands with `key` in the pairs: that of the last pair
/// with the key.
pub open spec fn value_of(pairs: Seq<(Seq<char>, Seq<char>)>, key: Seq<char>) -> Option<Seq<char>>
    decreases pairs.len(),
{
    if pairs.len() == 0 {
        None
    } else if pairs.last().0 == key {
        Some(pairs.last().1)
    } else {
        value_of(pairs.drop_last(), key)
    }
}

/// What a lookup holds.
pub enum LookupView {
    List(Seq<Seq<char>>),
    Glob(Seq<Seq<char>>),
    Regex(Seq<Seq<char>>),
    Mapping(Seq<(Seq<char>, Seq<char>)>),
}

/// Whether one of the patterns matches the candidate.
pub open spec fn any_glob_matches(patterns: Seq<Seq<char>>, candidate: Seq<char>) -> bool {
    exists|i: int| 0 <= i < patterns.len() && #[trigger] glob_matches(patterns[i], candidate)
}

/// Whether one of the regular expressions finds a match in the candidate.
pub open spec fn any_regex_finds(patterns: Seq<Seq<char>>, candidate: Seq<char>) -> bool {
    exists|i: int| 0 <= i < patterns.len() && #[trigger] regex_finds(patterns[i], candidate)
}

impl LookupView {
    /// Whether the lookup has the candidate: as an entry of a list, as a
    /// text that one of the patterns or expressions matches, or as a key.
    pub open spec fn matches(self, candidate: Seq<char>) -> bool {
        match self {
            LookupView::List(entries) => entries.contains(candidate),
            LookupView::Glob(patterns) => any_glob_matches(patterns, candidate),
            LookupView::Regex(patterns) => any_regex_finds(patterns, candidate),
            LookupView::Mapping(pairs) => value_of(pairs, candidate) is Some,
        }
    }

    /// The value that stands with `key`. Only a map has values.
    pub open spec fn resolve(self, key: Seq<char>) -> Option<Seq<char>> {
        match self {
            LookupView::Mapping(pairs) => value_of(pairs, key),
            _ => None,
        }
    }
}

/// The lookup that the lines give when read in the given way, or the
/// pattern that is no regular expression.
pub open spec fn built(
    lookup_type: LookupType,
    comment: Option<Seq<char>>,
    separator: Option<Seq<char>>,
    lines: Seq<Seq<char>>,
) -> Result<LookupView, Seq<char>> {
    let entries = entries_of(comment, lines);
    match lookup_type {
        LookupType::List => Ok(LookupView::List(entries)),
        LookupType::Glob => Ok(LookupView::Glob(entries)),
        LookupType::Regex => match first_rejected(entries) {
            Some(pattern) => Err(pattern),
            None => Ok(LookupView::Regex(entries)),
        },
        LookupType::Mapping => Ok(
            LookupView::Mapping(entries.map_values(|entry: Seq<char>| pair_of(separator, entry))),
        ),
    }
}

/// A lookup list that was read and can be asked.
pub enum Lookup {
    List(Vec<String>),
    Glob(Vec<GlobPattern>),
    Regex(Vec<Pattern>),
    Mapping(Vec<(String, String)>),
}

/// Why a lookup list could not be read.
#[derive(Debug, Clone, PartialEq, Eq)]
pub enum LookupError {
    /// The entry is no regular expression.
    InvalidRegex(String),
}

impl View for Lookup {
    type V = LookupView;

    open spec fn view(&self) -> LookupView {
        match self {
            Lookup::List(entries) => LookupView::List(entries.deep_view()),
            Lookup::Glob(patterns) => LookupView::Glob(
                patterns@.map_values(|pattern: GlobPattern| pattern@),
            ),
            Lookup::Regex(patterns) => LookupView::Regex(
                patterns@.map_values(|pattern: Pattern| pattern@),
            ),
            Lookup::Mapping(pairs) => LookupView::Mapping(
                pairs@.map_values(|pair: (String, String)| (pair.0@, pair.1@)),
            ),
        }
    }
}

/// The marker or separator of a format as mathematics sees it.
pub open spec fn text_view(text: Option<String>) -> Option<Seq<char>> {
    match text {
        Some(text) => Some(text@),
        None => None,
    }
}

/// The entry that a line gives, if it gives one.
pub fn entry<'a>(comment: &Option<String>, line: &'a str) -> (kept: Option<&'a str>)
    ensures
        match entry_of(text_view(*comment), line@) {
            Some(inner) => kept matches Some(text) && text@ == inner,
            None => kept is None,
        },
{
    let inner = trim(line);
    if inner.is_empty() {
        return None;
    }
    match comment {
        Some(marker) => {
            let inner_chars = chars_of(inner);
            let marker_chars = chars_of(marker.as_str());
            if occurs_at_chars(&inner_chars, &marker_chars, 0) {
                None
            } else {
                Some(inner)
            }
        },
        None => Some(inner),
    }
}

/// The entries that the lines give, in the order of the lines.
pub fn entries(comment: &Option<String>, lines: &Vec<String>) -> (kept: Vec<String>)
    ensures
        kept.deep_view() == entries_of(text_view(*comment), lines.deep_view()),
{
    let ghost all = lines.deep_view();
    let mut kept: Vec<String> = Vec::new();
    let mut i: usize = 0;
    proof {
        assert(all.take(0) =~= Seq::<Seq<char>>::empty());
        assert(kept.deep_view() =~= Seq::<Seq<char>>::empty());
    }
    while i < lines.len()
        invariant
            i <= lines.len(),
            all == lines.deep_view(),
            kept.deep_view() == entries_of(text_view(*comment), all.take(i as int)),
        decreases lines.len() - i,
    {
        proof {
            let upto = all.take(i + 1);
            assert(upto.drop_last() =~= all.take(i as int));
            assert(upto.last() == lines@[i as int]@);
        }
        match entry(comment, lines[i].as_str()) {
            Some(inner) => {
                let ghost before = kept.deep_view();
                kept.push(inner.to_owned());
                proof {
                    assert(kept.deep_view() =~= before.push(inner@));
                }
            },
            None => {},
        }
        i = i + 1;
    }
    proof {
        assert(all.take(i as int) =~= all);
    }
    kept
}

/// The key and the value that an entry gives.
pub fn pair(separator: &Option<String>, entry: &str) -> (cut: (String, String))
    ensures
        (cut.0@, cut.1@) == pair_of(text_view(*separator), entry@),
{
    match separator {
        Some(mark) => {
            let entry_chars = chars_of(entry);
            let mark_chars = chars_of(mark.as_str());
            match find_chars(&entry_chars, &mark_chars) {
                Some(at) => {
                    proof {
                        assert(entry_chars@.len() == entry@.len());
                    }
                    let key = trim(entry.substring_char(0, at));
                    let value = trim(
                        entry.substring_char(at + mark_chars.len(), entry_chars.len()),
                    );
                    (key.to_owned(), value.to_owned())
                },
                None => (entry.to_owned(), String::new()),
            }
        },
        None => (entry.to_owned(), String::new()),
    }
}

impl Lookup {
    /// Reads a lookup list. Each line is taken without the white space
    /// around it; a line of which nothing is left, or which begins with the
    /// comment marker of the format, is passed over. What the other lines
    /// become depends on the type of the format. A list of regular
    /// expressions is refused as a whole if one of them cannot be compiled.
    #[verifier::loop_isolation(false)]
    pub fn build(format: &LookupFormat, lines: &Vec<String>) -> (r: Result<Lookup, LookupError>)
        ensures
            match built(
                format.lookup_type,
                text_view(format.comment),
                text_view(format.separator),
                lines.deep_view(),
            ) {
                Ok(view) => r matches Ok(lookup) && lookup@ == view,
                Err(pattern) => r matches Err(LookupError::InvalidRegex(text)) && text@ == pattern,
            },
    {
        let kept = entries(&format.comment, lines);
        let ghost all = kept.deep_view();
        match format.lookup_type {
            LookupType::List => Ok(Lookup::List(kept)),
            LookupType::Glob => {
                let mut patterns: Vec<GlobPattern> = Vec::new();
                let mut i: usize = 0;
                while i < kept.len()
                    invariant
                        i <= kept.len(),
                        patterns@.len() == i,
                        forall|j: int| 0 <= j < i ==> (#[trigger] patterns@[j])@ == kept@[j]@,
                    decreases kept.len() - i,
                {
                    patterns.push(GlobPattern::compile(kept[i].as_str()));
                    i = i + 1;
                }
                proof {
                    assert(patterns@.map_values(|pattern: GlobPattern| pattern@) =~= all);
                }
                Ok(Lookup::Glob(patterns))
            },
            LookupType::Regex => {
                let mut patterns: Vec<Pattern> = Vec::new();
                let mut i: usize = 0;
                proof {
                    assert(all.skip(0) =~= all);
                }
                while i < kept.len()
                    invariant
                        i <= kept.len(),
                        all == kept.deep_view(),
                        patterns@.len() == i,
                        forall|j: int| 0 <= j < i ==> (#[trigger] patterns@[j])@ == kept@[j]@,
                        first_rejected(all) == first_rejected(all.skip(i as int)),
                    decreases kept.len() - i,
                {
                    proof {
                        assert(all.skip(i as int)[0] == kept@[i as int]@);
                        assert(all.skip(i as int).drop_first() =~= all.skip(i + 1));
                    }
                    match Pattern::compile(kept[i].as_str()) {
                        Some(pattern) => {
                            patterns.push(pattern);
                        },
                        None => {
                            proof {
                                assert(first_rejected(all.skip(i as int)) == Some(kept@[i as int]@));
                            }
                            return Err(LookupError::InvalidRegex(kept[i].clone()));
                        },
                    }
                    i = i + 1;
                }
                proof {
                    assert(patterns@.map_values(|pattern: Pattern| pattern@) =~= all);
                    assert(all.skip(i as int) =~= Seq::<Seq<char>>::empty());
                }
                Ok(Lookup::Regex(patterns))
            },
            LookupType::Mapping => {
                let mut pairs: Vec<(String, String)> = Vec::new();
                let mut i: usize = 0;
                while i < kept.len()
                    invariant
                        i <= kept.len(),
                        pairs@.len() == i,
                        forall|j: int|
                            0 <= j < i ==> ((#[trigger] pairs@[j]).0@, pairs@[j].1@) == pair_of(
                                text_view(format.separator),
                                kept@[j]@,
                            ),
                    decreases kept.len() - i,
                {
                    pairs.push(pair(&format.separator, kept[i].as_str()));
                    i = i + 1;
                }
                proof {
                    assert(pairs@.map_values(|pair: (String, String)| (pair.0@, pair.1@))
                        =~= all.map_values(
                        |entry: Seq<char>| pair_of(text_view(format.separator), entry),
                    ));
                }
                Ok(Lookup::Mapping(pairs))
            },
        }
    }

    /// Whether the lookup has the candidate: as an entry of a list, as a
    /// text that one of the patterns or expressions matches, or as a key of
    /// a map.
    #[verifier::loop_isolation(false)]
    pub fn matches(&self, candidate: &str) -> (found: bool)
        ensures
            found == self@.matches(candidate@),
    {
        match self {
            Lookup::List(entries) => {
                let mut i: usize = 0;
                while i < entries.len()
                    invariant
                        i <= entries.len(),
                        forall|j: int| 0 <= j < i ==> entries.deep_view()[j] != candidate@,
                    decreases entries.len() - i,
                {
                    if str_eq(entries[i].as_str(), candidate) {
                        proof {
                            let all = entries.deep_view();
                            assert(0 <= i < all.len() && all[i as int] == candidate@);
                            assert(self@ == LookupView::List(all));
                            assert(LookupView::List(all).matches(candidate@));
                        }
                        return true;
                    }
                    i = i + 1;
                }
                false
            },
            Lookup::Glob(patterns) => {
                let text = chars_of(candidate);
                let ghost all = patterns@.map_values(|pattern: GlobPattern| pattern@);
                let mut i: usize = 0;
                while i < patterns.len()
                    invariant
                        i <= patterns.len(),
                        text@ == candidate@,
                        all == patterns@.map_values(|pattern: GlobPattern| pattern@),
                        forall|j: int| 0 <= j < i ==> !glob_matches(#[trigger] all[j], candidate@),
                    decreases patterns.len() - i,
                {
                    if patterns[i].matches_chars(&text) {
                        proof {
                            assert(0 <= i < all.len() && glob_matches(all[i as int], candidate@));
                            assert(self@ == LookupView::Glob(all));
                            assert(LookupView::Glob(all).matches(candidate@));
                        }
                        return true;
                    }
                    i = i + 1;
                }
                false
            },
            Lookup::Regex(patterns) => {
                let ghost all = patterns@.map_values(|pattern: Pattern| pattern@);
                let mut i: usize = 0;
                while i < patterns.len()
                    invariant
                        i <= patterns.len(),
                        all == patterns@.map_values(|pattern: Pattern| pattern@),
                        forall|j: int| 0 <= j < i ==> !regex_finds(#[trigger] all[j], candidate@),
                    decreases patterns.len() - i,
                {
                    if patterns[i].is_match(candidate) {
                        proof {
                            assert(0 <= i < all.len() && regex_finds(all[i as int], candidate@));
                            assert(self@ == LookupView::Regex(all));
                            assert(LookupView::Regex(all).matches(candidate@));
                        }
                        return true;
                    }
                    i = i + 1;
                }
                false
            },
            Lookup::Mapping(_) => self.resolve(candidate).is_some(),
        }
    }

    /// The value that stands with `key` in a map: that of the last entry
    /// with the key. A lookup of another type has no values.
    #[verifier::loop_isolation(false)]
    pub fn resolve(&self, key: &str) -> (value: Option<&str>)
        ensures
            match self@.resolve(key@) {
                Some(text) => value matches Some(found) && found@ == text,
                None => value is None,
            },
    {
        match self {
            Lookup::Mapping(pairs) => {
                let ghost all = pairs@.map_values(|pair: (String, String)| (pair.0@, pair.1@));
                let mut i: usize = pairs.len();
                proof {
                    assert(all.take(i as int) =~= all);
                }
                while i > 0
                    invariant
                        i <= pairs.len(),
                        all == pairs@.map_values(|pair: (String, String)| (pair.0@, pair.1@)),
                        value_of(all, key@) == value_of(all.take(i as int), key@),
                    decreases i,
                {
                    i = i - 1;
                    proof {
                        let upto = all.take(i + 1);
                        assert(upto.last() == all[i as int]);
                        assert(upto.drop_last() =~= all.take(i as int));
                    }
                    proof {
                        assert(all[i as int] == (pairs@[i as int].0@, pairs@[i as int].1@));
                    }
                    if str_eq(pairs[i].0.as_str(), key) {
                        return Some(pairs[i].1.as_str());
                    }
                }
                None
            },
            _ => None,
        }
    }
}

/// The entries of two runs of lines, one after the other, are the entries
/// of the first run followed by those of the second.
pub proof fn lemma_entries_concat(
    comment: Option<Seq<char>>,
    first: Seq<Seq<char>>,
    second: Seq<Seq<char>>,
)
    ensures
        entries_of(comment, first + second) == entries_of(comment, first) + entries_of(
            comment,
            second,
        ),
    decreases second.len(),
{
    if second.len() == 0 {
        assert(first + second =~= first);
        assert(entries_of(comment, first) + entries_of(comment, second) =~= entries_of(
            comment,
            first,
        ));
    } else {
        let all = first + second;
        assert(all.drop_last() =~= first + second.drop_last());
        assert(all.last() == second.last());
        lemma_entries_concat(comment, first, second.drop_last());
        let head = entries_of(comment, first);
        let tail = entries_of(comment, second.drop_last());
        match entry_of(comment, second.last()) {
            Some(entry) => {
                assert((head + tail).push(entry) =~= head + tail.push(entry));
            },
            None => {},
        }
    }
}

/// A line that begins with the comment marker, white space before it or
/// not, counts for nothing: with it and without it the lines give the same
/// lookup, of whichever of the four types.
pub proof fn lemma_comment_line_excluded(
    lookup_type: LookupType,
    comment: Seq<char>,
    separator: Option<Seq<char>>,
    before: Seq<Seq<char>>,
    line: Seq<char>,
    after: Seq<Seq<char>>,
)
    requires
        is_prefix(comment, trimmed(line)),
    ensures
        built(lookup_type, Some(comment), separator, before + seq![line] + after) == built(
            lookup_type,
            Some(comment),
            separator,
            before + after,
        ),
{
    let marker = Some(comment);
    let single = seq![line];
    assert(single.drop_last() =~= Seq::<Seq<char>>::empty());
    assert(single.last() == line);
    assert(entries_of(marker, single.drop_last()) =~= Seq::<Seq<char>>::empty());
    assert(entry_of(marker, line) is None);
    assert(entries_of(marker, single) =~= Seq::<Seq<char>>::empty());
    lemma_entries_concat(marker, before, single);
    lemma_entries_concat(marker, before + single, after);
    lemma_entries_concat(marker, before, after);
    assert(entries_of(marker, before) + Seq::<Seq<char>>::empty() =~= entries_of(marker, before));
}

} // verus!
