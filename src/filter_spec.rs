//! The filter predicate: a substring, with or without case, or a regular
//! expression.

use regex::Regex;
use vstd::prelude::*;
use vstd::string::StringExecFns;

verus! {

#[verifier::external_type_specification]
#[verifier::external_body]
pub struct ExRegex(regex::Regex);

#[verifier::external_type_specification]
#[verifier::external_body]
pub struct ExRegexError(regex::Error);

/// How a filter pattern is matched against a line.
#[derive(Debug, Clone, Copy, PartialEq, Eq, Structural)]
pub enum FilterType {
    SimpleCaseSensitive,
    SimpleCaseInsensitive,
    Regex,
}

/// `needle` occurs in `hay` as a contiguous run.
pub open spec fn contains_seq(hay: Seq<char>, needle: Seq<char>) -> bool {
    exists|i: int| 0 <= i <= hay.len() - needle.len() && #[trigger] hay.subrange(i, i + needle.len()) == needle
}

/// The lower-case form of a text, as `str::to_lowercase` gives it.
pub uninterp spec fn lower_of(s: Seq<char>) -> Seq<char>;

/// Whether `regex::Regex::new` accepts a pattern.
pub uninterp spec fn regex_valid(p: Seq<char>) -> bool;

/// Relies on `str::contains` with a `&str` pattern: true exactly when the
/// needle occurs in the haystack.
#[verifier::external_body]
fn str_contains(hay: &str, needle: &str) -> (r: bool)
    ensures
        r == contains_seq(hay@, needle@),
{
    hay.contains(needle)
}

/// Relies on `str::to_lowercase`: the result depends on the text alone.
#[verifier::external_body]
fn to_lower(s: &str) -> (r: String)
    ensures
        r@ == lower_of(s@),
{
    s.to_lowercase()
}

/// Relies on `regex::Regex::new`: whether it compiles depends on the pattern
/// alone (the default size limit is fixed).
#[verifier::external_body]
fn compile_regex(p: &str) -> (r: Result<Regex, regex::Error>)
    ensures
        r.is_ok() == regex_valid(p@),
{
    Regex::new(p)
}

/// Relies on the `Display` of `regex::Error`, for the message shown to the
/// user.
#[verifier::external_body]
fn regex_error_text(e: &regex::Error) -> String {
    e.to_string()
}

/// Whether the expression compiled from `pattern` matches somewhere in
/// `line`, as `regex::Regex::find` reports it.
pub uninterp spec fn regex_finds_in(pattern: Seq<char>, line: Seq<char>) -> bool;

/// Relies on `regex::Regex::find`, whether the expression matches somewhere
/// in the line, and on `regex::Regex::as_str`, the pattern the expression was
/// compiled from: the answer depends on that pattern and the line alone.
#[verifier::external_body]
fn regex_finds<'a>(re: &'a Regex, line: &str) -> (r: (bool, &'a str))
    ensures
        r.0 == regex_finds_in(r.1@, line@),
{
    (re.find(line).is_some(), re.as_str())
}

/// A filter pattern that was refused.
#[derive(Debug)]
pub enum FilterError {
    InvalidRegex { reason: String },
}

/// A predicate over lines: a substring, with or without case, or a regular
/// expression compiled once.
#[derive(Debug, Clone)]
pub struct FilterSpec {
    filter_type: FilterType,
    filter_pattern: String,
    regex: Option<Regex>,
}

impl FilterSpec {
    /// A regular expression filter holds its compiled expression, and only
    /// it does.
    pub closed spec fn holds_compiled(&self) -> bool {
        (self.filter_type == FilterType::Regex) == (self.regex is Some)
    }

    pub closed spec fn kind(&self) -> FilterType {
        self.filter_type
    }

    pub closed spec fn pattern(&self) -> Seq<char> {
        self.filter_pattern@
    }

    /// Builds the predicate; a regular expression is compiled here and only
    /// here, and a pattern that does not compile is refused.
    pub fn new(filter_type: FilterType, filter_pattern: &str) -> (r: Result<FilterSpec, FilterError>)
        ensures
            r.is_ok() == (filter_type != FilterType::Regex || regex_valid(filter_pattern@)),
            r matches Ok(f) ==> f.kind() == filter_type && f.pattern() == filter_pattern@ && f.holds_compiled(),
    {
        let regex = if filter_type == FilterType::Regex {
            match compile_regex(filter_pattern) {
                Ok(re) => Some(re),
                Err(e) => {
                    return Err(FilterError::InvalidRegex { reason: regex_error_text(&e) });
                },
            }
        } else {
            None
        };
        Ok(FilterSpec { filter_type, filter_pattern: filter_pattern.to_owned(), regex })
    }

    pub fn filter_type(&self) -> (r: FilterType)
        ensures
            r == self.kind(),
    {
        self.filter_type
    }

    pub fn filter_pattern(&self) -> (r: &String)
        ensures
            r@ == self.pattern(),
    {
        &self.filter_pattern
    }

    /// Whether `line` passes the filter, evaluated on the raw line. A match
    /// reported for a regular expression is one of the expression compiled
    /// from the pattern; the expression is asked to confirm that it was
    /// compiled from this pattern before its answer is used.
    pub fn matches(&self, line: &str) -> (r: bool)
        ensures
            self.kind() == FilterType::SimpleCaseSensitive ==> r == contains_seq(line@, self.pattern()),
            self.kind() == FilterType::SimpleCaseInsensitive ==> r == contains_seq(
                lower_of(line@),
                lower_of(self.pattern()),
            ),
            self.kind() == FilterType::Regex && r ==> regex_finds_in(self.pattern(), line@),
    {
        match self.filter_type {
            FilterType::SimpleCaseSensitive => str_contains(line, self.filter_pattern.as_str()),
            FilterType::SimpleCaseInsensitive => {
                let l = to_lower(line);
                let p = to_lower(self.filter_pattern.as_str());
                str_contains(l.as_str(), p.as_str())
            },
            FilterType::Regex => match &self.regex {
                Some(re) => {
                    let (found, source) = regex_finds(re, line);
                    if source.to_owned() == self.filter_pattern {
                        found
                    } else {
                        false
                    }
                },
                None => false,
            },
        }
    }

    /// `"pattern" (Kind)`, for display.
    pub fn render(&self) -> (r: String)
        ensures
            r@ == seq!['"'] + self.pattern() + seq!['"', ' ', '('] + kind_name(self.kind()) + seq![')'],
    {
        let name: &str = match self.filter_type {
            FilterType::SimpleCaseSensitive => "Sensitive",
            FilterType::SimpleCaseInsensitive => "Insensitive",
            FilterType::Regex => "Regex",
        };
        proof {
            reveal_strlit("Sensitive");
            reveal_strlit("Insensitive");
            reveal_strlit("Regex");
            reveal_strlit("\"");
            reveal_strlit(" (");
            reveal_strlit(")");
        }
        let s = "\"".to_owned();
        let s = s.concat(self.filter_pattern.as_str());
        let s = s.concat("\"");
        let s = s.concat(" (");
        let s = s.concat(name);
        s.concat(")")
    }
}

/// The display name of a filter kind.
pub open spec fn kind_name(t: FilterType) -> Seq<char> {
    match t {
        FilterType::SimpleCaseSensitive => seq!['S', 'e', 'n', 's', 'i', 't', 'i', 'v', 'e'],
        FilterType::SimpleCaseInsensitive => seq!['I', 'n', 's', 'e', 'n', 's', 'i', 't', 'i', 'v', 'e'],
        FilterType::Regex => seq!['R', 'e', 'g', 'e', 'x'],
    }
}

impl PartialEq for FilterSpec {
    fn eq(&self, other: &FilterSpec) -> (r: bool)
        ensures
            r == (self.kind() == other.kind() && self.pattern() == other.pattern()),
    {
        self.filter_type == other.filter_type && self.filter_pattern == other.filter_pattern
    }
}

impl vstd::std_specs::cmp::PartialEqSpecImpl for FilterSpec {
    open spec fn obeys_eq_spec() -> bool {
        true
    }

    open spec fn eq_spec(&self, other: &FilterSpec) -> bool {
        self.kind() == other.kind() && self.pattern() == other.pattern()
    }
}

} // verus!
