//! Exclusion patterns: regular expressions tested against the relative path
//! of each file that might be packaged.
use crate::text::texts;
use crate::types::BuildError;
use vstd::prelude::*;

verus! {

#[verifier::external_type_specification]
#[verifier::external_body]
pub struct ExRegex(regex::Regex);

#[verifier::external_type_specification]
#[verifier::external_body]
pub struct ExRegexError(regex::Error);

/// Whether the `regex` crate accepts `pattern` as a regular expression.
pub uninterp spec fn regex_compiles(pattern: Seq<char>) -> bool;

/// Whether the regular expression `pattern` matches somewhere in `text`.
pub uninterp spec fn regex_finds(pattern: Seq<char>, text: Seq<char>) -> bool;

/// Relies on `regex::Regex::new`: whether it accepts a pattern depends on the
/// pattern's text alone.
#[verifier::external_body]
fn compile_regex(pattern: &str) -> (r: Result<regex::Regex, regex::Error>)
    ensures
        r is Ok <==> regex_compiles(pattern@),
{
    regex::Regex::new(pattern)
}

/// A compiled exclusion pattern, together with the text it was compiled from.
pub struct ExclusionPattern {
    source: String,
    compiled: regex::Regex,
}

/// Relies on `regex::Regex::is_match`, on the regex that
/// `ExclusionPattern::new` compiled from the pattern's source (the only way
/// to build the struct): whether it matches depends on that source and the
/// text alone.
#[verifier::external_body]
fn regex_is_match(p: &ExclusionPattern, text: &str) -> (r: bool)
    ensures
        r == regex_finds(p.source(), text@),
{
    p.compiled.is_match(text)
}

impl ExclusionPattern {
    /// The text of the regular expression.
    pub closed spec fn source(&self) -> Seq<char> {
        self.source@
    }

    /// Compiles `pattern`; an invalid one is a `PatternError` that names it.
    pub fn new(pattern: &str) -> (r: Result<ExclusionPattern, BuildError>)
        ensures
            r is Ok <==> regex_compiles(pattern@),
            r matches Ok(p) ==> p.source() == pattern@,
            r matches Err(e) ==> (e matches BuildError::PatternError { pattern: q } && q@
                == pattern@),
    {
        match compile_regex(pattern) {
            Ok(compiled) => Ok(ExclusionPattern { source: pattern.to_owned(), compiled }),
            Err(_) => Err(BuildError::PatternError { pattern: pattern.to_owned() }),
        }
    }

    /// Whether the pattern matches somewhere in `text`.
    pub fn is_match(&self, text: &str) -> (r: bool)
        ensures
            r == regex_finds(self.source(), text@),
    {
        regex_is_match(self, text)
    }
}

/// Whether one of `patterns` matches somewhere in `name`.
pub open spec fn excluded_by(patterns: Seq<Seq<char>>, name: Seq<char>) -> bool {
    exists|i: int| 0 <= i < patterns.len() && regex_finds(#[trigger] patterns[i], name)
}

/// The exclusion patterns of one build, compiled once.
pub struct ExclusionFilter {
    patterns: Vec<ExclusionPattern>,
}

impl ExclusionFilter {
    /// The texts of the patterns, in the order they were given.
    pub closed spec fn sources(&self) -> Seq<Seq<char>> {
        self.patterns@.map_values(|p: ExclusionPattern| p.source())
    }

    /// A filter that excludes nothing.
    pub fn empty() -> (r: ExclusionFilter)
        ensures
            r.sources() == Seq::<Seq<char>>::empty(),
    {
        let r = ExclusionFilter { patterns: Vec::new() };
        assert(r.sources() =~= Seq::<Seq<char>>::empty());
        r
    }

    /// Compiles every pattern of `ignore_list`; the first that does not
    /// compile is a `PatternError` that names it.
    pub fn new(ignore_list: &Vec<String>) -> (r: Result<ExclusionFilter, BuildError>)
        ensures
            match r {
                Ok(f) => {
                    &&& f.sources() == texts(ignore_list@)
                    &&& forall|i: int|
                        0 <= i < ignore_list@.len() ==> regex_compiles(#[trigger] ignore_list@[i]@)
                },
                Err(e) => exists|i: int|
                    {
                        &&& 0 <= i < ignore_list@.len()
                        &&& !regex_compiles(#[trigger] ignore_list@[i]@)
                        &&& forall|j: int| 0 <= j < i ==> regex_compiles(#[trigger] ignore_list@[j]@)
                        &&& e matches BuildError::PatternError { pattern: q } && q@ == ignore_list@[i]@
                    },
            },
    {
        let mut patterns: Vec<ExclusionPattern> = Vec::new();
        for i in 0..ignore_list.len()
            invariant
                patterns@.len() == i,
                forall|j: int| 0 <= j < i ==> (#[trigger] patterns@[j]).source() == ignore_list@[j]@,
                forall|j: int| 0 <= j < i ==> regex_compiles(#[trigger] ignore_list@[j]@),
        {
            match ExclusionPattern::new(ignore_list[i].as_str()) {
                Ok(p) => patterns.push(p),
                Err(e) => {
                    assert(!regex_compiles(ignore_list@[i as int]@));
                    return Err(e);
                },
            }
        }
        let r = ExclusionFilter { patterns };
        assert(r.sources() =~= texts(ignore_list@));
        Ok(r)
    }
}

/// Whether the file at relative path `file_name` is left out of the archive:
/// whether one of the filter's patterns matches somewhere in it.
pub fn should_exclude_file(file_name: &str, filter: &ExclusionFilter) -> (r: bool)
    ensures
        r == excluded_by(filter.sources(), file_name@),
{
    let n = filter.patterns.len();
    for i in 0..n
        invariant
            n == filter.patterns@.len(),
            forall|j: int| 0 <= j < i ==> !regex_finds(#[trigger] filter.sources()[j], file_name@),
    {
        if filter.patterns[i].is_match(file_name) {
            assert(regex_finds(filter.sources()[i as int], file_name@));
            return true;
        }
    }
    false
}

} // verus!
