//! Compiled regular-expression patterns.  The compiled pattern and its
//! source text travel together: the source is the pattern's comparable
//! identity, and everything the matcher learns from the regex engine is
//! stated as a function of that source and the searched text.

use vstd::prelude::*;

verus! {

#[verifier::external_type_specification]
#[verifier::external_body]
pub struct ExRegex(regex::Regex);

/// Whether `pattern` compiles as a regular expression.
pub uninterp spec fn regex_valid(pattern: Seq<char>) -> bool;

/// Whether the regular expression `pattern` matches anywhere inside
/// `text` (search semantics, not anchored).
pub uninterp spec fn regex_found(pattern: Seq<char>, text: Seq<char>) -> bool;

/// The capture groups of the leftmost match of `pattern` in `text`, in
/// index order: group 0 is the overall match, and a group that did not
/// participate in the match is the empty string.  Meaningful only when
/// `regex_found(pattern, text)` holds.
pub uninterp spec fn regex_captures(pattern: Seq<char>, text: Seq<char>) -> Seq<Seq<char>>;

/// Whether `s` is a contiguous part of `t`.
pub open spec fn is_part_of(s: Seq<char>, t: Seq<char>) -> bool {
    exists|a: int, b: int| 0 <= a <= b <= t.len() && s == t.subrange(a, b)
}

/// A compiled pattern beside its source text.  `compile` is the only
/// constructor, so the two always correspond.
pub struct CompiledPattern {
    source: String,
    regex: regex::Regex,
}

impl CompiledPattern {
    /// The pattern's source text, its comparable identity.
    pub closed spec fn source_view(self) -> Seq<char> {
        self.source@
    }

    /// Relies on regex::Regex::new: whether a pattern source compiles is a
    /// function of the source text alone.
    #[verifier::external_body]
    pub fn compile(source: &str) -> (r: Option<CompiledPattern>)
        ensures
            r is Some <==> regex_valid(source@),
            r matches Some(p) ==> p.source_view() == source@,
    {
        match regex::Regex::new(source) {
            Ok(regex) => Some(CompiledPattern { source: source.to_owned(), regex }),
            Err(_) => None,
        }
    }

    pub(crate) fn source(&self) -> (r: &String)
        ensures
            r@ == self.source_view(),
    {
        &self.source
    }

    /// Relies on regex::Regex::is_match: whether the pattern matches
    /// somewhere inside the text, a function of the pattern source and the
    /// text alone.
    #[verifier::external_body]
    pub(crate) fn is_match(&self, text: &str) -> (r: bool)
        ensures
            r == regex_found(self.source_view(), text@),
    {
        self.regex.is_match(text)
    }

    /// Relies on regex::Regex::captures and Captures::get: when the
    /// pattern matches the text, captures returns the groups of the
    /// leftmost match; group 0 always exists and is the overall match, a
    /// contiguous part of the text.  A group that did not participate
    /// is handed on as the empty string.
    #[verifier::external_body]
    pub(crate) fn capture_strings(&self, text: &str) -> (r: Vec<String>)
        requires
            regex_found(self.source_view(), text@),
        ensures
            r.deep_view() == regex_captures(self.source_view(), text@),
            r@.len() >= 1,
            is_part_of(r@[0]@, text@),
    {
        let caps = self.regex.captures(text).unwrap();
        let mut out: Vec<String> = Vec::with_capacity(caps.len());
        for m in caps.iter() {
            out.push(match m {
                Some(g) => g.as_str().to_owned(),
                None => String::new(),
            });
        }
        out
    }
}

} // verus!
