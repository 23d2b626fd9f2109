use vstd::prelude::*;

verus! {

#[verifier::external_type_specification]
#[verifier::external_body]
pub struct ExRegex(regex::Regex);

/// The capture groups of the leftmost match of regular expression `pattern`
/// in `line` (group 0 is the whole match; a group that took no part is
/// `None`), or `None` when the pattern does not match.
pub uninterp spec fn regex_captures(pattern: Seq<char>, line: Seq<char>) -> Option<Seq<Option<Seq<char>>>>;

/// Whether `pattern` is a regular expression that the engine accepts.
pub uninterp spec fn regex_compiles(pattern: Seq<char>) -> bool;

/// The capture groups as text.
pub open spec fn captures_view(r: Option<Vec<Option<String>>>) -> Option<Seq<Option<Seq<char>>>> {
    match r {
        Some(v) => Some(v@.map_values(|o: Option<String>| match o {
            Some(s) => Some(s@),
            None => None,
        })),
        None => None,
    }
}

/// A compiled regular expression together with its source text.
pub struct Pattern {
    source: String,
    re: regex::Regex,
}

impl Pattern {
    pub closed spec fn source(&self) -> Seq<char> {
        self.source@
    }

    /// Relies on `regex::Regex::new`: compiles `p`, or fails when `p` is not a
    /// valid regular expression; which of the two depends on `p` alone.
    #[verifier::external_body]
    pub fn compile(p: &str) -> (r: Option<Pattern>)
        ensures
            r is Some <==> regex_compiles(p@),
            r matches Some(x) ==> x.source() == p@,
    {
        regex::Regex::new(p).ok().map(|re| Pattern { source: p.to_string(), re })
    }

    /// Relies on `regex::Regex::captures`: the groups of the leftmost match in
    /// `line`, which depend on the pattern and the line alone.
    #[verifier::external_body]
    pub fn captures(&self, line: &str) -> (r: Option<Vec<Option<String>>>)
        ensures
            captures_view(r) == regex_captures(self.source(), line@),
    {
        self.re.captures(line).map(|c| c.iter().map(|m| m.map(|m| m.as_str().to_string())).collect())
    }
}

} // verus!
