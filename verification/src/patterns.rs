//! Regular expressions from the configuration, compiled by the `regex` crate.
use vstd::prelude::*;

verus! {

#[verifier::external_type_specification]
#[verifier::external_body]
pub struct ExRegex(regex::Regex);

#[verifier::external_type_specification]
#[verifier::external_body]
pub struct ExRegexError(regex::Error);

/// Whether `regex::Regex::new` accepts `pattern`.
pub uninterp spec fn regex_compiles(pattern: Seq<char>) -> bool;

/// Whether the expression `pattern` matches somewhere in `text`.
pub uninterp spec fn regex_matches(pattern: Seq<char>, text: Seq<char>) -> bool;

/// The names of the groups of `pattern`, by group index; the whole match is
/// group 0 and has none.
pub uninterp spec fn regex_group_names(pattern: Seq<char>) -> Seq<Option<Seq<char>>>;

/// The text each group of `pattern` takes in its leftmost-first match in
/// `text`, by group index, or nothing when it does not match.
pub uninterp spec fn regex_captures(pattern: Seq<char>, text: Seq<char>) -> Option<
    Seq<Option<Seq<char>>>,
>;

/// A compiled regular expression with the text it was compiled from.
pub struct Pattern {
    source: String,
    compiled: regex::Regex,
}

/// Why a pattern did not compile.
pub struct PatternError {
    pub source: String,
}

/// Calls `regex::Regex::new`, which accepts the pattern or returns the
/// crate's error; which patterns it accepts is named `regex_compiles`.
#[verifier::external_body]
fn compile_regex(pattern: &str) -> (r: Result<regex::Regex, regex::Error>)
    ensures
        r is Ok <==> regex_compiles(pattern@),
{
    regex::Regex::new(pattern)
}

/// Calls `regex::Regex::is_match` on the expression that `p` holds, which was
/// compiled from `p.source()`; the answer is named `regex_matches`.
#[verifier::external_body]
fn pattern_is_match(p: &Pattern, text: &str) -> (b: bool)
    ensures
        b == regex_matches(p.source()@, text@),
{
    p.compiled.is_match(text)
}

/// Calls `regex::Regex::capture_names`, taking each name as an owned string.
#[verifier::external_body]
fn pattern_group_names(p: &Pattern) -> (r: Vec<Option<String>>)
    ensures
        r@.map_values(|n: Option<String>| n.deep_view()) == regex_group_names(p.source()@),
{
    p.compiled.capture_names().map(|n| n.map(String::from)).collect()
}

/// Calls `regex::Regex::captures`, taking the text of each group as an owned
/// string.
#[verifier::external_body]
fn pattern_captures(p: &Pattern, text: &str) -> (r: Option<Vec<Option<String>>>)
    ensures
        match r {
            Some(v) => regex_captures(p.source()@, text@) == Some(
                v@.map_values(|g: Option<String>| g.deep_view()),
            ),
            None => regex_captures(p.source()@, text@) is None,
        },
{
    p.compiled.captures(text).map(
        |c| c.iter().map(|m| m.map(|m| m.as_str().to_string())).collect(),
    )
}

/// The named groups with the text they took, in order of the groups; groups
/// without a name or without a match are left out.
pub open spec fn named_captures(names: Seq<Option<Seq<char>>>, groups: Seq<Option<Seq<char>>>) -> Seq<
    (Seq<char>, Seq<char>),
>
    decreases names.len(),
{
    if names.len() == 0 {
        Seq::empty()
    } else {
        let prev = named_captures(names.drop_last(), groups);
        let i = names.len() - 1;
        match (names.last(), if i < groups.len() {
            groups[i]
        } else {
            None
        }) {
            (Some(n), Some(t)) => prev.push((n, t)),
            _ => prev,
        }
    }
}

impl Pattern {
    /// The text the expression was compiled from.
    pub closed spec fn source(&self) -> String {
        self.source
    }

    /// Compiles `source`; fails exactly where the `regex` crate refuses it.
    pub fn new(source: &str) -> (r: Result<Pattern, PatternError>)
        ensures
            match r {
                Ok(p) => regex_compiles(source@) && p.source()@ == source@,
                Err(e) => !regex_compiles(source@) && e.source@ == source@,
            },
    {
        match compile_regex(source) {
            Ok(compiled) => Ok(Pattern { source: source.to_string(), compiled }),
            Err(_) => Err(PatternError { source: source.to_string() }),
        }
    }

    /// The text the expression was compiled from.
    pub fn as_str(&self) -> (s: &str)
        ensures
            s@ == self.source()@,
    {
        self.source.as_str()
    }

    /// Whether the expression matches somewhere in `text`.
    pub fn is_match(&self, text: &str) -> (b: bool)
        ensures
            b == regex_matches(self.source()@, text@),
    {
        pattern_is_match(self, text)
    }

    /// The named groups of the first match in `text`, each with the text it
    /// took, or nothing when the expression does not match.
    pub fn captures(&self, text: &str) -> (r: Option<Vec<(String, String)>>)
        ensures
            match r {
                Some(v) => regex_captures(self.source()@, text@) matches Some(g) && v@.map_values(
                    |p: (String, String)| (p.0@, p.1@),
                ) == named_captures(regex_group_names(self.source()@), g),
                None => regex_captures(self.source()@, text@) is None,
            },
    {
        let groups = match pattern_captures(self, text) {
            Some(g) => g,
            None => {
                return None;
            },
        };
        let names = pattern_group_names(self);
        let ghost gv = groups@.map_values(|g: Option<String>| g.deep_view());
        let ghost nv = names@.map_values(|n: Option<String>| n.deep_view());
        let mut out: Vec<(String, String)> = Vec::new();
        let mut i: usize = 0;
        while i < names.len()
            invariant
                i <= names@.len(),
                gv == groups@.map_values(|g: Option<String>| g.deep_view()),
                nv == names@.map_values(|n: Option<String>| n.deep_view()),
                out@.map_values(|p: (String, String)| (p.0@, p.1@)) == named_captures(
                    nv.take(i as int),
                    gv,
                ),
            decreases names@.len() - i,
        {
            proof {
                assert(nv.take(i + 1).drop_last() =~= nv.take(i as int));
            }
            let ghost before = out@;
            if i < groups.len() {
                match (&names[i], &groups[i]) {
                    (Some(n), Some(t)) => {
                        out.push((n.clone(), t.clone()));
                        proof {
                            assert(out@.map_values(|p: (String, String)| (p.0@, p.1@))
                                =~= before.map_values(|p: (String, String)| (p.0@, p.1@)).push(
                                (n@, t@),
                            ));
                        }
                    },
                    _ => {},
                }
            }
            i = i + 1;
        }
        proof {
            assert(nv.take(names@.len() as int) =~= nv);
        }
        Some(out)
    }
}

} // verus!
