//! Pattern matching exposed to guest scripts: a compiled matcher built from
//! a pattern string, with `is_match` and `captures` operations.
//!
//! The matching itself is done by the `regex` crate; its results are named
//! by uninterpreted functions of pattern and haystack, and everything around
//! the calls — compaction of the capture list, the module surface — is
//! verified against those names.
use vstd::prelude::*;

use crate::strings::views_of;

verus! {

#[verifier::external_type_specification]
#[verifier::external_body]
pub struct ExRegex(regex::Regex);

/// Whether `pat` is a valid pattern: compiling depends on the pattern text
/// alone.
pub uninterp spec fn regex_ok(pat: Seq<char>) -> bool;

/// Whether the pattern `pat` matches anywhere in `text`; a function of
/// pattern and haystack alone.
pub uninterp spec fn regex_is_match(pat: Seq<char>, text: Seq<char>) -> bool;

/// The capture groups of the leftmost match of `pat` in `text`, group 0
/// first, one entry per group in pattern order, `None` for a group that did
/// not participate; empty when there is no match.  A function of pattern
/// and haystack alone.
pub uninterp spec fn regex_captures(pat: Seq<char>, text: Seq<char>) -> Seq<Option<Seq<char>>>;

/// The views of a sequence of optional owned strings.
pub open spec fn opt_views_of(groups: Seq<Option<String>>) -> Seq<Option<Seq<char>>> {
    groups.map_values(
        |g: Option<String>|
            match g {
                Some(s) => Some(s@),
                None => None,
            },
    )
}

/// The groups that participated in the match, in order, the full match
/// first.
pub open spec fn present_groups(caps: Seq<Option<Seq<char>>>) -> Seq<Seq<char>>
    decreases caps.len(),
{
    if caps.len() == 0 {
        Seq::empty()
    } else {
        let rest = present_groups(caps.drop_last());
        match caps.last() {
            Some(g) => rest.push(g),
            None => rest,
        }
    }
}

proof fn lemma_present_groups_push(caps: Seq<Option<Seq<char>>>, g: Option<Seq<char>>)
    ensures
        present_groups(caps.push(g)) == match g {
            Some(v) => present_groups(caps).push(v),
            None => present_groups(caps),
        },
{
    assert(caps.push(g).drop_last() =~= caps);
    assert(caps.push(g).last() == g);
}

/// The participating groups of a raw capture list, in order.
pub fn collect_present(raw: &Vec<Option<String>>) -> (r: Vec<String>)
    ensures
        views_of(r@) == present_groups(opt_views_of(raw@)),
{
    let mut out: Vec<String> = Vec::new();
    let mut k: usize = 0;
    proof {
        assert(opt_views_of(raw@).subrange(0, 0) =~= Seq::<Option<Seq<char>>>::empty());
        assert(views_of(out@) =~= present_groups(opt_views_of(raw@).subrange(0, 0)));
    }
    while k < raw.len()
        invariant
            k <= raw@.len(),
            views_of(out@) == present_groups(opt_views_of(raw@).subrange(0, k as int)),
        decreases raw@.len() - k,
    {
        let ghost prefix = opt_views_of(raw@).subrange(0, k as int);
        let ghost old_views = views_of(out@);
        match &raw[k] {
            Some(g) => {
                out.push(g.clone());
            },
            None => {},
        }
        proof {
            assert(opt_views_of(raw@).subrange(0, k + 1) =~= prefix.push(
                opt_views_of(raw@)[k as int],
            ));
            lemma_present_groups_push(prefix, opt_views_of(raw@)[k as int]);
            if raw@[k as int] is Some {
                assert(views_of(out@) =~= old_views.push(raw@[k as int]->0@));
            }
        }
        k = k + 1;
    }
    proof {
        assert(opt_views_of(raw@).subrange(0, raw@.len() as int) =~= opt_views_of(raw@));
    }
    out
}

/// A compiled matcher: the pattern text it was built from and the compiled
/// automaton.
pub struct Pattern {
    source: String,
    compiled: regex::Regex,
}

/// Relies on regex::Regex::new: compiling is deterministic in the pattern
/// text and fails exactly on an invalid pattern, with a syntax message.
#[verifier::external_body]
fn compile_regex(pat: &str) -> (r: Result<regex::Regex, String>)
    ensures
        r is Ok <==> regex_ok(pat@),
{
    regex::Regex::new(pat).map_err(|e| e.to_string())
}

impl Pattern {
    /// The pattern text this matcher was compiled from.
    pub closed spec fn pattern(self) -> Seq<char> {
        self.source@
    }

    pub open spec fn wf(self) -> bool {
        regex_ok(self.pattern())
    }

    /// Compile `pat` into a matcher; fails exactly when the pattern is
    /// invalid, reporting the syntax error.
    pub fn new(pat: &str) -> (r: Result<Pattern, String>)
        ensures
            r is Ok <==> regex_ok(pat@),
            match r {
                Ok(p) => p.pattern() == pat@ && p.wf(),
                Err(_) => !regex_ok(pat@),
            },
    {
        match compile_regex(pat) {
            Ok(re) => Ok(Pattern { source: pat.to_owned(), compiled: re }),
            Err(m) => Err(m),
        }
    }

    /// Relies on regex::Regex::is_match; deterministic in pattern and
    /// haystack.  The automaton in `self` was compiled from `self.source`
    /// by `Pattern::new`, this type's only constructor.
    #[verifier::external_body]
    fn is_match_raw(&self, text: &str) -> (r: bool)
        ensures
            r == regex_is_match(self.pattern(), text@),
    {
        self.compiled.is_match(text)
    }

    /// Whether this pattern matches anywhere in `text`.
    pub fn is_match(&self, text: &str) -> (r: bool)
        ensures
            r == regex_is_match(self.pattern(), text@),
    {
        self.is_match_raw(text)
    }

    /// Relies on regex::Regex::captures: the groups of the leftmost match —
    /// group 0 the full match and always participating, unmatched optional
    /// groups `None` — and no groups at all exactly when `is_match` is
    /// false.  Deterministic in pattern and haystack.  The automaton in
    /// `self` was compiled from `self.source` by `Pattern::new`.
    #[verifier::external_body]
    fn captures_raw(&self, text: &str) -> (r: Vec<Option<String>>)
        ensures
            opt_views_of(r@) == regex_captures(self.pattern(), text@),
            (r@.len() > 0) == regex_is_match(self.pattern(), text@),
            r@.len() > 0 ==> r@[0] is Some,
    {
        match self.compiled.captures(text) {
            None => Vec::new(),
            Some(caps) => caps.iter().map(|g| g.map(|m| m.as_str().to_string())).collect(),
        }
    }

    /// The matched groups: the full match first, then each participating
    /// group in pattern order, unmatched optional groups omitted.  A
    /// pattern with no match yields an empty sequence, not an error.
    pub fn captures(&self, text: &str) -> (r: Vec<String>)
        ensures
            views_of(r@) == present_groups(regex_captures(self.pattern(), text@)),
            regex_is_match(self.pattern(), text@) ==> r@.len() > 0 && r@[0]@
                == regex_captures(self.pattern(), text@)[0]->0,
    {
        let raw = self.captures_raw(text);
        let out = collect_present(&raw);
        proof {
            if regex_is_match(self.pattern(), text@) {
                assert(opt_views_of(raw@)[0] == regex_captures(self.pattern(), text@)[0]);
                lemma_present_first(opt_views_of(raw@));
            }
        }
        out
    }
}

proof fn lemma_present_first(caps: Seq<Option<Seq<char>>>)
    requires
        caps.len() > 0,
        caps[0] is Some,
    ensures
        present_groups(caps).len() > 0,
        present_groups(caps)[0] == caps[0]->0,
    decreases caps.len(),
{
    if caps.len() > 1 {
        assert(caps.drop_last()[0] == caps[0]);
        lemma_present_first(caps.drop_last());
        let rest = present_groups(caps.drop_last());
        match caps.last() {
            Some(g) => {
                assert(present_groups(caps) == rest.push(g));
                assert(rest.push(g)[0] == rest[0]);
            },
            None => {
                assert(present_groups(caps) == rest);
            },
        }
    } else {
        assert(caps.drop_last().len() == 0);
        assert(present_groups(caps.drop_last()) == Seq::<Seq<char>>::empty());
        assert(caps.last() == caps[0]);
    }
}

} // verus!
