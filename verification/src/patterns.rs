//! Regex pattern rewriting of module specifiers.
//!
//! The configuration is an ordered list of `(pattern, replacement)`
//! rules. Unlike suffix rewriting, every rule is applied, each to the
//! running output of the previous one; a rule whose pattern does not
//! occur is a no-op. Absolute network URLs are never rewritten. A
//! rewrite that reproduces the input exactly reports "unchanged".

use vstd::prelude::*;

use crate::strutil::{is_prefix_of, starts_with, str_eq};

verus! {

/// The result of compiling `pattern` with the host regex engine and
/// replacing every non-overlapping match in `input` by `replacement`
/// (capture-group references expanded): a function of the three
/// strings alone.
pub uninterp spec fn regex_replaced(
    pattern: Seq<char>,
    replacement: Seq<char>,
    input: Seq<char>,
) -> Seq<char>;

/// Whether `pattern` compiles as a regex: a function of the pattern
/// alone.
pub uninterp spec fn regex_valid(pattern: Seq<char>) -> bool;

/// Relies on swc_cached::regex::CachedRegex::new, a per-pattern cache
/// around regex::Regex::new: compiling a pattern succeeds or fails
/// deterministically in the pattern.
#[verifier::external_body]
fn regex_is_valid(pattern: &str) -> (r: bool)
    ensures
        r == regex_valid(pattern@),
{
    swc_cached::regex::CachedRegex::new(pattern).is_ok()
}

/// Relies on swc_cached::regex::CachedRegex::new and, through its
/// Deref to regex::Regex, on regex::Regex::replace_all: both are
/// functions of their string arguments alone.
#[verifier::external_body]
fn regex_replace_all(pattern: &str, replacement: &str, input: &str) -> (r: String)
    requires
        regex_valid(pattern@),
    ensures
        r@ == regex_replaced(pattern@, replacement@, input@),
{
    let re = swc_cached::regex::CachedRegex::new(pattern).unwrap();
    re.replace_all(input, replacement).into_owned()
}

/// Configuration: ordered `(pattern, replacement)` rules.
pub struct PluginConfig {
    pub rules: Vec<(String, String)>,
}

/// The pattern-rewriting strategy over module specifiers.
pub struct TransformVisitor {
    pub config: PluginConfig,
}

/// Every rule's pattern compiles.
pub open spec fn all_valid(rules: Seq<(Seq<char>, Seq<char>)>) -> bool {
    forall|i: int| 0 <= i < rules.len() ==> regex_valid(#[trigger] rules[i].0)
}

/// Every rule applied in order, each to the previous rule's output.
pub open spec fn spec_rewrite_path(rules: Seq<(Seq<char>, Seq<char>)>, s: Seq<char>) -> Seq<char>
    decreases rules.len(),
{
    if rules.len() == 0 {
        s
    } else {
        spec_rewrite_path(rules.drop_first(), regex_replaced(rules[0].0, rules[0].1, s))
    }
}

/// The rewrite a specifier site sees: an absolute network URL is
/// never rewritten, and a rewrite that reproduces the input exactly
/// reports "unchanged".
pub open spec fn spec_rewrite_specifier(
    rules: Seq<(Seq<char>, Seq<char>)>,
    s: Seq<char>,
) -> Option<Seq<char>> {
    if is_prefix_of("http://"@, s) || is_prefix_of("https://"@, s) {
        None
    } else {
        let n = spec_rewrite_path(rules, s);
        if n == s {
            None
        } else {
            Some(n)
        }
    }
}

/// An absolute network URL is never rewritten, whatever the rules.
pub proof fn lemma_url_never_rewritten(rules: Seq<(Seq<char>, Seq<char>)>, s: Seq<char>)
    requires
        is_prefix_of("http://"@, s) || is_prefix_of("https://"@, s),
    ensures
        spec_rewrite_specifier(rules, s) is None,
{
}

/// Once every rule's replacement leaves a string untouched, the
/// pattern rewriter reports it unchanged: rewriting is idempotent
/// from the point the patterns stop occurring in the rewritten
/// output.
pub proof fn lemma_patterns_idempotent(rules: Seq<(Seq<char>, Seq<char>)>, t: Seq<char>)
    requires
        forall|i: int|
            0 <= i < rules.len() ==> regex_replaced(#[trigger] rules[i].0, rules[i].1, t) == t,
    ensures
        spec_rewrite_path(rules, t) == t,
        spec_rewrite_specifier(rules, t) is None,
    decreases rules.len(),
{
    if rules.len() > 0 {
        assert(forall|i: int|
            0 <= i < rules.drop_first().len() ==> #[trigger] rules.drop_first()[i] == rules[i
                + 1]);
        lemma_patterns_idempotent(rules.drop_first(), t);
    }
}

impl TransformVisitor {
    /// Every configured pattern compiles.
    pub open spec fn wf(self) -> bool {
        all_valid(self.config.rules.deep_view())
    }

    /// Check that every configured pattern compiles.
    pub fn validate(&self) -> (b: bool)
        ensures
            b == self.wf(),
    {
        let ghost rules = self.config.rules.deep_view();
        let n = self.config.rules.len();
        let mut i: usize = 0;
        while i < n
            invariant
                rules == self.config.rules.deep_view(),
                n == self.config.rules@.len(),
                rules.len() == n,
                i <= n,
                forall|j: int| 0 <= j < i ==> regex_valid(#[trigger] rules[j].0),
            decreases n - i,
        {
            proof {
                assert(rules[i as int].0 == self.config.rules@[i as int].0@);
            }
            if !regex_is_valid(self.config.rules[i].0.as_str()) {
                return false;
            }
            i += 1;
        }
        true
    }

    /// Fold every rule, in order, over the path.
    pub(crate) fn rewrite_import_path(&self, path: String) -> (r: String)
        requires
            self.wf(),
        ensures
            r@ == spec_rewrite_path(self.config.rules.deep_view(), path@),
    {
        let ghost rules = self.config.rules.deep_view();
        let n = self.config.rules.len();
        let mut cur = path;
        let mut i: usize = 0;
        proof {
            assert(rules.skip(0) =~= rules);
        }
        while i < n
            invariant
                self.wf(),
                rules == self.config.rules.deep_view(),
                n == self.config.rules@.len(),
                rules.len() == n,
                i <= n,
                spec_rewrite_path(rules, path@) == spec_rewrite_path(rules.skip(i as int), cur@),
            decreases n - i,
        {
            proof {
                assert(rules[i as int]
                    == (self.config.rules@[i as int].0@, self.config.rules@[i as int].1@));
                assert(rules.skip(i as int)[0] == rules[i as int]);
                assert(rules.skip(i as int).drop_first() =~= rules.skip(i as int + 1));
            }
            let pattern = &self.config.rules[i].0;
            let replacement = &self.config.rules[i].1;
            cur = regex_replace_all(pattern.as_str(), replacement.as_str(), cur.as_str());
            i += 1;
        }
        proof {
            assert(rules.skip(n as int) =~= Seq::<(Seq<char>, Seq<char>)>::empty());
        }
        cur
    }

    /// The rewrite offered to a specifier site: `None` for absolute
    /// network URLs and when the folded rules reproduce the source
    /// specifier.
    pub(crate) fn rewrite_import_specifier(&self, specifier: &str) -> (r: Option<String>)
        requires
            self.wf(),
        ensures
            ({
                let s = spec_rewrite_specifier(self.config.rules.deep_view(), specifier@);
                match r {
                    Some(v) => s == Some(v@),
                    None => s is None,
                }
            }),
    {
        if starts_with(specifier, "http://") || starts_with(specifier, "https://") {
            return None;
        }
        let new_specifier = self.rewrite_import_path(String::from_str(specifier));
        if str_eq(new_specifier.as_str(), specifier) {
            None
        } else {
            Some(new_specifier)
        }
    }
}

} // verus!
