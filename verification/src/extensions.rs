//! Suffix (extension) rewriting of module specifiers.
//!
//! The configuration is an ordered list of `(suffix_from, suffix_to)`
//! pairs. The first rule whose `suffix_from` ends the input fires,
//! replacing that suffix; at most one rule fires per input. A rewrite
//! that reproduces the input exactly reports "unchanged".

use vstd::prelude::*;

use crate::strutil::{ends_with, is_suffix_of, str_eq};

verus! {

/// Configuration: ordered suffix replacement pairs.
pub struct PluginConfig {
    pub extensions: Vec<(String, String)>,
}

/// The suffix-rewriting strategy over module specifiers.
pub struct TransformVisitor {
    pub config: PluginConfig,
}

/// First rule whose from-suffix ends `f` replaces that suffix; `None`
/// when no rule's from-suffix matches.
pub open spec fn spec_rewrite_extension(
    rules: Seq<(Seq<char>, Seq<char>)>,
    f: Seq<char>,
) -> Option<Seq<char>>
    decreases rules.len(),
{
    if rules.len() == 0 {
        None
    } else if is_suffix_of(rules[0].0, f) {
        Some(f.take(f.len() - rules[0].0.len()) + rules[0].1)
    } else {
        spec_rewrite_extension(rules.drop_first(), f)
    }
}

/// The rewrite a specifier site sees: a replaced suffix, except that
/// a rewrite which reproduces the input exactly reports "unchanged".
pub open spec fn spec_rewrite_specifier(
    rules: Seq<(Seq<char>, Seq<char>)>,
    s: Seq<char>,
) -> Option<Seq<char>> {
    match spec_rewrite_extension(rules, s) {
        Some(n) => if n == s {
            None
        } else {
            Some(n)
        },
        None => None,
    }
}

/// Once no rule's from-suffix ends a string, the extension rewriter
/// reports it unchanged: rewriting is idempotent from the point the
/// rules stop matching the rewritten output.
pub proof fn lemma_extension_idempotent(rules: Seq<(Seq<char>, Seq<char>)>, t: Seq<char>)
    requires
        forall|i: int| 0 <= i < rules.len() ==> !is_suffix_of(#[trigger] rules[i].0, t),
    ensures
        spec_rewrite_specifier(rules, t) is None,
    decreases rules.len(),
{
    if rules.len() > 0 {
        assert(forall|i: int|
            0 <= i < rules.drop_first().len() ==> #[trigger] rules.drop_first()[i] == rules[i
                + 1]);
        lemma_extension_idempotent(rules.drop_first(), t);
    }
}

impl TransformVisitor {
    /// First-match suffix replacement over the configured rules.
    pub fn rewrite_extension(&self, filename: &str) -> (r: Option<String>)
        ensures
            ({
                let s = spec_rewrite_extension(self.config.extensions.deep_view(), filename@);
                match r {
                    Some(v) => s == Some(v@),
                    None => s is None,
                }
            }),
    {
        let ghost rules = self.config.extensions.deep_view();
        let flen = filename.unicode_len();
        let n = self.config.extensions.len();
        let mut i: usize = 0;
        proof {
            assert(rules.skip(0) =~= rules);
        }
        while i < n
            invariant
                rules == self.config.extensions.deep_view(),
                n == self.config.extensions@.len(),
                rules.len() == n,
                flen == filename@.len(),
                i <= n,
                spec_rewrite_extension(rules, filename@) == spec_rewrite_extension(
                    rules.skip(i as int),
                    filename@,
                ),
            decreases n - i,
        {
            proof {
                assert(rules[i as int]
                    == (self.config.extensions@[i as int].0@, self.config.extensions@[i as int].1@));
                assert(rules.skip(i as int)[0] == rules[i as int]);
                assert(rules.skip(i as int).drop_first() =~= rules.skip(i as int + 1));
            }
            let from = &self.config.extensions[i].0;
            let to = &self.config.extensions[i].1;
            if ends_with(filename, from.as_str()) {
                let from_len = from.as_str().unicode_len();
                let stem = filename.substring_char(0, flen - from_len);
                let out = String::from_str(stem).concat(to.as_str());
                proof {
                    assert(out@ == filename@.take(filename@.len() - from@.len()) + to@);
                }
                return Some(out);
            }
            i += 1;
        }
        proof {
            assert(rules.skip(n as int) =~= Seq::<(Seq<char>, Seq<char>)>::empty());
        }
        None
    }

    /// The rewrite offered to a specifier site: `None` when no rule
    /// matches or the replacement equals the source specifier.
    pub fn rewrite_import_specifier(&self, specifier: &str) -> (r: Option<String>)
        ensures
            ({
                let s = spec_rewrite_specifier(self.config.extensions.deep_view(), specifier@);
                match r {
                    Some(v) => s == Some(v@),
                    None => s is None,
                }
            }),
    {
        match self.rewrite_extension(specifier) {
            None => None,
            Some(n) => {
                if str_eq(n.as_str(), specifier) {
                    None
                } else {
                    Some(n)
                }
            },
        }
    }
}

} // verus!
