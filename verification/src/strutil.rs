//! Verified helpers over strings, viewed as sequences of characters.

use vstd::prelude::*;
use vstd::string::StringExecFns;

verus! {

/// The segments joined with a dot between each neighbouring pair.
pub open spec fn spec_join_dotted(parts: Seq<Seq<char>>) -> Seq<char>
    decreases parts.len(),
{
    if parts.len() == 0 {
        Seq::empty()
    } else if parts.len() == 1 {
        parts[0]
    } else {
        spec_join_dotted(parts.drop_last()) + seq!['.'] + parts.last()
    }
}

/// Join the segments with a dot between each neighbouring pair.
pub fn join_dotted(parts: &Vec<String>) -> (r: String)
    ensures
        r@ == spec_join_dotted(parts.deep_view()),
{
    let mut r = String::new();
    let n = parts.len();
    let mut i: usize = 0;
    proof {
        assert(parts.deep_view().take(0) =~= Seq::<Seq<char>>::empty());
        reveal_strlit(".");
    }
    while i < n
        invariant
            n == parts@.len(),
            i <= n,
            r@ == spec_join_dotted(parts.deep_view().take(i as int)),
        decreases n - i,
    {
        proof {
            reveal_strlit(".");
            assert("."@ =~= seq!['.']);
            assert(parts.deep_view().take(i as int + 1).drop_last() =~= parts.deep_view().take(
                i as int,
            ));
            assert(parts.deep_view().take(i as int + 1).last() == parts@[i as int]@);
        }
        if i > 0 {
            r.append(".");
        }
        r.append(parts[i].as_str());
        i += 1;
    }
    proof {
        assert(parts.deep_view().take(n as int) =~= parts.deep_view());
    }
    r
}

/// `pre` is an initial segment of `s`.
pub open spec fn is_prefix_of(pre: Seq<char>, s: Seq<char>) -> bool {
    pre.len() <= s.len() && s.subrange(0, pre.len() as int) == pre
}

/// `suf` is a final segment of `s`.
pub open spec fn is_suffix_of(suf: Seq<char>, s: Seq<char>) -> bool {
    suf.len() <= s.len() && s.subrange(s.len() - suf.len(), s.len() as int) == suf
}

/// Character-for-character equality of two string slices.
pub fn str_eq(a: &str, b: &str) -> (r: bool)
    ensures
        r == (a@ == b@),
{
    let a_len = a.unicode_len();
    let b_len = b.unicode_len();
    if a_len != b_len {
        proof {
            assert(a@ != b@) by {
                assert(a@.len() != b@.len());
            }
        }
        return false;
    }
    let mut i: usize = 0;
    while i < a_len
        invariant
            a_len == a@.len(),
            b_len == b@.len(),
            a_len == b_len,
            i <= a_len,
            forall|j: int| 0 <= j < i ==> a@[j] == b@[j],
        decreases a_len - i,
    {
        if a.get_char(i) != b.get_char(i) {
            return false;
        }
        i += 1;
    }
    proof {
        assert(a@ =~= b@);
    }
    true
}

/// Whether `s` starts with the prefix `pre`.
pub fn starts_with(s: &str, pre: &str) -> (r: bool)
    ensures
        r == is_prefix_of(pre@, s@),
{
    let s_len = s.unicode_len();
    let pre_len = pre.unicode_len();
    if pre_len > s_len {
        return false;
    }
    let mut i: usize = 0;
    while i < pre_len
        invariant
            s_len == s@.len(),
            pre_len == pre@.len(),
            pre_len <= s_len,
            i <= pre_len,
            forall|j: int| 0 <= j < i ==> s@[j] == pre@[j],
        decreases pre_len - i,
    {
        if s.get_char(i) != pre.get_char(i) {
            proof {
                assert(!is_prefix_of(pre@, s@)) by {
                    assert(s@.subrange(0, pre@.len() as int)[i as int] != pre@[i as int]);
                }
            }
            return false;
        }
        i += 1;
    }
    proof {
        assert(s@.subrange(0, pre@.len() as int) =~= pre@);
    }
    true
}

/// Whether `s` ends with the suffix `suf`.
pub fn ends_with(s: &str, suf: &str) -> (r: bool)
    ensures
        r == is_suffix_of(suf@, s@),
{
    let s_len = s.unicode_len();
    let suf_len = suf.unicode_len();
    if suf_len > s_len {
        return false;
    }
    let offset = s_len - suf_len;
    let mut i: usize = 0;
    while i < suf_len
        invariant
            s_len == s@.len(),
            suf_len == suf@.len(),
            suf_len <= s_len,
            offset == s_len - suf_len,
            i <= suf_len,
            forall|j: int| 0 <= j < i ==> s@[offset + j] == suf@[j],
        decreases suf_len - i,
    {
        if s.get_char(offset + i) != suf.get_char(i) {
            proof {
                assert(!is_suffix_of(suf@, s@)) by {
                    assert(s@.subrange(s@.len() - suf@.len(), s@.len() as int)[i as int]
                        != suf@[i as int]);
                }
            }
            return false;
        }
        i += 1;
    }
    proof {
        assert(s@.subrange(s@.len() - suf@.len(), s@.len() as int) =~= suf@);
    }
    true
}

} // verus!
