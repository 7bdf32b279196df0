//! The nested mapping table of the strict chain resolver, and path
//! resolution through it.
//!
//! A `Mapping` is one level of a dotted-path configuration table: a
//! terminal replacement string, or a branch of named sub-tables. The
//! table is built once from configuration and read-only afterwards;
//! keys are expected unique within a branch (the well-formedness
//! predicate `wf`), and lookup takes the first entry with the key.

use vstd::prelude::*;
use vstd::string::StringExecFns;

use crate::strutil::{spec_join_dotted, join_dotted};

verus! {

/// One level of the dotted-path configuration table.
#[derive(Debug, PartialEq, Eq)]
pub enum Mapping {
    /// A terminal replacement value.
    Leaf(String),
    /// Named sub-tables; keys are unique within a branch.
    Branch(Vec<(String, Mapping)>),
}

/// A configuration error raised by strict resolution: the offending
/// dotted path, root to leaf, as far as it was followed.
#[derive(Debug, PartialEq, Eq)]
pub enum MappingError {
    /// A strict, non-empty prefix of a chain matched, but the chain
    /// went on past where the table stops.
    NotANode(Vec<String>),
    /// The whole chain matched, but ended on a branch, not a leaf.
    NotALeaf(Vec<String>),
}

/// Mathematical view of `MappingError`.
pub enum MappingErrorV {
    NotANode(Seq<Seq<char>>),
    NotALeaf(Seq<Seq<char>>),
}

impl View for MappingError {
    type V = MappingErrorV;

    open spec fn view(&self) -> MappingErrorV {
        match self {
            MappingError::NotANode(p) => MappingErrorV::NotANode(p.deep_view()),
            MappingError::NotALeaf(p) => MappingErrorV::NotALeaf(p.deep_view()),
        }
    }
}

/// What resolving a path against a mapping comes to.
///
/// `Stuck(d)` means exactly `d` leading segments of the path could be
/// consumed, each descending one table level, and the next segment
/// could not (`0 <= d < path.len()`). `NotLeaf` means the whole path
/// was consumed but ended on a branch. `Hit(s)` means the whole path
/// was consumed and ended on the leaf `s`.
pub enum Resolved {
    Hit(String),
    Stuck(int),
    NotLeaf,
}

impl Mapping {
    /// Keys are unique within every branch.
    pub open spec fn wf(self) -> bool
        decreases self,
    {
        match self {
            Mapping::Leaf(_) => true,
            Mapping::Branch(entries) => {
                &&& forall|i: int, j: int|
                    0 <= i < j < entries@.len() ==> entries@[i].0@ != entries@[j].0@
                &&& forall|i: int|
                    0 <= i < entries@.len() ==> #[trigger] entries@[i].1.wf()
            },
        }
    }
}

/// First entry of `entries` whose key reads as `key`.
pub open spec fn spec_lookup(entries: Seq<(String, Mapping)>, key: Seq<char>) -> Option<Mapping>
    decreases entries.len(),
{
    if entries.len() == 0 {
        None
    } else if entries[0].0@ == key {
        Some(entries[0].1)
    } else {
        spec_lookup(entries.drop_first(), key)
    }
}

/// Under `wf`, first-match lookup returns the one entry with the key:
/// the order of entries within a branch is irrelevant.
pub proof fn lemma_lookup_unique(m: Mapping, key: Seq<char>, i: int)
    requires
        m.wf(),
        m matches Mapping::Branch(entries) && 0 <= i < entries@.len() && entries@[i].0@ == key,
    ensures
        m matches Mapping::Branch(entries) && spec_lookup(entries@, key) == Some(entries@[i].1),
{
    match m {
        Mapping::Branch(entries) => {
            lemma_lookup_unique_entries(entries@, key, i);
        },
        _ => {},
    }
}

proof fn lemma_lookup_unique_entries(entries: Seq<(String, Mapping)>, key: Seq<char>, i: int)
    requires
        forall|x: int, y: int| 0 <= x < y < entries.len() ==> entries[x].0@ != entries[y].0@,
        0 <= i < entries.len(),
        entries[i].0@ == key,
    ensures
        spec_lookup(entries, key) == Some(entries[i].1),
    decreases entries.len(),
{
    if i > 0 {
        assert(entries[0].0@ != key);
        assert(entries.drop_first()[i - 1] == entries[i]);
        lemma_lookup_unique_entries(entries.drop_first(), key, i - 1);
    }
}

/// Resolve `path` against `node`, consuming one table level per
/// segment.
pub open spec fn spec_resolve(node: Mapping, path: Seq<Seq<char>>) -> Resolved
    decreases path.len(),
{
    if path.len() == 0 {
        match node {
            Mapping::Leaf(s) => Resolved::Hit(s),
            Mapping::Branch(_) => Resolved::NotLeaf,
        }
    } else {
        match node {
            Mapping::Leaf(_) => Resolved::Stuck(0),
            Mapping::Branch(entries) => match spec_lookup(entries@, path[0]) {
                Some(child) => match spec_resolve(child, path.drop_first()) {
                    Resolved::Stuck(d) => Resolved::Stuck(d + 1),
                    other => other,
                },
                None => Resolved::Stuck(0),
            },
        }
    }
}

/// A stuck resolution never consumes the whole path.
pub proof fn lemma_stuck_depth(node: Mapping, path: Seq<Seq<char>>)
    ensures
        spec_resolve(node, path) matches Resolved::Stuck(d) ==> 0 <= d < path.len(),
    decreases path.len(),
{
    if path.len() > 0 {
        match node {
            Mapping::Branch(entries) => match spec_lookup(entries@, path[0]) {
                Some(child) => {
                    lemma_stuck_depth(child, path.drop_first());
                },
                None => {},
            },
            _ => {},
        }
    }
}

fn lookup<'a>(entries: &'a Vec<(String, Mapping)>, key: &str) -> (r: Option<&'a Mapping>)
    ensures
        match r {
            Some(m) => spec_lookup(entries@, key@) == Some(*m),
            None => spec_lookup(entries@, key@) is None,
        },
{
    let n = entries.len();
    let mut i: usize = 0;
    proof {
        assert(entries@.skip(0) =~= entries@);
    }
    while i < n
        invariant
            n == entries@.len(),
            i <= n,
            spec_lookup(entries@, key@) == spec_lookup(entries@.skip(i as int), key@),
        decreases n - i,
    {
        proof {
            assert(entries@.skip(i as int)[0] == entries@[i as int]);
            assert(entries@.skip(i as int).drop_first() =~= entries@.skip(i as int + 1));
        }
        if crate::strutil::str_eq(entries[i].0.as_str(), key) {
            return Some(&entries[i].1);
        }
        i += 1;
    }
    proof {
        assert(entries@.skip(n as int) =~= Seq::<(String, Mapping)>::empty());
    }
    None
}

enum Step {
    Hit(String),
    Stuck(usize),
    NotLeafStop,
}

fn resolve_step(node: &Mapping, path: &Vec<String>, from: usize) -> (r: Step)
    requires
        from <= path@.len(),
    ensures
        ({
            let s = spec_resolve(*node, path.deep_view().skip(from as int));
            match r {
                Step::Hit(v) => s == Resolved::Hit(v),
                Step::Stuck(d) => d < path@.len() - from && s == Resolved::Stuck(d as int),
                Step::NotLeafStop => s == Resolved::NotLeaf,
            }
        }),
    decreases path@.len() - from,
{
    let ghost rest = path.deep_view().skip(from as int);
    if from == path.len() {
        proof {
            assert(rest.len() == 0);
        }
        match node {
            Mapping::Leaf(s) => Step::Hit(s.clone()),
            Mapping::Branch(_) => Step::NotLeafStop,
        }
    } else {
        proof {
            assert(rest[0] == path@[from as int]@);
            assert(rest.drop_first() =~= path.deep_view().skip(from as int + 1));
        }
        match node {
            Mapping::Leaf(_) => Step::Stuck(0),
            Mapping::Branch(entries) => match lookup(entries, path[from].as_str()) {
                Some(child) => match resolve_step(child, path, from + 1) {
                    Step::Stuck(d) => Step::Stuck(d + 1),
                    other => other,
                },
                None => Step::Stuck(0),
            },
        }
    }
}

fn clone_prefix(path: &Vec<String>, k: usize) -> (r: Vec<String>)
    requires
        k <= path@.len(),
    ensures
        r.deep_view() =~= path.deep_view().take(k as int),
{
    let mut r: Vec<String> = Vec::new();
    let mut i: usize = 0;
    while i < k
        invariant
            k <= path@.len(),
            i <= k,
            r.deep_view() =~= path.deep_view().take(i as int),
        decreases k - i,
    {
        let ghost before = r.deep_view();
        r.push(path[i].clone());
        proof {
            assert(r.deep_view() =~= before.push(path@[i as int].deep_view()));
            assert(r.deep_view() =~= path.deep_view().take(i as int + 1));
        }
        i += 1;
    }
    r
}

impl Mapping {
    /// Strict resolution of a dotted path, root segment first.
    ///
    /// Succeeds with the leaf value when the whole path descends the
    /// table and ends on a leaf; reports "no match" when not even the
    /// first segment descends; and fails otherwise — on a strict
    /// partial match with the path up to and including the first
    /// segment that did not descend, and on a full match that ends on
    /// a branch with the whole path.
    pub fn resolve(&self, path: &Vec<String>) -> (r: Result<Option<String>, MappingError>)
        requires
            path@.len() >= 1,
        ensures
            ({
                let s = spec_resolve(*self, path.deep_view());
                match s {
                    Resolved::Hit(v) => r == Ok::<Option<String>, MappingError>(Some(v)),
                    Resolved::Stuck(d) => if d == 0 {
                        r == Ok::<Option<String>, MappingError>(None)
                    } else {
                        r matches Err(e) && e@ == MappingErrorV::NotANode(
                            path.deep_view().take(d + 1),
                        )
                    },
                    Resolved::NotLeaf => r matches Err(e) && e@ == MappingErrorV::NotALeaf(
                        path.deep_view(),
                    ),
                }
            }),
    {
        proof {
            assert(path.deep_view().skip(0) =~= path.deep_view());
        }
        let n = path.len();
        match resolve_step(self, path, 0) {
            Step::Hit(v) => Ok(Some(v)),
            Step::Stuck(d) => {
                proof {
                    assert(d < n);
                }
                if d == 0 {
                    Ok(None)
                } else {
                    Err(MappingError::NotANode(clone_prefix(path, d + 1)))
                }
            },
            Step::NotLeafStop => {
                proof {
                    assert(path.deep_view().take(path@.len() as int) =~= path.deep_view());
                }
                Err(MappingError::NotALeaf(clone_prefix(path, path.len())))
            },
        }
    }
}

/// The message of a configuration error, naming the offending dotted
/// path.
pub open spec fn spec_message(e: MappingErrorV) -> Seq<char> {
    match e {
        MappingErrorV::NotANode(p) => spec_join_dotted(p)
            + " isn't a node of the provided mapping"@,
        MappingErrorV::NotALeaf(p) => spec_join_dotted(p)
            + " isn't an ending node (leaf) of the provided mapping"@,
    }
}

impl MappingError {
    /// The human-readable account of this configuration error, naming
    /// the offending dotted path.
    pub fn message(&self) -> (r: String)
        ensures
            r@ == spec_message(self@),
    {
        match self {
            MappingError::NotANode(p) => join_dotted(p).concat(
                " isn't a node of the provided mapping",
            ),
            MappingError::NotALeaf(p) => join_dotted(p).concat(
                " isn't an ending node (leaf) of the provided mapping",
            ),
        }
    }
}

impl Default for Mapping {
    /// The default table is an empty branch: it matches nothing.
    fn default() -> (r: Self)
        ensures
            r matches Mapping::Branch(entries) && entries@.len() == 0,
    {
        Mapping::Branch(Vec::new())
    }
}

} // verus!
