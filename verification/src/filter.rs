//! The module filter: which origins a sink lets through.

use vstd::prelude::*;
use vstd::std_specs::iter::IteratorSpec;

verus! {

/// The separator between a module and its descendants.
pub open spec fn path_separator() -> Seq<char> {
    seq![':', ':']
}

/// Whether `origin` is the module `prefix` itself or one of its descendants,
/// that is, begins with `prefix` followed by `::`.
pub open spec fn covers(prefix: Seq<char>, origin: Seq<char>) -> bool {
    origin == prefix || (prefix + path_separator()).is_prefix_of(origin)
}

/// Whether a filter set lets `origin` through: an empty set lets everything
/// through, any other set what one of its entries covers.
pub open spec fn admits(prefixes: Seq<Seq<char>>, origin: Seq<char>) -> bool {
    prefixes.len() == 0 || exists|i: int|
        0 <= i < prefixes.len() && covers(#[trigger] prefixes[i], origin)
}

/// The views of a list of strings.
pub open spec fn views_of(strings: Seq<String>) -> Seq<Seq<char>> {
    strings.map_values(|s: String| s@)
}

/// Decides `covers` by walking both strings once.
pub fn prefix_covers(prefix: &str, origin: &str) -> (covered: bool)
    ensures
        covered == covers(prefix@, origin@),
{
    broadcast use vstd::string::group_string_axioms;

    let mut wanted = prefix.chars();
    let mut given = origin.chars();
    let ghost mut seen: Seq<char> = Seq::empty();
    loop
        invariant
            prefix@ == seen + wanted.remaining(),
            origin@ == seen + given.remaining(),
            wanted.decrease() is Some,
        decreases wanted.decrease()->0,
    {
        let ghost at = seen.len() as int;
        match wanted.next() {
            None => {
                assert(prefix@ =~= seen);
                let first = given.next();
                if first.is_none() {
                    assert(origin@ =~= prefix@);
                    return true;
                }
                let second = given.next();
                let separated = first == Some(':') && second == Some(':');
                proof {
                    let joined = prefix@ + path_separator();
                    if separated {
                        assert(origin@ =~= joined + given.remaining());
                        assert(joined =~= origin@.subrange(0, joined.len() as int));
                    } else if joined.is_prefix_of(origin@) {
                        assert(origin@[at] == joined[at]);
                        assert(origin@[at + 1] == joined[at + 1]);
                    }
                }
                return separated;
            },
            Some(expected) => {
                let found = given.next();
                if found != Some(expected) {
                    proof {
                        let joined = prefix@ + path_separator();
                        assert(prefix@[at] == expected);
                        if joined.is_prefix_of(origin@) {
                            assert(origin@[at] == joined[at]);
                        }
                    }
                    return false;
                }
                proof {
                    seen = seen.push(expected);
                }
                assert(prefix@ =~= seen + wanted.remaining());
                assert(origin@ =~= seen + given.remaining());
            },
        }
    }
}

/// An ordered list of module prefixes, fixed when the sink is set up.
/// The empty list matches every origin.
pub struct ModuleFilterSet {
    prefixes: Vec<String>,
}

impl View for ModuleFilterSet {
    type V = Seq<Seq<char>>;

    closed spec fn view(&self) -> Seq<Seq<char>> {
        views_of(self.prefixes@)
    }
}

impl ModuleFilterSet {
    pub fn new(prefixes: Vec<String>) -> (set: ModuleFilterSet)
        ensures
            set@ == views_of(prefixes@),
    {
        ModuleFilterSet { prefixes }
    }

    pub fn len(&self) -> (count: usize)
        ensures
            count == self@.len(),
    {
        self.prefixes.len()
    }

    /// The prefix at `index`, in the order given at construction.
    pub fn prefix(&self, index: usize) -> (prefix: &str)
        requires
            index < self@.len(),
        ensures
            prefix@ == self@[index as int],
    {
        self.prefixes[index].as_str()
    }

    /// Whether an event from `origin` is let through.
    pub fn enabled(&self, origin: &str) -> (enabled: bool)
        ensures
            enabled == admits(self@, origin@),
    {
        if self.prefixes.len() == 0 {
            return true;
        }
        let mut index: usize = 0;
        while index < self.prefixes.len()
            invariant
                index <= self.prefixes.len(),
                self@ == views_of(self.prefixes@),
                forall|i: int| 0 <= i < index ==> !covers(#[trigger] self@[i], origin@),
            decreases self.prefixes.len() - index,
        {
            if prefix_covers(self.prefixes[index].as_str(), origin) {
                assert(covers(self@[index as int], origin@));
                return true;
            }
            index += 1;
        }
        false
    }
}

/// An empty filter set lets every origin through.
pub proof fn lemma_empty_set_admits_all(origin: Seq<char>)
    ensures
        admits(Seq::empty(), origin),
{
}

/// An origin equal to a configured prefix is let through.
pub proof fn lemma_admits_exact_prefix(prefixes: Seq<Seq<char>>, i: int)
    requires
        0 <= i < prefixes.len(),
    ensures
        admits(prefixes, prefixes[i]),
{
    assert(covers(prefixes[i], prefixes[i]));
}

/// A descendant of a configured prefix, at any depth, is let through:
/// the prefix, then `::`, then anything.
pub proof fn lemma_admits_descendant(prefixes: Seq<Seq<char>>, i: int, rest: Seq<char>)
    requires
        0 <= i < prefixes.len(),
    ensures
        admits(prefixes, prefixes[i] + path_separator() + rest),
{
    let joined = prefixes[i] + path_separator();
    let origin = joined + rest;
    assert(origin.subrange(0, joined.len() as int) =~= joined);
    assert(covers(prefixes[i], origin));
}

/// A prefix does not cover an origin that merely continues it: the prefix
/// followed by a non-empty text that does not begin with `::`.
pub proof fn lemma_continuation_not_covered(prefix: Seq<char>, suffix: Seq<char>)
    requires
        suffix.len() > 0,
        !path_separator().is_prefix_of(suffix),
    ensures
        !covers(prefix, prefix + suffix),
        !admits(seq![prefix], prefix + suffix),
{
    let origin = prefix + suffix;
    let joined = prefix + path_separator();
    assert(origin.len() != prefix.len());
    if joined.is_prefix_of(origin) {
        assert(origin.subrange(0, joined.len() as int) == joined);
        assert forall|k: int| 0 <= k < 2 implies suffix[k] == path_separator()[k] by {
            assert(origin[prefix.len() + k] == joined[prefix.len() + k]);
        }
        assert(suffix.subrange(0, 2) =~= path_separator());
    }
    assert(seq![prefix][0] == prefix);
}

} // verus!
