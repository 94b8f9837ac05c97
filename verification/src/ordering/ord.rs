//! The ordering data of an expression: its own match, the matches it
//! reads (its sources, in argument order) and the matches that read it
//! (its sinks).
use vstd::prelude::*;

use crate::parser_output::TypeData;

use super::matcher::{Match, MatchTrait};

verus! {

/// The value of an `OrdType`.
pub struct OrdView {
    pub id: Match,
    pub sources: Seq<Match>,
    pub sinks: Seq<Match>,
}

/// OrdType encodes information about ordering. Its sources and sinks are
/// held in `Vec`s, which need no bound on their length from the code that
/// adds to them.
#[derive(Debug, PartialEq, Eq, Hash)]
pub struct OrdType {
    id: Match,
    sources: Vec<Match>,
    sinks: Vec<Match>,
}

impl View for OrdType {
    type V = OrdView;

    closed spec fn view(&self) -> OrdView {
        OrdView { id: self.id, sources: self.sources@, sinks: self.sinks@ }
    }
}

/// The first position holding `m`, or the length where none does.
pub open spec fn position(s: Seq<Match>, m: Match) -> int
    decreases s.len(),
{
    if s.len() == 0 {
        0
    } else if s[0] == m {
        0
    } else {
        1 + position(s.drop_first(), m)
    }
}

/// `position` is the first position holding `m`.
pub proof fn lemma_position(s: Seq<Match>, m: Match)
    ensures
        0 <= position(s, m) <= s.len(),
        position(s, m) < s.len() ==> s[position(s, m)] == m,
        forall|j: int| 0 <= j < position(s, m) ==> s[j] != m,
        position(s, m) == s.len() <==> !s.contains(m),
    decreases s.len(),
{
    if s.len() > 0 && s[0] != m {
        lemma_position(s.drop_first(), m);
        assert forall|j: int| 0 <= j < position(s, m) implies s[j] != m by {
            if j > 0 {
                assert(s.drop_first()[j - 1] == s[j]);
            }
        }
        if s.contains(m) {
            let k = choose|k: int| 0 <= k < s.len() && s[k] == m;
            assert(s.drop_first()[k - 1] == m);
        }
        if s.drop_first().contains(m) {
            let k = choose|k: int| 0 <= k < s.drop_first().len() && s.drop_first()[k] == m;
            assert(s[k + 1] == m);
        }
    }
}

/// Adding a sink: nothing happens where it is already there.
pub open spec fn with_sink(o: OrdView, m: Match) -> OrdView {
    if o.sinks.contains(m) {
        o
    } else {
        OrdView { sinks: o.sinks.push(m), ..o }
    }
}

/// Removing the first occurrence of a sink, if any.
pub open spec fn without_sink(o: OrdView, m: Match) -> OrdView {
    let i = position(o.sinks, m);
    if i < o.sinks.len() {
        OrdView { sinks: o.sinks.remove(i), ..o }
    } else {
        o
    }
}

/// Replacing the first source `old` by `new`, if there is one.
pub open spec fn swap_source(o: OrdView, old: Match, new: Match) -> OrdView {
    let i = position(o.sources, old);
    if i < o.sources.len() {
        OrdView { sources: o.sources.update(i, new), ..o }
    } else {
        o
    }
}

/// The position of the first match equal to `arg`.
pub fn search_for_index(slice: &[Match], arg: &Match) -> (r: Option<usize>)
    ensures
        match r {
            Some(i) => i == position(slice@, *arg) && i < slice@.len(),
            None => position(slice@, *arg) == slice@.len(),
        },
{
    proof {
        lemma_position(slice@, *arg);
    }
    let n = slice.len();
    for i in 0..n
        invariant
            n == slice@.len(),
            forall|j: int| 0 <= j < i ==> slice@[j] != *arg,
            0 <= position(slice@, *arg) <= slice@.len(),
            position(slice@, *arg) < slice@.len() ==> slice@[position(slice@, *arg)] == *arg,
            forall|j: int| 0 <= j < position(slice@, *arg) ==> slice@[j] != *arg,
    {
        if slice[i] == *arg {
            return Some(i);
        }
    }
    None
}

/// What carries ordering data.
pub trait OrdTrait {
    /// The ordering data carried.
    spec fn ord_view(&self) -> OrdView;

    /// The match of this expression.
    fn get_matcher(&self) -> (r: Match)
        ensures
            r == self.ord_view().id,
    ;

    /// What this expression must read.
    fn get_sources(&self) -> (r: &[Match])
        ensures
            r@ == self.ord_view().sources,
    ;

    /// Whether it reads any expression.
    fn has_sources(&self) -> (r: bool)
        ensures
            r == (self.ord_view().sources.len() > 0),
    ;

    /// Where this expression's result goes.
    fn get_sinks(&self) -> (r: &[Match])
        ensures
            r@ == self.ord_view().sinks,
    ;

    /// Whether any expression reads it.
    fn has_sinks(&self) -> (r: bool)
        ensures
            r == (self.ord_view().sinks.len() > 0),
    ;

    /// Records that `matcher` reads this expression.
    fn add_sink(&mut self, matcher: &Match)
        ensures
            final(self).ord_view() == with_sink(old(self).ord_view(), *matcher),
    ;

    /// Replaces the source `old` by `new`.
    fn cas_source(&mut self, old_source: &Match, new_source: &Match)
        ensures
            final(self).ord_view() == swap_source(old(self).ord_view(), *old_source, *new_source),
    ;

    /// Forgets that `matcher` reads this expression.
    fn remove_sink(&mut self, matcher: &Match)
        ensures
            final(self).ord_view() == without_sink(old(self).ord_view(), *matcher),
    ;
}

impl OrdType {
    /// Builds ordering data with its sources; sinks are appended later.
    pub fn new(id: Match, sources: Vec<Match>) -> (r: OrdType)
        ensures
            r@ == (OrdView { id, sources: sources@, sinks: Seq::empty() }),
    {
        OrdType { id, sources, sinks: Vec::new() }
    }

    /// Whether `arg` is among the sources.
    pub fn source_exists(&self, arg: &Match) -> (r: bool)
        ensures
            r == self@.sources.contains(*arg),
    {
        proof {
            lemma_position(self@.sources, *arg);
        }
        search_for_index(self.sources.as_slice(), arg).is_some()
    }

    /// Whether `arg` is among the sinks.
    pub fn sink_exists(&self, arg: &Match) -> (r: bool)
        ensures
            r == self@.sinks.contains(*arg),
    {
        proof {
            lemma_position(self@.sinks, *arg);
        }
        search_for_index(self.sinks.as_slice(), arg).is_some()
    }

    /// The identifier of the expression.
    pub fn id_of(&self) -> (r: u64)
        ensures
            r == self@.id.id,
    {
        self.id.id
    }

    /// A copy of this ordering data.
    pub fn duplicate(&self) -> (r: OrdType)
        ensures
            r@ == self@,
    {
        OrdType { id: self.id, sources: self.sources.clone(), sinks: self.sinks.clone() }
    }
}

impl MatchTrait for OrdType {
    open spec fn spec_match(&self) -> Match {
        self@.id
    }

    fn get_kind(&self) -> (r: TypeData) {
        self.id.kind
    }

    fn get_id(&self) -> (r: u64) {
        self.id.id
    }
}

impl OrdTrait for OrdType {
    open spec fn ord_view(&self) -> OrdView {
        self@
    }

    fn get_matcher(&self) -> (r: Match) {
        self.id
    }

    fn get_sources(&self) -> (r: &[Match]) {
        self.sources.as_slice()
    }

    fn has_sources(&self) -> (r: bool) {
        self.sources.len() > 0
    }

    fn get_sinks(&self) -> (r: &[Match]) {
        self.sinks.as_slice()
    }

    fn has_sinks(&self) -> (r: bool) {
        self.sinks.len() > 0
    }

    fn add_sink(&mut self, matcher: &Match) {
        if !self.sink_exists(matcher) {
            self.sinks.push(*matcher);
        }
    }

    fn cas_source(&mut self, old_source: &Match, new_source: &Match) {
        match search_for_index(self.sources.as_slice(), old_source) {
            Option::None => {},
            Option::Some(index) => {
                self.sources.set(index, *new_source);
            },
        }
    }

    fn remove_sink(&mut self, matcher: &Match) {
        match search_for_index(self.sinks.as_slice(), matcher) {
            Option::None => {},
            Option::Some(index) => {
                self.sinks.remove(index);
            },
        }
    }
}

} // verus!
