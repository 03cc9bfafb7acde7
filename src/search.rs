//! The search state that the coordinator keeps between batches.
use vstd::prelude::*;

use crate::matcher::{find_hit, first_hit};
use crate::patterns::{
    is_line_pattern,
    lemma_parse_render,
    lemma_remove_law,
    other_than,
    patterns_of,
    remove_pattern,
    render,
    render_patterns,
    without,
};

verus! {

/// Active pattern lists and matching mode of a running search. The primary
/// list shrinks as patterns are satisfied; the payment list and the mode stay
/// as they were given. `persisted` tells whether the primary list came from a
/// file that has to be rewritten after each change.
pub struct Search {
    pub primary: Vec<String>,
    pub payment: Vec<String>,
    pub suffix: bool,
    pub persisted: bool,
}

impl Search {
    pub fn new(primary: Vec<String>, payment: Vec<String>, suffix: bool, persisted: bool) -> (r: Search)
        ensures
            r.primary.deep_view() == primary.deep_view(),
            r.payment.deep_view() == payment.deep_view(),
            r.suffix == suffix,
            r.persisted == persisted,
    {
        Search { primary, payment, suffix, persisted }
    }

    /// The search is over once no primary pattern is left.
    pub fn is_done(&self) -> (r: bool)
        ensures
            r == (self.primary.len() == 0),
    {
        self.primary.len() == 0
    }

    /// Index of the primary pattern that a candidate with these two addresses
    /// satisfies, if any; the first in list order wins.
    pub fn check(&self, main_addr: &str, pay_addr: &str) -> (r: Option<usize>)
        ensures
            r is None <==> first_hit(
                main_addr@,
                pay_addr@,
                self.primary.deep_view(),
                self.payment.deep_view(),
                self.suffix,
            ) is None,
            r matches Some(i) ==> i < self.primary.len() && first_hit(
                main_addr@,
                pay_addr@,
                self.primary.deep_view(),
                self.payment.deep_view(),
                self.suffix,
            ) == Some(i as int),
    {
        find_hit(main_addr, pay_addr, &self.primary, &self.payment, self.suffix)
    }

    /// Takes the satisfied primary pattern at `index` out of the search, every
    /// occurrence of it, and returns it, with the text to write over the
    /// primary pattern file where the list came from one.
    pub fn accept_hit(&mut self, index: usize) -> (r: (String, Option<String>))
        requires
            index < old(self).primary.len(),
        ensures
            r.0@ == old(self).primary.deep_view()[index as int],
            final(self).primary.deep_view() == without(old(self).primary.deep_view(), r.0@),
            r.1 is Some <==> old(self).persisted,
            r.1 matches Some(t) ==> t@ == render(final(self).primary.deep_view()),
            final(self).payment.deep_view() == old(self).payment.deep_view(),
            final(self).suffix == old(self).suffix,
            final(self).persisted == old(self).persisted,
    {
        let pat = self.primary[index].clone();
        let rest = remove_pattern(&self.primary, pat.as_str());
        self.primary = rest;
        let text = if self.persisted {
            Some(render_patterns(&self.primary))
        } else {
            None
        };
        (pat, text)
    }
}

/// Position of the first result that holds a hit, if any.
pub fn select_hit<T>(results: &Vec<Option<T>>) -> (r: Option<usize>)
    ensures
        r is None <==> forall|k: int| 0 <= k < results.len() ==> results@[k] is None,
        r matches Some(i) ==> i < results.len() && results@[i as int] is Some
            && forall|k: int| 0 <= k < i ==> results@[k] is None,
{
    let mut i: usize = 0;
    while i < results.len()
        invariant
            i <= results.len(),
            forall|k: int| 0 <= k < i ==> results@[k] is None,
        decreases results.len() - i,
    {
        if results[i].is_some() {
            return Some(i);
        }
        i = i + 1;
    }
    None
}

/// Once a satisfied pattern is removed and the list is written out, reading
/// the file back gives the reduced list, and the pattern is not in it.
pub proof fn lemma_removed_stays_removed(ps: Seq<Seq<char>>, p: Seq<char>)
    requires
        forall|i: int| 0 <= i < ps.len() ==> is_line_pattern(#[trigger] ps[i]),
    ensures
        patterns_of(render(without(ps, p))) == without(ps, p),
        forall|i: int|
            0 <= i < patterns_of(render(without(ps, p))).len() ==> patterns_of(
                render(without(ps, p)),
            )[i] != p,
{
    broadcast use vstd::seq_lib::group_filter_ensures;

    let w = without(ps, p);
    assert forall|i: int| 0 <= i < w.len() implies is_line_pattern(#[trigger] w[i]) by {
        assert(w.contains(w[i]));
        ps.lemma_filter_contains_rev(other_than(p), w[i]);
    }
    lemma_parse_render(w);
    lemma_remove_law(ps, p);
}

} // verus!
