//! Add-only label sets.

use vstd::prelude::*;
use vstd::string::*;

use crate::text::{str_eq, strs_view, strings_contain, clone_strings, to_lowercase, unicode_lowercase};

verus! {

/// A set of labels that only grows: there is no way to remove one.
///
/// Labels keep the order in which they were first added; adding a label
/// already present changes nothing.
#[derive(Debug)]
pub struct MonotonicSet {
    items: Vec<String>,
}

impl View for MonotonicSet {
    type V = Seq<Seq<char>>;

    closed spec fn view(&self) -> Seq<Seq<char>> {
        strs_view(self.items@)
    }
}

/// Whether a label set holds a label, ignoring case.
pub open spec fn has_label_spec(labels: Seq<Seq<char>>, label: Seq<char>) -> bool {
    exists|i: int| 0 <= i < labels.len()
        && unicode_lowercase(#[trigger] labels[i]) == unicode_lowercase(label)
}

/// Whether every label of `b` is in `a`.
pub open spec fn superset_spec(a: Seq<Seq<char>>, b: Seq<Seq<char>>) -> bool {
    forall|i: int| 0 <= i < b.len() ==> a.contains(#[trigger] b[i])
}

impl MonotonicSet {
    /// The empty set.
    pub fn new() -> (s: MonotonicSet)
        ensures
            s@.len() == 0,
    {
        MonotonicSet { items: Vec::new() }
    }

    /// Add a label unless it is already present.
    pub fn add_label(&mut self, label: &str)
        ensures
            final(self)@ == if old(self)@.contains(label@) { old(self)@ } else { old(self)@.push(label@) },
    {
        if !strings_contain(&self.items, label) {
            self.items.push(String::from_str(label));
        }
    }

    /// Whether a label is present, ignoring case.
    pub fn has_label(&self, label: &str) -> (r: bool)
        ensures
            r == has_label_spec(self@, label@),
    {
        let wanted = to_lowercase(label);
        let mut i: usize = 0;
        while i < self.items.len()
            invariant
                i <= self.items.len(),
                wanted@ == unicode_lowercase(label@),
                forall|j: int| 0 <= j < i ==> unicode_lowercase(#[trigger] self@[j]) != unicode_lowercase(label@),
            decreases self.items.len() - i,
        {
            let lower = to_lowercase(self.items[i].as_str());
            if str_eq(lower.as_str(), wanted.as_str()) {
                assert(unicode_lowercase(self@[i as int]) == unicode_lowercase(label@));
                return true;
            }
            i += 1;
        }
        false
    }

    /// Whether a label is present exactly as given.
    pub fn contains(&self, label: &str) -> (r: bool)
        ensures
            r == self@.contains(label@),
    {
        strings_contain(&self.items, label)
    }

    /// Whether every label of `other` is present here.
    pub fn is_superset(&self, other: &MonotonicSet) -> (r: bool)
        ensures
            r == superset_spec(self@, other@),
    {
        let mut i: usize = 0;
        while i < other.items.len()
            invariant
                i <= other.items.len(),
                forall|j: int| 0 <= j < i ==> self@.contains(#[trigger] other@[j]),
            decreases other.items.len() - i,
        {
            if !strings_contain(&self.items, other.items[i].as_str()) {
                assert(!self@.contains(other@[i as int]));
                return false;
            }
            i += 1;
        }
        true
    }

    /// Number of labels.
    pub fn len(&self) -> (n: usize)
        ensures
            n == self@.len(),
    {
        self.items.len()
    }

    /// Whether the set is empty.
    pub fn is_empty(&self) -> (r: bool)
        ensures
            r == (self@.len() == 0),
    {
        self.items.len() == 0
    }

    /// The labels, in the order first added.
    pub fn labels(&self) -> (v: &Vec<String>)
        ensures
            strs_view(v@) == self@,
    {
        &self.items
    }
}

impl Clone for MonotonicSet {
    fn clone(&self) -> (r: Self)
        ensures
            r@ == self@,
    {
        MonotonicSet { items: clone_strings(&self.items) }
    }
}

/// Adding a label never removes one: the set after contains the set
/// before.
pub proof fn lemma_add_keeps_labels(before: Seq<Seq<char>>, label: Seq<char>)
    ensures
        superset_spec(if before.contains(label) { before } else { before.push(label) }, before),
{
    let after = if before.contains(label) { before } else { before.push(label) };
    assert forall|i: int| 0 <= i < before.len() implies after.contains(#[trigger] before[i]) by {
        assert(after[i] == before[i]);
    }
}

} // verus!
