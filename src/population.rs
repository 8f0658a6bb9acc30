//! A fixed population of independent organisms, stepped together.

use vstd::prelude::*;
use crate::network::{deterministic, lemma_tick_deterministic, tick};
use crate::organism::Organism;

verus! {

/// `after` is `before` with `feed` in input 0 and one tick applied, computed
/// from `before` alone.
pub open spec fn member_stepped<V, F: Fn(V, u16, V) -> V>(
    step: F,
    feed: V,
    before: Organism<V>,
    after: Organism<V>,
) -> bool {
    &&& after.decoded_genes@ == before.decoded_genes@
    &&& after.inputs@ == before.inputs@.update(0, feed)
    &&& tick(
        step,
        before.decoded_genes@,
        after.inputs@,
        (before.neurons@, before.outputs@),
        (after.neurons@, after.outputs@),
    )
}

/// The observable state of an organism.
pub open spec fn same_state<V>(a: Organism<V>, b: Organism<V>) -> bool {
    &&& a.decoded_genes@ == b.decoded_genes@
    &&& a.inputs@ == b.inputs@
    &&& a.neurons@ == b.neurons@
    &&& a.outputs@ == b.outputs@
}

/// Members are independent: with a deterministic step, member `i` of two
/// populations that start with the same state in that member ends with the
/// same state after a step of each, whatever the other members hold.
pub proof fn lemma_members_independent<V, F: Fn(V, u16, V) -> V>(
    step: F,
    feed: V,
    before1: Seq<Organism<V>>,
    after1: Seq<Organism<V>>,
    before2: Seq<Organism<V>>,
    after2: Seq<Organism<V>>,
    i: int,
)
    requires
        deterministic(step),
        0 <= i < before1.len(),
        0 <= i < before2.len(),
        after1.len() == before1.len(),
        after2.len() == before2.len(),
        forall|j: int| 0 <= j < before1.len() ==> member_stepped(step, feed, #[trigger] before1[j], after1[j]),
        forall|j: int| 0 <= j < before2.len() ==> member_stepped(step, feed, #[trigger] before2[j], after2[j]),
        same_state(before1[i], before2[i]),
    ensures
        same_state(after1[i], after2[i]),
{
    assert(member_stepped(step, feed, before1[i], after1[i]));
    assert(member_stepped(step, feed, before2[i], after2[i]));
    lemma_tick_deterministic(
        step,
        before1[i].decoded_genes@,
        after1[i].inputs@,
        (before1[i].neurons@, before1[i].outputs@),
        (after1[i].neurons@, after1[i].outputs@),
        (after2[i].neurons@, after2[i].outputs@),
    );
}

/// Organisms that share no state; each has at least one input and one
/// output, so that one value can be fed to it and one published from it.
pub struct Population<V> {
    pub organisms: Vec<Organism<V>>,
}

impl<V: Copy> Population<V> {
    pub open spec fn wf(&self) -> bool {
        forall|i: int|
            0 <= i < self.organisms@.len() ==> {
                &&& (#[trigger] self.organisms@[i]).wf()
                &&& self.organisms@[i].inputs@.len() > 0
                &&& self.organisms@[i].outputs@.len() > 0
            }
    }

    /// One tick of every organism: `feed` goes to input 0 of each, each is
    /// updated from its own state alone, and output 0 of each is published,
    /// in population order.
    pub fn step_all<F: Fn(V, u16, V) -> V + Copy>(&mut self, feed: V, step: F) -> (published: Vec<V>)
        requires
            old(self).wf(),
            forall|a: V, w: u16, b: V| call_requires(step, (a, w, b)),
        ensures
            final(self).wf(),
            final(self).organisms@.len() == old(self).organisms@.len(),
            published@.len() == old(self).organisms@.len(),
            forall|i: int|
                0 <= i < old(self).organisms@.len() ==> {
                    &&& member_stepped(step, feed, #[trigger] old(self).organisms@[i], final(self).organisms@[i])
                    &&& published@[i] == final(self).organisms@[i].outputs@[0]
                },
    {
        let mut published: Vec<V> = Vec::new();
        let n = self.organisms.len();
        let mut i: usize = 0;
        while i < n
            invariant
                i <= n,
                n == old(self).organisms@.len(),
                self.organisms@.len() == n,
                published@.len() == i,
                forall|a: V, w: u16, b: V| call_requires(step, (a, w, b)),
                old(self).wf(),
                self.wf(),
                forall|j: int| i <= j < n ==> #[trigger] self.organisms@[j] == old(self).organisms@[j],
                forall|j: int|
                    0 <= j < i ==> {
                        &&& member_stepped(step, feed, #[trigger] old(self).organisms@[j], self.organisms@[j])
                        &&& published@[j] == self.organisms@[j].outputs@[0]
                    },
            decreases n - i,
        {
            self.organisms[i].inputs[0] = feed;
            self.organisms[i].update(step);
            published.push(self.organisms[i].outputs[0]);
            i += 1;
        }
        published
    }
}

} // verus!
