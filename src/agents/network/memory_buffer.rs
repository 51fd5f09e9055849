//! A bounded replay buffer: the most recent transitions, oldest first, with
//! uniform sampling without replacement.

use std::collections::VecDeque;
use vstd::prelude::*;

verus! {

/// Relies on `rand::seq::index::sample`: `amount` distinct indices drawn
/// uniformly from `0..length`, which panics when `amount > length`.
#[verifier::external_body]
fn sample_indices(length: usize, amount: usize) -> (r: Vec<usize>)
    requires
        amount <= length,
    ensures
        r.len() == amount,
        r@.no_duplicates(),
        forall|i: int| 0 <= i < r.len() ==> r[i] < length,
{
    rand::seq::index::sample(&mut rand::rng(), length, amount).into_vec()
}

/// A ring buffer of at most `capacity` entries.
#[derive(Debug)]
pub struct MemoryBuffer<T> {
    buffer: VecDeque<T>,
    capacity: usize,
}

impl<T> MemoryBuffer<T> {
    /// The entries, oldest first.
    pub closed spec fn contents(self) -> Seq<T> {
        self.buffer@
    }

    pub closed spec fn spec_capacity(self) -> usize {
        self.capacity
    }

    /// The buffer holds no more entries than its capacity.
    pub open spec fn wf(self) -> bool {
        self.contents().len() <= self.spec_capacity()
    }

    /// An empty buffer that will hold up to `capacity` entries.
    pub fn new(capacity: usize) -> (r: MemoryBuffer<T>)
        ensures
            r.wf(),
            r.contents() == Seq::<T>::empty(),
            r.spec_capacity() == capacity,
    {
        MemoryBuffer { buffer: VecDeque::new(), capacity }
    }

    pub fn capacity(&self) -> (r: usize)
        ensures
            r == self.spec_capacity(),
    {
        self.capacity
    }

    pub fn len(&self) -> (r: usize)
        ensures
            r == self.contents().len(),
    {
        self.buffer.len()
    }

    /// The entry at `index`, counting from the oldest.
    pub fn get(&self, index: usize) -> (r: &T)
        requires
            index < self.contents().len(),
        ensures
            *r == self.contents()[index as int],
    {
        &self.buffer[index]
    }

    /// Appends an entry; when the buffer is full the oldest entry leaves
    /// first. A buffer of capacity 0 keeps nothing.
    pub fn add_experience(&mut self, experience: T)
        requires
            old(self).wf(),
        ensures
            final(self).wf(),
            final(self).spec_capacity() == old(self).spec_capacity(),
            final(self).contents() == (if old(self).spec_capacity() == 0 {
                old(self).contents()
            } else if old(self).contents().len() == old(self).spec_capacity() {
                old(self).contents().drop_first().push(experience)
            } else {
                old(self).contents().push(experience)
            }),
    {
        if self.capacity == 0 {
            return;
        }
        if self.buffer.len() == self.capacity {
            let _ = self.buffer.pop_front();
        }
        self.buffer.push_back(experience);
    }

    /// `batch_size` distinct positions of the buffer, drawn uniformly, in
    /// random order.
    pub fn sample_positions(&self, batch_size: usize) -> (r: Vec<usize>)
        requires
            batch_size <= self.contents().len(),
        ensures
            r.len() == batch_size,
            r@.no_duplicates(),
            forall|i: int| 0 <= i < r.len() ==> r[i] < self.contents().len(),
    {
        sample_indices(self.buffer.len(), batch_size)
    }

    /// The entries at the given positions, in that order.
    pub fn entries_at(&self, positions: &Vec<usize>) -> (r: Vec<&T>)
        requires
            forall|i: int| 0 <= i < positions.len() ==> positions[i] < self.contents().len(),
        ensures
            r.len() == positions.len(),
            forall|i: int| 0 <= i < r.len() ==> *r[i] == self.contents()[positions[i] as int],
    {
        let mut picked: Vec<&T> = Vec::new();
        let mut i: usize = 0;
        while i < positions.len()
            invariant
                i <= positions.len(),
                forall|j: int| 0 <= j < positions.len() ==> positions[j] < self.contents().len(),
                picked.len() == i,
                forall|j: int| 0 <= j < i ==> *picked[j] == self.contents()[positions[j] as int],
            decreases positions.len() - i,
        {
            let index = positions[i];
            assert(index < self.buffer.len());
            picked.push(&self.buffer[index]);
            i = i + 1;
        }
        picked
    }

    /// `batch_size` distinct entries drawn uniformly, in random order: the
    /// entries at `sample_positions(batch_size)`.
    pub fn sample(&self, batch_size: usize) -> (r: Vec<&T>)
        requires
            batch_size <= self.contents().len(),
        ensures
            r.len() == batch_size,
            exists|picked: Seq<usize>|
                {
                    &&& picked.len() == batch_size
                    &&& picked.no_duplicates()
                    &&& forall|i: int|
                        0 <= i < batch_size ==> picked[i] < self.contents().len() && *r[i]
                            == self.contents()[picked[i] as int]
                },
    {
        let positions = self.sample_positions(batch_size);
        let r = self.entries_at(&positions);
        assert(positions@.len() == batch_size);
        r
    }
}

} // verus!
