//! The tabular Q-learning agent: one value per (state, action) pair of two
//! discrete spaces, kept in a flat table indexed by mixed-radix encoding.
//!
//! The agent is generic over the value type `V`: it stores, reads and compares
//! values, and leaves the arithmetic of the learning rule to its caller.

use crate::space::{
    all_positive, dims_product, elem_of_index, gen_random_discrete, mixed_radix, radix_digits,
    space_elem_as_int, space_size, within_bounds, SpaceDims,
};
use core::cmp::Ordering;
use vstd::prelude::*;
use vstd::std_specs::cmp::PartialOrdSpec;

verus! {

/// `a > b` as the value type's comparison defines it.
pub open spec fn greater<V: PartialOrd>(a: V, b: V) -> bool {
    a.partial_cmp_spec(&b) == Some(Ordering::Greater)
}

/// The index that a scan of the first `n` values keeps: it starts at the first
/// value and moves to a later one only when that one is strictly greater, so
/// that of equal values the earliest wins.
pub open spec fn greedy_index<V: PartialOrd>(row: Seq<V>, n: nat) -> nat
    decreases n,
{
    if n <= 1 {
        0
    } else {
        let best = greedy_index(row, (n - 1) as nat);
        if greater(row[n - 1], row[best as int]) {
            (n - 1) as nat
        } else {
            best
        }
    }
}

/// Where `greater` is a strict order on the values of the row (irreflexive and
/// transitive, as on integers), no value among the first `n` is strictly
/// greater than the one the scan keeps: it is a greatest value.
pub proof fn lemma_greedy_index_is_maximal<V: PartialOrd>(row: Seq<V>, n: nat)
    requires
        0 < n <= row.len(),
        forall|i: int| 0 <= i < n ==> !greater(#[trigger] row[i], row[i]),
        forall|i: int, j: int, k: int|
            0 <= i < n && 0 <= j < n && 0 <= k < n && #[trigger] greater(row[i], row[j])
                && #[trigger] greater(row[j], row[k]) ==> greater(row[i], row[k]),
    ensures
        greedy_index(row, n) < n,
        forall|k: int| 0 <= k < n ==> !greater(#[trigger] row[k], row[greedy_index(row, n) as int]),
    decreases n,
{
    if n > 1 {
        lemma_greedy_index_is_maximal(row, (n - 1) as nat);
    }
}

/// A Q-learning agent over two discrete spaces.
#[derive(Debug)]
pub struct QAgent<V> {
    q_table: Vec<V>,
    epsilon: V,
    alpha: V,
    gamma: V,
    state_space: Vec<usize>,
    state_space_size: usize,
    action_space: Vec<usize>,
    action_space_size: usize,
}

/// The fields of a table agent agree with each other: either nothing has been
/// set up yet, or the sizes are the products of the dimensions and there is one
/// table entry per (state, action) pair.
pub open spec fn consistent_parts(
    table_len: nat,
    state_space: Seq<usize>,
    state_space_size: usize,
    action_space: Seq<usize>,
    action_space_size: usize,
) -> bool {
    ||| (state_space.len() == 0 && action_space.len() == 0 && state_space_size == 0
        && action_space_size == 0 && table_len == 0)
    ||| (state_space_size == dims_product(state_space) && action_space_size == dims_product(
        action_space,
    ) && table_len == state_space_size * action_space_size)
}

impl<V> QAgent<V> {
    /// The fields agree with each other (see `consistent_parts`).
    pub closed spec fn wf(self) -> bool {
        consistent_parts(
            self.q_table@.len(),
            self.state_space@,
            self.state_space_size,
            self.action_space@,
            self.action_space_size,
        )
    }

    pub closed spec fn table(self) -> Seq<V> {
        self.q_table@
    }

    pub closed spec fn spec_epsilon(self) -> V {
        self.epsilon
    }

    pub closed spec fn spec_alpha(self) -> V {
        self.alpha
    }

    pub closed spec fn spec_gamma(self) -> V {
        self.gamma
    }

    pub closed spec fn states(self) -> Seq<usize> {
        self.state_space@
    }

    pub closed spec fn actions(self) -> Seq<usize> {
        self.action_space@
    }

    pub closed spec fn spec_state_space_size(self) -> usize {
        self.state_space_size
    }

    pub closed spec fn spec_action_space_size(self) -> usize {
        self.action_space_size
    }

    /// The table has been allocated for two spaces.
    pub closed spec fn initialized(self) -> bool {
        self.state_space_size == dims_product(self.state_space@) && self.action_space_size
            == dims_product(self.action_space@)
    }

    /// The number of actions: the length of a row of the table.
    pub open spec fn row_len(self) -> nat {
        dims_product(self.actions())
    }

    /// The entry of the table that holds the value of (state, action).
    pub open spec fn entry(self, state: Seq<usize>, action: Seq<usize>) -> int {
        (mixed_radix(state, self.states()) * self.row_len() + mixed_radix(action, self.actions()))
            as int
    }

    /// The values of every action in `state`, in enumeration order.
    pub open spec fn row(self, state: Seq<usize>) -> Seq<V> {
        let start = (mixed_radix(state, self.states()) * self.row_len()) as int;
        self.table().subrange(start, start + self.row_len())
    }
}

impl<V: Copy + PartialOrd> QAgent<V> {
    /// The value of the greedy action in `state`.
    pub open spec fn best_value(self, state: Seq<usize>) -> V {
        self.row(state)[greedy_index(self.row(state), self.row_len()) as int]
    }

    /// The action that the greedy policy takes in `state`.
    pub open spec fn greedy_action(self, state: Seq<usize>) -> Seq<usize> {
        radix_digits(self.actions(), greedy_index(self.row(state), self.row_len()))
    }

    /// A fresh agent with the given exploration rate, learning rate and
    /// discount factor; its table is allocated by `try_init`.
    pub fn new(epsilon: V, alpha: V, gamma: V) -> (r: QAgent<V>)
        ensures
            r.wf(),
            !r.initialized(),
            r.table().len() == 0,
            r.states().len() == 0,
            r.actions().len() == 0,
            r.spec_epsilon() == epsilon,
            r.spec_alpha() == alpha,
            r.spec_gamma() == gamma,
    {
        QAgent {
            q_table: Vec::new(),
            epsilon,
            alpha,
            gamma,
            state_space: Vec::new(),
            state_space_size: 0,
            action_space: Vec::new(),
            action_space_size: 0,
        }
    }

    pub fn epsilon(&self) -> (r: V)
        ensures
            r == self.spec_epsilon(),
    {
        self.epsilon
    }

    pub fn alpha(&self) -> (r: V)
        ensures
            r == self.spec_alpha(),
    {
        self.alpha
    }

    pub fn gamma(&self) -> (r: V)
        ensures
            r == self.spec_gamma(),
    {
        self.gamma
    }

    pub fn q_table(&self) -> (r: &Vec<V>)
        ensures
            r@ == self.table(),
    {
        &self.q_table
    }

    pub fn state_space(&self) -> (r: &Vec<usize>)
        ensures
            r@ == self.states(),
    {
        &self.state_space
    }

    pub fn action_space(&self) -> (r: &Vec<usize>)
        ensures
            r@ == self.actions(),
    {
        &self.action_space
    }

    pub fn state_space_size(&self) -> (r: usize)
        requires
            self.wf(),
        ensures
            r == self.spec_state_space_size(),
            self.initialized() ==> r == dims_product(self.states()),
            !self.initialized() ==> r == 0,
    {
        self.state_space_size
    }

    pub fn action_space_size(&self) -> (r: usize)
        requires
            self.wf(),
        ensures
            r == self.spec_action_space_size(),
            self.initialized() ==> r == self.row_len(),
            !self.initialized() ==> r == 0,
    {
        self.action_space_size
    }

    pub fn is_initialized(&self) -> (r: bool)
        requires
            self.wf(),
        ensures
            r == self.initialized(),
    {
        self.state_space.len() != 0 || self.state_space_size != 0
    }

    /// Reads the spaces and allocates the table, every entry `zero`: one entry
    /// per (state, action) pair, none when a space has an empty dimension.
    /// Fails, and changes nothing, when either space has a continuous
    /// dimension (the table holds discrete spaces only), or when a size does
    /// not fit in a `usize`.
    pub fn try_init(&mut self, state_space: &SpaceDims, action_space: &SpaceDims, zero: V) -> (r:
        bool)
        requires
            old(self).wf(),
        ensures
            r == (state_space.continuous == 0 && action_space.continuous == 0 && dims_product(
                state_space.discrete@,
            ) <= usize::MAX && dims_product(action_space.discrete@) <= usize::MAX && dims_product(
                state_space.discrete@,
            ) * dims_product(action_space.discrete@) <= usize::MAX),
            r ==> {
                &&& final(self).wf()
                &&& final(self).initialized()
                &&& final(self).states() == state_space.discrete@
                &&& final(self).actions() == action_space.discrete@
                &&& final(self).table().len() == dims_product(state_space.discrete@)
                    * dims_product(action_space.discrete@)
                &&& forall|i: int|
                    0 <= i < final(self).table().len() ==> final(self).table()[i] == zero
                &&& final(self).spec_epsilon() == old(self).spec_epsilon()
                &&& final(self).spec_alpha() == old(self).spec_alpha()
                &&& final(self).spec_gamma() == old(self).spec_gamma()
            },
            !r ==> *final(self) == *old(self),
    {
        if state_space.continuous != 0 || action_space.continuous != 0 {
            return false;
        }
        let s_size = match space_size(state_space.discrete.as_slice()) {
            Some(n) => n,
            None => {
                return false;
            },
        };
        let a_size = match space_size(action_space.discrete.as_slice()) {
            Some(n) => n,
            None => {
                return false;
            },
        };
        let total = match s_size.checked_mul(a_size) {
            Some(n) => n,
            None => {
                return false;
            },
        };
        let mut table: Vec<V> = Vec::new();
        let mut i: usize = 0;
        while i < total
            invariant
                i <= total,
                table.len() == i,
                forall|j: int| 0 <= j < i ==> table[j] == zero,
            decreases total - i,
        {
            table.push(zero);
            i = i + 1;
        }
        let states = state_space.discrete.clone();
        let actions = action_space.discrete.clone();
        assert(states@ == state_space.discrete@);
        assert(actions@ == action_space.discrete@);
        *self =
        QAgent {
            q_table: table,
            epsilon: self.epsilon,
            alpha: self.alpha,
            gamma: self.gamma,
            state_space: states,
            state_space_size: s_size,
            action_space: actions,
            action_space_size: a_size,
        };
        true
    }

    proof fn lemma_entry_below(self, state: Seq<usize>, action: Seq<usize>)
        requires
            self.wf(),
            self.initialized(),
            consistent_parts(
                self.table().len(),
                self.states(),
                self.state_space_size,
                self.actions(),
                self.action_space_size,
            ),
            within_bounds(state, self.states()),
            within_bounds(action, self.actions()),
        ensures
            0 <= self.entry(state, action) < self.table().len(),
            mixed_radix(state, self.states()) < dims_product(self.states()),
            mixed_radix(action, self.actions()) < self.row_len(),
            mixed_radix(state, self.states()) * self.row_len() + self.row_len()
                <= self.table().len(),
            dims_product(self.states()) <= self.table().len(),
            self.action_space_size == self.row_len(),
            self.state_space_size == dims_product(self.states()),
            self.table().len() == self.q_table.len(),
    {
        crate::space::lemma_radix_below_product(state, self.states());
        crate::space::lemma_radix_below_product(action, self.actions());
        let s = mixed_radix(state, self.states());
        let a = mixed_radix(action, self.actions());
        let ss = dims_product(self.states());
        let aa = self.row_len();
        assert(s * aa + a < ss * aa && s * aa + aa <= ss * aa && ss <= ss * aa) by (
        nonlinear_arith)
            requires
                s < ss,
                a < aa,
        ;
    }

    /// The position in the table of the pair (state, action).
    fn entry_index(&self, state: &[usize], action: &[usize]) -> (r: usize)
        requires
            self.wf(),
            self.initialized(),
            within_bounds(state@, self.states()),
            within_bounds(action@, self.actions()),
        ensures
            r == self.entry(state@, action@),
            r < self.table().len(),
    {
        proof {
            self.lemma_entry_below(state@, action@);
        }
        let s = space_elem_as_int(state, self.state_space.as_slice());
        let a = space_elem_as_int(action, self.action_space.as_slice());
        s * self.action_space_size + a
    }

    /// The value of taking `action` in `state`.
    pub fn q_val(&self, state: &[usize], action: &[usize]) -> (r: V)
        requires
            self.wf(),
            self.initialized(),
            within_bounds(state@, self.states()),
            within_bounds(action@, self.actions()),
        ensures
            r == self.table()[self.entry(state@, action@)],
    {
        let i = self.entry_index(state, action);
        self.q_table[i]
    }

    /// Sets the value of taking `action` in `state`.
    pub fn set_q_val(&mut self, state: &[usize], action: &[usize], value: V)
        requires
            old(self).wf(),
            old(self).initialized(),
            within_bounds(state@, old(self).states()),
            within_bounds(action@, old(self).actions()),
        ensures
            final(self).table() == old(self).table().update(old(self).entry(state@, action@), value),
            final(self).wf(),
            final(self).initialized(),
            final(self).states() == old(self).states(),
            final(self).actions() == old(self).actions(),
            final(self).spec_epsilon() == old(self).spec_epsilon(),
            final(self).spec_alpha() == old(self).spec_alpha(),
            final(self).spec_gamma() == old(self).spec_gamma(),
    {
        let i = self.entry_index(state, action);
        self.q_table[i] = value;
    }

    /// The position within the row of `state` of the action that the greedy
    /// policy takes.
    fn best_index(&self, state: &[usize]) -> (r: usize)
        requires
            self.wf(),
            self.initialized(),
            within_bounds(state@, self.states()),
            all_positive(self.actions()),
        ensures
            r < self.row_len(),
            V::obeys_partial_cmp_spec() ==> r == greedy_index(self.row(state@), self.row_len()),
    {
        proof {
            crate::space::lemma_radix_below_product(state@, self.states());
            lemma_product_positive(self.actions());
            let zeros = Seq::new(self.actions().len(), |i: int| 0usize);
            assert(within_bounds(zeros, self.actions()));
            self.lemma_entry_below(state@, zeros);
        }
        let ghost row = self.row(state@);
        let n = self.action_space_size;
        let base = space_elem_as_int(state, self.state_space.as_slice()) * n;
        let mut best: usize = 0;
        let mut k: usize = 1;
        while k < n
            invariant
                1 <= k <= n,
                n == self.row_len(),
                base == mixed_radix(state@, self.states()) * n,
                base + n <= self.q_table.len(),
                self.table() == self.q_table@,
                row == self.row(state@),
                best < k,
                V::obeys_partial_cmp_spec() ==> best == greedy_index(row, k as nat),
            decreases n - k,
        {
            assert(row[k as int] == self.q_table@[base + k]);
            assert(row[best as int] == self.q_table@[base + best]);
            if self.q_table[base + k] > self.q_table[base + best] {
                best = k;
            }
            k = k + 1;
        }
        best
    }

    /// The greedy action in `state`: the first action, in enumeration order,
    /// whose value is strictly greater than the values of all actions before it.
    pub fn predict(&self, state: &[usize]) -> (r: Vec<usize>)
        requires
            self.wf(),
            self.initialized(),
            within_bounds(state@, self.states()),
            all_positive(self.actions()),
        ensures
            within_bounds(r@, self.actions()),
            V::obeys_partial_cmp_spec() ==> r@ == self.greedy_action(state@),
    {
        let best = self.best_index(state);
        elem_of_index(self.action_space.as_slice(), best)
    }

    /// The action taken while learning: a uniformly drawn action when
    /// `explore` (the caller's draw fell below epsilon), the greedy action
    /// otherwise.
    pub fn act(&self, state: &[usize], explore: bool) -> (r: Vec<usize>)
        requires
            self.wf(),
            self.initialized(),
            within_bounds(state@, self.states()),
            all_positive(self.actions()),
        ensures
            within_bounds(r@, self.actions()),
            !explore && V::obeys_partial_cmp_spec() ==> r@ == self.greedy_action(state@),
    {
        if explore {
            gen_random_discrete(self.action_space.as_slice())
        } else {
            self.predict(state)
        }
    }

    /// The learning step for the transition (state, action) → `next_state`:
    /// the entry of (state, action) becomes `update(old value, future)`, where
    /// the future value is `zero` after the last step (no next state) and
    /// otherwise the greatest value of an action in the next state. The caller's
    /// `update` holds the arithmetic of the rule, such as
    /// `q + alpha * (reward + gamma * future - q)`.
    pub fn learn<F: Fn(V, V) -> V>(
        &mut self,
        state: &[usize],
        action: &[usize],
        next_state: Option<&[usize]>,
        zero: V,
        update: F,
    )
        requires
            old(self).wf(),
            old(self).initialized(),
            within_bounds(state@, old(self).states()),
            within_bounds(action@, old(self).actions()),
            next_state matches Some(n) ==> within_bounds(n@, old(self).states()),
            forall|q: V, future: V| update.requires((q, future)),
        ensures
            final(self).wf(),
            final(self).initialized(),
            final(self).states() == old(self).states(),
            final(self).actions() == old(self).actions(),
            final(self).spec_epsilon() == old(self).spec_epsilon(),
            final(self).spec_alpha() == old(self).spec_alpha(),
            final(self).spec_gamma() == old(self).spec_gamma(),
            final(self).table() == old(self).table().update(
                old(self).entry(state@, action@),
                final(self).table()[old(self).entry(state@, action@)],
            ),
            next_state is None ==> update.ensures(
                (old(self).table()[old(self).entry(state@, action@)], zero),
                final(self).table()[old(self).entry(state@, action@)],
            ),
            next_state matches Some(n) ==> exists|k: int|
                0 <= k < old(self).row_len() && update.ensures(
                    (old(self).table()[old(self).entry(state@, action@)], old(self).row(n@)[k]),
                    final(self).table()[old(self).entry(state@, action@)],
                ),
            next_state matches Some(n) ==> (V::obeys_partial_cmp_spec() ==> update.ensures(
                (old(self).table()[old(self).entry(state@, action@)], old(self).best_value(n@)),
                final(self).table()[old(self).entry(state@, action@)],
            )),
    {
        proof {
            assert(all_positive(self.actions()));
            self.lemma_entry_below(state@, action@);
        }
        let future = match next_state {
            Some(n) => self.max_q(n),
            None => zero,
        };
        let q = self.q_val(state, action);
        let value = update(q, future);
        self.set_q_val(state, action, value);
    }

    /// The greatest value of an action in `state`: the value of the greedy
    /// action.
    pub fn max_q(&self, state: &[usize]) -> (r: V)
        requires
            self.wf(),
            self.initialized(),
            within_bounds(state@, self.states()),
            all_positive(self.actions()),
        ensures
            exists|k: int| 0 <= k < self.row_len() && r == self.row(state@)[k],
            V::obeys_partial_cmp_spec() ==> r == self.best_value(state@),
    {
        proof {
            crate::space::lemma_radix_below_product(state@, self.states());
            lemma_product_positive(self.actions());
            let zeros = Seq::new(self.actions().len(), |i: int| 0usize);
            assert(within_bounds(zeros, self.actions()));
            self.lemma_entry_below(state@, zeros);
        }
        let best = self.best_index(state);
        let base = space_elem_as_int(state, self.state_space.as_slice()) * self.action_space_size;
        let r = self.q_table[base + best];
        assert(r == self.row(state@)[best as int]);
        r
    }

    /// The greedy action of every state, states in enumeration order (the
    /// last dimension varying fastest), each with its action's values.
    pub fn predict_all(&self) -> (r: Vec<(Vec<usize>, Vec<usize>)>)
        requires
            self.wf(),
            self.initialized(),
            all_positive(self.actions()),
        ensures
            r.len() == dims_product(self.states()),
            forall|i: int|
                #![trigger r[i]]
                0 <= i < r.len() ==> {
                    &&& within_bounds(r[i].0@, self.states())
                    &&& mixed_radix(r[i].0@, self.states()) == i
                    &&& within_bounds(r[i].1@, self.actions())
                    &&& V::obeys_partial_cmp_spec() ==> r[i].1@ == self.greedy_action(r[i].0@)
                },
    {
        let n = self.state_space_size;
        let mut all: Vec<(Vec<usize>, Vec<usize>)> = Vec::new();
        let mut i: usize = 0;
        while i < n
            invariant
                self.wf(),
                self.initialized(),
                all_positive(self.actions()),
                n == dims_product(self.states()),
                i <= n,
                all.len() == i,
                forall|j: int|
                    #![trigger all[j]]
                    0 <= j < i ==> {
                        &&& within_bounds(all[j].0@, self.states())
                        &&& mixed_radix(all[j].0@, self.states()) == j
                        &&& within_bounds(all[j].1@, self.actions())
                        &&& V::obeys_partial_cmp_spec() ==> all[j].1@ == self.greedy_action(
                            all[j].0@,
                        )
                    },
            decreases n - i,
        {
            proof {
                lemma_all_positive_when_nonzero(self.states());
            }
            let state = elem_of_index(self.state_space.as_slice(), i);
            let action = self.predict(state.as_slice());
            all.push((state, action));
            i = i + 1;
        }
        all
    }

    /// The fields of a well-formed agent, as the getters hand them out, meet
    /// `consistent_parts`: the condition under which `from_parts` succeeds and
    /// yields an agent with exactly those fields.
    pub proof fn lemma_parts_round_trip(a: QAgent<V>)
        requires
            a.wf(),
        ensures
            consistent_parts(
                a.table().len(),
                a.states(),
                a.spec_state_space_size(),
                a.actions(),
                a.spec_action_space_size(),
            ),
    {
    }

    /// Whether the sizes are the products of the dimensions and the table has
    /// one entry per pair.
    fn sizes_agree(
        table_len: usize,
        state_space: &[usize],
        state_space_size: usize,
        action_space: &[usize],
        action_space_size: usize,
    ) -> (r: bool)
        ensures
            r == (state_space_size == dims_product(state_space@) && action_space_size
                == dims_product(action_space@) && table_len == state_space_size
                * action_space_size),
    {
        let s = match space_size(state_space) {
            Some(s) => s,
            None => {
                return false;
            },
        };
        let a = match space_size(action_space) {
            Some(a) => a,
            None => {
                return false;
            },
        };
        if s != state_space_size || a != action_space_size {
            return false;
        }
        match s.checked_mul(a) {
            Some(n) => n == table_len,
            None => false,
        }
    }

    /// Rebuilds an agent from its stored fields, as when loading it. Fails
    /// unless the fields agree with each other.
    pub fn from_parts(
        q_table: Vec<V>,
        epsilon: V,
        alpha: V,
        gamma: V,
        state_space: Vec<usize>,
        state_space_size: usize,
        action_space: Vec<usize>,
        action_space_size: usize,
    ) -> (r: Option<QAgent<V>>)
        ensures
            r is Some <==> consistent_parts(
                q_table@.len(),
                state_space@,
                state_space_size,
                action_space@,
                action_space_size,
            ),
            r matches Some(a) ==> {
                &&& a.wf()
                &&& a.table() == q_table@
                &&& a.spec_epsilon() == epsilon
                &&& a.spec_alpha() == alpha
                &&& a.spec_gamma() == gamma
                &&& a.states() == state_space@
                &&& a.spec_state_space_size() == state_space_size
                &&& a.actions() == action_space@
                &&& a.spec_action_space_size() == action_space_size
            },
    {
        let fresh = state_space.len() == 0 && action_space.len() == 0 && state_space_size == 0
            && action_space_size == 0 && q_table.len() == 0;
        let ok = fresh || Self::sizes_agree(
            q_table.len(),
            state_space.as_slice(),
            state_space_size,
            action_space.as_slice(),
            action_space_size,
        );
        if ok {
            Some(
                QAgent {
                    q_table,
                    epsilon,
                    alpha,
                    gamma,
                    state_space,
                    state_space_size,
                    action_space,
                    action_space_size,
                },
            )
        } else {
            None
        }
    }

    /// Cuts the table into consecutive pieces of `state_space_size` entries
    /// each (the last one may be shorter).
    pub fn serialize_q_table(&self) -> (r: Vec<Vec<V>>)
        requires
            self.wf(),
            self.initialized(),
            self.spec_state_space_size() > 0,
        ensures
            r.len() == (self.table().len() as int) / (self.spec_state_space_size() as int) + (if (
            self.table().len() as int) % (self.spec_state_space_size() as int) == 0 {
                0int
            } else {
                1int
            }),
            forall|i: int|
                #![trigger r[i]]
                0 <= i < r.len() ==> r[i]@ == self.table().subrange(
                    i * self.spec_state_space_size(),
                    vstd::math::min(
                        (i + 1) * self.spec_state_space_size(),
                        self.table().len() as int,
                    ),
                ),
    {
        let width = self.state_space_size;
        let len = self.q_table.len();
        assert(len % width != 0 ==> len / width + 1 <= len) by (nonlinear_arith)
            requires
                width > 0,
        ;
        let n = len / width + if len % width == 0 {
            0
        } else {
            1
        };
        let mut chunks: Vec<Vec<V>> = Vec::new();
        let mut i: usize = 0;
        while i < n
            invariant
                width == self.spec_state_space_size(),
                width > 0,
                len == self.q_table.len(),
                n == len / width + if len % width == 0 {
                    0int
                } else {
                    1int
                },
                self.table() == self.q_table@,
                i <= n,
                chunks.len() == i,
                forall|j: int|
                    #![trigger chunks[j]]
                    0 <= j < i ==> chunks[j]@ == self.table().subrange(
                        j * width,
                        vstd::math::min((j + 1) * width, len as int),
                    ),
            decreases n - i,
        {
            assert(i * width < len) by (nonlinear_arith)
                requires
                    i < n,
                    width > 0,
                    n == len / width + if len % width == 0 {
                        0int
                    } else {
                        1int
                    },
            ;
            let start = i * width;
            let end = if len - start < width {
                len
            } else {
                start + width
            };
            assert((i + 1) * width == start + width) by (nonlinear_arith)
                requires
                    start == i * width,
            ;
            let mut chunk: Vec<V> = Vec::new();
            let mut k: usize = start;
            while k < end
                invariant
                    start <= k <= end <= len,
                    len == self.q_table.len(),
                    chunk@ == self.q_table@.subrange(start as int, k as int),
                decreases end - k,
            {
                chunk.push(self.q_table[k]);
                k = k + 1;
            }
            chunks.push(chunk);
            i = i + 1;
        }
        chunks
    }
}

/// A space of at least one point has no dimension without values.
pub proof fn lemma_all_positive_when_nonzero(dims: Seq<usize>)
    requires
        dims_product(dims) != 0,
    ensures
        all_positive(dims),
{
    if !all_positive(dims) {
        let j = choose|j: int| 0 <= j < dims.len() && !(dims[j] > 0);
        crate::space::lemma_product_zero(dims, j);
    }
}

/// A space whose dimensions all have values has at least one point.
pub proof fn lemma_product_positive(dims: Seq<usize>)
    requires
        all_positive(dims),
    ensures
        dims_product(dims) >= 1,
    decreases dims.len(),
{
    if dims.len() > 0 {
        let rest = dims.drop_last();
        assert(all_positive(rest));
        lemma_product_positive(rest);
        let p = dims_product(rest);
        let d = dims.last() as nat;
        assert(p * d >= 1) by (nonlinear_arith)
            requires
                p >= 1,
                d >= 1,
        ;
    }
}

} // verus!
