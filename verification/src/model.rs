//! Mathematical model of a circular delay line.
//!
//! Both the circular sample buffer and the offset delay line are abstractions
//! over the same ring: a fixed storage sequence, a cursor that advances once
//! per processed sample, and a delay that separates the write position from
//! the read position. This module defines that model, the step relation of a
//! single `read at cursor, write at cursor + delay, advance` call, and the
//! lemmas that characterise the outputs of a whole run of such calls.

use vstd::prelude::*;

verus! {

use vstd::arithmetic::div_mod::lemma_fundamental_div_mod;
use vstd::arithmetic::div_mod::lemma_fundamental_div_mod_converse;
use vstd::arithmetic::div_mod::lemma_mod_bound;

/// The state of one delay line: ring storage, the cursor the next call reads
/// at, the delay separating the write position from the cursor, and the value
/// that read slots are reset to.
pub ghost struct LineModel<T> {
    pub storage: Seq<T>,
    pub position: int,
    pub delay: int,
    pub fill: T,
}

impl<T> LineModel<T> {
    /// Number of slots in the ring.
    pub open spec fn capacity(self) -> int {
        self.storage.len() as int
    }

    /// A valid line has at least one slot, a cursor inside the ring, and a
    /// delay of at most one full turn of the ring.
    pub open spec fn wf(self) -> bool {
        &&& 1 <= self.capacity()
        &&& 0 <= self.position < self.capacity()
        &&& 0 <= self.delay <= self.capacity()
    }

    /// The slot the next call writes to.
    pub open spec fn write_pos(self) -> int {
        (self.position + self.delay) % self.capacity()
    }

    /// The value the next call returns: the sample stored at the cursor.
    pub open spec fn step_out(self) -> T {
        self.storage[self.position]
    }

    /// The state after one call: the read slot is reset to `fill`, `value` is
    /// written `delay` slots ahead of the cursor, and the cursor advances by
    /// one modulo the capacity. When the write position coincides with the
    /// read position (a delay of zero or of one full turn), the write wins.
    pub open spec fn step(self, value: T) -> LineModel<T> {
        LineModel {
            storage: self.storage.update(self.position, self.fill).update(self.write_pos(), value),
            position: (self.position + 1) % self.capacity(),
            delay: self.delay,
            fill: self.fill,
        }
    }

    /// The live samples in oldest-to-newest order, starting at the cursor.
    pub open spec fn window(self) -> Seq<T> {
        self.storage.subrange(self.position, self.capacity())
            + self.storage.subrange(0, self.position)
    }

    /// Every slot holds the fill value, as after construction.
    pub open spec fn is_silent(self) -> bool {
        forall|i: int| 0 <= i < self.capacity() ==> self.storage[i] == self.fill
    }
}

/// The state after feeding each value of `inputs` through one call, in order.
pub open spec fn run_state<T>(m: LineModel<T>, inputs: Seq<T>) -> LineModel<T>
    decreases inputs.len(),
{
    if inputs.len() == 0 {
        m
    } else {
        run_state(m.step(inputs[0]), inputs.drop_first())
    }
}

/// The values returned by feeding each value of `inputs` through one call.
pub open spec fn run_outputs<T>(m: LineModel<T>, inputs: Seq<T>) -> Seq<T>
    decreases inputs.len(),
{
    if inputs.len() == 0 {
        Seq::empty()
    } else {
        seq![m.step_out()] + run_outputs(m.step(inputs[0]), inputs.drop_first())
    }
}

/// For a modulus of one ring turn, `%` either keeps a value or shifts it back
/// by exactly one turn.
pub proof fn lemma_mod_in_window(x: int, m: int)
    requires
        1 <= m,
        0 <= x < 2 * m,
    ensures
        x % m == if x < m { x } else { x - m },
{
    if x < m {
        lemma_fundamental_div_mod_converse(x, m, 0, x);
    } else {
        lemma_fundamental_div_mod_converse(x, m, 1, x - m);
    }
}

/// Stepping a cursor by one: the remainder either grows by one or wraps to
/// the start of the ring.
pub proof fn lemma_mod_advance(x: int, m: int)
    requires
        1 <= m,
        0 <= x,
    ensures
        (x + 1) % m == if x % m + 1 < m {
            x % m + 1
        } else {
            0
        },
{
    let q = x / m;
    let r = x % m;
    lemma_mod_bound(x, m);
    lemma_fundamental_div_mod(x, m);
    assert(m * q == q * m) by (nonlinear_arith);
    assert((q + 1) * m == q * m + m) by (nonlinear_arith);
    if r + 1 < m {
        lemma_fundamental_div_mod_converse(x + 1, m, q, r + 1);
    } else {
        lemma_fundamental_div_mod_converse(x + 1, m, q + 1, 0);
    }
}

/// One call preserves well-formedness and everything but storage and cursor.
pub proof fn lemma_step_wf<T>(m: LineModel<T>, value: T)
    requires
        m.wf(),
    ensures
        m.step(value).wf(),
        m.step(value).capacity() == m.capacity(),
        m.step(value).delay == m.delay,
        m.step(value).fill == m.fill,
{
    lemma_mod_in_window(m.position + 1, m.capacity());
}

/// Extending a run by one input appends one step to its state and one value
/// to its outputs.
pub proof fn lemma_run_push<T>(m: LineModel<T>, inputs: Seq<T>, value: T)
    ensures
        run_state(m, inputs.push(value)) == run_state(m, inputs).step(value),
        run_outputs(m, inputs.push(value))
            == run_outputs(m, inputs).push(run_state(m, inputs).step_out()),
    decreases inputs.len(),
{
    if inputs.len() == 0 {
        assert(inputs.push(value)[0] == value);
        assert(inputs.push(value).drop_first() =~= Seq::<T>::empty());
        assert(run_state(m, inputs.push(value)) == run_state(m.step(value), Seq::<T>::empty()));
        assert(run_outputs(m, inputs.push(value))
            == seq![m.step_out()] + run_outputs(m.step(value), Seq::<T>::empty()));
        assert(seq![m.step_out()] + Seq::<T>::empty()
            =~= run_outputs(m, inputs).push(run_state(m, inputs).step_out()));
    } else {
        assert(inputs.push(value)[0] == inputs[0]);
        assert(inputs.push(value).drop_first() =~= inputs.drop_first().push(value));
        let m1 = m.step(inputs[0]);
        lemma_run_push(m1, inputs.drop_first(), value);
        assert(run_outputs(m, inputs.push(value))
            =~= run_outputs(m, inputs).push(run_state(m, inputs).step_out()));
    }
}

/// What a run returns, call by call: the first `delay` calls drain the
/// samples that were already ahead of the cursor, and from then on call `j`
/// returns the input of call `j - delay`. This is the heart of the delay
/// line: a sample goes in on one call and comes back out exactly `delay`
/// calls later.
pub proof fn lemma_run_outputs<T>(m: LineModel<T>, inputs: Seq<T>)
    requires
        m.wf(),
        1 <= m.delay,
    ensures
        run_outputs(m, inputs).len() == inputs.len(),
        forall|j: int|
            0 <= j < inputs.len() ==> #[trigger] run_outputs(m, inputs)[j] == (if j < m.delay {
                m.storage[(m.position + j) % m.capacity()]
            } else {
                inputs[j - m.delay]
            }),
    decreases inputs.len(),
{
    let cap = m.capacity();
    let p = m.position;
    let d = m.delay;
    if inputs.len() > 0 {
        let m1 = m.step(inputs[0]);
        let tail = inputs.drop_first();
        lemma_step_wf(m, inputs[0]);
        lemma_run_outputs(m1, tail);
        lemma_mod_in_window(p + 1, cap);
        lemma_mod_in_window(p + d, cap);
        assert forall|j: int| 0 <= j < inputs.len() implies #[trigger] run_outputs(m, inputs)[j]
            == (if j < d {
                m.storage[(p + j) % cap]
            } else {
                inputs[j - d]
            }) by {
            if j == 0 {
                lemma_mod_in_window(p, cap);
                assert(run_outputs(m, inputs)[0] == m.step_out());
            } else {
                assert(run_outputs(m, inputs)[j] == run_outputs(m1, tail)[j - 1]);
                if j < d {
                    lemma_mod_in_window(p + j, cap);
                    lemma_mod_in_window(m1.position + (j - 1), cap);
                    assert((m1.position + (j - 1)) % cap == (p + j) % cap);
                    assert((p + j) % cap != p);
                    assert((p + j) % cap != m.write_pos());
                    assert(run_outputs(m1, tail)[j - 1] == m.storage[(p + j) % cap]);
                } else if j == d {
                    lemma_mod_in_window(p + j, cap);
                    lemma_mod_in_window(m1.position + (j - 1), cap);
                    assert((m1.position + (j - 1)) % cap == (p + d) % cap);
                    assert(run_outputs(m1, tail)[j - 1] == inputs[0]);
                } else {
                    assert(run_outputs(m1, tail)[j - 1] == tail[j - 1 - d]);
                    assert(tail[j - 1 - d] == inputs[j - d]);
                }
            }
        }
    }
}

/// Index into the oldest-to-newest window, expressed over the raw storage.
pub proof fn lemma_window_index<T>(m: LineModel<T>, k: int)
    requires
        m.wf(),
        0 <= k < m.capacity(),
    ensures
        m.window().len() == m.capacity(),
        m.window()[k] == m.storage[(m.position + k) % m.capacity()],
{
    lemma_mod_in_window(m.position + k, m.capacity());
}

/// The contents after a rebuild to `new_capacity` slots: the live window,
/// oldest first, truncated oldest-first when the ring shrinks, padded with
/// `fill` when it grows; the cursor returns to the start and the delay is the
/// new capacity (a rebuilt ring delays by one full turn).
pub open spec fn resize_spec<T>(m: LineModel<T>, new_capacity: int, fill: T) -> LineModel<T> {
    let storage = if new_capacity <= m.capacity() {
        m.window().subrange(m.capacity() - new_capacity, m.capacity())
    } else {
        m.window() + Seq::new((new_capacity - m.capacity()) as nat, |i: int| fill)
    };
    LineModel { storage, position: 0, delay: new_capacity, fill }
}

/// A resize yields a well-formed line of the new capacity.
pub proof fn lemma_resize_wf<T>(m: LineModel<T>, new_capacity: int, fill: T)
    requires
        m.wf(),
        1 <= new_capacity,
    ensures
        resize_spec(m, new_capacity, fill).wf(),
        resize_spec(m, new_capacity, fill).capacity() == new_capacity,
        resize_spec(m, new_capacity, fill).delay == new_capacity,
        resize_spec(m, new_capacity, fill).position == 0,
        resize_spec(m, new_capacity, fill).fill == fill,
{
}

} // verus!
