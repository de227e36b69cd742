//! The temporal laws of the delay lines.
//!
//! Each law quantifies over whole runs — every start state a valid line can
//! be in, every sequence of samples fed through it — and is proved from the
//! run characterisation of the model, so the single-call contracts of the
//! executable types carry exactly this call-by-call behaviour.

use vstd::prelude::*;

verus! {

use vstd::arithmetic::div_mod::lemma_mod_bound;
use crate::model::LineModel;
use crate::model::lemma_mod_in_window;
use crate::model::lemma_resize_wf;
use crate::model::lemma_run_outputs;
use crate::model::lemma_window_index;
use crate::model::resize_spec;
use crate::model::run_outputs;

/// Ring invariant: in a ring whose delay is its capacity — the circular
/// sample buffer under `push_pop` — once `capacity` calls have gone by, each
/// call returns exactly the value pushed `capacity` calls earlier, from any
/// starting state, for any sequence of calls.
pub proof fn lemma_ring_invariant<T>(m: LineModel<T>, inputs: Seq<T>)
    requires
        m.wf(),
        m.delay == m.capacity(),
    ensures
        run_outputs(m, inputs).len() == inputs.len(),
        forall|j: int|
            m.capacity() <= j < inputs.len() ==> #[trigger] run_outputs(m, inputs)[j] == inputs[j
                - m.capacity()],
{
    lemma_run_outputs(m, inputs);
}

/// Reallocating-strategy delay property: a silent buffer of capacity `N`
/// returns, on call `k` with `k >= N`, exactly the value pushed on call
/// `k - N`, and on every earlier call the initial fill value — the delay
/// has simply not elapsed yet.
pub proof fn lemma_reallocating_delay<T>(m: LineModel<T>, inputs: Seq<T>)
    requires
        m.wf(),
        m.delay == m.capacity(),
        m.is_silent(),
    ensures
        run_outputs(m, inputs).len() == inputs.len(),
        forall|j: int|
            0 <= j < inputs.len() ==> #[trigger] run_outputs(m, inputs)[j] == (if j < m.capacity() {
                m.fill
            } else {
                inputs[j - m.capacity()]
            }),
{
    lemma_run_outputs(m, inputs);
    assert forall|j: int| 0 <= j < inputs.len() && j < m.capacity() implies #[trigger] run_outputs(
        m,
        inputs,
    )[j] == m.fill by {
        lemma_mod_bound(m.position + j, m.capacity());
    }
}

/// Offset-strategy decoupling: with a fixed offset `d` of at least one
/// sample, the sample written at call `k` comes back at call `k + d`, from
/// any starting state — in particular right after the offset was moved. A
/// call before the delay has elapsed returns only what its slot already
/// held, never an input newer than `d` calls; on a silent line that is the
/// fill value.
pub proof fn lemma_offset_decoupling<T>(m: LineModel<T>, inputs: Seq<T>)
    requires
        m.wf(),
        1 <= m.delay,
    ensures
        run_outputs(m, inputs).len() == inputs.len(),
        forall|k: int|
            0 <= k && k + m.delay < inputs.len() ==> #[trigger] run_outputs(m, inputs)[k + m.delay]
                == inputs[k],
        forall|j: int|
            0 <= j < inputs.len() && j < m.delay ==> #[trigger] run_outputs(m, inputs)[j]
                == m.storage[(m.position + j) % m.capacity()],
        m.is_silent() ==> forall|j: int|
            0 <= j < inputs.len() && j < m.delay ==> #[trigger] run_outputs(m, inputs)[j] == m.fill,
{
    lemma_run_outputs(m, inputs);
    if m.is_silent() {
        assert forall|j: int| 0 <= j < inputs.len() && j < m.delay implies #[trigger] run_outputs(
            m,
            inputs,
        )[j] == m.fill by {
            lemma_mod_bound(m.position + j, m.capacity());
        }
    }
}

/// Growing a ring does not corrupt the buffered samples: after a resize to
/// a capacity at least as large, the first `capacity` reads return exactly
/// what reads on the unresized ring would have returned, in the same order
/// — whatever is pushed in either case, since reads before one full turn
/// only drain what is already buffered.
pub proof fn lemma_resize_preserves_reads<T>(
    m: LineModel<T>,
    new_capacity: int,
    fill: T,
    before: Seq<T>,
    after: Seq<T>,
)
    requires
        m.wf(),
        m.delay == m.capacity(),
        m.capacity() <= new_capacity,
    ensures
        forall|j: int|
            0 <= j < m.capacity() && j < before.len() && j < after.len() ==> #[trigger] run_outputs(
                resize_spec(m, new_capacity, fill),
                after,
            )[j] == run_outputs(m, before)[j],
{
    let m2 = resize_spec(m, new_capacity, fill);
    lemma_resize_wf(m, new_capacity, fill);
    lemma_run_outputs(m, before);
    lemma_run_outputs(m2, after);
    assert forall|j: int|
        0 <= j < m.capacity() && j < before.len() && j
            < after.len() implies #[trigger] run_outputs(m2, after)[j] == run_outputs(m, before)[j]
        by {
        lemma_mod_in_window(j, new_capacity);
        lemma_window_index(m, j);
        if new_capacity == m.capacity() {
            assert(m2.storage =~= m.window());
        }
        assert(m2.storage[j] == m.window()[j]);
        lemma_mod_in_window(m.position + j, m.capacity());
    }
}

/// Dry/delayed mix, delay side: when everything the line has ever seen is
/// silence — a silent start and silent input — every delayed sample is the
/// fill value, so mixing dry plus delayed leaves the input untouched.
pub proof fn lemma_silent_history<T>(m: LineModel<T>, inputs: Seq<T>)
    requires
        m.wf(),
        1 <= m.delay,
        m.is_silent(),
        forall|i: int| 0 <= i < inputs.len() ==> inputs[i] == m.fill,
    ensures
        run_outputs(m, inputs).len() == inputs.len(),
        forall|j: int| 0 <= j < inputs.len() ==> #[trigger] run_outputs(m, inputs)[j] == m.fill,
{
    lemma_run_outputs(m, inputs);
    assert forall|j: int| 0 <= j < inputs.len() implies #[trigger] run_outputs(m, inputs)[j]
        == m.fill by {
        lemma_mod_bound(m.position + j, m.capacity());
    }
}

} // verus!
