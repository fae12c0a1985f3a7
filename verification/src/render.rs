//! One render pass over the audio graph.
//!
//! Audio is pulled from the master node. A node's buffer starts out
//! silent, the output of each node that feeds into it is added once,
//! and then the node itself works on the buffer. Whatever feeds more
//! than one node is still rendered once per pass: its output is kept
//! and handed to every consumer.

use vstd::prelude::*;

use crate::audioformat::{Frame, OpsExt};
use crate::processing::{silent, Node};
use crate::topology::{has_edge, lemma_upstream_step, ranked_by, upstream};

verus! {

/// The distinct nodes with an edge into `node`, in the order in which
/// their first such edge was added.
pub open spec fn inputs_of(edges: Seq<(int, int)>, node: int) -> Seq<int>
    decreases edges.len(),
{
    if edges.len() == 0 {
        Seq::empty()
    } else {
        let earlier = inputs_of(edges.drop_last(), node);
        if edges.last().1 == node && !earlier.contains(edges.last().0) {
            earlier.push(edges.last().0)
        } else {
            earlier
        }
    }
}

/// The frame-wise sum of two buffers.
pub open spec fn summed<F: OpsExt>(a: Seq<F>, b: Seq<F>) -> Seq<F> {
    Seq::new(a.len(), |j: int| a[j].add_spec(b[j]))
}

/// The mix that a node with the given inputs is handed: silence, to
/// which the output of each input is added in turn.
pub open spec fn mixed<F: OpsExt>(outs: spec_fn(int) -> Seq<F>, inputs: Seq<int>, len: nat) -> Seq<F>
    decreases inputs.len(),
{
    if inputs.len() == 0 {
        silent(len)
    } else {
        summed(mixed(outs, inputs.drop_last(), len), outs(inputs.last()))
    }
}

/// The inputs of a node are exactly the nodes with an edge into it.
pub proof fn lemma_inputs_of(edges: Seq<(int, int)>, node: int, src: int)
    ensures
        inputs_of(edges, node).contains(src) <==> has_edge(edges, src, node),
    decreases edges.len(),
{
    if edges.len() > 0 {
        let shorter = edges.drop_last();
        let earlier = inputs_of(shorter, node);
        lemma_inputs_of(shorter, node, src);
        lemma_inputs_of(shorter, node, edges.last().0);
        if has_edge(edges, src, node) {
            let k = choose|k: int| 0 <= k < edges.len() && #[trigger] edges[k] == (src, node);
            if k < shorter.len() {
                assert(shorter[k] == (src, node));
                assert(earlier.contains(src));
            }
            if edges.last().1 == node && !earlier.contains(edges.last().0) {
                if k < shorter.len() {
                    let at = choose|at: int| 0 <= at < earlier.len() && earlier[at] == src;
                    assert(earlier.push(edges.last().0)[at] == src);
                } else {
                    assert(earlier.push(src).last() == src);
                }
            }
        }
        if inputs_of(edges, node).contains(src) {
            if earlier.contains(src) {
                let k = choose|k: int| 0 <= k < shorter.len() && #[trigger] shorter[k] == (src, node);
                assert(edges[k] == (src, node));
            } else {
                let at = choose|at: int| 0 <= at < inputs_of(edges, node).len() && inputs_of(edges, node)[at] == src;
                assert(at == earlier.len());
                assert(edges[edges.len() - 1] == (src, node));
            }
        }
    }
}

/// A mix has the length that was asked for, whatever the inputs are.
pub proof fn lemma_mixed_len<F: OpsExt>(outs: spec_fn(int) -> Seq<F>, inputs: Seq<int>, len: nat)
    ensures
        mixed(outs, inputs, len).len() == len,
    decreases inputs.len(),
{
    if inputs.len() > 0 {
        lemma_mixed_len(outs, inputs.drop_last(), len);
    }
}

/// A mix depends on the outputs of the inputs alone.
pub proof fn lemma_mixed_agree<F: OpsExt>(
    one: spec_fn(int) -> Seq<F>,
    other: spec_fn(int) -> Seq<F>,
    inputs: Seq<int>,
    len: nat,
)
    requires
        forall|k: int| 0 <= k < inputs.len() ==> one(#[trigger] inputs[k]) == other(inputs[k]),
    ensures
        mixed(one, inputs, len) == mixed(other, inputs, len),
    decreases inputs.len(),
{
    if inputs.len() > 0 {
        let shorter = inputs.drop_last();
        assert forall|k: int| 0 <= k < shorter.len() implies one(#[trigger] shorter[k]) == other(shorter[k]) by {
            assert(shorter[k] == inputs[k]);
        }
        lemma_mixed_agree(one, other, shorter, len);
        assert(one(inputs[inputs.len() - 1]) == other(inputs[inputs.len() - 1]));
    }
}

/// The edges of a list as pairs of mathematical integers.
pub open spec fn edge_pairs(list: Seq<(usize, usize)>) -> Seq<(int, int)> {
    Seq::new(list.len(), |k: int| (list[k].0 as int, list[k].1 as int))
}

/// The indices of a list as mathematical integers.
pub open spec fn indices(list: Seq<usize>) -> Seq<int> {
    Seq::new(list.len(), |k: int| list[k] as int)
}

/// The output that is kept for node `i`.
pub open spec fn is_cached<F>(cache: Seq<Option<Vec<F>>>, i: int) -> bool {
    0 <= i < cache.len() && cache[i] is Some
}

/// The outputs that are kept so far, node by node; nothing where none
/// is kept.
pub open spec fn outs_of<F>(cache: Seq<Option<Vec<F>>>) -> spec_fn(int) -> Seq<F> {
    |i: int|
        if is_cached(cache, i) {
            cache[i]->0@
        } else {
            Seq::empty()
        }
}

/// The output of every input of node `i` is kept.
pub open spec fn inputs_cached<F>(cache: Seq<Option<Vec<F>>>, edges: Seq<(int, int)>, i: int) -> bool {
    forall|k: int| 0 <= k < inputs_of(edges, i).len() ==> is_cached(cache, #[trigger] inputs_of(edges, i)[k])
}

/// What a slot does with the mix it is handed: a free slot passes it on
/// and stays as it is, a node works on it.
pub open spec fn slot_rendered<F: Frame, N: Node<F>>(
    before: N,
    free: bool,
    input: Seq<F>,
    after: N,
    output: Seq<F>,
) -> bool {
    if free {
        after == before && output == input
    } else {
        before.renders(input, &after, output)
    }
}

/// Slot `i` is either untouched, or was rendered once from the kept
/// outputs of its inputs, and its own output is kept.
pub open spec fn slot_ok<F: OpsExt, N: Node<F>>(
    before: Seq<N>,
    free: Seq<bool>,
    now: Seq<N>,
    edges: Seq<(int, int)>,
    cache: Seq<Option<Vec<F>>>,
    len: nat,
    i: int,
) -> bool {
    match cache[i] {
        None => now[i] == before[i],
        Some(out) => {
            &&& out@.len() == len
            &&& inputs_cached(cache, edges, i)
            &&& slot_rendered(before[i], free[i], mixed(outs_of(cache), inputs_of(edges, i), len), now[i], out@)
        },
    }
}

/// The state in the middle of a render pass: each slot is untouched or
/// rendered once.
pub open spec fn consistent<F: OpsExt, N: Node<F>>(
    before: Seq<N>,
    free: Seq<bool>,
    now: Seq<N>,
    edges: Seq<(int, int)>,
    cache: Seq<Option<Vec<F>>>,
    len: nat,
) -> bool {
    &&& now.len() == before.len()
    &&& free.len() == before.len()
    &&& cache.len() == before.len()
    &&& forall|i: int| 0 <= i < before.len() ==> #[trigger] slot_ok(before, free, now, edges, cache, len, i)
}

fn contains_index(list: &Vec<usize>, index: usize) -> (found: bool)
    ensures
        found == indices(list@).contains(index as int),
{
    let mut k: usize = 0;
    while k < list.len()
        invariant
            k <= list@.len(),
            forall|j: int| 0 <= j < k ==> indices(list@)[j] != index as int,
        decreases list@.len() - k,
    {
        if list[k] == index {
            assert(indices(list@)[k as int] == index as int);
            return true;
        }
        k += 1;
    }
    false
}

/// The distinct nodes with an edge into `node`, in the order of their
/// first such edge.
pub(crate) fn collect_inputs(edges: &Vec<(usize, usize)>, node: usize) -> (inputs: Vec<usize>)
    ensures
        indices(inputs@) == inputs_of(edge_pairs(edges@), node as int),
{
    let ghost pairs = edge_pairs(edges@);
    let mut inputs: Vec<usize> = Vec::new();
    let mut k: usize = 0;
    assert(pairs.take(0) =~= Seq::<(int, int)>::empty());
    assert(indices(inputs@) =~= Seq::<int>::empty());
    while k < edges.len()
        invariant
            k <= edges@.len(),
            pairs == edge_pairs(edges@),
            indices(inputs@) == inputs_of(pairs.take(k as int), node as int),
        decreases edges@.len() - k,
    {
        let edge = edges[k];
        let ghost earlier = indices(inputs@);
        proof {
            let now = pairs.take(k + 1);
            assert(now.drop_last() =~= pairs.take(k as int));
            assert(now.last() == (edge.0 as int, edge.1 as int));
        }
        if edge.1 == node && !contains_index(&inputs, edge.0) {
            inputs.push(edge.0);
            assert(indices(inputs@) =~= earlier.push(edge.0 as int));
        }
        k += 1;
    }
    assert(pairs.take(edges@.len() as int) =~= pairs);
    inputs
}

/// A buffer of `len` silent frames.
pub(crate) fn silent_buffer<F: Frame>(len: usize) -> (buffer: Vec<F>)
    ensures
        buffer@ == silent::<F>(len as nat),
{
    let mut buffer: Vec<F> = Vec::new();
    let mut j: usize = 0;
    while j < len
        invariant
            j <= len,
            buffer@.len() == j,
            forall|i: int| 0 <= i < j ==> buffer@[i] == F::equilibrium_spec(),
        decreases len - j,
    {
        buffer.push(F::equilibrium());
        j += 1;
    }
    assert(buffer@ =~= silent::<F>(len as nat));
    buffer
}

/// Mixes the kept outputs of the given inputs, in their order.
fn mix_inputs<F: OpsExt>(cache: &Vec<Option<Vec<F>>>, inputs: &Vec<usize>, len: usize) -> (buffer: Vec<F>)
    requires
        forall|k: int|
            0 <= k < inputs@.len() ==> is_cached(cache@, #[trigger] inputs@[k] as int)
                && cache@[inputs@[k] as int]->0@.len() == len,
    ensures
        buffer@ == mixed(outs_of(cache@), indices(inputs@), len as nat),
{
    let ghost outs = outs_of(cache@);
    let ghost all = indices(inputs@);
    let mut buffer: Vec<F> = silent_buffer(len);
    let mut k: usize = 0;
    assert(all.take(0) =~= Seq::<int>::empty());
    while k < inputs.len()
        invariant
            k <= inputs@.len(),
            all == indices(inputs@),
            outs == outs_of(cache@),
            buffer@.len() == len,
            buffer@ == mixed(outs, all.take(k as int), len as nat),
            forall|k: int|
                0 <= k < inputs@.len() ==> is_cached(cache@, #[trigger] inputs@[k] as int)
                    && cache@[inputs@[k] as int]->0@.len() == len,
        decreases inputs@.len() - k,
    {
        let input = inputs[k];
        assert(is_cached(cache@, inputs@[k as int] as int));
        let ghost base = buffer@;
        match &cache[input] {
            Some(frames) => {
                let mut j: usize = 0;
                while j < len
                    invariant
                        j <= len,
                        buffer@.len() == len,
                        base.len() == len,
                        frames@.len() == len,
                        forall|i: int| 0 <= i < j ==> buffer@[i] == base[i].add_spec(frames@[i]),
                        forall|i: int| j <= i < len ==> buffer@[i] == base[i],
                    decreases len - j,
                {
                    let sum = buffer[j].add(frames[j]);
                    buffer[j] = sum;
                    j += 1;
                }
                proof {
                    let now = all.take(k + 1);
                    assert(now.drop_last() =~= all.take(k as int));
                    assert(now.last() == input as int);
                    assert(outs(input as int) == frames@);
                    assert(buffer@ =~= summed(base, frames@));
                }
            },
            None => {},
        }
        k += 1;
    }
    assert(all.take(inputs@.len() as int) =~= all);
    buffer
}

/// Renders the node at `index`, after whatever feeds into it, unless
/// its output is kept already. Every slot is rendered at most once:
/// what is kept is never rendered again.
pub(crate) fn render_node<F: OpsExt, N: Node<F>>(
    slots: &mut Vec<N>,
    free: &Vec<bool>,
    edges: &Vec<(usize, usize)>,
    cache: &mut Vec<Option<Vec<F>>>,
    index: usize,
    len: usize,
    sample_hz: u32,
    Ghost(before): Ghost<Seq<N>>,
    Ghost(rank): Ghost<spec_fn(int) -> nat>,
)
    requires
        index < old(slots)@.len(),
        forall|k: int|
            0 <= k < edges@.len() ==> (#[trigger] edges@[k]).0 < old(slots)@.len() && edges@[k].1 < old(slots)@.len(),
        ranked_by(edge_pairs(edges@), rank),
        consistent(before, free@, old(slots)@, edge_pairs(edges@), old(cache)@, len as nat),
    ensures
        consistent(before, free@, final(slots)@, edge_pairs(edges@), final(cache)@, len as nat),
        is_cached(final(cache)@, index as int),
        forall|i: int| is_cached(old(cache)@, i) ==> final(cache)@[i] == old(cache)@[i],
        forall|i: int|
            is_cached(final(cache)@, i) && !is_cached(old(cache)@, i)
                ==> upstream(edge_pairs(edges@), i, index as int),
    decreases rank(index as int),
{
    let ghost pairs = edge_pairs(edges@);
    if cache[index].is_some() {
        return;
    }
    let inputs = collect_inputs(edges, index);
    let ghost ins = inputs_of(pairs, index as int);
    proof {
        assert forall|k: int| 0 <= k < ins.len() implies has_edge(pairs, #[trigger] ins[k], index as int) by {
            lemma_inputs_of(pairs, index as int, ins[k]);
        }
    }
    let mut k: usize = 0;
    while k < inputs.len()
        invariant
            k <= inputs@.len(),
            pairs == edge_pairs(edges@),
            ins == inputs_of(pairs, index as int),
            indices(inputs@) == ins,
            forall|k: int| 0 <= k < ins.len() ==> has_edge(pairs, #[trigger] ins[k], index as int),
            slots@.len() == old(slots)@.len(),
            index < slots@.len(),
            forall|k: int|
                0 <= k < edges@.len() ==> (#[trigger] edges@[k]).0 < slots@.len() && edges@[k].1 < slots@.len(),
            ranked_by(pairs, rank),
            consistent(before, free@, slots@, pairs, cache@, len as nat),
            !is_cached(cache@, index as int),
            cache@.len() == old(cache)@.len(),
            forall|j: int| 0 <= j < k ==> is_cached(cache@, #[trigger] ins[j]),
            forall|i: int| is_cached(old(cache)@, i) ==> cache@[i] == old(cache)@[i],
            forall|i: int| is_cached(cache@, i) && !is_cached(old(cache)@, i) ==> upstream(pairs, i, index as int),
        decreases inputs@.len() - k,
    {
        let src = inputs[k];
        let ghost kept = cache@;
        proof {
            assert(ins[k as int] == src as int);
            assert(has_edge(pairs, src as int, index as int));
            let e = choose|e: int| 0 <= e < pairs.len() && #[trigger] pairs[e] == (src as int, index as int);
            assert(edges@[e].0 == src);
            assert(rank(pairs[e].0) < rank(pairs[e].1));
        }
        render_node(slots, free, edges, cache, src, len, sample_hz, Ghost(before), Ghost(rank));
        proof {
            assert forall|i: int| is_cached(cache@, i) && !is_cached(old(cache)@, i) implies
                upstream(pairs, i, index as int) by {
                if !is_cached(kept, i) {
                    lemma_upstream_step(pairs, i, src as int, index as int);
                }
            }
            if is_cached(cache@, index as int) {
                crate::topology::lemma_upstream_rank(pairs, rank, index as int, src as int);
            }
            assert forall|i: int| is_cached(old(cache)@, i) implies cache@[i] == old(cache)@[i] by {
                assert(kept[i] == old(cache)@[i]);
                assert(is_cached(kept, i));
            }
            assert forall|j: int| 0 <= j < k + 1 implies is_cached(cache@, #[trigger] ins[j]) by {
                if j < k {
                    assert(is_cached(kept, ins[j]));
                }
            }
        }
        k += 1;
    }
    let ghost kept = cache@;
    let ghost slots_before = slots@;
    proof {
        assert forall|k: int| 0 <= k < inputs@.len() implies
            is_cached(kept, #[trigger] inputs@[k] as int) && kept[inputs@[k] as int]->0@.len() == len by {
            assert(ins[k] == inputs@[k] as int);
            assert(is_cached(kept, ins[k]));
            assert(slot_ok(before, free@, slots@, pairs, kept, len as nat, ins[k]));
        }
        assert(slot_ok(before, free@, slots@, pairs, kept, len as nat, index as int));
        lemma_mixed_len(outs_of(kept), ins, len as nat);
    }
    let mut buffer = mix_inputs(cache, &inputs, len);
    let ghost input = buffer@;
    if !free[index] {
        slots[index].audio_requested(buffer.as_mut_slice(), sample_hz);
    }
    let ghost output = buffer@;
    cache[index] = Some(buffer);
    proof {
        let done = cache@;
        assert(done[index as int]->0@ == output);
        crate::topology::lemma_upstream_refl(pairs, index as int);
        assert forall|i: int| is_cached(old(cache)@, i) implies done[i] == old(cache)@[i] by {
            assert(kept[i] == old(cache)@[i]);
        }
        assert forall|i: int| 0 <= i < before.len() implies
            #[trigger] slot_ok(before, free@, slots@, pairs, done, len as nat, i) by {
            assert(slot_ok(before, free@, slots_before, pairs, kept, len as nat, i));
            if i == index {
                assert forall|k: int| 0 <= k < ins.len() implies is_cached(done, #[trigger] ins[k]) by {
                    assert(is_cached(kept, ins[k]));
                }
                assert forall|k: int| 0 <= k < ins.len() implies
                    outs_of(kept)(#[trigger] ins[k]) == outs_of(done)(ins[k]) by {
                    assert(is_cached(kept, ins[k]));
                }
                lemma_mixed_agree(outs_of(kept), outs_of(done), ins, len as nat);
            } else {
                assert(done[i] == kept[i]);
                assert(slots@[i] == slots_before[i]);
                if kept[i] is Some {
                    let theirs = inputs_of(pairs, i);
                    assert forall|k: int| 0 <= k < theirs.len() implies
                        is_cached(done, #[trigger] theirs[k]) && outs_of(kept)(theirs[k])
                            == outs_of(done)(theirs[k]) by {
                        assert(is_cached(kept, theirs[k]));
                    }
                    lemma_mixed_agree(outs_of(kept), outs_of(done), theirs, len as nat);
                }
            }
        }
    }
}

/// Once the output of a node is kept, so is the output of everything
/// upstream of it, provided that nothing is kept before its inputs are.
pub proof fn lemma_cached_upstream<F>(cache: Seq<Option<Vec<F>>>, edges: Seq<(int, int)>, path: Seq<int>, j: int)
    requires
        crate::topology::is_path(edges, path),
        0 <= j < path.len(),
        is_cached(cache, path.last()),
        forall|x: int| is_cached(cache, x) ==> inputs_cached(cache, edges, x),
    ensures
        is_cached(cache, path[j]),
    decreases path.len() - j,
{
    if j < path.len() - 1 {
        lemma_cached_upstream(cache, edges, path, j + 1);
        assert(has_edge(edges, path[j], path[j + 1]));
        lemma_inputs_of(edges, path[j + 1], path[j]);
        let theirs = inputs_of(edges, path[j + 1]);
        let at = choose|at: int| 0 <= at < theirs.len() && theirs[at] == path[j];
        assert(inputs_cached(cache, edges, path[j + 1]));
        assert(is_cached(cache, theirs[at]));
    }
}

} // verus!
