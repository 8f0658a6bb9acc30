//! The meaning of one tick: connections applied in genome order, each one
//! reading its source and its sink as the earlier connections left them and
//! writing the step's result back into its sink.
//!
//! The arithmetic of a step is a parameter: `step(source, weight, sink)`
//! returns the sink's next value. The evaluator fixes which values are read,
//! which slot is written and in what order; the step fixes the numbers.

use vstd::prelude::*;
use crate::gene::{DecodedGene, SourceType, SinkType, gene_fits};

verus! {

/// The value a connection reads: a neuron or an input.
pub open spec fn source_value<V>(d: DecodedGene, neurons: Seq<V>, inputs: Seq<V>) -> V {
    match d.source {
        SourceType::Neuron(i) => neurons[i as int],
        SourceType::Input(i) => inputs[i as int],
    }
}

/// The current value of a connection's sink: a neuron or an output.
pub open spec fn sink_value<V>(d: DecodedGene, neurons: Seq<V>, outputs: Seq<V>) -> V {
    match d.sink {
        SinkType::Neuron(i) => neurons[i as int],
        SinkType::Output(i) => outputs[i as int],
    }
}

/// Neurons and outputs after `v` is stored into the connection's sink.
pub open spec fn write_sink<V>(d: DecodedGene, neurons: Seq<V>, outputs: Seq<V>, v: V) -> (Seq<V>, Seq<V>) {
    match d.sink {
        SinkType::Neuron(i) => (neurons.update(i as int, v), outputs),
        SinkType::Output(i) => (neurons, outputs.update(i as int, v)),
    }
}

/// Neurons and outputs after the first `k` connections, where connection `j`
/// stored `vals[j]`.
pub open spec fn run<V>(genes: Seq<DecodedGene>, start: (Seq<V>, Seq<V>), vals: Seq<V>, k: nat) -> (Seq<V>, Seq<V>)
    decreases k,
{
    if k == 0 {
        start
    } else {
        let prev = run(genes, start, vals, (k - 1) as nat);
        write_sink(genes[k - 1], prev.0, prev.1, vals[k - 1])
    }
}

/// Each stored value is a result that `step` may give on what its
/// connection read at that point of the tick.
pub open spec fn steps_valid<V, F: Fn(V, u16, V) -> V>(
    step: F,
    genes: Seq<DecodedGene>,
    inputs: Seq<V>,
    start: (Seq<V>, Seq<V>),
    vals: Seq<V>,
) -> bool {
    forall|k: int|
        0 <= k < vals.len() ==> call_ensures(
            step,
            (
                source_value(genes[k], run(genes, start, vals, k as nat).0, inputs),
                genes[k].weight,
                sink_value(genes[k], run(genes, start, vals, k as nat).0, run(genes, start, vals, k as nat).1),
            ),
            #[trigger] vals[k],
        )
}

/// `end` is a state that one tick can lead to from `start`: all connections
/// applied in order, each seeing the writes of those before it.
pub open spec fn tick<V, F: Fn(V, u16, V) -> V>(
    step: F,
    genes: Seq<DecodedGene>,
    inputs: Seq<V>,
    start: (Seq<V>, Seq<V>),
    end: (Seq<V>, Seq<V>),
) -> bool {
    exists|vals: Seq<V>|
        vals.len() == genes.len() && #[trigger] steps_valid(step, genes, inputs, start, vals) && end
            == run(genes, start, vals, genes.len())
}

/// `step` gives at most one result for each argument triple.
pub open spec fn deterministic<V, F: Fn(V, u16, V) -> V>(step: F) -> bool {
    forall|a: V, w: u16, b: V, r1: V, r2: V|
        #![trigger call_ensures(step, (a, w, b), r1), call_ensures(step, (a, w, b), r2)]
        call_ensures(step, (a, w, b), r1) && call_ensures(step, (a, w, b), r2) ==> r1 == r2
}

/// Every connection addresses a valid slot of the given state.
pub open spec fn genes_fit<V>(genes: Seq<DecodedGene>, inputs: Seq<V>, state: (Seq<V>, Seq<V>)) -> bool {
    forall|k: int|
        0 <= k < genes.len() ==> gene_fits(
            #[trigger] genes[k],
            state.0.len() as int,
            inputs.len() as int,
            state.1.len() as int,
        )
}

/// Storing one more value leaves the earlier states of the run as they were.
pub proof fn lemma_run_extend<V>(genes: Seq<DecodedGene>, start: (Seq<V>, Seq<V>), vals: Seq<V>, v: V, k: nat)
    requires
        k <= vals.len(),
    ensures
        run(genes, start, vals.push(v), k) == run(genes, start, vals, k),
    decreases k,
{
    if k > 0 {
        lemma_run_extend(genes, start, vals, v, (k - 1) as nat);
        assert(vals.push(v)[k - 1] == vals[k - 1]);
    }
}

/// A run keeps the lengths of neurons and outputs when every connection fits.
proof fn lemma_run_lengths<V>(genes: Seq<DecodedGene>, inputs: Seq<V>, start: (Seq<V>, Seq<V>), vals: Seq<V>, k: nat)
    requires
        k <= genes.len(),
        genes_fit(genes, inputs, start),
    ensures
        run(genes, start, vals, k).0.len() == start.0.len(),
        run(genes, start, vals, k).1.len() == start.1.len(),
    decreases k,
{
    if k > 0 {
        lemma_run_lengths(genes, inputs, start, vals, (k - 1) as nat);
        assert(gene_fits(genes[k - 1], start.0.len() as int, inputs.len() as int, start.1.len() as int));
    }
}

proof fn lemma_runs_agree<V, F: Fn(V, u16, V) -> V>(
    step: F,
    genes: Seq<DecodedGene>,
    inputs: Seq<V>,
    start: (Seq<V>, Seq<V>),
    vals1: Seq<V>,
    vals2: Seq<V>,
    k: nat,
)
    requires
        deterministic(step),
        vals1.len() == genes.len(),
        vals2.len() == genes.len(),
        k <= genes.len(),
        steps_valid(step, genes, inputs, start, vals1),
        steps_valid(step, genes, inputs, start, vals2),
    ensures
        run(genes, start, vals1, k) == run(genes, start, vals2, k),
    decreases k,
{
    if k > 0 {
        let j = k - 1;
        lemma_runs_agree(step, genes, inputs, start, vals1, vals2, j as nat);
        assert(vals1[j] == vals2[j]);
    }
}

/// A tick is deterministic: with a step that gives one result per argument
/// triple, the same connections, inputs and starting state always lead to
/// the same neurons and outputs.
pub proof fn lemma_tick_deterministic<V, F: Fn(V, u16, V) -> V>(
    step: F,
    genes: Seq<DecodedGene>,
    inputs: Seq<V>,
    start: (Seq<V>, Seq<V>),
    end1: (Seq<V>, Seq<V>),
    end2: (Seq<V>, Seq<V>),
)
    requires
        deterministic(step),
        tick(step, genes, inputs, start, end1),
        tick(step, genes, inputs, start, end2),
    ensures
        end1 == end2,
{
    let vals1 = choose|vals: Seq<V>|
        vals.len() == genes.len() && #[trigger] steps_valid(step, genes, inputs, start, vals) && end1
            == run(genes, start, vals, genes.len());
    let vals2 = choose|vals: Seq<V>|
        vals.len() == genes.len() && #[trigger] steps_valid(step, genes, inputs, start, vals) && end2
            == run(genes, start, vals, genes.len());
    lemma_runs_agree(step, genes, inputs, start, vals1, vals2, genes.len());
}

proof fn lemma_run_keeps_neuron<V>(
    genes: Seq<DecodedGene>,
    inputs: Seq<V>,
    start: (Seq<V>, Seq<V>),
    vals: Seq<V>,
    j: int,
    k: nat,
)
    requires
        k <= genes.len(),
        genes_fit(genes, inputs, start),
        0 <= j < start.0.len(),
        forall|i: int| 0 <= i < genes.len() ==> (#[trigger] genes[i]).sink != SinkType::Neuron(j as usize),
    ensures
        run(genes, start, vals, k).0[j] == start.0[j],
    decreases k,
{
    if k > 0 {
        lemma_run_keeps_neuron(genes, inputs, start, vals, j, (k - 1) as nat);
        lemma_run_lengths(genes, inputs, start, vals, (k - 1) as nat);
        assert(genes[k - 1].sink != SinkType::Neuron(j as usize));
        assert(gene_fits(genes[k - 1], start.0.len() as int, inputs.len() as int, start.1.len() as int));
    }
}

/// Activations accumulate and are never reset: a neuron that no connection
/// writes keeps its value through a tick.
pub proof fn lemma_unwritten_neuron_kept<V, F: Fn(V, u16, V) -> V>(
    step: F,
    genes: Seq<DecodedGene>,
    inputs: Seq<V>,
    start: (Seq<V>, Seq<V>),
    end: (Seq<V>, Seq<V>),
    j: int,
)
    requires
        genes_fit(genes, inputs, start),
        tick(step, genes, inputs, start, end),
        0 <= j < start.0.len(),
        forall|i: int| 0 <= i < genes.len() ==> (#[trigger] genes[i]).sink != SinkType::Neuron(j as usize),
    ensures
        end.0.len() == start.0.len(),
        end.0[j] == start.0[j],
{
    let vals = choose|vals: Seq<V>|
        vals.len() == genes.len() && #[trigger] steps_valid(step, genes, inputs, start, vals) && end
            == run(genes, start, vals, genes.len());
    lemma_run_lengths(genes, inputs, start, vals, genes.len());
    lemma_run_keeps_neuron(genes, inputs, start, vals, j, genes.len());
}

/// Writes are visible within the tick: when the first connection writes
/// neuron `j` and the second reads it, the second connection's step is
/// handed the value the first one stored, not the value from before the tick.
pub proof fn lemma_second_reads_first_write<V, F: Fn(V, u16, V) -> V>(
    step: F,
    genes: Seq<DecodedGene>,
    inputs: Seq<V>,
    start: (Seq<V>, Seq<V>),
    vals: Seq<V>,
    j: usize,
)
    requires
        genes.len() >= 2,
        vals.len() == genes.len(),
        genes_fit(genes, inputs, start),
        steps_valid(step, genes, inputs, start, vals),
        genes[0].sink == SinkType::Neuron(j),
        genes[1].source == SourceType::Neuron(j),
    ensures
        call_ensures(
            step,
            (
                vals[0],
                genes[1].weight,
                sink_value(genes[1], run(genes, start, vals, 1).0, run(genes, start, vals, 1).1),
            ),
            vals[1],
        ),
{
    assert(gene_fits(genes[0], start.0.len() as int, inputs.len() as int, start.1.len() as int));
    assert(run(genes, start, vals, 0) == start);
    assert(run(genes, start, vals, 1).0[j as int] == vals[0]);
}

} // verus!
