//! An organism: decoded connections plus neuron, input and output state,
//! stepped one tick at a time.

use vstd::prelude::*;
use rand::rngs::StdRng;
use rand::Rng;
use crate::gene::{DecodedGene, Layout, SourceType, SinkType, decode_gene, gene_fits, spec_decode};
use crate::network::{lemma_run_extend, run, steps_valid, tick};

verus! {

/// rand's `StdRng`, the seedable generator that genomes are drawn from;
/// opaque here, it is only passed on to `draw_gene`.
#[verifier::external_type_specification]
#[verifier::external_body]
pub struct ExStdRng(StdRng);

/// Relies on rand's `Rng::gen::<u32>` on `StdRng`, which returns the
/// generator's next 32-bit word; nothing is known of its value.
#[verifier::external_body]
fn draw_gene(rng: &mut StdRng) -> u32 {
    rng.gen()
}

/// A network instance: its connections are fixed at construction, its
/// neurons and outputs change every tick, its inputs are set by the caller.
#[derive(Clone)]
pub struct Organism<V> {
    pub neurons: Vec<V>,
    pub inputs: Vec<V>,
    pub outputs: Vec<V>,
    pub decoded_genes: Vec<DecodedGene>,
}

/// A vector of `n` copies of `v`.
fn filled<V: Copy>(n: usize, v: V) -> (r: Vec<V>)
    ensures
        r@.len() == n,
        forall|i: int| 0 <= i < n ==> r@[i] == v,
{
    let mut r: Vec<V> = Vec::new();
    let mut k: usize = 0;
    while k < n
        invariant
            k <= n,
            r@.len() == k,
            forall|i: int| 0 <= i < k ==> r@[i] == v,
        decreases n - k,
    {
        r.push(v);
        k += 1;
    }
    r
}

impl<V: Copy> Organism<V> {
    /// Every connection addresses a valid neuron, input or output.
    pub open spec fn wf(&self) -> bool {
        forall|k: int|
            0 <= k < self.decoded_genes.len() ==> gene_fits(
                #[trigger] self.decoded_genes@[k],
                self.neurons@.len() as int,
                self.inputs@.len() as int,
                self.outputs@.len() as int,
            )
    }

    /// Decodes each gene of the genome, in order.
    pub fn decode_genes(genome: &Vec<u32>, layout: &Layout) -> (r: Vec<DecodedGene>)
        requires
            layout.wf(),
        ensures
            r@.len() == genome@.len(),
            forall|k: int|
                0 <= k < genome@.len() ==> #[trigger] r@[k] == spec_decode(
                    genome@[k],
                    layout.num_neurons as int,
                    layout.num_inputs as int,
                    layout.num_outputs as int,
                ),
    {
        let mut r: Vec<DecodedGene> = Vec::new();
        let mut k: usize = 0;
        while k < genome.len()
            invariant
                layout.wf(),
                k <= genome@.len(),
                r@.len() == k,
                forall|i: int|
                    0 <= i < k ==> #[trigger] r@[i] == spec_decode(
                        genome@[i],
                        layout.num_neurons as int,
                        layout.num_inputs as int,
                        layout.num_outputs as int,
                    ),
            decreases genome@.len() - k,
        {
            r.push(decode_gene(genome[k], layout));
            k += 1;
        }
        r
    }

    /// An organism with the given genome, every activation set to `zero`.
    /// The genome's length sets the number of connections.
    pub fn with_genome(genome: &Vec<u32>, layout: &Layout, zero: V) -> (r: Self)
        requires
            layout.wf(),
        ensures
            r.wf(),
            r.decoded_genes@.len() == genome@.len(),
            forall|k: int|
                0 <= k < genome@.len() ==> #[trigger] r.decoded_genes@[k] == spec_decode(
                    genome@[k],
                    layout.num_neurons as int,
                    layout.num_inputs as int,
                    layout.num_outputs as int,
                ),
            r.neurons@.len() == layout.num_neurons,
            r.inputs@.len() == layout.num_inputs,
            r.outputs@.len() == layout.num_outputs,
            forall|i: int| 0 <= i < layout.num_neurons ==> r.neurons@[i] == zero,
            forall|i: int| 0 <= i < layout.num_inputs ==> r.inputs@[i] == zero,
            forall|i: int| 0 <= i < layout.num_outputs ==> r.outputs@[i] == zero,
    {
        let decoded_genes = Self::decode_genes(genome, layout);
        let r = Organism {
            neurons: filled(layout.num_neurons, zero),
            inputs: filled(layout.num_inputs, zero),
            outputs: filled(layout.num_outputs, zero),
            decoded_genes,
        };
        assert forall|k: int| 0 <= k < r.decoded_genes.len() implies gene_fits(
            #[trigger] r.decoded_genes@[k],
            r.neurons@.len() as int,
            r.inputs@.len() as int,
            r.outputs@.len() as int,
        ) by {
            crate::gene::lemma_decode_in_range(
                genome@[k],
                layout.num_neurons as int,
                layout.num_inputs as int,
                layout.num_outputs as int,
            );
        }
        r
    }

    /// An organism with `layout.num_genes` genes drawn from `rng`, every
    /// activation set to `zero`.
    pub fn new(rng: &mut StdRng, layout: &Layout, zero: V) -> (r: Self)
        requires
            layout.wf(),
        ensures
            r.wf(),
            r.decoded_genes@.len() == layout.num_genes,
            forall|k: int|
                0 <= k < layout.num_genes ==> exists|g: u32|
                    #[trigger] r.decoded_genes@[k] == spec_decode(
                        g,
                        layout.num_neurons as int,
                        layout.num_inputs as int,
                        layout.num_outputs as int,
                    ),
            r.neurons@.len() == layout.num_neurons,
            r.inputs@.len() == layout.num_inputs,
            r.outputs@.len() == layout.num_outputs,
            forall|i: int| 0 <= i < layout.num_neurons ==> r.neurons@[i] == zero,
            forall|i: int| 0 <= i < layout.num_inputs ==> r.inputs@[i] == zero,
            forall|i: int| 0 <= i < layout.num_outputs ==> r.outputs@[i] == zero,
    {
        let mut genome: Vec<u32> = Vec::new();
        let mut k: usize = 0;
        while k < layout.num_genes
            invariant
                k <= layout.num_genes,
                genome@.len() == k,
            decreases layout.num_genes - k,
        {
            genome.push(draw_gene(rng));
            k += 1;
        }
        let r = Self::with_genome(&genome, layout, zero);
        assert forall|k: int| 0 <= k < layout.num_genes implies exists|g: u32|
            #[trigger] r.decoded_genes@[k] == spec_decode(
                g,
                layout.num_neurons as int,
                layout.num_inputs as int,
                layout.num_outputs as int,
            ) by {
            assert(r.decoded_genes@[k] == spec_decode(
                genome@[k],
                layout.num_neurons as int,
                layout.num_inputs as int,
                layout.num_outputs as int,
            ));
        }
        r
    }

    /// One tick: each connection, in genome order, reads its source and its
    /// sink as the connections before it left them, and its sink takes
    /// `step(source, weight, sink)`. Nothing is reset between ticks.
    pub fn update<F: Fn(V, u16, V) -> V>(&mut self, step: F)
        requires
            old(self).wf(),
            forall|a: V, w: u16, b: V| call_requires(step, (a, w, b)),
        ensures
            final(self).wf(),
            final(self).inputs@ == old(self).inputs@,
            final(self).decoded_genes@ == old(self).decoded_genes@,
            final(self).neurons@.len() == old(self).neurons@.len(),
            final(self).outputs@.len() == old(self).outputs@.len(),
            tick(
                step,
                old(self).decoded_genes@,
                old(self).inputs@,
                (old(self).neurons@, old(self).outputs@),
                (final(self).neurons@, final(self).outputs@),
            ),
    {
        let ghost genes = self.decoded_genes@;
        let ghost inputs = self.inputs@;
        let ghost start = (self.neurons@, self.outputs@);
        let ghost mut vals: Seq<V> = Seq::empty();
        let n = self.decoded_genes.len();
        let mut k: usize = 0;
        while k < n
            invariant
                k <= n,
                n == genes.len(),
                self.decoded_genes@ == genes,
                self.inputs@ == inputs,
                self.neurons@.len() == start.0.len(),
                self.outputs@.len() == start.1.len(),
                genes == old(self).decoded_genes@,
                inputs == old(self).inputs@,
                start == (old(self).neurons@, old(self).outputs@),
                old(self).wf(),
                forall|a: V, w: u16, b: V| call_requires(step, (a, w, b)),
                vals.len() == k,
                steps_valid(step, genes, inputs, start, vals),
                (self.neurons@, self.outputs@) == run(genes, start, vals, k as nat),
            decreases n - k,
        {
            let d = self.decoded_genes[k];
            assert(gene_fits(
                genes[k as int],
                start.0.len() as int,
                inputs.len() as int,
                start.1.len() as int,
            ));
            let src = match d.source {
                SourceType::Neuron(i) => self.neurons[i],
                SourceType::Input(i) => self.inputs[i],
            };
            let cur = match d.sink {
                SinkType::Neuron(i) => self.neurons[i],
                SinkType::Output(i) => self.outputs[i],
            };
            let v = step(src, d.weight, cur);
            match d.sink {
                SinkType::Neuron(i) => {
                    self.neurons[i] = v;
                },
                SinkType::Output(i) => {
                    self.outputs[i] = v;
                },
            }
            proof {
                lemma_run_extend(genes, start, vals, v, k as nat);
                assert forall|j: int| 0 <= j < k implies #[trigger] run(genes, start, vals.push(v), j as nat)
                    == run(genes, start, vals, j as nat) by {
                    lemma_run_extend(genes, start, vals, v, j as nat);
                }
                let vals2 = vals.push(v);
                assert forall|j: int| 0 <= j < vals2.len() implies call_ensures(
                    step,
                    (
                        crate::network::source_value(genes[j], run(genes, start, vals2, j as nat).0, inputs),
                        genes[j].weight,
                        crate::network::sink_value(
                            genes[j],
                            run(genes, start, vals2, j as nat).0,
                            run(genes, start, vals2, j as nat).1,
                        ),
                    ),
                    #[trigger] vals2[j],
                ) by {
                    if j < k {
                        assert(vals2[j] == vals[j]);
                    }
                }
                vals = vals2;
            }
            k += 1;
        }
        assert(steps_valid(step, genes, inputs, start, vals));
    }
}

} // verus!
