//! The 32-bit gene layout and its decoding into connections.
//!
//! From the most significant bit down, a gene holds:
//! - bit 31: source kind (0 = internal neuron, 1 = external input);
//! - bits 30..24: raw source index;
//! - bit 23: sink kind (0 = internal neuron, 1 = external output);
//! - bits 22..16: raw sink index;
//! - bits 15..0: the weight code, an unsigned 16-bit value that the
//!   evaluator's step rescales to a real weight.
//!
//! Raw indices are reduced modulo the configured counts, so every gene
//! decodes to a connection whose indices are valid.

use vstd::prelude::*;

verus! {

/// Where a connection reads its value from.
#[derive(Clone, Copy, Debug, PartialEq, Eq, Structural)]
pub enum SourceType {
    Neuron(usize),
    Input(usize),
}

/// Where a connection accumulates its contribution.
#[derive(Clone, Copy, Debug, PartialEq, Eq, Structural)]
pub enum SinkType {
    Neuron(usize),
    Output(usize),
}

/// A resolved connection: source, sink and the 16-bit weight code.
#[derive(Clone, Copy, Debug, PartialEq, Eq, Structural)]
pub struct DecodedGene {
    pub source: SourceType,
    pub sink: SinkType,
    pub weight: u16,
}

/// Why a network size was rejected.
#[derive(Clone, Copy, Debug, PartialEq, Eq, Structural)]
pub enum ConfigError {
    ZeroNeurons,
    ZeroInputs,
    ZeroOutputs,
}

/// The four size parameters of an organism.
#[derive(Clone, Copy, Debug, PartialEq, Eq, Structural)]
pub struct Layout {
    pub num_genes: usize,
    pub num_neurons: usize,
    pub num_inputs: usize,
    pub num_outputs: usize,
}

impl Layout {
    /// Every index space that a gene can address is non-empty.
    pub open spec fn wf(self) -> bool {
        self.num_neurons > 0 && self.num_inputs > 0 && self.num_outputs > 0
    }

    /// Checks the sizes: a zero neuron, input or output count is rejected,
    /// in that order of precedence.
    pub fn new(num_genes: usize, num_neurons: usize, num_inputs: usize, num_outputs: usize) -> (r:
        Result<Layout, ConfigError>)
        ensures
            num_neurons == 0 ==> r == Err::<Layout, ConfigError>(ConfigError::ZeroNeurons),
            num_neurons > 0 && num_inputs == 0 ==> r == Err::<Layout, ConfigError>(
                ConfigError::ZeroInputs,
            ),
            num_neurons > 0 && num_inputs > 0 && num_outputs == 0 ==> r == Err::<
                Layout,
                ConfigError,
            >(ConfigError::ZeroOutputs),
            num_neurons > 0 && num_inputs > 0 && num_outputs > 0 ==> r == Ok::<
                Layout,
                ConfigError,
            >((Layout { num_genes, num_neurons, num_inputs, num_outputs })),
            r is Ok ==> r->Ok_0.wf(),
    {
        if num_neurons == 0 {
            Err(ConfigError::ZeroNeurons)
        } else if num_inputs == 0 {
            Err(ConfigError::ZeroInputs)
        } else if num_outputs == 0 {
            Err(ConfigError::ZeroOutputs)
        } else {
            Ok(Layout { num_genes, num_neurons, num_inputs, num_outputs })
        }
    }
}

/// Bit 31 of a gene.
pub open spec fn source_kind_bit(g: u32) -> int {
    g as int / 0x8000_0000
}

/// Bits 30..24 of a gene.
pub open spec fn raw_source_index(g: u32) -> int {
    (g as int / 0x100_0000) % 0x80
}

/// Bit 23 of a gene.
pub open spec fn sink_kind_bit(g: u32) -> int {
    (g as int / 0x80_0000) % 2
}

/// Bits 22..16 of a gene.
pub open spec fn raw_sink_index(g: u32) -> int {
    (g as int / 0x1_0000) % 0x80
}

/// Bits 15..0 of a gene.
pub open spec fn raw_weight(g: u32) -> int {
    g as int % 0x1_0000
}

/// The connection that gene `g` stands for under the given counts.
pub open spec fn spec_decode(g: u32, num_neurons: int, num_inputs: int, num_outputs: int) -> DecodedGene {
    DecodedGene {
        source: if source_kind_bit(g) == 1 {
            SourceType::Input((raw_source_index(g) % num_inputs) as usize)
        } else {
            SourceType::Neuron((raw_source_index(g) % num_neurons) as usize)
        },
        sink: if sink_kind_bit(g) == 1 {
            SinkType::Output((raw_sink_index(g) % num_outputs) as usize)
        } else {
            SinkType::Neuron((raw_sink_index(g) % num_neurons) as usize)
        },
        weight: raw_weight(g) as u16,
    }
}

/// A connection's indices are valid for arrays of the given lengths.
pub open spec fn gene_fits(d: DecodedGene, num_neurons: int, num_inputs: int, num_outputs: int) -> bool {
    &&& match d.source {
        SourceType::Neuron(i) => i < num_neurons,
        SourceType::Input(i) => i < num_inputs,
    }
    &&& match d.sink {
        SinkType::Neuron(i) => i < num_neurons,
        SinkType::Output(i) => i < num_outputs,
    }
}

/// The gene word with the given fields; indices must fit in seven bits.
pub open spec fn spec_encode(source: SourceType, sink: SinkType, weight: u16) -> int {
    let (src_kind, src_index) = match source {
        SourceType::Neuron(i) => (0int, i as int),
        SourceType::Input(i) => (1int, i as int),
    };
    let (snk_kind, snk_index) = match sink {
        SinkType::Neuron(i) => (0int, i as int),
        SinkType::Output(i) => (1int, i as int),
    };
    src_kind * 0x8000_0000 + src_index * 0x100_0000 + snk_kind * 0x80_0000 + snk_index * 0x1_0000
        + weight as int
}

/// A connection's indices fit in the seven bits that a gene has for them.
pub open spec fn encodable(source: SourceType, sink: SinkType) -> bool {
    &&& match source {
        SourceType::Neuron(i) => i < 0x80,
        SourceType::Input(i) => i < 0x80,
    }
    &&& match sink {
        SinkType::Neuron(i) => i < 0x80,
        SinkType::Output(i) => i < 0x80,
    }
}

/// Decodes one gene. Total on every bit pattern once the layout is valid.
pub fn decode_gene(gene: u32, layout: &Layout) -> (r: DecodedGene)
    requires
        layout.wf(),
    ensures
        r == spec_decode(
            gene,
            layout.num_neurons as int,
            layout.num_inputs as int,
            layout.num_outputs as int,
        ),
        gene_fits(r, layout.num_neurons as int, layout.num_inputs as int, layout.num_outputs as int),
{
    let source_is_input = gene & 0x8000_0000 != 0;
    let source_index = ((gene >> 24) & 0x7F) as usize;
    let sink_is_output = gene & 0x0080_0000 != 0;
    let sink_index = ((gene >> 16) & 0x7F) as usize;
    let weight = (gene & 0xFFFF) as u16;
    proof {
        assert((gene & 0x8000_0000 != 0) == (gene / 0x8000_0000 == 1)) by (bit_vector);
        assert((gene >> 24) & 0x7F == (gene / 0x100_0000) % 0x80) by (bit_vector);
        assert((gene & 0x0080_0000 != 0) == ((gene / 0x80_0000) % 2 == 1)) by (bit_vector);
        assert((gene >> 16) & 0x7F == (gene / 0x1_0000) % 0x80) by (bit_vector);
        assert(gene & 0xFFFF == gene % 0x1_0000) by (bit_vector);
    }
    let source = if source_is_input {
        SourceType::Input(source_index % layout.num_inputs)
    } else {
        SourceType::Neuron(source_index % layout.num_neurons)
    };
    let sink = if sink_is_output {
        SinkType::Output(sink_index % layout.num_outputs)
    } else {
        SinkType::Neuron(sink_index % layout.num_neurons)
    };
    DecodedGene { source, sink, weight }
}

/// Builds the gene word for a connection, the inverse of decoding for
/// indices below the configured counts.
pub fn encode_gene(source: SourceType, sink: SinkType, weight: u16) -> (r: u32)
    requires
        encodable(source, sink),
    ensures
        r as int == spec_encode(source, sink, weight),
{
    let (src_kind, src_index): (u32, u32) = match source {
        SourceType::Neuron(i) => (0, i as u32),
        SourceType::Input(i) => (1, i as u32),
    };
    let (snk_kind, snk_index): (u32, u32) = match sink {
        SinkType::Neuron(i) => (0, i as u32),
        SinkType::Output(i) => (1, i as u32),
    };
    src_kind * 0x8000_0000 + src_index * 0x100_0000 + snk_kind * 0x80_0000 + snk_index * 0x1_0000
        + weight as u32
}

/// Decoding is total: for every gene word and all positive counts, the
/// decoded indices lie below the corresponding counts.
pub proof fn lemma_decode_in_range(g: u32, num_neurons: int, num_inputs: int, num_outputs: int)
    requires
        num_neurons > 0,
        num_inputs > 0,
        num_outputs > 0,
    ensures
        gene_fits(spec_decode(g, num_neurons, num_inputs, num_outputs), num_neurons, num_inputs, num_outputs),
{
    let si = raw_source_index(g);
    let ki = raw_sink_index(g);
    assert(0 <= si % num_inputs < num_inputs);
    assert(0 <= si % num_neurons < num_neurons);
    assert(0 <= ki % num_outputs < num_outputs);
    assert(0 <= ki % num_neurons < num_neurons);
}

/// Decoding an encoded connection gives it back when its indices lie below
/// the counts.
pub proof fn lemma_decode_encode(
    source: SourceType,
    sink: SinkType,
    weight: u16,
    num_neurons: int,
    num_inputs: int,
    num_outputs: int,
)
    requires
        encodable(source, sink),
        gene_fits(DecodedGene { source, sink, weight }, num_neurons, num_inputs, num_outputs),
    ensures
        0 <= spec_encode(source, sink, weight) <= u32::MAX,
        spec_decode(spec_encode(source, sink, weight) as u32, num_neurons, num_inputs, num_outputs)
            == (DecodedGene { source, sink, weight }),
{
    let (a, b) = match source {
        SourceType::Neuron(i) => (0int, i as int),
        SourceType::Input(i) => (1int, i as int),
    };
    let (c, d) = match sink {
        SinkType::Neuron(i) => (0int, i as int),
        SinkType::Output(i) => (1int, i as int),
    };
    let w = weight as int;
    let g = spec_encode(source, sink, weight);
    assert(g == a * 0x8000_0000 + b * 0x100_0000 + c * 0x80_0000 + d * 0x1_0000 + w);
    lemma_fields(a as u32, b as u32, c as u32, d as u32, w as u32);
    match source {
        SourceType::Neuron(i) => vstd::arithmetic::div_mod::lemma_small_mod(
            i as nat,
            num_neurons as nat,
        ),
        SourceType::Input(i) => vstd::arithmetic::div_mod::lemma_small_mod(
            i as nat,
            num_inputs as nat,
        ),
    }
    match sink {
        SinkType::Neuron(i) => vstd::arithmetic::div_mod::lemma_small_mod(
            i as nat,
            num_neurons as nat,
        ),
        SinkType::Output(i) => vstd::arithmetic::div_mod::lemma_small_mod(
            i as nat,
            num_outputs as nat,
        ),
    }
}

proof fn lemma_fields(a: u32, b: u32, c: u32, d: u32, w: u32)
    by (bit_vector)
    requires
        a < 2,
        b < 0x80,
        c < 2,
        d < 0x80,
        w < 0x1_0000,
    ensures
        a * 0x8000_0000 + b * 0x100_0000 + c * 0x80_0000 + d * 0x1_0000 + w <= 0xFFFF_FFFF,
        (a * 0x8000_0000 + b * 0x100_0000 + c * 0x80_0000 + d * 0x1_0000 + w) / 0x8000_0000 == a,
        ((a * 0x8000_0000 + b * 0x100_0000 + c * 0x80_0000 + d * 0x1_0000 + w) / 0x100_0000) % 0x80
            == b,
        ((a * 0x8000_0000 + b * 0x100_0000 + c * 0x80_0000 + d * 0x1_0000 + w) / 0x80_0000) % 2
            == c,
        ((a * 0x8000_0000 + b * 0x100_0000 + c * 0x80_0000 + d * 0x1_0000 + w) / 0x1_0000) % 0x80
            == d,
        (a * 0x8000_0000 + b * 0x100_0000 + c * 0x80_0000 + d * 0x1_0000 + w) % 0x1_0000 == w,
{
}

} // verus!
