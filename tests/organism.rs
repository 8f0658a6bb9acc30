use organism_sim::gene::{
    decode_gene, encode_gene, ConfigError, DecodedGene, Layout, SinkType, SourceType,
};
use organism_sim::organism::Organism;
use organism_sim::population::Population;
use rand::rngs::StdRng;
use rand::SeedableRng;

fn sigmoid(x: f32) -> f32 {
    1.0 / (1.0 + (-x).exp())
}

fn weight_value(code: u16) -> f32 {
    code as f32 / 0xFFFF as f32 * 2.0 - 1.0
}

fn accumulate(source: f32, weight: u16, sink: f32) -> f32 {
    sink + sigmoid(source) * weight_value(weight)
}

fn layout(g: usize, n: usize, i: usize, o: usize) -> Layout {
    Layout::new(g, n, i, o).unwrap()
}

fn create_organism_with_genes(genes: &[u32], n: usize, i: usize, o: usize) -> Organism<f32> {
    Organism::with_genome(&genes.to_vec(), &layout(genes.len(), n, i, o), 0.0)
}

fn create_gene(source: SourceType, sink: SinkType, weight: f32) -> u32 {
    let weight_bits = ((weight + 1.0) / 2.0 * 0xFFFF as f32) as u16;
    encode_gene(source, sink, weight_bits)
}

#[test]
fn test_new_organism() {
    let mut rng = StdRng::seed_from_u64(42);
    let organism: Organism<f32> = Organism::new(&mut rng, &layout(4, 2, 1, 1), 0.0);

    assert_eq!(organism.neurons, vec![0.0; 2]);
    assert_eq!(organism.inputs, vec![0.0; 1]);
    assert_eq!(organism.outputs, vec![0.0; 1]);
    assert_eq!(organism.decoded_genes.len(), 4);
}

#[test]
fn test_identity_neuron() {
    let genes = [
        create_gene(SourceType::Input(0), SinkType::Neuron(0), 1.0),
        create_gene(SourceType::Neuron(0), SinkType::Output(0), 1.0),
    ];
    let mut organism = create_organism_with_genes(&genes, 1, 1, 1);

    organism.inputs[0] = 0.5;
    organism.update(accumulate);
    let expected_output = sigmoid(sigmoid(0.5));
    assert!((organism.outputs[0] - expected_output).abs() < 1e-6);
    assert!((organism.outputs[0] - 0.6508).abs() < 1e-3);
}

#[test]
fn test_addition_network() {
    let genes = [
        create_gene(SourceType::Input(0), SinkType::Neuron(0), 1.0),
        create_gene(SourceType::Input(1), SinkType::Neuron(0), 1.0),
        create_gene(SourceType::Neuron(0), SinkType::Output(0), 1.0),
    ];
    let mut organism = create_organism_with_genes(&genes, 1, 2, 1);

    organism.inputs = vec![0.5, 0.5];
    organism.update(accumulate);
    let expected_output = sigmoid(sigmoid(0.5) + sigmoid(0.5));
    assert!((organism.outputs[0] - expected_output).abs() < 1e-6);
    assert!((organism.outputs[0] - 0.7762).abs() < 1e-3);
}

#[test]
fn layout_rejects_zero_counts() {
    assert_eq!(Layout::new(4, 0, 1, 1), Err(ConfigError::ZeroNeurons));
    assert_eq!(Layout::new(4, 2, 0, 1), Err(ConfigError::ZeroInputs));
    assert_eq!(Layout::new(4, 2, 1, 0), Err(ConfigError::ZeroOutputs));
    assert_eq!(Layout::new(4, 0, 0, 0), Err(ConfigError::ZeroNeurons));
    let l = Layout::new(0, 3, 2, 1).unwrap();
    assert_eq!((l.num_genes, l.num_neurons, l.num_inputs, l.num_outputs), (0, 3, 2, 1));
}

#[test]
fn decode_reads_each_field() {
    // input 5, output 3, weight 0x1234
    let gene: u32 = 0x8000_0000 | (5 << 24) | 0x0080_0000 | (3 << 16) | 0x1234;
    let d = decode_gene(gene, &layout(1, 4, 8, 4));
    assert_eq!(
        d,
        DecodedGene { source: SourceType::Input(5), sink: SinkType::Output(3), weight: 0x1234 }
    );
    // neuron 0x7F, neuron 0x41, weight 0xFFFF
    let gene: u32 = (0x7F << 24) | (0x41 << 16) | 0xFFFF;
    let d = decode_gene(gene, &layout(1, 128, 1, 1));
    assert_eq!(
        d,
        DecodedGene { source: SourceType::Neuron(0x7F), sink: SinkType::Neuron(0x41), weight: 0xFFFF }
    );
}

#[test]
fn decode_wraps_indices_modulo_counts() {
    let gene: u32 = 0x8000_0000 | (0x7F << 24) | (100 << 16) | 7;
    let d = decode_gene(gene, &layout(1, 64, 3, 1));
    assert_eq!(d.source, SourceType::Input(127 % 3));
    assert_eq!(d.sink, SinkType::Neuron(100 % 64));
    assert_eq!(d.weight, 7);
}

#[test]
fn decode_every_pattern_stays_in_range() {
    let l = layout(1, 5, 3, 2);
    let mut gene: u32 = 0x0123_4567;
    for _ in 0..10_000 {
        let d = decode_gene(gene, &l);
        match d.source {
            SourceType::Neuron(i) => assert!(i < 5),
            SourceType::Input(i) => assert!(i < 3),
        }
        match d.sink {
            SinkType::Neuron(i) => assert!(i < 5),
            SinkType::Output(i) => assert!(i < 2),
        }
        gene = gene.wrapping_mul(1_664_525).wrapping_add(1_013_904_223);
    }
    let d = decode_gene(u32::MAX, &l);
    assert_eq!(d, DecodedGene { source: SourceType::Input(1), sink: SinkType::Output(1), weight: 0xFFFF });
    let d = decode_gene(0, &l);
    assert_eq!(d, DecodedGene { source: SourceType::Neuron(0), sink: SinkType::Neuron(0), weight: 0 });
}

#[test]
fn encode_then_decode_round_trips() {
    let g = encode_gene(SourceType::Input(2), SinkType::Output(1), 0xBEEF);
    assert_eq!(g, 0x8000_0000 | (2 << 24) | 0x0080_0000 | (1 << 16) | 0xBEEF);
    let d = decode_gene(g, &layout(1, 4, 4, 4));
    assert_eq!(d, DecodedGene { source: SourceType::Input(2), sink: SinkType::Output(1), weight: 0xBEEF });
    let g = encode_gene(SourceType::Neuron(127), SinkType::Neuron(126), 0);
    assert_eq!(decode_gene(g, &layout(1, 128, 1, 1)).source, SourceType::Neuron(127));
    assert_eq!(decode_gene(g, &layout(1, 128, 1, 1)).sink, SinkType::Neuron(126));
}

#[test]
fn decode_genes_keeps_order() {
    let genome = vec![
        encode_gene(SourceType::Input(0), SinkType::Neuron(1), 10),
        encode_gene(SourceType::Neuron(1), SinkType::Output(0), 20),
        encode_gene(SourceType::Neuron(0), SinkType::Neuron(0), 30),
    ];
    let decoded = Organism::<f32>::decode_genes(&genome, &layout(3, 2, 1, 1));
    assert_eq!(decoded.len(), 3);
    assert_eq!(decoded[0].weight, 10);
    assert_eq!(decoded[1].weight, 20);
    assert_eq!(decoded[2].weight, 30);
    assert_eq!(decoded[1].source, SourceType::Neuron(1));
}

#[test]
fn update_is_deterministic() {
    let mut rng = StdRng::seed_from_u64(7);
    let a: Organism<f32> = Organism::new(&mut rng, &layout(32, 8, 2, 2), 0.0);
    let genome_copy: Vec<DecodedGene> = a.decoded_genes.clone();
    let mut a = a;
    let mut b = Organism {
        neurons: a.neurons.clone(),
        inputs: a.inputs.clone(),
        outputs: a.outputs.clone(),
        decoded_genes: genome_copy,
    };
    for t in 0..50 {
        let x = (t as f32 * 0.1).sin();
        a.inputs = vec![x, -x];
        b.inputs = vec![x, -x];
        a.update(accumulate);
        b.update(accumulate);
        assert_eq!(a.outputs.iter().map(|v| v.to_bits()).collect::<Vec<_>>(),
                   b.outputs.iter().map(|v| v.to_bits()).collect::<Vec<_>>());
        assert_eq!(a.neurons.iter().map(|v| v.to_bits()).collect::<Vec<_>>(),
                   b.neurons.iter().map(|v| v.to_bits()).collect::<Vec<_>>());
    }
}

#[test]
fn unwritten_neuron_keeps_its_value() {
    let genes = [create_gene(SourceType::Input(0), SinkType::Output(0), 1.0)];
    let mut organism = create_organism_with_genes(&genes, 2, 1, 1);
    organism.neurons = vec![0.25, -3.0];
    organism.inputs[0] = 1.0;
    organism.update(accumulate);
    assert_eq!(organism.neurons, vec![0.25, -3.0]);
    organism.update(accumulate);
    assert_eq!(organism.neurons, vec![0.25, -3.0]);
}

#[test]
fn outputs_accumulate_across_ticks() {
    let genes = [create_gene(SourceType::Input(0), SinkType::Output(0), 1.0)];
    let mut organism = create_organism_with_genes(&genes, 1, 1, 1);
    organism.inputs[0] = 0.0;
    organism.update(accumulate);
    assert!((organism.outputs[0] - 0.5).abs() < 1e-6);
    organism.update(accumulate);
    assert!((organism.outputs[0] - 1.0).abs() < 1e-6);
}

#[test]
fn later_connection_sees_earlier_write() {
    // A: Input(0) -> Neuron(0); B: Neuron(0) -> Output(0), in that order.
    let genes = [
        create_gene(SourceType::Input(0), SinkType::Neuron(0), 1.0),
        create_gene(SourceType::Neuron(0), SinkType::Output(0), 1.0),
    ];
    let mut organism = create_organism_with_genes(&genes, 1, 1, 1);
    organism.inputs[0] = 2.0;
    organism.update(accumulate);
    let after_a = sigmoid(2.0);
    assert!((organism.neurons[0] - after_a).abs() < 1e-6);
    assert!((organism.outputs[0] - sigmoid(after_a)).abs() < 1e-6);
    assert!((organism.outputs[0] - sigmoid(0.0)).abs() > 1e-3);

    // The same connections in the other order read the neuron before A writes it.
    let swapped = [genes[1], genes[0]];
    let mut organism = create_organism_with_genes(&swapped, 1, 1, 1);
    organism.inputs[0] = 2.0;
    organism.update(accumulate);
    assert!((organism.outputs[0] - sigmoid(0.0)).abs() < 1e-6);
}

#[test]
fn step_sees_source_weight_and_sink() {
    // Integer activations make every argument of the step visible.
    let genes = vec![
        encode_gene(SourceType::Input(1), SinkType::Output(0), 3),
        encode_gene(SourceType::Neuron(0), SinkType::Neuron(0), 100),
    ];
    let mut organism: Organism<i64> = Organism::with_genome(&genes, &layout(2, 1, 2, 1), 0);
    organism.inputs = vec![10, 20];
    organism.outputs = vec![1000];
    organism.neurons = vec![5];
    organism.update(|s: i64, w: u16, k: i64| k + s * w as i64);
    assert_eq!(organism.outputs, vec![1060]);
    assert_eq!(organism.neurons, vec![505]);
    assert_eq!(organism.inputs, vec![10, 20]);
}

#[test]
fn population_members_are_independent() {
    let genes = [
        create_gene(SourceType::Input(0), SinkType::Neuron(0), 1.0),
        create_gene(SourceType::Neuron(0), SinkType::Output(0), 1.0),
    ];
    let mut population = vec![
        create_organism_with_genes(&genes, 1, 1, 1),
        create_organism_with_genes(&genes, 1, 1, 1),
    ];
    population[0].inputs[0] = 0.5;
    population[1].inputs[0] = -4.0;
    for o in population.iter_mut() {
        o.update(accumulate);
    }
    assert!((population[0].outputs[0] - sigmoid(sigmoid(0.5))).abs() < 1e-6);
    assert!((population[1].outputs[0] - sigmoid(sigmoid(-4.0))).abs() < 1e-6);

    let before = population[1].outputs.clone();
    population[0].neurons[0] = 100.0;
    population[0].update(accumulate);
    assert_eq!(population[1].outputs, before);
    assert_eq!(population[1].neurons[0], sigmoid(-4.0));
}

#[test]
fn step_all_feeds_updates_and_publishes() {
    let genes = [
        create_gene(SourceType::Input(0), SinkType::Neuron(0), 1.0),
        create_gene(SourceType::Neuron(0), SinkType::Output(0), 1.0),
    ];
    let mut population = Population {
        organisms: vec![
            create_organism_with_genes(&genes, 1, 1, 1),
            create_organism_with_genes(&genes, 1, 1, 1),
        ],
    };
    population.organisms[1].neurons[0] = 3.0;
    let published = population.step_all(0.5, accumulate);
    assert_eq!(published.len(), 2);
    assert!((published[0] - sigmoid(sigmoid(0.5))).abs() < 1e-6);
    assert!((published[1] - sigmoid(3.0 + sigmoid(0.5))).abs() < 1e-6);
    assert_eq!(population.organisms[0].inputs, vec![0.5]);
    assert_eq!(published[0], population.organisms[0].outputs[0]);
    assert_eq!(published[1], population.organisms[1].outputs[0]);
}

#[test]
fn step_all_on_empty_population() {
    let mut population: Population<f32> = Population { organisms: vec![] };
    assert!(population.step_all(1.0, accumulate).is_empty());
}
