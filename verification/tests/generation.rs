use event_producer::generator::random_bytes::RandomGenerator;
use event_producer::generator::schedule::{GenerationSchedule, GenerationStep};
use event_producer::generator::types::Generate;
use event_producer::settings::{BurstProbabilityDistribution, RandomGeneratorSettings};

fn generator_settings(size: u64) -> RandomGeneratorSettings {
    RandomGeneratorSettings {
        messages_per_sec: 10,
        message_size_in_bytes: size,
        duration_in_sec: 3,
        burst_messages_per_sec: 100,
        burst_probability_bits: 0.1f64.to_bits(),
        sampling_distribution: BurstProbabilityDistribution::Uniform,
    }
}

#[test]
fn generated_messages_have_the_configured_size() {
    let g = RandomGenerator::new(generator_settings(64));
    assert_eq!(g.settings.message_size_in_bytes, 64);
    for _ in 0..10 {
        assert_eq!(g.generate().len(), 64);
    }
}

#[test]
fn generated_messages_of_size_zero_are_empty() {
    let g = RandomGenerator::new(generator_settings(0));
    assert!(g.generate().is_empty());
}

#[test]
fn generated_messages_are_random() {
    let g = RandomGenerator::new(generator_settings(32));
    let a = g.generate();
    let b = g.generate();
    assert_ne!(a, b);
}

fn run(counts: Vec<u64>) -> Vec<GenerationStep> {
    let mut schedule = GenerationSchedule::new(counts);
    let mut steps = Vec::new();
    loop {
        let step = schedule.next_step();
        steps.push(step);
        if step == GenerationStep::Finish {
            return steps;
        }
    }
}

#[test]
fn schedule_emits_each_second_in_order() {
    assert_eq!(
        run(vec![2, 0, 1, 3]),
        vec![
            GenerationStep::Emit { second: 0 },
            GenerationStep::Emit { second: 0 },
            GenerationStep::Emit { second: 2 },
            GenerationStep::Emit { second: 3 },
            GenerationStep::Emit { second: 3 },
            GenerationStep::Emit { second: 3 },
            GenerationStep::Finish,
        ]
    );
}

#[test]
fn schedule_without_seconds_finishes_at_once() {
    assert_eq!(run(vec![]), vec![GenerationStep::Finish]);
    assert_eq!(run(vec![0, 0]), vec![GenerationStep::Finish]);
}

#[test]
fn schedule_stays_finished() {
    let mut schedule = GenerationSchedule::new(vec![1]);
    assert_eq!(schedule.next_step(), GenerationStep::Emit { second: 0 });
    assert_eq!(schedule.next_step(), GenerationStep::Finish);
    assert_eq!(schedule.next_step(), GenerationStep::Finish);
}

#[test]
fn schedule_sends_the_total_of_the_counts() {
    let counts = vec![5, 17, 0, 9, 1];
    let steps = run(counts.clone());
    assert_eq!(steps.len() as u64, counts.iter().sum::<u64>() + 1);
    for (second, count) in counts.iter().enumerate() {
        let n = steps.iter().filter(|s| **s == GenerationStep::Emit { second }).count();
        assert_eq!(n as u64, *count);
    }
}
