//! The three reduction strategies, run over the crate's verified work
//! schedules with a real integrand, and compared against each other.

use quadrature::partition::chunk_ranges;
use quadrature::sampling::interior_indices;
use quadrature::taskbag::TaskBag;

/// The sequential reference reducer: edge samples at half weight, then the
/// interior samples in ascending order, scaled by the step.
fn sequential_integral<F: Fn(f64) -> f64>(f: F, a: f64, b: f64, n: u64) -> f64 {
    let h = (b - a) / n as f64;
    let mut sum = 0.5 * (f(a) + f(b));
    for i in interior_indices(n) {
        sum += f(a + i as f64 * h);
    }
    sum * h
}

/// The dynamic strategy with its workers interleaved round-robin: each
/// consumer takes from the shared bag in turn and keeps a private partial
/// sum; the partial sums are combined only at the end.
fn queue_integral<F: Fn(f64) -> f64>(f: F, a: f64, b: f64, n: u64, num_threads: usize) -> f64 {
    let h = (b - a) / n as f64;
    let base = 0.5 * (f(a) + f(b));
    let mut bag = TaskBag::with_interior_indices(n);
    let mut partial = vec![0.0f64; num_threads];
    let mut turn = 0usize;
    while let Some(i) = bag.take() {
        partial[turn] += f(a + i as f64 * h);
        turn = (turn + 1) % num_threads;
    }
    let mut total = base;
    for p in partial {
        total += p;
    }
    total * h
}

/// The static strategy: one partial sum per chunk, each chunk iterated
/// independently, combined only after every chunk is done.
fn partitioned_integral<F: Fn(f64) -> f64>(
    f: F,
    a: f64,
    b: f64,
    n: u64,
    num_threads: u64,
) -> f64 {
    let h = (b - a) / n as f64;
    let base = 0.5 * (f(a) + f(b));
    let mut partial = Vec::new();
    for c in chunk_ranges(n, num_threads) {
        let mut local = 0.0f64;
        if c.start <= c.end {
            for i in c.start..=c.end {
                local += f(a + i as f64 * h);
            }
        }
        partial.push(local);
    }
    let mut total = base;
    for p in partial {
        total += p;
    }
    total * h
}

#[test]
fn cross_strategy_agreement() {
    let f = |x: f64| x * x * x - 2.0 * x + 1.0;
    let (a, b) = (-1.5f64, 4.0f64);
    let n: u64 = 1000;
    let eps = 1e-9 * n as f64;
    let seq = sequential_integral(f, a, b, n);
    for t in [1usize, 2, 3, 8, 16] {
        let q = queue_integral(f, a, b, n, t);
        assert!((seq - q).abs() < eps, "queue t={} differs: {} vs {}", t, q, seq);
        let p = partitioned_integral(f, a, b, n, t as u64);
        assert!((seq - p).abs() < eps, "partition t={} differs: {} vs {}", t, p, seq);
    }
}

#[test]
fn sequential_reference_is_idempotent() {
    let f = |x: f64| (x + 0.123).sin() * x;
    let first = sequential_integral(f, 0.0, 50.0, 4096);
    let second = sequential_integral(f, 0.0, 50.0, 4096);
    assert_eq!(first.to_bits(), second.to_bits());
}

#[test]
fn single_subdivision_is_the_pure_trapezoid() {
    let f = |x: f64| 3.0 * x + 7.0;
    let (a, b) = (2.0f64, 5.0f64);
    let expected = 0.5 * (f(a) + f(b)) * (b - a);
    assert_eq!(sequential_integral(f, a, b, 1), expected);
    assert_eq!(queue_integral(f, a, b, 1, 4), expected);
    assert_eq!(partitioned_integral(f, a, b, 1, 4), expected);
}

#[test]
fn integral_of_sine_over_half_period() {
    let n: u64 = 1000;
    let seq = sequential_integral(f64::sin, 0.0, std::f64::consts::PI, n);
    assert!((seq - 2.0).abs() < 1e-4, "sequential gave {}", seq);
    let q = queue_integral(f64::sin, 0.0, std::f64::consts::PI, n, 4);
    assert!((q - 2.0).abs() < 1e-4, "queue gave {}", q);
    let p = partitioned_integral(f64::sin, 0.0, std::f64::consts::PI, n, 8);
    assert!((p - 2.0).abs() < 1e-4, "partitioned gave {}", p);
}

#[test]
fn thread_count_leaves_the_result_unchanged() {
    let f = |x: f64| 1.0 / (1.0 + x * x);
    let (a, b) = (0.0f64, 1.0f64);
    let n: u64 = 2000;
    let eps = 1e-9 * n as f64;
    let q1 = queue_integral(f, a, b, n, 1);
    let p1 = partitioned_integral(f, a, b, n, 1);
    for t in 1..=16u64 {
        let q = queue_integral(f, a, b, n, t as usize);
        assert!((q - q1).abs() < eps, "queue t={} drifted: {} vs {}", t, q, q1);
        let p = partitioned_integral(f, a, b, n, t);
        assert!((p - p1).abs() < eps, "partition t={} drifted: {} vs {}", t, p, p1);
    }
}
