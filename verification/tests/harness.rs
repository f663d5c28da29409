use csr_spmv::arith::Arithmetic;
use csr_spmv::bench::benchmark;
use csr_spmv::bench::derive_metrics;
use csr_spmv::bench::flop_count;
use csr_spmv::bench::traffic_bytes;
use csr_spmv::csr::CsrMatrix;
use csr_spmv::kernel::spmv_parallel;
use csr_spmv::kernel::spmv_serial;
use std::cell::Cell;
use std::time::Duration;
use std::time::Instant;

fn wait(d: Duration) {
    let start = Instant::now();
    while start.elapsed() < d {
        std::hint::spin_loop();
    }
}

fn three_by_three() -> CsrMatrix<f64> {
    CsrMatrix::new(3, 3, vec![0, 1, 2, 4], vec![0, 1, 0, 2], vec![2.0, 3.0, 1.0, 4.0]).unwrap()
}

#[test]
fn two_flops_for_each_stored_entry() {
    assert_eq!(flop_count(0), 0);
    assert_eq!(flop_count(4), 8);
    assert_eq!(flop_count(2_100_225), 4_200_450);
    assert_eq!(flop_count(usize::MAX), 2 * (usize::MAX as u128));
}

#[test]
fn traffic_counts_matrix_and_vectors() {
    assert_eq!(traffic_bytes(0, 0), 4);
    assert_eq!(traffic_bytes(3, 4), 32 + 16 + 16 + 24 + 24);
    assert_eq!(traffic_bytes(1, 0), 8 + 8 + 8);
    assert_eq!(traffic_bytes(525_825, 2_100_225), 12 * 2_100_225 + 4 * 525_826 + 16 * 525_825);
    assert_eq!(
        traffic_bytes(usize::MAX, usize::MAX),
        12 * (usize::MAX as u128) + 4 * (usize::MAX as u128 + 1) + 16 * (usize::MAX as u128)
    );
}

#[test]
fn metrics_follow_from_matrix_and_time() {
    let a = three_by_three();
    let r = derive_metrics("serial", &a, 2_000);
    assert_eq!(r.label, "serial");
    assert_eq!(r.elapsed_nanos, 2_000);
    assert_eq!(r.flops, 8);
    assert_eq!(r.bytes, 112);
}

#[test]
fn throughput_is_count_over_nanoseconds() {
    let a = three_by_three();
    let r = derive_metrics("serial", &a, 2);
    let dt = 2.0e-9f64;
    let gflops = r.flops as f64 / r.elapsed_nanos as f64;
    let bandwidth = r.bytes as f64 / r.elapsed_nanos as f64;
    assert_eq!(gflops, 4.0);
    assert_eq!(bandwidth, 56.0);
    assert!((gflops - (2.0 * 4.0) / (dt * 1.0e9)).abs() < 1.0e-12);
    assert!((bandwidth - 112.0 / (dt * 1.0e9)).abs() < 1.0e-12);
}

#[test]
fn empty_rows_do_not_change_the_flop_count() {
    let dense = CsrMatrix::new(1, 2, vec![0, 2], vec![0, 1], vec![1.0, 2.0]).unwrap();
    let sparse = CsrMatrix::new(4, 2, vec![0, 0, 2, 2, 2], vec![0, 1], vec![1.0, 2.0]).unwrap();
    assert_eq!(derive_metrics("a", &dense, 1).flops, 4);
    assert_eq!(derive_metrics("b", &sparse, 1).flops, 4);
    assert_eq!(derive_metrics("a", &dense, 1).bytes, 24 + 8 + 16);
    assert_eq!(derive_metrics("b", &sparse, 1).bytes, 24 + 20 + 64);
}

#[test]
fn benchmark_runs_the_kernel_twice() {
    let a = three_by_three();
    let x = vec![1.0, 1.0, 1.0];
    let calls = Cell::new(0usize);
    let r = benchmark("counted", &a, &x, |m: &CsrMatrix<f64>, v: &[f64]| {
        calls.set(calls.get() + 1);
        assert_eq!(m.rows(), 3);
        assert_eq!(v.len(), 3);
        vec![0.0; 3]
    });
    assert_eq!(calls.get(), 2);
    assert_eq!(r.label, "counted");
    assert_eq!(r.flops, 8);
    assert_eq!(r.bytes, 112);
}

#[test]
fn benchmark_times_the_second_run_only() {
    let a = three_by_three();
    let x = vec![1.0, 1.0, 1.0];
    let calls = Cell::new(0usize);
    let r = benchmark("slow start", &a, &x, |_m: &CsrMatrix<f64>, _v: &[f64]| {
        calls.set(calls.get() + 1);
        if calls.get() == 1 {
            wait(Duration::from_millis(300));
        }
        Vec::new()
    });
    assert!(r.elapsed_nanos < 250_000_000);
}

#[test]
fn benchmark_measures_the_timed_run() {
    let a = three_by_three();
    let x = vec![1.0, 1.0, 1.0];
    let calls = Cell::new(0usize);
    let r = benchmark("slow finish", &a, &x, |_m: &CsrMatrix<f64>, _v: &[f64]| {
        calls.set(calls.get() + 1);
        if calls.get() == 2 {
            wait(Duration::from_millis(50));
        }
        Vec::new()
    });
    assert!(r.elapsed_nanos >= 50_000_000);
}

#[test]
fn benchmark_of_both_kernels() {
    let a = three_by_three();
    let x = vec![1.0, 1.0, 1.0];
    let ar = Arithmetic::new(0.0f64, |p: f64, q: f64| p * q, |p: f64, q: f64| p + q);
    let serial = benchmark("Rust CSR serial", &a, &x, |m: &CsrMatrix<f64>, v: &[f64]| {
        spmv_serial(m, v, &ar)
    });
    let parallel = benchmark("Rust CSR parallel (Rayon)", &a, &x, |m: &CsrMatrix<f64>, v: &[f64]| {
        spmv_parallel(m, v, &ar)
    });
    assert_eq!(serial.label, "Rust CSR serial");
    assert_eq!(parallel.label, "Rust CSR parallel (Rayon)");
    assert_eq!(serial.flops, parallel.flops);
    assert_eq!(serial.bytes, parallel.bytes);
}
