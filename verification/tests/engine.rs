use arraybench::array::{ArrayStore, VecImpl};
use arraybench::record::{Record, make_record};
use arraybench::rng::{SeedStream, mk_idx, mk_kinds, rand_val};
use arraybench::scenario::{RunResult, Scenario, catalogue, hot_size, run_scenario, scenario_name};

fn run(sc: Scenario, n: usize, seed: u64) -> (VecImpl, RunResult) {
    let mut arr = VecImpl::new(n);
    let res = run_scenario(&mut arr, sc, n, seed);
    (arr, res)
}

#[test]
fn write_sequential_end_to_end() {
    let (arr, res) = run(Scenario::WriteSequential, 100, 7);
    assert_eq!(res.ops_in_run, 100);
    assert_eq!(res.init_time_ns, 0);
    assert_eq!(res.ns_per_op_e4, res.total_time_ns * 10000 / 100);
    for i in 0..100 {
        assert_eq!(arr.read(i), i as i64);
    }
    let rec = make_record(arr.name(), Scenario::WriteSequential, 100, 7, 1, &res);
    assert_eq!(rec.n, 100);
    assert_eq!(rec.ops_in_run, 100);
    assert_eq!(rec.init_time_ns, 0);
    let cells = rec.fields();
    assert_eq!(cells.len(), 12);
    assert_eq!(cells[1], "rust_vec_i64");
    assert_eq!(cells[2], "WRITE_SEQUENTIAL");
    assert_eq!(cells[3], "100");
    assert_eq!(cells[4], "7");
    assert_eq!(cells[10], "0");
    assert_eq!(cells[11], "0");
}

#[test]
fn ops_formula_small() {
    assert_eq!(run(Scenario::InitOnly, 100, 1).1.ops_in_run, 1);
    assert_eq!(run(Scenario::ReadUnwritten, 100, 1).1.ops_in_run, 1000);
    assert_eq!(run(Scenario::WriteSequential, 100, 1).1.ops_in_run, 100);
    assert_eq!(run(Scenario::WriteRandom, 100, 1).1.ops_in_run, 100);
    assert_eq!(run(Scenario::Mixed { read_pct: 70 }, 100, 1).1.ops_in_run, 100);
    assert_eq!(run(Scenario::AdversarialHotspot, 100, 1).1.ops_in_run, 100);
}

#[test]
fn ops_formula_capped() {
    // Reads are ten per slot but capped at one million.
    assert_eq!(run(Scenario::ReadUnwritten, 150000, 1).1.ops_in_run, 1000000);
    // Random-access writes are capped at the size itself.
    assert_eq!(run(Scenario::WriteRandom, 150000, 1).1.ops_in_run, 150000);
    // Sequential writes always touch every slot.
    assert_eq!(run(Scenario::WriteSequential, 150000, 1).1.ops_in_run, 150000);
}

#[test]
fn init_field_zero_except_init_only() {
    for sc in catalogue() {
        let (_, res) = run(sc, 64, 3);
        if sc == Scenario::InitOnly {
            assert_eq!(res.init_time_ns, res.total_time_ns);
        } else {
            assert_eq!(res.init_time_ns, 0);
        }
    }
}

#[test]
fn ns_per_op_ratio_every_record() {
    for sc in catalogue() {
        let (_, res) = run(sc, 300, 11);
        assert!(res.ops_in_run > 0);
        let expect = (res.total_time_ns as u128) * 10000 / (res.ops_in_run as u128);
        assert_eq!(res.ns_per_op_e4 as u128, expect);
    }
}

#[test]
fn reproducible_streams() {
    let mut s1 = SeedStream::new(42);
    let mut s2 = SeedStream::new(42);
    let a = mk_idx(&mut s1, 500, 1000);
    let b = mk_idx(&mut s2, 500, 1000);
    assert_eq!(a, b);
    let ka = mk_kinds(&mut s1, 500, 70);
    let kb = mk_kinds(&mut s2, 500, 70);
    assert_eq!(ka, kb);
    let va = rand_val(&mut s1);
    let vb = rand_val(&mut s2);
    assert_eq!(va, vb);
    assert!((-1000..=1000).contains(&va));
}

#[test]
fn reproducible_final_state() {
    for sc in catalogue() {
        let (a1, _) = run(sc, 200, 99);
        let (a2, _) = run(sc, 200, 99);
        for i in 0..200 {
            assert_eq!(a1.read(i), a2.read(i));
        }
    }
}

#[test]
fn different_seeds_differ() {
    let (a1, _) = run(Scenario::WriteRandom, 500, 1);
    let (a2, _) = run(Scenario::WriteRandom, 500, 2);
    let mut same = true;
    for i in 0..500 {
        if a1.read(i) != a2.read(i) {
            same = false;
        }
    }
    assert!(!same);
}

#[test]
fn mixed_read_fraction_converges() {
    // Over many kind draws the read share approaches the read percentage.
    let mut s = SeedStream::new(1234);
    let kinds = mk_kinds(&mut s, 100000, 70);
    let reads = kinds.iter().filter(|k| **k).count();
    assert!(reads > 68000 && reads < 72000, "reads = {}", reads);
}

#[test]
fn hotspot_density_doubles_uniform() {
    assert_eq!(hot_size(100), 10);
    assert_eq!(hot_size(5), 1);
    assert_eq!(hot_size(0), 1);
    // Half the draws land in the ten hot slots, half anywhere: the hot range
    // receives about 55% of draws, far above the 10% a uniform draw gives.
    let mut s = SeedStream::new(77);
    let mut hot_hits = 0usize;
    let draws = 100000usize;
    for _ in 0..draws {
        let j = arraybench::scenario::hotspot_index(&mut s, 10, 100);
        assert!(j < 100);
        if j < 10 {
            hot_hits += 1;
        }
    }
    assert!(hot_hits > 53000 && hot_hits < 57000, "hot_hits = {}", hot_hits);
    assert!(hot_hits >= 2 * (draws / 10));
}

#[test]
fn scenario_names() {
    assert_eq!(scenario_name(Scenario::InitOnly), "INIT_ONLY");
    assert_eq!(scenario_name(Scenario::ReadUnwritten), "READ_UNWRITTEN");
    assert_eq!(scenario_name(Scenario::WriteSequential), "WRITE_SEQUENTIAL");
    assert_eq!(scenario_name(Scenario::WriteRandom), "WRITE_RANDOM");
    assert_eq!(scenario_name(Scenario::Mixed { read_pct: 90 }), "MIXED_R90W10");
    assert_eq!(scenario_name(Scenario::Mixed { read_pct: 50 }), "MIXED_R50W50");
    assert_eq!(scenario_name(Scenario::Mixed { read_pct: 10 }), "MIXED_R10W90");
    assert_eq!(scenario_name(Scenario::AdversarialHotspot), "ADVERSARIAL_HOTSPOT");
}

#[test]
fn catalogue_is_fixed() {
    let cat = catalogue();
    assert_eq!(cat.len(), 11);
    assert_eq!(cat[0], Scenario::InitOnly);
    assert_eq!(cat[1], Scenario::ReadUnwritten);
    assert_eq!(cat[2], Scenario::WriteSequential);
    assert_eq!(cat[3], Scenario::WriteRandom);
    assert_eq!(cat[4], Scenario::Mixed { read_pct: 90 });
    assert_eq!(cat[5], Scenario::Mixed { read_pct: 80 });
    assert_eq!(cat[6], Scenario::Mixed { read_pct: 70 });
    assert_eq!(cat[7], Scenario::Mixed { read_pct: 50 });
    assert_eq!(cat[8], Scenario::Mixed { read_pct: 30 });
    assert_eq!(cat[9], Scenario::Mixed { read_pct: 10 });
    assert_eq!(cat[10], Scenario::AdversarialHotspot);
}

#[test]
fn array_store_basics() {
    let mut a = VecImpl::new(4);
    assert_eq!(a.name(), "rust_vec_i64");
    for i in 0..4 {
        assert_eq!(a.read(i), 0);
    }
    a.write(2, -5);
    assert_eq!(a.read(2), -5);
    let _ns = a.init(9);
    for i in 0..4 {
        assert_eq!(a.read(i), 9);
    }
}

#[test]
fn record_rendering() {
    let res = RunResult { ops_in_run: 3, total_time_ns: 10, ns_per_op_e4: 33333, init_time_ns: 0 };
    let rec = make_record("rust_vec_i64", Scenario::Mixed { read_pct: 80 }, 100, 42, 2, &res);
    let cells = rec.fields();
    assert_eq!(cells[2], "MIXED_R80W20");
    assert_eq!(cells[5], "2");
    assert_eq!(cells[6], "3");
    assert_eq!(cells[7], "10");
    assert_eq!(cells[8], "3.3333");
    assert_eq!(cells[9], "0");
    let head = Record::header();
    assert_eq!(head.len(), 12);
    assert_eq!(head[0], "timestamp_iso");
    assert_eq!(head[8], "ns_per_op");
    assert_eq!(head[9], "init_time_ns_if_recorded");
}

#[test]
fn read_unwritten_leaves_init_values() {
    let (arr, res) = run(Scenario::ReadUnwritten, 50, 9);
    assert_eq!(res.ops_in_run, 500);
    for i in 0..50 {
        assert_eq!(arr.read(i), 123);
    }
}

#[test]
fn init_only_leaves_fill_value() {
    let (arr, res) = run(Scenario::InitOnly, 30, 9);
    assert_eq!(res.ops_in_run, 1);
    for i in 0..30 {
        assert_eq!(arr.read(i), 42);
    }
}

#[test]
fn write_random_values_in_range() {
    let (arr, _) = run(Scenario::WriteRandom, 400, 21);
    for i in 0..400 {
        let v = arr.read(i);
        assert!(v == 0 || (-1000..=1000).contains(&v));
    }
}

#[test]
fn single_slot_runs() {
    // With one slot every drawn index is zero; a run panics if any index
    // reaches the array corrupted.
    for sc in catalogue() {
        let (arr, res) = run(sc, 1, 13);
        assert!(res.ops_in_run >= 1);
        let v = arr.read(0);
        assert!(v == 0 || v == 42 || v == 123 || (-1000..=1000).contains(&v));
    }
}
