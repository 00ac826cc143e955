use perf_bench::render_table;
use perf_bench::HardwareEvent;
use perf_bench::PerfCounters;
use perf_bench::SoftwareEvent;

#[test]
fn it_works() {
    let mut bencher = PerfCounters::for_pid(0);
    bencher.with_hardware_events(vec![
        HardwareEvent::Instructions,
        HardwareEvent::CPUCycles,
    ]);
    bencher.with_software_events(vec![SoftwareEvent::TaskClock]);
    bencher.with_all_tlb_cache_events();
    bencher.with_all_mem_cache_events();
    bencher.bench(|| {
        let mut a = 0;
        for i in 0..100 {
            a += i;
        }
        println!("{}", a);
    });
}

#[test]
fn bench_returns_the_work_result_and_runs_it_once() {
    let mut group = PerfCounters::for_pid(0);
    let mut calls = 0;
    let r = group.bench(|| {
        calls += 1;
        41 + 1
    });
    assert_eq!(r, 42);
    assert_eq!(calls, 1);
}

#[test]
fn bench_with_no_counters_adds_no_records() {
    let mut group = PerfCounters::for_pid(0);
    assert_eq!(group.counter_count(), 0);
    let r = group.bench(|| "done");
    assert_eq!(r, "done");
    assert_eq!(group.results().len(), 0);
}

#[test]
fn consecutive_bench_calls_append_to_the_accumulator() {
    let mut group = PerfCounters::for_pid(0);
    group.with_hardware_events(vec![
        HardwareEvent::Instructions,
        HardwareEvent::CPUCycles,
    ]);
    let k = group.counter_count();
    group.bench(|| 1);
    let after_one = group.results().len();
    assert!(after_one <= k);
    group.bench(|| 2);
    let after_two = group.results().len();
    // Records are only ever appended, at most one per counter per call.
    assert!(after_two >= after_one);
    assert!(after_two - after_one <= k);
}

#[test]
fn export_of_empty_accumulator_renders_nothing() {
    let records: Vec<(String, u64)> = vec![];
    assert!(render_table(&records).is_none());
}

#[test]
fn export_round_trip_of_two_records() {
    let records: Vec<(String, u64)> = vec![("A".to_string(), 10), ("B".to_string(), 20)];
    let text = render_table(&records).unwrap();
    assert_eq!(text, "A,B\n10,20\n");

    let mut lines = text.lines();
    let header = lines.next().unwrap();
    let values = lines.next().unwrap();
    assert!(lines.next().is_none());
    let parsed: Vec<(String, u64)> = header
        .split(',')
        .zip(values.split(','))
        .map(|(n, v)| (n.to_string(), v.parse::<u64>().unwrap()))
        .collect();
    assert_eq!(parsed, records);
}

#[test]
fn export_renders_single_record_and_extreme_values() {
    let records: Vec<(String, u64)> = vec![("X".to_string(), 0)];
    assert_eq!(render_table(&records).unwrap(), "X\n0\n");

    let records: Vec<(String, u64)> = vec![
        ("max".to_string(), u64::MAX),
        ("one".to_string(), 1),
        ("ten".to_string(), 10),
    ];
    assert_eq!(
        render_table(&records).unwrap(),
        "max,one,ten\n18446744073709551615,1,10\n"
    );
}
