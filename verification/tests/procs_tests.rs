use hardware_monitor::history::HistoryBuffer;
use hardware_monitor::procs::{
    get_process_list, record_processes, smoothed_cpu, smoothed_memory, ProcessHistoryMap,
    ProcessSample,
};
use hardware_monitor::textfmt::format_usage;

fn history_of(values: &[u64]) -> HistoryBuffer {
    let mut h = HistoryBuffer::new(60);
    for &v in values {
        h.push(v);
    }
    h
}

#[test]
fn cpu_average_over_short_history() {
    // two samples of 10.0% and 20.0% average to exactly 15.0%, not padded
    // with zeroes for the missing ticks
    let h = history_of(&[100, 200]);
    assert_eq!(smoothed_cpu(&h), 150);
    assert_eq!(format_usage(smoothed_cpu(&h)), "15");
}

#[test]
fn cpu_average_uses_only_last_five() {
    // 1.0 then five samples of 2.0: the window is the last five only
    let h = history_of(&[10, 20, 20, 20, 20, 20]);
    assert_eq!(smoothed_cpu(&h), 20);
}

#[test]
fn cpu_average_rounds_to_one_decimal() {
    // mean of 1.0 and 2.1 is 1.55, rounded half away from zero to 1.6
    let h = history_of(&[10, 21]);
    assert_eq!(smoothed_cpu(&h), 16);
    assert_eq!(format_usage(smoothed_cpu(&h)), "1.6");
}

#[test]
fn cpu_average_empty_history_is_zero() {
    let h = HistoryBuffer::new(60);
    assert_eq!(smoothed_cpu(&h), 0);
}

#[test]
fn memory_empty_history_falls_back_to_current_reading() {
    // a process with no recorded history reports its current memory, not zero
    let h = HistoryBuffer::new(60);
    assert_eq!(smoothed_memory(&h, 5125), 5125);
}

#[test]
fn memory_with_history_averages_like_cpu() {
    let h = history_of(&[100, 200]);
    assert_eq!(smoothed_memory(&h, 9999), 150);
}

#[test]
fn record_creates_histories_lazily() {
    let mut cpu = ProcessHistoryMap::new(60);
    let mut memory = ProcessHistoryMap::new(60);
    assert!(cpu.history_of(42).is_none());
    let procs = vec![ProcessSample {
        pid: 42,
        name: "init".to_string(),
        cpu_tenths: 55,
        memory_mb_tenths: 1024,
    }];
    record_processes(&mut cpu, &mut memory, &procs);
    let h = cpu.history_of(42).expect("history created on first sighting");
    assert_eq!(h.snapshot(5), vec![55]);
    let m = memory.history_of(42).expect("history created on first sighting");
    assert_eq!(m.snapshot(5), vec![1024]);
    assert!(cpu.history_of(7).is_none());
}

#[test]
fn record_appends_per_tick() {
    let mut cpu = ProcessHistoryMap::new(60);
    let mut memory = ProcessHistoryMap::new(60);
    for tick in 1..=3u64 {
        let procs = vec![ProcessSample {
            pid: 1,
            name: "svc".to_string(),
            cpu_tenths: tick * 10,
            memory_mb_tenths: tick,
        }];
        record_processes(&mut cpu, &mut memory, &procs);
    }
    let h = cpu.history_of(1).unwrap();
    assert_eq!(h.snapshot(5), vec![30, 20, 10]);
}

#[test]
fn process_list_reports_smoothed_strings() {
    let mut cpu = ProcessHistoryMap::new(60);
    let mut memory = ProcessHistoryMap::new(60);
    let tick = vec![
        ProcessSample { pid: 1, name: "a".to_string(), cpu_tenths: 100, memory_mb_tenths: 20 },
        ProcessSample { pid: 2, name: "b".to_string(), cpu_tenths: 5, memory_mb_tenths: 7 },
    ];
    record_processes(&mut cpu, &mut memory, &tick);
    let second = vec![
        ProcessSample { pid: 1, name: "a".to_string(), cpu_tenths: 200, memory_mb_tenths: 40 },
        ProcessSample { pid: 3, name: "c".to_string(), cpu_tenths: 9, memory_mb_tenths: 33 },
    ];
    record_processes(&mut cpu, &mut memory, &second);
    let list = get_process_list(&second, &cpu, &memory);
    assert_eq!(list.len(), 2);
    assert_eq!(list[0].pid, 1);
    assert_eq!(list[0].name, "a");
    // history of pid 1 is [100, 200]: mean 150 tenths
    assert_eq!(list[0].cpu_usage, "15");
    // memory history of pid 1 is [20, 40]: mean 30 tenths
    assert_eq!(list[0].memory_usage, "3");
    // pid 3 was first seen this tick: one sample of 0.9% and 3.3 MB
    assert_eq!(list[1].pid, 3);
    assert_eq!(list[1].cpu_usage, "0.9");
    assert_eq!(list[1].memory_usage, "3.3");
}

#[test]
fn process_list_unknown_pid_reports_zero_cpu_and_current_memory() {
    let cpu = ProcessHistoryMap::new(60);
    let memory = ProcessHistoryMap::new(60);
    let procs = vec![ProcessSample {
        pid: 9,
        name: "new".to_string(),
        cpu_tenths: 77,
        memory_mb_tenths: 128,
    }];
    let list = get_process_list(&procs, &cpu, &memory);
    assert_eq!(list[0].cpu_usage, "0");
    assert_eq!(list[0].memory_usage, "12.8");
}
