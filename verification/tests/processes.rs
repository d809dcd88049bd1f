use nvmon::process::{build_table, pids_to_name, RunningProcess, UtilSample};

const MB: u64 = 1024 * 1024;

fn running(pid: u32, used: u64) -> RunningProcess {
    RunningProcess {
        pid,
        used_bytes: Some(used),
    }
}

fn sample(pid: u32, sm: u32) -> UtilSample {
    UtilSample {
        pid,
        sm_util: sm,
        mem_util: sm + 1,
        enc_util: sm + 2,
        dec_util: sm + 3,
    }
}

#[test]
fn names_are_asked_for_once() {
    let compute = vec![running(7, 0), running(3, 0), running(7, 0)];
    let graphics = vec![running(3, 0), running(9, 0)];
    assert_eq!(pids_to_name(&compute, &graphics), vec![7, 3, 9]);
    assert_eq!(pids_to_name(&vec![], &vec![]), vec![]);
}

#[test]
fn the_lists_are_merged() {
    let compute = vec![running(7, 5 * MB), running(3, MB - 1), running(7, 2 * MB)];
    let graphics = vec![
        RunningProcess {
            pid: 9,
            used_bytes: None,
        },
        running(7, 6 * MB + 1),
    ];
    let names = vec![Some("seven".to_string()), None, Some("nine".to_string())];
    let samples = vec![sample(7, 10), sample(3, 20), sample(7, 30)];
    let table = build_table(&names, &compute, &graphics, &samples);
    assert_eq!(table.len(), 3);

    assert_eq!(table[0].pid, 7);
    assert_eq!(table[0].name, "seven");
    assert_eq!(table[0].mem_mb, 6);
    assert!(table[0].is_compute && table[0].is_graphics);
    assert_eq!(table[0].sm_util, 30);
    assert_eq!(table[0].mem_util, 31);
    assert_eq!(table[0].enc_util, 32);
    assert_eq!(table[0].dec_util, 33);

    assert_eq!(table[1].pid, 3);
    assert_eq!(table[1].name, "<unknown>");
    assert_eq!(table[1].mem_mb, 0);
    assert!(table[1].is_compute && !table[1].is_graphics);
    assert_eq!(table[1].sm_util, 20);

    assert_eq!(table[2].pid, 9);
    assert_eq!(table[2].name, "nine");
    assert_eq!(table[2].mem_mb, 0);
    assert!(!table[2].is_compute && table[2].is_graphics);
    assert_eq!(table[2].dec_util, 0);
}

#[test]
fn the_memory_is_the_peak() {
    let compute = vec![running(1, 3 * MB), running(1, 8 * MB), running(1, 4 * MB)];
    let table = build_table(&vec![None], &compute, &vec![], &vec![]);
    assert_eq!(table.len(), 1);
    assert_eq!(table[0].mem_mb, 8);
}

#[test]
fn samples_of_other_processes_are_ignored() {
    let compute = vec![running(1, MB)];
    let names = vec![Some("one".to_string())];
    let without = build_table(&names, &compute, &vec![], &vec![sample(1, 5)]);
    let with = build_table(&names, &compute, &vec![], &vec![sample(1, 5), sample(2, 90)]);
    assert_eq!(with, without);
    assert_eq!(with.len(), 1);
}
