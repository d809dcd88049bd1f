use nvmon::app::{App, AppScreen};
use nvmon::process::{RunningProcess, UtilSample};
use nvmon::readings::{
    cuda_version_text, violation_percent, Counter, MemoryUse, Readings, Utilization, Violation,
};
use nvmon::sort::SortColumn;

fn nothing() -> Readings {
    Readings {
        utilization: None,
        temperature: None,
        power_mw: None,
        power_limit_mw: None,
        fan_speed: None,
        memory: None,
        driver_version: None,
        cuda_version: None,
        sm_clock: None,
        mem_clock: None,
        encoder: None,
        decoder: None,
        bar1_used: None,
        pcie_rx_kb: None,
        pcie_tx_kb: None,
        pcie_replays: None,
        power_violation: None,
        thermal_violation: None,
        compute: None,
        graphics: None,
        names: vec![],
        util_samples: None,
    }
}

fn everything() -> Readings {
    let mb = 1024 * 1024;
    Readings {
        utilization: Some(Utilization {
            gpu: 55,
            memory: 12,
        }),
        temperature: Some(67),
        power_mw: Some(123456),
        power_limit_mw: Some(350999),
        fan_speed: Some(40),
        memory: Some(MemoryUse {
            used: 2048 * mb + 5,
            total: 24564 * mb,
        }),
        driver_version: Some("550.54".to_string()),
        cuda_version: Some(12040),
        sm_clock: Some(2100),
        mem_clock: Some(9501),
        encoder: Some(3),
        decoder: Some(4),
        bar1_used: Some(17 * mb),
        pcie_rx_kb: Some(5000),
        pcie_tx_kb: Some(1023),
        pcie_replays: Some(2),
        power_violation: Some(Violation {
            violation_time: 1,
            reference_time: 3,
        }),
        thermal_violation: Some(Violation {
            violation_time: 0,
            reference_time: 3,
        }),
        compute: Some(vec![RunningProcess {
            pid: 5,
            used_bytes: Some(7 * mb),
        }]),
        graphics: None,
        names: vec![Some("job".to_string())],
        util_samples: Some(vec![UtilSample {
            pid: 5,
            sm_util: 50,
            mem_util: 6,
            enc_util: 7,
            dec_util: 8,
        }]),
    }
}

fn app() -> App {
    App::new("RTX".to_string(), 2, 10)
}

fn shown(counters: &Vec<Counter>) -> Vec<(String, String, String)> {
    counters
        .iter()
        .map(|c| (c.label.to_string(), c.value.clone(), c.unit.to_string()))
        .collect()
}

fn row(label: &str, value: &str, unit: &str) -> (String, String, String) {
    (label.to_string(), value.to_string(), unit.to_string())
}

#[test]
fn a_new_app_has_its_defaults() {
    let app = app();
    assert_eq!(app.gpu_name, "RTX");
    assert_eq!(app.gpu_idx, 2);
    assert_eq!(app.sort_column, SortColumn::Mem);
    assert!(!app.sort_ascending);
    assert_eq!(app.screen, AppScreen::Graphs);
    assert_eq!(app.gpu_temp.unit, "°C");
    assert_eq!(app.power.max_val, 500);
    assert_eq!(app.fb_used.max_val, 1);
    assert_eq!(app.mem_util.label, "Memory Bandwidth");
    assert_eq!(app.kill_confirm, None);
    assert_eq!(app.gpu_util.capacity, 10);
}

#[test]
fn switching_screens_twice_returns() {
    let mut app = app();
    app.switch_screen();
    assert_eq!(app.screen, AppScreen::Top);
    app.switch_screen();
    assert_eq!(app.screen, AppScreen::Graphs);
}

#[test]
fn readings_become_samples() {
    let mut app = app();
    app.sample(&Some(everything()));
    assert_eq!(app.gpu_util.data, vec![55]);
    assert_eq!(app.mem_util.data, vec![12]);
    assert_eq!(app.gpu_temp.data, vec![67]);
    assert_eq!(app.power.data, vec![123456]);
    assert_eq!(app.power.scale, 1000);
    assert_eq!(app.power.max_val, 350);
    assert_eq!(app.max_power_w, 350);
    assert_eq!(app.fan_speed.data, vec![40]);
    assert_eq!(app.fb_used.data, vec![2048]);
    assert_eq!(app.fb_used.max_val, 24564);
    assert_eq!(app.processes.len(), 1);
    assert_eq!(app.processes[0].name, "job");
    assert_eq!(app.processes[0].mem_mb, 7);
    assert_eq!(app.processes[0].dec_util, 8);
}

#[test]
fn missing_readings_count_as_zero() {
    let mut app = app();
    app.sample(&Some(everything()));
    app.sample(&Some(nothing()));
    assert_eq!(app.gpu_util.data, vec![55, 0]);
    assert_eq!(app.power.data, vec![123456, 0]);
    assert_eq!(app.fb_used.data, vec![2048, 0]);
    // the limits stay as they were
    assert_eq!(app.power.max_val, 350);
    assert_eq!(app.max_power_w, 350);
    assert_eq!(app.fb_used.max_val, 24564);
    assert_eq!(
        shown(&app.counters),
        vec![row("Driver", "Unknown", ""), row("", "", "")]
    );
    assert_eq!(app.processes.len(), 0);
}

#[test]
fn a_gpu_out_of_reach_changes_nothing() {
    let mut app = app();
    app.sample(&Some(everything()));
    app.sample(&None);
    assert_eq!(app.gpu_util.data, vec![55]);
    assert_eq!(app.counters.len(), 13);
    assert_eq!(app.processes.len(), 1);
}

#[test]
fn sampling_keeps_the_controls() {
    let mut app = app();
    app.filter = "abc".to_string();
    app.selected_index = 4;
    app.viewport_offset = 2;
    app.kill_confirm = Some(9);
    app.switch_screen();
    app.sample(&Some(everything()));
    assert_eq!(app.filter, "abc");
    assert_eq!(app.selected_index, 4);
    assert_eq!(app.viewport_offset, 2);
    assert_eq!(app.kill_confirm, Some(9));
    assert_eq!(app.screen, AppScreen::Top);
}

#[test]
fn counters_are_listed_in_order() {
    assert_eq!(
        shown(&everything().counters()),
        vec![
            row("Driver", "550.54", ""),
            row("CUDA", "12.4", ""),
            row("", "", ""),
            row("SM Clock", "2100", "MHz"),
            row("Mem Clock", "9501", "MHz"),
            row("Encoder", "3", "%"),
            row("Decoder", "4", "%"),
            row("BAR1 Used", "17", "MB"),
            row("PCIe RX", "4", "MB/s"),
            row("PCIe TX", "0", "MB/s"),
            row("PCIe Replays", "2", ""),
            row("Pwr limit", "33", "%"),
            row("Thrml limit", "no", ""),
        ]
    );
}

#[test]
fn limits_are_told() {
    let mut r = everything();
    r.thermal_violation = Some(Violation {
        violation_time: 1,
        reference_time: 0,
    });
    r.power_violation = Some(Violation {
        violation_time: 500,
        reference_time: 0,
    });
    let counters = shown(&r.counters());
    assert_eq!(counters[11], row("Pwr limit", "0", "%"));
    assert_eq!(counters[12], row("Thrml limit", "yes", ""));
    assert_eq!(
        violation_percent(Violation {
            violation_time: 250,
            reference_time: 1000
        }),
        25
    );
}

#[test]
fn a_limit_may_be_too_large_to_count() {
    let mut r = everything();
    assert!(r.is_countable());
    r.power_violation = Some(Violation {
        violation_time: u64::MAX / 100,
        reference_time: 1,
    });
    assert!(r.is_countable());
    r.power_violation = Some(Violation {
        violation_time: u64::MAX / 100 + 1,
        reference_time: 1,
    });
    assert!(!r.is_countable());
    r.power_violation = Some(Violation {
        violation_time: u64::MAX,
        reference_time: 0,
    });
    assert!(r.is_countable());
}

#[test]
fn cuda_versions_are_written() {
    assert_eq!(cuda_version_text(12040), "12.4");
    assert_eq!(cuda_version_text(11080), "11.8");
    assert_eq!(cuda_version_text(9), "0.0");
    assert_eq!(cuda_version_text(-12040), "-12.-4");
}

#[test]
fn the_pids_are_those_of_both_lists() {
    let mut r = nothing();
    assert_eq!(r.pids(), vec![]);
    r.graphics = Some(vec![
        RunningProcess {
            pid: 8,
            used_bytes: None,
        },
        RunningProcess {
            pid: 8,
            used_bytes: None,
        },
    ]);
    assert_eq!(r.pids(), vec![8]);
}

#[test]
fn histories_of_an_app_are_bounded() {
    let mut app = App::new("RTX".to_string(), 0, 2);
    for _ in 0..5 {
        app.sample(&Some(everything()));
    }
    assert_eq!(app.power.data, vec![123456, 123456]);
}
