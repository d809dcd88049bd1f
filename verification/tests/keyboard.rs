use nvmon::app::AppScreen;
use nvmon::keys::{Action, Key, KeyEvent};
use nvmon::layout::Area;
use nvmon::monitor::{check_gpu, Monitor};
use nvmon::picture::Body;
use nvmon::process::GpuProcess;
use nvmon::rate::{poll_timeout, sample_due, slow_down, speed_up, TimeSpan};
use nvmon::sort::SortColumn;
use nvmon::style::{bold_on, Color};

fn event(key: Key) -> KeyEvent {
    KeyEvent {
        key,
        control: false,
        shift: false,
        pressed: true,
    }
}

fn monitor(gpus: usize) -> Monitor {
    let mut names = Vec::new();
    for _ in 0..gpus {
        names.push(Some("RTX".to_string()));
    }
    let mut m = Monitor::new(&names, 0, 1000, 10);
    for pid in [11, 22, 33] {
        m.apps[0].processes.push(GpuProcess {
            pid,
            name: "job".to_string(),
            mem_mb: pid as u64,
            sm_util: 0,
            mem_util: 0,
            enc_util: 0,
            dec_util: 0,
            is_compute: true,
            is_graphics: false,
        });
    }
    m
}

fn press(m: &mut Monitor, key: Key) -> Action {
    assert!(m.can_handle(event(key)));
    m.handle(event(key))
}

fn on_the_list() -> Monitor {
    let mut m = monitor(1);
    press(&mut m, Key::Tab);
    m
}

#[test]
fn the_first_gpu_is_checked() {
    assert_eq!(check_gpu(1, 2), Ok(1));
    assert_eq!(
        check_gpu(2, 2),
        Err("GPU index 2 out of range (found 2 GPU(s))".to_string())
    );
    assert_eq!(
        check_gpu(0, 0),
        Err("GPU index 0 out of range (found 0 GPU(s))".to_string())
    );
}

#[test]
fn a_monitor_watches_every_gpu() {
    let m = Monitor::new(&vec![Some("A".to_string()), None], 1, 250, 10);
    assert_eq!(m.current_gpu, 1);
    assert_eq!(m.tick_ms, 250);
    assert_eq!(m.apps[0].gpu_name, "A");
    assert_eq!(m.apps[1].gpu_name, "Unknown");
    assert_eq!(m.apps[1].gpu_idx, 1);
}

#[test]
fn keys_quit() {
    let mut m = monitor(1);
    assert_eq!(press(&mut m, Key::Char('q')), Action::Quit);
    assert_eq!(press(&mut m, Key::Esc), Action::Quit);
    let mut interrupt = event(Key::Char('c'));
    assert_eq!(m.handle(interrupt), Action::Continue);
    interrupt.control = true;
    assert_eq!(m.handle(interrupt), Action::Quit);
    let mut released = event(Key::Char('q'));
    released.pressed = false;
    assert_eq!(m.handle(released), Action::Continue);
}

#[test]
fn tab_twice_comes_back() {
    let mut m = monitor(1);
    press(&mut m, Key::Tab);
    assert_eq!(m.apps[0].screen, AppScreen::Top);
    press(&mut m, Key::Tab);
    assert_eq!(m.apps[0].screen, AppScreen::Graphs);
}

#[test]
fn gpus_form_a_ring() {
    let mut m = monitor(3);
    press(&mut m, Key::Left);
    assert_eq!(m.current_gpu, 2);
    press(&mut m, Key::Right);
    assert_eq!(m.current_gpu, 0);
    press(&mut m, Key::Right);
    assert_eq!(m.current_gpu, 1);
    press(&mut m, Key::Left);
    assert_eq!(m.current_gpu, 0);
}

#[test]
fn the_sample_rate_moves_in_steps() {
    assert_eq!(slow_down(1), 50);
    assert_eq!(slow_down(50), 100);
    assert_eq!(slow_down(0), 50);
    assert_eq!(slow_down(2449), 2499);
    assert_eq!(slow_down(2480), 2500);
    assert_eq!(slow_down(u64::MAX), 2500);
    assert_eq!(speed_up(100), 50);
    assert_eq!(speed_up(50), 1);
    assert_eq!(speed_up(52), 2);
    assert_eq!(speed_up(0), 1);
    assert_eq!(speed_up(10000), 9950);
    let mut m = monitor(1);
    press(&mut m, Key::Char('+'));
    assert_eq!(m.tick_ms, 1050);
    press(&mut m, Key::Char('='));
    assert_eq!(m.tick_ms, 1100);
    press(&mut m, Key::Char('-'));
    assert_eq!(m.tick_ms, 1050);
}

#[test]
fn steps_of_the_sample_rate_undo_each_other() {
    for t in 1..=2450 {
        assert_eq!(speed_up(slow_down(t)), t);
    }
    let mut t = 50;
    while t <= 2500 {
        assert_eq!(slow_down(speed_up(t)), t);
        t += 50;
    }
    assert_eq!(slow_down(speed_up(51)), 50);
    assert_eq!(speed_up(slow_down(2480)), 2450);
}

#[test]
fn the_wait_is_what_is_left() {
    let elapsed = TimeSpan {
        secs: 0,
        nanos: 400_000_000,
    };
    assert_eq!(
        poll_timeout(1050, elapsed),
        TimeSpan {
            secs: 0,
            nanos: 650_000_000
        }
    );
    assert_eq!(
        poll_timeout(2500, elapsed),
        TimeSpan {
            secs: 2,
            nanos: 100_000_000
        }
    );
    assert_eq!(poll_timeout(400, elapsed), TimeSpan { secs: 0, nanos: 0 });
    assert!(sample_due(400, elapsed));
    assert!(!sample_due(401, elapsed));
    let longest = poll_timeout(u64::MAX, TimeSpan { secs: 0, nanos: 0 });
    assert_eq!(longest.secs, u64::MAX / 1000);
    assert_eq!(longest.nanos, 615_000_000);
    assert!(sample_due(0, TimeSpan { secs: 0, nanos: 0 }));
}

#[test]
fn the_selection_moves() {
    let mut m = on_the_list();
    press(&mut m, Key::Up);
    assert_eq!(m.apps[0].selected_index, 0);
    press(&mut m, Key::Down);
    press(&mut m, Key::Down);
    press(&mut m, Key::Up);
    assert_eq!(m.apps[0].selected_index, 1);
    m.apps[0].selected_index = usize::MAX;
    assert!(!m.can_handle(event(Key::Down)));
    assert!(m.can_handle(event(Key::Up)));
    press(&mut m, Key::Tab);
    assert!(m.can_handle(event(Key::Down)));
}

#[test]
fn the_order_is_chosen() {
    let mut m = on_the_list();
    press(&mut m, Key::Char('s'));
    assert_eq!(m.apps[0].sort_column, SortColumn::SmUtil);
    press(&mut m, Key::Char('S'));
    assert_eq!(m.apps[0].sort_column, SortColumn::Mem);
    let mut shifted = event(Key::Char('s'));
    shifted.shift = true;
    m.handle(shifted);
    assert_eq!(m.apps[0].sort_column, SortColumn::Name);
    press(&mut m, Key::Char('o'));
    assert!(m.apps[0].sort_ascending);
    press(&mut m, Key::Char('o'));
    assert!(!m.apps[0].sort_ascending);
}

#[test]
fn the_filter_is_typed() {
    let mut m = on_the_list();
    press(&mut m, Key::Char('f'));
    assert!(m.apps[0].filter_editing);
    for c in ['j', 'o', 'é', 'k'] {
        press(&mut m, Key::Char(c));
    }
    assert_eq!(m.apps[0].filter, "joék");
    press(&mut m, Key::Backspace);
    press(&mut m, Key::Backspace);
    assert_eq!(m.apps[0].filter, "jo");
    assert_eq!(m.apps[0].kill_confirm, None);
    press(&mut m, Key::Down);
    assert_eq!(m.apps[0].selected_index, 0);
    press(&mut m, Key::Enter);
    assert!(!m.apps[0].filter_editing);
    press(&mut m, Key::Char('f'));
    for _ in 0..5 {
        press(&mut m, Key::Backspace);
    }
    assert_eq!(m.apps[0].filter, "");
    // the keys of the whole screen keep their meaning
    assert_eq!(press(&mut m, Key::Char('q')), Action::Quit);
    assert_eq!(m.apps[0].handle_list_key(Key::Esc, false), None);
    assert!(!m.apps[0].filter_editing);
}

#[test]
fn killing_asks_first() {
    let mut m = on_the_list();
    assert_eq!(press(&mut m, Key::Char('y')), Action::Continue);
    press(&mut m, Key::Down);
    assert_eq!(press(&mut m, Key::Char('k')), Action::Continue);
    assert_eq!(m.apps[0].kill_confirm, Some(22));
    assert_eq!(press(&mut m, Key::Char('y')), Action::Kill(22));
    assert_eq!(m.apps[0].kill_confirm, None);
    assert_eq!(press(&mut m, Key::Char('y')), Action::Continue);
}

#[test]
fn a_question_names_its_answers() {
    let screen = Area {
        x: 0,
        y: 0,
        width: 120,
        height: 20,
    };
    let mut m = on_the_list();
    press(&mut m, Key::Char('k'));
    let (_, picture) = m.draw(screen);
    match picture.unwrap().body {
        Body::Top { processes, .. } => {
            assert!(processes.title.contains("[y]") && processes.title.contains("[n]"));
        }
        Body::Graphs { .. } => panic!("the wrong screen"),
    }
    // while there is a question, the filter cannot be typed
    press(&mut m, Key::Char('f'));
    assert!(!m.apps[0].filter_editing);
    // and while the filter is typed, no question comes up
    press(&mut m, Key::Char('f'));
    press(&mut m, Key::Char('k'));
    assert!(m.apps[0].filter_editing);
    assert_eq!(m.apps[0].kill_confirm, None);
}

#[test]
fn any_other_key_ends_the_question() {
    for key in [Key::Char('n'), Key::Down, Key::Enter, Key::Char('k'), Key::Other] {
        let mut m = on_the_list();
        press(&mut m, Key::Char('k'));
        assert_eq!(m.apps[0].kill_confirm, Some(33));
        assert_eq!(press(&mut m, key), Action::Continue);
        assert_eq!(m.apps[0].kill_confirm, None);
        assert_eq!(m.apps[0].selected_index, 0);
    }
}

#[test]
fn a_selection_beyond_the_list_asks_nothing() {
    let mut m = on_the_list();
    m.apps[0].selected_index = 3;
    press(&mut m, Key::Char('k'));
    assert_eq!(m.apps[0].kill_confirm, None);
    let rows = m.apps[0].display_rows();
    m.apps[0].selected_index = 2;
    m.apps[0].choose_target(&rows);
    assert_eq!(m.apps[0].kill_confirm, Some(11));
}

#[test]
fn the_highlighted_process_is_killed() {
    let area = Area {
        x: 0,
        y: 0,
        width: 120,
        height: 8,
    };
    let mut m = on_the_list();
    m.apps[0].selected_index = 9;
    let (_, picture) = m.draw(area);
    let highlighted = match picture.unwrap().body {
        Body::Top { processes, .. } => {
            let mut found = Vec::new();
            for line in processes.lines {
                if line.spans[0].style == bold_on(Color::Black, Color::White) {
                    found.push(line.spans[0].text.clone());
                }
            }
            found
        }
        Body::Graphs { .. } => panic!("the wrong screen"),
    };
    assert_eq!(highlighted.len(), 1);
    assert!(highlighted[0].starts_with("      11 │"));
    press(&mut m, Key::Char('k'));
    assert_eq!(press(&mut m, Key::Char('y')), Action::Kill(11));
}

#[test]
fn the_list_keys_do_nothing_on_the_graphs() {
    let mut m = monitor(2);
    for key in [Key::Char('k'), Key::Char('f'), Key::Down, Key::Char('o'), Key::Enter] {
        assert_eq!(press(&mut m, key), Action::Continue);
    }
    assert_eq!(m.apps[0].kill_confirm, None);
    assert!(!m.apps[0].filter_editing);
    assert_eq!(m.apps[0].selected_index, 0);
    assert!(!m.apps[0].sort_ascending);
}

#[test]
fn keys_reach_only_the_shown_gpu() {
    let mut m = monitor(2);
    press(&mut m, Key::Right);
    press(&mut m, Key::Tab);
    assert_eq!(m.apps[0].screen, AppScreen::Graphs);
    assert_eq!(m.apps[1].screen, AppScreen::Top);
    assert_eq!(m.apps[0].processes.len(), 3);
    m.sample(0, &None);
    assert_eq!(m.apps[0].gpu_util.data.len(), 0);
}
