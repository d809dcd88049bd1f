use nvmon::app::App;
use nvmon::draw::{draw, draw_title};
use nvmon::graphs::draw_graph;
use nvmon::layout::{clamp_selection, plan_graphs, plan_screen, scroll, Area};
use nvmon::metrics::Bound;
use nvmon::picture::{Body, Panel};
use nvmon::process::GpuProcess;
use nvmon::readings::Counter;
use nvmon::series::TimeSeries;
use nvmon::side::{draw_counters, draw_gpu_info, draw_side_line, spread_line};
use nvmon::style::{bold, bold_on, ink, raw, Color, Line};
use nvmon::top::{check_names, draw_header, draw_list, draw_row, draw_row_text, draw_top};

fn area(width: u16, height: u16) -> Area {
    Area {
        x: 0,
        y: 0,
        width,
        height,
    }
}

fn process(pid: u32, name: &str) -> GpuProcess {
    GpuProcess {
        pid,
        name: name.to_string(),
        mem_mb: 512,
        sm_util: 98,
        mem_util: 7,
        enc_util: 0,
        dec_util: 100,
        is_compute: true,
        is_graphics: false,
    }
}

fn app_with(count: u32) -> App {
    let mut app = App::new("RTX 4090".to_string(), 1, 5);
    for pid in 0..count {
        app.processes.push(process(pid, "job"));
    }
    app.switch_screen();
    app
}

fn text(line: &Line) -> String {
    line.spans.iter().map(|s| s.text.as_str()).collect()
}

fn texts(panel: &Panel) -> Vec<String> {
    panel.lines.iter().map(text).collect()
}

#[test]
fn the_screen_is_divided() {
    let plan = plan_screen(area(100, 30));
    assert_eq!(plan.title, area(100, 1));
    assert_eq!(
        plan.body,
        Area {
            x: 0,
            y: 1,
            width: 100,
            height: 29
        }
    );
    assert_eq!(
        plan.main,
        Area {
            x: 0,
            y: 1,
            width: 72,
            height: 29
        }
    );
    assert_eq!(
        plan.side,
        Area {
            x: 72,
            y: 1,
            width: 28,
            height: 29
        }
    );
}

#[test]
fn graphs_share_their_area() {
    let parts = plan_graphs(area(50, 60));
    assert_eq!(parts.len(), 6);
    for i in 0..6 {
        assert_eq!(
            parts[i],
            Area {
                x: 0,
                y: 10 * i as u16,
                width: 50,
                height: 10
            }
        );
    }
}

#[test]
fn every_screen_is_divided_alike() {
    let mut sizes: Vec<u16> = (0..300).collect();
    sizes.extend([767, 999, 1000, 4095, 12345, 32767, 32768, 50001, 65000]);
    for &size in &sizes {
        for from in [0, 1, 7, 535] {
            let screen = Area {
                x: from,
                y: from,
                width: size,
                height: size,
            };
            let plan = plan_screen(screen);
            let line = if size > 0 { 1 } else { 0 };
            let main = if size >= 68 {
                size - 28
            } else if size >= 40 {
                40
            } else {
                size
            };
            assert_eq!(plan.title, Area { height: line, ..screen });
            let body = Area {
                y: from + line,
                height: size - line,
                ..screen
            };
            assert_eq!(plan.body, body);
            assert_eq!(plan.main, Area { width: main, ..body });
            let side = Area {
                x: from + main,
                width: size - main,
                ..body
            };
            assert_eq!(plan.side, side);
        }
    }
}

#[test]
fn every_height_is_shared_evenly() {
    let mut sizes: Vec<u16> = (0..300).collect();
    sizes.extend([767, 999, 1000, 4095, 12345, 32767, 32768, 50001, 65000]);
    for &size in &sizes {
        for from in [0, 1, 7, 535] {
            let parts = plan_graphs(Area {
                x: 3,
                y: from,
                width: 50,
                height: size,
            });
            assert_eq!(parts.len(), 6);
            for i in 0..6u32 {
                let begin = (i * size as u32 + 3) / 6;
                let end = ((i + 1) * size as u32 + 3) / 6;
                let part = Area {
                    x: 3,
                    y: from + begin as u16,
                    width: 50,
                    height: (end - begin) as u16,
                };
                assert_eq!(parts[i as usize], part);
                assert!(part.height == size / 6 || part.height == size / 6 + 1);
            }
        }
    }
}

#[test]
fn selections_are_clamped() {
    assert_eq!(clamp_selection(5, 0), 0);
    assert_eq!(clamp_selection(5, 3), 2);
    assert_eq!(clamp_selection(1, 3), 1);
    assert_eq!(clamp_selection(usize::MAX, 1), 0);
}

#[test]
fn scrolling_brings_the_selection_into_view() {
    assert_eq!(scroll(0, 3, 4), 0);
    assert_eq!(scroll(0, 4, 4), 1);
    assert_eq!(scroll(5, 2, 4), 2);
    assert_eq!(scroll(5, 8, 4), 5);
    for first in 0..9 {
        for selected in 0..9 {
            for height in 1..5 {
                let now = scroll(first, selected, height);
                assert!(now <= selected && selected < now + height);
                assert_eq!(scroll(now, selected, height), now);
            }
        }
    }
}

#[test]
fn without_room_scrolling_goes_past_the_selection() {
    assert_eq!(scroll(0, 3, 0), 4);
    assert_eq!(scroll(4, 3, 0), 3);
}

#[test]
fn values_are_spread_over_the_side() {
    let line = draw_side_line("Encoder", ink(Color::DarkGray), "3 %");
    assert_eq!(text(&line), "Encoder                3 %");
    assert_eq!(text(&line).len(), 26);
    assert_eq!(line.spans[0].style, ink(Color::DarkGray));
    assert_eq!(line.spans[1].style, raw());
    assert_eq!(line.spans[2].style, bold(Color::White));
    // two columns for each of these characters
    let wide = draw_side_line("日本", raw(), "x");
    assert_eq!(wide.spans[1].text.len(), 21);
    let full = draw_side_line("a label of twenty columns", raw(), "and more");
    assert_eq!(full.spans[1].text, "");
    let given = spread_line("a", raw(), "b", 10, 13);
    assert_eq!(given.spans[1].text, "   ");
    let far = spread_line("a", raw(), "b", usize::MAX, usize::MAX);
    assert_eq!(far.spans[1].text, "");
}

#[test]
fn counters_show_their_units() {
    let mut app = app_with(0);
    app.counters.push(Counter {
        label: "SM Clock",
        unit: "MHz",
        value: "2100".to_string(),
    });
    app.counters.push(Counter {
        label: "PCIe Replays",
        unit: "",
        value: "2".to_string(),
    });
    let panel = draw_counters(&app, area(28, 20));
    assert_eq!(panel.title, " Counters ");
    assert_eq!(panel.title_style, bold(Color::White));
    assert_eq!(panel.border_style, ink(Color::DarkGray));
    assert_eq!(
        texts(&panel),
        vec!["SM Clock          2100 MHz", "PCIe Replays             2"]
    );
}

#[test]
fn the_gpu_panel_lists_metrics_and_counters() {
    let mut app = app_with(0);
    app.gpu_util.push(42);
    app.power.push(123500);
    app.max_power_w = 350;
    app.fb_used.push(2048);
    app.fb_used.max_val = 24564;
    app.counters.push(Counter {
        label: "CUDA",
        unit: "",
        value: "12.4".to_string(),
    });
    let panel = draw_gpu_info(&app, area(28, 20));
    assert_eq!(panel.title, " GPU Info ");
    assert_eq!(
        texts(&panel),
        vec![
            "GPU Core              42 %",
            "VRAM Used    2048/24564 MB",
            "Temperature           0 °C",
            "Power            124/350 W",
            "Fan Speed              0 %",
            "Memory Bandwidth       0 %",
            "",
            "CUDA                  12.4",
        ]
    );
    assert_eq!(panel.lines[3].spans[0].style, ink(Color::Magenta));
}

#[test]
fn graphs_have_titles_and_scales() {
    let mut power = TimeSeries::new("Power", "W", 1000, 350, Color::Magenta, 3);
    power.push(99500);
    let graph = draw_graph(&power, Bound::Limit(350), area(40, 10));
    assert_eq!(graph.title, " Power: 100 W / 350 W ");
    assert_eq!(graph.y_labels, vec!["  0", "175", "350"]);
    assert_eq!(graph.points, vec![(0, 0), (1, 0), (2, 99500)]);
    assert_eq!(graph.scale, 1000);
    assert_eq!(graph.x_max, 2);
    assert_eq!(graph.y_max, 350);
    assert_eq!(graph.title_style, bold(Color::Magenta));
    assert_eq!(graph.line_style, ink(Color::Magenta));
    assert_eq!(graph.border_style, ink(Color::DarkGray));

    let mut memory = TimeSeries::new("VRAM Used", "MB", 1, 24565, Color::Cyan, 1);
    memory.push(10);
    let graph = draw_graph(&memory, Bound::Scale, area(40, 10));
    assert_eq!(graph.title, " VRAM Used: 10 / 24565 MB ");
    assert_eq!(graph.y_labels, vec!["    0", "12282", "24565"]);
    assert_eq!(graph.x_max, 1);

    let core = TimeSeries::new("GPU Core", "%", 1, 100, Color::Green, 0);
    let graph = draw_graph(&core, Bound::Open, area(40, 10));
    assert_eq!(graph.title, " GPU Core: 0 % ");
    assert_eq!(graph.y_labels, vec!["  0", " 50", "100"]);
    assert_eq!(graph.points, vec![]);
}

#[test]
fn the_title_lists_the_keys() {
    let mut app = app_with(0);
    app.switch_screen();
    let line = draw_title(&app, 2, "1s");
    assert_eq!(
        text(&line),
        " nvmon  GPU 1/1: RTX 4090 [q] quit, [←][→] change gpu, [tab] switch to processes, \
         [Esc][Ctrl-C] quit, [+][=][−] change sample rate (current: 1s)"
    );
    assert_eq!(line.spans[0].style, bold_on(Color::Black, Color::Green));
    app.switch_screen();
    app.filter = "py".to_string();
    let line = draw_title(&app, 1, "1s");
    assert_eq!(
        text(&line),
        " nvmon  GPU 1: RTX 4090 [q] quit, [tab] switch to graphs, [Esc][Ctrl-C] quit, [↑][↓] scroll, [k] kill, \
         [s][S] sort col, [o] order, [f] filter | sort: Mem desc, filter: py"
    );
}

#[test]
fn every_key_is_named_on_a_title() {
    let mut app = app_with(0);
    let list = text(&draw_title(&app, 2, "1s"));
    app.switch_screen();
    let graphs = text(&draw_title(&app, 2, "1s"));
    for key in ["q", "Esc", "Ctrl-C", "tab", "←", "→"] {
        let name = format!("[{}]", key);
        assert!(graphs.contains(&name) && list.contains(&name));
    }
    for key in ["+", "=", "−"] {
        assert!(graphs.contains(&format!("[{}]", key)));
    }
    for key in ["↑", "↓", "k", "s", "S", "o", "f"] {
        assert!(list.contains(&format!("[{}]", key)));
    }
    let alone = text(&draw_title(&app, 1, "1s"));
    assert!(!alone.contains("change gpu"));
}

#[test]
fn the_sample_rate_is_told() {
    for (tick_ms, told) in [(1000, "1s"), (50, "50ms"), (1050, "1.05s"), (1, "1ms")] {
        let mut app = app_with(0);
        app.switch_screen();
        let (_, picture) = draw(&mut app, 1, tick_ms, area(100, 30));
        let title = text(&picture.unwrap().title);
        let end = format!("(current: {})", told);
        assert!(title.ends_with(&end));
    }
}

#[test]
fn headings_mark_the_sorted_column() {
    let mut app = app_with(0);
    let line = draw_header(&app);
    assert_eq!(
        text(&line),
        "     PID │  Command                         │    ▼ Mem │      SM% │     Mem% │     \
         Enc% │     Dec% | Type"
    );
    assert_eq!(line.spans.len(), 14);
    assert_eq!(line.spans[4].style, bold(Color::Green));
    assert_eq!(line.spans[0].style, bold(Color::DarkGray));
    assert_eq!(line.spans[1].text, " │ ");
    app.sort_ascending = true;
    assert_eq!(draw_header(&app).spans[4].text, "   ▲ Mem");
    for i in 0..7 {
        let width = draw_header(&app).spans[2 * i].text.chars().count();
        assert_eq!(width, if i == 1 { 32 } else { 8 });
    }
}

#[test]
fn rows_are_aligned() {
    let p = process(1234, "/usr/bin/python3");
    assert_eq!(
        draw_row_text(&p),
        format!(
            "{:>8} │ {:<32} │ {:>8} │ {:>8} │ {:>8} │ {:>8} │ {:>8} │ ",
            1234, "/usr/bin/python3", "512 MB", "98%", "7%", "0%", "100%"
        )
    );
    let long = process(1, "0123456789abcdef0123456789abcdefXYZ");
    assert!(draw_row_text(&long).contains(" 0123456789abcdef0123456789abcdef │"));
}

#[test]
fn rows_tell_the_use_and_the_state() {
    let mut p = process(1, "job");
    let line = draw_row(&p, false, false);
    assert_eq!(line.spans.len(), 2);
    assert_eq!(line.spans[0].style, ink(Color::Gray));
    assert_eq!(line.spans[1].text, "COMPUTE ");
    assert_eq!(line.spans[1].style, ink(Color::Magenta));

    p.is_graphics = true;
    let line = draw_row(&p, false, true);
    assert_eq!(line.spans[0].style, bold_on(Color::Black, Color::White));
    assert_eq!(line.spans[1].text, "GRAPHICS");
    assert_eq!(line.spans[1].style, bold_on(Color::Green, Color::White));
    assert_eq!(line.spans[2].text, " | ");
    assert_eq!(line.spans[3].style, bold_on(Color::Magenta, Color::White));

    p.is_compute = false;
    let line = draw_row(&p, true, true);
    assert_eq!(line.spans[1].text, "GRAPHICS ");
    assert_eq!(line.spans[0].style, bold_on(Color::White, Color::Red));
    assert_eq!(line.spans[1].style, bold_on(Color::White, Color::Red));

    p.is_graphics = false;
    assert_eq!(draw_row(&p, false, false).spans[1].text, "?");
}

#[test]
fn the_list_scrolls_with_the_selection() {
    let mut app = app_with(10);
    app.selected_index = 7;
    // room for three rows
    let panel = draw_top(&mut app, area(120, 7)).unwrap();
    assert_eq!(panel.lines.len(), 5);
    assert_eq!(app.viewport_offset, 5);
    assert_eq!(app.selected_index, 7);
    assert_eq!(panel.lines[4].spans[0].style, bold_on(Color::Black, Color::White));
    assert_eq!(panel.lines[3].spans[0].style, ink(Color::Gray));
    assert_eq!(text(&panel.lines[1]), "─".repeat(118));
    assert_eq!(panel.title, " Processes (10) ");

    let again = draw_top(&mut app, area(120, 7)).unwrap();
    assert_eq!(texts(&again), texts(&panel));
    assert_eq!(app.viewport_offset, 5);
    assert_eq!(app.selected_index, 7);

    app.selected_index = 99;
    draw_top(&mut app, area(120, 7)).unwrap();
    assert_eq!(app.selected_index, 9);
    assert_eq!(app.viewport_offset, 7);
}

#[test]
fn an_empty_list_says_so() {
    let mut app = app_with(0);
    app.selected_index = 3;
    let panel = draw_top(&mut app, area(60, 20)).unwrap();
    assert_eq!(panel.lines.len(), 3);
    assert_eq!(text(&panel.lines[2]), "  No GPU processes found");
    assert_eq!(panel.title, " Processes (0) ");
    assert_eq!(app.selected_index, 0);
}

#[test]
fn the_frame_asks_and_edits() {
    let mut app = app_with(2);
    app.kill_confirm = Some(1);
    let panel = draw_top(&mut app, area(60, 20)).unwrap();
    assert_eq!(panel.title, " Kill PID 1? [y]es / [n]o ");
    assert_eq!(panel.border_style, ink(Color::Red));
    assert_eq!(panel.title_style, bold(Color::Red));
    assert_eq!(panel.lines[3].spans[0].style, bold_on(Color::White, Color::Red));
    app.kill_confirm = None;
    app.filter_editing = true;
    app.filter = "jo".to_string();
    let panel = draw_top(&mut app, area(60, 20)).unwrap();
    assert_eq!(panel.title, " Filter: jo▏");
    assert_eq!(panel.border_style, ink(Color::Yellow));
    app.filter_editing = false;
    let panel = draw_top(&mut app, area(60, 20)).unwrap();
    assert_eq!(panel.border_style, ink(Color::DarkGray));
    assert_eq!(panel.title_style, bold(Color::White));
}

#[test]
fn a_name_that_cannot_be_cut_stops_the_drawing_when_shown() {
    let split = "0123456789abcdef0123456789abcdeé and more";
    let mut app = app_with(5);
    app.processes.push(process(5, split));
    // the last row is out of view here
    assert!(draw_top(&mut app, area(60, 7)).is_some());
    assert!(draw_top(&mut app, area(60, 30)).is_none());
    assert_eq!(app.selected_index, 0);
    let (_, picture) = draw(&mut app, 1, 1000, area(100, 30));
    assert!(picture.is_none());
    app.switch_screen();
    let (_, picture) = draw(&mut app, 1, 1000, area(100, 30));
    assert!(picture.is_some());
    assert!(!check_names(&app, &vec![5], area(60, 30)));
    assert!(check_names(&app, &vec![0, 1], area(60, 30)));
}

#[test]
fn a_given_list_is_drawn() {
    let mut app = app_with(3);
    let panel = draw_list(&mut app, &vec![2, 0], area(60, 20));
    assert_eq!(panel.lines.len(), 4);
    assert!(text(&panel.lines[2]).starts_with("       2 │"));
    assert!(text(&panel.lines[3]).starts_with("       0 │"));
    assert_eq!(panel.title, " Processes (2) ");
}

fn inside(part: Area, area: Area) -> bool {
    part.x >= area.x
        && part.y >= area.y
        && part.x + part.width <= area.x + area.width
        && part.y + part.height <= area.y + area.height
}

#[test]
fn nothing_is_drawn_off_the_screen() {
    for width in [0, 1, 2, 27, 28, 29, 40, 67, 68, 69, 80, 131, 200] {
        for height in [0, 1, 2, 3, 5, 6, 7, 13, 24, 61] {
            let screen = area(width, height);
            let mut app = app_with(30);
            let (plan, picture) = draw(&mut app, 1, 1000, screen);
            assert!(inside(plan.title, screen));
            match picture.unwrap().body {
                Body::Top { processes, info } => {
                    assert!(inside(processes.area, screen));
                    assert!(inside(info.area, screen));
                    if processes.area.height > 4 {
                        assert!(processes.lines.len() + 2 <= processes.area.height as usize);
                    }
                }
                Body::Graphs { .. } => panic!("the wrong screen"),
            }
            app.switch_screen();
            let (_, picture) = draw(&mut app, 1, 1000, screen);
            match picture.unwrap().body {
                Body::Graphs { graphs, counters } => {
                    for graph in graphs {
                        assert!(inside(graph.area, screen));
                    }
                    assert!(inside(counters.area, screen));
                }
                Body::Top { .. } => panic!("the wrong screen"),
            }
        }
    }
}

#[test]
fn rows_stand_below_one_another() {
    let mut first = process(7, "/usr/bin/python3");
    first.mem_mb = 3;
    let second = process(12345678, "naïve naïve naïve naïve naïve na");
    let third = process(1, "0123456789abcdef0123456789abcdefXYZ");
    for p in [&first, &second, &third] {
        assert_eq!(draw_row_text(p).chars().count(), 101);
    }
    let wide = process(1234567890, "job");
    assert_eq!(draw_row_text(&wide).chars().count(), 103);
}

#[test]
fn both_screens_are_drawn() {
    let mut app = app_with(2);
    app.switch_screen();
    let (plan, picture) = draw(&mut app, 1, 1000, area(100, 31));
    let picture = picture.unwrap();
    assert_eq!(picture.plan, plan);
    match picture.body {
        Body::Graphs { graphs, counters } => {
            assert_eq!(graphs.len(), 6);
            assert_eq!(graphs[0].title, " GPU Core: 0 % ");
            assert_eq!(graphs[1].title, " VRAM Used: 0 / 1 MB ");
            assert_eq!(graphs[2].title, " Temperature: 0 °C ");
            assert_eq!(graphs[3].title, " Power: 0 W / 0 W ");
            assert_eq!(graphs[4].title, " Fan Speed: 0 % ");
            assert_eq!(graphs[5].title, " Memory Bandwidth: 0 % ");
            assert_eq!(graphs[5].area.width, plan.main.width);
            assert_eq!(counters.area, plan.side);
        }
        Body::Top { .. } => panic!("the wrong screen"),
    }
    app.switch_screen();
    let (plan, picture) = draw(&mut app, 1, 1000, area(100, 31));
    match picture.unwrap().body {
        Body::Top { processes, info } => {
            assert_eq!(processes.area, plan.main);
            assert_eq!(processes.title, " Processes (2) ");
            assert_eq!(info.area, plan.side);
            assert_eq!(info.title, " GPU Info ");
        }
        Body::Graphs { .. } => panic!("the wrong screen"),
    }
}
