use nvmon::app::App;
use nvmon::process::GpuProcess;
use nvmon::sort::{arrange, SortColumn};

fn process(pid: u32, name: &str, mem_mb: u64, sm: u32) -> GpuProcess {
    GpuProcess {
        pid,
        name: name.to_string(),
        mem_mb,
        sm_util: sm,
        mem_util: 100 - sm,
        enc_util: sm / 10,
        dec_util: pid % 3,
        is_compute: true,
        is_graphics: false,
    }
}

fn four() -> Vec<GpuProcess> {
    vec![
        process(40, "Xorg", 300, 5),
        process(10, "python", 900, 90),
        process(30, "Blender", 300, 40),
        process(20, "PyCharm", 50, 0),
    ]
}

fn app() -> App {
    let mut app = App::new("GPU".to_string(), 0, 10);
    app.processes = four();
    app
}

#[test]
fn columns_follow_one_another() {
    let columns = [
        SortColumn::Pid,
        SortColumn::Name,
        SortColumn::Mem,
        SortColumn::SmUtil,
        SortColumn::MemUtil,
        SortColumn::EncUtil,
        SortColumn::DecUtil,
    ];
    for i in 0..7 {
        assert_eq!(columns[i].next(), columns[(i + 1) % 7]);
        assert_eq!(columns[i].prev(), columns[(i + 6) % 7]);
        assert_eq!(columns[i].next().prev(), columns[i]);
        assert_eq!(columns[i].prev().next(), columns[i]);
        assert_eq!(SortColumn::from_place(i), columns[i]);
        let mut c = columns[i];
        for _ in 0..7 {
            c = c.next();
        }
        assert_eq!(c, columns[i]);
    }
}

#[test]
fn columns_have_headings() {
    let mut column = SortColumn::Pid;
    for label in ["PID", "Command", "Mem", "SM%", "Mem%", "Enc%", "Dec%"] {
        assert_eq!(column.label(), label);
        column = column.next();
    }
}

#[test]
fn the_list_begins_with_the_largest_memory() {
    // 300 MB twice: those stay in the order of the table
    assert_eq!(app().display_rows(), vec![1, 0, 2, 3]);
}

#[test]
fn every_column_sorts() {
    let mut app = app();
    app.sort_ascending = true;
    for (column, rows) in [
        (SortColumn::Pid, vec![1, 3, 2, 0]),
        (SortColumn::Name, vec![2, 3, 1, 0]),
        (SortColumn::Mem, vec![3, 0, 2, 1]),
        (SortColumn::SmUtil, vec![3, 0, 2, 1]),
        (SortColumn::MemUtil, vec![1, 2, 0, 3]),
        (SortColumn::EncUtil, vec![0, 3, 2, 1]),
        (SortColumn::DecUtil, vec![2, 0, 1, 3]),
    ] {
        app.sort_column = column;
        assert_eq!(app.display_rows(), rows);
    }
}

#[test]
fn a_reversed_list_keeps_equal_rows_in_place() {
    let mut app = app();
    app.sort_column = SortColumn::Mem;
    app.sort_ascending = true;
    assert_eq!(app.display_rows(), vec![3, 0, 2, 1]);
    app.sort_ascending = false;
    assert_eq!(app.display_rows(), vec![1, 0, 2, 3]);
}

#[test]
fn the_list_agrees_with_a_stable_sort() {
    let processes = four();
    let lowered: Vec<String> = processes.iter().map(|p| p.name.to_lowercase()).collect();
    for ascending in [true, false] {
        let mut wanted: Vec<usize> = vec![0, 1, 2, 3];
        wanted.sort_by(|&i, &j| {
            let order = processes[i].mem_mb.cmp(&processes[j].mem_mb);
            if ascending {
                order
            } else {
                order.reverse()
            }
        });
        let rows = arrange(&processes, &lowered, "", SortColumn::Mem, ascending);
        assert_eq!(rows, wanted);
    }
}

#[test]
fn the_filter_disregards_case() {
    let mut app = app();
    app.filter = "PY".to_string();
    assert_eq!(app.display_rows(), vec![1, 3]);
    app.filter = "py".to_string();
    assert_eq!(app.display_rows(), vec![1, 3]);
    app.filter = "nothing".to_string();
    assert_eq!(app.display_rows(), vec![]);
    app.filter = String::new();
    assert_eq!(app.display_rows().len(), 4);
}

#[test]
fn a_filter_moves_no_row() {
    let mut app = app();
    let whole = app.display_rows();
    for filter in ["o", "py", "e", "x"] {
        app.filter = filter.to_string();
        let mut left = Vec::new();
        for &row in &whole {
            if app.processes[row].name.to_lowercase().contains(filter) {
                left.push(row);
            }
        }
        assert_eq!(app.display_rows(), left);
    }
}

#[test]
fn every_passing_process_is_listed_once() {
    let mut app = app();
    for filter in ["", "o", "py", "x"] {
        app.filter = filter.to_string();
        let rows = app.display_rows();
        for p in 0..4 {
            let times = rows.iter().filter(|&&r| r == p).count();
            let passes = app.processes[p].name.to_lowercase().contains(filter);
            assert_eq!(times, if passes { 1 } else { 0 });
        }
    }
}
