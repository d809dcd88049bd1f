use nvmon::series::TimeSeries;
use nvmon::style::Color;

fn series(capacity: usize) -> TimeSeries {
    TimeSeries::new("GPU Core", "%", 1, 100, Color::Green, capacity)
}

#[test]
fn a_new_series_is_empty() {
    let s = series(3);
    assert_eq!(s.current(), 0);
    assert_eq!(s.label, "GPU Core");
    assert_eq!(s.unit, "%");
    assert_eq!(s.max_val, 100);
    assert_eq!(s.chart_data(), vec![(0, 0), (1, 0), (2, 0)]);
}

#[test]
fn samples_stand_at_the_right() {
    let mut s = series(4);
    s.push(5);
    s.push(6);
    assert_eq!(s.chart_data(), vec![(0, 0), (1, 0), (2, 5), (3, 6)]);
    assert_eq!(s.current(), 6);
    assert_eq!(s.chart_data()[3].1, s.current());
}

#[test]
fn the_history_keeps_the_newest() {
    let mut s = series(3);
    for v in 1..=7 {
        s.push(v);
        assert!(s.data.len() <= 3);
    }
    assert_eq!(s.data, vec![5, 6, 7]);
    assert_eq!(s.chart_data(), vec![(0, 5), (1, 6), (2, 7)]);
}

#[test]
fn a_sample_scrolls_the_chart() {
    let mut s = series(3);
    s.push(1);
    s.push(2);
    let before = s.chart_data();
    s.push(9);
    let after = s.chart_data();
    assert_eq!(after[0].1, before[1].1);
    assert_eq!(after[1].1, before[2].1);
    assert_eq!(after[2].1, 9);
}

#[test]
fn a_series_without_room_stays_empty() {
    let mut s = series(0);
    s.push(5);
    assert_eq!(s.data.len(), 0);
    assert_eq!(s.current(), 0);
    assert_eq!(s.chart_data(), vec![]);
}
