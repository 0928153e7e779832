use telemetry_panel::channel::{columns_from, drain, tokenize_records, Record};
use telemetry_panel::panel::MultiPlot;
use telemetry_panel::plot::RealTimePlot;
use telemetry_panel::query::{ingest_outcome, query_record, IngestError};
use telemetry_panel::samples::{collect_samples, split_samples};
use telemetry_panel::series::{visible_window, Point, SeriesBuffer};

fn convert(token: &String) -> Result<u64, String> {
    token.parse::<f64>().map(f64::to_bits).map_err(|e| e.to_string())
}

fn pt(x: f64, y: f64) -> Point {
    (x.to_bits(), y.to_bits())
}

fn strings(v: &[&str]) -> Vec<String> {
    v.iter().map(|s| s.to_string()).collect()
}

fn plot(name: &str, x: &str, ys: &[&str]) -> RealTimePlot {
    RealTimePlot::new(name.to_string(), x.to_string(), strings(ys)).unwrap()
}

/// One consumer pass over the records of the given query strings.
fn pass(panel: &mut MultiPlot, queries: &[&str], stamp: i64) -> usize {
    let records: Vec<Record> = queries.iter().map(|q| query_record(Some(*q))).collect();
    let cols = tokenize_records(&records);
    let parsed: Vec<Vec<Result<u64, String>>> =
        cols.iter().map(|c| c.tokens.iter().map(convert).collect()).collect();
    panel.process_pass(columns_from(&cols, &parsed), stamp)
}

fn messages(panel: &MultiPlot) -> Vec<String> {
    panel.logs.iter().map(|e| e.message.clone()).collect()
}

#[test]
fn test_split() {
    let a = "123,456";
    let tokens = split_samples(a);
    assert_eq!(tokens, strings(&["123", "456"]));
    let nums: Vec<f64> = tokens.iter().map(|s| s.parse::<f64>().unwrap()).collect();
    assert_eq!(nums, vec![123.0, 456.0]);
}

#[test]
fn pass_of_split_values_counts_and_pairs_samples() {
    let mut panel = MultiPlot::new(1, vec![plot("P", "t", &["v"])]);
    let records: Vec<Record> =
        vec![vec![("t".to_string(), " 1  2,".to_string()), ("v".to_string(), "123,456".to_string())]];
    let cols = tokenize_records(&records);
    let parsed: Vec<Vec<Result<u64, String>>> =
        cols.iter().map(|c| c.tokens.iter().map(convert).collect()).collect();
    assert_eq!(panel.process_pass(columns_from(&cols, &parsed), 0), 4);
    assert_eq!(panel.plots[0].series[0].points(), vec![pt(1.0, 123.0), pt(2.0, 456.0)]);
}

#[test]
fn split_drops_empty_tokens_between_mixed_delimiters() {
    assert_eq!(split_samples(" 1, 2,,3 "), strings(&["1", "2", "3"]));
    assert_eq!(split_samples(""), Vec::<String>::new());
    assert_eq!(split_samples(", ,"), Vec::<String>::new());
    assert_eq!(split_samples("-1.5e3"), strings(&["-1.5e3"]));
}

#[test]
fn collect_rejects_the_whole_value_and_names_the_first_bad_token() {
    let tokens = split_samples("1,2,x,4");
    let parsed: Vec<Result<u64, String>> = tokens.iter().map(convert).collect();
    let err = collect_samples(&tokens, &parsed).unwrap_err();
    assert_eq!(err.token, "x");
    assert_eq!(err.message(), "cannot parse \"x\": invalid float literal");

    let tokens = split_samples("1 2");
    let parsed: Vec<Result<u64, String>> = tokens.iter().map(convert).collect();
    assert_eq!(
        collect_samples(&tokens, &parsed).ok().unwrap(),
        vec![1.0f64.to_bits(), 2.0f64.to_bits()]
    );
}

#[test]
fn latest_follows_appends_and_resets() {
    let mut b = SeriesBuffer::new();
    assert_eq!(b.latest(), (0, 0));
    b.append(vec![pt(1.0, 2.0), pt(3.0, 4.0)]);
    assert_eq!(b.latest(), pt(3.0, 4.0));
    b.append(vec![]);
    assert_eq!(b.latest(), pt(3.0, 4.0));
    assert_eq!(b.points(), vec![pt(1.0, 2.0), pt(3.0, 4.0)]);
    b.reset();
    assert_eq!(b.len(), 0);
    assert_eq!(b.latest(), (0, 0));
    b.reset();
    assert_eq!(b.len(), 0);
    assert_eq!(b.latest(), (0, 0));
}

#[test]
fn plot_refuses_repeated_axis_names() {
    assert!(RealTimePlot::new("p".to_string(), "t".to_string(), strings(&["a", "a"])).is_none());
    assert!(RealTimePlot::new("p".to_string(), "t".to_string(), strings(&["a", "t"])).is_none());
    let p = plot("p", "t", &["a", "b"]);
    assert_eq!(p.series.len(), 2);
    assert_eq!(p.all_axis_names(), strings(&["t", "a", "b"]));
}

#[test]
fn plot_append_by_name() {
    let mut p = plot("p", "t", &["a", "b"]);
    p.append(&"b".to_string(), vec![pt(1.0, 5.0)]);
    p.append(&"zz".to_string(), vec![pt(2.0, 6.0)]);
    assert_eq!(p.series[0].len(), 0);
    assert_eq!(p.series[1].points(), vec![pt(1.0, 5.0)]);
    p.clean_data();
    assert_eq!(p.series[1].len(), 0);
}

#[test]
fn scenario_pairs_and_truncates() {
    let mut panel = MultiPlot::new(14514, vec![plot("P", "t", &["temp"])]);
    assert_eq!(pass(&mut panel, &["t=1,2,3&temp=10,20,30"], 1), 6);
    let s = &panel.plots[0].series[0];
    assert_eq!(s.points(), vec![pt(1.0, 10.0), pt(2.0, 20.0), pt(3.0, 30.0)]);
    assert_eq!(s.latest(), pt(3.0, 30.0));
    pass(&mut panel, &["t=4&temp=40,41"], 2);
    let s = &panel.plots[0].series[0];
    assert_eq!(s.len(), 4);
    assert_eq!(s.point(3), pt(4.0, 40.0));
    assert_eq!(s.latest(), pt(4.0, 40.0));
    assert!(panel.logs.is_empty());
}

#[test]
fn scenario_unknown_column_is_logged_once() {
    let mut panel = MultiPlot::new(14514, vec![plot("P", "t", &["temp"])]);
    pass(&mut panel, &["foo=1,2"], 7);
    assert_eq!(messages(&panel), strings(&["Unknown column name: {foo}"]));
    assert_eq!(panel.logs[0].stamp, 7);
    assert_eq!(panel.plots[0].series[0].len(), 0);
}

#[test]
fn only_unknown_columns_give_one_entry_listing_all() {
    let mut panel = MultiPlot::new(1, vec![plot("P", "t", &["temp"])]);
    pass(&mut panel, &["a=1&b=2", "a=3"], 0);
    assert_eq!(messages(&panel), strings(&["Unknown column name: {b, a}"]));
    assert_eq!(panel.plots[0].series[0].len(), 0);
}

#[test]
fn malformed_column_is_logged_and_siblings_still_append() {
    let mut panel =
        MultiPlot::new(1, vec![plot("A", "t", &["temp"]), plot("B", "t", &["hum"])]);
    assert_eq!(pass(&mut panel, &["t=1,2&temp=1,2,x,4&hum=5,6"], 3), 4);
    assert_eq!(messages(&panel), strings(&["cannot parse \"x\": invalid float literal"]));
    assert_eq!(panel.plots[0].series[0].len(), 0);
    assert_eq!(panel.plots[1].series[0].points(), vec![pt(1.0, 5.0), pt(2.0, 6.0)]);
}

#[test]
fn growth_is_the_shorter_length_for_every_series() {
    let mut panel = MultiPlot::new(1, vec![plot("P", "t", &["a", "b"])]);
    pass(&mut panel, &["t=1,2,3&a=1&b=1 2 3 4"], 0);
    assert_eq!(panel.plots[0].series[0].len(), 1);
    assert_eq!(panel.plots[0].series[1].len(), 3);
    pass(&mut panel, &["t=9&a=5"], 0);
    assert_eq!(panel.plots[0].series[0].len(), 2);
    assert_eq!(panel.plots[0].series[1].len(), 3);
}

#[test]
fn later_record_replaces_earlier_column_in_a_pass() {
    let mut panel = MultiPlot::new(1, vec![plot("P", "t", &["y"])]);
    pass(&mut panel, &["t=1,2&y=1,2", "y=7"], 0);
    assert_eq!(panel.plots[0].series[0].points(), vec![pt(1.0, 7.0)]);
}

#[test]
fn reset_empties_every_series_and_keeps_the_log() {
    let mut panel = MultiPlot::new(1, vec![plot("P", "t", &["y"])]);
    pass(&mut panel, &["t=1&y=1&q=0"], 0);
    panel.reset();
    panel.reset();
    assert_eq!(panel.plots[0].series[0].len(), 0);
    assert_eq!(panel.plots[0].series[0].latest(), (0, 0));
    assert_eq!(panel.logs.len(), 1);
    panel.append_log("hello");
    assert_eq!(panel.logs[1].message, "hello");
}

#[test]
fn drain_takes_everything_then_nothing() {
    let (tx, mut rx) = tokio::sync::mpsc::channel::<Record>(512);
    for i in 0..5 {
        tx.try_send(vec![("t".to_string(), i.to_string())]).unwrap();
    }
    let got = drain(&mut rx);
    assert_eq!(got.len(), 5);
    assert_eq!(got[4], vec![("t".to_string(), "4".to_string())]);
    assert!(drain(&mut rx).is_empty());
    tx.try_send(vec![]).unwrap();
    drop(tx);
    assert_eq!(drain(&mut rx).len(), 1);
    assert!(drain(&mut rx).is_empty());
}

#[test]
fn drain_of_a_full_channel_takes_all_in_order() {
    let (tx, mut rx) = tokio::sync::mpsc::channel::<Record>(2);
    tx.try_send(vec![("a".to_string(), "1".to_string())]).unwrap();
    tx.try_send(vec![("b".to_string(), "2".to_string())]).unwrap();
    assert!(tx.try_send(vec![]).is_err());
    let got = drain(&mut rx);
    assert_eq!(got.len(), 2);
    assert_eq!(got[0][0].0, "a");
    assert_eq!(got[1][0].0, "b");
    assert!(drain(&mut rx).is_empty());
}

#[test]
fn query_is_percent_decoded_in_order() {
    let r = query_record(Some("a%20b=1+2&c=3,4&&d"));
    assert_eq!(
        r,
        vec![
            ("a b".to_string(), "1 2".to_string()),
            ("c".to_string(), "3,4".to_string()),
            ("d".to_string(), String::new()),
        ]
    );
    assert!(query_record(None).is_empty());
    assert!(query_record(Some("")).is_empty());
}

#[test]
fn tokenize_flattens_records_in_order() {
    let records = vec![query_record(Some("x=1,2")), query_record(Some("y=3&z="))];
    let cols = tokenize_records(&records);
    let names: Vec<String> = cols.iter().map(|c| c.name.clone()).collect();
    assert_eq!(names, strings(&["x", "y", "z"]));
    assert_eq!(cols[0].tokens, strings(&["1", "2"]));
    assert!(cols[2].tokens.is_empty());
}

#[test]
fn ingest_errors() {
    assert_eq!(ingest_outcome(false, false), Err(IngestError::NotReady));
    assert_eq!(ingest_outcome(true, false), Err(IngestError::Closed));
    assert_eq!(ingest_outcome(true, true), Ok(()));
    assert_eq!(IngestError::NotReady.message(), "not ready: no channel is installed");
    assert_eq!(IngestError::Closed.message(), "channel closed by the receiver");
}

#[test]
fn window_keeps_the_newest_points_of_long_series() {
    assert_eq!(visible_window(5), (0, 5));
    assert_eq!(visible_window(99_999), (0, 99_999));
    assert_eq!(visible_window(100_000), (0, 100_000));
    assert_eq!(visible_window(100_001), (90_001, 100_001));
    assert_eq!(visible_window(250_000), (240_000, 250_000));
}
