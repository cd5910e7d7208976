use doprs::raw::error::ErrorKind;
use doprs::raw::profiler::{
    datetime_to_timestamp, find_notes_len, parse_rows, read_column_names, Cell, Variant,
};
use doprs::raw::wls70::{from_bytes_src, from_bytes_srcs, parse_data, parse_info};

fn value(c: &Cell) -> f64 {
    match c {
        Cell::Instant { seconds, millis } => *seconds as f64 + *millis as f64 / 1000.0,
        Cell::Reading(n) => n.as_str().parse::<f64>().unwrap(),
        Cell::Whole(n) => *n as f64,
    }
}

fn values(v: &[Cell]) -> Vec<f64> {
    v.iter().map(value).collect()
}

fn sample() -> String {
    let mut s = String::new();
    s.push_str("HeaderSize=5\r\n");
    s.push_str("ID System=WLS70-10\r\n");
    s.push_str("CNRThreshold=-32.5\r\n");
    s.push_str("Altitudes(m)=\t100\t150\t200\r\n");
    s.push_str("\r\n");
    s.push_str("Date\tPosition\tTemperature\tWiper\tCNR\r\n");
    s.push_str("01/01/2020 00:00:00\t1.0\t2.0\tOn\t3.0\r\n");
    s.push_str("01/01/2020 00:00:10.25\t90\t2.5\tOff\t-4.5\r\n");
    s
}

#[test]
fn banner_with_one_row() {
    let content = b"Date\tPosition\tTemperature\tWiper\tCNR\n01/01/2020 00:00:00\t1.0\t2.0\tOn\t3.0\n";
    let t = from_bytes_src(content).unwrap();
    assert_eq!(t.data_columns, vec!["Date", "Position", "Temperature", "Wiper", "CNR"]);
    assert_eq!(t.data.len(), 5);
    assert_eq!(value(&t.data[3]), 1.0);
    assert_eq!(values(&t.data), vec![1577836800.0, 1.0, 2.0, 1.0, 3.0]);
}

#[test]
fn decodes_notes_and_rows() {
    let t = from_bytes_src(sample().as_bytes()).unwrap();
    assert_eq!(t.info.system_id, "WLS70-10");
    assert_eq!(t.info.cnr_threshold.as_str(), "-32.5");
    let alt: Vec<&str> = t.info.altitude.iter().map(|n| n.as_str()).collect();
    assert_eq!(alt, vec!["100", "150", "200"]);
    assert_eq!(t.data_columns.len(), 5);
    assert_eq!(t.data.len() % t.data_columns.len(), 0);
    assert_eq!(
        values(&t.data),
        vec![1577836800.0, 1.0, 2.0, 1.0, 3.0, 1577836810.25, 90.0, 2.5, 0.0, -4.5]
    );
    assert_eq!(t.data[5], Cell::Instant { seconds: 1577836810, millis: 250 });
    assert_eq!(t.data[3], Cell::Whole(1));
    assert_eq!(t.data[8], Cell::Whole(0));
}

#[test]
fn wiper_must_be_on_or_off() {
    let content = b"Date\tPosition\tTemperature\tWiper\tCNR\n01/01/2020 00:00:00\t1.0\t2.0\tMaybe\t3.0\n";
    let e = from_bytes_src(content).unwrap_err();
    assert_eq!(e.kind(), ErrorKind::StateToken);
    let e = parse_data(b"01/01/2020 00:00:00\t1.0\t2.0\t1\t3.0\n").unwrap_err();
    assert_eq!(e.kind(), ErrorKind::StateToken);
}

#[test]
fn rows_must_have_equal_width() {
    let e = parse_data(b"01/01/2020 00:00:00\t1\t2\tOn\n01/01/2020 00:00:01\t1\t2\n").unwrap_err();
    assert_eq!(e.kind(), ErrorKind::Columns);
    assert_eq!(e.message(), "Unexpected number of columns");
}

#[test]
fn no_rows_is_a_failure() {
    assert_eq!(parse_data(b"").unwrap_err().kind(), ErrorKind::Columns);
    assert_eq!(parse_data(b"\n\r\n\n").unwrap_err().kind(), ErrorKind::Columns);
    assert_eq!(from_bytes_src(b"no banner here\n").unwrap_err().kind(), ErrorKind::Columns);
}

#[test]
fn banner_and_rows_must_agree() {
    let content = b"Date\tPosition\tTemperature\tWiper\n01/01/2020 00:00:00\t1.0\t2.0\tOn\t3.0\n";
    let e = from_bytes_src(content).unwrap_err();
    assert_eq!(e.kind(), ErrorKind::ColumnMismatch);
}

#[test]
fn unreadable_value_is_left_out() {
    let e = parse_data(b"01/01/2020 00:00:00\tx\t2.0\tOn\n").unwrap_err();
    assert_eq!(e.kind(), ErrorKind::Columns);
    let (cells, ncols) =
        parse_data(b"01/01/2020 00:00:00\tx\t2.0\tOn\t5\n01/01/2020 00:00:01\tx\t2.0\tOn\t5\n01/01/2020 00:00:02\tx\t2.0\tOn\t5\n01/01/2020 00:00:03\tx\t2.0\tOn\t5\n01/01/2020 00:00:04\tx\t2.0\tOn\t5\n").unwrap();
    assert_eq!(ncols, 5);
    assert_eq!(cells.len(), 20);
}

#[test]
fn left_out_values_are_counted() {
    let sheet = parse_rows(b"01/01/2020 00:00:00\t1\t2.0\tOn\t5\n", Variant::Wls70).unwrap();
    assert_eq!((sheet.ncols, sheet.skipped, sheet.cells.len()), (5, 0, 5));
    let mut rows = Vec::new();
    for second in 0..5 {
        rows.extend_from_slice(format!("01/01/2020 00:00:0{}\tx\t2.0\tOn\t5\n", second).as_bytes());
    }
    let sheet = parse_rows(&rows, Variant::Wls70).unwrap();
    assert_eq!((sheet.ncols, sheet.skipped, sheet.cells.len()), (5, 5, 20));
    let mut content = b"Date\tPosition\tTemperature\tWiper\tCNR\n".to_vec();
    content.extend_from_slice(&rows);
    let t = from_bytes_src(&content).unwrap();
    assert_eq!(t.skipped, 5);
    assert_eq!(t.data.len() % t.data_columns.len(), 0);
    assert_eq!(from_bytes_src(sample().as_bytes()).unwrap().skipped, 0);
}

#[test]
fn unreadable_time_is_left_out() {
    let e = parse_data(b"yesterday\t1\t2.0\tOn\n").unwrap_err();
    assert_eq!(e.kind(), ErrorKind::Columns);
}

#[test]
fn blank_lines_and_lone_returns_are_skipped() {
    let (cells, ncols) =
        parse_data(b"\r\n01/01/2020 00:00:00\t\t1\t2.0\tOn\t\r\n\n").unwrap();
    assert_eq!(ncols, 4);
    assert_eq!(values(&cells), vec![1577836800.0, 1.0, 2.0, 1.0]);
}

#[test]
fn notes_of_the_older_format() {
    let info = parse_info(b"Altitudes(m)=\t40\t 80 \nID System= abc \nCNRThreshold= -30 \nunknown=1\n")
        .unwrap();
    assert_eq!(info.system_id, "abc");
    assert_eq!(info.cnr_threshold.as_str(), "-30");
    assert_eq!(info.altitude.len(), 2);
    assert_eq!(info.altitude[1].as_str(), "80");
    let info = parse_info(b"Altitudes AGL (m)=\t40\n").unwrap();
    assert_eq!(info.altitude.len(), 0);
    assert_eq!(info.cnr_threshold.as_str(), "0");
}

#[test]
fn bad_notes_are_failures() {
    assert_eq!(parse_info(b"Altitudes(m)=\t40\thigh\n").unwrap_err().kind(), ErrorKind::Number);
    assert_eq!(parse_info(b"Altitudes(m)=\t40\t\n").unwrap_err().kind(), ErrorKind::Number);
    assert_eq!(parse_info(b"CNRThreshold=low\n").unwrap_err().kind(), ErrorKind::Number);
    let mut line = b"ID System=".to_vec();
    line.push(0xff);
    assert_eq!(parse_info(&line).unwrap_err().kind(), ErrorKind::Encoding);
    let mut line = b"Altitudes(m)=\t".to_vec();
    line.push(0xff);
    assert_eq!(parse_info(&line).unwrap_err().kind(), ErrorKind::Encoding);
}

#[test]
fn notes_end_at_the_banner() {
    assert_eq!(find_notes_len(b"a\nb\nDate\tPosition\tTemperature\nx"), 4);
    assert_eq!(find_notes_len(b"Timestamp\tPosition\tTemperature\tq\nx"), 0);
    assert_eq!(find_notes_len(b"a\nb"), 3);
    assert_eq!(find_notes_len(b""), 0);
}

#[test]
fn column_names_are_trimmed() {
    assert_eq!(read_column_names(b"Date\t Position \t\tCNR\r"), vec!["Date", "Position", "CNR"]);
    assert_eq!(read_column_names(b"").len(), 0);
    assert_eq!(read_column_names(&[b'a', 0xe9]), vec!["a\u{e9}"]);
}

#[test]
fn day_first_timestamps() {
    assert_eq!(
        datetime_to_timestamp("02/01/1970 00:00:00.5", Variant::Wls70).unwrap(),
        (86400, 500)
    );
    assert_eq!(
        datetime_to_timestamp("1970/01/02 00:00:00", Variant::Wls70).unwrap_err().kind(),
        ErrorKind::DateTime
    );
}

#[test]
fn batch_of_tables() {
    let good = sample();
    let bad = String::from("nothing");
    let out = from_bytes_srcs(vec![bad.as_bytes(), good.as_bytes()]);
    assert_eq!(out.len(), 1);
    assert_eq!(out[0], from_bytes_src(good.as_bytes()).unwrap());
}
