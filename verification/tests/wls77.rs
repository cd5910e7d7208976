use doprs::raw::error::ErrorKind;
use doprs::raw::profiler::{datetime_to_timestamp, Cell, Variant};
use doprs::raw::wls77::{
    decode_old, from_bytes_src, from_bytes_srcs, parse_data, parse_info, take_column, take_strided,
};

fn number(c: &Cell) -> f64 {
    match c {
        Cell::Instant { seconds, millis } => *seconds as f64 + *millis as f64 / 1000.0,
        Cell::Reading(n) => n.as_str().parse::<f64>().unwrap(),
        Cell::Whole(n) => *n as f64,
    }
}

fn numbers(v: &[Cell]) -> Vec<f64> {
    v.iter().map(number).collect()
}

fn file(altitudes: usize) -> String {
    let mut s = String::new();
    s.push_str("ID System=WLS7-77\n");
    s.push_str("CNRThreshold=-23\n");
    s.push_str("Altitudes AGL (m)=");
    for a in 0..altitudes {
        s.push_str(&format!("\t{}", 40 + 20 * a));
    }
    s.push('\n');
    s.push_str("Timestamp\tPosition\tTemperature\tWiper Count");
    for a in 0..altitudes {
        for name in ["CNR", "RWS", "RWSD", "VHm", "Dir", "u", "v", "w"] {
            s.push_str(&format!("\t{}m {}", 40 + 20 * a, name));
        }
    }
    s.push('\n');
    for row in 0..3 {
        s.push_str(&format!("2024/04/01 00:00:0{}.50", row));
        s.push_str(if row == 1 { "\tV" } else { "\t90.5" });
        s.push_str("\t21.5\t7");
        for a in 0..altitudes {
            for m in 0..8 {
                s.push_str(&format!("\t{}", 1000 * row + 100 * a + m));
            }
        }
        s.push('\n');
    }
    s
}

#[test]
fn table_of_the_newer_format() {
    let t = decode_old(file(2).as_bytes()).unwrap();
    assert_eq!(t.data_columns.len(), 20);
    assert_eq!(t.data.len(), 60);
    assert_eq!(t.data.len() % t.data_columns.len(), 0);
    assert_eq!(t.data_columns[3], "Wiper Count");
    assert_eq!(t.data[0], Cell::Instant { seconds: 1711929600, millis: 500 });
    assert_eq!(t.data[21], Cell::Whole(-1));
}

#[test]
fn columns_are_taken_apart() {
    let w = from_bytes_src(file(2).as_bytes()).unwrap();
    assert_eq!(w.system_id, "WLS7-77");
    assert_eq!(w.skipped, 0);
    assert_eq!(w.cnr_threshold.as_str(), "-23");
    assert_eq!(w.altitude.len(), 2);
    assert_eq!(numbers(&w.time), vec![1711929600.5, 1711929601.5, 1711929602.5]);
    assert_eq!(numbers(&w.position), vec![90.5, -1.0, 90.5]);
    assert_eq!(numbers(&w.temperature), vec![21.5, 21.5, 21.5]);
    assert_eq!(numbers(&w.wiper_count), vec![21.5, 21.5, 21.5]);
    assert_eq!((w.cnr.rows, w.cnr.cols), (3, 2));
    assert_eq!(numbers(&w.cnr.cells), vec![0.0, 100.0, 1000.0, 1100.0, 2000.0, 2100.0]);
    assert_eq!(numbers(&w.radial_velocity.cells), vec![1.0, 101.0, 1001.0, 1101.0, 2001.0, 2101.0]);
    assert_eq!(numbers(&w.vertical_wind.cells), vec![7.0, 107.0, 1007.0, 1107.0, 2007.0, 2107.0]);
    assert_eq!((w.vertical_wind.rows, w.vertical_wind.cols), (3, 2));
    assert_eq!(numbers(&w.wind_direction.cells)[1], 104.0);
}

#[test]
fn narrow_tables_cannot_be_taken_apart() {
    let content = b"Timestamp\tPosition\tTemperature\tWiper\tCNR\n2024/04/01 00:00:00\t1.0\t2.0\t3\t3.0\n";
    assert!(decode_old(content).is_ok());
    assert_eq!(from_bytes_src(content).unwrap_err().kind(), ErrorKind::Columns);
}

#[test]
fn eleven_columns_are_enough() {
    let mut s = String::from("Timestamp\tPosition\tTemperature\tc3\tc4\tc5\tc6\tc7\tc8\tc9\tc10\n");
    s.push_str("2024/04/01 00:00:00\t1\t2\t3\t4\t5\t6\t7\t8\t9\t10\n");
    let w = from_bytes_src(s.as_bytes()).unwrap();
    assert_eq!((w.cnr.rows, w.cnr.cols), (1, 1));
    assert_eq!(numbers(&w.meridional_wind.cells), vec![10.0]);
    assert_eq!((w.vertical_wind.rows, w.vertical_wind.cols), (1, 0));
    assert_eq!(w.vertical_wind.cells.len(), 0);
}

#[test]
fn position_letters_become_numbers() {
    let (cells, ncols) = parse_data(b"2024/04/01 00:00:00\tV\t2\n2024/04/01 00:00:01\tW\t2\n2024/04/01 00:00:02\t-3.5\t2\n").unwrap();
    assert_eq!(ncols, 3);
    assert_eq!(cells[1], Cell::Whole(-1));
    assert_eq!(cells[4], Cell::Whole(-2));
    assert_eq!(numbers(&cells)[7], -3.5);
    let mut row = b"2024/04/01 00:00:00\t".to_vec();
    row.push(0xff);
    row.extend_from_slice(b"\t2\n");
    let (cells, _) = parse_data(&row).unwrap();
    assert_eq!(cells[1], Cell::Whole(-2));
}

#[test]
fn fourth_column_is_a_reading_here() {
    let (cells, ncols) = parse_data(b"2024/04/01 00:00:00\t1\t2\t3\t4\n").unwrap();
    assert_eq!(ncols, 5);
    assert_eq!(numbers(&cells), vec![1711929600.0, 1.0, 2.0, 3.0, 4.0]);
}

#[test]
fn notes_of_the_newer_format() {
    let info = parse_info(b"Altitudes AGL (m)=\t40\t60\nAltitudes(m)=\t1\n").unwrap();
    assert_eq!(info.altitude.len(), 2);
}

#[test]
fn year_first_timestamps() {
    assert_eq!(
        datetime_to_timestamp("1970/01/02 00:00:00.5", Variant::Wls77).unwrap(),
        (86400, 500)
    );
    assert!(datetime_to_timestamp("02/01/1970 00:00:00", Variant::Wls77).is_err());
}

#[test]
fn columns_by_step() {
    let (cells, ncols) = parse_data(b"2024/04/01 00:00:00\t1\t2\t3\t4\t5\t6\t7\t8\t9\t10\t11\t12\t13\n2024/04/01 00:00:01\t21\t22\t23\t24\t25\t26\t27\t28\t29\t30\t31\t32\t33\n").unwrap();
    assert_eq!(ncols, 14);
    assert_eq!(numbers(&take_column(&cells, 14, 2, 13)), vec![13.0, 33.0]);
    let g = take_strided(&cells, 14, 2, 4);
    assert_eq!((g.rows, g.cols), (2, 2));
    assert_eq!(numbers(&g.cells), vec![4.0, 12.0, 24.0, 32.0]);
    let g = take_strided(&cells, 14, 2, 6);
    assert_eq!((g.rows, g.cols), (2, 1));
    assert_eq!(numbers(&g.cells), vec![6.0, 26.0]);
    let g = take_strided(&cells, 14, 2, 14);
    assert_eq!((g.rows, g.cols), (2, 0));
}

#[test]
fn batch_of_three_with_one_bad() {
    let good = file(1);
    let bad = String::from("Timestamp\tPosition\tTemperature\n2024/04/01 00:00:00\t1\n");
    let out = from_bytes_srcs(vec![good.as_bytes(), bad.as_bytes(), good.as_bytes()]);
    assert_eq!(out.len(), 2);
    assert_eq!(out[0], from_bytes_src(good.as_bytes()).unwrap());
    assert_eq!(out[1], out[0]);
}
