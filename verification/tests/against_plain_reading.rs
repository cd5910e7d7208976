use doprs::raw::error::ErrorKind;
use doprs::raw::halo_hpl::{infer_data_shape, parse_data};
use doprs::raw::numeral::Numeral;
use doprs::raw::profiler::{parse_rows, Cell, Variant};

struct Dice(u64);

impl Dice {
    fn roll(&mut self, sides: u64) -> u64 {
        self.0 = self.0.wrapping_mul(6364136223846793005).wrapping_add(1442695040888963407);
        (self.0 >> 33) % sides
    }
}

fn doubles(v: &[Numeral]) -> Vec<f64> {
    v.iter().map(|n| n.as_str().parse::<f64>().unwrap()).collect()
}

/// The series of a body, read with nested loops over a running index.
fn plain_body(
    body: &[u8],
    ngates: usize,
) -> Option<(usize, usize, Vec<Vec<f64>>, Vec<Vec<f64>>)> {
    let mut lines = body.split(|&b| b == b'\n');
    let width = |line: &[u8]| {
        line.split(|&b| b == b' ' || b == b'\r' || b == b'\n').filter(|p| !p.is_empty()).count()
    };
    let n1d = width(lines.next().unwrap_or(b""));
    let n2d = width(lines.next().unwrap_or(b""));
    if ngates < 1 || n1d < 3 || n2d < 4 {
        return None;
    }
    let mut flat = vec![];
    for part in body
        .split(|&b| b == b' ' || b == b'\n')
        .filter(|p| !(p.is_empty() || *p == b"\r"))
    {
        match std::str::from_utf8(part).ok().and_then(|s| s.trim().parse::<f64>().ok()) {
            Some(x) => flat.push(x),
            None => break,
        }
    }
    let per_profile = n1d + ngates * n2d;
    let profiles = flat.len() / per_profile;
    if profiles == 0 {
        return None;
    }
    let mut one = vec![vec![0f64; profiles]; n1d];
    let mut two = vec![vec![0f64; ngates * profiles]; n2d];
    let mut k = 0;
    for p in 0..profiles {
        for series in one.iter_mut() {
            series[p] = flat[k];
            k += 1;
        }
        for g in 0..ngates {
            for series in two.iter_mut() {
                series[g + p * ngates] = flat[k];
                k += 1;
            }
        }
    }
    Some((n1d, n2d, one, two))
}

fn random_body(dice: &mut Dice, n1d: usize, n2d: usize, ngates: usize, profiles: usize) -> Vec<u8> {
    let mut body = Vec::new();
    let extra = dice.roll(n1d as u64 + (ngates * n2d) as u64) as usize;
    let mut value = 0u64;
    let number = |dice: &mut Dice, value: &mut u64, out: &mut Vec<u8>| {
        *value += 1;
        let text = match dice.roll(5) {
            0 => format!("{}", value),
            1 => format!("-{}.{:03}", value, dice.roll(1000)),
            2 => format!("{}.{}E-0{}", dice.roll(10), value, dice.roll(9)),
            3 => format!("+.{}", value),
            _ => format!("{}.", value),
        };
        for _ in 0..dice.roll(3) {
            out.push(b' ');
        }
        out.extend_from_slice(text.as_bytes());
    };
    for p in 0..=profiles {
        let whole = p < profiles;
        let mut left = if whole { n1d + ngates * n2d } else { extra };
        for _ in 0..n1d.min(left) {
            number(dice, &mut value, &mut body);
            body.push(b' ');
        }
        left -= n1d.min(left);
        body.extend_from_slice(if dice.roll(2) == 0 { b"\r\n" } else { b"\n" });
        for _ in 0..ngates {
            for _ in 0..n2d.min(left) {
                number(dice, &mut value, &mut body);
                body.push(b' ');
            }
            left -= n2d.min(left);
            body.extend_from_slice(if dice.roll(2) == 0 { b" \r\n" } else { b"\n" });
        }
    }
    if dice.roll(2) == 0 {
        body.extend_from_slice(b"end of file 1 2 3\n");
    }
    body
}

#[test]
fn bodies_read_as_with_plain_loops() {
    let mut dice = Dice(2024);
    let mut some = 0;
    for _ in 0..300 {
        let n1d = 1 + dice.roll(6) as usize;
        let n2d = 2 + dice.roll(5) as usize;
        let ngates = 1 + dice.roll(4) as usize;
        let profiles = dice.roll(4) as usize;
        let body = random_body(&mut dice, n1d, n2d, ngates, profiles);
        let plain = plain_body(&body, ngates);
        let ours = parse_data(&body, ngates as u64);
        match (plain, ours) {
            (None, Err(e)) => {
                assert!(matches!(
                    e.kind(),
                    ErrorKind::DataShape | ErrorKind::NoProfiles | ErrorKind::Io
                ));
            }
            (Some((w1, w2, one, two)), Ok(d)) => {
                some += 1;
                assert_eq!(infer_data_shape(&body).unwrap(), (w1 as u64, w2 as u64));
                assert_eq!(doubles(&d.time), one[0]);
                assert_eq!(doubles(&d.azimuth), one[1]);
                assert_eq!(doubles(&d.elevation), one[2]);
                assert_eq!(d.pitch.as_deref().map(doubles), one.get(3).cloned());
                assert_eq!(d.roll.as_deref().map(doubles), one.get(4).cloned());
                assert_eq!(doubles(&d.range), two[0]);
                assert_eq!(doubles(&d.radial_velocity), two[1]);
                assert_eq!(doubles(&d.intensity), two[2]);
                assert_eq!(doubles(&d.beta), two[3]);
                assert_eq!(d.spectral_width.as_deref().map(doubles), two.get(4).cloned());
                let centres: Vec<u64> =
                    (0..d.range.len()).map(|k| 2 * (k % ngates) as u64 + 1).collect();
                assert_eq!(d.radial_distance, centres);
            }
            (plain, ours) => panic!(
                "plain reading gives {:?}, the decoder {:?}, on {:?}",
                plain.map(|p| (p.0, p.1)),
                ours.map(|d| d.time.len()),
                String::from_utf8_lossy(&body)
            ),
        }
    }
    assert!(some > 50);
}

/// The cells of some rows, read field by field with the standard tools.
fn plain_rows(data: &[u8]) -> Option<(Vec<f64>, usize)> {
    let mut ncols = None;
    let mut flat = vec![];
    for line in data.split(|&b| b == b'\n') {
        let parts: Vec<_> =
            line.split(|&b| b == b'\t').filter(|p| !(p.is_empty() || *p == b"\r")).collect();
        if parts.is_empty() {
            continue;
        }
        if *ncols.get_or_insert(parts.len()) != parts.len() {
            return None;
        }
        for (i, part) in parts.iter().enumerate() {
            let text = String::from_utf8_lossy(part).trim().to_string();
            match i {
                0 => {
                    if let Ok(t) =
                        chrono::NaiveDateTime::parse_from_str(&text, "%d/%m/%Y %H:%M:%S%.f")
                    {
                        let t = t.and_utc();
                        flat.push(t.timestamp() as f64 + t.timestamp_subsec_millis() as f64 / 1000.0);
                    }
                }
                3 => match text.as_str() {
                    "On" => flat.push(1.0),
                    "Off" => flat.push(0.0),
                    _ => return None,
                },
                _ => {
                    if let Ok(x) = text.parse::<f64>() {
                        flat.push(x);
                    }
                }
            }
        }
    }
    let ncols = ncols?;
    if flat.len() % ncols != 0 {
        return None;
    }
    Some((flat, ncols))
}

fn number(c: &Cell) -> f64 {
    match c {
        Cell::Instant { seconds, millis } => *seconds as f64 + *millis as f64 / 1000.0,
        Cell::Reading(n) => n.as_str().parse::<f64>().unwrap(),
        Cell::Whole(n) => *n as f64,
    }
}

#[test]
fn rows_read_as_with_plain_tools() {
    let mut dice = Dice(70);
    let mut some = 0;
    for _ in 0..300 {
        let ncols = 1 + dice.roll(7) as usize;
        let mut data = Vec::new();
        for row in 0..dice.roll(5) {
            if dice.roll(6) == 0 {
                data.extend_from_slice(b"\r\n");
            }
            let width = if dice.roll(12) == 0 { ncols + 1 } else { ncols };
            for c in 0..width {
                let field = match (c, dice.roll(10)) {
                    (0, 0) => String::from("not a time"),
                    (0, _) => format!("0{}/01/2020 00:00:0{}.{}", 1 + row, dice.roll(10), dice.roll(100)),
                    (3, 0) => String::from("Broken"),
                    (3, d) => String::from(if d % 2 == 0 { "On" } else { " Off " }),
                    (_, 0) => String::from("x"),
                    (_, d) => format!("{}.{}", d, dice.roll(1000)),
                };
                data.extend_from_slice(field.as_bytes());
                data.extend_from_slice(if dice.roll(8) == 0 { b"\t\t" } else { b"\t" });
            }
            data.extend_from_slice(if dice.roll(2) == 0 { b"\r\n" } else { b"\n" });
        }
        let plain = plain_rows(&data);
        let ours = parse_rows(&data, Variant::Wls70);
        match (plain, ours) {
            (None, Err(e)) => {
                assert!(matches!(e.kind(), ErrorKind::Columns | ErrorKind::StateToken));
            }
            (Some((flat, n)), Ok(sheet)) => {
                some += 1;
                assert_eq!(sheet.ncols, n);
                assert_eq!(sheet.cells.iter().map(number).collect::<Vec<_>>(), flat);
            }
            (plain, ours) => panic!(
                "plain reading gives {:?}, the decoder {:?}, on {:?}",
                plain,
                ours,
                String::from_utf8_lossy(&data)
            ),
        }
    }
    assert!(some > 50);
}
