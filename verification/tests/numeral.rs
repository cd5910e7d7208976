use doprs::raw::numeral::{is_float, parse_u64, parse_u64_bytes, read_reading, Numeral};

fn accepts(s: &str) -> bool {
    let ours = Numeral::parse(s).is_some();
    assert_eq!(ours, s.parse::<f64>().is_ok(), "on {:?}", s);
    assert_eq!(is_float(s.as_bytes()), ours, "bytes of {:?}", s);
    ours
}

#[test]
fn plain_numbers_are_readings() {
    for s in ["0", "7", "007", "12.5", "12.", ".5", "0.0", "23.998611", "1234567890123456789012345"] {
        assert!(accepts(s), "{}", s);
    }
}

#[test]
fn signs_and_exponents() {
    for s in ["+1", "-1", "-0.5", "+.5", "1e5", "1E5", "1e+5", "1e-5", "1.234567E-06", "1.e3", ".5e3", "-1.5e-300", "1e999"] {
        assert!(accepts(s), "{}", s);
    }
}

#[test]
fn words_for_no_number_and_no_end() {
    for s in ["nan", "NaN", "NAN", "inf", "Inf", "INF", "infinity", "Infinity", "iNfInItY", "+inf", "-inf", "-nan", "+infinity"] {
        assert!(accepts(s), "{}", s);
    }
}

#[test]
fn what_is_no_reading() {
    for s in [
        "", "+", "-", ".", "+.", "e", "e5", "1e", "1e+", "1e-", "1e5.", "1.2.3", "1 ", " 1", "1,5",
        "0x10", "1_000", "--1", "+-1", "1e5e5", "in", "infinit", "infinityy", "na", "nann", "V",
        "On", "1f", "1.5f64", "१", "1\u{a0}", "i", "n", ".e5", "+e5", "1e 5", "\t1",
    ] {
        assert!(!accepts(s), "{}", s);
    }
}

#[test]
fn the_standard_parser_agrees_on_every_short_text() {
    let alphabet = ['0', '9', '+', '-', '.', 'e', 'E', 'i', 'n', 'f', 'a', ' '];
    let mut texts = vec![String::new()];
    let mut from = 0;
    for _ in 0..4 {
        let upto = texts.len();
        for k in from..upto {
            for c in alphabet {
                let mut t = texts[k].clone();
                t.push(c);
                texts.push(t);
            }
        }
        from = upto;
    }
    assert_eq!(texts.len(), 1 + 12 + 144 + 1728 + 20736);
    for t in texts {
        accepts(&t);
    }
}

#[test]
fn a_reading_keeps_its_notation() {
    let n = Numeral::parse("1.234567E-06").unwrap();
    assert_eq!(n.as_str(), "1.234567E-06");
    assert_eq!(n.clone(), n);
    assert_eq!(Numeral::zero().as_str(), "0");
    assert_eq!(n.as_str().parse::<f64>().unwrap(), 1.234567e-6);
}

#[test]
fn readings_in_fields_are_trimmed() {
    assert_eq!(read_reading(b" 1.5\r").unwrap().as_str(), "1.5");
    assert_eq!(read_reading("\u{a0}2\u{2003}".as_bytes()).unwrap().as_str(), "2");
    assert!(read_reading(b"1.5x").is_none());
    assert!(read_reading(b"").is_none());
    assert!(read_reading(&[b'1', 0xff]).is_none());
}

fn whole(s: &str) -> Option<u64> {
    let ours = parse_u64(s);
    assert_eq!(ours, s.parse::<u64>().ok(), "on {:?}", s);
    assert_eq!(parse_u64_bytes(s.as_bytes()), ours);
    ours
}

#[test]
fn whole_numbers() {
    assert_eq!(whole("0"), Some(0));
    assert_eq!(whole("42"), Some(42));
    assert_eq!(whole("+42"), Some(42));
    assert_eq!(whole("0042"), Some(42));
    assert_eq!(whole("18446744073709551615"), Some(u64::MAX));
    assert_eq!(whole("000018446744073709551615"), Some(u64::MAX));
}

#[test]
fn what_is_no_whole_number() {
    for s in ["", "+", "-", "-1", "-0", "1.0", "1e3", " 1", "1 ", "18446744073709551616", "99999999999999999999", "184467440737095516150", "++1", "1+", "४२", "1_0"] {
        assert_eq!(whole(s), None, "{}", s);
    }
}
