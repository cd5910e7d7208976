//! The ray-scan files of a pulsed Doppler lidar: a header of key and value
//! pairs and annotations, a line of stars, and then the profiles.
use vstd::prelude::*;
use vstd::string::StringSliceAdditionalSpecFns;
use crate::raw::clock::{parse_instant, parsed_instant};
use crate::raw::error::{ErrorKind, RawParseError};
use crate::raw::numeral::{
    is_float_text, numerals, optional_numerals, parse_u64, read_reading, reading_of, u64_of_text,
    Numeral,
};
use crate::raw::pattern::{capture_first, first_group, pattern_compiles};
use crate::raw::scan::{
    after_first_line, find_delim, first_delim, first_index, first_line, lemma_first_index_is, split,
    split_on, strip_nulls, views, without_nulls, words, words_on,
};
use rayon::iter::{IntoParallelRefIterator, ParallelIterator};
use vstd::slice::slice_subrange;
use crate::raw::text::{field_text, read_field, text_eq};

verus! {

/// The format of the header's start time: date, time of day, and a fraction
/// of a second where there is one.
pub const START_TIME_FORMAT: &'static str = "%Y%m%d %H:%M:%S%.f";

/// The annotation that gives the instrument's spectral width.
pub const WIDTH_PATTERN: &'static str = r"^**** Instrument spectral width = (\d+(\.\d+)?)$";

/// The annotations that a header may hold, each on a line of its own.
pub const NOTE_ALTITUDE: &'static str =
    "Altitude of measurement (center of gate) = (range gate + 0.5) * Gate length";

/// As `NOTE_ALTITUDE`, for a scan that is not vertical.
pub const NOTE_RANGE: &'static str =
    "Range of measurement (center of gate) = (range gate + 0.5) * Gate length";

/// What a profile's own line holds, with pitch and roll.
pub const NOTE_LINE1_ATTITUDE: &'static str =
    "Data line 1: Decimal time (hours)  Azimuth (degrees)  Elevation (degrees) Pitch (degrees) Roll (degrees)";

/// What a profile's own line holds.
pub const NOTE_LINE1: &'static str =
    "Data line 1: Decimal time (hours)  Azimuth (degrees)  Elevation (degrees)";

/// How a profile's own line is laid out.
pub const NOTE_LINE1_FORMAT: &'static str = "f9.6,1x,f6.2,1x,f6.2";

/// What the line of a gate holds.
pub const NOTE_LINE2: &'static str =
    "Data line 2: Range Gate  Doppler (m/s)  Intensity (SNR + 1)  Beta (m-1 sr-1)";

/// What the line of a gate holds, with the spectral width.
pub const NOTE_LINE2_WIDTH: &'static str =
    "Data line 2: Range Gate  Doppler (m/s)  Intensity (SNR + 1)  Beta (m-1 sr-1) Spectral Width";

/// How the line of a gate is laid out.
pub const NOTE_LINE2_FORMAT: &'static str = "i3,1x,f6.4,1x,f8.6,1x,e12.6 - repeat for no. gates";

/// How the line of a gate is laid out, with the spectral width.
pub const NOTE_LINE2_WIDTH_FORMAT: &'static str =
    "i3,1x,f6.4,1x,f8.6,1x,e12.6,1x,f6.4 - repeat for no. gates";

/// What the header says of a file.
#[derive(Debug, Clone, PartialEq, Eq)]
pub struct Info {
    pub filename: String,
    pub gate_points: u64,
    pub nrays: Option<u64>,
    pub nwaypoints: Option<u64>,
    pub ngates: u64,
    pub pulses_per_ray: u64,
    /// Metres.
    pub range_gate_length: Numeral,
    /// Metres per second.
    pub resolution: Numeral,
    pub scan_type: String,
    pub focus_range: u64,
    /// Seconds since the start of 1970, UTC.
    pub start_time: i64,
    pub system_id: String,
    pub instrument_spectral_width: Option<Numeral>,
}

/// An [`Info`] as plain values.
pub ghost struct InfoView {
    pub filename: Seq<char>,
    pub gate_points: u64,
    pub nrays: Option<u64>,
    pub nwaypoints: Option<u64>,
    pub ngates: u64,
    pub pulses_per_ray: u64,
    pub range_gate_length: Seq<char>,
    pub resolution: Seq<char>,
    pub scan_type: Seq<char>,
    pub focus_range: u64,
    pub start_time: i64,
    pub system_id: Seq<char>,
    pub instrument_spectral_width: Option<Seq<char>>,
}

impl View for Info {
    type V = InfoView;

    open spec fn view(&self) -> InfoView {
        InfoView {
            filename: self.filename@,
            gate_points: self.gate_points,
            nrays: self.nrays,
            nwaypoints: self.nwaypoints,
            ngates: self.ngates,
            pulses_per_ray: self.pulses_per_ray,
            range_gate_length: self.range_gate_length@,
            resolution: self.resolution@,
            scan_type: self.scan_type@,
            focus_range: self.focus_range,
            start_time: self.start_time,
            system_id: self.system_id@,
            instrument_spectral_width: match self.instrument_spectral_width {
                Some(w) => Some(w@),
                None => None,
            },
        }
    }
}

/// The header that says nothing: empty texts, zeros, and no optional value.
pub open spec fn blank_info() -> InfoView {
    InfoView {
        filename: Seq::empty(),
        gate_points: 0,
        nrays: None,
        nwaypoints: None,
        ngates: 0,
        pulses_per_ray: 0,
        range_gate_length: "0"@,
        resolution: "0"@,
        scan_type: Seq::empty(),
        focus_range: 0,
        start_time: 0,
        system_id: Seq::empty(),
        instrument_spectral_width: None,
    }
}

impl Default for Info {
    fn default() -> (r: Self)
        ensures
            r@ == blank_info(),
    {
        Info {
            filename: String::new(),
            gate_points: 0,
            nrays: None,
            nwaypoints: None,
            ngates: 0,
            pulses_per_ray: 0,
            range_gate_length: Numeral::zero(),
            resolution: Numeral::zero(),
            scan_type: String::new(),
            focus_range: 0,
            start_time: 0,
            system_id: String::new(),
            instrument_spectral_width: None,
        }
    }
}

/// The keys of the header.
#[derive(Debug, Clone, Copy, PartialEq, Eq, Structural)]
pub enum Key {
    Filename,
    SystemId,
    Gates,
    RangeGateLength,
    GatePoints,
    PulsesPerRay,
    Rays,
    Waypoints,
    ScanType,
    FocusRange,
    StartTime,
    Resolution,
}

/// The key that a text names, colon included.
pub open spec fn key_of(t: Seq<char>) -> Option<Key> {
    if t == "Filename:"@ {
        Some(Key::Filename)
    } else if t == "System ID:"@ {
        Some(Key::SystemId)
    } else if t == "Number of gates:"@ {
        Some(Key::Gates)
    } else if t == "Range gate length (m):"@ {
        Some(Key::RangeGateLength)
    } else if t == "Gate length (pts):"@ {
        Some(Key::GatePoints)
    } else if t == "Pulses/ray:"@ {
        Some(Key::PulsesPerRay)
    } else if t == "No. of rays in file:"@ {
        Some(Key::Rays)
    } else if t == "No. of waypoints in file:"@ {
        Some(Key::Waypoints)
    } else if t == "Scan type:"@ {
        Some(Key::ScanType)
    } else if t == "Focus range:"@ {
        Some(Key::FocusRange)
    } else if t == "Start time:"@ {
        Some(Key::StartTime)
    } else if t == "Resolution (m/s):"@ {
        Some(Key::Resolution)
    } else {
        None
    }
}

/// The header after one more key and value. A value that must be a number
/// and is none, or a start time that is none, is a failure.
pub open spec fn with_value(info: InfoView, key: Key, val: Seq<char>) -> Result<
    InfoView,
    ErrorKind,
> {
    match key {
        Key::Filename => Ok(InfoView { filename: val, ..info }),
        Key::SystemId => Ok(InfoView { system_id: val, ..info }),
        Key::ScanType => Ok(InfoView { scan_type: val, ..info }),
        Key::Gates => match u64_of_text(val) {
            Some(n) => Ok(InfoView { ngates: n, ..info }),
            None => Err(ErrorKind::Number),
        },
        Key::GatePoints => match u64_of_text(val) {
            Some(n) => Ok(InfoView { gate_points: n, ..info }),
            None => Err(ErrorKind::Number),
        },
        Key::PulsesPerRay => match u64_of_text(val) {
            Some(n) => Ok(InfoView { pulses_per_ray: n, ..info }),
            None => Err(ErrorKind::Number),
        },
        Key::FocusRange => match u64_of_text(val) {
            Some(n) => Ok(InfoView { focus_range: n, ..info }),
            None => Err(ErrorKind::Number),
        },
        Key::Rays => match u64_of_text(val) {
            Some(n) => Ok(InfoView { nrays: Some(n), ..info }),
            None => Err(ErrorKind::Number),
        },
        Key::Waypoints => match u64_of_text(val) {
            Some(n) => Ok(InfoView { nwaypoints: Some(n), ..info }),
            None => Err(ErrorKind::Number),
        },
        Key::RangeGateLength => if is_float_text(val) {
            Ok(InfoView { range_gate_length: val, ..info })
        } else {
            Err(ErrorKind::Number)
        },
        Key::Resolution => if is_float_text(val) {
            Ok(InfoView { resolution: val, ..info })
        } else {
            Err(ErrorKind::Number)
        },
        Key::StartTime => match parsed_instant(val, START_TIME_FORMAT@) {
            Some(t) => Ok(InfoView { start_time: t.0, ..info }),
            None => Err(ErrorKind::DateTime),
        },
    }
}

/// A line of four stars or more and nothing else.
pub open spec fn is_star_line(t: Seq<char>) -> bool {
    t.len() >= 4 && forall|i: int| 0 <= i < t.len() ==> t[i] == '*'
}

/// The lines without a key that a header may hold beside the spectral width.
pub open spec fn is_annotation(t: Seq<char>) -> bool {
    ||| t == NOTE_ALTITUDE@
    ||| t == NOTE_RANGE@
    ||| t == NOTE_LINE1_ATTITUDE@
    ||| t == NOTE_LINE1@
    ||| t == NOTE_LINE1_FORMAT@
    ||| t == NOTE_LINE2@
    ||| t == NOTE_LINE2_WIDTH@
    ||| t == NOTE_LINE2_FORMAT@
    ||| t == NOTE_LINE2_WIDTH_FORMAT@
    ||| is_star_line(t)
}

/// The text of a field, empty where the field is not UTF-8.
pub open spec fn loose_text(b: Seq<u8>) -> Seq<char> {
    match field_text(b) {
        Some(t) => t,
        None => Seq::empty(),
    }
}

/// The header after a line without a key: the spectral width where the line
/// gives it, the header unchanged after a known annotation.
pub open spec fn with_note(info: InfoView, line: Seq<u8>) -> Result<InfoView, ErrorKind> {
    match field_text(line) {
        None => Err(ErrorKind::Encoding),
        Some(t) => match first_group(WIDTH_PATTERN@, t) {
            Some(Some(w)) => if is_float_text(w) {
                Ok(InfoView { instrument_spectral_width: Some(w), ..info })
            } else {
                Err(ErrorKind::Number)
            },
            _ => if is_annotation(t) {
                Ok(info)
            } else {
                Err(ErrorKind::HeaderLine)
            },
        },
    }
}

/// The header after one more line. An empty line changes nothing; a line of
/// two fields between tabs is a key and its value; any other line is a note.
pub open spec fn with_line(info: InfoView, line: Seq<u8>) -> Result<InfoView, ErrorKind> {
    let fields = split(line, seq![9u8]);
    if line.len() == 0 {
        Ok(info)
    } else if fields.len() == 2 {
        match key_of(loose_text(fields[0])) {
            Some(key) => with_value(info, key, loose_text(fields[1])),
            None => Err(ErrorKind::KeyValue),
        }
    } else {
        with_note(info, line)
    }
}

/// The header after all of `lines`, up to the first failure.
pub open spec fn with_lines(info: InfoView, lines: Seq<Seq<u8>>) -> Result<InfoView, ErrorKind>
    decreases lines.len(),
{
    if lines.len() == 0 {
        Ok(info)
    } else {
        match with_line(info, lines[0]) {
            Ok(next) => with_lines(next, lines.drop_first()),
            Err(e) => Err(e),
        }
    }
}

/// What a header block says: its lines, read in order onto the blank header.
pub open spec fn header_info(header: Seq<u8>) -> Result<InfoView, ErrorKind> {
    if !pattern_compiles(WIDTH_PATTERN@) {
        Err(ErrorKind::Pattern)
    } else {
        with_lines(blank_info(), split(header, seq![10u8]))
    }
}

/// Whether a result is the one that the model gives: the same record, or a
/// failure of the same kind.
pub open spec fn info_matches(r: Result<Info, RawParseError>, m: Result<InfoView, ErrorKind>) -> bool {
    match r {
        Ok(info) => m == Ok::<InfoView, ErrorKind>(info@),
        Err(e) => m == Err::<InfoView, ErrorKind>(e.spec_kind()),
    }
}

fn find_key(t: &str) -> (r: Option<Key>)
    ensures
        r == key_of(t@),
{
    if text_eq(t, "Filename:") {
        Some(Key::Filename)
    } else if text_eq(t, "System ID:") {
        Some(Key::SystemId)
    } else if text_eq(t, "Number of gates:") {
        Some(Key::Gates)
    } else if text_eq(t, "Range gate length (m):") {
        Some(Key::RangeGateLength)
    } else if text_eq(t, "Gate length (pts):") {
        Some(Key::GatePoints)
    } else if text_eq(t, "Pulses/ray:") {
        Some(Key::PulsesPerRay)
    } else if text_eq(t, "No. of rays in file:") {
        Some(Key::Rays)
    } else if text_eq(t, "No. of waypoints in file:") {
        Some(Key::Waypoints)
    } else if text_eq(t, "Scan type:") {
        Some(Key::ScanType)
    } else if text_eq(t, "Focus range:") {
        Some(Key::FocusRange)
    } else if text_eq(t, "Start time:") {
        Some(Key::StartTime)
    } else if text_eq(t, "Resolution (m/s):") {
        Some(Key::Resolution)
    } else {
        None
    }
}

fn number_or_fail(val: &str) -> (r: Result<u64, RawParseError>)
    ensures
        match r {
            Ok(n) => u64_of_text(val@) == Some(n),
            Err(e) => u64_of_text(val@) is None && e.spec_kind() == ErrorKind::Number,
        },
{
    match parse_u64(val) {
        Some(n) => Ok(n),
        None => Err(RawParseError::of_kind(ErrorKind::Number)),
    }
}

fn reading_or_fail(val: &str) -> (r: Result<Numeral, RawParseError>)
    ensures
        match r {
            Ok(n) => is_float_text(val@) && n@ == val@,
            Err(e) => !is_float_text(val@) && e.spec_kind() == ErrorKind::Number,
        },
{
    match Numeral::parse(val) {
        Some(n) => Ok(n),
        None => Err(RawParseError::of_kind(ErrorKind::Number)),
    }
}

/// The seconds since the start of 1970 of a start time, taken as UTC.
pub fn start_time_str_to_datetime(s: &str) -> (r: Result<i64, RawParseError>)
    ensures
        match r {
            Ok(t) => parsed_instant(s@, START_TIME_FORMAT@) matches Some(v) && v.0 == t,
            Err(e) => parsed_instant(s@, START_TIME_FORMAT@) is None && e.spec_kind()
                == ErrorKind::DateTime,
        },
{
    match parse_instant(s, START_TIME_FORMAT) {
        Ok(v) => Ok(v.0),
        Err(e) => Err(RawParseError::from_datetime(&e)),
    }
}

/// Writes one value into the header.
fn set_value(info: Info, key: Key, val: &str) -> (r: Result<Info, RawParseError>)
    ensures
        info_matches(r, with_value(info@, key, val@)),
{
    let mut info = info;
    match key {
        Key::Filename => {
            info.filename = val.to_owned();
        },
        Key::SystemId => {
            info.system_id = val.to_owned();
        },
        Key::ScanType => {
            info.scan_type = val.to_owned();
        },
        Key::Gates => {
            info.ngates = number_or_fail(val)?;
        },
        Key::GatePoints => {
            info.gate_points = number_or_fail(val)?;
        },
        Key::PulsesPerRay => {
            info.pulses_per_ray = number_or_fail(val)?;
        },
        Key::FocusRange => {
            info.focus_range = number_or_fail(val)?;
        },
        Key::Rays => {
            info.nrays = Some(number_or_fail(val)?);
        },
        Key::Waypoints => {
            info.nwaypoints = Some(number_or_fail(val)?);
        },
        Key::RangeGateLength => {
            info.range_gate_length = reading_or_fail(val)?;
        },
        Key::Resolution => {
            info.resolution = reading_or_fail(val)?;
        },
        Key::StartTime => {
            info.start_time = start_time_str_to_datetime(val)?;
        },
    }
    Ok(info)
}

fn star_line(t: &str) -> (r: bool)
    ensures
        r == is_star_line(t@),
{
    if !t.is_ascii() {
        proof {
            if is_star_line(t@) {
                assert(vstd::utf8::is_ascii_chars(t@));
            }
        }
        return false;
    }
    proof {
        vstd::string::is_ascii_spec_bytes(t);
    }
    let b = t.as_bytes();
    if b.len() < 4 {
        return false;
    }
    let mut i: usize = 0;
    while i < b.len()
        invariant
            i <= b.len(),
            b@.len() == t@.len(),
            vstd::utf8::is_ascii_chars(t@),
            forall|j: int| 0 <= j < b.len() ==> b@[j] == t@[j] as u8,
            forall|j: int| 0 <= j < i ==> t@[j] == '*',
        decreases b.len() - i,
    {
        if b[i] != 42 {
            assert(t@[i as int] != '*');
            return false;
        }
        assert('\0' <= t@[i as int] <= '\u{7f}');
        i += 1;
    }
    true
}

fn annotation(t: &str) -> (r: bool)
    ensures
        r == is_annotation(t@),
{
    text_eq(t, NOTE_ALTITUDE) || text_eq(t, NOTE_RANGE) || text_eq(t, NOTE_LINE1_ATTITUDE)
        || text_eq(t, NOTE_LINE1) || text_eq(t, NOTE_LINE1_FORMAT) || text_eq(t, NOTE_LINE2)
        || text_eq(t, NOTE_LINE2_WIDTH) || text_eq(t, NOTE_LINE2_FORMAT) || text_eq(
        t,
        NOTE_LINE2_WIDTH_FORMAT,
    ) || star_line(t)
}

/// The text of a field, empty where the field is not UTF-8.
fn read_loose<'a>(b: &'a [u8]) -> (r: &'a str)
    ensures
        r@ == loose_text(b@),
{
    match read_field(b) {
        Some(t) => t,
        None => {
            proof {
                reveal_strlit("");
                assert(""@ =~= Seq::<char>::empty());
            }
            ""
        },
    }
}

/// Reads a line without a key into the header.
fn set_note(info: Info, line: &[u8]) -> (r: Result<Info, RawParseError>)
    requires
        pattern_compiles(WIDTH_PATTERN@),
    ensures
        info_matches(r, with_note(info@, line@)),
{
    let mut info = info;
    let t = match read_field(line) {
        Some(t) => t,
        None => {
            return Err(RawParseError::of_kind(ErrorKind::Encoding));
        },
    };
    match capture_first(WIDTH_PATTERN, t) {
        Ok(Some(Some(w))) => {
            info.instrument_spectral_width = Some(reading_or_fail(w.as_str())?);
            Ok(info)
        },
        _ => {
            if annotation(t) {
                Ok(info)
            } else {
                Err(RawParseError::of_kind(ErrorKind::HeaderLine))
            }
        },
    }
}

/// Reads one line into the header.
fn set_line(info: Info, line: &[u8]) -> (r: Result<Info, RawParseError>)
    requires
        pattern_compiles(WIDTH_PATTERN@),
    ensures
        info_matches(r, with_line(info@, line@)),
{
    if line.len() == 0 {
        return Ok(info);
    }
    let tab: [u8; 1] = [9];
    assert(tab@ =~= seq![9u8]);
    let fields = split_on(line, tab.as_slice());
    assert(views(fields@).len() == fields@.len());
    if fields.len() == 2 {
        assert(views(fields@)[0] == fields@[0]@);
        assert(views(fields@)[1] == fields@[1]@);
        let key = read_loose(fields[0]);
        let val = read_loose(fields[1]);
        match find_key(key) {
            Some(k) => set_value(info, k, val),
            None => Err(RawParseError::of_kind(ErrorKind::KeyValue)),
        }
    } else {
        set_note(info, line)
    }
}

/// Reads a header block: every line between line feeds, in order, onto the
/// blank header. The first line that cannot be read ends it with its failure.
pub fn parse_header(header_bytes: &[u8]) -> (r: Result<Info, RawParseError>)
    ensures
        info_matches(r, header_info(header_bytes@)),
{
    match capture_first(WIDTH_PATTERN, "") {
        Ok(_) => {},
        Err(e) => {
            return Err(RawParseError::from_pattern(&e));
        },
    }
    let feed: [u8; 1] = [10];
    assert(feed@ =~= seq![10u8]);
    let lines = split_on(header_bytes, feed.as_slice());
    let ghost all = split(header_bytes@, seq![10u8]);
    let mut info = Info::default();
    let mut i: usize = 0;
    assert(all.skip(0) == all);
    while i < lines.len()
        invariant
            i <= lines.len(),
            views(lines@) == all,
            all == split(header_bytes@, seq![10u8]),
            pattern_compiles(WIDTH_PATTERN@),
            with_lines(blank_info(), all) == with_lines(info@, all.skip(i as int)),
        decreases lines.len() - i,
    {
        proof {
            assert(all.len() == lines@.len());
            assert(all.skip(i as int)[0] == lines@[i as int]@);
            assert(all.skip(i as int).drop_first() == all.skip(i + 1));
        }
        match set_line(info, lines[i]) {
            Ok(next) => {
                info = next;
            },
            Err(e) => {
                return Err(e);
            },
        }
        i += 1;
    }
    Ok(info)
}

/// The series of a file. Each series of one value per profile has as many
/// items as there are profiles; each series of one value per profile and
/// range gate has that many times the number of gates, the gates of the
/// first profile first.
#[derive(Debug, Clone, PartialEq, Eq)]
pub struct Data {
    /// Hours since midnight of the start day, as written: a value falls back
    /// towards zero where a day ends. `daywrap::day_offsets` gives the days
    /// to add to each.
    pub time: Vec<Numeral>,
    /// The distance of the centre of each sample's gate, per profile and
    /// gate, counted in halves of a range gate length.
    pub radial_distance: Vec<u64>,
    pub azimuth: Vec<Numeral>,
    pub elevation: Vec<Numeral>,
    pub pitch: Option<Vec<Numeral>>,
    pub roll: Option<Vec<Numeral>>,
    /// The number of each sample's gate as the file gives it.
    pub range: Vec<Numeral>,
    pub radial_velocity: Vec<Numeral>,
    pub intensity: Vec<Numeral>,
    pub beta: Vec<Numeral>,
    pub spectral_width: Option<Vec<Numeral>>,
}

/// A [`Data`] as plain values.
pub ghost struct DataView {
    pub time: Seq<Seq<char>>,
    pub radial_distance: Seq<nat>,
    pub azimuth: Seq<Seq<char>>,
    pub elevation: Seq<Seq<char>>,
    pub pitch: Option<Seq<Seq<char>>>,
    pub roll: Option<Seq<Seq<char>>>,
    pub range: Seq<Seq<char>>,
    pub radial_velocity: Seq<Seq<char>>,
    pub intensity: Seq<Seq<char>>,
    pub beta: Seq<Seq<char>>,
    pub spectral_width: Option<Seq<Seq<char>>>,
}

impl View for Data {
    type V = DataView;

    open spec fn view(&self) -> DataView {
        DataView {
            time: numerals(self.time@),
            radial_distance: self.radial_distance@.map_values(|n: u64| n as nat),
            azimuth: numerals(self.azimuth@),
            elevation: numerals(self.elevation@),
            pitch: optional_numerals(self.pitch),
            roll: optional_numerals(self.roll),
            range: numerals(self.range@),
            radial_velocity: numerals(self.radial_velocity@),
            intensity: numerals(self.intensity@),
            beta: numerals(self.beta@),
            spectral_width: optional_numerals(self.spectral_width),
        }
    }
}

/// The number of words on a data line, between blanks and line ends.
pub open spec fn line_width(line: Seq<u8>) -> nat {
    words(line, seq![32u8, 13u8, 10u8]).len()
}

/// The widths of the first two lines of the data: how many values a profile
/// has for itself, and how many for each of its gates.
pub open spec fn data_shape(rest: Seq<u8>) -> (nat, nat) {
    (line_width(first_line(rest)), line_width(first_line(after_first_line(rest))))
}

/// The readings of the data: its words between blanks and line feeds, up to
/// the first word that is no reading.
pub open spec fn readings(rest: Seq<u8>) -> Seq<Seq<char>> {
    let w = words(rest, seq![32u8, 10u8]);
    let k = first_index(w, |t: Seq<u8>| reading_of(t) is None);
    w.take(k).map_values(|t: Seq<u8>| reading_of(t)->0)
}

/// How many values one profile takes.
pub open spec fn profile_len(n1d: int, ngates: int, n2d: int) -> int {
    n1d + ngates * n2d
}

/// The values of channel `i` among the values that each profile has for
/// itself: one per profile.
pub open spec fn scalar_channel<A>(flat: Seq<A>, stride: int, count: int, i: int) -> Seq<A> {
    Seq::new(count as nat, |p: int| flat[p * stride + i])
}

/// The values of channel `j` among the values that each gate has: one per
/// profile and gate, the gates of a profile side by side.
pub open spec fn gate_channel<A>(
    flat: Seq<A>,
    n1d: int,
    ngates: int,
    n2d: int,
    count: int,
    j: int,
) -> Seq<A> {
    Seq::new(
        (count * ngates) as nat,
        |k: int| flat[(k / ngates) * profile_len(n1d, ngates, n2d) + n1d + (k % ngates) * n2d + j],
    )
}

/// The centre of gate `g` lies `2 g + 1` halves of a range gate length away:
/// the distance of each sample's gate, whatever the file holds.
pub open spec fn gate_centres(ngates: int, count: int) -> Seq<nat> {
    Seq::new((count * ngates) as nat, |k: int| (2 * (k % ngates) + 1) as nat)
}

/// The series that a flat run of readings holds, `count` profiles of it.
pub open spec fn reshaped(
    flat: Seq<Seq<char>>,
    n1d: int,
    ngates: int,
    n2d: int,
    count: int,
) -> DataView {
    let stride = profile_len(n1d, ngates, n2d);
    DataView {
        time: scalar_channel(flat, stride, count, 0),
        radial_distance: gate_centres(ngates, count),
        azimuth: scalar_channel(flat, stride, count, 1),
        elevation: scalar_channel(flat, stride, count, 2),
        pitch: if n1d > 3 {
            Some(scalar_channel(flat, stride, count, 3))
        } else {
            None
        },
        roll: if n1d > 4 {
            Some(scalar_channel(flat, stride, count, 4))
        } else {
            None
        },
        range: gate_channel(flat, n1d, ngates, n2d, count, 0),
        radial_velocity: gate_channel(flat, n1d, ngates, n2d, count, 1),
        intensity: gate_channel(flat, n1d, ngates, n2d, count, 2),
        beta: gate_channel(flat, n1d, ngates, n2d, count, 3),
        spectral_width: if n2d > 4 {
            Some(gate_channel(flat, n1d, ngates, n2d, count, 4))
        } else {
            None
        },
    }
}

/// What the data after the header hold, for a header that names `ngates`
/// gates. The whole profiles among the readings are kept, what follows the
/// last of them is dropped, and less than one whole profile is a failure.
pub open spec fn body_data(rest: Seq<u8>, ngates: u64) -> Result<DataView, ErrorKind> {
    let shape = data_shape(rest);
    let flat = readings(rest);
    let stride = profile_len(shape.0 as int, ngates as int, shape.1 as int);
    if after_first_line(rest).len() == 0 {
        Err(ErrorKind::Io)
    } else if ngates < 1 || shape.0 < 3 || shape.1 < 4 {
        Err(ErrorKind::DataShape)
    } else if flat.len() as int / stride == 0 {
        Err(ErrorKind::NoProfiles)
    } else {
        Ok(reshaped(flat, shape.0 as int, ngates as int, shape.1 as int, flat.len() as int / stride))
    }
}

impl DataView {
    /// Every series of one value per profile has the same length, at least
    /// one, and every series of one value per profile and gate has that
    /// length times `ngates`.
    pub open spec fn well_formed(self, ngates: int) -> bool {
        let profiles = self.time.len();
        let samples = profiles * ngates;
        &&& profiles >= 1
        &&& self.azimuth.len() == profiles
        &&& self.elevation.len() == profiles
        &&& self.pitch matches Some(s) ==> s.len() == profiles
        &&& self.roll matches Some(s) ==> s.len() == profiles
        &&& self.radial_distance.len() == samples
        &&& self.range.len() == samples
        &&& self.radial_velocity.len() == samples
        &&& self.intensity.len() == samples
        &&& self.beta.len() == samples
        &&& self.spectral_width matches Some(s) ==> s.len() == samples
    }
}

/// The series of every decoded body have the lengths that go together: one
/// value per profile, or one per profile and gate.
pub proof fn lemma_series_lengths(rest: Seq<u8>, ngates: u64)
    requires
        body_data(rest, ngates) is Ok,
    ensures
        body_data(rest, ngates)->Ok_0.well_formed(ngates as int),
{
    let shape = data_shape(rest);
    let flat = readings(rest);
    let stride = profile_len(shape.0 as int, ngates as int, shape.1 as int);
    let count = flat.len() as int / stride;
    assert(stride > 0) by (nonlinear_arith)
        requires
            stride == shape.0 + ngates * shape.1,
            shape.0 >= 3,
            ngates >= 1,
            shape.1 >= 4,
    ;
    vstd::arithmetic::div_mod::lemma_div_pos_is_pos(flat.len() as int, stride);
    assert(count * ngates >= 0) by (nonlinear_arith)
        requires
            count >= 0,
            ngates >= 0,
    ;
}

/// The distance of a sample's gate is fixed by that gate's number alone:
/// gate `g` of any profile lies `2 g + 1` halves of a range gate length
/// away, whatever the data hold.
pub proof fn lemma_radial_distance(rest: Seq<u8>, ngates: u64, p: int, g: int)
    requires
        body_data(rest, ngates) is Ok,
        0 <= p < body_data(rest, ngates)->Ok_0.time.len(),
        0 <= g < ngates,
    ensures
        0 <= p * ngates + g < body_data(rest, ngates)->Ok_0.radial_distance.len(),
        body_data(rest, ngates)->Ok_0.radial_distance[p * ngates + g] == 2 * g + 1,
{
    lemma_series_lengths(rest, ngates);
    let d = body_data(rest, ngates)->Ok_0;
    let count = d.time.len() as int;
    let n = ngates as int;
    assert(0 <= p * n + g < count * n) by (nonlinear_arith)
        requires
            0 <= p < count,
            0 <= g < n,
    ;
    vstd::arithmetic::div_mod::lemma_fundamental_div_mod_converse(p * n + g, n, p, g);
}

/// The whole profiles among `len` values of which `stride` make a profile:
/// they take `stride` times their number, and what is left is less than one
/// profile.
pub proof fn lemma_whole_profiles(len: int, stride: int)
    requires
        0 <= len,
        0 < stride,
    ensures
        0 <= (len / stride) * stride <= len < (len / stride) * stride + stride,
{
    vstd::arithmetic::div_mod::lemma_fundamental_div_mod(len, stride);
    vstd::arithmetic::div_mod::lemma_mod_bound(len, stride);
    vstd::arithmetic::div_mod::lemma_div_pos_is_pos(len, stride);
    assert((len / stride) * stride == stride * (len / stride)) by (nonlinear_arith);
}

/// Where a value of the flat run goes. The value at place `i` of profile `p`
/// is item `p` of channel `i`; the value at place `j` of gate `g` of profile
/// `p` is item `p * ngates + g` of gate channel `j`. So every value of the
/// whole profiles has one place, and no series holds anything else.
pub proof fn lemma_value_places<A>(
    flat: Seq<A>,
    n1d: int,
    ngates: int,
    n2d: int,
    count: int,
    p: int,
    g: int,
    i: int,
    j: int,
)
    requires
        0 <= p < count,
        0 <= g < ngates,
        0 <= i < n1d,
        0 <= j < n2d,
        count * profile_len(n1d, ngates, n2d) <= flat.len(),
    ensures
        0 <= p * profile_len(n1d, ngates, n2d) + i < count * profile_len(n1d, ngates, n2d),
        0 <= p * profile_len(n1d, ngates, n2d) + n1d + g * n2d + j < count * profile_len(
            n1d,
            ngates,
            n2d,
        ),
        scalar_channel(flat, profile_len(n1d, ngates, n2d), count, i)[p] == flat[p * profile_len(
            n1d,
            ngates,
            n2d,
        ) + i],
        0 <= p * ngates + g < count * ngates,
        gate_channel(flat, n1d, ngates, n2d, count, j)[p * ngates + g] == flat[p * profile_len(
            n1d,
            ngates,
            n2d,
        ) + n1d + g * n2d + j],
{
    let stride = profile_len(n1d, ngates, n2d);
    assert(0 <= g * n2d + j < ngates * n2d) by (nonlinear_arith)
        requires
            0 <= g < ngates,
            0 <= j < n2d,
    ;
    lemma_profile_index(p, count, stride, i);
    lemma_profile_index(p, count, stride, n1d + g * n2d + j);
    assert(0 <= p * ngates + g < count * ngates) by (nonlinear_arith)
        requires
            0 <= p < count,
            0 <= g < ngates,
    ;
    vstd::arithmetic::div_mod::lemma_fundamental_div_mod_converse(p * ngates + g, ngates, p, g);
}

/// Whether a result is the one that the model gives.
pub open spec fn data_matches(r: Result<Data, RawParseError>, m: Result<DataView, ErrorKind>) -> bool {
    match r {
        Ok(d) => m == Ok::<DataView, ErrorKind>(d@),
        Err(e) => m == Err::<DataView, ErrorKind>(e.spec_kind()),
    }
}

/// Counts the words of the first line of `s`.
fn first_line_width(s: &[u8]) -> (r: usize)
    ensures
        r == line_width(first_line(s@)),
{
    let feed: [u8; 1] = [10];
    let blanks: [u8; 3] = [32, 13, 10];
    proof {
        assert(feed@ =~= seq![10u8]);
        assert(blanks@ =~= seq![32u8, 13u8, 10u8]);
        assert(s@.skip(0) == s@);
    }
    let end = find_delim(s, 0, feed.as_slice());
    let line = slice_subrange(s, 0, end);
    let found = words_on(line, blanks.as_slice());
    assert(views(found@).len() == found@.len());
    found.len()
}

/// The widths of the first two lines of the data. Data of less than two
/// lines give a failure to read.
pub fn infer_data_shape(rest: &[u8]) -> (r: Result<(u64, u64), RawParseError>)
    ensures
        match r {
            Ok(shape) => after_first_line(rest@).len() > 0 && (shape.0 as nat, shape.1 as nat)
                == data_shape(rest@),
            Err(e) => after_first_line(rest@).len() == 0 && e.spec_kind() == ErrorKind::Io,
        },
{
    let feed: [u8; 1] = [10];
    proof {
        assert(feed@ =~= seq![10u8]);
        assert(rest@.skip(0) == rest@);
    }
    let end = find_delim(rest, 0, feed.as_slice());
    if end >= rest.len() || end + 1 == rest.len() {
        return Err(RawParseError::of_kind(ErrorKind::Io));
    }
    let after = slice_subrange(rest, end + 1, rest.len());
    assert(after@ == after_first_line(rest@));
    let n1d = first_line_width(rest);
    let n2d = first_line_width(after);
    Ok((n1d as u64, n2d as u64))
}

/// The readings of the data, up to the first word that is none.
fn read_stream(rest: &[u8]) -> (r: Vec<Numeral>)
    ensures
        numerals(r@) == readings(rest@),
{
    let blanks: [u8; 2] = [32, 10];
    assert(blanks@ =~= seq![32u8, 10u8]);
    let found = words_on(rest, blanks.as_slice());
    let ghost w = views(found@);
    let ghost stop = |t: Seq<u8>| reading_of(t) is None;
    let mut out: Vec<Numeral> = Vec::new();
    let mut i: usize = 0;
    let mut stopped = false;
    while i < found.len() && !stopped
        invariant
            i <= found.len(),
            out@.len() == i,
            w == views(found@),
            stop == |t: Seq<u8>| reading_of(t) is None,
            stopped ==> i < found.len() && stop(w[i as int]),
            forall|j: int| 0 <= j < i ==> reading_of(w[j]) == Some(#[trigger] out@[j]@),
        decreases found.len() - i + if stopped { 0int } else { 1int },
    {
        assert(w[i as int] == found@[i as int]@);
        match read_reading(found[i]) {
            Some(n) => {
                out.push(n);
                i += 1;
            },
            None => {
                stopped = true;
            },
        }
    }
    proof {
        assert forall|j: int| 0 <= j < i implies !stop(#[trigger] w[j]) by {
            assert(reading_of(w[j]) == Some(out@[j]@));
        }
        lemma_first_index_is(w, stop, i as int);
        assert(numerals(out@) =~= readings(rest@));
    }
    out
}

proof fn lemma_profile_index(p: int, count: int, stride: int, off: int)
    requires
        0 <= p < count,
        0 <= off < stride,
    ensures
        0 <= p * stride + off < count * stride,
        0 <= p * stride <= count * stride,
{
    assert(0 <= p * stride + off < count * stride && p * stride >= 0 && p * stride <= count
        * stride) by (nonlinear_arith)
        requires
            0 <= p < count,
            0 <= off < stride,
    ;
}

proof fn lemma_gate_index(k: int, count: int, ngates: int, n2d: int, j: int)
    requires
        0 <= k < count * ngates,
        0 < ngates,
        0 <= j < n2d,
    ensures
        0 <= k / ngates < count,
        0 <= k % ngates < ngates,
        0 <= (k % ngates) * n2d + j < ngates * n2d,
{
    vstd::arithmetic::div_mod::lemma_fundamental_div_mod(k, ngates);
    vstd::arithmetic::div_mod::lemma_mod_bound(k, ngates);
    let q = k / ngates;
    let g = k % ngates;
    assert(0 <= q < count) by (nonlinear_arith)
        requires
            k == ngates * q + g,
            0 <= g < ngates,
            0 <= k < count * ngates,
    ;
    assert(0 <= g * n2d + j < ngates * n2d) by (nonlinear_arith)
        requires
            0 <= g < ngates,
            0 <= j < n2d,
    ;
}

/// One value per profile: the value at place `i` of each profile.
fn take_scalar(flat: &Vec<Numeral>, stride: usize, count: usize, i: usize) -> (r: Vec<Numeral>)
    requires
        i < stride,
        count * stride <= flat.len(),
    ensures
        numerals(r@) == scalar_channel(numerals(flat@), stride as int, count as int, i as int),
{
    let mut out: Vec<Numeral> = Vec::new();
    let mut p: usize = 0;
    while p < count
        invariant
            p <= count,
            i < stride,
            count * stride <= flat.len(),
            out@.len() == p,
            forall|q: int| 0 <= q < p ==> (#[trigger] out@[q])@ == flat@[q * stride + i]@,
        decreases count - p,
    {
        proof {
            lemma_profile_index(p as int, count as int, stride as int, i as int);
        }
        let at = p * stride + i;
        out.push(flat[at].clone());
        p += 1;
    }
    proof {
        let goal = scalar_channel(numerals(flat@), stride as int, count as int, i as int);
        assert forall|q: int| 0 <= q < count implies numerals(out@)[q] == goal[q] by {
            lemma_profile_index(q, count as int, stride as int, i as int);
        }
        assert(numerals(out@) =~= goal);
    }
    out
}

/// One value per profile and gate: the value at place `j` of each gate.
fn take_gates(
    flat: &Vec<Numeral>,
    n1d: usize,
    ngates: usize,
    n2d: usize,
    count: usize,
    j: usize,
    stride: usize,
) -> (r: Vec<Numeral>)
    requires
        j < n2d,
        0 < ngates,
        stride == profile_len(n1d as int, ngates as int, n2d as int),
        count * stride <= flat.len(),
    ensures
        numerals(r@) == gate_channel(
            numerals(flat@),
            n1d as int,
            ngates as int,
            n2d as int,
            count as int,
            j as int,
        ),
{
    proof {
        assert(0 <= ngates * n2d && count * ngates <= count * stride) by (nonlinear_arith)
            requires
                stride == n1d + ngates * n2d,
                0 < n2d,
                0 <= n1d,
                0 < ngates,
                0 <= count,
        ;
    }
    let total = count * ngates;
    let mut out: Vec<Numeral> = Vec::new();
    let mut k: usize = 0;
    while k < total
        invariant
            k <= total,
            total == count * ngates,
            j < n2d,
            0 < ngates,
            stride == profile_len(n1d as int, ngates as int, n2d as int),
            count * stride <= flat.len(),
            out@.len() == k,
            forall|q: int|
                0 <= q < k ==> (#[trigger] out@[q])@ == flat@[(q / (ngates as int)) * stride + n1d
                    + (q % (ngates as int)) * n2d + j]@,
        decreases total - k,
    {
        let p = k / ngates;
        let g = k % ngates;
        proof {
            lemma_gate_index(k as int, count as int, ngates as int, n2d as int, j as int);
            lemma_profile_index(p as int, count as int, stride as int, n1d + g * n2d + j);
        }
        let at = p * stride + n1d + g * n2d + j;
        out.push(flat[at].clone());
        k += 1;
    }
    proof {
        let goal = gate_channel(
            numerals(flat@),
            n1d as int,
            ngates as int,
            n2d as int,
            count as int,
            j as int,
        );
        assert forall|q: int| 0 <= q < total implies numerals(out@)[q] == goal[q] by {
            lemma_gate_index(q, count as int, ngates as int, n2d as int, j as int);
            lemma_profile_index(
                q / (ngates as int),
                count as int,
                stride as int,
                n1d + (q % (ngates as int)) * n2d + j,
            );
        }
        assert(numerals(out@) =~= goal);
    }
    out
}

/// The distance of each sample's gate, in halves of a range gate length.
fn centres(ngates: usize, count: usize) -> (r: Vec<u64>)
    requires
        0 < ngates,
        count * ngates <= usize::MAX,
        2 * ngates <= u64::MAX,
    ensures
        r@.map_values(|n: u64| n as nat) == gate_centres(ngates as int, count as int),
{
    let total = count * ngates;
    let mut out: Vec<u64> = Vec::new();
    let mut k: usize = 0;
    while k < total
        invariant
            k <= total,
            0 < ngates,
            2 * ngates <= u64::MAX,
            out@.len() == k,
            forall|q: int| 0 <= q < k ==> #[trigger] out@[q] == 2 * (q % (ngates as int)) + 1,
        decreases total - k,
    {
        let g = (k % ngates) as u64;
        out.push(2 * g + 1);
        k += 1;
    }
    assert(out@.map_values(|n: u64| n as nat) =~= gate_centres(ngates as int, count as int));
    out
}

/// Reads the data after the header of a file with `ngates` gates.
///
/// The first two lines give the shape. The readings are then taken profile
/// by profile: first the values that the profile has for itself, then the
/// values of each gate in turn.
pub fn parse_data(rest: &[u8], ngates: u64) -> (r: Result<Data, RawParseError>)
    ensures
        data_matches(r, body_data(rest@, ngates)),
        r matches Ok(d) ==> d@.well_formed(ngates as int),
{
    let shape = infer_data_shape(rest)?;
    let n1d = shape.0;
    let n2d = shape.1;
    if ngates < 1 || n1d < 3 || n2d < 4 {
        return Err(RawParseError::of_kind(ErrorKind::DataShape));
    }
    let flat = read_stream(rest);
    proof {
        assert(ngates * n2d <= 0xffff_ffff_ffff_ffff * 0xffff_ffff_ffff_ffff) by (nonlinear_arith)
            requires
                0 <= ngates <= 0xffff_ffff_ffff_ffff,
                0 <= n2d <= 0xffff_ffff_ffff_ffff,
        ;
    }
    let wide: u128 = n1d as u128 + (ngates as u128) * (n2d as u128);
    let whole: u128 = flat.len() as u128 / wide;
    assert(wide == profile_len(n1d as int, ngates as int, n2d as int));
    assert(numerals(flat@).len() == flat@.len());
    if whole == 0 {
        return Err(RawParseError::of_kind(ErrorKind::NoProfiles));
    }
    proof {
        vstd::arithmetic::div_mod::lemma_fundamental_div_mod(flat.len() as int, wide as int);
        vstd::arithmetic::div_mod::lemma_mod_bound(flat.len() as int, wide as int);
        assert(wide <= flat.len() && whole * wide <= flat.len() && ngates * n2d <= wide && ngates
            <= ngates * n2d && n2d <= ngates * n2d && whole * ngates <= whole * wide && 4 * ngates
            <= ngates * n2d) by (nonlinear_arith)
            requires
                flat.len() == wide * whole + (flat.len() as int % wide as int),
                0 <= (flat.len() as int % wide as int),
                whole >= 1,
                wide == n1d + ngates * n2d,
                n2d >= 4,
                ngates >= 1,
                n1d >= 0,
        ;
    }
    let stride = wide as usize;
    let count = whole as usize;
    let gates = ngates as usize;
    let own = n1d as usize;
    let each = n2d as usize;
    assert(gates == ngates && own == n1d && each == n2d && stride == wide && count == whole);
    let time = take_scalar(&flat, stride, count, 0);
    let azimuth = take_scalar(&flat, stride, count, 1);
    let elevation = take_scalar(&flat, stride, count, 2);
    let pitch = if own > 3 {
        Some(take_scalar(&flat, stride, count, 3))
    } else {
        None
    };
    let roll = if own > 4 {
        Some(take_scalar(&flat, stride, count, 4))
    } else {
        None
    };
    let range = take_gates(&flat, own, gates, each, count, 0, stride);
    let radial_velocity = take_gates(&flat, own, gates, each, count, 1, stride);
    let intensity = take_gates(&flat, own, gates, each, count, 2, stride);
    let beta = take_gates(&flat, own, gates, each, count, 3, stride);
    let spectral_width = if each > 4 {
        Some(take_gates(&flat, own, gates, each, count, 4, stride))
    } else {
        None
    };
    let radial_distance = centres(gates, count);
    proof {
        lemma_series_lengths(rest@, ngates);
    }
    Ok(
        Data {
            time,
            radial_distance,
            azimuth,
            elevation,
            pitch,
            roll,
            range,
            radial_velocity,
            intensity,
            beta,
            spectral_width,
        },
    )
}

/// A decoded file.
#[derive(Debug, Clone, PartialEq, Eq)]
pub struct HaloHpl {
    pub info: Info,
    pub data: Data,
}

/// A [`HaloHpl`] as plain values.
pub ghost struct HaloHplView {
    pub info: InfoView,
    pub data: DataView,
}

impl View for HaloHpl {
    type V = HaloHplView;

    open spec fn view(&self) -> HaloHplView {
        HaloHplView { info: self.info@, data: self.data@ }
    }
}

/// Whether the four bytes before index `e` of `s` are stars.
pub open spec fn stars_end_at(s: Seq<u8>, e: int) -> bool {
    4 <= e <= s.len() && s[e - 4] == 42 && s[e - 3] == 42 && s[e - 2] == 42 && s[e - 1] == 42
}

/// The least index at or after `from` that four stars end at, or an index
/// past the end of `s` where there is none.
pub open spec fn stars_end(s: Seq<u8>, from: int) -> int
    decreases s.len() - from + 1,
{
    if from < 0 || from > s.len() {
        (s.len() + 1) as int
    } else if stars_end_at(s, from) {
        from
    } else {
        stars_end(s, from + 1)
    }
}

/// The length of the header block: up to the first four stars in a row and
/// on to the end of their line, the line feed included. All of `s` where it
/// has no four stars in a row.
pub open spec fn header_len(s: Seq<u8>) -> int {
    let e = stars_end(s, 0);
    if e > s.len() {
        s.len() as int
    } else {
        let k = e + first_delim(s.skip(e), seq![10u8]);
        if k < s.len() {
            k + 1
        } else {
            s.len() as int
        }
    }
}

/// What a file holds: the header block of its bytes without the zeros, and
/// the data that follow it.
pub open spec fn decoded(content: Seq<u8>) -> Result<HaloHplView, ErrorKind> {
    let clean = without_nulls(content);
    let h = header_len(clean);
    match header_info(clean.take(h)) {
        Err(e) => Err(e),
        Ok(info) => match body_data(clean.skip(h), info.ngates) {
            Err(e) => Err(e),
            Ok(data) => Ok(HaloHplView { info, data }),
        },
    }
}

/// Whether a result is the one that the model gives.
pub open spec fn file_matches(r: Result<HaloHpl, RawParseError>, m: Result<HaloHplView, ErrorKind>) -> bool {
    match r {
        Ok(h) => m == Ok::<HaloHplView, ErrorKind>(h@),
        Err(e) => m == Err::<HaloHplView, ErrorKind>(e.spec_kind()),
    }
}

/// The length of the header block of `s`.
pub fn find_header_len(s: &[u8]) -> (r: usize)
    ensures
        r == header_len(s@),
        r <= s.len(),
{
    let n = s.len();
    let mut e: usize = 0;
    let mut found = false;
    while e < n && !found
        invariant
            e <= n,
            n == s@.len(),
            stars_end(s@, 0) == stars_end(s@, e as int),
            found ==> stars_end_at(s@, e as int),
        decreases n - e + if found { 0int } else { 1int },
    {
        if e >= 4 && s[e - 4] == 42 && s[e - 3] == 42 && s[e - 2] == 42 && s[e - 1] == 42 {
            found = true;
        } else {
            e += 1;
        }
    }
    if !found {
        if n >= 4 && s[n - 4] == 42 && s[n - 3] == 42 && s[n - 2] == 42 && s[n - 1] == 42 {
            found = true;
        } else {
            assert(stars_end(s@, n as int) == stars_end(s@, n + 1));
        }
    }
    if !found {
        return n;
    }
    let feed: [u8; 1] = [10];
    assert(feed@ =~= seq![10u8]);
    let k = find_delim(s, e, feed.as_slice());
    if k < n {
        k + 1
    } else {
        n
    }
}

/// Decodes one file from its bytes.
///
/// Zero bytes are dropped first. The header block is read into the record's
/// `info`, and what follows it into its `data`, for as many gates as the
/// header names. The first failure ends the decode.
pub fn from_bytes_src(content: &[u8]) -> (r: Result<HaloHpl, RawParseError>)
    ensures
        file_matches(r, decoded(content@)),
        r matches Ok(h) ==> h.info.ngates >= 1 && h.data@.well_formed(h.info.ngates as int),
{
    let clean = strip_nulls(content);
    let h = find_header_len(clean.as_slice());
    let header = slice_subrange(clean.as_slice(), 0, h);
    let rest = slice_subrange(clean.as_slice(), h, clean.len());
    let info = parse_header(header)?;
    let data = parse_data(rest, info.ngates)?;
    Ok(HaloHpl { info, data })
}

/// What a file holds, where it can be decoded.
pub open spec fn decoded_ok(content: Seq<u8>) -> Option<HaloHplView> {
    match decoded(content) {
        Ok(v) => Some(v),
        Err(_) => None,
    }
}

/// The records of the files that can be decoded, in the order of the files.
pub open spec fn successes(contents: Seq<Seq<u8>>) -> Seq<HaloHplView> {
    contents.filter_map(|c: Seq<u8>| decoded_ok(c))
}

/// The views of a list of records.
pub open spec fn record_views(v: Seq<HaloHpl>) -> Seq<HaloHplView> {
    v.map_values(|h: HaloHpl| h@)
}

/// Decodes one file and drops the failure, if there is one.
pub fn decode_or_drop(content: &[u8]) -> (r: Option<HaloHpl>)
    ensures
        match r {
            Some(h) => decoded_ok(content@) == Some(h@),
            None => decoded_ok(content@) is None,
        },
{
    match from_bytes_src(content) {
        Ok(h) => Some(h),
        Err(_) => None,
    }
}

/// `rayon`'s `par_iter`, `filter_map` and `collect`: every file is handed to
/// `decode_or_drop` once, on some thread, and the records that come back are
/// gathered. The contract claims the records, not their order.
#[verifier::external_body]
fn gather(contents: &Vec<&[u8]>) -> (r: Vec<HaloHpl>)
    ensures
        record_views(r@).to_multiset() == successes(views(contents@)).to_multiset(),
{
    contents.par_iter().filter_map(|c| decode_or_drop(c)).collect()
}

/// Decodes many files side by side. A file that cannot be decoded is left
/// out, and nothing is said of it: the result holds the records of the
/// others, in no promised order. How many files failed is the number of
/// files less the number of records.
pub fn from_bytes_srcs(contents: Vec<&[u8]>) -> (r: Vec<HaloHpl>)
    ensures
        record_views(r@).to_multiset() == successes(views(contents@)).to_multiset(),
        r@.len() <= contents@.len(),
{
    let out = gather(&contents);
    proof {
        let got = record_views(out@);
        let all = views(contents@);
        got.to_multiset_ensures();
        successes(all).to_multiset_ensures();
        crate::raw::scan::lemma_filter_map_len(all, |c: Seq<u8>| decoded_ok(c));
    }
    out
}

} // verus!
