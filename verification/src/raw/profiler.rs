//! What the two wind profiler formats share: lines of notes, a banner that
//! names the columns, and rows of values between tabs.
use vstd::prelude::*;
use vstd::slice::slice_subrange;
use vstd::string::StringSliceAdditionalSpecFns;
use crate::raw::clock::{parse_instant, parsed_instant};
use crate::raw::error::{ErrorKind, RawParseError};
use crate::raw::numeral::{is_float_text, numerals, read_reading, reading_of, Numeral};
use crate::raw::scan::{
    after_first_line, find_delim, first_delim, first_index, first_line, has_prefix,
    lemma_first_index_is, split, split_on, starts_with, views, words, words_on,
};
use crate::raw::text::{field_text, latin1, latin1_string, read_field, text_eq, trim, trim_str};

verus! {

/// The two generations of the format.
#[derive(Debug, Clone, Copy, PartialEq, Eq, Structural)]
pub enum Variant {
    /// Day first in a timestamp; the fourth column is the wiper, on or off.
    Wls70,
    /// Year first in a timestamp; the second column is a position or a
    /// letter.
    Wls77,
}

/// One of the two ways in which a banner starts.
pub const BANNER_TIMESTAMP: &'static str = "Timestamp\tPosition\tTemperature";

/// The other way in which a banner starts.
pub const BANNER_DATE: &'static str = "Date\tPosition\tTemperature";

/// How the line of altitudes starts in the older format.
pub const ALTITUDES: &'static str = "Altitudes(m)=";

/// How the line of altitudes starts in the newer format.
pub const ALTITUDES_AGL: &'static str = "Altitudes AGL (m)=";

/// How the line with the system's name starts.
pub const SYSTEM_ID: &'static str = "ID System=";

/// How the line with the threshold starts.
pub const CNR_THRESHOLD: &'static str = "CNRThreshold=";

/// A timestamp with the day first, and a fraction of a second where there is
/// one.
pub const DAY_FIRST: &'static str = "%d/%m/%Y %H:%M:%S%.f";

/// A timestamp with the year first, and a fraction of a second where there
/// is one.
pub const YEAR_FIRST: &'static str = "%Y/%m/%d %H:%M:%S%.f";

/// What the notes before the banner say.
#[derive(Debug, Clone, PartialEq, Eq)]
pub struct Info {
    /// Metres.
    pub altitude: Vec<Numeral>,
    pub system_id: String,
    pub cnr_threshold: Numeral,
}

/// An [`Info`] as plain values.
pub ghost struct InfoView {
    pub altitude: Seq<Seq<char>>,
    pub system_id: Seq<char>,
    pub cnr_threshold: Seq<char>,
}

impl View for Info {
    type V = InfoView;

    open spec fn view(&self) -> InfoView {
        InfoView {
            altitude: numerals(self.altitude@),
            system_id: self.system_id@,
            cnr_threshold: self.cnr_threshold@,
        }
    }
}

/// The notes that say nothing.
pub open spec fn blank_info() -> InfoView {
    InfoView { altitude: Seq::empty(), system_id: Seq::empty(), cnr_threshold: "0"@ }
}

impl Default for Info {
    fn default() -> (r: Self)
        ensures
            r@ == blank_info(),
    {
        let r = Info {
            altitude: Vec::new(),
            system_id: String::new(),
            cnr_threshold: Numeral::zero(),
        };
        assert(numerals(r.altitude@) =~= Seq::empty());
        r
    }
}

/// The start of the line that lists the altitudes.
pub open spec fn altitude_prefix(variant: Variant) -> Seq<u8> {
    match variant {
        Variant::Wls70 => ALTITUDES.spec_bytes(),
        Variant::Wls77 => ALTITUDES_AGL.spec_bytes(),
    }
}

/// The format of a row's timestamp.
pub open spec fn instant_format(variant: Variant) -> Seq<char> {
    match variant {
        Variant::Wls70 => DAY_FIRST@,
        Variant::Wls77 => YEAR_FIRST@,
    }
}

/// The column that holds a state and not a measurement.
pub open spec fn state_column(variant: Variant) -> int {
    match variant {
        Variant::Wls70 => 3,
        Variant::Wls77 => 1,
    }
}

/// The readings of a list of fields: all of them, or the failure of the
/// first field that is no reading.
pub open spec fn field_readings(fields: Seq<Seq<u8>>) -> Result<Seq<Seq<char>>, ErrorKind> {
    let k = first_index(fields, |f: Seq<u8>| reading_of(f) is None);
    if 0 <= k < fields.len() {
        if field_text(fields[k]) is None {
            Err(ErrorKind::Encoding)
        } else {
            Err(ErrorKind::Number)
        }
    } else {
        Ok(fields.map_values(|f: Seq<u8>| reading_of(f)->0))
    }
}

/// The notes after one more line. A line that starts as none of the three
/// known lines changes nothing.
pub open spec fn with_info_line(info: InfoView, line: Seq<u8>, variant: Variant) -> Result<
    InfoView,
    ErrorKind,
> {
    if has_prefix(line, altitude_prefix(variant)) {
        match field_readings(split(line, seq![9u8]).skip(1)) {
            Ok(a) => Ok(InfoView { altitude: a, ..info }),
            Err(e) => Err(e),
        }
    } else if has_prefix(line, SYSTEM_ID.spec_bytes()) {
        match field_text(line.skip(SYSTEM_ID.spec_bytes().len() as int)) {
            Some(t) => Ok(InfoView { system_id: t, ..info }),
            None => Err(ErrorKind::Encoding),
        }
    } else if has_prefix(line, CNR_THRESHOLD.spec_bytes()) {
        match field_text(line.skip(CNR_THRESHOLD.spec_bytes().len() as int)) {
            Some(t) => if is_float_text(t) {
                Ok(InfoView { cnr_threshold: t, ..info })
            } else {
                Err(ErrorKind::Number)
            },
            None => Err(ErrorKind::Encoding),
        }
    } else {
        Ok(info)
    }
}

/// The notes after all of `lines`, up to the first failure.
pub open spec fn with_info_lines(info: InfoView, lines: Seq<Seq<u8>>, variant: Variant) -> Result<
    InfoView,
    ErrorKind,
>
    decreases lines.len(),
{
    if lines.len() == 0 {
        Ok(info)
    } else {
        match with_info_line(info, lines[0], variant) {
            Ok(next) => with_info_lines(next, lines.drop_first(), variant),
            Err(e) => Err(e),
        }
    }
}

/// What the notes of a file say: its lines, read in order onto blank notes.
pub open spec fn info_of(notes: Seq<u8>, variant: Variant) -> Result<InfoView, ErrorKind> {
    with_info_lines(blank_info(), split(notes, seq![10u8]), variant)
}

/// Whether a result is the one that the model gives.
pub open spec fn info_matches(r: Result<Info, RawParseError>, m: Result<InfoView, ErrorKind>) -> bool {
    match r {
        Ok(info) => m == Ok::<InfoView, ErrorKind>(info@),
        Err(e) => m == Err::<InfoView, ErrorKind>(e.spec_kind()),
    }
}

/// Whether a result is the one that the model gives.
pub open spec fn readings_match(
    r: Result<Vec<Numeral>, RawParseError>,
    m: Result<Seq<Seq<char>>, ErrorKind>,
) -> bool {
    match r {
        Ok(v) => m == Ok::<Seq<Seq<char>>, ErrorKind>(numerals(v@)),
        Err(e) => m == Err::<Seq<Seq<char>>, ErrorKind>(e.spec_kind()),
    }
}

/// Reads every field after the first as a reading.
fn read_altitudes(fields: &Vec<&[u8]>) -> (r: Result<Vec<Numeral>, RawParseError>)
    requires
        fields@.len() >= 1,
    ensures
        readings_match(r, field_readings(views(fields@).skip(1))),
{
    let ghost f = views(fields@).skip(1);
    let ghost stop = |f: Seq<u8>| reading_of(f) is None;
    let mut out: Vec<Numeral> = Vec::new();
    let mut i: usize = 1;
    while i < fields.len()
        invariant
            1 <= i <= fields.len(),
            f == views(fields@).skip(1),
            stop == |f: Seq<u8>| reading_of(f) is None,
            out@.len() == i - 1,
            forall|j: int| 0 <= j < i - 1 ==> reading_of(f[j]) == Some(#[trigger] out@[j]@),
        decreases fields.len() - i,
    {
        assert(f[i - 1] == fields@[i as int]@);
        match read_reading(fields[i]) {
            Some(n) => {
                out.push(n);
            },
            None => {
                proof {
                    assert forall|j: int| 0 <= j < i - 1 implies !stop(#[trigger] f[j]) by {
                        assert(reading_of(f[j]) == Some(out@[j]@));
                    }
                    lemma_first_index_is(f, stop, i - 1);
                }
                return match read_field(fields[i]) {
                    None => Err(RawParseError::of_kind(ErrorKind::Encoding)),
                    Some(_) => Err(RawParseError::of_kind(ErrorKind::Number)),
                };
            },
        }
        i += 1;
    }
    proof {
        assert forall|j: int| 0 <= j < f.len() implies !stop(#[trigger] f[j]) by {
            assert(reading_of(f[j]) == Some(out@[j]@));
        }
        lemma_first_index_is(f, stop, f.len() as int);
        assert(numerals(out@) =~= f.map_values(|f: Seq<u8>| reading_of(f)->0));
    }
    Ok(out)
}

/// The start of the line that lists the altitudes.
fn altitude_start(variant: Variant) -> (r: &'static str)
    ensures
        r.spec_bytes() == altitude_prefix(variant),
{
    match variant {
        Variant::Wls70 => ALTITUDES,
        Variant::Wls77 => ALTITUDES_AGL,
    }
}

/// Reads one line of the notes.
fn set_info_line(info: Info, line: &[u8], variant: Variant) -> (r: Result<Info, RawParseError>)
    ensures
        info_matches(r, with_info_line(info@, line@, variant)),
{
    let mut info = info;
    if starts_with(line, altitude_start(variant).as_bytes()) {
        let tab: [u8; 1] = [9];
        assert(tab@ =~= seq![9u8]);
        let fields = split_on(line, tab.as_slice());
        proof {
            assert(views(fields@).len() == fields@.len());
            crate::raw::scan::lemma_split_nonempty(line@, seq![9u8]);
        }
        info.altitude = read_altitudes(&fields)?;
        Ok(info)
    } else if starts_with(line, SYSTEM_ID.as_bytes()) {
        let from = SYSTEM_ID.as_bytes().len();
        match read_field(slice_subrange(line, from, line.len())) {
            Some(t) => {
                info.system_id = t.to_owned();
                Ok(info)
            },
            None => Err(RawParseError::of_kind(ErrorKind::Encoding)),
        }
    } else if starts_with(line, CNR_THRESHOLD.as_bytes()) {
        let from = CNR_THRESHOLD.as_bytes().len();
        match read_field(slice_subrange(line, from, line.len())) {
            Some(t) => match Numeral::parse(t) {
                Some(n) => {
                    info.cnr_threshold = n;
                    Ok(info)
                },
                None => Err(RawParseError::of_kind(ErrorKind::Number)),
            },
            None => Err(RawParseError::of_kind(ErrorKind::Encoding)),
        }
    } else {
        Ok(info)
    }
}

/// Reads the notes before the banner: the altitudes, the system's name and
/// the threshold of the carrier to noise ratio, each from the last line that
/// gives it.
pub fn parse_info(info_str: &[u8], variant: Variant) -> (r: Result<Info, RawParseError>)
    ensures
        info_matches(r, info_of(info_str@, variant)),
{
    let feed: [u8; 1] = [10];
    assert(feed@ =~= seq![10u8]);
    let lines = split_on(info_str, feed.as_slice());
    let ghost all = split(info_str@, seq![10u8]);
    let mut info = Info::default();
    let mut i: usize = 0;
    assert(all.skip(0) == all);
    while i < lines.len()
        invariant
            i <= lines.len(),
            views(lines@) == all,
            all == split(info_str@, seq![10u8]),
            with_info_lines(blank_info(), all, variant) == with_info_lines(
                info@,
                all.skip(i as int),
                variant,
            ),
        decreases lines.len() - i,
    {
        proof {
            assert(all.len() == lines@.len());
            assert(all.skip(i as int)[0] == lines@[i as int]@);
            assert(all.skip(i as int).drop_first() == all.skip(i + 1));
        }
        match set_info_line(info, lines[i], variant) {
            Ok(next) => {
                info = next;
            },
            Err(e) => {
                return Err(e);
            },
        }
        i += 1;
    }
    Ok(info)
}

/// One value of a table.
#[derive(Debug, Clone, PartialEq, Eq)]
pub enum Cell {
    /// A point in time: whole seconds since the start of 1970, UTC, and the
    /// milliseconds after them.
    Instant { seconds: i64, millis: u32 },
    /// A measurement, as written.
    Reading(Numeral),
    /// A state, as a whole number.
    Whole(i64),
}

/// A [`Cell`] as plain values.
pub ghost enum CellView {
    Instant { seconds: i64, millis: u32 },
    Reading(Seq<char>),
    Whole(i64),
}

impl View for Cell {
    type V = CellView;

    open spec fn view(&self) -> CellView {
        match self {
            Cell::Instant { seconds, millis } => CellView::Instant {
                seconds: *seconds,
                millis: *millis,
            },
            Cell::Reading(n) => CellView::Reading(n@),
            Cell::Whole(n) => CellView::Whole(*n),
        }
    }
}

/// The views of a list of cells.
pub open spec fn cells(v: Seq<Cell>) -> Seq<CellView> {
    v.map_values(|c: Cell| c@)
}

impl Cell {
    /// A second copy of the cell.
    pub fn copy(&self) -> (r: Cell)
        ensures
            r@ == self@,
    {
        match self {
            Cell::Instant { seconds, millis } => Cell::Instant {
                seconds: *seconds,
                millis: *millis,
            },
            Cell::Reading(n) => Cell::Reading(n.clone()),
            Cell::Whole(n) => Cell::Whole(*n),
        }
    }
}

/// What the field at place `i` of a row gives: a cell, nothing where the
/// field cannot be read and is left out, or a failure.
///
/// The first field is the row's time. In the state column `On` is 1 and
/// `Off` is 0 and anything else a failure (day first), or a reading is
/// itself, `V` is -1 and anything else -2 (year first). Every other field is
/// a reading.
pub open spec fn cell_of(field: Seq<u8>, i: int, variant: Variant) -> Result<
    Option<CellView>,
    ErrorKind,
> {
    let t = field_text(field);
    if i == 0 {
        match t {
            Some(t) => match parsed_instant(t, instant_format(variant)) {
                Some(v) => Ok(Some(CellView::Instant { seconds: v.0, millis: v.1 })),
                None => Ok(None),
            },
            None => Ok(None),
        }
    } else if i == state_column(variant) {
        match variant {
            Variant::Wls70 => if t == Some("On"@) {
                Ok(Some(CellView::Whole(1)))
            } else if t == Some("Off"@) {
                Ok(Some(CellView::Whole(0)))
            } else {
                Err(ErrorKind::StateToken)
            },
            Variant::Wls77 => match reading_of(field) {
                Some(r) => Ok(Some(CellView::Reading(r))),
                None => if t == Some("V"@) {
                    Ok(Some(CellView::Whole(-1i64)))
                } else {
                    Ok(Some(CellView::Whole(-2i64)))
                },
            },
        }
    } else {
        match reading_of(field) {
            Some(r) => Ok(Some(CellView::Reading(r))),
            None => Ok(None),
        }
    }
}

/// What has been read of the rows so far: the cells, the number of columns
/// once a row has fixed it, and how many values were left out.
pub ghost struct Rows {
    pub cells: Seq<CellView>,
    pub ncols: Option<nat>,
    pub skipped: nat,
}

/// The rows so far and then the fields of one row from place `i` on.
pub open spec fn with_fields(rows: Rows, fields: Seq<Seq<u8>>, i: int, variant: Variant) -> Result<
    Rows,
    ErrorKind,
>
    decreases fields.len() - i,
{
    if i < 0 || i >= fields.len() {
        Ok(rows)
    } else {
        match cell_of(fields[i], i, variant) {
            Err(e) => Err(e),
            Ok(Some(c)) => with_fields(
                Rows { cells: rows.cells.push(c), ..rows },
                fields,
                i + 1,
                variant,
            ),
            Ok(None) => with_fields(
                Rows { skipped: rows.skipped + 1, ..rows },
                fields,
                i + 1,
                variant,
            ),
        }
    }
}

/// The rows after one more line. A line without a word changes nothing; the
/// first other line fixes the number of columns, and a later line with
/// another number of words is a failure.
pub open spec fn with_row(rows: Rows, line: Seq<u8>, variant: Variant) -> Result<Rows, ErrorKind> {
    let fields = words(line, seq![9u8]);
    if fields.len() == 0 {
        Ok(rows)
    } else if rows.ncols is Some && rows.ncols->0 != fields.len() {
        Err(ErrorKind::Columns)
    } else {
        with_fields(Rows { ncols: Some(fields.len()), ..rows }, fields, 0, variant)
    }
}

/// The rows after all of `lines`, up to the first failure.
pub open spec fn with_rows(rows: Rows, lines: Seq<Seq<u8>>, variant: Variant) -> Result<
    Rows,
    ErrorKind,
>
    decreases lines.len(),
{
    if lines.len() == 0 {
        Ok(rows)
    } else {
        match with_row(rows, lines[0], variant) {
            Ok(next) => with_rows(next, lines.drop_first(), variant),
            Err(e) => Err(e),
        }
    }
}

/// The rows of a file: the cells row after row, the number of columns, and
/// the number of values that could not be read and were left out.
#[derive(Debug, Clone, PartialEq, Eq)]
pub struct Sheet {
    pub cells: Vec<Cell>,
    pub ncols: usize,
    pub skipped: usize,
}

/// A [`Sheet`] as plain values.
pub ghost struct SheetView {
    pub cells: Seq<CellView>,
    pub ncols: nat,
    pub skipped: nat,
}

impl View for Sheet {
    type V = SheetView;

    open spec fn view(&self) -> SheetView {
        SheetView {
            cells: cells(self.cells@),
            ncols: self.ncols as nat,
            skipped: self.skipped as nat,
        }
    }
}

/// Nothing read yet.
pub open spec fn no_rows() -> Rows {
    Rows { cells: Seq::empty(), ncols: None, skipped: 0 }
}

/// What the rows of a file hold. Rows without a word, or cells that do not
/// fill whole rows, are a failure.
pub open spec fn rows_of(data: Seq<u8>, variant: Variant) -> Result<SheetView, ErrorKind> {
    match with_rows(no_rows(), split(data, seq![10u8]), variant) {
        Err(e) => Err(e),
        Ok(rows) => match rows.ncols {
            None => Err(ErrorKind::Columns),
            Some(n) => if n < 1 || rows.cells.len() % n != 0 {
                Err(ErrorKind::Columns)
            } else {
                Ok(SheetView { cells: rows.cells, ncols: n, skipped: rows.skipped })
            },
        },
    }
}

/// The cells and the number of columns of the rows of a file.
pub open spec fn table_of(data: Seq<u8>, variant: Variant) -> Result<(Seq<CellView>, nat), ErrorKind> {
    match rows_of(data, variant) {
        Ok(sheet) => Ok((sheet.cells, sheet.ncols)),
        Err(e) => Err(e),
    }
}

/// Whether a result is the one that the model gives.
pub open spec fn sheet_matches(r: Result<Sheet, RawParseError>, m: Result<SheetView, ErrorKind>) -> bool {
    match r {
        Ok(t) => m == Ok::<SheetView, ErrorKind>(t@),
        Err(e) => m == Err::<SheetView, ErrorKind>(e.spec_kind()),
    }
}

/// Whether a result is the one that the model gives.
pub open spec fn table_matches(
    r: Result<(Vec<Cell>, usize), RawParseError>,
    m: Result<(Seq<CellView>, nat), ErrorKind>,
) -> bool {
    match r {
        Ok(t) => m == Ok::<(Seq<CellView>, nat), ErrorKind>((cells(t.0@), t.1 as nat)),
        Err(e) => m == Err::<(Seq<CellView>, nat), ErrorKind>(e.spec_kind()),
    }
}

/// The format of a row's timestamp.
fn format_of(variant: Variant) -> (r: &'static str)
    ensures
        r@ == instant_format(variant),
{
    match variant {
        Variant::Wls70 => DAY_FIRST,
        Variant::Wls77 => YEAR_FIRST,
    }
}

/// The point in time that a text names: whole seconds since the start of
/// 1970, taken as UTC, and the milliseconds after them.
pub fn datetime_to_timestamp(s: &str, variant: Variant) -> (r: Result<(i64, u32), RawParseError>)
    ensures
        match r {
            Ok(v) => parsed_instant(s@, instant_format(variant)) == Some(v),
            Err(e) => parsed_instant(s@, instant_format(variant)) is None && e.spec_kind()
                == ErrorKind::DateTime,
        },
{
    match parse_instant(s, format_of(variant)) {
        Ok(v) => Ok(v),
        Err(e) => Err(RawParseError::from_datetime(&e)),
    }
}

/// Whether a result is the one that the model gives.
pub open spec fn cell_matches(
    r: Result<Option<Cell>, RawParseError>,
    m: Result<Option<CellView>, ErrorKind>,
) -> bool {
    match r {
        Ok(Some(c)) => m == Ok::<Option<CellView>, ErrorKind>(Some(c@)),
        Ok(None) => m == Ok::<Option<CellView>, ErrorKind>(None),
        Err(e) => m == Err::<Option<CellView>, ErrorKind>(e.spec_kind()),
    }
}

/// Reads the field at place `i` of a row.
pub fn read_cell(field: &[u8], i: usize, variant: Variant) -> (r: Result<Option<Cell>, RawParseError>)
    ensures
        cell_matches(r, cell_of(field@, i as int, variant)),
{
    let state: usize = match variant {
        Variant::Wls70 => 3,
        Variant::Wls77 => 1,
    };
    if i == 0 {
        match read_field(field) {
            Some(t) => match datetime_to_timestamp(t, variant) {
                Ok(v) => Ok(Some(Cell::Instant { seconds: v.0, millis: v.1 })),
                Err(_) => Ok(None),
            },
            None => Ok(None),
        }
    } else if i == state {
        match variant {
            Variant::Wls70 => match read_field(field) {
                Some(t) => {
                    if text_eq(t, "On") {
                        Ok(Some(Cell::Whole(1)))
                    } else if text_eq(t, "Off") {
                        Ok(Some(Cell::Whole(0)))
                    } else {
                        Err(RawParseError::of_kind(ErrorKind::StateToken))
                    }
                },
                None => Err(RawParseError::of_kind(ErrorKind::StateToken)),
            },
            Variant::Wls77 => match read_reading(field) {
                Some(n) => Ok(Some(Cell::Reading(n))),
                None => match read_field(field) {
                    Some(t) => {
                        if text_eq(t, "V") {
                            Ok(Some(Cell::Whole(-1)))
                        } else {
                            Ok(Some(Cell::Whole(-2)))
                        }
                    },
                    None => Ok(Some(Cell::Whole(-2))),
                },
            },
        }
    } else {
        match read_reading(field) {
            Some(n) => Ok(Some(Cell::Reading(n))),
            None => Ok(None),
        }
    }
}

/// The rows so far, as the model has them.
pub open spec fn rows_view(out: Seq<Cell>, ncols: Option<usize>, skipped: usize) -> Rows {
    Rows {
        cells: cells(out),
        ncols: match ncols {
            Some(n) => Some(n as nat),
            None => None,
        },
        skipped: skipped as nat,
    }
}

/// Reads the rows of a file: the cells row after row, the number of columns,
/// and the number of values that were left out.
///
/// A timestamp or a measurement that cannot be read is left out and counted.
/// The cells must then still fill whole rows, or the rows are refused. Where
/// `skipped` is not zero, cells stand in other columns than their values did.
pub fn parse_rows(data: &[u8], variant: Variant) -> (r: Result<Sheet, RawParseError>)
    ensures
        sheet_matches(r, rows_of(data@, variant)),
        r matches Ok(t) ==> t.ncols >= 1 && t.cells@.len() % (t.ncols as nat) == 0,
{
    let n = data.len();
    let feed: [u8; 1] = [10];
    let tab: [u8; 1] = [9];
    assert(feed@ =~= seq![10u8]);
    assert(tab@ =~= seq![9u8]);
    let ghost target = with_rows(no_rows(), split(data@, seq![10u8]), variant);
    let mut out: Vec<Cell> = Vec::new();
    let mut ncols: Option<usize> = None;
    let mut skipped: usize = 0;
    let mut pos: usize = 0;
    let mut done = false;
    proof {
        assert(data@.skip(0) == data@);
        assert(cells(out@) =~= Seq::empty());
    }
    while !done
        invariant
            pos <= n,
            n == data@.len(),
            feed@ == seq![10u8],
            tab@ == seq![9u8],
            skipped + out@.len() <= pos,
            target == with_rows(no_rows(), split(data@, seq![10u8]), variant),
            !done ==> target == with_rows(
                rows_view(out@, ncols, skipped),
                split(data@.skip(pos as int), seq![10u8]),
                variant,
            ),
            done ==> target == Ok::<Rows, ErrorKind>(rows_view(out@, ncols, skipped)),
        decreases n - pos + if done { 0int } else { 1int },
    {
        let ghost rest = data@.skip(pos as int);
        let ghost before = rows_view(out@, ncols, skipped);
        let end = find_delim(data, pos, feed.as_slice());
        let line = slice_subrange(data, pos, end);
        let fields = words_on(line, tab.as_slice());
        let ghost f = views(fields@);
        proof {
            assert(line@ == rest.take(end - pos));
            assert(f.len() == fields@.len());
            crate::raw::scan::lemma_words_len(line@, seq![9u8]);
            if end < n {
                assert(rest.skip(end - pos + 1) == data@.skip(end + 1));
                assert(split(rest, seq![10u8]) == seq![line@] + split(
                    data@.skip(end + 1),
                    seq![10u8],
                ));
                assert((seq![line@] + split(data@.skip(end + 1), seq![10u8])).drop_first()
                    =~= split(data@.skip(end + 1), seq![10u8]));
            } else {
                assert(line@ == rest);
                assert(split(rest, seq![10u8]) == seq![rest]);
                assert(seq![rest].drop_first() =~= Seq::<Seq<u8>>::empty());
            }
            assert(split(rest, seq![10u8])[0] == line@);
        }
        if fields.len() > 0 {
            match ncols {
                Some(c) => {
                    if c != fields.len() {
                        return Err(RawParseError::of_kind(ErrorKind::Columns));
                    }
                },
                None => {},
            }
            ncols = Some(fields.len());
            let ghost start = rows_view(out@, ncols, skipped);
            let ghost room = pos + fields.len();
            let mut k: usize = 0;
            while k < fields.len()
                invariant
                    k <= fields.len(),
                    f == views(fields@),
                    ncols == Some(fields.len()),
                    target == with_rows(no_rows(), split(data@, seq![10u8]), variant),
                    room == pos + fields.len(),
                    room <= n,
                    skipped + out@.len() <= pos + k,
                    with_fields(start, f, 0, variant) is Err ==> target == Err::<Rows, ErrorKind>(
                        with_fields(start, f, 0, variant)->Err_0,
                    ),
                    with_fields(start, f, 0, variant) == with_fields(
                        rows_view(out@, ncols, skipped),
                        f,
                        k as int,
                        variant,
                    ),
                decreases fields.len() - k,
            {
                assert(f[k as int] == fields@[k as int]@);
                match read_cell(fields[k], k, variant) {
                    Ok(Some(c)) => {
                        proof {
                            assert(cells(out@.push(c)) =~= cells(out@).push(c@));
                        }
                        out.push(c);
                    },
                    Ok(None) => {
                        skipped += 1;
                    },
                    Err(e) => {
                        return Err(e);
                    },
                }
                k += 1;
            }
        }
        proof {
            let after = rows_view(out@, ncols, skipped);
            let lines = split(rest, seq![10u8]);
            assert(with_row(before, line@, variant) == Ok::<Rows, ErrorKind>(after));
            assert(target == with_rows(after, lines.drop_first(), variant));
        }
        if end < n {
            pos = end + 1;
        } else {
            pos = n;
            done = true;
        }
    }
    match ncols {
        None => Err(RawParseError::of_kind(ErrorKind::Columns)),
        Some(c) => {
            assert(cells(out@).len() == out@.len());
            if c < 1 || out.len() % c != 0 {
                Err(RawParseError::of_kind(ErrorKind::Columns))
            } else {
                Ok(Sheet { cells: out, ncols: c, skipped })
            }
        },
    }
}

/// Reads the rows of a file into one flat list of cells, row after row, and
/// counts the columns.
///
/// A timestamp or a measurement that cannot be read is left out. The cells
/// must then still fill whole rows, or the rows are refused; `parse_rows`
/// also tells how many values were left out.
pub fn parse_data(data: &[u8], variant: Variant) -> (r: Result<(Vec<Cell>, usize), RawParseError>)
    ensures
        table_matches(r, table_of(data@, variant)),
        r matches Ok(t) ==> t.1 >= 1 && t.0@.len() % (t.1 as nat) == 0,
{
    match parse_rows(data, variant) {
        Ok(sheet) => Ok((sheet.cells, sheet.ncols)),
        Err(e) => Err(e),
    }
}

/// Whether a line starts as a banner does.
pub open spec fn is_banner(line: Seq<u8>) -> bool {
    has_prefix(line, BANNER_TIMESTAMP.spec_bytes()) || has_prefix(line, BANNER_DATE.spec_bytes())
}

/// The length of the notes: the bytes before the first line that is a
/// banner, all of them where no line is one.
pub open spec fn notes_len(s: Seq<u8>) -> int
    decreases s.len(),
{
    let k = first_delim(s, seq![10u8]);
    if s.len() == 0 || is_banner(first_line(s)) {
        0
    } else if 0 <= k < s.len() {
        k + 1 + notes_len(s.skip(k + 1))
    } else {
        s.len() as int
    }
}

/// The names of the columns: the fields of the banner between tabs, each
/// byte read as one character, without the white space around them and
/// without the fields that are then empty.
pub open spec fn column_names(banner: Seq<u8>) -> Seq<Seq<char>> {
    split(banner.push(10u8), seq![9u8]).map_values(|p: Seq<u8>| trim(latin1(p))).filter(
        |t: Seq<char>| t.len() > 0,
    )
}

/// The views of a list of texts.
pub open spec fn texts(v: Seq<String>) -> Seq<Seq<char>> {
    v.map_values(|t: String| t@)
}

/// A decoded file: the notes, the names of the columns, and the cells row
/// after row, as many in each row as there are names.
#[derive(Debug, Clone, PartialEq, Eq)]
pub struct Table {
    pub info: Info,
    pub data_columns: Vec<String>,
    pub data: Vec<Cell>,
    /// How many values of the rows could not be read and were left out.
    /// Where this is not zero, cells stand in other columns than their
    /// values did.
    pub skipped: usize,
}

/// A [`Table`] as plain values.
pub ghost struct TableView {
    pub info: InfoView,
    pub data_columns: Seq<Seq<char>>,
    pub data: Seq<CellView>,
    pub skipped: nat,
}

impl View for Table {
    type V = TableView;

    open spec fn view(&self) -> TableView {
        TableView {
            info: self.info@,
            data_columns: texts(self.data_columns@),
            data: cells(self.data@),
            skipped: self.skipped as nat,
        }
    }
}

/// What a file holds. The notes end where the banner starts, the banner
/// names the columns, and the rows follow it. A failure in the notes comes
/// first, then one in the rows, then a banner that names another number of
/// columns than the rows have.
pub open spec fn table_decoded(content: Seq<u8>, variant: Variant) -> Result<TableView, ErrorKind> {
    let cut = notes_len(content);
    let tail = content.skip(cut);
    let names = column_names(first_line(tail));
    match info_of(content.take(cut), variant) {
        Err(e) => Err(e),
        Ok(info) => match rows_of(after_first_line(tail), variant) {
            Err(e) => Err(e),
            Ok(sheet) => if sheet.ncols != names.len() {
                Err(ErrorKind::ColumnMismatch)
            } else {
                Ok(
                    TableView {
                        info,
                        data_columns: names,
                        data: sheet.cells,
                        skipped: sheet.skipped,
                    },
                )
            },
        },
    }
}

/// What the state column makes of its tokens. With the day first, `On` is 1,
/// `Off` is 0, and any other token is a failure. With the year first, a
/// reading stays what it is, `V` is -1, and any other token is -2.
pub proof fn lemma_state_tokens(field: Seq<u8>)
    ensures
        field_text(field) == Some("On"@) ==> cell_of(field, 3, Variant::Wls70) == Ok::<
            Option<CellView>,
            ErrorKind,
        >(Some(CellView::Whole(1))),
        field_text(field) == Some("Off"@) ==> cell_of(field, 3, Variant::Wls70) == Ok::<
            Option<CellView>,
            ErrorKind,
        >(Some(CellView::Whole(0))),
        field_text(field) != Some("On"@) && field_text(field) != Some("Off"@) ==> cell_of(
            field,
            3,
            Variant::Wls70,
        ) == Err::<Option<CellView>, ErrorKind>(ErrorKind::StateToken),
        reading_of(field) matches Some(r) ==> cell_of(field, 1, Variant::Wls77) == Ok::<
            Option<CellView>,
            ErrorKind,
        >(Some(CellView::Reading(r))),
        field_text(field) == Some("V"@) ==> cell_of(field, 1, Variant::Wls77) == Ok::<
            Option<CellView>,
            ErrorKind,
        >(Some(CellView::Whole(-1i64))),
        reading_of(field) is None && field_text(field) != Some("V"@) ==> cell_of(
            field,
            1,
            Variant::Wls77,
        ) == Ok::<Option<CellView>, ErrorKind>(Some(CellView::Whole(-2i64))),
{
    reveal_strlit("On");
    reveal_strlit("Off");
    reveal_strlit("V");
    assert("On"@ != "Off"@) by {
        assert("On"@.len() == 2 && "Off"@.len() == 3);
    }
    if field_text(field) == Some("V"@) {
        let b = crate::raw::numeral::ascii_bytes("V"@);
        assert(b.len() == 1 && b[0] == 86);
        assert(crate::raw::numeral::unsigned(b) == b);
        lemma_first_index_is(b, |x: u8| !crate::raw::numeral::is_digit(x), 0);
        assert(b.skip(0) == b);
        assert(!crate::raw::numeral::is_number(b));
        assert(!crate::raw::numeral::is_float_text("V"@));
    }
}

/// The cells of every decoded table fill whole rows, and a row has as many
/// cells as the banner names columns.
pub proof fn lemma_table_shape(content: Seq<u8>, variant: Variant)
    requires
        table_decoded(content, variant) is Ok,
    ensures
        table_decoded(content, variant)->Ok_0.data_columns.len() >= 1,
        table_decoded(content, variant)->Ok_0.data.len() % table_decoded(
            content,
            variant,
        )->Ok_0.data_columns.len() == 0,
{
}

/// Whether a result is the one that the model gives.
pub open spec fn decode_matches(r: Result<Table, RawParseError>, m: Result<TableView, ErrorKind>) -> bool {
    match r {
        Ok(t) => m == Ok::<TableView, ErrorKind>(t@),
        Err(e) => m == Err::<TableView, ErrorKind>(e.spec_kind()),
    }
}

/// Whether a line starts as a banner does.
pub fn banner(line: &[u8]) -> (r: bool)
    ensures
        r == is_banner(line@),
{
    starts_with(line, BANNER_TIMESTAMP.as_bytes()) || starts_with(line, BANNER_DATE.as_bytes())
}

/// The length of the notes of `s`.
pub fn find_notes_len(s: &[u8]) -> (r: usize)
    ensures
        r == notes_len(s@),
        r <= s.len(),
{
    let n = s.len();
    let feed: [u8; 1] = [10];
    assert(feed@ =~= seq![10u8]);
    let mut pos: usize = 0;
    assert(s@.skip(0) == s@);
    while pos < n
        invariant
            pos <= n,
            n == s@.len(),
            feed@ == seq![10u8],
            notes_len(s@) == pos + notes_len(s@.skip(pos as int)),
        decreases n - pos,
    {
        let ghost rest = s@.skip(pos as int);
        let end = find_delim(s, pos, feed.as_slice());
        let line = slice_subrange(s, pos, end);
        assert(line@ == first_line(rest));
        if banner(line) {
            return pos;
        }
        if end >= n {
            return n;
        }
        assert(rest.skip(end - pos + 1) == s@.skip(end + 1));
        pos = end + 1;
    }
    pos
}

/// The names of the columns that a banner line gives.
pub fn read_column_names(banner: &[u8]) -> (r: Vec<String>)
    ensures
        texts(r@) == column_names(banner@),
{
    let tab: [u8; 1] = [9];
    assert(tab@ =~= seq![9u8]);
    let mut line: Vec<u8> = Vec::new();
    let mut c: usize = 0;
    while c < banner.len()
        invariant
            c <= banner.len(),
            line@ == banner@.take(c as int),
        decreases banner.len() - c,
    {
        line.push(banner[c]);
        assert(banner@.take(c + 1) == banner@.take(c as int).push(banner@[c as int]));
        c += 1;
    }
    assert(banner@.take(banner.len() as int) == banner@);
    line.push(10);
    let pieces = split_on(line.as_slice(), tab.as_slice());
    let ghost named = views(pieces@).map_values(|p: Seq<u8>| trim(latin1(p)));
    let ghost keep = |t: Seq<char>| t.len() > 0;
    let mut out: Vec<String> = Vec::new();
    let mut i: usize = 0;
    proof {
        assert(named.take(0) =~= Seq::<Seq<char>>::empty());
        assert(texts(out@) =~= Seq::<Seq<char>>::empty());
        Seq::<Seq<char>>::empty().lemma_filter_len(keep);
    }
    while i < pieces.len()
        invariant
            i <= pieces.len(),
            named == views(pieces@).map_values(|p: Seq<u8>| trim(latin1(p))),
            keep == |t: Seq<char>| t.len() > 0,
            texts(out@) == named.take(i as int).filter(keep),
        decreases pieces.len() - i,
    {
        let whole = latin1_string(pieces[i]);
        let name = trim_str(whole.as_str());
        proof {
            assert(named[i as int] == name@);
            assert(named.take(i + 1) =~= named.take(i as int).push(name@));
            named.take(i as int).lemma_filter_push(name@, keep);
        }
        if !name.is_empty() {
            let owned = name.to_owned();
            proof {
                assert(texts(out@.push(owned)) =~= texts(out@).push(name@));
            }
            out.push(owned);
        }
        i += 1;
    }
    proof {
        assert(named.take(pieces.len() as int) == named);
    }
    out
}

/// Decodes one file from its bytes into a table.
///
/// Of every table that comes back, the cells fill whole rows, and each row
/// has as many cells as the banner names columns.
pub fn decode_table(content: &[u8], variant: Variant) -> (r: Result<Table, RawParseError>)
    ensures
        decode_matches(r, table_decoded(content@, variant)),
        r matches Ok(t) ==> t.data_columns@.len() >= 1 && t.data@.len() % t.data_columns@.len()
            == 0,
{
    let n = content.len();
    let feed: [u8; 1] = [10];
    assert(feed@ =~= seq![10u8]);
    let cut = find_notes_len(content);
    let notes = slice_subrange(content, 0, cut);
    let tail = slice_subrange(content, cut, n);
    proof {
        assert(tail@.skip(0) == tail@);
    }
    let end = find_delim(tail, 0, feed.as_slice());
    let line = slice_subrange(tail, 0, end);
    let rows = if end < tail.len() {
        slice_subrange(tail, end + 1, tail.len())
    } else {
        slice_subrange(tail, end, end)
    };
    assert(rows@ =~= after_first_line(tail@));
    let info = parse_info(notes, variant)?;
    let sheet = parse_rows(rows, variant)?;
    let names = read_column_names(line);
    assert(texts(names@).len() == names@.len());
    if sheet.ncols != names.len() {
        return Err(RawParseError::of_kind(ErrorKind::ColumnMismatch));
    }
    Ok(Table { info, data_columns: names, data: sheet.cells, skipped: sheet.skipped })
}

} // verus!
