//! The newer wind profiler format: timestamps with the year first, a
//! position or a letter in the second column, and eight measurements for
//! each altitude from the fifth column on.
use vstd::prelude::*;
use rayon::iter::{IntoParallelRefIterator, ParallelIterator};
use crate::raw::error::{ErrorKind, RawParseError};
use crate::raw::numeral::{numerals, Numeral};
use crate::raw::profiler::{
    cells, decode_matches, decode_table, info_matches, info_of, table_decoded, table_matches,
    table_of, Cell, CellView, Table, TableView, Variant,
};
use crate::raw::scan::{lemma_filter_map_len, views};

verus! {

/// A file decoded into a table, before its columns are taken apart.
pub type Wls77Old = Table;

/// What the notes before the banner say.
pub type Info = crate::raw::profiler::Info;

/// The columns that a table needs to be taken apart.
pub const MIN_COLUMNS: usize = 11;

/// The distance between two columns of one measurement.
pub const STEP: usize = 8;

/// Values in rows of equal length, row after row.
#[derive(Debug, Clone, PartialEq, Eq)]
pub struct Grid {
    pub rows: usize,
    pub cols: usize,
    pub cells: Vec<Cell>,
}

/// A [`Grid`] as plain values.
pub ghost struct GridView {
    pub rows: nat,
    pub cols: nat,
    pub cells: Seq<CellView>,
}

impl View for Grid {
    type V = GridView;

    open spec fn view(&self) -> GridView {
        GridView { rows: self.rows as nat, cols: self.cols as nat, cells: cells(self.cells@) }
    }
}

impl Grid {
    /// A grid holds `rows` times `cols` cells.
    pub open spec fn well_formed(&self) -> bool {
        self.cells@.len() == self.rows * self.cols
    }
}

/// A decoded file: one series per name, a value for each row, or for each
/// row and altitude.
#[derive(Debug, Clone, PartialEq, Eq)]
pub struct Wls77 {
    pub time: Vec<Cell>,
    /// Metres.
    pub altitude: Vec<Numeral>,
    pub position: Vec<Cell>,
    pub temperature: Vec<Cell>,
    /// Read from the third column, as the temperature is.
    pub wiper_count: Vec<Cell>,
    pub cnr: Grid,
    pub radial_velocity: Grid,
    pub radial_velocity_deviation: Grid,
    pub wind_speed: Grid,
    pub wind_direction: Grid,
    pub zonal_wind: Grid,
    pub meridional_wind: Grid,
    pub vertical_wind: Grid,
    pub cnr_threshold: Numeral,
    pub system_id: String,
    /// How many values of the rows could not be read and were left out.
    /// Where this is not zero, cells stand in other columns than their
    /// values did.
    pub skipped: usize,
}

/// A [`Wls77`] as plain values.
pub ghost struct Wls77View {
    pub time: Seq<CellView>,
    pub altitude: Seq<Seq<char>>,
    pub position: Seq<CellView>,
    pub temperature: Seq<CellView>,
    pub wiper_count: Seq<CellView>,
    pub cnr: GridView,
    pub radial_velocity: GridView,
    pub radial_velocity_deviation: GridView,
    pub wind_speed: GridView,
    pub wind_direction: GridView,
    pub zonal_wind: GridView,
    pub meridional_wind: GridView,
    pub vertical_wind: GridView,
    pub cnr_threshold: Seq<char>,
    pub system_id: Seq<char>,
    pub skipped: nat,
}

impl View for Wls77 {
    type V = Wls77View;

    open spec fn view(&self) -> Wls77View {
        Wls77View {
            time: cells(self.time@),
            altitude: numerals(self.altitude@),
            position: cells(self.position@),
            temperature: cells(self.temperature@),
            wiper_count: cells(self.wiper_count@),
            cnr: self.cnr@,
            radial_velocity: self.radial_velocity@,
            radial_velocity_deviation: self.radial_velocity_deviation@,
            wind_speed: self.wind_speed@,
            wind_direction: self.wind_direction@,
            zonal_wind: self.zonal_wind@,
            meridional_wind: self.meridional_wind@,
            vertical_wind: self.vertical_wind@,
            cnr_threshold: self.cnr_threshold@,
            system_id: self.system_id@,
            skipped: self.skipped as nat,
        }
    }
}

impl Wls77 {
    /// Every series has one value for each row, and every grid one row for
    /// each row of the table.
    pub open spec fn well_formed(&self) -> bool {
        let rows = self.time@.len();
        &&& self.position@.len() == rows
        &&& self.temperature@.len() == rows
        &&& self.wiper_count@.len() == rows
        &&& self.cnr.well_formed() && self.cnr.rows == rows
        &&& self.radial_velocity.well_formed() && self.radial_velocity.rows == rows
        &&& self.radial_velocity_deviation.well_formed() && self.radial_velocity_deviation.rows
            == rows
        &&& self.wind_speed.well_formed() && self.wind_speed.rows == rows
        &&& self.wind_direction.well_formed() && self.wind_direction.rows == rows
        &&& self.zonal_wind.well_formed() && self.zonal_wind.rows == rows
        &&& self.meridional_wind.well_formed() && self.meridional_wind.rows == rows
        &&& self.vertical_wind.well_formed() && self.vertical_wind.rows == rows
    }
}

/// Column `c` of a table of `rows` rows and `ncols` columns.
pub open spec fn column(data: Seq<CellView>, ncols: int, rows: int, c: int) -> Seq<CellView> {
    Seq::new(rows as nat, |r: int| data[r * ncols + c])
}

/// How many of the columns `start`, `start + 8`, `start + 16` and so on a
/// table of `ncols` columns has.
pub open spec fn strided_count(ncols: int, start: int) -> int {
    if ncols <= start {
        0
    } else {
        (ncols - start + 7) / 8
    }
}

/// The columns `start`, `start + 8`, `start + 16` and so on of a table, side
/// by side.
pub open spec fn strided(data: Seq<CellView>, ncols: int, rows: int, start: int) -> GridView {
    let k = strided_count(ncols, start);
    GridView {
        rows: rows as nat,
        cols: k as nat,
        cells: Seq::new((rows * k) as nat, |i: int| data[(i / k) * ncols + start + (i % k) * 8]),
    }
}

/// A table taken apart, for a table of eleven columns or more.
pub open spec fn columns_of(t: TableView) -> Wls77View {
    let ncols = t.data_columns.len() as int;
    let rows = t.data.len() as int / ncols;
    Wls77View {
        time: column(t.data, ncols, rows, 0),
        altitude: t.info.altitude,
        position: column(t.data, ncols, rows, 1),
        temperature: column(t.data, ncols, rows, 2),
        wiper_count: column(t.data, ncols, rows, 2),
        cnr: strided(t.data, ncols, rows, 4),
        radial_velocity: strided(t.data, ncols, rows, 5),
        radial_velocity_deviation: strided(t.data, ncols, rows, 6),
        wind_speed: strided(t.data, ncols, rows, 7),
        wind_direction: strided(t.data, ncols, rows, 8),
        zonal_wind: strided(t.data, ncols, rows, 9),
        meridional_wind: strided(t.data, ncols, rows, 10),
        vertical_wind: strided(t.data, ncols, rows, 11),
        cnr_threshold: t.info.cnr_threshold,
        system_id: t.info.system_id,
        skipped: t.skipped,
    }
}

/// What a file holds: its table, taken apart. A table of less than eleven
/// columns cannot be taken apart and is a failure.
pub open spec fn decoded(content: Seq<u8>) -> Result<Wls77View, ErrorKind> {
    match table_decoded(content, Variant::Wls77) {
        Err(e) => Err(e),
        Ok(t) => if t.data_columns.len() < MIN_COLUMNS {
            Err(ErrorKind::Columns)
        } else {
            Ok(columns_of(t))
        },
    }
}

/// Whether a result is the one that the model gives.
pub open spec fn file_matches(r: Result<Wls77, RawParseError>, m: Result<Wls77View, ErrorKind>) -> bool {
    match r {
        Ok(w) => m == Ok::<Wls77View, ErrorKind>(w@),
        Err(e) => m == Err::<Wls77View, ErrorKind>(e.spec_kind()),
    }
}

proof fn lemma_cell_index(r: int, rows: int, ncols: int, c: int)
    requires
        0 <= r < rows,
        0 <= c < ncols,
    ensures
        0 <= r * ncols + c < rows * ncols,
{
    assert(0 <= r * ncols + c < rows * ncols) by (nonlinear_arith)
        requires
            0 <= r < rows,
            0 <= c < ncols,
    ;
}

proof fn lemma_strided_index(i: int, rows: int, k: int)
    requires
        0 <= i < rows * k,
        0 < k,
    ensures
        0 <= i / k < rows,
        0 <= i % k < k,
{
    vstd::arithmetic::div_mod::lemma_fundamental_div_mod(i, k);
    vstd::arithmetic::div_mod::lemma_mod_bound(i, k);
    let q = i / k;
    let m = i % k;
    assert(0 <= q < rows) by (nonlinear_arith)
        requires
            i == k * q + m,
            0 <= m < k,
            0 <= i < rows * k,
    ;
}

/// Column `c` of a table.
pub fn take_column(data: &Vec<Cell>, ncols: usize, rows: usize, c: usize) -> (r: Vec<Cell>)
    requires
        c < ncols,
        rows * ncols <= data@.len(),
    ensures
        cells(r@) == column(cells(data@), ncols as int, rows as int, c as int),
        r@.len() == rows,
{
    let len = data.len();
    let mut out: Vec<Cell> = Vec::new();
    let mut row: usize = 0;
    while row < rows
        invariant
            row <= rows,
            c < ncols,
            len == data@.len(),
            rows * ncols <= data@.len(),
            out@.len() == row,
            forall|q: int| 0 <= q < row ==> (#[trigger] out@[q])@ == data@[q * ncols + c]@,
        decreases rows - row,
    {
        proof {
            lemma_cell_index(row as int, rows as int, ncols as int, c as int);
            lemma_cell_index(row as int, rows as int, ncols as int, 0);
        }
        let at = row * ncols + c;
        out.push(data[at].copy());
        row += 1;
    }
    proof {
        let goal = column(cells(data@), ncols as int, rows as int, c as int);
        assert forall|q: int| 0 <= q < rows implies cells(out@)[q] == goal[q] by {
            lemma_cell_index(q, rows as int, ncols as int, c as int);
        }
        assert(cells(out@) =~= goal);
    }
    out
}

/// The columns `start`, `start + 8`, `start + 16` and so on of a table.
pub fn take_strided(data: &Vec<Cell>, ncols: usize, rows: usize, start: usize) -> (r: Grid)
    requires
        start <= ncols,
        rows * ncols <= data@.len(),
    ensures
        r@ == strided(cells(data@), ncols as int, rows as int, start as int),
        r.well_formed(),
        r.rows == rows,
{
    let k: usize = if ncols <= start {
        0
    } else {
        (ncols - start - 1) / 8 + 1
    };
    let len = data.len();
    proof {
        assert(0 <= rows * k <= rows * ncols) by (nonlinear_arith)
            requires
                0 <= k <= ncols,
                0 <= rows,
        ;
    }
    let total = rows * k;
    let mut out: Vec<Cell> = Vec::new();
    let mut i: usize = 0;
    while i < total
        invariant
            i <= total,
            total == rows * k,
            k == strided_count(ncols as int, start as int),
            start <= ncols,
            len == data@.len(),
            rows * ncols <= data@.len(),
            out@.len() == i,
            forall|q: int|
                0 <= q < i ==> (#[trigger] out@[q])@ == data@[(q / (k as int)) * ncols + start + (q
                    % (k as int)) * 8]@,
        decreases total - i,
    {
        proof {
            if k == 0 {
                assert(rows * k == 0) by (nonlinear_arith)
                    requires
                        k == 0,
                ;
            }
        }
        let row = i / k;
        let j = i % k;
        proof {
            lemma_strided_index(i as int, rows as int, k as int);
            lemma_cell_index(row as int, rows as int, ncols as int, start + j * 8);
            lemma_cell_index(row as int, rows as int, ncols as int, 0);
        }
        let at = row * ncols + start + j * 8;
        out.push(data[at].copy());
        i += 1;
    }
    proof {
        let goal = strided(cells(data@), ncols as int, rows as int, start as int);
        assert forall|q: int| 0 <= q < total implies cells(out@)[q] == goal.cells[q] by {
            if k > 0 {
                lemma_strided_index(q, rows as int, k as int);
                lemma_cell_index(
                    q / (k as int),
                    rows as int,
                    ncols as int,
                    start + (q % (k as int)) * 8,
                );
            }
        }
        assert(cells(out@) =~= goal.cells);
    }
    Grid { rows, cols: k, cells: out }
}

/// Takes a table of eleven columns or more apart.
pub fn take_apart(table: Table) -> (r: Wls77)
    requires
        table.data_columns@.len() >= MIN_COLUMNS,
        table.data@.len() % table.data_columns@.len() == 0,
    ensures
        r@ == columns_of(table@),
        r.well_formed(),
{
    let ncols = table.data_columns.len();
    let rows = table.data.len() / ncols;
    proof {
        vstd::arithmetic::div_mod::lemma_fundamental_div_mod(
            table.data@.len() as int,
            ncols as int,
        );
        assert(rows * ncols == ncols * rows) by (nonlinear_arith);
        assert(crate::raw::profiler::texts(table.data_columns@).len() == ncols);
        assert(cells(table.data@).len() == table.data@.len());
    }
    let data = &table.data;
    let time = take_column(data, ncols, rows, 0);
    let position = take_column(data, ncols, rows, 1);
    let temperature = take_column(data, ncols, rows, 2);
    let wiper_count = take_column(data, ncols, rows, 2);
    let cnr = take_strided(data, ncols, rows, 4);
    let radial_velocity = take_strided(data, ncols, rows, 5);
    let radial_velocity_deviation = take_strided(data, ncols, rows, 6);
    let wind_speed = take_strided(data, ncols, rows, 7);
    let wind_direction = take_strided(data, ncols, rows, 8);
    let zonal_wind = take_strided(data, ncols, rows, 9);
    let meridional_wind = take_strided(data, ncols, rows, 10);
    let vertical_wind = take_strided(data, ncols, rows, 11);
    Wls77 {
        time,
        altitude: table.info.altitude,
        position,
        temperature,
        wiper_count,
        cnr,
        radial_velocity,
        radial_velocity_deviation,
        wind_speed,
        wind_direction,
        zonal_wind,
        meridional_wind,
        vertical_wind,
        cnr_threshold: table.info.cnr_threshold,
        system_id: table.info.system_id,
        skipped: table.skipped,
    }
}

/// Decodes one file from its bytes into a table.
pub fn decode_old(content: &[u8]) -> (r: Result<Wls77Old, RawParseError>)
    ensures
        decode_matches(r, table_decoded(content@, Variant::Wls77)),
        r matches Ok(t) ==> t.data_columns@.len() >= 1 && t.data@.len() % t.data_columns@.len()
            == 0,
{
    decode_table(content, Variant::Wls77)
}

/// Decodes one file from its bytes.
pub fn from_bytes_src(content: &[u8]) -> (r: Result<Wls77, RawParseError>)
    ensures
        file_matches(r, decoded(content@)),
        r matches Ok(w) ==> w.well_formed(),
{
    let table = decode_table(content, Variant::Wls77)?;
    assert(crate::raw::profiler::texts(table.data_columns@).len() == table.data_columns@.len());
    if table.data_columns.len() < MIN_COLUMNS {
        return Err(RawParseError::of_kind(ErrorKind::Columns));
    }
    Ok(take_apart(table))
}

/// Reads the notes before the banner.
pub fn parse_info(info_str: &[u8]) -> (r: Result<Info, RawParseError>)
    ensures
        info_matches(r, info_of(info_str@, Variant::Wls77)),
{
    crate::raw::profiler::parse_info(info_str, Variant::Wls77)
}

/// Reads the rows after the banner into one flat list of cells, and counts
/// the columns.
pub fn parse_data(data: &[u8]) -> (r: Result<(Vec<Cell>, usize), RawParseError>)
    ensures
        table_matches(r, table_of(data@, Variant::Wls77)),
        r matches Ok(t) ==> t.1 >= 1 && t.0@.len() % (t.1 as nat) == 0,
{
    crate::raw::profiler::parse_data(data, Variant::Wls77)
}

/// What a file holds, where it can be decoded.
pub open spec fn decoded_ok(content: Seq<u8>) -> Option<Wls77View> {
    match decoded(content) {
        Ok(v) => Some(v),
        Err(_) => None,
    }
}

/// The records of the files that can be decoded, in the order of the files.
pub open spec fn successes(contents: Seq<Seq<u8>>) -> Seq<Wls77View> {
    contents.filter_map(|c: Seq<u8>| decoded_ok(c))
}

/// The views of a list of records.
pub open spec fn record_views(v: Seq<Wls77>) -> Seq<Wls77View> {
    v.map_values(|w: Wls77| w@)
}

/// Decodes one file and drops the failure, if there is one.
pub fn decode_or_drop(content: &[u8]) -> (r: Option<Wls77>)
    ensures
        match r {
            Some(w) => decoded_ok(content@) == Some(w@),
            None => decoded_ok(content@) is None,
        },
{
    match from_bytes_src(content) {
        Ok(w) => Some(w),
        Err(_) => None,
    }
}

/// `rayon`'s `par_iter`, `filter_map` and `collect`: every file is handed to
/// `decode_or_drop` once, on some thread, and the records that come back are
/// gathered. The contract claims the records, not their order.
#[verifier::external_body]
fn gather(contents: &Vec<&[u8]>) -> (r: Vec<Wls77>)
    ensures
        record_views(r@).to_multiset() == successes(views(contents@)).to_multiset(),
{
    contents.par_iter().filter_map(|c| decode_or_drop(c)).collect()
}

/// Decodes many files side by side. A file that cannot be decoded is left
/// out, and nothing is said of it: the result holds the records of the
/// others, in no promised order. How many files failed is the number of
/// files less the number of records.
pub fn from_bytes_srcs(contents: Vec<&[u8]>) -> (r: Vec<Wls77>)
    ensures
        record_views(r@).to_multiset() == successes(views(contents@)).to_multiset(),
        r@.len() <= contents@.len(),
{
    let out = gather(&contents);
    proof {
        record_views(out@).to_multiset_ensures();
        successes(views(contents@)).to_multiset_ensures();
        lemma_filter_map_len(views(contents@), |c: Seq<u8>| decoded_ok(c));
    }
    out
}

} // verus!
