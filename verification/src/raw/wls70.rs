//! The older wind profiler format: timestamps with the day first, and a
//! wiper that is on or off in the fourth column.
use vstd::prelude::*;
use rayon::iter::{IntoParallelRefIterator, ParallelIterator};
use crate::raw::error::RawParseError;
use crate::raw::profiler::{
    decode_matches, decode_table, info_matches, info_of, table_decoded, table_matches, table_of,
    Cell, Table, TableView, Variant,
};
use crate::raw::scan::{lemma_filter_map_len, views};

verus! {

/// A decoded file.
pub type Wls70 = Table;

/// What the notes before the banner say.
pub type Info = crate::raw::profiler::Info;

/// Decodes one file from its bytes.
///
/// Of every record that comes back, the cells fill whole rows, and each row
/// has as many cells as the banner names columns.
pub fn from_bytes_src(content: &[u8]) -> (r: Result<Wls70, RawParseError>)
    ensures
        decode_matches(r, table_decoded(content@, Variant::Wls70)),
        r matches Ok(t) ==> t.data_columns@.len() >= 1 && t.data@.len() % t.data_columns@.len()
            == 0,
{
    decode_table(content, Variant::Wls70)
}

/// Reads the notes before the banner.
pub fn parse_info(info_str: &[u8]) -> (r: Result<Info, RawParseError>)
    ensures
        info_matches(r, info_of(info_str@, Variant::Wls70)),
{
    crate::raw::profiler::parse_info(info_str, Variant::Wls70)
}

/// Reads the rows after the banner into one flat list of cells, and counts
/// the columns.
pub fn parse_data(data: &[u8]) -> (r: Result<(Vec<Cell>, usize), RawParseError>)
    ensures
        table_matches(r, table_of(data@, Variant::Wls70)),
        r matches Ok(t) ==> t.1 >= 1 && t.0@.len() % (t.1 as nat) == 0,
{
    crate::raw::profiler::parse_data(data, Variant::Wls70)
}

/// What a file holds, where it can be decoded.
pub open spec fn decoded_ok(content: Seq<u8>) -> Option<TableView> {
    match table_decoded(content, Variant::Wls70) {
        Ok(v) => Some(v),
        Err(_) => None,
    }
}

/// The records of the files that can be decoded, in the order of the files.
pub open spec fn successes(contents: Seq<Seq<u8>>) -> Seq<TableView> {
    contents.filter_map(|c: Seq<u8>| decoded_ok(c))
}

/// The views of a list of records.
pub open spec fn record_views(v: Seq<Wls70>) -> Seq<TableView> {
    v.map_values(|t: Wls70| t@)
}

/// Decodes one file and drops the failure, if there is one.
pub fn decode_or_drop(content: &[u8]) -> (r: Option<Wls70>)
    ensures
        match r {
            Some(t) => decoded_ok(content@) == Some(t@),
            None => decoded_ok(content@) is None,
        },
{
    match from_bytes_src(content) {
        Ok(t) => Some(t),
        Err(_) => None,
    }
}

/// `rayon`'s `par_iter`, `filter_map` and `collect`: every file is handed to
/// `decode_or_drop` once, on some thread, and the records that come back are
/// gathered. The contract claims the records, not their order.
#[verifier::external_body]
fn gather(contents: &Vec<&[u8]>) -> (r: Vec<Wls70>)
    ensures
        record_views(r@).to_multiset() == successes(views(contents@)).to_multiset(),
{
    contents.par_iter().filter_map(|c| decode_or_drop(c)).collect()
}

/// Decodes many files side by side. A file that cannot be decoded is left
/// out, and nothing is said of it: the result holds the records of the
/// others, in no promised order. How many files failed is the number of
/// files less the number of records.
pub fn from_bytes_srcs(contents: Vec<&[u8]>) -> (r: Vec<Wls70>)
    ensures
        record_views(r@).to_multiset() == successes(views(contents@)).to_multiset(),
        r@.len() <= contents@.len(),
{
    let out = gather(&contents);
    proof {
        record_views(out@).to_multiset_ensures();
        successes(views(contents@)).to_multiset_ensures();
        lemma_filter_map_len(views(contents@), |c: Seq<u8>| decoded_ok(c));
    }
    out
}

} // verus!
