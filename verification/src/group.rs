//! Records of an archive of raw files, and the kinds of file in it.
use vstd::prelude::*;
use vstd::string::{StringExecFns, StringSliceAdditionalSpecFns};
use crate::raw::pattern::{capture_first, first_group, pattern_compiles};
use crate::raw::scan::{first_index, has_prefix, lemma_first_index_is, starts_with};
use crate::raw::text::text_eq;

verus! {

/// One row of the archive's list of raw files.
#[derive(Debug, Clone)]
pub struct RawRecord {
    pub uuid: String,
    pub checksum: String,
    pub filename: String,
    pub measurement_date: String,
    pub size: String,
    pub status: String,
    pub created_at: String,
    pub updated_at: String,
    pub site_id: String,
    pub instrument_id: String,
    pub instrument_pid: String,
    pub tags: String,
    pub s3key: String,
    pub instrument_info_uuid: String,
}

/// The files that a Halo lidar writes.
#[derive(Hash, Eq, PartialEq, Structural, PartialOrd, Ord, Clone, Copy, Debug)]
pub enum HaloFileType {
    Stare,
    Vad,
    Rhi,
    WindProfile,
    ProcessedWindProfile,
    Background,
    SystemParameters,
    TimeSync,
    User1,
    User2,
    User3,
    User4,
    User5,
}

/// The files that a WindCube 200 writes.
#[derive(Hash, Eq, PartialEq, Structural, PartialOrd, Ord, Clone, Copy, Debug)]
pub enum WindCube200FileType {
    Dbs,
    Fixed,
    Ppi,
    Vad,
    Rhi,
    Volume,
    SpectrumDbs,
    SpectrumPpi,
    SpectrumFixed,
    SpectrumVad,
    SpectrumRhi,
    SpectrumVolume,
    Environmental,
}

/// The files that a WindCube 70 writes.
#[derive(Hash, Eq, PartialEq, Structural, PartialOrd, Ord, Clone, Copy, Debug)]
pub enum WindCube70FileType {
    WindLz1R10s,
    WindLz1Lb87R10s,
}

/// The kind of a raw file, by instrument.
#[derive(Hash, Eq, PartialEq, Structural, PartialOrd, Ord, Clone, Copy, Debug)]
pub enum FileType {
    Halo(HaloFileType),
    WindCube200(WindCube200FileType),
    WindCube70(WindCube70FileType),
}

/// The instrument at a site that a record belongs to.
#[derive(Hash, Eq, PartialEq, PartialOrd, Ord, Clone, Debug)]
pub struct InstrumentGroup {
    pub site: String,
    pub pid: String,
    pub uuid: String,
}

/// Why a record has no kind.
#[derive(Debug, Clone, Copy, PartialEq, Eq, Structural)]
pub enum GroupError {
    /// A pattern for file names does not compile.
    Pattern,
    /// The file name follows none of the instrument's conventions.
    Filename,
    /// The instrument is not known.
    Instrument,
}

/// The name of a file of data of a WindCube 200; the group is the scan.
pub const WLS200_PATTERN: &'static str =
    r"^WLS[0-9a-zA-Z]*-\d+_\d{4}-\d{2}-\d{2}_\d{2}-\d{2}-\d{2}_([a-zA-Z0-9]+)_.*";

/// The name of a file of spectra of a WindCube 200; the group is the scan.
pub const WLS200_PATTERN_SPECTRUM: &'static str =
    r"^WLS[0-9a-zA-Z]*-\d+_Spectrum_\d{4}-\d{2}-\d{2}_\d{2}-\d{2}-\d{2}_([a-zA-Z0-9]+)_.*";

/// The name of a file of environmental data of a WindCube 200.
pub const WLS200_PATTERN_ENVIRONMENTAL: &'static str =
    r"^WLS[0-9a-zA-Z]*-\d+_environmental_data_\d{4}-\d{2}-\d{2}_\d{2}-\d{2}-\d{2}.*";

/// The name of a file of a WindCube 70; the group is the kind of file.
pub const WLS70_PATTERN: &'static str = r"^wlscerea_0a_(.*)-HR_v01_\d{8}_\d{6}.rtd";

/// The kind of file that a Halo lidar names so: by the start of the name.
pub open spec fn halo_kind(name: Seq<u8>) -> Option<HaloFileType> {
    if has_prefix(name, "Background".spec_bytes()) {
        Some(HaloFileType::Background)
    } else if has_prefix(name, "Stare".spec_bytes()) {
        Some(HaloFileType::Stare)
    } else if has_prefix(name, "VAD".spec_bytes()) {
        Some(HaloFileType::Vad)
    } else if has_prefix(name, "RHI".spec_bytes()) {
        Some(HaloFileType::Rhi)
    } else if has_prefix(name, "Wind_Profile".spec_bytes()) {
        Some(HaloFileType::WindProfile)
    } else if has_prefix(name, "Processed_Wind_Profile".spec_bytes()) {
        Some(HaloFileType::ProcessedWindProfile)
    } else if has_prefix(name, "system_parameters".spec_bytes()) {
        Some(HaloFileType::SystemParameters)
    } else if has_prefix(name, "Time_Sync".spec_bytes()) {
        Some(HaloFileType::TimeSync)
    } else if has_prefix(name, "User1".spec_bytes()) {
        Some(HaloFileType::User1)
    } else if has_prefix(name, "User2".spec_bytes()) {
        Some(HaloFileType::User2)
    } else if has_prefix(name, "User3".spec_bytes()) {
        Some(HaloFileType::User3)
    } else if has_prefix(name, "User4".spec_bytes()) {
        Some(HaloFileType::User4)
    } else if has_prefix(name, "User5".spec_bytes()) {
        Some(HaloFileType::User5)
    } else {
        None
    }
}

/// The kind of scan that a WindCube 200 names so in a file of data.
pub open spec fn wls200_kind(word: Seq<char>) -> Option<WindCube200FileType> {
    if word == "dbs"@ {
        Some(WindCube200FileType::Dbs)
    } else if word == "fixed"@ {
        Some(WindCube200FileType::Fixed)
    } else if word == "ppi"@ {
        Some(WindCube200FileType::Ppi)
    } else if word == "vad"@ {
        Some(WindCube200FileType::Vad)
    } else if word == "rhi"@ {
        Some(WindCube200FileType::Rhi)
    } else if word == "volume"@ {
        Some(WindCube200FileType::Volume)
    } else {
        None
    }
}

/// The kind of scan that a WindCube 200 names so in a file of spectra.
pub open spec fn wls200_spectrum_kind(word: Seq<char>) -> Option<WindCube200FileType> {
    if word == "DBS"@ {
        Some(WindCube200FileType::SpectrumDbs)
    } else if word == "PPI"@ {
        Some(WindCube200FileType::SpectrumPpi)
    } else if word == "FIXED"@ {
        Some(WindCube200FileType::SpectrumFixed)
    } else if word == "VAD"@ {
        Some(WindCube200FileType::SpectrumVad)
    } else if word == "RHI"@ {
        Some(WindCube200FileType::SpectrumRhi)
    } else if word == "VOLUME"@ {
        Some(WindCube200FileType::SpectrumVolume)
    } else {
        None
    }
}

/// The kind of file that a WindCube 70 names so.
pub open spec fn wls70_kind(word: Seq<char>) -> Option<WindCube70FileType> {
    if word == "windLz1R10s"@ {
        Some(WindCube70FileType::WindLz1R10s)
    } else if word == "windLz1Lb87R10s"@ {
        Some(WindCube70FileType::WindLz1Lb87R10s)
    } else {
        None
    }
}

/// What the first group of a match names, through `kind`.
pub open spec fn named<K>(found: Option<Option<Seq<char>>>, kind: spec_fn(Seq<char>) -> Option<K>) -> Option<K> {
    match found {
        Some(Some(word)) => kind(word),
        _ => None,
    }
}

/// The kind of a file of a WindCube 200: what the name of a file of data
/// says, else what the name of a file of spectra says, else environmental
/// data where the name is that of such a file.
pub open spec fn wls200s_type(name: Seq<char>) -> Result<FileType, GroupError> {
    let data = named(first_group(WLS200_PATTERN@, name), |w: Seq<char>| wls200_kind(w));
    let spectrum = named(
        first_group(WLS200_PATTERN_SPECTRUM@, name),
        |w: Seq<char>| wls200_spectrum_kind(w),
    );
    if !pattern_compiles(WLS200_PATTERN@) {
        Err(GroupError::Pattern)
    } else if data is Some {
        Ok(FileType::WindCube200(data->0))
    } else if !pattern_compiles(WLS200_PATTERN_SPECTRUM@) {
        Err(GroupError::Pattern)
    } else if spectrum is Some {
        Ok(FileType::WindCube200(spectrum->0))
    } else if !pattern_compiles(WLS200_PATTERN_ENVIRONMENTAL@) {
        Err(GroupError::Pattern)
    } else if first_group(WLS200_PATTERN_ENVIRONMENTAL@, name) is Some {
        Ok(FileType::WindCube200(WindCube200FileType::Environmental))
    } else {
        Err(GroupError::Filename)
    }
}

/// The kind of a file of a WindCube 70.
pub open spec fn wls70_type(name: Seq<char>) -> Result<FileType, GroupError> {
    let kind = named(first_group(WLS70_PATTERN@, name), |w: Seq<char>| wls70_kind(w));
    if !pattern_compiles(WLS70_PATTERN@) {
        Err(GroupError::Pattern)
    } else if kind is Some {
        Ok(FileType::WindCube70(kind->0))
    } else {
        Err(GroupError::Filename)
    }
}

/// The kind of a file of a Halo lidar.
pub open spec fn halo_type(name: Seq<u8>) -> Result<FileType, GroupError> {
    match halo_kind(name) {
        Some(k) => Ok(FileType::Halo(k)),
        None => Err(GroupError::Filename),
    }
}

/// The kind of a file of the instrument named `instrument`.
pub open spec fn record_type(instrument: Seq<char>, name: Seq<char>) -> Result<
    FileType,
    GroupError,
> {
    if instrument == "halo-doppler-lidar"@ {
        halo_type(vstd::utf8::encode_utf8(name))
    } else if instrument == "wls200s"@ {
        wls200s_type(name)
    } else if instrument == "wls70"@ {
        wls70_type(name)
    } else {
        Err(GroupError::Instrument)
    }
}

fn find_halo_kind(name: &[u8]) -> (r: Option<HaloFileType>)
    ensures
        r == halo_kind(name@),
{
    if starts_with(name, "Background".as_bytes()) {
        Some(HaloFileType::Background)
    } else if starts_with(name, "Stare".as_bytes()) {
        Some(HaloFileType::Stare)
    } else if starts_with(name, "VAD".as_bytes()) {
        Some(HaloFileType::Vad)
    } else if starts_with(name, "RHI".as_bytes()) {
        Some(HaloFileType::Rhi)
    } else if starts_with(name, "Wind_Profile".as_bytes()) {
        Some(HaloFileType::WindProfile)
    } else if starts_with(name, "Processed_Wind_Profile".as_bytes()) {
        Some(HaloFileType::ProcessedWindProfile)
    } else if starts_with(name, "system_parameters".as_bytes()) {
        Some(HaloFileType::SystemParameters)
    } else if starts_with(name, "Time_Sync".as_bytes()) {
        Some(HaloFileType::TimeSync)
    } else if starts_with(name, "User1".as_bytes()) {
        Some(HaloFileType::User1)
    } else if starts_with(name, "User2".as_bytes()) {
        Some(HaloFileType::User2)
    } else if starts_with(name, "User3".as_bytes()) {
        Some(HaloFileType::User3)
    } else if starts_with(name, "User4".as_bytes()) {
        Some(HaloFileType::User4)
    } else if starts_with(name, "User5".as_bytes()) {
        Some(HaloFileType::User5)
    } else {
        None
    }
}

fn find_wls200_kind(word: &str) -> (r: Option<WindCube200FileType>)
    ensures
        r == wls200_kind(word@),
{
    if text_eq(word, "dbs") {
        Some(WindCube200FileType::Dbs)
    } else if text_eq(word, "fixed") {
        Some(WindCube200FileType::Fixed)
    } else if text_eq(word, "ppi") {
        Some(WindCube200FileType::Ppi)
    } else if text_eq(word, "vad") {
        Some(WindCube200FileType::Vad)
    } else if text_eq(word, "rhi") {
        Some(WindCube200FileType::Rhi)
    } else if text_eq(word, "volume") {
        Some(WindCube200FileType::Volume)
    } else {
        None
    }
}

fn find_wls200_spectrum_kind(word: &str) -> (r: Option<WindCube200FileType>)
    ensures
        r == wls200_spectrum_kind(word@),
{
    if text_eq(word, "DBS") {
        Some(WindCube200FileType::SpectrumDbs)
    } else if text_eq(word, "PPI") {
        Some(WindCube200FileType::SpectrumPpi)
    } else if text_eq(word, "FIXED") {
        Some(WindCube200FileType::SpectrumFixed)
    } else if text_eq(word, "VAD") {
        Some(WindCube200FileType::SpectrumVad)
    } else if text_eq(word, "RHI") {
        Some(WindCube200FileType::SpectrumRhi)
    } else if text_eq(word, "VOLUME") {
        Some(WindCube200FileType::SpectrumVolume)
    } else {
        None
    }
}

fn find_wls70_kind(word: &str) -> (r: Option<WindCube70FileType>)
    ensures
        r == wls70_kind(word@),
{
    if text_eq(word, "windLz1R10s") {
        Some(WindCube70FileType::WindLz1R10s)
    } else if text_eq(word, "windLz1Lb87R10s") {
        Some(WindCube70FileType::WindLz1Lb87R10s)
    } else {
        None
    }
}

/// The kind of a file of a Halo lidar, by the start of its name.
pub fn filetype_from_halo(filename: &str) -> (r: Result<FileType, GroupError>)
    ensures
        r == halo_type(filename.spec_bytes()),
{
    match find_halo_kind(filename.as_bytes()) {
        Some(k) => Ok(FileType::Halo(k)),
        None => Err(GroupError::Filename),
    }
}

/// The kind of a file of a WindCube 200, by the pattern that its name
/// follows and the scan that the name gives.
pub fn filetype_from_wls200s(filename: &str) -> (r: Result<FileType, GroupError>)
    ensures
        r == wls200s_type(filename@),
{
    match capture_first(WLS200_PATTERN, filename) {
        Err(_) => {
            return Err(GroupError::Pattern);
        },
        Ok(Some(Some(word))) => match find_wls200_kind(word.as_str()) {
            Some(k) => {
                return Ok(FileType::WindCube200(k));
            },
            None => {},
        },
        Ok(_) => {},
    }
    match capture_first(WLS200_PATTERN_SPECTRUM, filename) {
        Err(_) => {
            return Err(GroupError::Pattern);
        },
        Ok(Some(Some(word))) => match find_wls200_spectrum_kind(word.as_str()) {
            Some(k) => {
                return Ok(FileType::WindCube200(k));
            },
            None => {},
        },
        Ok(_) => {},
    }
    match capture_first(WLS200_PATTERN_ENVIRONMENTAL, filename) {
        Err(_) => Err(GroupError::Pattern),
        Ok(Some(_)) => Ok(FileType::WindCube200(WindCube200FileType::Environmental)),
        Ok(None) => Err(GroupError::Filename),
    }
}

/// The kind of a file of a WindCube 70, by the word in its name.
pub fn filetype_from_wls70(filename: &str) -> (r: Result<FileType, GroupError>)
    ensures
        r == wls70_type(filename@),
{
    match capture_first(WLS70_PATTERN, filename) {
        Err(_) => Err(GroupError::Pattern),
        Ok(Some(Some(word))) => match find_wls70_kind(word.as_str()) {
            Some(k) => Ok(FileType::WindCube70(k)),
            None => Err(GroupError::Filename),
        },
        Ok(_) => Err(GroupError::Filename),
    }
}

/// The kind of the file of a record, by its instrument and its name.
pub fn filetype_from_record(record: &RawRecord) -> (r: Result<FileType, GroupError>)
    ensures
        r == record_type(record.instrument_id@, record.filename@),
{
    let instrument = record.instrument_id.as_str();
    let name = record.filename.as_str();
    if text_eq(instrument, "halo-doppler-lidar") {
        filetype_from_halo(name)
    } else if text_eq(instrument, "wls200s") {
        filetype_from_wls200s(name)
    } else if text_eq(instrument, "wls70") {
        filetype_from_wls70(name)
    } else {
        Err(GroupError::Instrument)
    }
}

/// The instrument that a record belongs to.
pub fn group_of(record: &RawRecord) -> (r: InstrumentGroup)
    ensures
        r.site@ == record.site_id@,
        r.pid@ == record.instrument_pid@,
        r.uuid@ == record.instrument_info_uuid@,
{
    InstrumentGroup {
        site: record.site_id.clone(),
        pid: record.instrument_pid.clone(),
        uuid: record.instrument_info_uuid.clone(),
    }
}

/// The records of one instrument that are files of one kind, in the order in
/// which they came.
#[derive(Debug, Clone)]
pub struct Bucket {
    pub group: InstrumentGroup,
    pub file_type: FileType,
    pub records: Vec<RawRecord>,
}

/// What tells instruments apart: site, identifier and the identifier of the
/// instrument's description.
pub type Key = (Seq<char>, Seq<char>, Seq<char>);

/// The instrument of a record.
pub open spec fn record_key(r: RawRecord) -> Key {
    (r.site_id@, r.instrument_pid@, r.instrument_info_uuid@)
}

/// The instrument of a group.
pub open spec fn group_key(g: InstrumentGroup) -> Key {
    (g.site@, g.pid@, g.uuid@)
}

/// The kind of the file of a record.
pub open spec fn kind_of(r: RawRecord) -> Result<FileType, GroupError> {
    record_type(r.instrument_id@, r.filename@)
}

/// Whether a record is one of the given instrument and kind of file.
pub open spec fn belongs(r: RawRecord, key: Key, file_type: FileType) -> bool {
    record_key(r) == key && kind_of(r) == Ok::<FileType, GroupError>(file_type)
}

/// The records of the given instrument and kind of file, in their order.
pub open spec fn members(records: Seq<RawRecord>, key: Key, file_type: FileType) -> Seq<
    RawRecord,
> {
    records.filter(|r: RawRecord| belongs(r, key, file_type))
}

/// Whether one of `buckets` is for the instrument and the kind of file of `r`.
pub open spec fn has_bucket(r: RawRecord, buckets: Seq<Bucket>) -> bool {
    exists|i: int|
        0 <= i < buckets.len() && belongs(
            r,
            group_key((#[trigger] buckets[i]).group),
            buckets[i].file_type,
        )
}

/// Whether `buckets` sort `records` by instrument and kind of file: each
/// bucket holds all the records of its instrument and kind and is not empty,
/// no two buckets are for the same instrument and kind, and every record has
/// its bucket.
pub open spec fn is_grouping(records: Seq<RawRecord>, buckets: Seq<Bucket>) -> bool {
    &&& forall|i: int|
        0 <= i < buckets.len() ==> (#[trigger] buckets[i]).records@.len() > 0
            && buckets[i].records@ == members(
            records,
            group_key(buckets[i].group),
            buckets[i].file_type,
        )
    &&& forall|i: int, j: int|
        0 <= i < j < buckets.len() ==> !(group_key((#[trigger] buckets[i]).group) == group_key(
            (#[trigger] buckets[j]).group,
        ) && buckets[i].file_type == buckets[j].file_type)
    &&& forall|n: int| 0 <= n < records.len() ==> has_bucket(#[trigger] records[n], buckets)
}

/// The index of the first record whose file has no kind, or the number of
/// records where every file has one.
pub open spec fn first_failure(records: Seq<RawRecord>) -> int {
    first_index(records, |r: RawRecord| kind_of(r) is Err)
}

/// A second copy of a record.
pub fn copy_record(r: &RawRecord) -> (c: RawRecord)
    ensures
        c == *r,
{
    RawRecord {
        uuid: r.uuid.clone(),
        checksum: r.checksum.clone(),
        filename: r.filename.clone(),
        measurement_date: r.measurement_date.clone(),
        size: r.size.clone(),
        status: r.status.clone(),
        created_at: r.created_at.clone(),
        updated_at: r.updated_at.clone(),
        site_id: r.site_id.clone(),
        instrument_id: r.instrument_id.clone(),
        instrument_pid: r.instrument_pid.clone(),
        tags: r.tags.clone(),
        s3key: r.s3key.clone(),
        instrument_info_uuid: r.instrument_info_uuid.clone(),
    }
}

/// The bucket of the given instrument and kind of file, where there is one.
fn find_bucket(buckets: &Vec<Bucket>, record: &RawRecord, file_type: FileType) -> (r: Option<usize>)
    ensures
        match r {
            Some(i) => i < buckets@.len() && group_key(buckets@[i as int].group) == record_key(
                *record,
            ) && buckets@[i as int].file_type == file_type,
            None => forall|j: int|
                0 <= j < buckets@.len() ==> !(group_key((#[trigger] buckets@[j]).group)
                    == record_key(*record) && buckets@[j].file_type == file_type),
        },
{
    let mut i: usize = 0;
    while i < buckets.len()
        invariant
            i <= buckets.len(),
            forall|j: int|
                0 <= j < i ==> !(group_key((#[trigger] buckets@[j]).group) == record_key(*record)
                    && buckets@[j].file_type == file_type),
        decreases buckets.len() - i,
    {
        let b = &buckets[i];
        if b.file_type == file_type && b.group.site == record.site_id && b.group.pid
            == record.instrument_pid && b.group.uuid == record.instrument_info_uuid {
            return Some(i);
        }
        i += 1;
    }
    None
}

/// Sorts records by instrument and kind of file. The records of a bucket
/// stand in the order in which they came; the order of the buckets is not
/// promised. The first record whose file has no kind ends the sorting with
/// its failure.
pub fn group(records: &Vec<RawRecord>) -> (r: Result<Vec<Bucket>, GroupError>)
    ensures
        match r {
            Ok(buckets) => first_failure(records@) == records@.len() && is_grouping(
                records@,
                buckets@,
            ),
            Err(e) => 0 <= first_failure(records@) < records@.len() && kind_of(
                records@[first_failure(records@)],
            ) == Err::<FileType, GroupError>(e),
        },
{
    let ghost fails = |r: RawRecord| kind_of(r) is Err;
    let mut buckets: Vec<Bucket> = Vec::new();
    let mut n: usize = 0;
    proof {
        assert(records@.take(0) =~= Seq::<RawRecord>::empty());
    }
    while n < records.len()
        invariant
            n <= records.len(),
            fails == |r: RawRecord| kind_of(r) is Err,
            forall|m: int| 0 <= m < n ==> !fails(#[trigger] records@[m]),
            is_grouping(records@.take(n as int), buckets@),
        decreases records.len() - n,
    {
        let record = &records[n];
        let ghost done = records@.take(n as int);
        let ghost next = records@.take(n + 1);
        let ghost before = buckets@;
        let ghost key = record_key(*record);
        let file_type = match filetype_from_record(record) {
            Ok(t) => t,
            Err(e) => {
                proof {
                    lemma_first_index_is(records@, fails, n as int);
                }
                return Err(e);
            },
        };
        proof {
            assert(next =~= done.push(*record));
            assert forall|m: int| 0 <= m < n + 1 implies !fails(#[trigger] records@[m]) by {}
        }
        let copy = copy_record(record);
        match find_bucket(&buckets, record, file_type) {
            Some(i) => {
                buckets[i].records.push(copy);
                proof {
                    let after = buckets@;
                    assert forall|j: int| 0 <= j < after.len() implies (#[trigger] after[j]).records@.len()
                        > 0 && after[j].records@ == members(
                        next,
                        group_key(after[j].group),
                        after[j].file_type,
                    ) by {
                        let p = |r: RawRecord|
                            belongs(r, group_key(after[j].group), after[j].file_type);
                        done.lemma_filter_push(*record, p);
                        assert(after[j].group == before[j].group);
                        assert(after[j].file_type == before[j].file_type);
                        assert(before[j].records@ == members(
                            done,
                            group_key(before[j].group),
                            before[j].file_type,
                        ));
                        if j != i {
                            assert(after[j] == before[j]);
                        }
                    }
                    assert forall|m: int| 0 <= m < next.len() implies has_bucket(
                        #[trigger] next[m],
                        after,
                    ) by {
                        if m < n {
                            assert(next[m] == done[m]);
                            assert(has_bucket(done[m], before));
                            let j = choose|j: int|
                                0 <= j < before.len() && belongs(
                                    done[m],
                                    group_key((#[trigger] before[j]).group),
                                    before[j].file_type,
                                );
                            assert(after[j].group == before[j].group);
                            assert(after[j].file_type == before[j].file_type);
                        } else {
                            assert(belongs(
                                next[m],
                                group_key(after[i as int].group),
                                after[i as int].file_type,
                            ));
                        }
                    }
                    assert forall|a: int, b: int| 0 <= a < b < after.len() implies !(group_key(
                        (#[trigger] after[a]).group,
                    ) == group_key((#[trigger] after[b]).group) && after[a].file_type
                        == after[b].file_type) by {
                        assert(after[a].group == before[a].group);
                        assert(after[b].group == before[b].group);
                        assert(after[a].file_type == before[a].file_type);
                        assert(after[b].file_type == before[b].file_type);
                    }
                }
            },
            None => {
                let mut first: Vec<RawRecord> = Vec::new();
                first.push(copy);
                let fresh = Bucket { group: group_of(record), file_type, records: first };
                proof {
                    let p = |r: RawRecord| belongs(r, key, file_type);
                    assert(group_key(fresh.group) == key);
                    assert forall|m: int| 0 <= m < done.len() implies !p(#[trigger] done[m]) by {
                        if p(done[m]) {
                            assert(has_bucket(done[m], before));
                            let j = choose|j: int|
                                0 <= j < before.len() && belongs(
                                    done[m],
                                    group_key((#[trigger] before[j]).group),
                                    before[j].file_type,
                                );
                            assert(group_key(before[j].group) == key);
                        }
                    }
                    assert(done.all(|x: RawRecord| !p(x)));
                    done.lemma_all_neg_filter_empty(p);
                    done.lemma_filter_push(*record, p);
                    assert(done.filter(p) =~= Seq::<RawRecord>::empty());
                    assert(fresh.records@ =~= members(next, key, file_type));
                }
                buckets.push(fresh);
                proof {
                    let after = buckets@;
                    assert forall|j: int| 0 <= j < after.len() implies (#[trigger] after[j]).records@.len()
                        > 0 && after[j].records@ == members(
                        next,
                        group_key(after[j].group),
                        after[j].file_type,
                    ) by {
                        if j < before.len() {
                            let q = |r: RawRecord|
                                belongs(r, group_key(after[j].group), after[j].file_type);
                            assert(after[j] == before[j]);
                            done.lemma_filter_push(*record, q);
                        }
                    }
                    assert forall|m: int| 0 <= m < next.len() implies has_bucket(
                        #[trigger] next[m],
                        after,
                    ) by {
                        if m < n {
                            assert(next[m] == done[m]);
                            assert(has_bucket(done[m], before));
                            let j = choose|j: int|
                                0 <= j < before.len() && belongs(
                                    done[m],
                                    group_key((#[trigger] before[j]).group),
                                    before[j].file_type,
                                );
                            assert(after[j] == before[j]);
                        } else {
                            let last = after.len() - 1;
                            assert(belongs(
                                next[m],
                                group_key(after[last].group),
                                after[last].file_type,
                            ));
                        }
                    }
                    assert forall|a: int, b: int| 0 <= a < b < after.len() implies !(group_key(
                        (#[trigger] after[a]).group,
                    ) == group_key((#[trigger] after[b]).group) && after[a].file_type
                        == after[b].file_type) by {
                        assert(after[a] == before[a]);
                        if b < before.len() {
                            assert(after[b] == before[b]);
                        }
                    }
                }
            },
        }
        n += 1;
    }
    proof {
        assert(records@.take(records.len() as int) == records@);
        lemma_first_index_is(records@, fails, records@.len() as int);
    }
    Ok(buckets)
}

/// The link to a record's file, as an item of a list.
pub open spec fn md_entry(uuid: Seq<char>, filename: Seq<char>) -> Seq<char> {
    "["@ + filename + "](https://cloudnet.fmi.fi/api/download/raw/"@ + uuid + "/"@ + filename
        + ")"@
}

/// The link to a record's file, as an item of a list.
pub fn record_to_md_entry(r: &RawRecord) -> (entry: String)
    ensures
        entry@ == md_entry(r.uuid@, r.filename@),
{
    let mut out = String::from_str("[");
    out.append(r.filename.as_str());
    out.append("](https://cloudnet.fmi.fi/api/download/raw/");
    out.append(r.uuid.as_str());
    out.append("/");
    out.append(r.filename.as_str());
    out.append(")");
    out
}

/// The heading of an instrument: its site and its name, each with its link.
pub open spec fn md_header(site: Seq<char>, pid: Seq<char>, name: Seq<char>) -> Seq<char> {
    "["@ + site + "](https://cloudnet.fmi.fi/site/"@ + site + ") - ["@ + name + "]("@ + pid
        + ")"@
}

/// The heading of an instrument whose name is `name`.
pub fn group_to_md_header(g: &InstrumentGroup, name: &str) -> (header: String)
    ensures
        header@ == md_header(g.site@, g.pid@, name@),
{
    let mut out = String::from_str("[");
    out.append(g.site.as_str());
    out.append("](https://cloudnet.fmi.fi/site/");
    out.append(g.site.as_str());
    out.append(") - [");
    out.append(name);
    out.append("](");
    out.append(g.pid.as_str());
    out.append(")");
    out
}

} // verus!
