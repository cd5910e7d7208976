use doprs::group::{
    copy_record, filetype_from_halo, filetype_from_record, filetype_from_wls200s,
    filetype_from_wls70, group, group_of, group_to_md_header, record_to_md_entry, FileType,
    GroupError, HaloFileType, InstrumentGroup, RawRecord, WindCube200FileType, WindCube70FileType,
};
use doprs::testfile::{get_testfile_path, TestType};

fn record(instrument: &str, filename: &str) -> RawRecord {
    RawRecord {
        uuid: String::from("1234"),
        checksum: String::new(),
        filename: String::from(filename),
        measurement_date: String::new(),
        size: String::new(),
        status: String::new(),
        created_at: String::new(),
        updated_at: String::new(),
        site_id: String::from("hyytiala"),
        instrument_id: String::from(instrument),
        instrument_pid: String::from("https://hdl.handle.net/1"),
        tags: String::new(),
        s3key: String::new(),
        instrument_info_uuid: String::from("abcd"),
    }
}

#[test]
fn halo_files_by_their_start() {
    let cases = [
        ("Background_010123-000005.txt", HaloFileType::Background),
        ("Stare_91_20230101_00.hpl", HaloFileType::Stare),
        ("VAD_91_20230101_000000.hpl", HaloFileType::Vad),
        ("RHI_91_20230101_000000.hpl", HaloFileType::Rhi),
        ("Wind_Profile_91_20230101_000000.hpl", HaloFileType::WindProfile),
        ("Processed_Wind_Profile_91_20230101_000000.hpl", HaloFileType::ProcessedWindProfile),
        ("system_parameters_91_202301.txt", HaloFileType::SystemParameters),
        ("Time_Sync_log.txt", HaloFileType::TimeSync),
        ("User1_91_20230101_000000.hpl", HaloFileType::User1),
        ("User2_91_20230101_000000.hpl", HaloFileType::User2),
        ("User3_91_20230101_000000.hpl", HaloFileType::User3),
        ("User4_91_20230101_000000.hpl", HaloFileType::User4),
        ("User5_91_20230101_000000.hpl", HaloFileType::User5),
    ];
    for (name, kind) in cases {
        assert_eq!(filetype_from_halo(name), Ok(FileType::Halo(kind)), "{}", name);
    }
    assert_eq!(filetype_from_halo("stare_91.hpl"), Err(GroupError::Filename));
    assert_eq!(filetype_from_halo(""), Err(GroupError::Filename));
    assert_eq!(filetype_from_halo("User6"), Err(GroupError::Filename));
}

#[test]
fn windcube_200_files_by_their_pattern() {
    let w = |k| Ok(FileType::WindCube200(k));
    assert_eq!(
        filetype_from_wls200s("WLS200s-197_2023-01-01_00-00-00_dbs_123_50m.nc"),
        w(WindCube200FileType::Dbs)
    );
    assert_eq!(
        filetype_from_wls200s("WLS200s-197_2023-01-01_00-00-00_ppi_123_50m.nc"),
        w(WindCube200FileType::Ppi)
    );
    assert_eq!(
        filetype_from_wls200s("WLS200s-197_2023-01-01_00-00-00_volume_1_50m.nc"),
        w(WindCube200FileType::Volume)
    );
    assert_eq!(
        filetype_from_wls200s("WLS200s-197_Spectrum_2023-01-01_00-00-00_DBS_123_50m.nc"),
        w(WindCube200FileType::SpectrumDbs)
    );
    assert_eq!(
        filetype_from_wls200s("WLS200s-197_Spectrum_2023-01-01_00-00-00_FIXED_1_50m.nc"),
        w(WindCube200FileType::SpectrumFixed)
    );
    assert_eq!(
        filetype_from_wls200s("WLS200s-197_environmental_data_2023-01-01_00-00-00.csv"),
        w(WindCube200FileType::Environmental)
    );
    assert_eq!(
        filetype_from_wls200s("WLS200s-197_2023-01-01_00-00-00_DBS_123_50m.nc"),
        Err(GroupError::Filename)
    );
    assert_eq!(
        filetype_from_wls200s("WLS200s-197_Spectrum_2023-01-01_00-00-00_dbs_123_50m.nc"),
        Err(GroupError::Filename)
    );
    assert_eq!(filetype_from_wls200s("dbs"), Err(GroupError::Filename));
}

#[test]
fn windcube_70_files_by_their_word() {
    assert_eq!(
        filetype_from_wls70("wlscerea_0a_windLz1R10s-HR_v01_20120101_000000.rtd"),
        Ok(FileType::WindCube70(WindCube70FileType::WindLz1R10s))
    );
    assert_eq!(
        filetype_from_wls70("wlscerea_0a_windLz1Lb87R10s-HR_v01_20240401_000000.rtd"),
        Ok(FileType::WindCube70(WindCube70FileType::WindLz1Lb87R10s))
    );
    assert_eq!(
        filetype_from_wls70("wlscerea_0a_other-HR_v01_20240401_000000.rtd"),
        Err(GroupError::Filename)
    );
    assert_eq!(filetype_from_wls70("windLz1R10s"), Err(GroupError::Filename));
}

#[test]
fn records_by_their_instrument() {
    assert_eq!(
        filetype_from_record(&record("halo-doppler-lidar", "Stare_1.hpl")),
        Ok(FileType::Halo(HaloFileType::Stare))
    );
    assert_eq!(
        filetype_from_record(&record("wls70", "wlscerea_0a_windLz1R10s-HR_v01_20120101_000000.rtd")),
        Ok(FileType::WindCube70(WindCube70FileType::WindLz1R10s))
    );
    assert_eq!(
        filetype_from_record(&record("wls200s", "WLS200s-1_2023-01-01_00-00-00_rhi_1_5m.nc")),
        Ok(FileType::WindCube200(WindCube200FileType::Rhi))
    );
    assert_eq!(
        filetype_from_record(&record("wls200s", "Stare_1.hpl")),
        Err(GroupError::Filename)
    );
    assert_eq!(filetype_from_record(&record("radar", "Stare_1.hpl")), Err(GroupError::Instrument));
}

#[test]
fn the_instrument_of_a_record() {
    let g = group_of(&record("wls70", "f"));
    assert_eq!(
        g,
        InstrumentGroup {
            site: String::from("hyytiala"),
            pid: String::from("https://hdl.handle.net/1"),
            uuid: String::from("abcd"),
        }
    );
}

#[test]
fn list_entries() {
    let r = record("wls70", "file.rtd");
    assert_eq!(
        record_to_md_entry(&r),
        "[file.rtd](https://cloudnet.fmi.fi/api/download/raw/1234/file.rtd)"
    );
    let g = group_of(&r);
    assert_eq!(
        group_to_md_header(&g, "WindCube"),
        "[hyytiala](https://cloudnet.fmi.fi/site/hyytiala) - [WindCube](https://hdl.handle.net/1)"
    );
}

#[test]
fn the_list_of_samples_lies_below_the_root() {
    let path = get_testfile_path(vec![String::from("/"), String::from("work")]);
    assert_eq!(path, vec!["/", "work", "tests", "tests.toml"]);
    assert_eq!(get_testfile_path(vec![]), vec!["tests", "tests.toml"]);
    assert!(TestType::Raw < TestType::Stare && TestType::Stare < TestType::Wind);
}

fn at(site: &str, instrument: &str, filename: &str) -> RawRecord {
    let mut r = record(instrument, filename);
    r.site_id = String::from(site);
    r
}

#[test]
fn records_are_sorted_by_instrument_and_kind() {
    let records = vec![
        at("a", "halo-doppler-lidar", "Stare_1.hpl"),
        at("b", "halo-doppler-lidar", "Stare_2.hpl"),
        at("a", "halo-doppler-lidar", "VAD_3.hpl"),
        at("a", "halo-doppler-lidar", "Stare_4.hpl"),
        at("b", "halo-doppler-lidar", "Stare_5.hpl"),
        at("a", "wls70", "wlscerea_0a_windLz1R10s-HR_v01_20120101_000000.rtd"),
    ];
    let buckets = group(&records).unwrap();
    let seen: Vec<(String, FileType, Vec<String>)> = buckets
        .iter()
        .map(|b| {
            (
                b.group.site.clone(),
                b.file_type,
                b.records.iter().map(|r| r.filename.clone()).collect(),
            )
        })
        .collect();
    let stare = FileType::Halo(HaloFileType::Stare);
    let names = |v: &[&str]| v.iter().map(|s| s.to_string()).collect::<Vec<_>>();
    assert_eq!(
        seen,
        vec![
            (String::from("a"), stare, names(&["Stare_1.hpl", "Stare_4.hpl"])),
            (String::from("b"), stare, names(&["Stare_2.hpl", "Stare_5.hpl"])),
            (String::from("a"), FileType::Halo(HaloFileType::Vad), names(&["VAD_3.hpl"])),
            (
                String::from("a"),
                FileType::WindCube70(WindCube70FileType::WindLz1R10s),
                names(&["wlscerea_0a_windLz1R10s-HR_v01_20120101_000000.rtd"]),
            ),
        ]
    );
    let total: usize = buckets.iter().map(|b| b.records.len()).sum();
    assert_eq!(total, records.len());
}

#[test]
fn the_first_record_without_a_kind_ends_the_sorting() {
    let records = vec![
        at("a", "halo-doppler-lidar", "Stare_1.hpl"),
        at("a", "radar", "Stare_2.hpl"),
        at("a", "halo-doppler-lidar", "nothing"),
    ];
    assert_eq!(group(&records).unwrap_err(), GroupError::Instrument);
    let records = vec![at("a", "halo-doppler-lidar", "nothing"), at("a", "radar", "x")];
    assert_eq!(group(&records).unwrap_err(), GroupError::Filename);
    assert_eq!(group(&vec![]).unwrap().len(), 0);
}

#[test]
fn a_copy_of_a_record_holds_the_same() {
    let r = at("a", "wls70", "f");
    let c = copy_record(&r);
    assert_eq!(format!("{:?}", c), format!("{:?}", r));
}
