use doprs::download::{download, plan, Download};
use doprs::testfile::{TestType, Testcase, Testfile, Tests};

fn file(site: &str, uuid: &str, name: &str) -> Testfile {
    Testfile {
        site_id: String::from(site),
        filename: String::from(name),
        measurement_date: String::from("2024-04-01"),
        instrument_id: String::from("wls70"),
        uuid: String::from(uuid),
        checksum: String::new(),
        instrument_uuid: String::new(),
        download_url: format!("https://example.org/{}", name),
    }
}

fn root() -> Vec<String> {
    vec![String::from("/"), String::from("src")]
}

#[test]
fn a_file_goes_below_its_site_and_identifier() {
    let d = plan(&root(), &file("palaiseau", "0a1b2c3d-4e5f-6789", "a.rtd"));
    assert_eq!(d.url, "https://example.org/a.rtd");
    assert_eq!(d.path, vec!["/", "src", "tests", "data", "palaiseau", "0a1b2c3d", "a.rtd"]);
}

#[test]
fn short_identifiers_stay_whole() {
    let d = plan(&vec![], &file("s", "abc", "f"));
    assert_eq!(d.path, vec!["tests", "data", "s", "abc", "f"]);
    let d = plan(&vec![], &file("s", "", "f"));
    assert_eq!(d.path, vec!["tests", "data", "s", "", "f"]);
    let d = plan(&vec![], &file("s", "ääääääääää", "f"));
    assert_eq!(d.path[3], "ääääääää");
}

#[test]
fn every_file_of_every_case_in_order() {
    let tests = Tests {
        testcases: vec![
            Testcase {
                kind: TestType::Raw,
                description: None,
                files: vec![file("a", "11111111-x", "one"), file("a", "22222222-x", "two")],
            },
            Testcase { kind: TestType::Stare, description: None, files: vec![] },
            Testcase {
                kind: TestType::Wind,
                description: Some(String::from("windy")),
                files: vec![file("b", "33333333-x", "three")],
            },
        ],
    };
    let plans = download(&tests, &root());
    let names: Vec<&str> = plans.iter().map(|d| d.path[6].as_str()).collect();
    assert_eq!(names, vec!["one", "two", "three"]);
    assert_eq!(plans[2], plan(&root(), &tests.testcases[2].files[0]));
    assert_eq!(plans[2], Download {
        url: String::from("https://example.org/three"),
        path: vec!["/", "src", "tests", "data", "b", "33333333", "three"]
            .into_iter()
            .map(String::from)
            .collect(),
    });
    assert_eq!(download(&Tests::default(), &root()).len(), 0);
}
