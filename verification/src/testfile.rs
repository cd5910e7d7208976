//! Where the list of sample files lives.
use vstd::prelude::*;
use vstd::string::StringExecFns;

verus! {

/// What a sample file is a sample of.
#[derive(Debug, Ord, Eq, PartialEq, Structural, PartialOrd, Clone, Copy)]
pub enum TestType {
    Raw,
    Stare,
    Wind,
}

/// A sample file in the archive.
#[derive(Debug, Clone, PartialEq, Eq, PartialOrd, Ord)]
pub struct Testfile {
    pub site_id: String,
    pub filename: String,
    pub measurement_date: String,
    pub instrument_id: String,
    pub uuid: String,
    pub checksum: String,
    pub instrument_uuid: String,
    pub download_url: String,
}

/// Files that are tried together.
#[derive(Debug, Clone, PartialEq, Eq, PartialOrd, Ord)]
pub struct Testcase {
    pub kind: TestType,
    pub description: Option<String>,
    pub files: Vec<Testfile>,
}

/// The list of sample files.
#[derive(Debug, Clone, Default)]
pub struct Tests {
    pub testcases: Vec<Testcase>,
}

/// The views of a path's components.
pub open spec fn components(path: Seq<String>) -> Seq<Seq<char>> {
    path.map_values(|c: String| c@)
}

/// The path of the list of sample files below the project root: the root's
/// components, then `tests` and `tests.toml`.
pub fn get_testfile_path(root: Vec<String>) -> (r: Vec<String>)
    ensures
        components(r@) == components(root@) + seq!["tests"@, "tests.toml"@],
{
    let mut path = root;
    let dir = String::from_str("tests");
    let file = String::from_str("tests.toml");
    proof {
        assert(components(path@.push(dir).push(file)) =~= components(root@) + seq![
            "tests"@,
            "tests.toml"@,
        ]);
    }
    path.push(dir);
    path.push(file);
    path
}

} // verus!
