//! Which sample files to fetch, and where each of them goes.
use vstd::prelude::*;
use vstd::string::{StrSliceExecFns, StringExecFns};
use crate::testfile::{components, Testcase, Testfile, Tests};

verus! {

/// One file to fetch: from where, and the components of the path to write
/// it to.
#[derive(Debug, Clone, PartialEq, Eq)]
pub struct Download {
    pub url: String,
    pub path: Vec<String>,
}

/// A [`Download`] as plain values.
pub ghost struct DownloadView {
    pub url: Seq<char>,
    pub path: Seq<Seq<char>>,
}

impl View for Download {
    type V = DownloadView;

    open spec fn view(&self) -> DownloadView {
        DownloadView { url: self.url@, path: components(self.path@) }
    }
}

/// The first eight characters of a text, or all of a shorter one.
pub open spec fn short(id: Seq<char>) -> Seq<char> {
    if id.len() <= 8 {
        id
    } else {
        id.take(8)
    }
}

/// Where a sample file is kept below `root`: under `tests/data`, in the
/// directory of its site, in that of the start of its identifier.
pub open spec fn sample_path(root: Seq<Seq<char>>, f: Testfile) -> Seq<Seq<char>> {
    root + seq!["tests"@, "data"@, f.site_id@, short(f.uuid@), f.filename@]
}

/// The download of one sample file.
pub open spec fn planned(root: Seq<Seq<char>>, f: Testfile) -> DownloadView {
    DownloadView { url: f.download_url@, path: sample_path(root, f) }
}

/// The files of a list of cases, case after case.
pub open spec fn all_files(cases: Seq<Testcase>) -> Seq<Testfile>
    decreases cases.len(),
{
    if cases.len() == 0 {
        Seq::empty()
    } else {
        all_files(cases.drop_last()) + cases.last().files@
    }
}

/// The views of a list of downloads.
pub open spec fn download_views(v: Seq<Download>) -> Seq<DownloadView> {
    v.map_values(|d: Download| d@)
}

/// A second copy of a path.
fn copy_path(path: &Vec<String>) -> (r: Vec<String>)
    ensures
        components(r@) == components(path@),
{
    let mut out: Vec<String> = Vec::new();
    let mut i: usize = 0;
    while i < path.len()
        invariant
            i <= path.len(),
            out@.len() == i,
            forall|j: int| 0 <= j < i ==> out@[j]@ == path@[j]@,
        decreases path.len() - i,
    {
        out.push(path[i].clone());
        i += 1;
    }
    assert(components(out@) =~= components(path@));
    out
}

/// The download of one sample file to its place below `root`.
pub fn plan(root: &Vec<String>, file: &Testfile) -> (r: Download)
    ensures
        r@ == planned(components(root@), *file),
{
    let mut path = copy_path(root);
    let id = file.uuid.as_str();
    let n = id.unicode_len();
    let start = if n <= 8 {
        id.substring_char(0, n)
    } else {
        id.substring_char(0, 8)
    };
    assert(start@ =~= short(file.uuid@));
    let dir = String::from_str("tests");
    let data = String::from_str("data");
    let site = file.site_id.clone();
    let part = start.to_owned();
    let name = file.filename.clone();
    proof {
        assert(components(path@.push(dir).push(data).push(site).push(part).push(name))
            =~= sample_path(components(root@), *file));
    }
    path.push(dir);
    path.push(data);
    path.push(site);
    path.push(part);
    path.push(name);
    Download { url: file.download_url.clone(), path }
}

/// The downloads that bring every file of every case to its place below
/// `root`, in the order of the list.
pub fn download(tests: &Tests, root: &Vec<String>) -> (r: Vec<Download>)
    ensures
        download_views(r@) == all_files(tests.testcases@).map_values(
            |f: Testfile| planned(components(root@), f),
        ),
{
    let ghost to_plan = |f: Testfile| planned(components(root@), f);
    let mut out: Vec<Download> = Vec::new();
    let mut c: usize = 0;
    proof {
        assert(tests.testcases@.take(0) =~= Seq::<Testcase>::empty());
        assert(download_views(out@) =~= all_files(Seq::<Testcase>::empty()).map_values(to_plan));
    }
    while c < tests.testcases.len()
        invariant
            c <= tests.testcases.len(),
            to_plan == |f: Testfile| planned(components(root@), f),
            download_views(out@) == all_files(tests.testcases@.take(c as int)).map_values(to_plan),
        decreases tests.testcases.len() - c,
    {
        let case = &tests.testcases[c];
        let ghost before = all_files(tests.testcases@.take(c as int));
        let mut k: usize = 0;
        proof {
            assert(case.files@.take(0) =~= Seq::<Testfile>::empty());
            assert(before + Seq::<Testfile>::empty() =~= before);
        }
        while k < case.files.len()
            invariant
                k <= case.files.len(),
                to_plan == |f: Testfile| planned(components(root@), f),
                download_views(out@) == (before + case.files@.take(k as int)).map_values(to_plan),
            decreases case.files.len() - k,
        {
            let d = plan(root, &case.files[k]);
            proof {
                assert(case.files@.take(k + 1) =~= case.files@.take(k as int).push(
                    case.files@[k as int],
                ));
                let done = before + case.files@.take(k as int);
                let file = case.files@[k as int];
                assert(before + case.files@.take(k + 1) =~= done.push(file));
                assert(d@ == to_plan(file));
                assert(done.push(file).map_values(to_plan) =~= done.map_values(to_plan).push(
                    to_plan(file),
                ));
                assert(download_views(out@.push(d)) =~= download_views(out@).push(d@));
            }
            out.push(d);
            k += 1;
        }
        proof {
            assert(case.files@.take(case.files.len() as int) == case.files@);
            let upto = tests.testcases@.take(c + 1);
            assert(upto.drop_last() =~= tests.testcases@.take(c as int));
            assert(upto.last() == *case);
        }
        c += 1;
    }
    proof {
        assert(tests.testcases@.take(tests.testcases.len() as int) == tests.testcases@);
    }
    out
}

} // verus!
