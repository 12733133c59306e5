//! Archive layout: where a run's serial log is staged while the run is
//! alive, and where it is renamed once the verdict is known. The rename
//! itself is filesystem work done by the caller; every path is computed and
//! related here.

use vstd::prelude::*;
use vstd::string::StringExecFns;
use crate::descriptor::DescView;
use crate::descriptor::TestDescriptor;
use crate::descriptor::mode_label;
use crate::descriptor::mode_str;

verus! {

/// The log file name of one descriptor: `<name>-<mode>.txt`.
pub open spec fn log_file_name_spec(d: DescView) -> Seq<char> {
    d.name + "-"@ + mode_label(d.mode) + ".txt"@
}

/// The staging location a live run's log is captured at:
/// `<output-dir>/tmp/<name>-<mode>.txt`.
pub open spec fn staging_path_spec(out_dir: Seq<char>, d: DescView) -> Seq<char> {
    out_dir + "/tmp/"@ + log_file_name_spec(d)
}

/// The archive directory a verdict selects.
pub open spec fn verdict_label(passed: bool) -> Seq<char> {
    if passed {
        "passed"@
    } else {
        "failed"@
    }
}

/// The final location of a finished run's log:
/// `<output-dir>/passed/<name>-<mode>.txt` or
/// `<output-dir>/failed/<name>-<mode>.txt`.
pub open spec fn archive_path_spec(out_dir: Seq<char>, d: DescView, passed: bool) -> Seq<char> {
    out_dir + "/"@ + verdict_label(passed) + "/"@ + log_file_name_spec(d)
}

/// Computes the log file name of a descriptor.
pub fn log_file_name(d: &TestDescriptor) -> (r: String)
    ensures
        r@ == log_file_name_spec(d@),
{
    let mut s = String::from_str(d.name.as_str());
    s.append("-");
    s.append(mode_str(d.mode));
    s.append(".txt");
    proof {
        assert(s@ =~= log_file_name_spec(d@));
    }
    s
}

/// Computes the staging path of a descriptor's log.
pub fn staging_path(out_dir: &str, d: &TestDescriptor) -> (r: String)
    ensures
        r@ == staging_path_spec(out_dir@, d@),
{
    let mut s = String::from_str(out_dir);
    s.append("/tmp/");
    let file = log_file_name(d);
    s.append(file.as_str());
    proof {
        assert(s@ =~= staging_path_spec(out_dir@, d@));
    }
    s
}

/// Computes the final archive path the verdict selects for a descriptor's
/// log.
pub fn archive_path(out_dir: &str, d: &TestDescriptor, passed: bool) -> (r: String)
    ensures
        r@ == archive_path_spec(out_dir@, d@, passed),
{
    let mut s = String::from_str(out_dir);
    s.append("/");
    if passed {
        s.append("passed");
    } else {
        s.append("failed");
    }
    s.append("/");
    let file = log_file_name(d);
    s.append(file.as_str());
    proof {
        assert(s@ =~= archive_path_spec(out_dir@, d@, passed));
    }
    s
}

/// Archiving is exclusive per descriptor and mode: the path a verdict
/// selects is a function of the descriptor and the verdict alone, the
/// `passed` and `failed` locations differ, and neither is the staging
/// location — so a log archived once lands in `passed` xor `failed` and
/// never stays in `tmp`.
pub proof fn lemma_archive_locations_distinct(out_dir: Seq<char>, d: DescView)
    ensures
        archive_path_spec(out_dir, d, true) != archive_path_spec(out_dir, d, false),
        archive_path_spec(out_dir, d, true) != staging_path_spec(out_dir, d),
        archive_path_spec(out_dir, d, false) != staging_path_spec(out_dir, d),
{
    reveal_strlit("/");
    reveal_strlit("/tmp/");
    reveal_strlit("passed");
    reveal_strlit("failed");
    let p = archive_path_spec(out_dir, d, true);
    let f = archive_path_spec(out_dir, d, false);
    let t = staging_path_spec(out_dir, d);
    let i = out_dir.len() as int;
    assert(p[i + 1] == 'p');
    assert(f[i + 1] == 'f');
    assert(t[i + 1] == 't');
    assert(p[i + 1] != f[i + 1]);
    assert(p[i + 1] != t[i + 1]);
    assert(f[i + 1] != t[i + 1]);
}

} // verus!
