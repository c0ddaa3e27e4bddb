//! The metrics aggregator: one mutable report accumulates scan, delete and
//! retain counters and path lists across every pass of a run, and its
//! invariants are stated and proved here.
//!
//! The model of one pass is a sequence of [`Visit`]s: every file visited is
//! counted into exactly one of the deleted or retained buckets, for the
//! count, the byte sum and the path list alike.

use vstd::prelude::*;

use crate::digits::{spec_dec_digits, u64_to_string};
use crate::text::str_eq;

verus! {

/// The ghost model of one visited file: its path, its byte length, and the
/// bucket it was counted into (`deleted` covers files actually removed and
/// files a dry run would have removed; ignored and non-matching files are
/// retained).
pub struct Visit {
    pub path: Seq<char>,
    pub size: nat,
    pub deleted: bool,
}

/// The mathematical view of a [`ReportData`].
#[verifier::ext_equal]
pub struct ReportView {
    pub files_scanned: nat,
    pub files_deleted: nat,
    pub total_time_sec: nat,
    pub total_file_size_deleted: nat,
    pub total_file_size_retained: nat,
    pub total_files_retained: nat,
    pub paths_deleted: Seq<Seq<char>>,
    pub paths_retained: Seq<Seq<char>>,
}

impl ReportView {
    /// The counting invariant: the scan counter equals the two path lists
    /// together, and each bucket counter equals its own list.
    pub open spec fn wf(self) -> bool {
        &&& self.files_scanned == self.paths_deleted.len() + self.paths_retained.len()
        &&& self.files_deleted == self.paths_deleted.len()
        &&& self.total_files_retained == self.paths_retained.len()
    }
}

/// The aggregate report of a cleanup run, accumulated additively across all
/// passes of the run; there is no reset between passes.
#[derive(Debug)]
pub struct ReportData {
    pub files_scanned: u32,
    pub files_deleted: u32,
    pub total_time_sec: u64,
    pub total_file_size_deleted: u64,
    pub total_file_size_retained: u64,
    pub total_files_retained: u32,
    pub paths_deleted: Vec<String>,
    pub paths_retained: Vec<String>,
}

impl View for ReportData {
    type V = ReportView;

    open spec fn view(&self) -> ReportView {
        ReportView {
            files_scanned: self.files_scanned as nat,
            files_deleted: self.files_deleted as nat,
            total_time_sec: self.total_time_sec as nat,
            total_file_size_deleted: self.total_file_size_deleted as nat,
            total_file_size_retained: self.total_file_size_retained as nat,
            total_files_retained: self.total_files_retained as nat,
            paths_deleted: self.paths_deleted.deep_view(),
            paths_retained: self.paths_retained.deep_view(),
        }
    }
}

/// How one visit changes the report: the scan counter moves by one, the
/// visited file's size and path go to exactly one bucket, and the retained
/// total is recomputed from the two counters.
pub open spec fn spec_collect(v: ReportView, path: Seq<char>, size: nat, deleted: bool) -> ReportView {
    let scanned = v.files_scanned + 1;
    let fdel = v.files_deleted + if deleted {
        1nat
    } else {
        0nat
    };
    ReportView {
        files_scanned: scanned,
        files_deleted: fdel,
        total_time_sec: v.total_time_sec,
        total_file_size_deleted: v.total_file_size_deleted + if deleted {
            size
        } else {
            0nat
        },
        total_file_size_retained: v.total_file_size_retained + if deleted {
            0nat
        } else {
            size
        },
        total_files_retained: if fdel <= scanned {
            (scanned - fdel) as nat
        } else {
            0nat
        },
        paths_deleted: if deleted {
            v.paths_deleted.push(path)
        } else {
            v.paths_deleted
        },
        paths_retained: if deleted {
            v.paths_retained
        } else {
            v.paths_retained.push(path)
        },
    }
}

/// The report after a whole sequence of visits.
pub open spec fn spec_run_visits(v: ReportView, vs: Seq<Visit>) -> ReportView
    decreases vs.len(),
{
    if vs.len() == 0 {
        v
    } else {
        let w = spec_run_visits(v, vs.drop_last());
        spec_collect(w, vs.last().path, vs.last().size, vs.last().deleted)
    }
}

pub open spec fn spec_deleted_count(vs: Seq<Visit>) -> nat
    decreases vs.len(),
{
    if vs.len() == 0 {
        0
    } else {
        spec_deleted_count(vs.drop_last()) + if vs.last().deleted {
            1nat
        } else {
            0nat
        }
    }
}

pub open spec fn spec_deleted_size(vs: Seq<Visit>) -> nat
    decreases vs.len(),
{
    if vs.len() == 0 {
        0
    } else {
        spec_deleted_size(vs.drop_last()) + if vs.last().deleted {
            vs.last().size
        } else {
            0nat
        }
    }
}

pub open spec fn spec_retained_size(vs: Seq<Visit>) -> nat
    decreases vs.len(),
{
    if vs.len() == 0 {
        0
    } else {
        spec_retained_size(vs.drop_last()) + if vs.last().deleted {
            0nat
        } else {
            vs.last().size
        }
    }
}

pub open spec fn spec_visits_total_size(vs: Seq<Visit>) -> nat
    decreases vs.len(),
{
    if vs.len() == 0 {
        0
    } else {
        spec_visits_total_size(vs.drop_last()) + vs.last().size
    }
}

/// The paths of the visits counted as deleted, in visit order.
pub open spec fn spec_deleted_paths(vs: Seq<Visit>) -> Seq<Seq<char>>
    decreases vs.len(),
{
    if vs.len() == 0 {
        Seq::empty()
    } else if vs.last().deleted {
        spec_deleted_paths(vs.drop_last()).push(vs.last().path)
    } else {
        spec_deleted_paths(vs.drop_last())
    }
}

/// The paths of the visits counted as retained, in visit order.
pub open spec fn spec_retained_paths(vs: Seq<Visit>) -> Seq<Seq<char>>
    decreases vs.len(),
{
    if vs.len() == 0 {
        Seq::empty()
    } else if vs.last().deleted {
        spec_retained_paths(vs.drop_last())
    } else {
        spec_retained_paths(vs.drop_last()).push(vs.last().path)
    }
}

/// A run of visits changes the report by a delta that depends on the visits
/// alone: each counter grows by its bucket's total and each path list is
/// extended by its bucket's paths, in visit order.
pub proof fn lemma_run_visits_delta(v: ReportView, vs: Seq<Visit>)
    ensures
        spec_run_visits(v, vs).files_scanned == v.files_scanned + vs.len(),
        spec_run_visits(v, vs).files_deleted == v.files_deleted + spec_deleted_count(vs),
        spec_run_visits(v, vs).total_time_sec == v.total_time_sec,
        spec_run_visits(v, vs).total_file_size_deleted == v.total_file_size_deleted
            + spec_deleted_size(vs),
        spec_run_visits(v, vs).total_file_size_retained == v.total_file_size_retained
            + spec_retained_size(vs),
        spec_run_visits(v, vs).paths_deleted == v.paths_deleted + spec_deleted_paths(vs),
        spec_run_visits(v, vs).paths_retained == v.paths_retained + spec_retained_paths(vs),
    decreases vs.len(),
{
    if vs.len() == 0 {
        assert(v.paths_deleted + spec_deleted_paths(vs) =~= v.paths_deleted);
        assert(v.paths_retained + spec_retained_paths(vs) =~= v.paths_retained);
    } else {
        lemma_run_visits_delta(v, vs.drop_last());
        assert((v.paths_deleted + spec_deleted_paths(vs.drop_last())).push(vs.last().path) =~= v.paths_deleted
            + spec_deleted_paths(vs.drop_last()).push(vs.last().path));
        assert((v.paths_retained + spec_retained_paths(vs.drop_last())).push(vs.last().path)
            =~= v.paths_retained + spec_retained_paths(vs.drop_last()).push(vs.last().path));
    }
}

/// The counting invariant holds of every run: if the report satisfies it
/// before a sequence of visits, it satisfies it after, so `files_scanned`
/// always equals the two path lists together.
pub proof fn lemma_counting_invariant(v: ReportView, vs: Seq<Visit>)
    requires
        v.wf(),
    ensures
        spec_run_visits(v, vs).wf(),
    decreases vs.len(),
{
    if vs.len() > 0 {
        lemma_counting_invariant(v, vs.drop_last());
    }
}

/// Size conservation: over any run of visits, the deleted and retained byte
/// sums together grow by exactly the total size of the files visited.
pub proof fn lemma_size_conservation(v: ReportView, vs: Seq<Visit>)
    ensures
        spec_run_visits(v, vs).total_file_size_deleted + spec_run_visits(v,
            vs,
        ).total_file_size_retained == v.total_file_size_deleted + v.total_file_size_retained
            + spec_visits_total_size(vs),
    decreases vs.len(),
{
    if vs.len() > 0 {
        lemma_size_conservation(v, vs.drop_last());
    }
}

/// Membership in the deleted path list of a run: exactly the paths of the
/// visits counted as deleted.
pub proof fn lemma_deleted_paths_membership(vs: Seq<Visit>, p: Seq<char>)
    ensures
        spec_deleted_paths(vs).contains(p) <==> exists|i: int|
            0 <= i < vs.len() && #[trigger] vs[i].deleted && vs[i].path == p,
    decreases vs.len(),
{
    if vs.len() > 0 {
        lemma_deleted_paths_membership(vs.drop_last(), p);
        if spec_deleted_paths(vs).contains(p) {
            if vs.last().deleted && vs.last().path == p {
                assert(vs[vs.len() - 1].deleted && vs[vs.len() - 1].path == p);
            } else {
                assert(spec_deleted_paths(vs.drop_last()).contains(p) ==> exists|i: int|
                    0 <= i < vs.len() && #[trigger] vs[i].deleted && vs[i].path == p);
            }
        }
        if exists|i: int| 0 <= i < vs.len() && #[trigger] vs[i].deleted && vs[i].path == p {
            let i = choose|i: int| 0 <= i < vs.len() && #[trigger] vs[i].deleted && vs[i].path == p;
            if i < vs.len() - 1 {
                assert(vs.drop_last()[i].deleted && vs.drop_last()[i].path == p);
                assert(spec_deleted_paths(vs.drop_last()).contains(p));
                if vs.last().deleted {
                    let dp = spec_deleted_paths(vs.drop_last());
                    let j = choose|j: int| 0 <= j < dp.len() && dp[j] == p;
                    assert(dp.push(vs.last().path)[j] == p);
                    assert(spec_deleted_paths(vs).contains(p));
                }
            } else {
                assert(spec_deleted_paths(vs).last() == p);
            }
        }
    }
}

/// Membership in the retained path list of a run: exactly the paths of the
/// visits counted as retained.
pub proof fn lemma_retained_paths_membership(vs: Seq<Visit>, p: Seq<char>)
    ensures
        spec_retained_paths(vs).contains(p) <==> exists|i: int|
            0 <= i < vs.len() && !(#[trigger] vs[i].deleted) && vs[i].path == p,
    decreases vs.len(),
{
    if vs.len() > 0 {
        lemma_retained_paths_membership(vs.drop_last(), p);
        if spec_retained_paths(vs).contains(p) {
            if !vs.last().deleted && vs.last().path == p {
                assert(!vs[vs.len() - 1].deleted && vs[vs.len() - 1].path == p);
            } else {
                assert(spec_retained_paths(vs.drop_last()).contains(p) ==> exists|i: int|
                    0 <= i < vs.len() && !(#[trigger] vs[i].deleted) && vs[i].path == p);
            }
        }
        if exists|i: int| 0 <= i < vs.len() && !(#[trigger] vs[i].deleted) && vs[i].path == p {
            let i = choose|i: int|
                0 <= i < vs.len() && !(#[trigger] vs[i].deleted) && vs[i].path == p;
            if i < vs.len() - 1 {
                assert(!vs.drop_last()[i].deleted && vs.drop_last()[i].path == p);
                assert(spec_retained_paths(vs.drop_last()).contains(p));
                if !vs.last().deleted {
                    let rp = spec_retained_paths(vs.drop_last());
                    let j = choose|j: int| 0 <= j < rp.len() && rp[j] == p;
                    assert(rp.push(vs.last().path)[j] == p);
                    assert(spec_retained_paths(vs).contains(p));
                }
            } else {
                assert(spec_retained_paths(vs).last() == p);
            }
        }
    }
}

/// Each visited file lands in exactly one of the two path lists of its run,
/// provided the walk visits each path once.
pub proof fn lemma_visit_in_exactly_one_list(vs: Seq<Visit>, i: int)
    requires
        0 <= i < vs.len(),
        forall|j: int, k: int| 0 <= j < k < vs.len() ==> vs[j].path != vs[k].path,
    ensures
        vs[i].deleted ==> spec_deleted_paths(vs).contains(vs[i].path) && !spec_retained_paths(
            vs,
        ).contains(vs[i].path),
        !vs[i].deleted ==> spec_retained_paths(vs).contains(vs[i].path) && !spec_deleted_paths(
            vs,
        ).contains(vs[i].path),
{
    lemma_deleted_paths_membership(vs, vs[i].path);
    lemma_retained_paths_membership(vs, vs[i].path);
    assert forall|k: int| 0 <= k < vs.len() && vs[k].path == vs[i].path implies k == i by {
        if k < i {
            assert(vs[k].path != vs[i].path);
        } else if i < k {
            assert(vs[i].path != vs[k].path);
        }
    }
}

/// Running one and the same visit sequence a second time changes every
/// counter by the same amount as the first time and appends the same paths:
/// with a dry run, which removes nothing, a repeated pass walks the same
/// records and therefore reports identical metrics both times.
pub proof fn lemma_repeated_visits_same_delta(v: ReportView, vs: Seq<Visit>)
    ensures
        ({
            let v1 = spec_run_visits(v, vs);
            let v2 = spec_run_visits(v1, vs);
            &&& v1.files_scanned - v.files_scanned == v2.files_scanned - v1.files_scanned
            &&& v1.files_deleted - v.files_deleted == v2.files_deleted - v1.files_deleted
            &&& v1.total_file_size_deleted - v.total_file_size_deleted
                == v2.total_file_size_deleted - v1.total_file_size_deleted
            &&& v1.total_file_size_retained - v.total_file_size_retained
                == v2.total_file_size_retained - v1.total_file_size_retained
            &&& v1.paths_deleted.skip(v.paths_deleted.len() as int) == v2.paths_deleted.skip(
                v1.paths_deleted.len() as int,
            )
            &&& v1.paths_retained.skip(v.paths_retained.len() as int) == v2.paths_retained.skip(
                v1.paths_retained.len() as int,
            )
        }),
{
    let v1 = spec_run_visits(v, vs);
    lemma_run_visits_delta(v, vs);
    lemma_run_visits_delta(v1, vs);
    assert((v.paths_deleted + spec_deleted_paths(vs)).skip(v.paths_deleted.len() as int)
        =~= spec_deleted_paths(vs));
    assert((v1.paths_deleted + spec_deleted_paths(vs)).skip(v1.paths_deleted.len() as int)
        =~= spec_deleted_paths(vs));
    assert((v.paths_retained + spec_retained_paths(vs)).skip(v.paths_retained.len() as int)
        =~= spec_retained_paths(vs));
    assert((v1.paths_retained + spec_retained_paths(vs)).skip(v1.paths_retained.len() as int)
        =~= spec_retained_paths(vs));
}

impl ReportData {
    /// A fresh report: every counter zero, both path lists empty.
    pub fn new() -> (r: ReportData)
        ensures
            r@ == (ReportView {
                files_scanned: 0,
                files_deleted: 0,
                total_time_sec: 0,
                total_file_size_deleted: 0,
                total_file_size_retained: 0,
                total_files_retained: 0,
                paths_deleted: Seq::empty(),
                paths_retained: Seq::empty(),
            }),
            r@.wf(),
    {
        let r = ReportData {
            files_scanned: 0,
            files_deleted: 0,
            total_time_sec: 0,
            total_file_size_deleted: 0,
            total_file_size_retained: 0,
            total_files_retained: 0,
            paths_deleted: Vec::new(),
            paths_retained: Vec::new(),
        };
        proof {
            assert(r.paths_deleted.deep_view() =~= Seq::<Seq<char>>::empty());
            assert(r.paths_retained.deep_view() =~= Seq::<Seq<char>>::empty());
        }
        r
    }
}

/// The paths with later repetitions removed: each path keeps its first
/// occurrence only, in order.
pub open spec fn spec_dedup(paths: Seq<Seq<char>>) -> Seq<Seq<char>>
    decreases paths.len(),
{
    if paths.len() == 0 {
        Seq::empty()
    } else {
        let prev = spec_dedup(paths.drop_last());
        if paths.drop_last().contains(paths.last()) {
            prev
        } else {
            prev.push(paths.last())
        }
    }
}

/// Remove later repetitions from a path list, keeping first occurrences in
/// order.
pub fn dedup_paths(paths: &Vec<String>) -> (out: Vec<String>)
    ensures
        out.deep_view() == spec_dedup(paths.deep_view()),
{
    let ghost dv = paths.deep_view();
    let n = paths.len();
    let mut out: Vec<String> = Vec::new();
    let mut i: usize = 0;
    proof {
        assert(dv.take(0) =~= Seq::<Seq<char>>::empty());
        assert(out.deep_view() =~= Seq::<Seq<char>>::empty());
    }
    while i < n
        invariant
            n == paths@.len(),
            i <= n,
            dv == paths.deep_view(),
            out.deep_view() == spec_dedup(dv.take(i as int)),
        decreases n - i,
    {
        let mut found = false;
        let mut j: usize = 0;
        while j < i
            invariant
                i < n,
                n == paths@.len(),
                dv == paths.deep_view(),
                j <= i,
                found == exists|u: int| 0 <= u < j && #[trigger] dv[u] == dv[i as int],
            decreases i - j,
        {
            if str_eq(paths[j].as_str(), paths[i].as_str()) {
                proof {
                    assert(dv[j as int] == dv[i as int]);
                }
                found = true;
            }
            j = j + 1;
        }
        proof {
            if found {
                let u = choose|u: int| 0 <= u < i && #[trigger] dv[u] == dv[i as int];
                assert(dv.take(i as int)[u] == dv[i as int]);
                assert(dv.take(i as int).contains(dv[i as int]));
            } else {
                if dv.take(i as int).contains(dv[i as int]) {
                    let u = choose|u: int|
                        0 <= u < dv.take(i as int).len() && dv.take(i as int)[u] == dv[i as int];
                    assert(dv[u] == dv[i as int]);
                }
            }
            assert(dv.take(i + 1).drop_last() =~= dv.take(i as int));
        }
        if !found {
            let ghost pre = out.deep_view();
            out.push(paths[i].clone());
            proof {
                assert(out.deep_view() =~= pre.push(dv[i as int]));
            }
        }
        i = i + 1;
    }
    proof {
        assert(dv.take(n as int) =~= dv);
    }
    out
}

/// The lines of the rendered report: the header, one line per counter, and
/// the two path lists when they are not empty — the retained list with
/// repeated paths shown once.
pub open spec fn spec_report_lines(v: ReportView) -> Seq<Seq<char>> {
    let base = seq![
        "Cleaning Report"@,
        ""@,
        "Files Scanned: "@ + spec_dec_digits(v.files_scanned),
        "Files Deleted: "@ + spec_dec_digits(v.files_deleted),
        "Files Retained: "@ + spec_dec_digits(v.total_files_retained),
        "Total Time (seconds): "@ + spec_dec_digits(v.total_time_sec),
        "Total File Size Deleted: "@ + spec_dec_digits(v.total_file_size_deleted) + " bytes"@,
        "Total File Size Retained: "@ + spec_dec_digits(v.total_file_size_retained) + " bytes"@,
    ];
    let with_deleted = if v.paths_deleted.len() > 0 {
        base + seq!["Paths Deleted"@] + v.paths_deleted
    } else {
        base
    };
    if v.paths_retained.len() > 0 {
        with_deleted + seq!["Paths Retained"@] + spec_dedup(v.paths_retained)
    } else {
        with_deleted
    }
}

fn label_num(label: &str, n: u64) -> (r: String)
    ensures
        r@ == label@ + spec_dec_digits(n as nat),
{
    let num = u64_to_string(n);
    let mut s = label.to_owned();
    s.append(num.as_str());
    s
}

impl ReportData {
    /// Render the report as plain text lines, exactly
    /// [`spec_report_lines`] of the current state.
    pub fn report_lines(&self) -> (lines: Vec<String>)
        ensures
            lines.deep_view() == spec_report_lines(self@),
    {
        let ghost v = self@;
        let mut lines: Vec<String> = Vec::new();
        lines.push("Cleaning Report".to_owned());
        lines.push("".to_owned());
        lines.push(label_num("Files Scanned: ", self.files_scanned as u64));
        lines.push(label_num("Files Deleted: ", self.files_deleted as u64));
        lines.push(label_num("Files Retained: ", self.total_files_retained as u64));
        lines.push(label_num("Total Time (seconds): ", self.total_time_sec));
        let mut sized = label_num("Total File Size Deleted: ", self.total_file_size_deleted);
        sized.append(" bytes");
        lines.push(sized);
        let mut sizer = label_num("Total File Size Retained: ", self.total_file_size_retained);
        sizer.append(" bytes");
        lines.push(sizer);
        let ghost base = seq![
            "Cleaning Report"@,
            ""@,
            "Files Scanned: "@ + spec_dec_digits(v.files_scanned),
            "Files Deleted: "@ + spec_dec_digits(v.files_deleted),
            "Files Retained: "@ + spec_dec_digits(v.total_files_retained),
            "Total Time (seconds): "@ + spec_dec_digits(v.total_time_sec),
            "Total File Size Deleted: "@ + spec_dec_digits(v.total_file_size_deleted)
                + " bytes"@,
            "Total File Size Retained: "@ + spec_dec_digits(v.total_file_size_retained)
                + " bytes"@,
        ];
        proof {
            assert(lines.deep_view() =~= base);
        }
        let ghost with_deleted = if v.paths_deleted.len() > 0 {
            base + seq!["Paths Deleted"@] + v.paths_deleted
        } else {
            base
        };
        if !self.paths_deleted.is_empty() {
            lines.push("Paths Deleted".to_owned());
            let ghost hdr = lines.deep_view();
            let n = self.paths_deleted.len();
            let mut i: usize = 0;
            proof {
                assert(v.paths_deleted.take(0) =~= Seq::<Seq<char>>::empty());
                assert(hdr + v.paths_deleted.take(0) =~= hdr);
            }
            while i < n
                invariant
                    n == self.paths_deleted@.len(),
                    i <= n,
                    hdr == base + seq!["Paths Deleted"@],
                    v == self@,
                    lines.deep_view() == hdr + v.paths_deleted.take(i as int),
                decreases n - i,
            {
                let ghost pre = lines.deep_view();
                lines.push(self.paths_deleted[i].clone());
                proof {
                    assert(lines.deep_view() =~= pre.push(v.paths_deleted[i as int]));
                    assert(pre.push(v.paths_deleted[i as int]) =~= hdr + v.paths_deleted.take(
                        i + 1,
                    ));
                }
                i = i + 1;
            }
            proof {
                assert(v.paths_deleted.take(n as int) =~= v.paths_deleted);
                assert(lines.deep_view() =~= with_deleted);
            }
        }
        if !self.paths_retained.is_empty() {
            lines.push("Paths Retained".to_owned());
            let ghost hdr = lines.deep_view();
            let deduped = dedup_paths(&self.paths_retained);
            let ghost ddv = deduped.deep_view();
            let n = deduped.len();
            let mut i: usize = 0;
            proof {
                assert(ddv.take(0) =~= Seq::<Seq<char>>::empty());
                assert(hdr + ddv.take(0) =~= hdr);
            }
            while i < n
                invariant
                    n == deduped@.len(),
                    i <= n,
                    ddv == deduped.deep_view(),
                    hdr == with_deleted + seq!["Paths Retained"@],
                    lines.deep_view() == hdr + ddv.take(i as int),
                decreases n - i,
            {
                let ghost pre = lines.deep_view();
                lines.push(deduped[i].clone());
                proof {
                    assert(lines.deep_view() =~= pre.push(ddv[i as int]));
                    assert(pre.push(ddv[i as int]) =~= hdr + ddv.take(i + 1));
                }
                i = i + 1;
            }
            proof {
                assert(ddv.take(n as int) =~= ddv);
                assert(lines.deep_view() =~= hdr + ddv);
                assert(lines.deep_view() =~= spec_report_lines(v));
            }
        } else {
            proof {
                assert(lines.deep_view() =~= spec_report_lines(v));
            }
        }
        lines
    }
}

/// Record one visited file into the report: exactly one bucket receives its
/// size and its path, and the retained total is recomputed.
pub fn collect_metrics(report_data: &mut ReportData, size: u64, path: &str, deleted: bool)
    requires
        old(report_data)@.wf(),
        old(report_data)@.files_scanned < u32::MAX,
        old(report_data)@.total_file_size_deleted + old(report_data)@.total_file_size_retained
            + size <= u64::MAX,
    ensures
        final(report_data)@ == spec_collect(old(report_data)@, path@, size as nat, deleted),
        final(report_data)@.wf(),
{
    report_data.files_scanned = report_data.files_scanned + 1;
    if deleted {
        report_data.files_deleted = report_data.files_deleted + 1;
        report_data.total_file_size_deleted = report_data.total_file_size_deleted + size;
        report_data.paths_deleted.push(path.to_owned());
    } else {
        report_data.total_file_size_retained = report_data.total_file_size_retained + size;
        report_data.paths_retained.push(path.to_owned());
    }
    report_data.total_files_retained = report_data.files_scanned - report_data.files_deleted;
    proof {
        assert(report_data.paths_deleted.deep_view() =~= (if deleted {
            old(report_data).paths_deleted.deep_view().push(path@)
        } else {
            old(report_data).paths_deleted.deep_view()
        }));
        assert(report_data.paths_retained.deep_view() =~= (if deleted {
            old(report_data).paths_retained.deep_view()
        } else {
            old(report_data).paths_retained.deep_view().push(path@)
        }));
        assert(report_data@ =~= spec_collect(old(report_data)@, path@, size as nat, deleted));
    }
}

} // verus!
