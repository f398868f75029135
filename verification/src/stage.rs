//! Intermediate staging: exactly the jobs whose format is Bc3 and whose
//! source extension is not already `png` need a lossless `png` copy of the
//! source before the external tool runs. This module computes that plan —
//! the caller performs the re-encoding — and proves that a staged target
//! path never collides with its own source.
use vstd::prelude::*;

use crate::classify::{image_file_wf, ImageFileView};
use crate::format::ImageFileFormat;
use crate::pathname::{extension_of, file_name, file_name_start, file_stem_of, is_separator,
    last_index_of, lemma_file_name_no_separator, lemma_file_name_start_bounds,
    lemma_file_name_start_characterized, lemma_last_index_of_properties, lemma_last_index_of_some,
    path_with_extension, with_extension};
use crate::resolve::{job_views, ImageFileWithFormat, JobView};
use crate::text::{lower, lower_char, str_eq};

verus! {

/// One planned re-encoding: decode `source`, write it losslessly to
/// `target` (the source path with its extension replaced by `png`).
pub struct PngConversion {
    pub source: String,
    pub target: String,
}

pub ghost struct PngConversionView {
    pub source: Seq<char>,
    pub target: Seq<char>,
}

impl View for PngConversion {
    type V = PngConversionView;

    open spec fn view(&self) -> PngConversionView {
        PngConversionView { source: self.source@, target: self.target@ }
    }
}

pub open spec fn png_views(s: Seq<PngConversion>) -> Seq<PngConversionView> {
    s.map_values(|c: PngConversion| c@)
}

/// Whether a job needs a staged intermediate.
pub open spec fn needs_staging(j: JobView) -> bool {
    j.format == ImageFileFormat::Bc3 && j.file.extension != "png"@
}

/// The staged copy a job would get.
pub open spec fn staged_copy(j: JobView) -> PngConversionView {
    PngConversionView { source: j.file.path, target: with_extension(j.file.path, "png"@) }
}

/// The staging plan of a batch: one entry per job that needs staging, in
/// batch order.
pub open spec fn staging_plan(jobs: Seq<JobView>) -> Seq<PngConversionView>
    decreases jobs.len(),
{
    if jobs.len() == 0 {
        Seq::<PngConversionView>::empty()
    } else {
        staging_plan(jobs.drop_last()) + (if needs_staging(jobs.last()) {
            seq![staged_copy(jobs.last())]
        } else {
            Seq::<PngConversionView>::empty()
        })
    }
}

/// A separator just precedes the file name whenever the name does not
/// start the path.
proof fn lemma_file_name_start_preceded_by_separator(p: Seq<char>)
    requires
        file_name_start(p) > 0,
    ensures
        is_separator(p[file_name_start(p) - 1]),
    decreases p.len(),
{
    if p.len() > 0 && !is_separator(p.last()) {
        lemma_file_name_start_preceded_by_separator(p.drop_last());
        lemma_file_name_start_bounds(p.drop_last());
    }
}

/// Replacing the extension keeps the directory prefix and the stem, and
/// gives the new path exactly the asked-for extension.
pub proof fn lemma_with_extension_parts(p: Seq<char>, ext: Seq<char>)
    requires
        extension_of(p) is Some,
        ext.len() > 0,
        forall|j: int| 0 <= j < ext.len() ==> ext[j] != '.' && !is_separator(ext[j]),
    ensures
        extension_of(with_extension(p, ext)) == Option::Some(ext),
        file_stem_of(with_extension(p, ext)) == file_stem_of(p),
        file_name_start(with_extension(p, ext)) == file_name_start(p),
{
    let ns = file_name_start(p);
    let name = file_name(p);
    let stem = file_stem_of(p);
    let q = with_extension(p, ext);
    lemma_file_name_start_bounds(p);
    lemma_file_name_no_separator(p);
    lemma_last_index_of_properties(name, '.');
    let d = last_index_of(name, '.')->Some_0;
    assert(d > 0);
    assert(stem == name.subrange(0, d));
    assert(q =~= p.subrange(0, ns) + stem + seq!['.'] + ext);
    assert(forall|j: int| 0 <= j < stem.len() ==> stem[j] == p[ns + j]);
    // The file name of q starts where the file name of p does.
    assert(ns <= q.len());
    assert forall|j: int| ns <= j < q.len() implies !is_separator(q[j]) by {
        if j < ns + stem.len() {
            assert(q[j] == p[j]);
        } else if j == ns + stem.len() {
            assert(q[j] == '.');
        } else {
            assert(q[j] == ext[j - (ns + stem.len() + 1)]);
        }
    }
    if ns > 0 {
        lemma_file_name_start_preceded_by_separator(p);
        assert(q[ns - 1] == p[ns - 1]);
    }
    lemma_file_name_start_characterized(q, ns);
    let qname = file_name(q);
    assert(qname =~= stem + seq!['.'] + ext);
    // The last dot of q's file name is the one just written.
    assert(qname[stem.len() as int] == '.');
    assert forall|j: int| stem.len() < j < qname.len() implies qname[j] != '.' by {
        assert(qname[j] == ext[j - (stem.len() + 1)]);
    }
    lemma_last_index_of_some(qname, '.', stem.len() as int);
    assert(stem.len() > 0);
    assert(extension_of(q)->Some_0 =~= ext);
    assert(file_stem_of(q) =~= stem);
}

/// The `png` literal is already lowercase and holds neither a dot nor a
/// separator.
proof fn lemma_png_literal_lower()
    ensures
        lower("png"@) == "png"@,
        "png"@.len() == 3,
        forall|j: int| 0 <= j < "png"@.len() ==> "png"@[j] != '.' && !is_separator("png"@[j]),
{
    reveal_strlit("png");
    assert forall|j: int| 0 <= j < lower("png"@).len() implies lower("png"@)[j] == "png"@[j] by {
        assert(lower("png"@)[j] == lower_char("png"@[j]));
    }
    assert(lower("png"@) =~= "png"@);
}

/// A staged target never names its own source: the source's extension is
/// not `png`, the target's is.
pub proof fn lemma_staging_target_differs(f: ImageFileView)
    requires
        image_file_wf(f),
        f.extension != "png"@,
    ensures
        with_extension(f.path, "png"@) != f.path,
{
    lemma_png_literal_lower();
    lemma_with_extension_parts(f.path, "png"@);
    if with_extension(f.path, "png"@) == f.path {
        assert(extension_of(f.path) == Option::Some("png"@));
        assert(f.extension == lower("png"@));
    }
}

/// Whether `t` is the staged copy of some job of `jobs` that needs staging.
pub open spec fn staged_from_some_job(jobs: Seq<JobView>, t: PngConversionView) -> bool {
    exists|i: int| 0 <= i < jobs.len() && needs_staging(#[trigger] jobs[i]) && t == staged_copy(jobs[i])
}

/// Every entry of the staging plan is the staged copy of some job that
/// needs staging, and every job that needs staging has its staged copy in
/// the plan.
pub proof fn lemma_staging_exactly_when_needed(jobs: Seq<JobView>)
    ensures
        forall|k: int|
            0 <= k < staging_plan(jobs).len() ==> staged_from_some_job(
                jobs,
                #[trigger] staging_plan(jobs)[k],
            ),
        forall|i: int|
            0 <= i < jobs.len() && needs_staging(#[trigger] jobs[i]) ==> staging_plan(
                jobs,
            ).contains(staged_copy(jobs[i])),
    decreases jobs.len(),
{
    if jobs.len() > 0 {
        lemma_staging_exactly_when_needed(jobs.drop_last());
        let prev = staging_plan(jobs.drop_last());
        assert forall|k: int| 0 <= k < staging_plan(jobs).len() implies staged_from_some_job(
            jobs,
            #[trigger] staging_plan(jobs)[k],
        ) by {
            if k < prev.len() {
                assert(staged_from_some_job(jobs.drop_last(), prev[k]));
                let i = choose|i: int|
                    0 <= i < jobs.drop_last().len() && needs_staging(#[trigger] jobs.drop_last()[i])
                        && prev[k] == staged_copy(jobs.drop_last()[i]);
                assert(jobs[i] == jobs.drop_last()[i]);
                assert(staging_plan(jobs)[k] == staged_copy(jobs[i]));
            } else {
                let i = jobs.len() - 1;
                assert(needs_staging(jobs[i]) && staging_plan(jobs)[k] == staged_copy(jobs[i]));
            }
        }
        assert forall|i: int| 0 <= i < jobs.len() && needs_staging(#[trigger] jobs[i]) implies
            staging_plan(jobs).contains(staged_copy(jobs[i])) by {
            if i < jobs.len() - 1 {
                assert(jobs.drop_last()[i] == jobs[i]);
                assert(needs_staging(jobs.drop_last()[i]));
                assert(prev.contains(staged_copy(jobs[i])));
                let k = choose|k: int| 0 <= k < prev.len() && prev[k] == staged_copy(jobs[i]);
                assert(staging_plan(jobs)[k] == staged_copy(jobs[i]));
            } else {
                let k = staging_plan(jobs).len() - 1;
                assert(staging_plan(jobs)[k] == staged_copy(jobs[i]));
            }
        }
    }
}

/// The ordered staging plan of the batch: one planned `png` re-encoding per
/// job whose format is Bc3 and whose source is not already a `png`. The
/// caller performs the conversions in order, stopping at the first failure.
pub fn generate_pngs_if_required(jobs: &Vec<ImageFileWithFormat>) -> (r: Vec<PngConversion>)
    ensures
        png_views(r@) == staging_plan(job_views(jobs@)),
{
    let mut r: Vec<PngConversion> = Vec::new();
    let mut i: usize = 0;
    while i < jobs.len()
        invariant
            i <= jobs@.len(),
            png_views(r@) =~= staging_plan(job_views(jobs@).subrange(0, i as int)),
        decreases jobs@.len() - i,
    {
        let ghost pre = job_views(jobs@).subrange(0, i as int);
        let ghost cur = job_views(jobs@).subrange(0, i + 1 as int);
        proof {
            assert(cur.drop_last() =~= pre);
            assert(cur.last() == jobs@[i as int]@);
        }
        let job = &jobs[i];
        let is_bc3 = match job.image_format {
            ImageFileFormat::Bc3 => true,
            _ => false,
        };
        if is_bc3 && !str_eq(job.image_file.file_extension.as_str(), "png") {
            let conv = PngConversion {
                source: job.image_file.file_path.clone(),
                target: path_with_extension(job.image_file.file_path.as_str(), "png"),
            };
            proof {
                assert(needs_staging(jobs@[i as int]@));
                assert(conv@ == staged_copy(jobs@[i as int]@));
            }
            let ghost old_r = r@;
            r.push(conv);
            proof {
                assert(png_views(r@) =~= png_views(old_r) + seq![conv@]);
            }
        } else {
            proof {
                assert(!needs_staging(jobs@[i as int]@));
            }
        }
        i += 1;
    }
    proof {
        assert(job_views(jobs@).subrange(0, jobs@.len() as int) =~= job_views(jobs@));
    }
    r
}

} // verus!
