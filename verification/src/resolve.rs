//! Format resolution: a classified file with a hint token gets its format
//! and extra flags from the fixed lookup; one without a hint gets the next
//! of the caller-supplied decisions (one per unhinted file, in batch
//! order), verbatim, with no extra flags.
use vstd::prelude::*;

use crate::classify::{classified_file, image_file_views, image_file_wf, ImageFile, ImageFileView};
use crate::format::{get_nvtools_arguments, get_nvtools_format, hint_extra_args, hint_format, is_recognized_hint, ImageFileFormat};
use crate::pathname::{file_stem_of, trailing_segment};

verus! {

/// A classified file together with its resolved format and extra flags.
pub struct ImageFileWithFormat {
    pub image_file: ImageFile,
    pub image_format: ImageFileFormat,
    pub extra_arguments: Vec<String>,
}

pub ghost struct JobView {
    pub file: ImageFileView,
    pub format: ImageFileFormat,
    pub extra_arguments: Seq<Seq<char>>,
}

impl View for ImageFileWithFormat {
    type V = JobView;

    open spec fn view(&self) -> JobView {
        JobView {
            file: self.image_file@,
            format: self.image_format,
            extra_arguments: self.extra_arguments.deep_view(),
        }
    }
}

pub open spec fn job_views(s: Seq<ImageFileWithFormat>) -> Seq<JobView> {
    s.map_values(|j: ImageFileWithFormat| j@)
}

/// How many of the first `i` files carry no hint — equally, which decision
/// index the `i`-th file would consume.
pub open spec fn unresolved_before(files: Seq<ImageFileView>, i: int) -> int
    decreases i,
{
    if i <= 0 {
        0
    } else {
        unresolved_before(files, i - 1) + (if files[i - 1].suffix is None {
            1int
        } else {
            0int
        })
    }
}

/// The job a single file resolves to, where `k` is the index of the
/// decision it would consume were it unhinted.
pub open spec fn resolved_job(f: ImageFileView, decisions: Seq<ImageFileFormat>, k: int) -> JobView {
    match f.suffix {
        Option::Some(s) => JobView {
            file: f,
            format: hint_format(s),
            extra_arguments: hint_extra_args(s),
        },
        Option::None => JobView { file: f, format: decisions[k], extra_arguments: Seq::empty() },
    }
}

/// A classified file whose stem's trailing segment is a recognized hint
/// resolves the same way whatever decisions are on offer: its format and
/// extra flags come from the fixed lookup alone.
pub proof fn lemma_hinted_resolution_is_deterministic(
    path: Seq<char>,
    decisions1: Seq<ImageFileFormat>,
    k1: int,
    decisions2: Seq<ImageFileFormat>,
    k2: int,
)
    requires
        is_recognized_hint(trailing_segment(file_stem_of(path))),
    ensures
        resolved_job(classified_file(path), decisions1, k1) == resolved_job(
            classified_file(path),
            decisions2,
            k2,
        ),
        resolved_job(classified_file(path), decisions1, k1).format == hint_format(
            trailing_segment(file_stem_of(path)),
        ),
        resolved_job(classified_file(path), decisions1, k1).extra_arguments == hint_extra_args(
            trailing_segment(file_stem_of(path)),
        ),
{
}

/// Decisions are consumed one per unhinted file, in batch order: a later
/// file never reuses the decision index of an earlier unhinted one.
pub proof fn lemma_one_decision_per_unhinted_file(files: Seq<ImageFileView>, i: int, j: int)
    requires
        0 <= i < j <= files.len(),
        files[i].suffix is None,
    ensures
        unresolved_before(files, i) < unresolved_before(files, j),
    decreases j,
{
    if j > i + 1 {
        lemma_one_decision_per_unhinted_file(files, i, j - 1);
    }
}

pub proof fn lemma_unresolved_before_monotonic(files: Seq<ImageFileView>, i: int, j: int)
    requires
        0 <= i <= j,
    ensures
        unresolved_before(files, i) <= unresolved_before(files, j),
    decreases j,
{
    if i < j {
        lemma_unresolved_before_monotonic(files, i, j - 1);
    }
}

/// How many files of the batch carry no hint, and so will each need one
/// external format decision.
pub fn count_unresolved(files: &Vec<ImageFile>) -> (n: usize)
    ensures
        n as int == unresolved_before(image_file_views(files@), files@.len() as int),
{
    let mut n: usize = 0;
    let mut i: usize = 0;
    while i < files.len()
        invariant
            i <= files@.len(),
            n <= i,
            n as int == unresolved_before(image_file_views(files@), i as int),
        decreases files@.len() - i,
    {
        if files[i].file_suffix.is_none() {
            n += 1;
        }
        i += 1;
    }
    n
}

/// Resolution of a whole batch. Files with a hint resolve through the fixed
/// lookup; the `k`-th unhinted file (in batch order) takes `decisions[k]`
/// verbatim and no extra flags.
pub fn prepare_files_with_format(
    files: &Vec<ImageFile>,
    decisions: &Vec<ImageFileFormat>,
) -> (r: Vec<ImageFileWithFormat>)
    requires
        forall|i: int| 0 <= i < files@.len() ==> image_file_wf(#[trigger] files@[i]@),
        decisions@.len() == unresolved_before(image_file_views(files@), files@.len() as int),
    ensures
        r@.len() == files@.len(),
        forall|i: int|
            0 <= i < files@.len() ==> #[trigger] r@[i]@ == resolved_job(
                files@[i]@,
                decisions@,
                unresolved_before(image_file_views(files@), i),
            ),
{
    let ghost views = image_file_views(files@);
    let mut r: Vec<ImageFileWithFormat> = Vec::new();
    let mut d: usize = 0;
    let mut i: usize = 0;
    while i < files.len()
        invariant
            i <= files@.len(),
            r@.len() == i,
            d as int == unresolved_before(views, i as int),
            views == image_file_views(files@),
            forall|k: int| 0 <= k < files@.len() ==> image_file_wf(#[trigger] files@[k]@),
            decisions@.len() == unresolved_before(views, files@.len() as int),
            forall|k: int|
                0 <= k < i ==> #[trigger] r@[k]@ == resolved_job(
                    files@[k]@,
                    decisions@,
                    unresolved_before(views, k),
                ),
        decreases files@.len() - i,
    {
        let file = &files[i];
        let copied = ImageFile {
            file_path: file.file_path.clone(),
            file_extension: file.file_extension.clone(),
            file_suffix: match &file.file_suffix {
                Option::Some(s) => Option::Some(s.clone()),
                Option::None => Option::None,
            },
        };
        proof {
            assert(copied@ == files@[i as int]@);
            assert(views[i as int] == files@[i as int]@);
        }
        let job = match &file.file_suffix {
            Option::Some(s) => ImageFileWithFormat {
                image_file: copied,
                image_format: get_nvtools_format(s.as_str()),
                extra_arguments: get_nvtools_arguments(s.as_str()),
            },
            Option::None => {
                proof {
                    assert(views[i as int].suffix is None);
                    assert(unresolved_before(views, i + 1) == d + 1);
                    lemma_unresolved_before_monotonic(views, i + 1, files@.len() as int);
                }
                let n_dec: usize = decisions.len();
                proof {
                    assert(d < n_dec);
                }
                let fmt = decisions[d];
                d += 1;
                let job = ImageFileWithFormat {
                    image_file: copied,
                    image_format: fmt,
                    extra_arguments: Vec::new(),
                };
                proof {
                    assert(job.extra_arguments.deep_view() =~= Seq::<Seq<char>>::empty());
                }
                job
            },
        };
        proof {
            assert(job@ == resolved_job(files@[i as int]@, decisions@, unresolved_before(views, i as int)));
        }
        r.push(job);
        i += 1;
    }
    r
}

} // verus!
