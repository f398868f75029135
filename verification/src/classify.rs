//! Classification of candidate paths: keep the existing regular files whose
//! extension (case-insensitively) is a supported source extension, and
//! extract the optional hint token from the file-name stem.
use vstd::prelude::*;

use crate::format::{is_recognized_hint, is_valid_suffix};
use crate::pathname::{extension_of, file_stem_of, path_extension, stem_trailing_segment, trailing_segment};
use crate::text::{eq_lowered, lower};

verus! {

/// A path handed in by the caller, together with whether it names an
/// existing regular file (the one fact only the filesystem can supply).
pub struct CandidateFile {
    pub file_path: String,
    pub is_regular_file: bool,
}

pub ghost struct CandidateFileView {
    pub path: Seq<char>,
    pub is_regular_file: bool,
}

impl View for CandidateFile {
    type V = CandidateFileView;

    open spec fn view(&self) -> CandidateFileView {
        CandidateFileView { path: self.file_path@, is_regular_file: self.is_regular_file }
    }
}

/// A file that survived classification: its path, its lowercased extension,
/// and its recognized hint token, if the stem carries one.
pub struct ImageFile {
    pub file_path: String,
    pub file_extension: String,
    pub file_suffix: Option<String>,
}

pub ghost struct ImageFileView {
    pub path: Seq<char>,
    pub extension: Seq<char>,
    pub suffix: Option<Seq<char>>,
}

impl View for ImageFile {
    type V = ImageFileView;

    open spec fn view(&self) -> ImageFileView {
        ImageFileView {
            path: self.file_path@,
            extension: self.file_extension@,
            suffix: match self.file_suffix {
                Option::Some(s) => Option::Some(s@),
                Option::None => Option::None,
            },
        }
    }
}

/// The two supported source extensions, up to ASCII case.
pub open spec fn is_supported_extension(ext: Seq<char>) -> bool {
    lower(ext) == "tif"@ || lower(ext) == "png"@
}

/// Whether a candidate survives classification: it must be an existing
/// regular file and its extension must be supported.
pub open spec fn candidate_accepted(c: CandidateFileView) -> bool {
    c.is_regular_file && match extension_of(c.path) {
        Option::Some(e) => is_supported_extension(e),
        Option::None => false,
    }
}

/// The classified record of an accepted path: the lowercased extension and
/// the trailing stem segment, kept only when it is a recognized hint.
pub open spec fn classified_file(path: Seq<char>) -> ImageFileView
    recommends
        extension_of(path) is Some,
{
    let cand = trailing_segment(file_stem_of(path));
    ImageFileView {
        path: path,
        extension: lower(extension_of(path)->Some_0),
        suffix: if is_recognized_hint(cand) {
            Option::Some(cand)
        } else {
            Option::None
        },
    }
}

/// The classified subset of a candidate list, in input order.
pub open spec fn classified_files(cands: Seq<CandidateFileView>) -> Seq<ImageFileView>
    decreases cands.len(),
{
    if cands.len() == 0 {
        Seq::<ImageFileView>::empty()
    } else {
        classified_files(cands.drop_last()) + (if candidate_accepted(cands.last()) {
            seq![classified_file(cands.last().path)]
        } else {
            Seq::<ImageFileView>::empty()
        })
    }
}

/// Internal consistency of a classified file: the stored extension is the
/// lowercased, supported extension of the path, and a stored suffix is a
/// recognized hint, namely the trailing stem segment of the path.
pub open spec fn image_file_wf(f: ImageFileView) -> bool {
    &&& match extension_of(f.path) {
        Option::Some(e) => f.extension == lower(e) && is_supported_extension(e),
        Option::None => false,
    }
    &&& match f.suffix {
        Option::Some(s) => is_recognized_hint(s) && s == trailing_segment(file_stem_of(f.path)),
        Option::None => true,
    }
}

pub open spec fn candidate_views(s: Seq<CandidateFile>) -> Seq<CandidateFileView> {
    s.map_values(|c: CandidateFile| c@)
}

pub open spec fn image_file_views(s: Seq<ImageFile>) -> Seq<ImageFileView> {
    s.map_values(|f: ImageFile| f@)
}

/// Only accepted candidates ever appear in the classified set: every entry
/// is the classified record of some existing, supported input file, and is
/// internally consistent.
pub proof fn lemma_classified_only_accepted(cands: Seq<CandidateFileView>)
    ensures
        forall|k: int|
            0 <= k < classified_files(cands).len() ==> exists|i: int|
                0 <= i < cands.len() && candidate_accepted(cands[i])
                    && #[trigger] classified_files(cands)[k] == classified_file(cands[i].path),
        forall|k: int|
            0 <= k < classified_files(cands).len() ==> image_file_wf(
                #[trigger] classified_files(cands)[k],
            ),
    decreases cands.len(),
{
    if cands.len() > 0 {
        lemma_classified_only_accepted(cands.drop_last());
        let prev = classified_files(cands.drop_last());
        assert forall|k: int| 0 <= k < classified_files(cands).len() implies exists|i: int|
            0 <= i < cands.len() && candidate_accepted(cands[i])
                && #[trigger] classified_files(cands)[k] == classified_file(cands[i].path) by {
            if k < prev.len() {
                let i = choose|i: int|
                    0 <= i < cands.drop_last().len() && candidate_accepted(cands.drop_last()[i])
                        && prev[k] == classified_file(cands.drop_last()[i].path);
                assert(cands[i] == cands.drop_last()[i]);
                assert(candidate_accepted(cands[i]) && classified_files(cands)[k]
                    == classified_file(cands[i].path));
            } else {
                let i = cands.len() - 1;
                assert(candidate_accepted(cands[i]) && classified_files(cands)[k]
                    == classified_file(cands[i].path));
            }
        }
        assert forall|k: int| 0 <= k < classified_files(cands).len() implies image_file_wf(
            #[trigger] classified_files(cands)[k],
        ) by {
            if k < prev.len() {
                assert(classified_files(cands)[k] == prev[k]);
            } else {
                assert(candidate_accepted(cands.last()));
            }
        }
    }
}

/// The subset of the candidates that are existing regular files with a
/// supported extension, each with its lowercased extension and recognized
/// hint token, in input order.
pub fn collect_image_files(args: &Vec<CandidateFile>) -> (r: Vec<ImageFile>)
    ensures
        image_file_views(r@) == classified_files(candidate_views(args@)),
        forall|i: int| 0 <= i < r@.len() ==> image_file_wf(#[trigger] r@[i]@),
{
    let mut r: Vec<ImageFile> = Vec::new();
    let mut i: usize = 0;
    while i < args.len()
        invariant
            i <= args@.len(),
            image_file_views(r@) =~= classified_files(candidate_views(args@).subrange(0, i as int)),
        decreases args@.len() - i,
    {
        let ghost pre = candidate_views(args@).subrange(0, i as int);
        let ghost cur = candidate_views(args@).subrange(0, i + 1 as int);
        proof {
            assert(cur.drop_last() =~= pre);
            assert(cur.last() == args@[i as int]@);
        }
        let c = &args[i];
        if c.is_regular_file {
            match path_extension(c.file_path.as_str()) {
                Option::Some(ext) => {
                    let stored: Option<&str> = if eq_lowered(ext.as_str(), "tif") {
                        Option::Some("tif")
                    } else if eq_lowered(ext.as_str(), "png") {
                        Option::Some("png")
                    } else {
                        Option::None
                    };
                    match stored {
                        Option::Some(se) => {
                            let cand = stem_trailing_segment(c.file_path.as_str());
                            let file_suffix = if is_valid_suffix(cand.as_str()) {
                                Option::Some(cand)
                            } else {
                                Option::None
                            };
                            let f = ImageFile {
                                file_path: c.file_path.clone(),
                                file_extension: String::from_str(se),
                                file_suffix,
                            };
                            proof {
                                assert(candidate_accepted(args@[i as int]@));
                                assert(f@ == classified_file(args@[i as int]@.path));
                            }
                            let ghost old_r = r@;
                            r.push(f);
                            proof {
                                assert(image_file_views(r@) =~= image_file_views(old_r)
                                    + seq![f@]);
                            }
                        },
                        Option::None => {
                            proof {
                                assert(!candidate_accepted(args@[i as int]@));
                            }
                        },
                    }
                },
                Option::None => {
                    proof {
                        assert(!candidate_accepted(args@[i as int]@));
                    }
                },
            }
        } else {
            proof {
                assert(!candidate_accepted(args@[i as int]@));
            }
        }
        i += 1;
    }
    proof {
        assert(candidate_views(args@).subrange(0, args@.len() as int) =~= candidate_views(args@));
        lemma_classified_only_accepted(candidate_views(args@));
        assert forall|k: int| 0 <= k < r@.len() implies image_file_wf(#[trigger] r@[k]@) by {
            assert(image_file_views(r@)[k] == r@[k]@);
        }
    }
    r
}

/// A fatal input error: nothing was handed in, or nothing survived
/// classification.
#[derive(Debug, Clone, Copy, PartialEq, Eq, Structural)]
pub enum InputError {
    EmptyBatch,
    NoSupportedFiles,
}

/// Classification of a whole batch: an empty argument list and a batch in
/// which no file survives classification are fatal input errors; otherwise
/// the classified set is returned, in input order.
pub fn classify_batch(candidates: &Vec<CandidateFile>) -> (r: Result<Vec<ImageFile>, InputError>)
    ensures
        match r {
            Result::Ok(files) => candidates@.len() > 0 && image_file_views(files@)
                == classified_files(candidate_views(candidates@)) && files@.len() > 0 && (forall|
                i: int|
                0 <= i < files@.len() ==> image_file_wf(#[trigger] files@[i]@)),
            Result::Err(e) => match e {
                InputError::EmptyBatch => candidates@.len() == 0,
                InputError::NoSupportedFiles => candidates@.len() > 0 && classified_files(
                    candidate_views(candidates@),
                ).len() == 0,
            },
        },
{
    if candidates.len() == 0 {
        return Result::Err(InputError::EmptyBatch);
    }
    let files = collect_image_files(candidates);
    if files.len() == 0 {
        return Result::Err(InputError::NoSupportedFiles);
    }
    Result::Ok(files)
}

} // verus!
