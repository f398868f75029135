use tif2dds::classify::{classify_batch, collect_image_files, CandidateFile, ImageFile, InputError};

fn candidate(path: &str, is_regular_file: bool) -> CandidateFile {
    CandidateFile { file_path: path.to_string(), is_regular_file }
}

fn collect(paths: &[(&str, bool)]) -> Vec<ImageFile> {
    let candidates: Vec<CandidateFile> =
        paths.iter().map(|(p, ok)| candidate(p, *ok)).collect();
    collect_image_files(&candidates)
}

#[test]
fn unsupported_extension_is_excluded() {
    let files = collect(&[("notes.txt", true), ("photo.jpg", true), ("tex.tif", true)]);
    assert_eq!(files.len(), 1);
    assert_eq!(files[0].file_path, "tex.tif");
}

#[test]
fn missing_file_is_excluded() {
    let files = collect(&[("gone.tif", false), ("here.png", true)]);
    assert_eq!(files.len(), 1);
    assert_eq!(files[0].file_path, "here.png");
}

#[test]
fn extension_is_lowercased() {
    let files = collect(&[("a.TIF", true), ("b.Png", true)]);
    assert_eq!(files.len(), 2);
    assert_eq!(files[0].file_extension, "tif");
    assert_eq!(files[1].file_extension, "png");
}

#[test]
fn path_without_extension_is_excluded() {
    let files = collect(&[("noext", true), ("dir.v2/file", true), (".tif", true)]);
    assert_eq!(files.len(), 0);
}

#[test]
fn recognized_hint_is_extracted() {
    let files = collect(&[("rock_ao.tif", true), ("brick_nm.png", true), ("mask_dirt.tif", true)]);
    assert_eq!(files.len(), 3);
    assert_eq!(files[0].file_suffix, Some("ao".to_string()));
    assert_eq!(files[1].file_suffix, Some("nm".to_string()));
    assert_eq!(files[2].file_suffix, Some("dirt".to_string()));
}

#[test]
fn unrecognized_trailing_segment_gives_no_hint() {
    let files = collect(&[("rock_zz.tif", true), ("plain.tif", true)]);
    assert_eq!(files.len(), 2);
    assert_eq!(files[0].file_suffix, None);
    assert_eq!(files[1].file_suffix, None);
}

#[test]
fn stem_without_underscore_is_the_whole_candidate() {
    // The whole stem is the candidate token when there is no `_`,
    // so a bare recognized token still counts as a hint.
    let files = collect(&[("dirt.tif", true), ("ao.png", true), ("rock.tif", true)]);
    assert_eq!(files.len(), 3);
    assert_eq!(files[0].file_suffix, Some("dirt".to_string()));
    assert_eq!(files[1].file_suffix, Some("ao".to_string()));
    assert_eq!(files[2].file_suffix, None);
}

#[test]
fn stem_ending_in_underscore_gives_no_hint() {
    let files = collect(&[("rock_.tif", true)]);
    assert_eq!(files.len(), 1);
    assert_eq!(files[0].file_suffix, None);
}

#[test]
fn hint_is_taken_from_file_name_not_directory() {
    let files = collect(&[("maps_nm/rock.tif", true), ("maps\\brick_hm.tif", true)]);
    assert_eq!(files.len(), 2);
    assert_eq!(files[0].file_suffix, None);
    assert_eq!(files[1].file_suffix, Some("hm".to_string()));
}

#[test]
fn empty_batch_is_a_fatal_input_error() {
    let r = classify_batch(&Vec::new());
    assert!(matches!(r, Err(InputError::EmptyBatch)));
}

#[test]
fn batch_with_no_supported_file_is_a_fatal_input_error() {
    let candidates = vec![candidate("a.txt", true), candidate("b.tif", false)];
    let r = classify_batch(&candidates);
    assert!(matches!(r, Err(InputError::NoSupportedFiles)));
}

#[test]
fn classify_batch_keeps_input_order() {
    let candidates = vec![
        candidate("z.tif", true),
        candidate("skip.doc", true),
        candidate("a.png", true),
    ];
    let files = classify_batch(&candidates).unwrap();
    assert_eq!(files.len(), 2);
    assert_eq!(files[0].file_path, "z.tif");
    assert_eq!(files[1].file_path, "a.png");
}
