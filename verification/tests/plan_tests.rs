use tif2dds::classify::collect_image_files;
use tif2dds::classify::CandidateFile;
use tif2dds::format::{
    get_nvtools_arguments, get_nvtools_format, prompt_format_choices, ImageFileFormat,
};
use tif2dds::plan::{build_args, generate_command_args};
use tif2dds::resolve::{count_unresolved, prepare_files_with_format};
use tif2dds::stage::generate_pngs_if_required;

fn candidates(paths: &[&str]) -> Vec<CandidateFile> {
    paths
        .iter()
        .map(|p| CandidateFile { file_path: p.to_string(), is_regular_file: true })
        .collect()
}

#[test]
fn format_lookup_matches_the_fixed_table() {
    assert_eq!(get_nvtools_format("ao"), ImageFileFormat::Bc4);
    assert_eq!(get_nvtools_format("rg"), ImageFileFormat::Bc4);
    assert_eq!(get_nvtools_format("mt"), ImageFileFormat::Bc4);
    assert_eq!(get_nvtools_format("hm"), ImageFileFormat::Bc4);
    assert_eq!(get_nvtools_format("lm"), ImageFileFormat::Bc4);
    assert_eq!(get_nvtools_format("nm"), ImageFileFormat::Bc5);
    assert_eq!(get_nvtools_format("dirt"), ImageFileFormat::Bc1);
}

#[test]
fn extra_arguments_match_the_fixed_table() {
    for hint in ["ao", "rg", "mt", "hm", "lm", "nm"] {
        assert_eq!(get_nvtools_arguments(hint), vec!["--no-mip-gamma-correct".to_string()]);
    }
    assert_eq!(get_nvtools_arguments("dirt"), Vec::<String>::new());
}

#[test]
fn format_tags_match_the_tool_names() {
    assert_eq!(ImageFileFormat::Bc1.as_str(), "bc1");
    assert_eq!(ImageFileFormat::Bc3.as_str(), "bc3");
    assert_eq!(ImageFileFormat::Bc4.as_str(), "bc4");
    assert_eq!(ImageFileFormat::Bc5.as_str(), "bc5");
}

#[test]
fn unhinted_files_are_offered_bc1_then_bc3() {
    let choices = prompt_format_choices();
    assert_eq!(choices, vec![ImageFileFormat::Bc1, ImageFileFormat::Bc3]);
}

#[test]
fn hints_resolve_without_consuming_decisions() {
    let files = collect_image_files(&candidates(&["a_nm.tif", "b_dirt.png", "c_ao.tif"]));
    assert_eq!(count_unresolved(&files), 0);
    let jobs = prepare_files_with_format(&files, &Vec::new());
    assert_eq!(jobs.len(), 3);
    assert_eq!(jobs[0].image_format, ImageFileFormat::Bc5);
    assert_eq!(jobs[0].extra_arguments, vec!["--no-mip-gamma-correct".to_string()]);
    assert_eq!(jobs[1].image_format, ImageFileFormat::Bc1);
    assert!(jobs[1].extra_arguments.is_empty());
    assert_eq!(jobs[2].image_format, ImageFileFormat::Bc4);
}

#[test]
fn decisions_are_used_verbatim_in_batch_order() {
    let files = collect_image_files(&candidates(&["one.tif", "two_nm.tif", "three.png"]));
    assert_eq!(count_unresolved(&files), 2);
    let decisions = vec![ImageFileFormat::Bc3, ImageFileFormat::Bc1];
    let jobs = prepare_files_with_format(&files, &decisions);
    assert_eq!(jobs[0].image_format, ImageFileFormat::Bc3);
    assert!(jobs[0].extra_arguments.is_empty());
    assert_eq!(jobs[1].image_format, ImageFileFormat::Bc5);
    assert_eq!(jobs[2].image_format, ImageFileFormat::Bc1);
    assert!(jobs[2].extra_arguments.is_empty());
}

#[test]
fn staging_happens_exactly_for_bc3_non_png_sources() {
    let files = collect_image_files(&candidates(&["a.tif", "b.png", "c.tif", "d_nm.tif"]));
    let decisions = vec![ImageFileFormat::Bc3, ImageFileFormat::Bc3, ImageFileFormat::Bc1];
    let jobs = prepare_files_with_format(&files, &decisions);
    let staged = generate_pngs_if_required(&jobs);
    assert_eq!(staged.len(), 1);
    assert_eq!(staged[0].source, "a.tif");
    assert_eq!(staged[0].target, "a.png");
}

#[test]
fn staging_keeps_the_directory_prefix() {
    let files = collect_image_files(&candidates(&["C:\\tex\\walls\\stone.tif"]));
    let jobs = prepare_files_with_format(&files, &vec![ImageFileFormat::Bc3]);
    let staged = generate_pngs_if_required(&jobs);
    assert_eq!(staged.len(), 1);
    assert_eq!(staged[0].target, "C:\\tex\\walls\\stone.png");
}

#[test]
fn command_vector_layout_is_exact() {
    let files = collect_image_files(&candidates(&["rock_nm.tif"]));
    let jobs = prepare_files_with_format(&files, &Vec::new());
    let plans = generate_command_args(&jobs);
    assert_eq!(plans.len(), 1);
    assert_eq!(
        plans[0],
        vec![
            "--format",
            "bc5",
            "--quality",
            "normal",
            "--mips",
            "--mip-filter",
            "box",
            "--zcmp",
            "5",
            "--output",
            "rock_nm.dds",
            "--no-mip-gamma-correct",
            "rock_nm.tif",
        ]
    );
}

#[test]
fn output_flag_stands_just_before_output_and_input_is_last() {
    let files = collect_image_files(&candidates(&["a_ao.tif", "b.tif"]));
    let jobs = prepare_files_with_format(&files, &vec![ImageFileFormat::Bc3]);
    let plans = generate_command_args(&jobs);
    for args in &plans {
        let pos = args.iter().position(|a| a == "--output").unwrap();
        assert!(args[pos + 1].ends_with(".dds"));
        assert!(!args.last().unwrap().starts_with("--"));
    }
    assert_eq!(plans[0].last().unwrap(), "a_ao.tif");
    assert_eq!(plans[1].last().unwrap(), "b.png");
}

#[test]
fn hinted_input_path_is_normalized_to_the_lowercased_extension() {
    let files = collect_image_files(&candidates(&["maps/brick_hm.TIF"]));
    let jobs = prepare_files_with_format(&files, &Vec::new());
    let plans = generate_command_args(&jobs);
    assert_eq!(plans[0].last().unwrap(), "maps/brick_hm.tif");
    assert_eq!(plans[0][10], "maps/brick_hm.dds");
}

#[test]
fn unhinted_bc1_reads_the_normalized_original_path() {
    let files = collect_image_files(&candidates(&["photo.tif", "scan.TIF"]));
    let decisions = vec![ImageFileFormat::Bc1, ImageFileFormat::Bc1];
    let jobs = prepare_files_with_format(&files, &decisions);
    let plans = generate_command_args(&jobs);
    assert_eq!(plans[0].last().unwrap(), "photo.tif");
    assert_eq!(plans[0][1], "bc1");
    assert_eq!(plans[1].last().unwrap(), "scan.tif");
}

#[test]
fn build_args_inserts_extras_between_output_and_input() {
    let extras = vec!["--x".to_string(), "--y".to_string()];
    let args = build_args(&ImageFileFormat::Bc4, "normal", "box", "5", "o.dds", "i.tif", &extras);
    assert_eq!(
        args,
        vec![
            "--format", "bc4", "--quality", "normal", "--mips", "--mip-filter", "box", "--zcmp",
            "5", "--output", "o.dds", "--x", "--y", "i.tif",
        ]
    );
}
