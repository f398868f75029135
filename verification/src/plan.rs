//! Command-plan generation: one fully-formed argument vector per resolved
//! job, in batch order. The flag layout is fixed: the format flag, the
//! fixed quality/mip/compression flags, `--output` immediately followed by
//! the output path, the per-job extra flags, and the input path last.
use vstd::prelude::*;

use crate::format::{format_tag, ImageFileFormat};
use crate::pathname::{path_with_extension, with_extension};
use crate::resolve::{job_views, ImageFileWithFormat, JobView};
use crate::stage::needs_staging;
use crate::text::str_eq;

verus! {

/// The argument vector for one invocation of the external tool.
pub open spec fn spec_build_args(
    tag: Seq<char>,
    quality: Seq<char>,
    mip_filter: Seq<char>,
    zcmp: Seq<char>,
    output: Seq<char>,
    input: Seq<char>,
    extra: Seq<Seq<char>>,
) -> Seq<Seq<char>> {
    seq![
        "--format"@,
        tag,
        "--quality"@,
        quality,
        "--mips"@,
        "--mip-filter"@,
        mip_filter,
        "--zcmp"@,
        zcmp,
        "--output"@,
        output,
    ] + extra + seq![input]
}

/// The path the external tool reads for a job: the staged intermediate when
/// one exists for the job, else the original path with its extension
/// normalized to the classified (lowercased) extension.
pub open spec fn job_input_path(j: JobView) -> Seq<char> {
    if needs_staging(j) {
        with_extension(j.file.path, "png"@)
    } else {
        with_extension(j.file.path, j.file.extension)
    }
}

/// The path the external tool writes for a job.
pub open spec fn job_output_path(j: JobView) -> Seq<char> {
    with_extension(j.file.path, "dds"@)
}

/// The full argument vector of a job.
pub open spec fn job_command(j: JobView) -> Seq<Seq<char>> {
    spec_build_args(
        format_tag(j.format),
        "normal"@,
        "box"@,
        "5"@,
        job_output_path(j),
        job_input_path(j),
        j.extra_arguments,
    )
}

/// The command plan of a whole batch, in batch order.
pub open spec fn command_plan(jobs: Seq<JobView>) -> Seq<Seq<Seq<char>>> {
    jobs.map_values(|j: JobView| job_command(j))
}

/// The fixed flag layout: `--output` stands immediately before the output
/// path, the extra flags follow it, and the bare input path is always the
/// final argument.
pub proof fn lemma_command_layout(j: JobView)
    ensures
        job_command(j).len() == 12 + j.extra_arguments.len(),
        job_command(j)[9] == "--output"@,
        job_command(j)[10] == job_output_path(j),
        job_command(j).last() == job_input_path(j),
        forall|k: int|
            0 <= k < j.extra_arguments.len() ==> job_command(j)[11 + k] == j.extra_arguments[k],
{
}

/// One argument vector, in the fixed order the external tool expects.
pub fn build_args(
    format: &ImageFileFormat,
    quality: &str,
    mip_filter: &str,
    zcmp: &str,
    output: &str,
    input: &str,
    extra_args: &Vec<String>,
) -> (r: Vec<String>)
    ensures
        r.deep_view() == spec_build_args(
            format_tag(*format),
            quality@,
            mip_filter@,
            zcmp@,
            output@,
            input@,
            extra_args.deep_view(),
        ),
{
    let mut args: Vec<String> = Vec::new();
    args.push(String::from_str("--format"));
    args.push(String::from_str(format.as_str()));
    args.push(String::from_str("--quality"));
    args.push(String::from_str(quality));
    args.push(String::from_str("--mips"));
    args.push(String::from_str("--mip-filter"));
    args.push(String::from_str(mip_filter));
    args.push(String::from_str("--zcmp"));
    args.push(String::from_str(zcmp));
    args.push(String::from_str("--output"));
    args.push(String::from_str(output));
    let mut i: usize = 0;
    while i < extra_args.len()
        invariant
            i <= extra_args@.len(),
            args.deep_view() =~= seq![
                "--format"@,
                format_tag(*format),
                "--quality"@,
                quality@,
                "--mips"@,
                "--mip-filter"@,
                mip_filter@,
                "--zcmp"@,
                zcmp@,
                "--output"@,
                output@,
            ] + extra_args.deep_view().subrange(0, i as int),
        decreases extra_args@.len() - i,
    {
        let ghost old_args = args.deep_view();
        args.push(extra_args[i].clone());
        proof {
            assert(args.deep_view() =~= old_args + seq![extra_args@[i as int]@]);
            assert(extra_args.deep_view().subrange(0, i + 1 as int) =~= extra_args.deep_view()
                .subrange(0, i as int) + seq![extra_args@[i as int]@]);
        }
        i += 1;
    }
    args.push(String::from_str(input));
    proof {
        assert(extra_args.deep_view().subrange(0, extra_args@.len() as int) =~= extra_args.deep_view());
        assert(args.deep_view() =~= spec_build_args(
            format_tag(*format),
            quality@,
            mip_filter@,
            zcmp@,
            output@,
            input@,
            extra_args.deep_view(),
        ));
    }
    args
}

pub open spec fn plan_views(s: Seq<Vec<String>>) -> Seq<Seq<Seq<char>>> {
    s.map_values(|v: Vec<String>| v.deep_view())
}

/// The command plan of the batch: one argument vector per job, in batch
/// order, each laid out as `job_command` describes.
pub fn generate_command_args(jobs: &Vec<ImageFileWithFormat>) -> (r: Vec<Vec<String>>)
    ensures
        plan_views(r@) == command_plan(job_views(jobs@)),
{
    let mut r: Vec<Vec<String>> = Vec::new();
    let mut i: usize = 0;
    while i < jobs.len()
        invariant
            i <= jobs@.len(),
            plan_views(r@) =~= command_plan(job_views(jobs@).subrange(0, i as int)),
        decreases jobs@.len() - i,
    {
        let job = &jobs[i];
        let is_bc3 = match job.image_format {
            ImageFileFormat::Bc3 => true,
            _ => false,
        };
        let input: String = if is_bc3 && !str_eq(job.image_file.file_extension.as_str(), "png") {
            path_with_extension(job.image_file.file_path.as_str(), "png")
        } else {
            path_with_extension(
                job.image_file.file_path.as_str(),
                job.image_file.file_extension.as_str(),
            )
        };
        let output = path_with_extension(job.image_file.file_path.as_str(), "dds");
        proof {
            assert(input@ == job_input_path(jobs@[i as int]@));
            assert(output@ == job_output_path(jobs@[i as int]@));
        }
        let args = build_args(
            &job.image_format,
            "normal",
            "box",
            "5",
            output.as_str(),
            input.as_str(),
            &job.extra_arguments,
        );
        proof {
            assert(args.deep_view() == job_command(jobs@[i as int]@));
        }
        let ghost old_r = r@;
        r.push(args);
        proof {
            assert(plan_views(r@) =~= plan_views(old_r) + seq![args.deep_view()]);
            assert(command_plan(job_views(jobs@).subrange(0, i + 1 as int)) =~= command_plan(
                job_views(jobs@).subrange(0, i as int),
            ) + seq![job_command(jobs@[i as int]@)]);
        }
        i += 1;
    }
    proof {
        assert(job_views(jobs@).subrange(0, jobs@.len() as int) =~= job_views(jobs@));
    }
    r
}

} // verus!
