//! The decisions of a batch: which jobs to dispatch, how far the batch has
//! come, and what it ends in.
//!
//! The caller does the work on disk, reads the clock and hands over what it
//! observed. Relative inputs are taken from the base directory that the caller
//! names. No job is handed out unless the output directory stands, every
//! input is resolved and no two inputs claim the same output file.

use crate::error::ConverterError;
use crate::paths::{
    file_stem, file_stem_of, is_separator, is_separator_char, join, joined_path, text_of,
};
use crate::resolve::{
    resolve_all, resolved_before_failure, resolved_before_failure_is_first, ListedPath,
};
use vstd::prelude::*;
use vstd::string::StringExecFns;

verus! {

/// One file to convert: where to read it and where to write the result.
#[derive(Debug)]
pub struct ConversionJob {
    pub input_path: String,
    pub output_path: String,
}

/// Represents the results of a batch conversion operation.
#[derive(Debug)]
pub struct ConversionResult {
    pub files_converted: usize,
    pub duration_ms: u128,
    pub output_dir: String,
}

/// The views of a sequence of strings.
pub open spec fn texts(strings: Seq<String>) -> Seq<Seq<char>> {
    Seq::new(strings.len(), |i: int| strings[i]@)
}

/// The entries that stand for the inputs of a batch, in order.
pub open spec fn entries_of(listed: Seq<ListedPath>, base_dir: Seq<char>) -> Seq<Seq<char>> {
    Seq::new(listed.len(), |i: int| listed[i].entry(base_dir))
}

/// The name of the output file for an input with the given stem.
pub open spec fn wav_name(stem: Seq<char>) -> Seq<char> {
    stem + ".wav"@
}

/// The stem that names the output of `input_path`: the file stem of its final
/// component. A path that ends in a separator names no file and has none.
pub open spec fn stem_of(input_path: Seq<char>) -> Option<Seq<char>> {
    if input_path.len() > 0 && is_separator_char(input_path.last()) {
        None
    } else {
        file_stem_of(input_path)
    }
}

/// Where the conversion of `input_path` is written: in the output directory,
/// under the input's stem with the extension `wav`. `None` where the input
/// has no stem.
pub open spec fn planned_output(input_path: Seq<char>, output_dir: Seq<char>) -> Option<
    Seq<char>,
> {
    match stem_of(input_path) {
        Some(stem) => Some(joined_path(output_dir, wav_name(stem))),
        None => None,
    }
}

/// Whether the file at `at` can be given a job: it has an output path, and no
/// file before it has the same one.
pub open spec fn can_plan(files: Seq<Seq<char>>, output_dir: Seq<char>, at: int) -> bool {
    &&& planned_output(files[at], output_dir) is Some
    &&& forall|i: int|
        0 <= i < at ==> planned_output(#[trigger] files[i], output_dir) != planned_output(
            files[at],
            output_dir,
        )
}

/// The index of the first file from `from` on that cannot be given a job, or
/// the number of files where there is none.
pub open spec fn plan_stops_at(files: Seq<Seq<char>>, output_dir: Seq<char>, from: nat) -> nat
    decreases files.len() - from,
{
    if from < files.len() && can_plan(files, output_dir, from as int) {
        plan_stops_at(files, output_dir, from + 1)
    } else {
        from
    }
}

/// The detail of the failure for a file that cannot be given a job.
pub open spec fn plan_failure_detail(input_path: Seq<char>, output_dir: Seq<char>) -> Seq<char> {
    match planned_output(input_path, output_dir) {
        None => "Invalid input filename"@,
        Some(output_path) => "two inputs would be written to "@ + output_path,
    }
}

/// Whether `jobs` is the plan for `files`: one job for each file, in order,
/// each written to its planned output, no two to the same.
pub open spec fn is_plan(jobs: Seq<ConversionJob>, files: Seq<Seq<char>>, output_dir: Seq<char>) -> bool {
    &&& jobs.len() == files.len()
    &&& forall|i: int|
        0 <= i < jobs.len() ==> (#[trigger] jobs[i]).input_path@ == files[i] && planned_output(
            files[i],
            output_dir,
        ) == Some(jobs[i].output_path@)
    &&& forall|i: int, j: int|
        0 <= i < j < jobs.len() ==> (#[trigger] jobs[i]).output_path@ != (
        #[trigger] jobs[j]).output_path@
}

/// The text that a batch fails with before any job is handed out, or `None`
/// where it can start. The output directory comes first, then the inputs in
/// order, then the plan: a directory that could not be created and an input
/// that could not be resolved fail with their own text, a file that cannot be
/// given a job with the message of its error.
pub open spec fn batch_failure(
    listed: Seq<ListedPath>,
    base_dir: Seq<char>,
    output_dir: Seq<char>,
    dir_created: Result<(), String>,
) -> Option<Seq<char>> {
    let unresolved = resolved_before_failure(listed, base_dir);
    let unplanned = plan_stops_at(entries_of(listed, base_dir), output_dir, 0);
    match dir_created {
        Err(text) => Some(text@),
        Ok(_) => if unresolved < listed.len() {
            Some(listed[unresolved as int].failure_detail(base_dir))
        } else if unplanned < listed.len() {
            Some(
                "Invalid data: "@ + plan_failure_detail(
                    entries_of(listed, base_dir)[unplanned as int],
                    output_dir,
                ),
            )
        } else {
            None
        },
    }
}

/// The whole milliseconds between two readings of one clock, given in
/// nanoseconds. A second reading that lies before the first counts as no
/// time at all.
pub open spec fn elapsed_millis(started_ns: nat, finished_ns: nat) -> nat {
    if finished_ns >= started_ns {
        ((finished_ns - started_ns) / 1_000_000) as nat
    } else {
        0
    }
}

/// The share of a batch that is done, as a whole percentage, rounded down.
pub open spec fn percent_done(completed: nat, total: nat) -> nat {
    completed * 100 / total
}

/// Names the output file for a stem, or refuses an input that has none.
pub fn output_name(stem: Option<String>) -> (result: Result<String, ConverterError>)
    ensures
        match stem {
            Some(text) => result matches Ok(name) && name@ == wav_name(text@),
            None => result matches Err(error) && error is InvalidData && error.detail()
                == "Invalid input filename"@,
        },
{
    match stem {
        Some(text) => Ok(text.concat(".wav")),
        None => Err(ConverterError::InvalidData(String::from_str("Invalid input filename"))),
    }
}

/// Finds the stem that names the output of an input.
pub fn input_stem(input_path: &str) -> (stem: Option<String>)
    ensures
        text_of(stem) == stem_of(input_path@),
{
    let len: usize = input_path.unicode_len();
    if len > 0 && is_separator(input_path.get_char(len - 1)) {
        None
    } else {
        file_stem(input_path)
    }
}

/// Derives the output path for an input: the output directory, then the
/// input's stem with the extension `wav`.
pub fn output_path_for(input_path: &str, output_dir: &str) -> (result: Result<
    String,
    ConverterError,
>)
    ensures
        match planned_output(input_path@, output_dir@) {
            Some(path) => result matches Ok(output_path) && output_path@ == path,
            None => result matches Err(error) && error is InvalidData && error.detail()
                == "Invalid input filename"@,
        },
{
    match output_name(input_stem(input_path)) {
        Ok(name) => Ok(join(output_dir, name.as_str())),
        Err(error) => Err(error),
    }
}

/// Plans one job for each file, in order. Fails at the first file that has no
/// stem or whose output path a file before it has already.
pub fn plan_jobs(files: &Vec<String>, output_dir: &str) -> (result: Result<
    Vec<ConversionJob>,
    ConverterError,
>)
    ensures
        match result {
            Ok(jobs) => {
                &&& plan_stops_at(texts(files@), output_dir@, 0) == files@.len()
                &&& is_plan(jobs@, texts(files@), output_dir@)
            },
            Err(error) => {
                &&& plan_stops_at(texts(files@), output_dir@, 0) < files@.len()
                &&& error is InvalidData
                &&& error.detail() == plan_failure_detail(
                    files@[plan_stops_at(texts(files@), output_dir@, 0) as int]@,
                    output_dir@,
                )
            },
        },
{
    let ghost all = texts(files@);
    let mut jobs: Vec<ConversionJob> = Vec::new();
    let mut index: usize = 0;
    while index < files.len()
        invariant
            all == texts(files@),
            index <= files.len(),
            plan_stops_at(all, output_dir@, 0) == plan_stops_at(all, output_dir@, index as nat),
            is_plan(jobs@, all.take(index as int), output_dir@),
        decreases files.len() - index,
    {
        let output_path = match output_path_for(files[index].as_str(), output_dir) {
            Ok(path) => path,
            Err(error) => {
                return Err(error);
            },
        };
        let mut earlier: usize = 0;
        while earlier < jobs.len()
            invariant
                all == texts(files@),
                index < files.len(),
                jobs@.len() == index,
                earlier <= jobs.len(),
                is_plan(jobs@, all.take(index as int), output_dir@),
                planned_output(all[index as int], output_dir@) == Some(output_path@),
                plan_stops_at(all, output_dir@, 0) == plan_stops_at(
                    all,
                    output_dir@,
                    index as nat,
                ),
                forall|i: int|
                    0 <= i < earlier ==> planned_output(#[trigger] all[i], output_dir@) != Some(
                        output_path@,
                    ),
            decreases jobs.len() - earlier,
        {
            if jobs[earlier].output_path == output_path {
                proof {
                    assert(all.take(index as int)[earlier as int] == all[earlier as int]);
                    assert(!can_plan(all, output_dir@, index as int));
                }
                let mut text = String::from_str("two inputs would be written to ");
                text.append(output_path.as_str());
                return Err(ConverterError::InvalidData(text));
            }
            assert(all.take(index as int)[earlier as int] == all[earlier as int]);
            earlier += 1;
        }
        assert(can_plan(all, output_dir@, index as int));
        jobs.push(ConversionJob { input_path: files[index].clone(), output_path });
        proof {
            let front = all.take(index as int);
            let next = all.take(index + 1);
            assert forall|i: int| 0 <= i < jobs@.len() implies (#[trigger] jobs@[i]).input_path@
                == next[i] && planned_output(next[i], output_dir@) == Some(
                jobs@[i].output_path@,
            ) by {
                if i < index {
                    assert(front[i] == next[i]);
                }
            }
            assert forall|i: int, j: int| 0 <= i < j < jobs@.len() implies (
            #[trigger] jobs@[i]).output_path@ != (#[trigger] jobs@[j]).output_path@ by {
                if j == index {
                    assert(front[i] == all[i]);
                }
            }
        }
        index += 1;
    }
    assert(all.take(index as int) =~= all);
    Ok(jobs)
}

/// Says whether the output directory stands: a failure to create it is an
/// I/O error with the text given.
pub fn output_dir_ready(dir_created: &Result<(), String>) -> (result: Result<(), ConverterError>)
    ensures
        match *dir_created {
            Ok(_) => result is Ok,
            Err(text) => result matches Err(error) && error is IoError && error.detail()
                == text@,
        },
{
    match dir_created {
        Ok(_) => Ok(()),
        Err(text) => Err(ConverterError::IoError(text.clone())),
    }
}

/// Main conversion function: decides from what was observed on disk whether
/// the batch can start, and with which jobs.
///
/// `dir_created` tells how creating the output directory went. `listed` holds
/// each input as it was given, with the listing of the directory of its
/// target; a relative input names its target under `base_dir`. The batch is
/// all or nothing: it fails before any job is handed out where the directory
/// does not stand, one input is not resolved, or one file cannot be given a
/// job.
pub fn convert_files(
    listed: &Vec<ListedPath>,
    base_dir: &str,
    output_dir: &str,
    dir_created: &Result<(), String>,
) -> (result: Result<Vec<ConversionJob>, String>)
    ensures
        match result {
            Ok(jobs) => {
                &&& batch_failure(listed@, base_dir@, output_dir@, *dir_created) is None
                &&& is_plan(jobs@, entries_of(listed@, base_dir@), output_dir@)
            },
            Err(text) => batch_failure(listed@, base_dir@, output_dir@, *dir_created) == Some(
                text@,
            ),
        },
{
    match output_dir_ready(dir_created) {
        Ok(_) => {},
        Err(error) => {
            return Err(error.into_detail());
        },
    }
    let files = match resolve_all(listed, base_dir) {
        Ok(files) => files,
        Err(error) => {
            return Err(error.into_detail());
        },
    };
    proof {
        resolved_before_failure_is_first(listed@, base_dir@);
        assert(texts(files@) =~= entries_of(listed@, base_dir@));
    }
    match plan_jobs(&files, output_dir) {
        Ok(jobs) => Ok(jobs),
        Err(error) => Err(error.message()),
    }
}

/// Computes the whole milliseconds between two readings of one clock, given
/// in nanoseconds.
pub fn elapsed_ms(started_ns: u128, finished_ns: u128) -> (millis: u128)
    ensures
        millis == elapsed_millis(started_ns as nat, finished_ns as nat),
{
    if finished_ns >= started_ns {
        (finished_ns - started_ns) / 1_000_000
    } else {
        0
    }
}

/// Turns the end of a batch into what the caller is handed: the summary, or
/// the message of the error.
pub fn report(result: Result<ConversionResult, ConverterError>) -> (reported: Result<
    ConversionResult,
    String,
>)
    ensures
        match result {
            Ok(summary) => reported == Ok::<ConversionResult, String>(summary),
            Err(error) => reported matches Err(text) && text@ == error.text(),
        },
{
    match result {
        Ok(summary) => Ok(summary),
        Err(error) => Err(error.message()),
    }
}

/// Computes the progress of a batch after `completed` of `total` files: a
/// whole percentage, which is 100 exactly when all are done.
pub fn progress_percent(completed: usize, total: usize) -> (percent: u32)
    requires
        0 < total,
        completed <= total,
    ensures
        percent == percent_done(completed as nat, total as nat),
        percent <= 100,
        percent == 100 <==> completed == total,
{
    proof {
        percent_bounds(completed as nat, total as nat);
    }
    let scaled: u128 = completed as u128 * 100;
    (scaled / (total as u128)) as u32
}

/// A batch in which one input is not resolved does not start: it fails before
/// any job is handed out, whatever else was observed.
pub proof fn missing_input_stops_the_batch(
    listed: Seq<ListedPath>,
    base_dir: Seq<char>,
    output_dir: Seq<char>,
    dir_created: Result<(), String>,
    missing: int,
)
    requires
        0 <= missing < listed.len(),
        !listed[missing].is_resolved(base_dir),
    ensures
        batch_failure(listed, base_dir, output_dir, dir_created) is Some,
{
    resolved_before_failure_is_first(listed, base_dir);
}

/// The elapsed time is the number of whole milliseconds that fit between the
/// two readings: it is never more than the time between them and falls short
/// of it by less than one millisecond.
pub proof fn elapsed_is_whole_milliseconds(started_ns: nat, finished_ns: nat)
    requires
        started_ns <= finished_ns,
    ensures
        elapsed_millis(started_ns, finished_ns) * 1_000_000 <= finished_ns - started_ns,
        finished_ns - started_ns < (elapsed_millis(started_ns, finished_ns) + 1) * 1_000_000,
{
}

/// Progress stays within 0 and 100 and is 100 exactly at the end.
pub proof fn percent_bounds(completed: nat, total: nat)
    requires
        0 < total,
        completed <= total,
    ensures
        percent_done(completed, total) <= 100,
        percent_done(completed, total) == 100 <==> completed == total,
{
    assert(completed * 100 / total <= 100 && (completed * 100 / total == 100 <==> completed
        == total)) by (nonlinear_arith)
        requires
            0 < total,
            completed <= total,
    ;
}

/// Progress never goes back as more files complete.
pub proof fn percent_is_monotone(earlier: nat, later: nat, total: nat)
    requires
        0 < total,
        earlier <= later,
    ensures
        percent_done(earlier, total) <= percent_done(later, total),
{
    assert(earlier * 100 / total <= later * 100 / total) by (nonlinear_arith)
        requires
            0 < total,
            earlier <= later,
    ;
}

} // verus!
