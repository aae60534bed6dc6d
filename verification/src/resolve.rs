//! Resolution of input paths into entries that were seen on disk.
//!
//! An input names a target: itself where it is absolute, else the base
//! directory extended by it. For each input the caller lists the directory
//! named by [`listing_dir_for`] and hands over what it saw. An input is
//! resolved when one of the entries listed is the same path as its target; the
//! entry then stands for it.

use crate::error::ConverterError;
use crate::paths::{
    is_absolute, is_absolute_path, is_same_path, join, joined_path, parent, parent_of, quoted,
    quoted_path, same_path,
};
use vstd::prelude::*;
use vstd::string::StringExecFns;

verus! {

/// An input path as it was given, absolute or relative, together with what
/// listing the directory of its target gave: the paths of the entries found
/// there, or the text of the failure to list it.
#[derive(Debug)]
pub struct ListedPath {
    pub path: String,
    pub listing: Result<Vec<String>, String>,
}

/// The path that an input names: itself where it is absolute, else the base
/// directory extended by it.
pub open spec fn target_of(path: Seq<char>, base_dir: Seq<char>) -> Seq<char> {
    if is_absolute_path(path) {
        path
    } else {
        joined_path(base_dir, path)
    }
}

/// The directory to list for a target: its parent, or `.` where it has none.
pub open spec fn listing_dir_of(target: Seq<char>) -> Seq<char> {
    match parent_of(target) {
        Some(dir) => dir,
        None => "."@,
    }
}

/// The number of entries at the front of `entries` that are not the path
/// `target`: the index of the first entry that is, if any is.
pub open spec fn entries_before_match(target: Seq<char>, entries: Seq<String>) -> nat
    decreases entries.len(),
{
    if entries.len() > 0 && !same_path(entries[0]@, target) {
        1 + entries_before_match(target, entries.skip(1))
    } else {
        0
    }
}

/// The detail of the failure for a target that no entry matches.
pub open spec fn not_found_text(target: Seq<char>) -> Seq<char> {
    "error: file not found at "@ + quoted_path(target)
}

impl ListedPath {
    /// The path that the input names under `base_dir`.
    pub open spec fn target(self, base_dir: Seq<char>) -> Seq<char> {
        target_of(self.path@, base_dir)
    }

    /// Whether the directory could be listed and holds the target.
    pub open spec fn is_resolved(self, base_dir: Seq<char>) -> bool {
        match self.listing {
            Ok(entries) => entries_before_match(self.target(base_dir), entries@) < entries@.len(),
            Err(_) => false,
        }
    }

    /// The entry that stands for the input, where it is resolved: the first
    /// one listed that is the same path as the target.
    pub open spec fn entry(self, base_dir: Seq<char>) -> Seq<char> {
        match self.listing {
            Ok(entries) => entries@[entries_before_match(self.target(base_dir), entries@) as int]@,
            Err(_) => Seq::<char>::empty(),
        }
    }

    /// The detail of the failure of this input: the listing's own text where
    /// the directory could not be listed, else a text that names the target.
    pub open spec fn failure_detail(self, base_dir: Seq<char>) -> Seq<char> {
        match self.listing {
            Ok(_) => not_found_text(self.target(base_dir)),
            Err(text) => text@,
        }
    }

    /// Whether `error` is the failure of this input: an I/O error where the
    /// directory could not be listed, invalid data where no entry matches,
    /// each with the detail of [`Self::failure_detail`].
    pub open spec fn fails_with(self, base_dir: Seq<char>, error: ConverterError) -> bool {
        &&& error.detail() == self.failure_detail(base_dir)
        &&& match self.listing {
            Ok(_) => error is InvalidData,
            Err(_) => error is IoError,
        }
    }
}

/// The number of inputs at the front of `listed` that are resolved: the index
/// of the first one that is not, if any is not.
pub open spec fn resolved_before_failure(listed: Seq<ListedPath>, base_dir: Seq<char>) -> nat
    decreases listed.len(),
{
    if listed.len() > 0 && listed[0].is_resolved(base_dir) {
        1 + resolved_before_failure(listed.skip(1), base_dir)
    } else {
        0
    }
}

/// Resolves an input path against a base directory.
pub fn resolve_target(path: &str, base_dir: &str) -> (target: String)
    ensures
        target@ == target_of(path@, base_dir@),
{
    if is_absolute(path) {
        String::from_str(path)
    } else {
        join(base_dir, path)
    }
}

/// Names the directory whose listing decides whether `target` exists.
pub fn listing_dir(target: &str) -> (dir: String)
    ensures
        dir@ == listing_dir_of(target@),
{
    match parent(target) {
        Some(dir) => dir,
        None => String::from_str("."),
    }
}

/// Names the directory to list for an input: the parent of the target that
/// the input names under `base_dir`.
pub fn listing_dir_for(path: &str, base_dir: &str) -> (dir: String)
    ensures
        dir@ == listing_dir_of(target_of(path@, base_dir@)),
{
    let target = resolve_target(path, base_dir);
    listing_dir(target.as_str())
}

/// Finds the first entry that is the same path as `target`.
pub fn find_entry(target: &str, entries: &Vec<String>) -> (found: Option<usize>)
    ensures
        match found {
            Some(index) => index == entries_before_match(target@, entries@) && index
                < entries@.len(),
            None => entries_before_match(target@, entries@) == entries@.len(),
        },
{
    let mut index: usize = 0;
    assert(entries@.skip(0) =~= entries@);
    while index < entries.len()
        invariant
            index <= entries.len(),
            entries_before_match(target@, entries@) == index + entries_before_match(
                target@,
                entries@.skip(index as int),
            ),
        decreases entries.len() - index,
    {
        if is_same_path(entries[index].as_str(), target) {
            return Some(index);
        }
        assert(entries@.skip(index as int).skip(1) =~= entries@.skip(index + 1));
        index += 1;
    }
    None
}

/// Resolves one input from the listing of its directory: the input names its
/// target under `base_dir`, and the first entry that is the same path stands
/// for it.
pub fn resolve_entry(listed: &ListedPath, base_dir: &str) -> (result: Result<
    String,
    ConverterError,
>)
    ensures
        match result {
            Ok(entry) => listed.is_resolved(base_dir@) && entry@ == listed.entry(base_dir@),
            Err(error) => !listed.is_resolved(base_dir@) && listed.fails_with(base_dir@, error),
        },
{
    match &listed.listing {
        Err(text) => Err(ConverterError::IoError(text.clone())),
        Ok(entries) => {
            let target = resolve_target(listed.path.as_str(), base_dir);
            match find_entry(target.as_str(), entries) {
                Some(index) => Ok(entries[index].clone()),
                None => {
                    let mut text = String::from_str("error: file not found at ");
                    text.append(quoted(target.as_str()).as_str());
                    Err(ConverterError::InvalidData(text))
                },
            }
        },
    }
}

/// Resolves every input, in order, relative inputs against `base_dir`. One
/// input that is not resolved fails the whole batch with the failure of the
/// first such input.
pub fn resolve_all(listed: &Vec<ListedPath>, base_dir: &str) -> (result: Result<
    Vec<String>,
    ConverterError,
>)
    ensures
        match result {
            Ok(entries) => {
                &&& entries@.len() == listed@.len()
                &&& forall|i: int|
                    0 <= i < listed@.len() ==> (#[trigger] listed@[i]).is_resolved(base_dir@)
                        && entries@[i]@ == listed@[i].entry(base_dir@)
            },
            Err(error) => {
                &&& resolved_before_failure(listed@, base_dir@) < listed@.len()
                &&& listed@[resolved_before_failure(listed@, base_dir@) as int].fails_with(
                    base_dir@,
                    error,
                )
            },
        },
{
    let mut entries: Vec<String> = Vec::new();
    let mut index: usize = 0;
    assert(listed@.skip(0) =~= listed@);
    while index < listed.len()
        invariant
            index <= listed.len(),
            entries@.len() == index,
            forall|i: int|
                0 <= i < index ==> (#[trigger] listed@[i]).is_resolved(base_dir@) && entries@[i]@
                    == listed@[i].entry(base_dir@),
            resolved_before_failure(listed@, base_dir@) == index + resolved_before_failure(
                listed@.skip(index as int),
                base_dir@,
            ),
        decreases listed.len() - index,
    {
        match resolve_entry(&listed[index], base_dir) {
            Ok(entry) => {
                entries.push(entry);
            },
            Err(error) => {
                return Err(error);
            },
        }
        assert(listed@.skip(index as int).skip(1) =~= listed@.skip(index + 1));
        index += 1;
    }
    Ok(entries)
}

/// Every input before the first failure is resolved, and the input there, if
/// there is one, is not.
pub proof fn resolved_before_failure_is_first(listed: Seq<ListedPath>, base_dir: Seq<char>)
    ensures
        resolved_before_failure(listed, base_dir) <= listed.len(),
        forall|i: int|
            0 <= i < resolved_before_failure(listed, base_dir) ==> (#[trigger] listed[i]).is_resolved(
                base_dir,
            ),
        resolved_before_failure(listed, base_dir) < listed.len() ==> !listed[resolved_before_failure(
            listed,
            base_dir,
        ) as int].is_resolved(base_dir),
    decreases listed.len(),
{
    if listed.len() > 0 && listed[0].is_resolved(base_dir) {
        let rest = listed.skip(1);
        resolved_before_failure_is_first(rest, base_dir);
        assert forall|i: int| 0 <= i < resolved_before_failure(listed, base_dir) implies (
        #[trigger] listed[i]).is_resolved(base_dir) by {
            if i > 0 {
                assert(listed[i] == rest[i - 1]);
            }
        }
    }
}

/// A batch in which one input is not resolved is not resolved as a whole.
pub proof fn one_missing_input_fails_the_batch(
    listed: Seq<ListedPath>,
    base_dir: Seq<char>,
    missing: int,
)
    requires
        0 <= missing < listed.len(),
        !listed[missing].is_resolved(base_dir),
    ensures
        resolved_before_failure(listed, base_dir) < listed.len(),
{
    resolved_before_failure_is_first(listed, base_dir);
}

} // verus!
