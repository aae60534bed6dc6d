//! Choice of an output directory that collides with nothing on disk.
//!
//! The candidates for a base path `out` are `out`, `out(1)`, `out(2)`, and so
//! on. Whether a path exists is for the caller to find out: it probes the
//! candidates in order and reports each answer, and [`get_unique_dir`] says
//! after every answer what to do next.

use crate::text::{decimal, decimal_is_injective, push_decimal};
use vstd::prelude::*;
use vstd::string::StringExecFns;

verus! {

/// The candidate tried at `attempt`: the base path itself first, then the base
/// path followed by the attempt's number in parentheses.
pub open spec fn candidate_dir(base: Seq<char>, attempt: nat) -> Seq<char> {
    if attempt == 0 {
        base
    } else {
        base + "("@ + decimal(attempt) + ")"@
    }
}

/// The number of answers at the front of `occupied` that say "exists".
pub open spec fn leading_occupied(occupied: Seq<bool>) -> nat
    decreases occupied.len(),
{
    if occupied.len() > 0 && occupied[0] {
        1 + leading_occupied(occupied.skip(1))
    } else {
        0
    }
}

/// What to do next in the search for a free directory name.
#[derive(Debug)]
pub enum DirChoice {
    /// This path was probed and does not exist: use it.
    Found(String),
    /// Every path probed so far exists: probe this one next.
    Probe(String),
}

impl DirChoice {
    /// The path that the choice speaks of.
    pub open spec fn path(self) -> Seq<char> {
        match self {
            DirChoice::Found(path) => path@,
            DirChoice::Probe(path) => path@,
        }
    }
}

/// Builds the candidate tried at `attempt`.
pub fn candidate(base_path: &str, attempt: usize) -> (path: String)
    ensures
        path@ == candidate_dir(base_path@, attempt as nat),
{
    let mut path = String::from_str(base_path);
    if attempt > 0 {
        path.append("(");
        push_decimal(&mut path, attempt as u128);
        path.append(")");
    }
    path
}

/// Creates a unique directory path by appending a number if the path already
/// exists.
///
/// `occupied` holds the answers to the probes made so far, in order:
/// `occupied[k]` tells whether the candidate of attempt `k` exists. The first
/// candidate reported absent is the result. While all are reported present,
/// the next candidate is handed out to be probed. Nothing is created.
pub fn get_unique_dir(base_path: &str, occupied: &[bool]) -> (choice: DirChoice)
    ensures
        choice.path() == candidate_dir(base_path@, leading_occupied(occupied@)),
        choice is Found <==> leading_occupied(occupied@) < occupied@.len(),
{
    let mut attempt: usize = 0;
    assert(occupied@.skip(0) =~= occupied@);
    while attempt < occupied.len() && occupied[attempt]
        invariant
            attempt <= occupied.len(),
            leading_occupied(occupied@) == attempt + leading_occupied(
                occupied@.skip(attempt as int),
            ),
        decreases occupied.len() - attempt,
    {
        assert(occupied@.skip(attempt as int).skip(1) =~= occupied@.skip(attempt + 1));
        attempt += 1;
    }
    let path = candidate(base_path, attempt);
    if attempt < occupied.len() {
        DirChoice::Found(path)
    } else {
        DirChoice::Probe(path)
    }
}

/// The answers before the first "absent" all say "exists", and the answer
/// there, if there is one, says "absent".
pub proof fn leading_occupied_is_first_absent(occupied: Seq<bool>)
    ensures
        leading_occupied(occupied) <= occupied.len(),
        forall|k: int| 0 <= k < leading_occupied(occupied) ==> occupied[k],
        leading_occupied(occupied) < occupied.len() ==> !occupied[leading_occupied(
            occupied,
        ) as int],
    decreases occupied.len(),
{
    if occupied.len() > 0 && occupied[0] {
        let rest = occupied.skip(1);
        leading_occupied_is_first_absent(rest);
        assert forall|k: int| 0 <= k < leading_occupied(occupied) implies occupied[k] by {
            if k > 0 {
                assert(occupied[k] == rest[k - 1]);
            }
        }
    }
}

/// Where the answers are true of a set of existing paths, the path found does
/// not exist, every candidate before it does, and so the path found differs
/// from the base path whenever the base path exists.
pub proof fn found_dir_does_not_exist(
    base: Seq<char>,
    occupied: Seq<bool>,
    existing: Set<Seq<char>>,
)
    requires
        forall|k: nat|
            k < occupied.len() ==> occupied[k as int] == existing.contains(
                #[trigger] candidate_dir(base, k),
            ),
        leading_occupied(occupied) < occupied.len(),
    ensures
        !existing.contains(candidate_dir(base, leading_occupied(occupied))),
        forall|k: nat|
            k < leading_occupied(occupied) ==> existing.contains(
                #[trigger] candidate_dir(base, k),
            ),
        existing.contains(base) ==> candidate_dir(base, leading_occupied(occupied)) != base,
{
    leading_occupied_is_first_absent(occupied);
    let found = leading_occupied(occupied);
    assert(!occupied[found as int]);
    assert forall|k: nat| k < found implies existing.contains(
        #[trigger] candidate_dir(base, k),
    ) by {
        assert(occupied[k as int]);
    }
}

/// Two searches never find the same path where the second one sees the path
/// that the first one found as existing, whatever their base paths.
pub proof fn repeated_searches_differ(
    first_base: Seq<char>,
    first_occupied: Seq<bool>,
    first_existing: Set<Seq<char>>,
    second_base: Seq<char>,
    second_occupied: Seq<bool>,
    second_existing: Set<Seq<char>>,
)
    requires
        forall|k: nat|
            k < first_occupied.len() ==> first_occupied[k as int] == first_existing.contains(
                #[trigger] candidate_dir(first_base, k),
            ),
        forall|k: nat|
            k < second_occupied.len() ==> second_occupied[k as int] == second_existing.contains(
                #[trigger] candidate_dir(second_base, k),
            ),
        leading_occupied(first_occupied) < first_occupied.len(),
        leading_occupied(second_occupied) < second_occupied.len(),
        second_existing.contains(candidate_dir(first_base, leading_occupied(first_occupied))),
    ensures
        candidate_dir(second_base, leading_occupied(second_occupied)) != candidate_dir(
            first_base,
            leading_occupied(first_occupied),
        ),
{
    found_dir_does_not_exist(second_base, second_occupied, second_existing);
}

/// The candidates of one base path are pairwise different.
pub proof fn candidates_are_distinct(base: Seq<char>, i: nat, j: nat)
    requires
        candidate_dir(base, i) == candidate_dir(base, j),
    ensures
        i == j,
{
    reveal_strlit("(");
    reveal_strlit(")");
    let open = "("@;
    let close = ")"@;
    if i == 0 && j == 0 {
    } else if i == 0 {
        assert((base + open + decimal(j) + close).len() > base.len());
    } else if j == 0 {
        assert((base + open + decimal(i) + close).len() > base.len());
    } else {
        let a = base + open + decimal(i) + close;
        let b = base + open + decimal(j) + close;
        assert(a.len() == b.len());
        assert(decimal(i).len() == decimal(j).len());
        assert forall|k: int| 0 <= k < decimal(i).len() implies decimal(i)[k] == decimal(j)[k] by {
            assert(a[base.len() + 1 + k] == decimal(i)[k]);
            assert(b[base.len() + 1 + k] == decimal(j)[k]);
        }
        assert(decimal(i) =~= decimal(j));
        decimal_is_injective(i, j);
    }
}

} // verus!
