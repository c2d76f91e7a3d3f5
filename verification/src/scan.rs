//! Scanning a sequence of checks for the first one that fails.
use vstd::prelude::*;

verus! {

/// The message of the first of the checks `i..n` that fails, if any does.
pub open spec fn first_issue_from(i: int, n: int, check: spec_fn(int) -> Option<Seq<char>>) -> Option<
    Seq<char>,
>
    decreases n - i,
{
    if i >= n {
        None
    } else if check(i) is Some {
        check(i)
    } else {
        first_issue_from(i + 1, n, check)
    }
}

/// The message of the first of the checks `0..n` that fails, if any does.
pub open spec fn first_issue(n: int, check: spec_fn(int) -> Option<Seq<char>>) -> Option<Seq<char>> {
    first_issue_from(0, n, check)
}

/// The first of two outcomes that is a failure.
pub open spec fn either_issue(a: Option<Seq<char>>, b: Option<Seq<char>>) -> Option<Seq<char>> {
    if a is Some {
        a
    } else {
        b
    }
}

/// When no check fails, every check passes.
pub proof fn lemma_first_issue_none(i: int, n: int, check: spec_fn(int) -> Option<Seq<char>>)
    requires
        first_issue_from(i, n, check) is None,
    ensures
        forall|j: int| i <= j < n ==> #[trigger] check(j) is None,
    decreases n - i,
{
    if i < n {
        lemma_first_issue_none(i + 1, n, check);
    }
}

} // verus!
