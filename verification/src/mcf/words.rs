//! What the errors of a plan say.

use vstd::prelude::*;

use super::plan::PlanError;

verus! {

/// The error is about the last argument.
pub open spec fn of_last_argument(error: PlanError) -> bool {
    ||| error is LastNotReference
    ||| error is LastNotMut
    ||| error is LastNoLifetime
    ||| error is LastLifetime
    ||| error is LastNotPath
    ||| error is LastNotSimple
    ||| error is LastNotParam
}

/// Each error has words of its own, and those of an error about the last argument say so.
#[verifier::rlimit(40)]
pub proof fn errors_can_be_told_apart(
    one: &PlanError,
    other: &PlanError,
    one_says: &'static str,
    other_says: &'static str,
)
    requires
        call_ensures(PlanError::message, (one,), one_says),
        call_ensures(PlanError::message, (other,), other_says),
    ensures
        one_says@ == other_says@ <==> *one == *other,
        of_last_argument(*one) <==> one_says@.len() >= 21 && one_says@.subrange(0, 21)
            == "Last argument check: "@,
{
    reveal_strlit("Last argument check: ");
    reveal_strlit("Expected exactly one identifier as prefix");
    reveal_strlit("Expected identifier as path");
    reveal_strlit("`#[gen_may_cancel_future]` can only be applied to async functions");
    reveal_strlit("Function must have where clause for generics");
    reveal_strlit("Function must have at least one generic parameter");
    reveal_strlit("Function must have at least one named lifetime");
    reveal_strlit("Unsupported argument format");
    reveal_strlit("Last argument check: not reference type, must be like `&'f mut C`");
    reveal_strlit("Last argument check: not mut ref type, must be like `&'f mut C`");
    reveal_strlit("Last argument check: lifetime not fount, must declare a lifetime like `&'f mut C`");
    reveal_strlit("Last argument check: lifetime of cancellation token must be the last one");
    reveal_strlit("Last argument check: cancel token type must be simple type token");
    reveal_strlit("Last argument check: cancel token type should be generic type param");
    reveal_strlit("Last argument check: cancel token type mismatch");
    reveal_strlit("Expected function to return a value");
    reveal_strlit("Expected a cancellation token argument");
    let a = one_says@;
    let b = other_says@;
    assert(of_last_argument(*one) ==> a.subrange(0, 21) =~= "Last argument check: "@);
    if !of_last_argument(*one) && a.len() >= 21 {
        assert(a.subrange(0, 21)[0] == a[0]);
        assert("Last argument check: "@[0] == 'L');
    }
    if a == b {
        assert(a[0] == b[0]);
    }
}

} // verus!
