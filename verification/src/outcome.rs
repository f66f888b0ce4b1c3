//! The first refusal among a sequence of rule outcomes.

use vstd::prelude::*;

verus! {

/// The outcome of checking rules in order: the first refusal, or success when every
/// rule holds.
pub open spec fn first_error(rs: Seq<Result<(), Seq<char>>>) -> Result<(), Seq<char>>
    decreases rs.len(),
{
    if rs.len() == 0 {
        Ok(())
    } else if rs[0] is Err {
        rs[0]
    } else {
        first_error(rs.drop_first())
    }
}

/// When every outcome before `i` is a success and the one at `i` a refusal, that
/// refusal comes first.
pub proof fn lemma_first_error_at(rs: Seq<Result<(), Seq<char>>>, i: int)
    requires
        0 <= i < rs.len(),
        forall|k: int| 0 <= k < i ==> #[trigger] rs[k] is Ok,
        rs[i] is Err,
    ensures
        first_error(rs) == rs[i],
    decreases i,
{
    if i > 0 {
        assert(rs[0] is Ok);
        let rest = rs.drop_first();
        assert forall|k: int| 0 <= k < i - 1 implies #[trigger] rest[k] is Ok by {
            assert(rs[k + 1] is Ok);
        }
        lemma_first_error_at(rest, i - 1);
    }
}

/// The outcome is a success exactly when every outcome is a success.
pub proof fn lemma_first_error_ok(rs: Seq<Result<(), Seq<char>>>)
    ensures
        first_error(rs) is Ok <==> forall|k: int| 0 <= k < rs.len() ==> #[trigger] rs[k] is Ok,
    decreases rs.len(),
{
    if rs.len() > 0 {
        let rest = rs.drop_first();
        lemma_first_error_ok(rest);
        if rs[0] is Ok {
            assert forall|k: int| 0 <= k < rs.len() && (forall|j: int| 0 <= j < rest.len() ==> #[trigger] rest[j] is Ok)
                implies #[trigger] rs[k] is Ok by {
                if k > 0 {
                    assert(rest[k - 1] is Ok);
                }
            }
            assert((forall|k: int| 0 <= k < rs.len() ==> #[trigger] rs[k] is Ok) ==> forall|j: int| 0 <= j < rest.len() ==> #[trigger] rest[j] is Ok) by {
                assert forall|j: int| 0 <= j < rest.len() && (forall|k: int| 0 <= k < rs.len() ==> #[trigger] rs[k] is Ok) implies #[trigger] rest[j] is Ok by {
                    assert(rs[j + 1] is Ok);
                }
            }
        }
    }
}

} // verus!
