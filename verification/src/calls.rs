//! Deriving a [`CallIndex`] from an action's canonical encoding, and the
//! pluggable call-validation capability.
//!
//! An action is opaque to the core: the host hands over its canonical
//! encoding, and the first two bytes form the action's coarse equality key.

use vstd::prelude::*;

use crate::CallIndex;
use crate::Error;

verus! {

/// The call index of an encoding, or `EncodingFailed` when the encoding is
/// shorter than two bytes.
pub open spec fn spec_call_to_index(call: Seq<u8>) -> Result<CallIndex, Error> {
    if call.len() < 2 {
        Err(Error::EncodingFailed)
    } else {
        Ok(CallIndex { pallet: call[0], call: call[1] })
    }
}

/// The indices of a list of encodings: the first encoding shorter than two
/// bytes fails the whole conversion.
pub open spec fn spec_calls_to_indices(calls: Seq<Seq<u8>>) -> Result<Seq<CallIndex>, Error>
    decreases calls.len(),
{
    if calls.len() == 0 {
        Ok(Seq::empty())
    } else {
        match spec_calls_to_indices(calls.drop_last()) {
            Err(e) => Err(e),
            Ok(front) => match spec_call_to_index(calls.last()) {
                Err(e) => Err(e),
                Ok(ci) => Ok(front.push(ci)),
            },
        }
    }
}

/// Convert an action's canonical encoding to its call index: the first two
/// bytes of the encoding.
pub fn call_to_index(call: &Vec<u8>) -> (r: Result<CallIndex, Error>)
    ensures
        r == spec_call_to_index(call@),
{
    if call.len() < 2 {
        Err(Error::EncodingFailed)
    } else {
        Ok(CallIndex { pallet: call[0], call: call[1] })
    }
}

/// Convert a list of encodings into a list of call indices; fails with the
/// first encoding that is too short, converting nothing.
pub fn calls_to_indices(calls: &Vec<Vec<u8>>) -> (r: Result<Vec<CallIndex>, Error>)
    ensures
        match r {
            Ok(indices) => spec_calls_to_indices(calls.deep_view()) == Ok::<Seq<CallIndex>, Error>(
                indices@,
            ),
            Err(e) => spec_calls_to_indices(calls.deep_view()) == Err::<Seq<CallIndex>, Error>(e),
        },
{
    let mut indices: Vec<CallIndex> = Vec::new();
    let mut i: usize = 0;
    while i < calls.len()
        invariant
            i <= calls@.len(),
            spec_calls_to_indices(calls.deep_view().take(i as int)) == Ok::<
                Seq<CallIndex>,
                Error,
            >(indices@),
        decreases calls@.len() - i,
    {
        let ghost prefix = calls.deep_view().take(i as int);
        match call_to_index(&calls[i]) {
            Ok(ci) => {
                indices.push(ci);
                proof {
                    let next = calls.deep_view().take(i as int + 1);
                    assert(next.drop_last() =~= prefix);
                    assert(next.last() == calls.deep_view()[i as int]);
                }
            },
            Err(e) => {
                proof {
                    lemma_calls_to_indices_err(calls.deep_view(), i as int, e);
                }
                return Err(e);
            },
        }
        i = i + 1;
    }
    proof {
        assert(calls.deep_view().take(calls@.len() as int) =~= calls.deep_view());
    }
    Ok(indices)
}

/// A successful conversion yields one index per encoding.
pub proof fn lemma_calls_to_indices_len(calls: Seq<Seq<u8>>)
    ensures
        spec_calls_to_indices(calls) matches Ok(indices) ==> indices.len() == calls.len(),
    decreases calls.len(),
{
    if calls.len() > 0 {
        lemma_calls_to_indices_len(calls.drop_last());
    }
}

/// Whether `list` holds `ci`.
pub fn contains_index(list: &Vec<CallIndex>, ci: CallIndex) -> (r: bool)
    ensures
        r == list@.contains(ci),
{
    let mut i: usize = 0;
    while i < list.len()
        invariant
            i <= list@.len(),
            forall|k: int| 0 <= k < i ==> list@[k] != ci,
        decreases list@.len() - i,
    {
        if list[i] == ci {
            proof {
                assert(list@.contains(ci)) by {
                    assert(list@[i as int] == ci);
                }
            }
            return true;
        }
        i = i + 1;
    }
    proof {
        assert(!list@.contains(ci));
    }
    false
}

/// If the prefix converts but entry `i` does not, the whole list fails with
/// entry `i`'s error.
proof fn lemma_calls_to_indices_err(calls: Seq<Seq<u8>>, i: int, e: Error)
    requires
        0 <= i < calls.len(),
        spec_calls_to_indices(calls.take(i)) is Ok,
        spec_call_to_index(calls[i]) == Err::<CallIndex, Error>(e),
    ensures
        spec_calls_to_indices(calls) == Err::<Seq<CallIndex>, Error>(e),
    decreases calls.len() - i,
{
    if i == calls.len() - 1 {
        assert(calls.take(i) =~= calls.drop_last());
    } else {
        assert(calls.take(i + 1).drop_last() =~= calls.take(i));
        assert(calls.take(i + 1).last() == calls[i]);
        assert(spec_calls_to_indices(calls.take(i + 1)) == Err::<Seq<CallIndex>, Error>(e));
        lemma_calls_to_indices_err_propagates(calls, i + 1, e);
    }
}

/// An error in converting a prefix is the error of every longer prefix.
proof fn lemma_calls_to_indices_err_propagates(calls: Seq<Seq<u8>>, i: int, e: Error)
    requires
        0 <= i <= calls.len(),
        spec_calls_to_indices(calls.take(i)) == Err::<Seq<CallIndex>, Error>(e),
    ensures
        spec_calls_to_indices(calls) == Err::<Seq<CallIndex>, Error>(e),
    decreases calls.len() - i,
{
    if i < calls.len() {
        assert(calls.take(i + 1).drop_last() =~= calls.take(i));
        lemma_calls_to_indices_err_propagates(calls, i + 1, e);
    } else {
        assert(calls.take(i) =~= calls);
    }
}

/// The pluggable call-validation capability: decides whether an action (given
/// by its canonical encoding) is eligible for a lottery ticket, consulting the
/// configured allow-list.
pub trait ValidateCall {
    /// What this strategy accepts, as a function of the allow-list and of the
    /// action's encoding.
    spec fn spec_validate(&self, allowed: Seq<CallIndex>, call: Seq<u8>) -> bool;

    /// Decide whether the action is valid for a ticket purchase.
    fn validate_call(&self, allowed: &Vec<CallIndex>, call: &Vec<u8>) -> (r: bool)
        ensures
            r == self.spec_validate(allowed@, call@),
    ;
}

/// The ledger's own strategy: an action is valid when its call index is in
/// the configured allow-list.
pub struct AllowListValidator;

impl ValidateCall for AllowListValidator {
    open spec fn spec_validate(&self, allowed: Seq<CallIndex>, call: Seq<u8>) -> bool {
        match spec_call_to_index(call) {
            Ok(ci) => allowed.contains(ci),
            Err(_) => false,
        }
    }

    fn validate_call(&self, allowed: &Vec<CallIndex>, call: &Vec<u8>) -> (r: bool) {
        match call_to_index(call) {
            Ok(ci) => contains_index(allowed, ci),
            Err(_) => false,
        }
    }
}

/// The default strategy: no action is ever valid.
pub struct DenyAllValidator;

impl ValidateCall for DenyAllValidator {
    open spec fn spec_validate(&self, allowed: Seq<CallIndex>, call: Seq<u8>) -> bool {
        false
    }

    fn validate_call(&self, allowed: &Vec<CallIndex>, call: &Vec<u8>) -> (r: bool) {
        false
    }
}

} // verus!
