//! The errors that the status register of bank 2 reports.
use crate::update_server::registers::BankStatus;
use crate::update_server::types::UpdateError;
use vstd::prelude::*;

verus! {

/// The error flags of a status, each with the error that it stands for, in the
/// order of precedence.
pub open spec fn error_flags(status: BankStatus) -> Seq<(bool, UpdateError)> {
    seq![
        (status.dbeccerr, UpdateError::EccDoubleErr),
        (status.sneccerr1, UpdateError::EccSingleErr),
        (status.rdserr, UpdateError::SecureErr),
        (status.rdperr, UpdateError::ReadProtErr),
        (status.operr, UpdateError::WriteEraseErr),
        (status.incerr, UpdateError::InconsistencyErr),
        (status.strberr, UpdateError::StrobeErr),
        (status.pgserr, UpdateError::ProgSeqErr),
        (status.wrperr, UpdateError::WriteProtErr),
    ]
}

/// The first error in `flags` from index `from` on whose flag is raised.
pub open spec fn first_raised(flags: Seq<(bool, UpdateError)>, from: int) -> Result<
    (),
    UpdateError,
>
    decreases flags.len() - from,
{
    if !(0 <= from < flags.len()) {
        Ok(())
    } else if flags[from].0 {
        Err(flags[from].1)
    } else {
        first_raised(flags, from + 1)
    }
}

/// What a status comes to: the first error whose flag is raised, if any.
pub open spec fn reported(status: BankStatus) -> Result<(), UpdateError> {
    first_raised(error_flags(status), 0)
}

/// Turns the error flags of bank 2 into a result.
pub fn bank2_status(status: BankStatus) -> (result: Result<(), UpdateError>)
    ensures
        result == reported(status),
{
    proof {
        reveal_with_fuel(first_raised, 10);
    }
    if status.dbeccerr {
        return Err(UpdateError::EccDoubleErr);
    }
    if status.sneccerr1 {
        return Err(UpdateError::EccSingleErr);
    }
    if status.rdserr {
        return Err(UpdateError::SecureErr);
    }
    if status.rdperr {
        return Err(UpdateError::ReadProtErr);
    }
    if status.operr {
        return Err(UpdateError::WriteEraseErr);
    }
    if status.incerr {
        return Err(UpdateError::InconsistencyErr);
    }
    if status.strberr {
        return Err(UpdateError::StrobeErr);
    }
    if status.pgserr {
        return Err(UpdateError::ProgSeqErr);
    }
    if status.wrperr {
        return Err(UpdateError::WriteProtErr);
    }
    Ok(())
}

/// A status is in order if and only if no error flag is raised.
pub proof fn law_ok_means_no_flag(status: BankStatus)
    ensures
        reported(status) is Ok <==> forall|i: int| 0 <= i < 9 ==> !(#[trigger] error_flags(status)[i]).0,
{
    reveal_with_fuel(first_raised, 10);
    let flags = error_flags(status);
    if reported(status) is Err {
        assert(exists|i: int| 0 <= i < 9 && (#[trigger] flags[i]).0) by {
            assert(flags[0].0 || flags[1].0 || flags[2].0 || flags[3].0 || flags[4].0 || flags[5].0
                || flags[6].0 || flags[7].0 || flags[8].0);
        }
    }
}

/// Where several error flags are raised, the one that comes first is reported.
pub proof fn law_first_flag_is_reported(status: BankStatus, first: int)
    requires
        0 <= first < 9,
        error_flags(status)[first].0,
        forall|i: int| 0 <= i < first ==> !(#[trigger] error_flags(status)[i]).0,
    ensures
        reported(status) == Err::<(), UpdateError>(error_flags(status)[first].1),
{
    reveal_with_fuel(first_raised, 10);
    let flags = error_flags(status);
    assert(first > 0 ==> !flags[0].0);
    assert(first > 1 ==> !flags[1].0);
    assert(first > 2 ==> !flags[2].0);
    assert(first > 3 ==> !flags[3].0);
    assert(first > 4 ==> !flags[4].0);
    assert(first > 5 ==> !flags[5].0);
    assert(first > 6 ==> !flags[6].0);
    assert(first > 7 ==> !flags[7].0);
}

/// Each error is reported if and only if its flag is raised and none that takes
/// precedence is: a double ECC error over a single one, then secure errors, read
/// protection, write or erase errors, inconsistency, strobe, programming sequence
/// and write protection.
pub proof fn law_errors_take_precedence(s: BankStatus)
    ensures
        ({
            let ecc = s.dbeccerr || s.sneccerr1;
            let read = ecc || s.rdserr || s.rdperr;
            let operation = read || s.operr || s.incerr;
            let sequence = operation || s.strberr || s.pgserr;
            &&& reported(s) is Ok <==> !sequence && !s.wrperr
            &&& reported(s) == Err::<(), _>(UpdateError::EccDoubleErr) <==> s.dbeccerr
            &&& reported(s) == Err::<(), _>(UpdateError::EccSingleErr) <==> s.sneccerr1
                && !s.dbeccerr
            &&& reported(s) == Err::<(), _>(UpdateError::SecureErr) <==> s.rdserr && !ecc
            &&& reported(s) == Err::<(), _>(UpdateError::ReadProtErr) <==> s.rdperr && !s.rdserr
                && !ecc
            &&& reported(s) == Err::<(), _>(UpdateError::WriteEraseErr) <==> s.operr && !read
            &&& reported(s) == Err::<(), _>(UpdateError::InconsistencyErr) <==> s.incerr && !s.operr
                && !read
            &&& reported(s) == Err::<(), _>(UpdateError::StrobeErr) <==> s.strberr && !operation
            &&& reported(s) == Err::<(), _>(UpdateError::ProgSeqErr) <==> s.pgserr && !s.strberr
                && !operation
            &&& reported(s) == Err::<(), _>(UpdateError::WriteProtErr) <==> s.wrperr && !sequence
        }),
{
    reveal_with_fuel(first_raised, 10);
}

} // verus!
