use vstd::prelude::*;

use crate::account::{Account, Identity};
use crate::record::{
    decode_record, le_bytes, le_u32, lemma_decode_encode, GreetingAccount, GreetingError,
    RECORD_LEN,
};

verus! {

/// The counter that follows `c`, wrapping from `u32::MAX` to zero.
pub open spec fn next_counter(c: u32) -> u32 {
    ((c as int + 1) % 0x1_0000_0000) as u32
}

/// What an invocation by `program_id` on `accounts` returns: the first
/// account must exist, be owned by `program_id` and hold a record.
pub open spec fn process_result(program_id: Identity, accounts: Seq<Account>) -> Result<
    (),
    GreetingError,
> {
    if accounts.len() == 0 {
        Err(GreetingError::MissingAccount)
    } else if accounts[0].owner@ != program_id@ {
        Err(GreetingError::UnauthorizedAccount)
    } else if decode_record(accounts[0].data@) is Err {
        Err(GreetingError::MalformedRecord)
    } else {
        Ok(())
    }
}

/// `after` is `before` greeted once more: the same account, whose stored
/// counter has moved on by one.
pub open spec fn greeted(before: Account, after: Account) -> bool {
    &&& after.key == before.key
    &&& after.owner == before.owner
    &&& after.is_signer == before.is_signer
    &&& after.is_writable == before.is_writable
    &&& after.lamports == before.lamports
    &&& after.data@ == le_bytes(next_counter(le_u32(before.data@)))
}

/// Greets the first of `accounts`: when it is owned by `program_id` and holds
/// a record, adds one to the stored counter (wrapping at `u32::MAX`) and
/// writes the record back in place. The instruction data is not read.
///
/// On success only the first account changes; on any error no account does.
pub fn process_instruction(
    program_id: &Identity,
    accounts: &mut Vec<Account>,
    _instruction_data: &[u8],
) -> (r: Result<(), GreetingError>)
    ensures
        r == process_result(*program_id, old(accounts)@),
        r is Err ==> final(accounts)@ == old(accounts)@,
        r is Ok ==> {
            &&& final(accounts)@.len() == old(accounts)@.len()
            &&& greeted(old(accounts)@[0], final(accounts)@[0])
            &&& final(accounts)@[0].data@.len() == RECORD_LEN
            &&& le_u32(final(accounts)@[0].data@) == (le_u32(old(accounts)@[0].data@) as int + 1)
                % 0x1_0000_0000
            &&& forall|i: int|
                1 <= i < old(accounts)@.len() ==> #[trigger] final(accounts)@[i] == old(
                    accounts,
                )@[i]
        },
{
    if accounts.len() == 0 {
        return Err(GreetingError::MissingAccount);
    }
    if accounts[0].owner != *program_id {
        return Err(GreetingError::UnauthorizedAccount);
    }
    let mut record = match GreetingAccount::decode(accounts[0].data.as_slice()) {
        Ok(record) => record,
        Err(e) => return Err(e),
    };
    record.counter = record.counter.wrapping_add(1);
    let ghost before = accounts[0].data@;
    let account = &mut accounts[0];
    let written = record.encode(&mut account.data);
    proof {
        lemma_decode_encode(before, record);
    }
    match written {
        Ok(()) => Ok(()),
        Err(e) => Err(e),
    }
}

} // verus!
