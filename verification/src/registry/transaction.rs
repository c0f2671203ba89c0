//! Transactions.

use vstd::prelude::*;

verus! {

/// The request that commits a transaction.
pub const REG_IOC_COMMIT: u64 = 21008;

/// The request for the state of a transaction.
pub const REG_IOC_TXN_STATUS: u64 = 2148028945;

/// The state of a transaction, and the error that ended it.
#[allow(non_camel_case_types)]
#[derive(Clone, Copy, Debug, PartialEq, Eq, Structural)]
pub struct reg_txn_status_args {
    pub state: u32,
    pub terminal_errno: i32,
}

/// The number of a request: whether and which way its argument is copied, how large that is,
/// and which request of which family it is.
pub open spec fn request_code(direction: int, size: int, family: int, number: int) -> int {
    0x4000_0000 * direction + 0x1_0000 * size + 0x100 * family + number
}

/// Committing takes no argument; the state is read, in eight bytes.
pub proof fn law_transaction_request_codes()
    ensures
        REG_IOC_COMMIT == request_code(0, 0, 0x52, 16),
        REG_IOC_TXN_STATUS == request_code(2, 8, 0x52, 17),
{
}

/// The state and the error that the caller is told, if the kernel answered.
pub fn txn_status_answer(args: &reg_txn_status_args, ok: bool) -> (r: Option<(u32, i32)>)
    ensures
        r == (if ok {
            Some((args.state, args.terminal_errno))
        } else {
            None
        }),
{
    if ok {
        Some((args.state, args.terminal_errno))
    } else {
        None
    }
}

} // verus!
