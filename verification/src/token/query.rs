//! Questions about a token, and what the answers of fixed shape say.

use vstd::prelude::*;
use crate::bytes::{le32_at, le64_at, rd_u32, rd_u64};
use crate::error::Errno;

verus! {

pub const TOKEN_CLASS_USER: u32 = 0x01;

pub const TOKEN_CLASS_PRIVILEGES: u32 = 0x03;

pub const TOKEN_CLASS_TYPE: u32 = 0x04;

pub const TOKEN_CLASS_INTEGRITY_LEVEL: u32 = 0x05;

pub const TOKEN_CLASS_SESSION_ID: u32 = 0x08;

pub const TOKEN_CLASS_STATISTICS: u32 = 0x0b;

/// The privileges of a token, one bit each.
#[allow(non_camel_case_types)]
#[derive(Clone, Copy, Debug, PartialEq, Eq, Structural)]
pub struct peios_privilege_set {
    pub present: u64,
    pub enabled: u64,
    pub enabled_by_default: u64,
    pub used: u64,
}

/// The identifiers of a token and when it expires.
#[allow(non_camel_case_types)]
#[derive(Clone, Copy, Debug, PartialEq, Eq, Structural)]
pub struct peios_token_statistics {
    pub token_id: u64,
    pub auth_id: u64,
    pub modified_id: u64,
    pub token_type: u32,
    pub reserved: u32,
    pub expiration: u64,
}

/// A question: which class, and where the answer goes. Addresses are given as numbers.
#[allow(non_camel_case_types)]
#[derive(Clone, Copy, Debug, PartialEq, Eq, Structural)]
pub struct kacs_query_args {
    pub token_class: u32,
    pub buf_len: u32,
    pub buf_ptr: u64,
}

/// The question for a class with a buffer for the answer. A capacity of zero asks for the
/// size; any other needs a buffer.
pub fn query_args(info_class: u32, buf: u64, cap: usize) -> (r: Result<kacs_query_args, Errno>)
    ensures
        match r {
            Ok(a) => {
                &&& cap <= u32::MAX
                &&& cap == 0 || buf != 0
                &&& a == (kacs_query_args { token_class: info_class, buf_len: cap as u32, buf_ptr: buf })
            },
            Err(e) => e == Errno::Inval && (cap > u32::MAX || (cap != 0 && buf == 0)),
        },
{
    if cap as u64 > u32::MAX as u64 {
        return Err(Errno::Inval);
    }
    if cap != 0 && buf == 0 {
        return Err(Errno::Inval);
    }
    Ok(kacs_query_args { token_class: info_class, buf_len: cap as u32, buf_ptr: buf })
}

/// The room for an answer of fixed shape, if there is somewhere to put it.
pub fn fixed_answer_room(out_null: bool, size: usize) -> (r: Result<usize, Errno>)
    ensures
        r == (if out_null {
            Err::<usize, Errno>(Errno::Inval)
        } else {
            Ok(size)
        }),
{
    if out_null {
        Err(Errno::Inval)
    } else {
        Ok(size)
    }
}

/// An answer that is one word: the type, or the interactivity scope.
pub fn word_answer(reply: &[u8]) -> (r: Result<u32, Errno>)
    ensures
        r == (if reply@.len() == 4 {
            Ok::<u32, Errno>(le32_at(reply@, 0))
        } else {
            Err(Errno::Inval)
        }),
{
    if reply.len() != 4 {
        return Err(Errno::Inval);
    }
    Ok(rd_u32(reply, 0))
}

/// The answer about the privileges.
pub fn privileges_answer(reply: &[u8]) -> (r: Result<peios_privilege_set, Errno>)
    ensures
        match r {
            Ok(p) => {
                &&& reply@.len() == 32
                &&& p.present == le64_at(reply@, 0)
                &&& p.enabled == le64_at(reply@, 8)
                &&& p.enabled_by_default == le64_at(reply@, 16)
                &&& p.used == le64_at(reply@, 24)
            },
            Err(e) => reply@.len() != 32 && e == Errno::Inval,
        },
{
    if reply.len() != 32 {
        return Err(Errno::Inval);
    }
    Ok(
        peios_privilege_set {
            present: rd_u64(reply, 0),
            enabled: rd_u64(reply, 8),
            enabled_by_default: rd_u64(reply, 16),
            used: rd_u64(reply, 24),
        },
    )
}

/// The answer about the identifiers.
pub fn statistics_answer(reply: &[u8]) -> (r: Result<peios_token_statistics, Errno>)
    ensures
        match r {
            Ok(s) => {
                &&& reply@.len() == 40
                &&& s.token_id == le64_at(reply@, 0)
                &&& s.auth_id == le64_at(reply@, 8)
                &&& s.modified_id == le64_at(reply@, 16)
                &&& s.token_type == le32_at(reply@, 24)
                &&& s.reserved == le32_at(reply@, 28)
                &&& s.expiration == le64_at(reply@, 32)
            },
            Err(e) => reply@.len() != 40 && e == Errno::Inval,
        },
{
    if reply.len() != 40 {
        return Err(Errno::Inval);
    }
    Ok(
        peios_token_statistics {
            token_id: rd_u64(reply, 0),
            auth_id: rd_u64(reply, 8),
            modified_id: rd_u64(reply, 16),
            token_type: rd_u32(reply, 24),
            reserved: rd_u32(reply, 28),
            expiration: rd_u64(reply, 32),
        },
    )
}

/// The answer about the integrity level: a SID with one sub-authority, which is the level.
pub fn integrity_answer(reply: &[u8]) -> (r: Result<u32, Errno>)
    ensures
        r == (if reply@.len() == 12 {
            Ok::<u32, Errno>(le32_at(reply@, 8))
        } else {
            Err(Errno::Inval)
        }),
{
    if reply.len() != 12 {
        return Err(Errno::Inval);
    }
    Ok(rd_u32(reply, 8))
}

} // verus!
