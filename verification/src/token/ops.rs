//! Logon sessions.

use vstd::prelude::*;
use crate::bytes::{
    law_le16_reads_back, law_le32_reads_back, le16, le16_at, le32, le32_at, put_le16, put_le32, put_slice,
};
use crate::error::Errno;
use crate::security::sid::{peios_sid_valid, sid_valid};

verus! {

/// The largest description of a session.
pub const LOGON_SESSION_SPEC_MAX_BYTES: usize = 4096;

/// A session that is to be created. `None` stands for a null pointer.
#[allow(non_camel_case_types)]
#[derive(Clone, Copy)]
pub struct peios_session_spec<'a> {
    pub logon_type: u8,
    pub auth_package: Option<&'a [u8]>,
    pub user_sid: Option<&'a [u8]>,
}

/// The description of a session: its type, the name of the authentication package behind its
/// length, and the user's SID behind its length.
pub open spec fn session_bytes(logon_type: u8, auth_pkg: Seq<u8>, user_sid: Seq<u8>) -> Seq<u8> {
    seq![logon_type] + le16(auth_pkg.len() as u16) + auth_pkg + le32(user_sid.len() as u32) + user_sid
}

/// The description of a session; nothing if it is too large.
pub fn encode_session_spec(logon_type: u8, auth_pkg: &[u8], user_sid: &[u8]) -> (r: Result<Vec<u8>, Errno>)
    ensures
        match r {
            Ok(b) => {
                &&& 7 + auth_pkg@.len() + user_sid@.len() <= LOGON_SESSION_SPEC_MAX_BYTES
                &&& b@ == session_bytes(logon_type, auth_pkg@, user_sid@)
            },
            Err(e) => {
                &&& e == Errno::Inval
                &&& 7 + auth_pkg@.len() + user_sid@.len() > LOGON_SESSION_SPEC_MAX_BYTES
            },
        },
{
    if auth_pkg.len() > LOGON_SESSION_SPEC_MAX_BYTES || user_sid.len() > LOGON_SESSION_SPEC_MAX_BYTES {
        return Err(Errno::Inval);
    }
    if 7 + auth_pkg.len() + user_sid.len() > LOGON_SESSION_SPEC_MAX_BYTES {
        return Err(Errno::Inval);
    }
    let mut spec: Vec<u8> = Vec::new();
    spec.push(logon_type);
    put_le16(&mut spec, auth_pkg.len() as u16);
    put_slice(&mut spec, auth_pkg);
    put_le32(&mut spec, user_sid.len() as u32);
    put_slice(&mut spec, user_sid);
    assert(spec@ =~= session_bytes(logon_type, auth_pkg@, user_sid@));
    Ok(spec)
}

/// A session can be asked for: everything is there, the user is a SID and the description is
/// not too large.
pub open spec fn session_fits(spec: peios_session_spec) -> bool {
    &&& spec.auth_package is Some
    &&& spec.user_sid is Some
    &&& sid_valid(spec.user_sid->Some_0@)
    &&& 7 + spec.auth_package->Some_0@.len() + spec.user_sid->Some_0@.len() <= LOGON_SESSION_SPEC_MAX_BYTES
}

/// The description for a request to create a session whose number goes to the caller.
pub fn session_request(spec: Option<&peios_session_spec>, id_out_null: bool) -> (r: Result<Vec<u8>, Errno>)
    ensures
        match r {
            Ok(b) => {
                &&& !id_out_null
                &&& spec is Some
                &&& session_fits(*spec->Some_0)
                &&& b@ == session_bytes(
                    spec->Some_0.logon_type,
                    spec->Some_0.auth_package->Some_0@,
                    spec->Some_0.user_sid->Some_0@,
                )
            },
            Err(e) => e == Errno::Inval && (id_out_null || spec is None || !session_fits(*spec->Some_0)),
        },
{
    let spec: &peios_session_spec = match spec {
        Some(spec) => spec,
        None => return Err(Errno::Inval),
    };
    if id_out_null {
        return Err(Errno::Inval);
    }
    match (spec.auth_package, spec.user_sid) {
        (Some(auth_pkg), Some(user_sid)) => {
            if !peios_sid_valid(Some(user_sid)) {
                return Err(Errno::Inval);
            }
            encode_session_spec(spec.logon_type, auth_pkg, user_sid)
        },
        _ => Err(Errno::Inval),
    }
}

/// The parts of a description read back, and nothing is left over.
pub proof fn law_session_reads_back(logon_type: u8, auth_pkg: Seq<u8>, user_sid: Seq<u8>)
    requires
        7 + auth_pkg.len() + user_sid.len() <= LOGON_SESSION_SPEC_MAX_BYTES,
    ensures
        ({
            let s = session_bytes(logon_type, auth_pkg, user_sid);
            let n = auth_pkg.len() as int;
            &&& s[0] == logon_type
            &&& le16_at(s, 1) == n
            &&& s.subrange(3, 3 + n) == auth_pkg
            &&& le32_at(s, 3 + n) == user_sid.len()
            &&& s.subrange(7 + n, s.len() as int) == user_sid
        }),
{
    let s = session_bytes(logon_type, auth_pkg, user_sid);
    let n = auth_pkg.len() as int;
    assert(s.subrange(1, 3) =~= le16(n as u16));
    law_le16_reads_back(s, 1, n as u16);
    assert(s.subrange(3, 3 + n) =~= auth_pkg);
    assert(s.subrange(3 + n, 7 + n) =~= le32(user_sid.len() as u32));
    law_le32_reads_back(s, 3 + n, user_sid.len() as u32);
    assert(s.subrange(7 + n, s.len() as int) =~= user_sid);
}

} // verus!
