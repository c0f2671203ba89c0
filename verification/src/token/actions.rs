//! Requests that change a token or derive another one from it.

use vstd::prelude::*;
use crate::bytes::{put_le32, put_slice};
use crate::error::Errno;
use crate::security::sid::le32s;

verus! {

pub const PRIVILEGE_RESET_ALL_DEFAULTS: u32 = 0x8000_0000;

/// The group index that asks for a reset.
pub const GROUP_RESET_INDEX: u32 = 0xffff_ffff;

#[allow(non_camel_case_types)]
#[derive(Clone, Copy, Debug, PartialEq, Eq, Structural)]
pub struct kacs_priv_entry {
    pub luid: u32,
    pub attributes: u32,
}

#[allow(non_camel_case_types)]
#[derive(Clone, Copy, Debug, PartialEq, Eq, Structural)]
pub struct kacs_group_entry {
    pub index: u32,
    pub enable: u32,
}

/// A change of the defaults of a token. Addresses are given as numbers.
#[allow(non_camel_case_types)]
#[derive(Clone, Copy, Debug, PartialEq, Eq, Structural)]
pub struct kacs_adjust_default_args {
    pub dacl_ptr: u64,
    pub dacl_len: u32,
    pub owner_index: u16,
    pub group_index: u16,
}

#[allow(non_camel_case_types)]
#[derive(Clone, Copy, Debug, PartialEq, Eq, Structural)]
pub struct kacs_duplicate_args {
    pub access_mask: u32,
    pub token_type: u32,
    pub impersonation_level: u32,
    pub result_fd: i32,
}

#[allow(non_camel_case_types)]
#[derive(Clone, Copy, Debug, PartialEq, Eq, Structural)]
pub struct kacs_restrict_args {
    pub privs_to_delete: u64,
    pub num_deny_indices: u32,
    pub num_restrict_sids: u32,
    pub data_len: u32,
    pub flags: u32,
}

/// How a token is to be filtered. `None` stands for a null pointer.
#[allow(non_camel_case_types)]
#[derive(Clone, Copy)]
pub struct peios_token_restrict<'a> {
    pub privs_to_delete: u64,
    pub deny_group_indices: Option<&'a [u32]>,
    pub deny_count: u32,
    pub restrict_sids: Option<&'a [Option<&'a [u8]>]>,
    pub restrict_count: u32,
    pub flags: u32,
}

impl<'a> peios_token_restrict<'a> {
    /// The arrays have as many items as the counts say.
    pub open spec fn wf(&self) -> bool {
        &&& self.deny_group_indices matches Some(d) ==> d@.len() == self.deny_count
        &&& self.restrict_sids matches Some(s) ==> s@.len() == self.restrict_count
    }

    pub open spec fn deny(&self) -> Seq<u32> {
        match self.deny_group_indices {
            Some(d) => d@,
            None => Seq::empty(),
        }
    }

    pub open spec fn sids(&self) -> Seq<Option<&'a [u8]>> {
        match self.restrict_sids {
            Some(s) => s@,
            None => Seq::empty(),
        }
    }

    /// All arrays and all SIDs that are counted are there.
    pub open spec fn complete(&self) -> bool {
        &&& self.deny_count == 0 || self.deny_group_indices is Some
        &&& self.restrict_count == 0 || self.restrict_sids is Some
        &&& forall|i: int| 0 <= i < self.sids().len() ==> (#[trigger] self.sids()[i]) is Some
    }
}

/// The request that puts the privileges back to what is enabled by default.
pub fn reset_privileges_entry() -> (e: kacs_priv_entry)
    ensures
        e.luid == 0,
        e.attributes == PRIVILEGE_RESET_ALL_DEFAULTS,
{
    kacs_priv_entry { luid: 0, attributes: PRIVILEGE_RESET_ALL_DEFAULTS }
}

/// The request that puts the groups back to how the token was created.
pub fn reset_groups_entry() -> (e: kacs_group_entry)
    ensures
        e.index == GROUP_RESET_INDEX,
        e.enable == 0,
{
    kacs_group_entry { index: GROUP_RESET_INDEX, enable: 0 }
}

/// A change of the defaults. Without a list its length is ignored; a list of length zero
/// clears the one there is.
pub fn adjust_default_args(dacl: u64, len: usize, owner_index: u16, group_index: u16) -> (r: Result<
    kacs_adjust_default_args,
    Errno,
>)
    ensures
        match r {
            Ok(a) => {
                &&& dacl == 0 || len <= u32::MAX
                &&& a.dacl_ptr == dacl
                &&& a.dacl_len == (if dacl == 0 {
                    0
                } else {
                    len as u32
                })
                &&& a.owner_index == owner_index
                &&& a.group_index == group_index
            },
            Err(e) => dacl != 0 && len > u32::MAX && e == Errno::Inval,
        },
{
    let dacl_len: u32 = if dacl == 0 {
        0
    } else {
        if len as u64 > u32::MAX as u64 {
            return Err(Errno::Inval);
        }
        len as u32
    };
    Ok(kacs_adjust_default_args { dacl_ptr: dacl, dacl_len, owner_index, group_index })
}

/// A request for a copy of a token.
pub fn duplicate_args(access: u32, token_type: u8, imp_level: u8) -> (a: kacs_duplicate_args)
    ensures
        a.access_mask == access,
        a.token_type == token_type,
        a.impersonation_level == imp_level,
        a.result_fd == -1,
{
    kacs_duplicate_args {
        access_mask: access,
        token_type: token_type as u32,
        impersonation_level: imp_level as u32,
        result_fd: -1,
    }
}

/// SIDs one after the other.
pub open spec fn packed_sids(sids: Seq<Option<&[u8]>>) -> Seq<u8>
    decreases sids.len(),
{
    if sids.len() == 0 {
        Seq::empty()
    } else {
        packed_sids(sids.drop_last()) + sids.last()->Some_0@
    }
}

/// The data of a request to filter: the indices of the groups to deny, then the SIDs.
pub open spec fn restrict_payload(deny: Seq<u32>, sids: Seq<Option<&[u8]>>) -> Seq<u8> {
    le32s(deny) + packed_sids(sids)
}

/// Packs the data of a request to filter; nothing if a SID is missing.
pub fn pack_restrict(deny: &[u32], sids: &[Option<&[u8]>]) -> (r: Option<Vec<u8>>)
    ensures
        match r {
            Some(p) => {
                &&& forall|i: int| 0 <= i < sids@.len() ==> (#[trigger] sids@[i]) is Some
                &&& p@ == restrict_payload(deny@, sids@)
            },
            None => exists|i: int| 0 <= i < sids@.len() && (#[trigger] sids@[i]) is None,
        },
{
    let mut payload: Vec<u8> = Vec::new();
    let mut i: usize = 0;
    assert(payload@ =~= le32s(deny@.take(0)));
    while i < deny.len()
        invariant
            i <= deny@.len(),
            payload@ == le32s(deny@.take(i as int)),
        decreases deny@.len() - i,
    {
        put_le32(&mut payload, deny[i]);
        assert(payload@ =~= le32s(deny@.take(i + 1)));
        i = i + 1;
    }
    assert(deny@.take(i as int) =~= deny@);
    let ghost front = payload@;
    let mut j: usize = 0;
    assert(payload@ =~= front + packed_sids(sids@.take(0)));
    while j < sids.len()
        invariant
            j <= sids@.len(),
            forall|k: int| 0 <= k < j ==> (#[trigger] sids@[k]) is Some,
            payload@ == front + packed_sids(sids@.take(j as int)),
        decreases sids@.len() - j,
    {
        match sids[j] {
            Some(sid) => {
                put_slice(&mut payload, sid);
            },
            None => {
                assert(sids@[j as int] is None);
                return None;
            },
        }
        assert(sids@.take(j + 1).drop_last() =~= sids@.take(j as int));
        assert(payload@ =~= front + packed_sids(sids@.take(j + 1)));
        j = j + 1;
    }
    assert(sids@.take(j as int) =~= sids@);
    Some(payload)
}

/// A request to filter a token: its arguments and the data that they point to.
pub fn restrict_request(spec: Option<&peios_token_restrict>) -> (r: Result<(kacs_restrict_args, Vec<u8>), Errno>)
    requires
        spec matches Some(s) ==> s.wf(),
    ensures
        match r {
            Ok((a, data)) => {
                &&& spec is Some
                &&& spec->Some_0.complete()
                &&& data@ == restrict_payload(spec->Some_0.deny(), spec->Some_0.sids())
                &&& a.data_len == data@.len()
                &&& a.privs_to_delete == spec->Some_0.privs_to_delete
                &&& a.num_deny_indices == spec->Some_0.deny_count
                &&& a.num_restrict_sids == spec->Some_0.restrict_count
                &&& a.flags == spec->Some_0.flags
            },
            Err(e) => {
                &&& e == Errno::Inval
                &&& spec is None || !spec->Some_0.complete() || restrict_payload(
                    spec->Some_0.deny(),
                    spec->Some_0.sids(),
                ).len() > u32::MAX
            },
        },
{
    let spec: &peios_token_restrict = match spec {
        Some(spec) => spec,
        None => return Err(Errno::Inval),
    };
    let no_deny: &[u32] = &[];
    let deny: &[u32] = match spec.deny_group_indices {
        Some(deny) => deny,
        None => {
            if spec.deny_count != 0 {
                return Err(Errno::Inval);
            }
            no_deny
        },
    };
    assert(deny@ =~= spec.deny());
    let no_sids: &[Option<&[u8]>] = &[];
    let sids: &[Option<&[u8]>] = match spec.restrict_sids {
        Some(sids) => sids,
        None => {
            if spec.restrict_count != 0 {
                return Err(Errno::Inval);
            }
            no_sids
        },
    };
    assert(sids@ =~= spec.sids());
    let payload: Vec<u8> = match pack_restrict(deny, sids) {
        Some(payload) => payload,
        None => return Err(Errno::Inval),
    };
    if payload.len() as u64 > u32::MAX as u64 {
        return Err(Errno::Inval);
    }
    let args = kacs_restrict_args {
        privs_to_delete: spec.privs_to_delete,
        num_deny_indices: spec.deny_count,
        num_restrict_sids: spec.restrict_count,
        data_len: payload.len() as u32,
        flags: spec.flags,
    };
    Ok((args, payload))
}

} // verus!
