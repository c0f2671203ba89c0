//! File objects: opening them, their security descriptors, and the policy of the mount that
//! they are on.

use vstd::prelude::*;
use crate::abi::u32_len;
use crate::bytes::{law_le32_reads_back, law_le64_reads_back, le32, le32_at, le64, le64_at, put_le32, put_le64, rd_u32};
use crate::error::Errno;

verus! {

/// Operate on the descriptor itself, with an empty path.
pub const AT_EMPTY_PATH: u32 = 0x1000;

/// How a file is to be opened. Addresses are given as numbers, zero for a null pointer.
#[allow(non_camel_case_types)]
#[derive(Clone, Copy, Debug, PartialEq, Eq, Structural)]
pub struct peios_open_params {
    pub desired_access: u32,
    pub disposition: u32,
    pub options: u32,
    pub flags: u32,
    pub sd: u64,
    pub sd_len: usize,
}

#[allow(non_camel_case_types)]
#[derive(Clone, Copy, Debug, PartialEq, Eq, Structural)]
pub struct kacs_open_how {
    pub desired_access: u32,
    pub create_disposition: u32,
    pub create_options: u32,
    pub flags: u32,
    pub sd_ptr: u64,
    pub sd_len: u32,
}

/// The arguments for opening as the kernel reads them.
pub open spec fn open_how_bytes(h: kacs_open_how) -> Seq<u8> {
    le32(h.desired_access) + le32(h.create_disposition) + le32(h.create_options) + le32(h.flags) + le64(h.sd_ptr)
        + le32(h.sd_len) + le32(0)
}

impl kacs_open_how {
    /// The arguments as the kernel reads them.
    pub fn encode(&self) -> (out: Vec<u8>)
        ensures
            out@ == open_how_bytes(*self),
            out@.len() == 32,
    {
        let mut out: Vec<u8> = Vec::new();
        put_le32(&mut out, self.desired_access);
        assert(out@ =~= le32(self.desired_access));
        put_le32(&mut out, self.create_disposition);
        put_le32(&mut out, self.create_options);
        put_le32(&mut out, self.flags);
        put_le64(&mut out, self.sd_ptr);
        put_le32(&mut out, self.sd_len);
        put_le32(&mut out, 0);
        out
    }
}

/// Packs the parameters of an open. A creator's descriptor that has a length cannot be null.
pub fn build_open_how(p: &peios_open_params) -> (r: Result<kacs_open_how, Errno>)
    ensures
        r == (if (p.sd == 0 && p.sd_len != 0) || p.sd_len > u32::MAX {
            Err::<kacs_open_how, Errno>(Errno::Inval)
        } else {
            Ok(
                kacs_open_how {
                    desired_access: p.desired_access,
                    create_disposition: p.disposition,
                    create_options: p.options,
                    flags: p.flags,
                    sd_ptr: p.sd,
                    sd_len: p.sd_len as u32,
                },
            )
        }),
{
    if p.sd == 0 && p.sd_len != 0 {
        return Err(Errno::Inval);
    }
    match u32_len(p.sd_len) {
        Ok(sd_len) => Ok(
            kacs_open_how {
                desired_access: p.desired_access,
                create_disposition: p.disposition,
                create_options: p.options,
                flags: p.flags,
                sd_ptr: p.sd,
                sd_len,
            },
        ),
        Err(e) => Err(e),
    }
}

/// The arguments of a request to open a path.
pub fn open_request(path_null: bool, p: Option<&peios_open_params>) -> (r: Result<kacs_open_how, Errno>)
    ensures
        match r {
            Ok(h) => {
                &&& !path_null
                &&& p is Some
                &&& p->Some_0.sd != 0 || p->Some_0.sd_len == 0
                &&& p->Some_0.sd_len <= u32::MAX
                &&& h == (kacs_open_how {
                    desired_access: p->Some_0.desired_access,
                    create_disposition: p->Some_0.disposition,
                    create_options: p->Some_0.options,
                    flags: p->Some_0.flags,
                    sd_ptr: p->Some_0.sd,
                    sd_len: p->Some_0.sd_len as u32,
                })
            },
            Err(e) => {
                &&& e == Errno::Inval
                &&& path_null || p is None || (p->Some_0.sd == 0 && p->Some_0.sd_len != 0) || p->Some_0.sd_len > u32::MAX
            },
        },
{
    match p {
        Some(p) => if path_null {
            Err(Errno::Inval)
        } else {
            build_open_how(p)
        },
        None => Err(Errno::Inval),
    }
}

/// What a caller with a buffer of capacity `cap` is told when the kernel needs `need` bytes
/// and copies only into a buffer that is large enough: a capacity of zero probes.
pub fn emit_len(need: usize, cap: usize) -> (r: Result<usize, Errno>)
    ensures
        r == (if cap != 0 && need > cap {
            Err::<usize, Errno>(Errno::Range)
        } else {
            Ok(need)
        }),
{
    if cap != 0 && need > cap {
        return Err(Errno::Range);
    }
    Ok(need)
}

/// The capacity to offer the kernel when a descriptor is read.
pub fn get_sd_request(path_null: bool, buf_null: bool, cap: usize) -> (r: Result<u32, Errno>)
    ensures
        r == (if path_null || (cap != 0 && buf_null) || cap > u32::MAX {
            Err::<u32, Errno>(Errno::Inval)
        } else {
            Ok(cap as u32)
        }),
{
    if path_null {
        return Err(Errno::Inval);
    }
    if cap != 0 && buf_null {
        return Err(Errno::Inval);
    }
    u32_len(cap)
}

/// The length to give the kernel when a descriptor is written.
pub fn set_sd_request(path_null: bool, sd_null: bool, len: usize) -> (r: Result<u32, Errno>)
    ensures
        r == (if path_null || sd_null || len == 0 || len > u32::MAX {
            Err::<u32, Errno>(Errno::Inval)
        } else {
            Ok(len as u32)
        }),
{
    if path_null {
        return Err(Errno::Inval);
    }
    if sd_null || len == 0 {
        return Err(Errno::Inval);
    }
    u32_len(len)
}

/// The policy of a mount.
#[allow(non_camel_case_types)]
#[derive(Clone, Copy, Debug, PartialEq, Eq, Structural)]
pub struct peios_mount_policy {
    pub policy: u32,
    pub flags: u32,
    pub generation: u32,
    /// Where the template is; zero if there is none, or if it did not fit.
    pub template_sd: u64,
    pub template_sd_len: usize,
}

#[allow(non_camel_case_types)]
#[derive(Clone, Copy, Debug, PartialEq, Eq, Structural)]
pub struct kacs_mount_policy_args {
    pub policy: u32,
    pub flags: u32,
    pub generation: u32,
    pub template_sd_ptr: u64,
    pub template_sd_len: u32,
}

/// The arguments about a mount as the kernel reads and writes them.
pub open spec fn mount_policy_bytes(a: kacs_mount_policy_args) -> Seq<u8> {
    le32(a.policy) + le32(a.flags) + le32(a.generation) + le32(0) + le64(a.template_sd_ptr) + le32(a.template_sd_len)
        + le32(0)
}

impl kacs_mount_policy_args {
    /// The arguments as the kernel reads them.
    pub fn encode(&self) -> (out: Vec<u8>)
        ensures
            out@ == mount_policy_bytes(*self),
            out@.len() == 32,
    {
        let mut out: Vec<u8> = Vec::new();
        put_le32(&mut out, self.policy);
        assert(out@ =~= le32(self.policy));
        put_le32(&mut out, self.flags);
        put_le32(&mut out, self.generation);
        put_le32(&mut out, 0);
        put_le64(&mut out, self.template_sd_ptr);
        put_le32(&mut out, self.template_sd_len);
        put_le32(&mut out, 0);
        out
    }

    /// The arguments as the kernel left them.
    pub fn decode(b: &[u8]) -> (r: Option<kacs_mount_policy_args>)
        ensures
            match r {
                Some(a) => {
                    &&& b@.len() == 32
                    &&& a.policy == le32_at(b@, 0)
                    &&& a.flags == le32_at(b@, 4)
                    &&& a.generation == le32_at(b@, 8)
                    &&& a.template_sd_ptr == le64_at(b@, 16)
                    &&& a.template_sd_len == le32_at(b@, 24)
                },
                None => b@.len() != 32,
            },
    {
        if b.len() != 32 {
            return None;
        }
        Some(
            kacs_mount_policy_args {
                policy: rd_u32(b, 0),
                flags: rd_u32(b, 4),
                generation: rd_u32(b, 8),
                template_sd_ptr: crate::bytes::rd_u64(b, 16),
                template_sd_len: rd_u32(b, 24),
            },
        )
    }
}

/// The arguments of a request to read a mount's policy, with a buffer for the template.
pub fn mount_get_args(out_null: bool, tmpl_buf: u64, tmpl_cap: usize) -> (r: Result<kacs_mount_policy_args, Errno>)
    ensures
        r == (if out_null || (tmpl_cap != 0 && tmpl_buf == 0) || tmpl_cap > u32::MAX {
            Err::<kacs_mount_policy_args, Errno>(Errno::Inval)
        } else {
            Ok(
                kacs_mount_policy_args {
                    policy: 0,
                    flags: 0,
                    generation: 0,
                    template_sd_ptr: tmpl_buf,
                    template_sd_len: tmpl_cap as u32,
                },
            )
        }),
{
    if out_null {
        return Err(Errno::Inval);
    }
    if tmpl_cap != 0 && tmpl_buf == 0 {
        return Err(Errno::Inval);
    }
    match u32_len(tmpl_cap) {
        Ok(cap) => Ok(
            kacs_mount_policy_args {
                policy: 0,
                flags: 0,
                generation: 0,
                template_sd_ptr: tmpl_buf,
                template_sd_len: cap,
            },
        ),
        Err(e) => Err(e),
    }
}

/// The policy that the kernel answered with. The length of the template is always told; its
/// place is the caller's buffer if there is a template and it fits there.
pub fn mount_policy_answer(args: &kacs_mount_policy_args, tmpl_buf: u64, tmpl_cap: usize) -> (p: peios_mount_policy)
    ensures
        p == (peios_mount_policy {
            policy: args.policy,
            flags: args.flags,
            generation: args.generation,
            template_sd: if args.template_sd_len != 0 && tmpl_buf != 0 && tmpl_cap >= args.template_sd_len {
                tmpl_buf
            } else {
                0
            },
            template_sd_len: args.template_sd_len as usize,
        }),
{
    let len: usize = args.template_sd_len as usize;
    peios_mount_policy {
        policy: args.policy,
        flags: args.flags,
        generation: args.generation,
        template_sd: if len != 0 && tmpl_buf != 0 && tmpl_cap >= len {
            tmpl_buf
        } else {
            0
        },
        template_sd_len: len,
    }
}

/// The arguments of a request to set a mount's policy.
pub fn mount_set_args(p: Option<&peios_mount_policy>) -> (r: Result<kacs_mount_policy_args, Errno>)
    ensures
        match r {
            Ok(a) => {
                &&& p is Some
                &&& p->Some_0.template_sd_len == 0 || p->Some_0.template_sd != 0
                &&& p->Some_0.template_sd_len <= u32::MAX
                &&& a == (kacs_mount_policy_args {
                    policy: p->Some_0.policy,
                    flags: p->Some_0.flags,
                    generation: p->Some_0.generation,
                    template_sd_ptr: p->Some_0.template_sd,
                    template_sd_len: p->Some_0.template_sd_len as u32,
                })
            },
            Err(e) => {
                &&& e == Errno::Inval
                &&& p is None || (p->Some_0.template_sd_len != 0 && p->Some_0.template_sd == 0)
                    || p->Some_0.template_sd_len > u32::MAX
            },
        },
{
    let p: &peios_mount_policy = match p {
        Some(p) => p,
        None => return Err(Errno::Inval),
    };
    if p.template_sd_len != 0 && p.template_sd == 0 {
        return Err(Errno::Inval);
    }
    match u32_len(p.template_sd_len) {
        Ok(template_sd_len) => Ok(
            kacs_mount_policy_args {
                policy: p.policy,
                flags: p.flags,
                generation: p.generation,
                template_sd_ptr: p.template_sd,
                template_sd_len,
            },
        ),
        Err(e) => Err(e),
    }
}

/// The arguments about a mount read back as they were written.
pub proof fn law_mount_policy_reads_back(a: kacs_mount_policy_args)
    ensures
        ({
            let s = mount_policy_bytes(a);
            &&& le32_at(s, 0) == a.policy
            &&& le32_at(s, 4) == a.flags
            &&& le32_at(s, 8) == a.generation
            &&& le64_at(s, 16) == a.template_sd_ptr
            &&& le32_at(s, 24) == a.template_sd_len
        }),
{
    let s = mount_policy_bytes(a);
    assert(s.subrange(0, 4) =~= le32(a.policy));
    law_le32_reads_back(s, 0, a.policy);
    assert(s.subrange(4, 8) =~= le32(a.flags));
    law_le32_reads_back(s, 4, a.flags);
    assert(s.subrange(8, 12) =~= le32(a.generation));
    law_le32_reads_back(s, 8, a.generation);
    assert(s.subrange(16, 24) =~= le64(a.template_sd_ptr));
    law_le64_reads_back(s, 16, a.template_sd_ptr);
    assert(s.subrange(24, 28) =~= le32(a.template_sd_len));
    law_le32_reads_back(s, 24, a.template_sd_len);
}

} // verus!
