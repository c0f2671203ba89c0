//! Access checks: what is asked of the kernel, and what its answer means.

use vstd::prelude::*;
use crate::abi::{ptr_len_valid, u32_len};
use crate::bytes::{le32, le64, put_le32, put_le64, put_slice};
use crate::error::Errno;
use crate::security::mapping::kacs_generic_mapping;

verus! {

/// The size of the arguments of a check.
pub const ACCESS_CHECK_ARGS_BYTES: u32 = 136;

/// A check that is asked for. Addresses are given as numbers, zero for a null pointer.
#[allow(non_camel_case_types)]
#[derive(Clone, Copy, Debug, PartialEq, Eq, Structural)]
pub struct peios_access_request {
    /// The token to check, or -1 for the caller's own.
    pub token_fd: i32,
    pub sd: u64,
    pub sd_len: usize,
    pub desired: u32,
    pub mapping: kacs_generic_mapping,
    pub self_sid: u64,
    pub self_sid_len: usize,
    pub privilege_intent: u32,
    pub object_tree: u64,
    pub object_tree_count: u32,
    pub local_claims: u64,
    pub local_claims_len: usize,
    pub pip_type: u32,
    pub pip_trust: u32,
    pub audit_context: u64,
    pub audit_context_len: usize,
}

/// What a check says for auditing.
#[allow(non_camel_case_types)]
#[derive(Clone, Copy, Debug, PartialEq, Eq, Structural)]
pub struct peios_access_audit {
    pub continuous_audit: u32,
    pub staging_mismatch: i32,
}

/// The arguments of a check.
#[allow(non_camel_case_types)]
#[derive(Clone, Copy, Debug, PartialEq, Eq, Structural)]
pub struct kacs_access_check_args {
    pub caller_size: u32,
    pub token_fd: i32,
    pub sd_ptr: u64,
    pub sd_len: u32,
    pub desired_access: u32,
    pub mapping_read: u32,
    pub mapping_write: u32,
    pub mapping_execute: u32,
    pub mapping_all: u32,
    pub self_sid_ptr: u64,
    pub self_sid_len: u32,
    pub privilege_intent: u32,
    pub object_tree_ptr: u64,
    pub object_tree_count: u32,
    pub local_claims_ptr: u64,
    pub local_claims_len: u32,
    pub granted_out_ptr: u64,
    pub pip_type: u32,
    pub pip_trust: u32,
    pub audit_context_ptr: u64,
    pub audit_context_len: u32,
    pub continuous_audit_out_ptr: u64,
    pub staging_mismatch_out_ptr: u64,
}

/// The part of the arguments that every check has.
pub open spec fn access_args_front(a: kacs_access_check_args) -> Seq<u8> {
    le32(a.caller_size) + le32(a.token_fd as u32) + le64(a.sd_ptr) + le32(a.sd_len) + le32(a.desired_access) + le32(
        a.mapping_read,
    ) + le32(a.mapping_write) + le32(a.mapping_execute) + le32(a.mapping_all) + le64(a.self_sid_ptr) + le32(
        a.self_sid_len,
    ) + le32(a.privilege_intent)
}

/// The rest of the arguments; reserved words are zero.
pub open spec fn access_args_back(a: kacs_access_check_args) -> Seq<u8> {
    le64(a.object_tree_ptr) + le32(a.object_tree_count) + le32(0) + le64(a.local_claims_ptr) + le32(a.local_claims_len)
        + le32(0) + le64(a.granted_out_ptr) + le32(a.pip_type) + le32(a.pip_trust) + le64(a.audit_context_ptr) + le32(
        a.audit_context_len,
    ) + le32(0) + le64(a.continuous_audit_out_ptr) + le64(a.staging_mismatch_out_ptr)
}

/// The arguments as the kernel reads them.
pub open spec fn access_args_bytes(a: kacs_access_check_args) -> Seq<u8> {
    access_args_front(a) + access_args_back(a)
}

proof fn lemma_front_length(a: kacs_access_check_args)
    ensures
        access_args_front(a).len() == 56,
{
}

proof fn lemma_back_length(a: kacs_access_check_args)
    ensures
        access_args_back(a).len() == 80,
{
    let tree = le64(a.object_tree_ptr) + le32(a.object_tree_count) + le32(0);
    assert(tree.len() == 16);
    let claims = tree + le64(a.local_claims_ptr) + le32(a.local_claims_len) + le32(0);
    assert(claims.len() == 32);
    let pip = claims + le64(a.granted_out_ptr) + le32(a.pip_type) + le32(a.pip_trust);
    assert(pip.len() == 48);
    let audit = pip + le64(a.audit_context_ptr) + le32(a.audit_context_len) + le32(0);
    assert(audit.len() == 64);
    assert(access_args_back(a) == audit + le64(a.continuous_audit_out_ptr) + le64(a.staging_mismatch_out_ptr));
}

impl kacs_access_check_args {
    /// The arguments as the kernel reads them.
    pub fn encode(&self) -> (out: Vec<u8>)
        ensures
            out@ == access_args_bytes(*self),
            out@.len() == ACCESS_CHECK_ARGS_BYTES,
    {
        let mut out: Vec<u8> = Vec::new();
        self.put_front(&mut out);
        self.put_back(&mut out);
        proof {
            lemma_front_length(*self);
            lemma_back_length(*self);
        }
        assert(out@ =~= access_args_bytes(*self));
        out
    }

    fn put_front(&self, out: &mut Vec<u8>)
        ensures
            final(out)@ == old(out)@ + access_args_front(*self),
    {
        let mut own: Vec<u8> = Vec::new();
        put_le32(&mut own, self.caller_size);
        assert(own@ =~= le32(self.caller_size));
        put_le32(&mut own, self.token_fd as u32);
        put_le64(&mut own, self.sd_ptr);
        put_le32(&mut own, self.sd_len);
        put_le32(&mut own, self.desired_access);
        put_le32(&mut own, self.mapping_read);
        put_le32(&mut own, self.mapping_write);
        put_le32(&mut own, self.mapping_execute);
        put_le32(&mut own, self.mapping_all);
        put_le64(&mut own, self.self_sid_ptr);
        put_le32(&mut own, self.self_sid_len);
        put_le32(&mut own, self.privilege_intent);
        put_slice(out, own.as_slice());
    }

    fn put_back(&self, out: &mut Vec<u8>)
        ensures
            final(out)@ == old(out)@ + access_args_back(*self),
    {
        let mut own: Vec<u8> = Vec::new();
        put_le64(&mut own, self.object_tree_ptr);
        assert(own@ =~= le64(self.object_tree_ptr));
        put_le32(&mut own, self.object_tree_count);
        put_le32(&mut own, 0);
        put_le64(&mut own, self.local_claims_ptr);
        put_le32(&mut own, self.local_claims_len);
        put_le32(&mut own, 0);
        put_le64(&mut own, self.granted_out_ptr);
        put_le32(&mut own, self.pip_type);
        put_le32(&mut own, self.pip_trust);
        put_le64(&mut own, self.audit_context_ptr);
        put_le32(&mut own, self.audit_context_len);
        put_le32(&mut own, 0);
        put_le64(&mut own, self.continuous_audit_out_ptr);
        put_le64(&mut own, self.staging_mismatch_out_ptr);
        put_slice(out, own.as_slice());
    }
}

/// A request can be put to the kernel: there is a descriptor, nothing that has a length is
/// null, and there is an object tree where one is needed.
pub open spec fn request_consistent(req: peios_access_request, require_object_tree: bool) -> bool {
    &&& req.sd != 0 && req.sd_len != 0
    &&& req.self_sid_len == 0 || req.self_sid != 0
    &&& req.local_claims_len == 0 || req.local_claims != 0
    &&& req.audit_context_len == 0 || req.audit_context != 0
    &&& req.object_tree_count == 0 || req.object_tree != 0
    &&& require_object_tree ==> req.object_tree_count != 0
}

/// Checks a request before the kernel sees it.
pub fn validate_request(req: &peios_access_request, require_object_tree: bool) -> (r: Result<(), Errno>)
    ensures
        r == (if request_consistent(*req, require_object_tree) {
            Ok::<(), Errno>(())
        } else {
            Err(Errno::Inval)
        }),
{
    if req.sd == 0 || req.sd_len == 0 {
        return Err(Errno::Inval);
    }
    if !ptr_len_valid(req.self_sid, req.self_sid_len) || !ptr_len_valid(req.local_claims, req.local_claims_len)
        || !ptr_len_valid(req.audit_context, req.audit_context_len) || !ptr_len_valid(
        req.object_tree,
        req.object_tree_count as usize,
    ) {
        return Err(Errno::Inval);
    }
    if require_object_tree && req.object_tree_count == 0 {
        return Err(Errno::Inval);
    }
    Ok(())
}

/// Every length of a request fits the arguments.
pub open spec fn request_lengths_fit(req: peios_access_request) -> bool {
    req.sd_len <= u32::MAX && req.self_sid_len <= u32::MAX && req.local_claims_len <= u32::MAX && req.audit_context_len
        <= u32::MAX
}

/// The arguments for a request, without places for the outputs.
pub open spec fn request_args(req: peios_access_request) -> kacs_access_check_args {
    kacs_access_check_args {
        caller_size: ACCESS_CHECK_ARGS_BYTES,
        token_fd: req.token_fd,
        sd_ptr: req.sd,
        sd_len: req.sd_len as u32,
        desired_access: req.desired,
        mapping_read: req.mapping.read,
        mapping_write: req.mapping.write,
        mapping_execute: req.mapping.execute,
        mapping_all: req.mapping.all,
        self_sid_ptr: req.self_sid,
        self_sid_len: req.self_sid_len as u32,
        privilege_intent: req.privilege_intent,
        object_tree_ptr: req.object_tree,
        object_tree_count: req.object_tree_count,
        local_claims_ptr: req.local_claims,
        local_claims_len: req.local_claims_len as u32,
        granted_out_ptr: 0,
        pip_type: req.pip_type,
        pip_trust: req.pip_trust,
        audit_context_ptr: req.audit_context,
        audit_context_len: req.audit_context_len as u32,
        continuous_audit_out_ptr: 0,
        staging_mismatch_out_ptr: 0,
    }
}

/// Packs a request into arguments.
pub fn build_args(req: &peios_access_request) -> (r: Result<kacs_access_check_args, Errno>)
    ensures
        r == (if request_lengths_fit(*req) {
            Ok::<kacs_access_check_args, Errno>(request_args(*req))
        } else {
            Err(Errno::Inval)
        }),
        r matches Ok(a) ==> {
            &&& a.caller_size == 136
            &&& a.token_fd == req.token_fd
            &&& a.sd_ptr == req.sd
            &&& a.sd_len == req.sd_len
            &&& a.desired_access == req.desired
            &&& a.mapping_read == req.mapping.read
            &&& a.mapping_write == req.mapping.write
            &&& a.mapping_execute == req.mapping.execute
            &&& a.mapping_all == req.mapping.all
            &&& a.self_sid_ptr == req.self_sid
            &&& a.self_sid_len == req.self_sid_len
            &&& a.privilege_intent == req.privilege_intent
            &&& a.object_tree_ptr == req.object_tree
            &&& a.object_tree_count == req.object_tree_count
            &&& a.local_claims_ptr == req.local_claims
            &&& a.local_claims_len == req.local_claims_len
            &&& a.granted_out_ptr == 0
            &&& a.pip_type == req.pip_type
            &&& a.pip_trust == req.pip_trust
            &&& a.audit_context_ptr == req.audit_context
            &&& a.audit_context_len == req.audit_context_len
            &&& a.continuous_audit_out_ptr == 0
            &&& a.staging_mismatch_out_ptr == 0
        },
{
    let sd_len: u32 = match u32_len(req.sd_len) {
        Ok(n) => n,
        Err(e) => return Err(e),
    };
    let self_sid_len: u32 = match u32_len(req.self_sid_len) {
        Ok(n) => n,
        Err(e) => return Err(e),
    };
    let local_claims_len: u32 = match u32_len(req.local_claims_len) {
        Ok(n) => n,
        Err(e) => return Err(e),
    };
    let audit_context_len: u32 = match u32_len(req.audit_context_len) {
        Ok(n) => n,
        Err(e) => return Err(e),
    };
    Ok(
        kacs_access_check_args {
            caller_size: ACCESS_CHECK_ARGS_BYTES,
            token_fd: req.token_fd,
            sd_ptr: req.sd,
            sd_len,
            desired_access: req.desired,
            mapping_read: req.mapping.read,
            mapping_write: req.mapping.write,
            mapping_execute: req.mapping.execute,
            mapping_all: req.mapping.all,
            self_sid_ptr: req.self_sid,
            self_sid_len,
            privilege_intent: req.privilege_intent,
            object_tree_ptr: req.object_tree,
            object_tree_count: req.object_tree_count,
            local_claims_ptr: req.local_claims,
            local_claims_len,
            granted_out_ptr: 0,
            pip_type: req.pip_type,
            pip_trust: req.pip_trust,
            audit_context_ptr: req.audit_context,
            audit_context_len,
            continuous_audit_out_ptr: 0,
            staging_mismatch_out_ptr: 0,
        },
    )
}

/// Where the kernel puts the outputs of a check.
#[derive(Clone, Copy, Debug, PartialEq, Eq, Structural)]
pub struct OutputPlaces {
    pub granted: u64,
    pub continuous_audit: u64,
    pub staging_mismatch: u64,
}

/// The arguments of a check with one verdict. The places for auditing are only passed on if
/// the caller wants to know.
pub fn check_args(req: Option<&peios_access_request>, out: OutputPlaces, audit: bool) -> (r: Result<
    kacs_access_check_args,
    Errno,
>)
    ensures
        match r {
            Ok(a) => {
                &&& req is Some
                &&& request_consistent(*req->Some_0, false)
                &&& request_lengths_fit(*req->Some_0)
                &&& a == (kacs_access_check_args {
                    granted_out_ptr: out.granted,
                    continuous_audit_out_ptr: if audit {
                        out.continuous_audit
                    } else {
                        0
                    },
                    staging_mismatch_out_ptr: if audit {
                        out.staging_mismatch
                    } else {
                        0
                    },
                    ..request_args(*req->Some_0)
                })
            },
            Err(e) => {
                &&& e == Errno::Inval
                &&& req is None || !request_consistent(*req->Some_0, false) || !request_lengths_fit(*req->Some_0)
            },
        },
{
    let req: &peios_access_request = match req {
        Some(req) => req,
        None => return Err(Errno::Inval),
    };
    if let Err(e) = validate_request(req, false) {
        return Err(e);
    }
    let mut args: kacs_access_check_args = match build_args(req) {
        Ok(args) => args,
        Err(e) => return Err(e),
    };
    args.granted_out_ptr = out.granted;
    if audit {
        args.continuous_audit_out_ptr = out.continuous_audit;
        args.staging_mismatch_out_ptr = out.staging_mismatch;
    }
    Ok(args)
}

/// The arguments of a check with a verdict for each node of an object tree.
pub fn list_args(req: Option<&peios_access_request>, results_null: bool, count: u32) -> (r: Result<
    kacs_access_check_args,
    Errno,
>)
    ensures
        match r {
            Ok(a) => {
                &&& req is Some
                &&& request_consistent(*req->Some_0, true)
                &&& request_lengths_fit(*req->Some_0)
                &&& count == req->Some_0.object_tree_count
                &&& !results_null
                &&& a == request_args(*req->Some_0)
            },
            Err(e) => {
                &&& e == Errno::Inval
                &&& req is None || !request_consistent(*req->Some_0, true) || !request_lengths_fit(*req->Some_0) || count
                    != req->Some_0.object_tree_count || results_null
            },
        },
{
    let req: &peios_access_request = match req {
        Some(req) => req,
        None => return Err(Errno::Inval),
    };
    if let Err(e) = validate_request(req, true) {
        return Err(e);
    }
    if count != req.object_tree_count || results_null {
        return Err(Errno::Inval);
    }
    build_args(req)
}

/// What a check came to.
#[derive(Clone, Copy, Debug, PartialEq, Eq, Structural)]
pub enum Verdict {
    /// Every right is granted, and the outputs are there.
    Granted,
    /// A right is denied, and the outputs are there.
    Denied,
    /// The check failed, and there are no outputs.
    Failed(Errno),
}

/// What the kernel's return value and error number mean: only a denial among the errors comes
/// with outputs.
pub fn access_verdict(ret: i64, errno: Errno) -> (v: Verdict)
    ensures
        v == (if ret >= 0 {
            Verdict::Granted
        } else if errno == Errno::Acces {
            Verdict::Denied
        } else {
            Verdict::Failed(errno)
        }),
{
    if ret >= 0 {
        Verdict::Granted
    } else if errno == Errno::Acces {
        Verdict::Denied
    } else {
        Verdict::Failed(errno)
    }
}

/// The outputs that a caller gets: none unless the kernel wrote them.
pub fn check_outputs(v: Verdict, granted: u32, continuous_audit: u32, staging_mismatch: u32) -> (r: Option<
    (u32, peios_access_audit),
>)
    ensures
        match r {
            Some((g, a)) => {
                &&& !(v is Failed)
                &&& g == granted
                &&& a.continuous_audit == continuous_audit
                &&& a.staging_mismatch == staging_mismatch as i32
            },
            None => v is Failed,
        },
{
    match v {
        Verdict::Failed(_) => None,
        _ => Some((granted, peios_access_audit { continuous_audit, staging_mismatch: staging_mismatch as i32 })),
    }
}

} // verus!
