//! Access checks: what of a request reaches the kernel, and where.

use vstd::prelude::*;
use crate::access::{
    access_args_back, access_args_front, access_verdict, build_args, check_args, check_outputs, kacs_access_check_args,
    list_args, peios_access_audit, peios_access_request, validate_request, OutputPlaces, Verdict,
};
use crate::bytes::{law_le32_reads_back, law_le64_reads_back, le32, le32_at, le64, le64_at};
use crate::error::Errno;

verus! {

/// The first words of the arguments in bytes.
#[verifier::spinoff_prover]
#[verifier::rlimit(60)]
proof fn lemma_front_words(a: kacs_access_check_args)
    ensures
        access_args_front(a).len() == 56,
        ({
            let b = access_args_front(a);
            &&& le32_at(b, 0) == a.caller_size
            &&& le32_at(b, 4) == a.token_fd as u32
            &&& le64_at(b, 8) == a.sd_ptr
            &&& le32_at(b, 16) == a.sd_len
            &&& le32_at(b, 20) == a.desired_access
            &&& le32_at(b, 24) == a.mapping_read
            &&& le32_at(b, 28) == a.mapping_write
            &&& le32_at(b, 32) == a.mapping_execute
            &&& le32_at(b, 36) == a.mapping_all
            &&& le64_at(b, 40) == a.self_sid_ptr
            &&& le32_at(b, 48) == a.self_sid_len
            &&& le32_at(b, 52) == a.privilege_intent
        }),
{
    let b = access_args_front(a);
    assert(b.len() == 56);
    assert(b.subrange(0, 4) =~= le32(a.caller_size));
    law_le32_reads_back(b, 0, a.caller_size);
    assert(b.subrange(4, 8) =~= le32(a.token_fd as u32));
    law_le32_reads_back(b, 4, a.token_fd as u32);
    assert(b.subrange(8, 16) =~= le64(a.sd_ptr));
    law_le64_reads_back(b, 8, a.sd_ptr);
    assert(b.subrange(16, 20) =~= le32(a.sd_len));
    law_le32_reads_back(b, 16, a.sd_len);
    assert(b.subrange(20, 24) =~= le32(a.desired_access));
    law_le32_reads_back(b, 20, a.desired_access);
    assert(b.subrange(24, 28) =~= le32(a.mapping_read));
    law_le32_reads_back(b, 24, a.mapping_read);
    assert(b.subrange(28, 32) =~= le32(a.mapping_write));
    law_le32_reads_back(b, 28, a.mapping_write);
    assert(b.subrange(32, 36) =~= le32(a.mapping_execute));
    law_le32_reads_back(b, 32, a.mapping_execute);
    assert(b.subrange(36, 40) =~= le32(a.mapping_all));
    law_le32_reads_back(b, 36, a.mapping_all);
    assert(b.subrange(40, 48) =~= le64(a.self_sid_ptr));
    law_le64_reads_back(b, 40, a.self_sid_ptr);
    assert(b.subrange(48, 52) =~= le32(a.self_sid_len));
    law_le32_reads_back(b, 48, a.self_sid_len);
    assert(b.subrange(52, 56) =~= le32(a.privilege_intent));
    law_le32_reads_back(b, 52, a.privilege_intent);
}

/// The other words of the arguments in bytes.
#[verifier::spinoff_prover]
#[verifier::rlimit(60)]
proof fn lemma_back_words(a: kacs_access_check_args)
    ensures
        access_args_back(a).len() == 80,
        ({
            let b = access_args_back(a);
            &&& le64_at(b, 0) == a.object_tree_ptr
            &&& le32_at(b, 8) == a.object_tree_count
            &&& le32_at(b, 12) == 0
            &&& le64_at(b, 16) == a.local_claims_ptr
            &&& le32_at(b, 24) == a.local_claims_len
            &&& le32_at(b, 28) == 0
            &&& le64_at(b, 32) == a.granted_out_ptr
            &&& le32_at(b, 40) == a.pip_type
            &&& le32_at(b, 44) == a.pip_trust
            &&& le64_at(b, 48) == a.audit_context_ptr
            &&& le32_at(b, 56) == a.audit_context_len
            &&& le32_at(b, 60) == 0
            &&& le64_at(b, 64) == a.continuous_audit_out_ptr
            &&& le64_at(b, 72) == a.staging_mismatch_out_ptr
        }),
{
    let b = access_args_back(a);
    assert(b.len() == 80);
    assert(b.subrange(0, 8) =~= le64(a.object_tree_ptr));
    law_le64_reads_back(b, 0, a.object_tree_ptr);
    assert(b.subrange(8, 12) =~= le32(a.object_tree_count));
    law_le32_reads_back(b, 8, a.object_tree_count);
    assert(b.subrange(12, 16) =~= le32(0u32));
    law_le32_reads_back(b, 12, 0u32);
    assert(b.subrange(16, 24) =~= le64(a.local_claims_ptr));
    law_le64_reads_back(b, 16, a.local_claims_ptr);
    assert(b.subrange(24, 28) =~= le32(a.local_claims_len));
    law_le32_reads_back(b, 24, a.local_claims_len);
    assert(b.subrange(28, 32) =~= le32(0u32));
    law_le32_reads_back(b, 28, 0u32);
    assert(b.subrange(32, 40) =~= le64(a.granted_out_ptr));
    law_le64_reads_back(b, 32, a.granted_out_ptr);
    assert(b.subrange(40, 44) =~= le32(a.pip_type));
    law_le32_reads_back(b, 40, a.pip_type);
    assert(b.subrange(44, 48) =~= le32(a.pip_trust));
    law_le32_reads_back(b, 44, a.pip_trust);
    assert(b.subrange(48, 56) =~= le64(a.audit_context_ptr));
    law_le64_reads_back(b, 48, a.audit_context_ptr);
    assert(b.subrange(56, 60) =~= le32(a.audit_context_len));
    law_le32_reads_back(b, 56, a.audit_context_len);
    assert(b.subrange(60, 64) =~= le32(0u32));
    law_le32_reads_back(b, 60, 0u32);
    assert(b.subrange(64, 72) =~= le64(a.continuous_audit_out_ptr));
    law_le64_reads_back(b, 64, a.continuous_audit_out_ptr);
    assert(b.subrange(72, 80) =~= le64(a.staging_mismatch_out_ptr));
    law_le64_reads_back(b, 72, a.staging_mismatch_out_ptr);
}

proof fn lemma_word_inside(a: Seq<u8>, b: Seq<u8>)
    ensures
        forall|p: int| 0 <= p && p + 4 <= a.len() ==> #[trigger] le32_at(a + b, p) == le32_at(a, p),
        forall|p: int| 0 <= p && p + 8 <= a.len() ==> #[trigger] le64_at(a + b, p) == le64_at(a, p),
        forall|p: int|
            a.len() <= p && p + 4 <= a.len() + b.len() ==> #[trigger] le32_at(a + b, p) == le32_at(b, p - a.len()),
        forall|p: int|
            a.len() <= p && p + 8 <= a.len() + b.len() ==> #[trigger] le64_at(a + b, p) == le64_at(b, p - a.len()),
{
}

/// Where the kernel finds each argument: every word of the 136 bytes, by its offset.
#[verifier::rlimit(40)]
pub proof fn law_arguments_on_the_wire(a: kacs_access_check_args, bytes: Vec<u8>)
    requires
        call_ensures(kacs_access_check_args::encode, (&a,), bytes),
    ensures
        ({
            let b = bytes@;
            &&& b.len() == 136
            &&& le32_at(b, 0) == a.caller_size
            &&& le32_at(b, 4) == a.token_fd as u32
            &&& le64_at(b, 8) == a.sd_ptr
            &&& le32_at(b, 16) == a.sd_len
            &&& le32_at(b, 20) == a.desired_access
            &&& le32_at(b, 24) == a.mapping_read
            &&& le32_at(b, 28) == a.mapping_write
            &&& le32_at(b, 32) == a.mapping_execute
            &&& le32_at(b, 36) == a.mapping_all
            &&& le64_at(b, 40) == a.self_sid_ptr
            &&& le32_at(b, 48) == a.self_sid_len
            &&& le32_at(b, 52) == a.privilege_intent
            &&& le64_at(b, 56) == a.object_tree_ptr
            &&& le32_at(b, 64) == a.object_tree_count
            &&& le32_at(b, 68) == 0
            &&& le64_at(b, 72) == a.local_claims_ptr
            &&& le32_at(b, 80) == a.local_claims_len
            &&& le32_at(b, 84) == 0
            &&& le64_at(b, 88) == a.granted_out_ptr
            &&& le32_at(b, 96) == a.pip_type
            &&& le32_at(b, 100) == a.pip_trust
            &&& le64_at(b, 104) == a.audit_context_ptr
            &&& le32_at(b, 112) == a.audit_context_len
            &&& le32_at(b, 116) == 0
            &&& le64_at(b, 120) == a.continuous_audit_out_ptr
            &&& le64_at(b, 128) == a.staging_mismatch_out_ptr
        }),
{
    lemma_front_words(a);
    lemma_back_words(a);
    lemma_word_inside(access_args_front(a), access_args_back(a));
}

/// Every field of a request is in the arguments under its own meaning, and nothing else is.
pub proof fn law_arguments_carry_the_request(req: peios_access_request, r: Result<kacs_access_check_args, Errno>)
    requires
        call_ensures(build_args, (&req,), r),
    ensures
        r is Ok <==> req.sd_len <= 0xffff_ffff && req.self_sid_len <= 0xffff_ffff && req.local_claims_len <= 0xffff_ffff
            && req.audit_context_len <= 0xffff_ffff,
        r is Err ==> r->Err_0 == Errno::Inval,
        r matches Ok(a) ==> {
            &&& a.caller_size == 136
            &&& a.token_fd == req.token_fd
            &&& a.sd_ptr == req.sd && a.sd_len == req.sd_len
            &&& a.desired_access == req.desired
            &&& a.mapping_read == req.mapping.read && a.mapping_write == req.mapping.write
            &&& a.mapping_execute == req.mapping.execute && a.mapping_all == req.mapping.all
            &&& a.self_sid_ptr == req.self_sid && a.self_sid_len == req.self_sid_len
            &&& a.privilege_intent == req.privilege_intent
            &&& a.object_tree_ptr == req.object_tree && a.object_tree_count == req.object_tree_count
            &&& a.local_claims_ptr == req.local_claims && a.local_claims_len == req.local_claims_len
            &&& a.pip_type == req.pip_type && a.pip_trust == req.pip_trust
            &&& a.audit_context_ptr == req.audit_context && a.audit_context_len == req.audit_context_len
            &&& a.granted_out_ptr == 0 && a.continuous_audit_out_ptr == 0 && a.staging_mismatch_out_ptr == 0
        },
{
}

/// A request is refused exactly when the descriptor is missing, a length has no pointer, or a
/// tree is wanted and none is given.
pub proof fn law_requests_that_are_refused(req: peios_access_request, tree: bool, r: Result<(), Errno>)
    requires
        call_ensures(validate_request, (&req, tree), r),
    ensures
        r is Err <==> {
            ||| req.sd == 0
            ||| req.sd_len == 0
            ||| req.self_sid == 0 && req.self_sid_len > 0
            ||| req.local_claims == 0 && req.local_claims_len > 0
            ||| req.audit_context == 0 && req.audit_context_len > 0
            ||| req.object_tree == 0 && req.object_tree_count > 0
            ||| tree && req.object_tree_count == 0
        },
        r is Err ==> r->Err_0 == Errno::Inval,
{
}

/// Asking for one decision: what is built from the request, and where the outputs go. The places
/// for auditing are null unless the caller wants to know.
pub proof fn law_one_decision(
    req: peios_access_request,
    out: OutputPlaces,
    audit: bool,
    valid: Result<(), Errno>,
    built: Result<kacs_access_check_args, Errno>,
    r: Result<kacs_access_check_args, Errno>,
)
    requires
        call_ensures(validate_request, (&req, false), valid),
        call_ensures(build_args, (&req,), built),
        call_ensures(check_args, (Some(&req), out, audit), r),
    ensures
        r is Ok <==> valid is Ok && built is Ok,
        r is Err ==> r->Err_0 == Errno::Inval,
        r matches Ok(a) ==> {
            &&& a.granted_out_ptr == out.granted
            &&& audit ==> a.continuous_audit_out_ptr == out.continuous_audit && a.staging_mismatch_out_ptr
                == out.staging_mismatch
            &&& !audit ==> a.continuous_audit_out_ptr == 0 && a.staging_mismatch_out_ptr == 0
            &&& (kacs_access_check_args {
                granted_out_ptr: 0,
                continuous_audit_out_ptr: 0,
                staging_mismatch_out_ptr: 0,
                ..a
            }) == built->Ok_0
        },
{
}

/// Asking for a decision on each node: the arguments of the request, if it names as many nodes
/// as the caller has places for.
pub proof fn law_a_decision_for_each_node(
    req: peios_access_request,
    null: bool,
    count: u32,
    valid: Result<(), Errno>,
    built: Result<kacs_access_check_args, Errno>,
    r: Result<kacs_access_check_args, Errno>,
)
    requires
        call_ensures(validate_request, (&req, true), valid),
        call_ensures(build_args, (&req,), built),
        call_ensures(list_args, (Some(&req), null, count), r),
    ensures
        r is Ok <==> valid is Ok && built is Ok && count == req.object_tree_count && !null,
        r is Err ==> r->Err_0 == Errno::Inval,
        r is Ok ==> r == built,
{
}

/// Without a request there is nothing to ask.
pub proof fn law_no_request(
    out: OutputPlaces,
    audit: bool,
    null: bool,
    count: u32,
    one: Result<kacs_access_check_args, Errno>,
    each: Result<kacs_access_check_args, Errno>,
)
    requires
        call_ensures(check_args, (None, out, audit), one),
        call_ensures(list_args, (None, null, count), each),
    ensures
        one == Err::<kacs_access_check_args, Errno>(Errno::Inval),
        each == Err::<kacs_access_check_args, Errno>(Errno::Inval),
{
}

/// The kernel's answer: no error grants, a denial is told from a failure by its error number,
/// and the outputs are handed on unless the check failed.
pub proof fn law_what_the_answer_means(
    ret: i64,
    errno: Errno,
    v: Verdict,
    granted: u32,
    continuous: u32,
    staging: u32,
    r: Option<(u32, peios_access_audit)>,
)
    requires
        call_ensures(access_verdict, (ret, errno), v),
        call_ensures(check_outputs, (v, granted, continuous, staging), r),
    ensures
        v is Granted <==> ret >= 0,
        v is Denied <==> ret < 0 && errno == Errno::Acces,
        v is Failed ==> v == Verdict::Failed(errno),
        r is Some <==> ret >= 0 || errno == Errno::Acces,
        r matches Some((g, a)) ==> g == granted && a.continuous_audit == continuous && (staging <= 0x7fff_ffff
            ==> a.staging_mismatch == staging),
{
}

} // verus!
