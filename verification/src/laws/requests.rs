//! Requests to the kernel and what its answers say, field by field.

use vstd::prelude::*;
use vstd::utf8::valid_utf8;
use crate::bytes::{law_le32_reads_back, law_le64_reads_back, le32, le32_at, le64, le64_at, le16_at};
use crate::error::Errno;
use crate::file::{
    build_open_how, emit_len, get_sd_request, kacs_mount_policy_args, kacs_open_how, law_mount_policy_reads_back,
    mount_get_args, mount_policy_answer, mount_policy_bytes, mount_set_args, open_how_bytes, open_request,
    peios_mount_policy, peios_open_params, set_sd_request, AT_EMPTY_PATH,
};
use crate::registry::backup::{backup_args, reg_backup_args, reg_restore_args, restore_args};
use crate::registry::key::{
    build_create_key_args, enum_subkey_answer, enum_subkey_request, layer_args, notify_args, open_key_request,
    peios_reg_key_info, peios_reg_subkey, query_key_info_answer, query_key_info_request, reg_create_key_args,
    reg_enum_subkey_args, reg_layer_args, reg_notify_args, reg_query_key_info_args,
};
use crate::registry::security::{
    get_security_answer, get_security_args, reg_get_security_args, reg_set_security_args, set_security_request,
};
use crate::registry::transaction::{
    reg_txn_status_args, txn_status_answer, REG_IOC_COMMIT, REG_IOC_TXN_STATUS,
};
use crate::registry::value::{
    build_blanket_tombstone_args, build_delete_value_args, build_enum_value_args, build_query_value_args,
    build_set_value_args, enum_value_answer, enum_value_request, out_buf_valid, peios_reg_enum_value, peios_reg_value,
    query_value_answer, query_value_request, query_values_batch_answer, query_values_batch_request,
    reg_blanket_tombstone_args, reg_delete_value_args, reg_enum_value_args, reg_query_value_args,
    reg_query_values_batch_args, reg_set_value_args, SetValueInput,
};
use crate::security::sddl::builders::built_sd;
use crate::security::sddl::grammar::{sd_of_text, sd_parts};
use crate::security::sddl::inherit::{reinherited, stripped};
use crate::security::sddl_ffi::{
    binary_of, peios_sd_reinherit, peios_sd_strip_inherited, peios_sddl_parse_condition, peios_sddl_parse_sd,
};
use crate::security::sid::{le32s, sid_valid};
use crate::token::actions::{
    adjust_default_args, duplicate_args, kacs_adjust_default_args, kacs_duplicate_args, kacs_group_entry,
    kacs_priv_entry, kacs_restrict_args, packed_sids, peios_token_restrict, reset_groups_entry, reset_privileges_entry,
    restrict_request,
};
use crate::token::ops::{law_session_reads_back, peios_session_spec, session_request};
use crate::token::query::{
    fixed_answer_room, integrity_answer, kacs_query_args, peios_privilege_set, peios_token_statistics, privileges_answer,
    query_args, statistics_answer, word_answer, TOKEN_CLASS_INTEGRITY_LEVEL, TOKEN_CLASS_PRIVILEGES,
    TOKEN_CLASS_SESSION_ID, TOKEN_CLASS_STATISTICS, TOKEN_CLASS_TYPE, TOKEN_CLASS_USER,
};

verus! {

/// The request to open a file carries what was asked.
pub proof fn law_opening_a_file(p: peios_open_params, null: bool, r: Result<kacs_open_how, Errno>, h: Result<kacs_open_how, Errno>)
    requires
        call_ensures(open_request, (null, Some(&p)), r),
        call_ensures(build_open_how, (&p,), h),
    ensures
        r is Ok <==> !null && (p.sd != 0 || p.sd_len == 0) && p.sd_len <= 0xffff_ffff,
        r matches Err(e) ==> e == Errno::Inval,
        !null ==> r == h,
        r matches Ok(a) ==> {
            &&& a.desired_access == p.desired_access
            &&& a.create_disposition == p.disposition
            &&& a.create_options == p.options
            &&& a.flags == p.flags
            &&& a.sd_ptr == p.sd
            &&& a.sd_len == p.sd_len
        },
{
}

proof fn lemma_word(s: Seq<u8>, at: int, v: u32)
    requires
        0 <= at,
        at + 4 <= s.len(),
        s.subrange(at, at + 4) == le32(v),
    ensures
        le32_at(s, at) == v,
{
    law_le32_reads_back(s, at, v);
}

/// The request to open a file on the wire.
pub proof fn law_opening_on_the_wire(h: kacs_open_how, out: Vec<u8>)
    requires
        call_ensures(kacs_open_how::encode, (&h,), out),
    ensures
        out@.len() == 32,
        le32_at(out@, 0) == h.desired_access,
        le32_at(out@, 4) == h.create_disposition,
        le32_at(out@, 8) == h.create_options,
        le32_at(out@, 12) == h.flags,
        le64_at(out@, 16) == h.sd_ptr,
        le32_at(out@, 24) == h.sd_len,
        le32_at(out@, 28) == 0,
{
    let s = open_how_bytes(h);
    assert(s.subrange(0, 4) =~= le32(h.desired_access));
    assert(s.subrange(4, 8) =~= le32(h.create_disposition));
    assert(s.subrange(8, 12) =~= le32(h.create_options));
    assert(s.subrange(12, 16) =~= le32(h.flags));
    assert(s.subrange(16, 24) =~= le64(h.sd_ptr));
    assert(s.subrange(24, 28) =~= le32(h.sd_len));
    assert(s.subrange(28, 32) =~= le32(0));
    lemma_word(s, 0, h.desired_access);
    lemma_word(s, 4, h.create_disposition);
    lemma_word(s, 8, h.create_options);
    lemma_word(s, 12, h.flags);
    law_le64_reads_back(s, 16, h.sd_ptr);
    lemma_word(s, 24, h.sd_len);
    lemma_word(s, 28, 0);
}

/// Requests for descriptors, and how much an answer takes.
pub proof fn law_descriptors_of_files(path_null: bool, buf_null: bool, n: usize, cap: usize, g: Result<u32, Errno>, s: Result<u32, Errno>, e: Result<usize, Errno>)
    requires
        call_ensures(get_sd_request, (path_null, buf_null, n), g),
        call_ensures(set_sd_request, (path_null, buf_null, n), s),
        call_ensures(emit_len, (n, cap), e),
    ensures
        g is Ok <==> !path_null && (n == 0 || !buf_null) && n <= 0xffff_ffff,
        g matches Ok(x) ==> x == n,
        s is Ok <==> !path_null && !buf_null && 0 < n <= 0xffff_ffff,
        s matches Ok(x) ==> x == n,
        g matches Err(x) ==> x == Errno::Inval,
        s matches Err(x) ==> x == Errno::Inval,
        cap == 0 || n <= cap ==> e == Ok::<usize, Errno>(n),
        cap != 0 && n > cap ==> e == Err::<usize, Errno>(Errno::Range),
        AT_EMPTY_PATH == 0x1000,
{
}

/// The policy of a mount on the wire and back.
pub proof fn law_mount_policies_on_the_wire(a: kacs_mount_policy_args, out: Vec<u8>, s: &[u8], r: Option<kacs_mount_policy_args>)
    requires
        call_ensures(kacs_mount_policy_args::encode, (&a,), out),
        call_ensures(kacs_mount_policy_args::decode, (s,), r),
    ensures
        out@.len() == 32,
        le32_at(out@, 0) == a.policy,
        le32_at(out@, 4) == a.flags,
        le32_at(out@, 8) == a.generation,
        le32_at(out@, 12) == 0,
        le64_at(out@, 16) == a.template_sd_ptr,
        le32_at(out@, 24) == a.template_sd_len,
        le32_at(out@, 28) == 0,
        r is Some <==> s@.len() == 32,
        r matches Some(b) ==> {
            &&& b.policy == le32_at(s@, 0)
            &&& b.flags == le32_at(s@, 4)
            &&& b.generation == le32_at(s@, 8)
            &&& b.template_sd_ptr == le64_at(s@, 16)
            &&& b.template_sd_len == le32_at(s@, 24)
        },
{
    law_mount_policy_reads_back(a);
    let b = mount_policy_bytes(a);
    assert(b.subrange(12, 16) =~= le32(0));
    lemma_word(b, 12, 0);
    assert(b.subrange(28, 32) =~= le32(0));
    lemma_word(b, 28, 0);
}

/// Asking for the policy of a mount, and what the answer says.
pub proof fn law_asking_for_a_mount_policy(null: bool, buf: u64, cap: usize, r: Result<kacs_mount_policy_args, Errno>, a: kacs_mount_policy_args, p: peios_mount_policy)
    requires
        call_ensures(mount_get_args, (null, buf, cap), r),
        call_ensures(mount_policy_answer, (&a, buf, cap), p),
    ensures
        r is Ok <==> !null && (cap == 0 || buf != 0) && cap <= 0xffff_ffff,
        r matches Err(e) ==> e == Errno::Inval,
        r matches Ok(x) ==> x.policy == 0 && x.flags == 0 && x.generation == 0 && x.template_sd_ptr == buf
            && x.template_sd_len == cap,
        p.policy == a.policy && p.flags == a.flags && p.generation == a.generation,
        p.template_sd_len == a.template_sd_len,
        p.template_sd == buf || p.template_sd == 0,
        p.template_sd != 0 <==> buf != 0 && a.template_sd_len != 0 && a.template_sd_len <= cap,
{
}

/// Setting the policy of a mount.
pub proof fn law_setting_a_mount_policy(p: peios_mount_policy, r: Result<kacs_mount_policy_args, Errno>)
    requires
        call_ensures(mount_set_args, (Some(&p),), r),
    ensures
        r is Ok <==> (p.template_sd_len == 0 || p.template_sd != 0) && p.template_sd_len <= 0xffff_ffff,
        r matches Err(e) ==> e == Errno::Inval,
        r matches Ok(a) ==> a.policy == p.policy && a.flags == p.flags && a.generation == p.generation
            && a.template_sd_ptr == p.template_sd && a.template_sd_len == p.template_sd_len,
{
}

/// Opening and creating keys of the registry.
pub proof fn law_keys(path: u64, parent: i32, access: u32, flags: u32, layer: u64, txn: i32, out: u64, r: Result<(), Errno>, a: reg_create_key_args)
    requires
        call_ensures(open_key_request, (path,), r),
        call_ensures(build_create_key_args, (parent, path, access, flags, layer, txn, out), a),
    ensures
        r is Ok <==> path != 0,
        r matches Err(e) ==> e == Errno::Inval,
        a.parent_fd == parent,
        a.path_ptr == path,
        a.desired_access == access,
        a.flags == flags,
        a.layer_ptr == layer,
        a.txn_fd == txn,
        a.disposition_ptr == out,
        a._pad0 == 0 && a._pad1 == 0,
{
}

/// Asking for a key below another.
pub proof fn law_asking_for_subkeys(index: u32, txn: i32, v: peios_reg_subkey, r: Result<reg_enum_subkey_args, Errno>, n: Result<reg_enum_subkey_args, Errno>)
    requires
        call_ensures(enum_subkey_request, (index, txn, Some(&v)), r),
        call_ensures(enum_subkey_request, (index, txn, None::<&peios_reg_subkey>), n),
    ensures
        n == Err::<reg_enum_subkey_args, Errno>(Errno::Inval),
        r matches Ok(a) && {
            &&& a.index == index
            &&& a.name_len == v.name_cap
            &&& a.name_ptr == v.name
            &&& a.txn_fd == txn
            &&& a.last_write_time == 0 && a.subkey_count == 0 && a.value_count == 0 && a._pad == 0
        },
{
}

/// What the answer about a key below another says: all of it on success, only the length of the
/// name where it did not fit, else nothing.
pub proof fn law_answers_about_subkeys(v: &mut peios_reg_subkey, a: &reg_enum_subkey_args, outcome: Result<(), Errno>)
    requires
        call_ensures(enum_subkey_answer, (v, a, outcome), ()),
    ensures
        final(v).name == old(v).name && final(v).name_cap == old(v).name_cap,
        outcome is Ok ==> final(v).name_len == a.name_len && final(v).last_write_time == a.last_write_time
            && final(v).subkey_count == a.subkey_count && final(v).value_count == a.value_count,
        outcome == Err::<(), Errno>(Errno::Range) ==> final(v).name_len == a.name_len,
        outcome is Err ==> final(v).last_write_time == old(v).last_write_time && final(v).subkey_count
            == old(v).subkey_count && final(v).value_count == old(v).value_count,
        outcome is Err && outcome != Err::<(), Errno>(Errno::Range) ==> final(v).name_len == old(v).name_len,
{
}

/// Asking about a key.
pub proof fn law_asking_about_a_key(v: peios_reg_key_info, r: Result<reg_query_key_info_args, Errno>)
    requires
        call_ensures(query_key_info_request, (Some(&v),), r),
    ensures
        r matches Ok(a) && {
            &&& a.name_len == v.name_cap
            &&& a.name_ptr == v.name
            &&& a.last_write_time == 0 && a.hive_generation == 0 && a.subkey_count == 0 && a.value_count == 0
            &&& a.max_subkey_name_len == 0 && a.max_value_name_len == 0 && a.max_value_data_size == 0 && a.sd_size == 0
            &&& a.volatile_key == 0 && a.symlink == 0
        },
{
}

/// What the answer about a key says.
pub proof fn law_answers_about_a_key(v: &mut peios_reg_key_info, a: &reg_query_key_info_args, outcome: Result<(), Errno>)
    requires
        call_ensures(query_key_info_answer, (v, a, outcome), ()),
    ensures
        final(v).name == old(v).name && final(v).name_cap == old(v).name_cap,
        outcome is Ok ==> {
            &&& final(v).name_len == a.name_len
            &&& final(v).last_write_time == a.last_write_time
            &&& final(v).hive_generation == a.hive_generation
            &&& final(v).subkey_count == a.subkey_count
            &&& final(v).value_count == a.value_count
            &&& final(v).max_subkey_name_len == a.max_subkey_name_len
            &&& final(v).max_value_name_len == a.max_value_name_len
            &&& final(v).max_value_data_size == a.max_value_data_size
            &&& final(v).sd_size == a.sd_size
            &&& final(v).volatile_key == a.volatile_key
            &&& final(v).symlink == a.symlink
        },
        outcome == Err::<(), Errno>(Errno::Range) ==> final(v).name_len == a.name_len && final(v).sd_size == old(v).sd_size
            && final(v).subkey_count == old(v).subkey_count && final(v).value_count == old(v).value_count,
        outcome is Err && outcome != Err::<(), Errno>(Errno::Range) ==> *final(v) == *old(v),
{
}

/// Layers and notifications.
pub proof fn law_layers_and_notifications(layer: u64, n: u32, txn: i32, a: reg_layer_args, filter: u32, subtree: i32, r: Result<reg_notify_args, Errno>)
    requires
        call_ensures(layer_args, (layer, n, txn), a),
        call_ensures(notify_args, (filter, subtree), r),
    ensures
        a.layer_len == n && a.layer_ptr == layer && a.txn_fd == txn && a._pad0 == 0 && a._pad1 == 0,
        r is Ok <==> subtree == 0 || subtree == 1,
        r matches Ok(x) ==> x.filter == filter && x.subtree == subtree,
        r matches Err(e) ==> e == Errno::Inval,
{
}

/// Asking for a value.
pub proof fn law_asking_for_a_value(name: u64, n: u32, txn: i32, v: peios_reg_value, a: reg_query_value_args, r: Result<reg_query_value_args, Errno>)
    requires
        call_ensures(build_query_value_args, (name, n, txn, &v), a),
        call_ensures(query_value_request, (name, n, txn, Some(&v)), r),
    ensures
        a.name_len == n && a.name_ptr == name && a.data_len == v.data_cap && a.data_ptr == v.data && a.layer_ptr == v.layer
            && a.layer_buf_len == v.layer_cap && a.txn_fd == txn,
        a.type_ == 0 && a.sequence == 0 && a.layer_len == 0 && a._pad0 == 0 && a._pad1 == 0,
        r is Ok <==> (v.data_cap == 0 || v.data != 0) && (v.layer_cap == 0 || v.layer != 0),
        r matches Ok(x) ==> x == a,
        r matches Err(e) ==> e == Errno::Inval,
{
}

/// What the answer about a value says: all on success, the two lengths where it did not fit, else
/// nothing.
pub proof fn law_answers_about_a_value(v: &mut peios_reg_value, a: &reg_query_value_args, outcome: Result<(), Errno>)
    requires
        call_ensures(query_value_answer, (v, a, outcome), ()),
    ensures
        final(v).data == old(v).data && final(v).layer == old(v).layer && final(v).data_cap == old(v).data_cap
            && final(v).layer_cap == old(v).layer_cap,
        outcome is Ok ==> final(v).type_ == a.type_ && final(v).sequence == a.sequence,
        outcome is Ok || outcome == Err::<(), Errno>(Errno::Range) ==> final(v).data_len == a.data_len
            && final(v).layer_len == a.layer_len,
        outcome is Err ==> final(v).type_ == old(v).type_ && final(v).sequence == old(v).sequence,
        outcome is Err && outcome != Err::<(), Errno>(Errno::Range) ==> final(v).data_len == old(v).data_len
            && final(v).layer_len == old(v).layer_len,
{
}

/// Setting a value.
pub proof fn law_setting_a_value(i: SetValueInput, a: reg_set_value_args)
    requires
        call_ensures(build_set_value_args, (i,), a),
    ensures
        a.name_len == i.name_len,
        a.name_ptr == i.name,
        a.type_ == i.type_,
        a.data_len == i.data_len,
        a.data_ptr == i.data,
        a.layer_len == i.layer_len,
        a.layer_ptr == i.layer,
        a.txn_fd == i.txn_fd,
        a.expected_seq == i.expected_seq,
        a._pad0 == 0 && a._pad1 == 0 && a._pad2 == 0,
{
}

/// Deleting values, and hiding all values below a layer.
pub proof fn law_deleting_values(name: u64, n: u32, layer: u64, m: u32, set: i32, txn: i32, a: reg_delete_value_args, r: Result<reg_blanket_tombstone_args, Errno>)
    requires
        call_ensures(build_delete_value_args, (name, n, layer, m, txn), a),
        call_ensures(build_blanket_tombstone_args, (layer, m, set, txn), r),
    ensures
        a.name_len == n && a.name_ptr == name && a.layer_len == m && a.layer_ptr == layer && a.txn_fd == txn,
        a._pad0 == 0 && a._pad1 == 0 && a._pad2 == 0,
        r is Ok <==> set == 0 || set == 1,
        r matches Ok(b) ==> b.layer_len == m && b.layer_ptr == layer && b.set == set && b.txn_fd == txn && b._pad0 == 0,
        r matches Err(e) ==> e == Errno::Inval,
{
}

/// Asking for all values at once.
pub proof fn law_asking_for_all_values(txn: i32, buf: u64, cap: u32, r: Result<reg_query_values_batch_args, Errno>, a: reg_query_values_batch_args, outcome: Result<(), Errno>, said: Option<(u32, u32)>, valid: bool)
    requires
        call_ensures(query_values_batch_request, (txn, buf, cap), r),
        call_ensures(query_values_batch_answer, (&a, outcome), said),
        call_ensures(out_buf_valid, (buf, cap), valid),
    ensures
        valid <==> cap == 0 || buf != 0,
        r is Ok <==> valid,
        r matches Ok(x) ==> x.buf_len == cap && x.count == 0 && x.buf_ptr == buf && x.txn_fd == txn && x._pad == 0,
        r matches Err(e) ==> e == Errno::Inval,
        outcome is Ok || outcome == Err::<(), Errno>(Errno::Range) ==> said == Some((a.buf_len, a.count)),
        outcome is Err && outcome != Err::<(), Errno>(Errno::Range) ==> said is None,
{
}

/// Asking for a value by its number.
pub proof fn law_asking_for_values_in_turn(index: u32, txn: i32, v: peios_reg_enum_value, a: reg_enum_value_args, r: Result<reg_enum_value_args, Errno>)
    requires
        call_ensures(build_enum_value_args, (index, txn, &v), a),
        call_ensures(enum_value_request, (index, txn, Some(&v)), r),
    ensures
        a.index == index && a.name_len == v.name_cap && a.name_ptr == v.name && a.data_len == v.data_cap && a.data_ptr
            == v.data && a.txn_fd == txn && a.type_ == 0 && a._pad == 0,
        r is Ok <==> (v.name_cap == 0 || v.name != 0) && (v.data_cap == 0 || v.data != 0),
        r matches Ok(x) ==> x == a,
        r matches Err(e) ==> e == Errno::Inval,
{
}

/// What the answer about a value by its number says.
pub proof fn law_answers_about_values_in_turn(v: &mut peios_reg_enum_value, a: &reg_enum_value_args, outcome: Result<(), Errno>)
    requires
        call_ensures(enum_value_answer, (v, a, outcome), ()),
    ensures
        final(v).name == old(v).name && final(v).data == old(v).data && final(v).name_cap == old(v).name_cap
            && final(v).data_cap == old(v).data_cap,
        outcome is Ok ==> final(v).type_ == a.type_,
        outcome is Err ==> final(v).type_ == old(v).type_,
        outcome is Ok || outcome == Err::<(), Errno>(Errno::Range) ==> final(v).name_len == a.name_len && final(v).data_len
            == a.data_len,
        outcome is Err && outcome != Err::<(), Errno>(Errno::Range) ==> final(v).name_len == old(v).name_len
            && final(v).data_len == old(v).data_len,
{
}

/// Backup, restore and transactions.
pub proof fn law_backups_and_transactions(o: i32, i: i32, b: reg_backup_args, s: reg_restore_args, a: reg_txn_status_args, ok: bool, t: Option<(u32, i32)>)
    requires
        call_ensures(backup_args, (o,), b),
        call_ensures(restore_args, (i,), s),
        call_ensures(txn_status_answer, (&a, ok), t),
    ensures
        b.output_fd == o,
        s.input_fd == i,
        ok ==> t == Some((a.state, a.terminal_errno)),
        !ok ==> t is None,
        REG_IOC_COMMIT == 0x5210,
        REG_IOC_TXN_STATUS == 0x8008_5211,
{
}

/// Descriptors of keys.
pub proof fn law_descriptors_of_keys(info: u32, sd: u64, n: u32, txn: i32, g: reg_get_security_args, outcome: Result<(), Errno>, said: Option<u32>, r: Result<reg_set_security_args, Errno>)
    requires
        call_ensures(get_security_args, (info, sd, n), g),
        call_ensures(get_security_answer, (&g, outcome), said),
        call_ensures(set_security_request, (info, sd, n, txn), r),
    ensures
        g.security_info == info && g.sd_len == n && g.sd_ptr == sd,
        outcome is Ok || outcome == Err::<(), Errno>(Errno::Range) ==> said == Some(n),
        outcome is Err && outcome != Err::<(), Errno>(Errno::Range) ==> said is None,
        r is Ok <==> sd != 0 && n != 0,
        r matches Ok(a) ==> a.security_info == info && a.sd_len == n && a.sd_ptr == sd && a.txn_fd == txn && a._pad == 0,
        r matches Err(e) ==> e == Errno::Inval,
{
}

/// Logon sessions on the wire.
pub proof fn law_sessions_on_the_wire(spec: peios_session_spec, null: bool, r: Result<Vec<u8>, Errno>)
    requires
        call_ensures(session_request, (Some(&spec), null), r),
    ensures
        r is Ok <==> !null && spec.auth_package is Some && spec.user_sid is Some && sid_valid(spec.user_sid->Some_0@) && 7
            + spec.auth_package->Some_0@.len() + spec.user_sid->Some_0@.len() <= 4096,
        r matches Err(e) ==> e == Errno::Inval,
        r matches Ok(b) ==> {
            let n = spec.auth_package->Some_0@.len() as int;
            &&& b@[0] == spec.logon_type
            &&& le16_at(b@, 1) == n
            &&& b@.subrange(3, 3 + n) == spec.auth_package->Some_0@
            &&& le32_at(b@, 3 + n) == spec.user_sid->Some_0@.len()
            &&& b@.subrange(7 + n, b@.len() as int) == spec.user_sid->Some_0@
        },
{
    if let Ok(b) = r {
        law_session_reads_back(spec.logon_type, spec.auth_package->Some_0@, spec.user_sid->Some_0@);
    }
}

/// Questions about a token.
pub proof fn law_questions_about_a_token(class: u32, buf: u64, cap: usize, r: Result<kacs_query_args, Errno>, null: bool, size: usize, room: Result<usize, Errno>)
    requires
        call_ensures(query_args, (class, buf, cap), r),
        call_ensures(fixed_answer_room, (null, size), room),
    ensures
        r is Ok <==> cap <= 0xffff_ffff && (cap == 0 || buf != 0),
        r matches Ok(a) ==> a.token_class == class && a.buf_len == cap && a.buf_ptr == buf,
        r matches Err(e) ==> e == Errno::Inval,
        null ==> room == Err::<usize, Errno>(Errno::Inval),
        !null ==> room == Ok::<usize, Errno>(size),
        TOKEN_CLASS_USER == 1 && TOKEN_CLASS_PRIVILEGES == 3 && TOKEN_CLASS_TYPE == 4 && TOKEN_CLASS_INTEGRITY_LEVEL == 5
            && TOKEN_CLASS_SESSION_ID == 8 && TOKEN_CLASS_STATISTICS == 11,
{
}

/// What the answers about a token say.
pub proof fn law_answers_about_a_token(s: &[u8], w: Result<u32, Errno>, i: Result<u32, Errno>, p: Result<peios_privilege_set, Errno>, t: Result<peios_token_statistics, Errno>)
    requires
        call_ensures(word_answer, (s,), w),
        call_ensures(integrity_answer, (s,), i),
        call_ensures(privileges_answer, (s,), p),
        call_ensures(statistics_answer, (s,), t),
    ensures
        w is Ok <==> s@.len() == 4,
        i is Ok <==> s@.len() == 12,
        p is Ok <==> s@.len() == 32,
        t is Ok <==> s@.len() == 40,
        w matches Ok(x) ==> x == le32_at(s@, 0),
        i matches Ok(x) ==> x == le32_at(s@, 8),
        p matches Ok(x) ==> x.present == le64_at(s@, 0) && x.enabled == le64_at(s@, 8) && x.enabled_by_default == le64_at(
            s@,
            16,
        ) && x.used == le64_at(s@, 24),
        t matches Ok(x) ==> x.token_id == le64_at(s@, 0) && x.auth_id == le64_at(s@, 8) && x.modified_id == le64_at(s@, 16)
            && x.token_type == le32_at(s@, 24) && x.reserved == le32_at(s@, 28) && x.expiration == le64_at(s@, 32),
        w matches Err(e) ==> e == Errno::Inval,
        i matches Err(e) ==> e == Errno::Inval,
        p matches Err(e) ==> e == Errno::Inval,
        t matches Err(e) ==> e == Errno::Inval,
{
}

/// Resetting and duplicating.
pub proof fn law_token_actions(p: kacs_priv_entry, g: kacs_group_entry, access: u32, t: u8, level: u8, d: kacs_duplicate_args)
    requires
        call_ensures(reset_privileges_entry, (), p),
        call_ensures(reset_groups_entry, (), g),
        call_ensures(duplicate_args, (access, t, level), d),
    ensures
        p.luid == 0 && p.attributes == 0x8000_0000,
        g.index == 0xffff_ffff && g.enable == 0,
        d.access_mask == access && d.token_type == t && d.impersonation_level == level && d.result_fd == -1,
{
}

/// The defaults of a token.
pub proof fn law_token_defaults(dacl: u64, n: usize, owner: u16, group: u16, r: Result<kacs_adjust_default_args, Errno>)
    requires
        call_ensures(adjust_default_args, (dacl, n, owner, group), r),
    ensures
        r is Ok <==> dacl == 0 || n <= 0xffff_ffff,
        r matches Err(e) ==> e == Errno::Inval,
        r matches Ok(a) ==> a.dacl_ptr == dacl && a.owner_index == owner && a.group_index == group && (dacl != 0
            ==> a.dacl_len == n) && (dacl == 0 ==> a.dacl_len == 0),
{
}

/// Restricting a token: the words of the groups to deny, then the identifiers, without gaps.
pub proof fn law_restricting_a_token(s: peios_token_restrict, r: Result<(kacs_restrict_args, Vec<u8>), Errno>)
    requires
        s.wf(),
        call_ensures(restrict_request, (Some(&s),), r),
    ensures
        r matches Err(e) ==> e == Errno::Inval,
        r matches Ok((a, data)) ==> {
            &&& a.privs_to_delete == s.privs_to_delete
            &&& a.num_deny_indices == s.deny_count
            &&& a.num_restrict_sids == s.restrict_count
            &&& a.flags == s.flags
            &&& a.data_len == data@.len()
            &&& data@ == le32s(s.deny()) + packed_sids(s.sids())
        },
{
}

/// Identifiers without gaps between them.
pub proof fn law_packed_identifiers(l: Seq<Option<&[u8]>>, x: &[u8])
    ensures
        packed_sids(Seq::empty()) == Seq::<u8>::empty(),
        packed_sids(l.push(Some(x))) == packed_sids(l) + x@,
{
    assert(l.push(Some(x)).drop_last() =~= l);
}

/// Descriptors and conditions between text and bytes, at the boundary: text shorter than 64 KiB
/// and valid UTF-8, and one error for all else.
pub proof fn law_text_at_the_boundary(t: &[u8], d: Result<Vec<u8>, Errno>, c: Result<Vec<u8>, Errno>)
    requires
        call_ensures(peios_sddl_parse_sd, (Some(t),), d),
        call_ensures(peios_sddl_parse_condition, (Some(t),), c),
    ensures
        d matches Err(e) ==> e == Errno::Inval,
        c matches Err(e) ==> e == Errno::Inval,
        t@.len() >= 65536 || !valid_utf8(t@) ==> d is Err && c is Err,
        t@.len() < 65536 && valid_utf8(t@) ==> {
            &&& d is Ok <==> (sd_of_text(t@) is Ok && built_sd(sd_parts(sd_of_text(t@)->Ok_0)) is Ok)
            &&& d matches Ok(b) ==> built_sd(sd_parts(sd_of_text(t@)->Ok_0))->Ok_0 == b@
            &&& c is Ok <==> crate::security::sddl::cond::artx_of_text(t@) is Some
            &&& c matches Ok(b) ==> crate::security::sddl::cond::artx_of_text(t@) == Some(b@)
        },
{
    reveal(binary_of);
}

/// Deriving anew and stripping at the boundary: any number but zero is a container.
pub proof fn law_inheritance_at_the_boundary(p: &[u8], c: &[u8], container: i32, info: u32, r: Result<Vec<u8>, Errno>, s: Result<Vec<u8>, Errno>)
    requires
        call_ensures(peios_sd_reinherit, (Some(p), Some(c), container), r),
        call_ensures(peios_sd_strip_inherited, (Some(c), info), s),
    ensures
        r matches Err(e) ==> e == Errno::Inval,
        s matches Err(e) ==> e == Errno::Inval,
        r is Ok <==> reinherited(p@, c@, container != 0) is Ok,
        r matches Ok(out) ==> out@ == reinherited(p@, c@, container != 0)->Ok_0,
        s is Ok <==> stripped(c@, info) is Ok,
        s matches Ok(out) ==> out@ == stripped(c@, info)->Ok_0,
{
}

} // verus!
