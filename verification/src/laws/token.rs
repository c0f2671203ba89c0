//! The description of a token: what each call sets, and where it stands on the wire.

use vstd::prelude::*;
use vstd::utf8::{decode_utf8, valid_utf8};
use crate::bytes::{le16, le16_at, le32, le32_at, le64_at};
use crate::error::Errno;
use crate::security::rules::acl_sound;
use crate::security::sid::{le32s, sid_valid};
use crate::security::view::sid_entries_bytes;
use crate::token::builder::{
    claims_bytes, law_token_directory_reads_back, law_token_scalars_read_back, law_token_section_in_place,
    peios_token_builder, peios_token_builder_add_device_claim, peios_token_builder_add_device_group,
    peios_token_builder_add_group, peios_token_builder_add_restricted_sid, peios_token_builder_add_user_claim,
    peios_token_builder_audit_policy, peios_token_builder_bytes, peios_token_builder_confinement,
    peios_token_builder_default_dacl, peios_token_builder_expiration, peios_token_builder_flags,
    peios_token_builder_integrity, peios_token_builder_lcs_credentials, peios_token_builder_mandatory_policy,
    peios_token_builder_new, peios_token_builder_owner_index, peios_token_builder_primary_group_index,
    peios_token_builder_privileges, peios_token_builder_projected_ids, peios_token_builder_session,
    peios_token_builder_source, peios_token_builder_supp_gids, peios_token_builder_type, peios_token_builder_user,
    peios_token_flags, section_at, TokenState,
};
use crate::token::claims::{
    claim_encoding, encode_claim, encodable, law_claim_header_reads_back, law_claim_value_reads_back,
    peios_token_claim, claim_bytes, ClaimValueView,
};
use crate::token::lcs::{
    encode_lcs, fold, is_nil, layer_name_fits, law_lcs_counts_read_back, law_lcs_layer_reads_back,
    law_lcs_scope_reads_back, lcs_encoding, name_bytes, peios_token_lcs_credentials, same_fold,
};
use crate::utf16::{cstr16, scalar16, text16};

verus! {

/// All but the plain values of two descriptions is the same.
pub open spec fn only_values_differ(a: TokenState, b: TokenState) -> bool {
    &&& a.user_sid == b.user_sid
    &&& a.groups == b.groups
    &&& a.device_groups == b.device_groups
    &&& a.restricted_sids == b.restricted_sids
    &&& a.default_dacl == b.default_dacl
    &&& a.confinement_sid == b.confinement_sid
    &&& a.supp_gids == b.supp_gids
    &&& a.user_claims == b.user_claims
    &&& a.device_claims == b.device_claims
    &&& a.lcs_credentials == b.lcs_credentials
    &&& a.error == b.error
}

/// The privileges that are present and those that are enabled.
pub proof fn law_token_privileges(b: &mut peios_token_builder, present: u64, enabled: u64)
    requires
        old(b).wf(),
        call_ensures(peios_token_builder_privileges, (b, present, enabled), ()),
    ensures
        old(b).error is None ==> only_values_differ(final(b).state(), old(b).state()) && {
            &&& final(b).scalars.token_type == old(b).scalars.token_type
            &&& final(b).scalars.impersonation_level == old(b).scalars.impersonation_level
            &&& final(b).scalars.integrity_rid == old(b).scalars.integrity_rid
            &&& final(b).scalars.mandatory_policy == old(b).scalars.mandatory_policy
            &&& final(b).scalars.privs_present == present
            &&& final(b).scalars.privs_enabled == enabled
            &&& final(b).scalars.projected_uid == old(b).scalars.projected_uid
            &&& final(b).scalars.projected_gid == old(b).scalars.projected_gid
            &&& final(b).scalars.audit_policy == old(b).scalars.audit_policy
            &&& final(b).scalars.expiration == old(b).scalars.expiration
            &&& final(b).scalars.session_id == old(b).scalars.session_id
            &&& final(b).scalars.owner_sid_index == old(b).scalars.owner_sid_index
            &&& final(b).scalars.primary_group_index == old(b).scalars.primary_group_index
            &&& final(b).scalars.source_name == old(b).scalars.source_name
            &&& final(b).scalars.source_id == old(b).scalars.source_id
            &&& final(b).scalars.flags == old(b).scalars.flags
        },
        old(b).error is Some ==> final(b).state() == old(b).state(),
{
}

/// The type and the impersonation level.
pub proof fn law_token_type(b: &mut peios_token_builder, token_type: u8, level: u8)
    requires
        old(b).wf(),
        call_ensures(peios_token_builder_type, (b, token_type, level), ()),
    ensures
        old(b).error is None ==> only_values_differ(final(b).state(), old(b).state()) && {
            &&& final(b).scalars.token_type == token_type
            &&& final(b).scalars.impersonation_level == level
            &&& final(b).scalars.integrity_rid == old(b).scalars.integrity_rid
            &&& final(b).scalars.mandatory_policy == old(b).scalars.mandatory_policy
            &&& final(b).scalars.privs_present == old(b).scalars.privs_present
            &&& final(b).scalars.privs_enabled == old(b).scalars.privs_enabled
            &&& final(b).scalars.projected_uid == old(b).scalars.projected_uid
            &&& final(b).scalars.projected_gid == old(b).scalars.projected_gid
            &&& final(b).scalars.audit_policy == old(b).scalars.audit_policy
            &&& final(b).scalars.expiration == old(b).scalars.expiration
            &&& final(b).scalars.session_id == old(b).scalars.session_id
            &&& final(b).scalars.owner_sid_index == old(b).scalars.owner_sid_index
            &&& final(b).scalars.primary_group_index == old(b).scalars.primary_group_index
            &&& final(b).scalars.source_name == old(b).scalars.source_name
            &&& final(b).scalars.source_id == old(b).scalars.source_id
            &&& final(b).scalars.flags == old(b).scalars.flags
        },
        old(b).error is Some ==> final(b).state() == old(b).state(),
{
}

/// The integrity level.
pub proof fn law_token_integrity(b: &mut peios_token_builder, rid: u32)
    requires
        old(b).wf(),
        call_ensures(peios_token_builder_integrity, (b, rid), ()),
    ensures
        old(b).error is None ==> only_values_differ(final(b).state(), old(b).state()) && {
            &&& final(b).scalars.token_type == old(b).scalars.token_type
            &&& final(b).scalars.impersonation_level == old(b).scalars.impersonation_level
            &&& final(b).scalars.integrity_rid == rid
            &&& final(b).scalars.mandatory_policy == old(b).scalars.mandatory_policy
            &&& final(b).scalars.privs_present == old(b).scalars.privs_present
            &&& final(b).scalars.privs_enabled == old(b).scalars.privs_enabled
            &&& final(b).scalars.projected_uid == old(b).scalars.projected_uid
            &&& final(b).scalars.projected_gid == old(b).scalars.projected_gid
            &&& final(b).scalars.audit_policy == old(b).scalars.audit_policy
            &&& final(b).scalars.expiration == old(b).scalars.expiration
            &&& final(b).scalars.session_id == old(b).scalars.session_id
            &&& final(b).scalars.owner_sid_index == old(b).scalars.owner_sid_index
            &&& final(b).scalars.primary_group_index == old(b).scalars.primary_group_index
            &&& final(b).scalars.source_name == old(b).scalars.source_name
            &&& final(b).scalars.source_id == old(b).scalars.source_id
            &&& final(b).scalars.flags == old(b).scalars.flags
        },
        old(b).error is Some ==> final(b).state() == old(b).state(),
{
}

/// The logon session.
pub proof fn law_token_session(b: &mut peios_token_builder, session: u64)
    requires
        old(b).wf(),
        call_ensures(peios_token_builder_session, (b, session), ()),
    ensures
        old(b).error is None ==> only_values_differ(final(b).state(), old(b).state()) && {
            &&& final(b).scalars.token_type == old(b).scalars.token_type
            &&& final(b).scalars.impersonation_level == old(b).scalars.impersonation_level
            &&& final(b).scalars.integrity_rid == old(b).scalars.integrity_rid
            &&& final(b).scalars.mandatory_policy == old(b).scalars.mandatory_policy
            &&& final(b).scalars.privs_present == old(b).scalars.privs_present
            &&& final(b).scalars.privs_enabled == old(b).scalars.privs_enabled
            &&& final(b).scalars.projected_uid == old(b).scalars.projected_uid
            &&& final(b).scalars.projected_gid == old(b).scalars.projected_gid
            &&& final(b).scalars.audit_policy == old(b).scalars.audit_policy
            &&& final(b).scalars.expiration == old(b).scalars.expiration
            &&& final(b).scalars.session_id == session
            &&& final(b).scalars.owner_sid_index == old(b).scalars.owner_sid_index
            &&& final(b).scalars.primary_group_index == old(b).scalars.primary_group_index
            &&& final(b).scalars.source_name == old(b).scalars.source_name
            &&& final(b).scalars.source_id == old(b).scalars.source_id
            &&& final(b).scalars.flags == old(b).scalars.flags
        },
        old(b).error is Some ==> final(b).state() == old(b).state(),
{
}

/// Which identifier is the owner.
pub proof fn law_token_owner_index(b: &mut peios_token_builder, index: u32)
    requires
        old(b).wf(),
        call_ensures(peios_token_builder_owner_index, (b, index), ()),
    ensures
        old(b).error is None ==> only_values_differ(final(b).state(), old(b).state()) && {
            &&& final(b).scalars.token_type == old(b).scalars.token_type
            &&& final(b).scalars.impersonation_level == old(b).scalars.impersonation_level
            &&& final(b).scalars.integrity_rid == old(b).scalars.integrity_rid
            &&& final(b).scalars.mandatory_policy == old(b).scalars.mandatory_policy
            &&& final(b).scalars.privs_present == old(b).scalars.privs_present
            &&& final(b).scalars.privs_enabled == old(b).scalars.privs_enabled
            &&& final(b).scalars.projected_uid == old(b).scalars.projected_uid
            &&& final(b).scalars.projected_gid == old(b).scalars.projected_gid
            &&& final(b).scalars.audit_policy == old(b).scalars.audit_policy
            &&& final(b).scalars.expiration == old(b).scalars.expiration
            &&& final(b).scalars.session_id == old(b).scalars.session_id
            &&& final(b).scalars.owner_sid_index == index
            &&& final(b).scalars.primary_group_index == old(b).scalars.primary_group_index
            &&& final(b).scalars.source_name == old(b).scalars.source_name
            &&& final(b).scalars.source_id == old(b).scalars.source_id
            &&& final(b).scalars.flags == old(b).scalars.flags
        },
        old(b).error is Some ==> final(b).state() == old(b).state(),
{
}

/// Which identifier is the primary group.
pub proof fn law_token_primary_group_index(b: &mut peios_token_builder, index: u32)
    requires
        old(b).wf(),
        call_ensures(peios_token_builder_primary_group_index, (b, index), ()),
    ensures
        old(b).error is None ==> only_values_differ(final(b).state(), old(b).state()) && {
            &&& final(b).scalars.token_type == old(b).scalars.token_type
            &&& final(b).scalars.impersonation_level == old(b).scalars.impersonation_level
            &&& final(b).scalars.integrity_rid == old(b).scalars.integrity_rid
            &&& final(b).scalars.mandatory_policy == old(b).scalars.mandatory_policy
            &&& final(b).scalars.privs_present == old(b).scalars.privs_present
            &&& final(b).scalars.privs_enabled == old(b).scalars.privs_enabled
            &&& final(b).scalars.projected_uid == old(b).scalars.projected_uid
            &&& final(b).scalars.projected_gid == old(b).scalars.projected_gid
            &&& final(b).scalars.audit_policy == old(b).scalars.audit_policy
            &&& final(b).scalars.expiration == old(b).scalars.expiration
            &&& final(b).scalars.session_id == old(b).scalars.session_id
            &&& final(b).scalars.owner_sid_index == old(b).scalars.owner_sid_index
            &&& final(b).scalars.primary_group_index == index
            &&& final(b).scalars.source_name == old(b).scalars.source_name
            &&& final(b).scalars.source_id == old(b).scalars.source_id
            &&& final(b).scalars.flags == old(b).scalars.flags
        },
        old(b).error is Some ==> final(b).state() == old(b).state(),
{
}

/// The mandatory policy.
pub proof fn law_token_mandatory_policy(b: &mut peios_token_builder, bits: u32)
    requires
        old(b).wf(),
        call_ensures(peios_token_builder_mandatory_policy, (b, bits), ()),
    ensures
        old(b).error is None ==> only_values_differ(final(b).state(), old(b).state()) && {
            &&& final(b).scalars.token_type == old(b).scalars.token_type
            &&& final(b).scalars.impersonation_level == old(b).scalars.impersonation_level
            &&& final(b).scalars.integrity_rid == old(b).scalars.integrity_rid
            &&& final(b).scalars.mandatory_policy == bits
            &&& final(b).scalars.privs_present == old(b).scalars.privs_present
            &&& final(b).scalars.privs_enabled == old(b).scalars.privs_enabled
            &&& final(b).scalars.projected_uid == old(b).scalars.projected_uid
            &&& final(b).scalars.projected_gid == old(b).scalars.projected_gid
            &&& final(b).scalars.audit_policy == old(b).scalars.audit_policy
            &&& final(b).scalars.expiration == old(b).scalars.expiration
            &&& final(b).scalars.session_id == old(b).scalars.session_id
            &&& final(b).scalars.owner_sid_index == old(b).scalars.owner_sid_index
            &&& final(b).scalars.primary_group_index == old(b).scalars.primary_group_index
            &&& final(b).scalars.source_name == old(b).scalars.source_name
            &&& final(b).scalars.source_id == old(b).scalars.source_id
            &&& final(b).scalars.flags == old(b).scalars.flags
        },
        old(b).error is Some ==> final(b).state() == old(b).state(),
{
}

/// The user and the group that are projected.
pub proof fn law_token_projected_ids(b: &mut peios_token_builder, uid: u32, gid: u32)
    requires
        old(b).wf(),
        call_ensures(peios_token_builder_projected_ids, (b, uid, gid), ()),
    ensures
        old(b).error is None ==> only_values_differ(final(b).state(), old(b).state()) && {
            &&& final(b).scalars.token_type == old(b).scalars.token_type
            &&& final(b).scalars.impersonation_level == old(b).scalars.impersonation_level
            &&& final(b).scalars.integrity_rid == old(b).scalars.integrity_rid
            &&& final(b).scalars.mandatory_policy == old(b).scalars.mandatory_policy
            &&& final(b).scalars.privs_present == old(b).scalars.privs_present
            &&& final(b).scalars.privs_enabled == old(b).scalars.privs_enabled
            &&& final(b).scalars.projected_uid == uid
            &&& final(b).scalars.projected_gid == gid
            &&& final(b).scalars.audit_policy == old(b).scalars.audit_policy
            &&& final(b).scalars.expiration == old(b).scalars.expiration
            &&& final(b).scalars.session_id == old(b).scalars.session_id
            &&& final(b).scalars.owner_sid_index == old(b).scalars.owner_sid_index
            &&& final(b).scalars.primary_group_index == old(b).scalars.primary_group_index
            &&& final(b).scalars.source_name == old(b).scalars.source_name
            &&& final(b).scalars.source_id == old(b).scalars.source_id
            &&& final(b).scalars.flags == old(b).scalars.flags
        },
        old(b).error is Some ==> final(b).state() == old(b).state(),
{
}

/// When the token expires.
pub proof fn law_token_expiration(b: &mut peios_token_builder, when: u64)
    requires
        old(b).wf(),
        call_ensures(peios_token_builder_expiration, (b, when), ()),
    ensures
        old(b).error is None ==> only_values_differ(final(b).state(), old(b).state()) && {
            &&& final(b).scalars.token_type == old(b).scalars.token_type
            &&& final(b).scalars.impersonation_level == old(b).scalars.impersonation_level
            &&& final(b).scalars.integrity_rid == old(b).scalars.integrity_rid
            &&& final(b).scalars.mandatory_policy == old(b).scalars.mandatory_policy
            &&& final(b).scalars.privs_present == old(b).scalars.privs_present
            &&& final(b).scalars.privs_enabled == old(b).scalars.privs_enabled
            &&& final(b).scalars.projected_uid == old(b).scalars.projected_uid
            &&& final(b).scalars.projected_gid == old(b).scalars.projected_gid
            &&& final(b).scalars.audit_policy == old(b).scalars.audit_policy
            &&& final(b).scalars.expiration == when
            &&& final(b).scalars.session_id == old(b).scalars.session_id
            &&& final(b).scalars.owner_sid_index == old(b).scalars.owner_sid_index
            &&& final(b).scalars.primary_group_index == old(b).scalars.primary_group_index
            &&& final(b).scalars.source_name == old(b).scalars.source_name
            &&& final(b).scalars.source_id == old(b).scalars.source_id
            &&& final(b).scalars.flags == old(b).scalars.flags
        },
        old(b).error is Some ==> final(b).state() == old(b).state(),
{
}

/// The audit policy.
pub proof fn law_token_audit_policy(b: &mut peios_token_builder, bits: u32)
    requires
        old(b).wf(),
        call_ensures(peios_token_builder_audit_policy, (b, bits), ()),
    ensures
        old(b).error is None ==> only_values_differ(final(b).state(), old(b).state()) && {
            &&& final(b).scalars.token_type == old(b).scalars.token_type
            &&& final(b).scalars.impersonation_level == old(b).scalars.impersonation_level
            &&& final(b).scalars.integrity_rid == old(b).scalars.integrity_rid
            &&& final(b).scalars.mandatory_policy == old(b).scalars.mandatory_policy
            &&& final(b).scalars.privs_present == old(b).scalars.privs_present
            &&& final(b).scalars.privs_enabled == old(b).scalars.privs_enabled
            &&& final(b).scalars.projected_uid == old(b).scalars.projected_uid
            &&& final(b).scalars.projected_gid == old(b).scalars.projected_gid
            &&& final(b).scalars.audit_policy == bits
            &&& final(b).scalars.expiration == old(b).scalars.expiration
            &&& final(b).scalars.session_id == old(b).scalars.session_id
            &&& final(b).scalars.owner_sid_index == old(b).scalars.owner_sid_index
            &&& final(b).scalars.primary_group_index == old(b).scalars.primary_group_index
            &&& final(b).scalars.source_name == old(b).scalars.source_name
            &&& final(b).scalars.source_id == old(b).scalars.source_id
            &&& final(b).scalars.flags == old(b).scalars.flags
        },
        old(b).error is Some ==> final(b).state() == old(b).state(),
{
}

/// Where the token comes from.
pub proof fn law_token_source(b: &mut peios_token_builder, name: &[u8; 8], id: u64)
    requires
        old(b).wf(),
        call_ensures(peios_token_builder_source, (b, Some(name), id), ()),
    ensures
        old(b).error is None ==> only_values_differ(final(b).state(), old(b).state()) && {
            &&& final(b).scalars.token_type == old(b).scalars.token_type
            &&& final(b).scalars.impersonation_level == old(b).scalars.impersonation_level
            &&& final(b).scalars.integrity_rid == old(b).scalars.integrity_rid
            &&& final(b).scalars.mandatory_policy == old(b).scalars.mandatory_policy
            &&& final(b).scalars.privs_present == old(b).scalars.privs_present
            &&& final(b).scalars.privs_enabled == old(b).scalars.privs_enabled
            &&& final(b).scalars.projected_uid == old(b).scalars.projected_uid
            &&& final(b).scalars.projected_gid == old(b).scalars.projected_gid
            &&& final(b).scalars.audit_policy == old(b).scalars.audit_policy
            &&& final(b).scalars.expiration == old(b).scalars.expiration
            &&& final(b).scalars.session_id == old(b).scalars.session_id
            &&& final(b).scalars.owner_sid_index == old(b).scalars.owner_sid_index
            &&& final(b).scalars.primary_group_index == old(b).scalars.primary_group_index
            &&& final(b).scalars.source_name == *name
            &&& final(b).scalars.source_id == id
            &&& final(b).scalars.flags == old(b).scalars.flags
        },
        old(b).error is Some ==> final(b).state() == old(b).state(),
{
}

/// The switches.
pub proof fn law_token_switches(b: &mut peios_token_builder, flags: &peios_token_flags)
    requires
        old(b).wf(),
        call_ensures(peios_token_builder_flags, (b, Some(flags)), ()),
    ensures
        old(b).error is None ==> only_values_differ(final(b).state(), old(b).state()) && {
            &&& final(b).scalars.token_type == old(b).scalars.token_type
            &&& final(b).scalars.impersonation_level == old(b).scalars.impersonation_level
            &&& final(b).scalars.integrity_rid == old(b).scalars.integrity_rid
            &&& final(b).scalars.mandatory_policy == old(b).scalars.mandatory_policy
            &&& final(b).scalars.privs_present == old(b).scalars.privs_present
            &&& final(b).scalars.privs_enabled == old(b).scalars.privs_enabled
            &&& final(b).scalars.projected_uid == old(b).scalars.projected_uid
            &&& final(b).scalars.projected_gid == old(b).scalars.projected_gid
            &&& final(b).scalars.audit_policy == old(b).scalars.audit_policy
            &&& final(b).scalars.expiration == old(b).scalars.expiration
            &&& final(b).scalars.session_id == old(b).scalars.session_id
            &&& final(b).scalars.owner_sid_index == old(b).scalars.owner_sid_index
            &&& final(b).scalars.primary_group_index == old(b).scalars.primary_group_index
            &&& final(b).scalars.source_name == old(b).scalars.source_name
            &&& final(b).scalars.source_id == old(b).scalars.source_id
            &&& final(b).scalars.flags == *flags
        },
        old(b).error is Some ==> final(b).state() == old(b).state(),
{
}

/// The user.
pub proof fn law_token_user(b: &mut peios_token_builder, sid: &[u8])
    requires
        old(b).wf(),
        call_ensures(peios_token_builder_user, (b, Some(sid)), ()),
    ensures
        old(b).error is None && sid_valid(sid@) ==> {
            &&& final(b).state().user_sid == Some(sid@)
            &&& final(b).state().groups == old(b).state().groups
            &&& final(b).state().device_groups == old(b).state().device_groups
            &&& final(b).state().restricted_sids == old(b).state().restricted_sids
            &&& final(b).state().default_dacl == old(b).state().default_dacl
            &&& final(b).state().confinement_sid == old(b).state().confinement_sid
            &&& final(b).state().supp_gids == old(b).state().supp_gids
            &&& final(b).state().user_claims == old(b).state().user_claims
            &&& final(b).state().device_claims == old(b).state().device_claims
            &&& final(b).state().lcs_credentials == old(b).state().lcs_credentials
            &&& final(b).scalars == old(b).scalars
            &&& final(b).error is None
        },
        old(b).error is None && !sid_valid(sid@) ==> final(b).error == Some(Errno::Inval) && only_values_differ(
            final(b).state().latched(Errno::Inval),
            old(b).state().latched(Errno::Inval),
        ) && final(b).scalars == old(b).scalars,
        old(b).error is Some ==> final(b).state() == old(b).state(),
{
}

/// The identifier that confines.
pub proof fn law_token_confinement(b: &mut peios_token_builder, sid: &[u8])
    requires
        old(b).wf(),
        call_ensures(peios_token_builder_confinement, (b, Some(sid)), ()),
    ensures
        old(b).error is None && sid_valid(sid@) ==> {
            &&& final(b).state().confinement_sid == Some(sid@)
            &&& final(b).state().user_sid == old(b).state().user_sid
            &&& final(b).state().groups == old(b).state().groups
            &&& final(b).state().device_groups == old(b).state().device_groups
            &&& final(b).state().restricted_sids == old(b).state().restricted_sids
            &&& final(b).state().default_dacl == old(b).state().default_dacl
            &&& final(b).state().supp_gids == old(b).state().supp_gids
            &&& final(b).state().user_claims == old(b).state().user_claims
            &&& final(b).state().device_claims == old(b).state().device_claims
            &&& final(b).state().lcs_credentials == old(b).state().lcs_credentials
            &&& final(b).scalars == old(b).scalars
            &&& final(b).error is None
        },
        old(b).error is None && !sid_valid(sid@) ==> final(b).error == Some(Errno::Inval) && only_values_differ(
            final(b).state().latched(Errno::Inval),
            old(b).state().latched(Errno::Inval),
        ) && final(b).scalars == old(b).scalars,
        old(b).error is Some ==> final(b).state() == old(b).state(),
{
}

/// The default access list.
pub proof fn law_token_default_list(b: &mut peios_token_builder, acl: &[u8])
    requires
        old(b).wf(),
        call_ensures(peios_token_builder_default_dacl, (b, Some(acl)), ()),
    ensures
        old(b).error is None && acl_sound(acl@) ==> {
            &&& final(b).state().default_dacl == Some(acl@)
            &&& final(b).state().user_sid == old(b).state().user_sid
            &&& final(b).state().groups == old(b).state().groups
            &&& final(b).state().device_groups == old(b).state().device_groups
            &&& final(b).state().restricted_sids == old(b).state().restricted_sids
            &&& final(b).state().confinement_sid == old(b).state().confinement_sid
            &&& final(b).state().supp_gids == old(b).state().supp_gids
            &&& final(b).state().user_claims == old(b).state().user_claims
            &&& final(b).state().device_claims == old(b).state().device_claims
            &&& final(b).state().lcs_credentials == old(b).state().lcs_credentials
            &&& final(b).scalars == old(b).scalars
            &&& final(b).error is None
        },
        old(b).error is None && !acl_sound(acl@) ==> final(b).error == Some(Errno::Inval) && only_values_differ(
            final(b).state().latched(Errno::Inval),
            old(b).state().latched(Errno::Inval),
        ) && final(b).scalars == old(b).scalars,
        old(b).error is Some ==> final(b).state() == old(b).state(),
{
}

/// A group, with its attributes, behind those before it.
pub proof fn law_token_add_group(b: &mut peios_token_builder, sid: &[u8], attrs: u32)
    requires
        old(b).wf(),
        call_ensures(peios_token_builder_add_group, (b, Some(sid), attrs), ()),
    ensures
        old(b).error is None && sid_valid(sid@) && old(b).state().groups.len() < 0xffff_ffff ==> {
            &&& final(b).state().groups == old(b).state().groups.push((sid@, attrs))
            &&& final(b).state().user_sid == old(b).state().user_sid
            &&& final(b).state().device_groups == old(b).state().device_groups
            &&& final(b).state().restricted_sids == old(b).state().restricted_sids
            &&& final(b).state().default_dacl == old(b).state().default_dacl
            &&& final(b).state().confinement_sid == old(b).state().confinement_sid
            &&& final(b).state().supp_gids == old(b).state().supp_gids
            &&& final(b).state().user_claims == old(b).state().user_claims
            &&& final(b).state().device_claims == old(b).state().device_claims
            &&& final(b).state().lcs_credentials == old(b).state().lcs_credentials
            &&& final(b).scalars == old(b).scalars
            &&& final(b).error is None
        },
        old(b).error is None && !sid_valid(sid@) ==> final(b).error == Some(Errno::Inval) && only_values_differ(
            final(b).state().latched(Errno::Inval),
            old(b).state().latched(Errno::Inval),
        ) && final(b).scalars == old(b).scalars,
        old(b).error is Some ==> final(b).state() == old(b).state(),
{
}

/// A restricted identifier, with its attributes, behind those before it.
pub proof fn law_token_add_restricted_sid(b: &mut peios_token_builder, sid: &[u8], attrs: u32)
    requires
        old(b).wf(),
        call_ensures(peios_token_builder_add_restricted_sid, (b, Some(sid), attrs), ()),
    ensures
        old(b).error is None && sid_valid(sid@) && old(b).state().restricted_sids.len() < 0xffff_ffff ==> {
            &&& final(b).state().restricted_sids == old(b).state().restricted_sids.push((sid@, attrs))
            &&& final(b).state().user_sid == old(b).state().user_sid
            &&& final(b).state().groups == old(b).state().groups
            &&& final(b).state().device_groups == old(b).state().device_groups
            &&& final(b).state().default_dacl == old(b).state().default_dacl
            &&& final(b).state().confinement_sid == old(b).state().confinement_sid
            &&& final(b).state().supp_gids == old(b).state().supp_gids
            &&& final(b).state().user_claims == old(b).state().user_claims
            &&& final(b).state().device_claims == old(b).state().device_claims
            &&& final(b).state().lcs_credentials == old(b).state().lcs_credentials
            &&& final(b).scalars == old(b).scalars
            &&& final(b).error is None
        },
        old(b).error is None && !sid_valid(sid@) ==> final(b).error == Some(Errno::Inval) && only_values_differ(
            final(b).state().latched(Errno::Inval),
            old(b).state().latched(Errno::Inval),
        ) && final(b).scalars == old(b).scalars,
        old(b).error is Some ==> final(b).state() == old(b).state(),
{
}

/// A group of the device, with its attributes, behind those before it.
pub proof fn law_token_add_device_group(b: &mut peios_token_builder, sid: &[u8], attrs: u32)
    requires
        old(b).wf(),
        call_ensures(peios_token_builder_add_device_group, (b, Some(sid), attrs), ()),
    ensures
        old(b).error is None && sid_valid(sid@) && old(b).state().device_groups.len() < 0xffff_ffff ==> {
            &&& final(b).state().device_groups == old(b).state().device_groups.push((sid@, attrs))
            &&& final(b).state().user_sid == old(b).state().user_sid
            &&& final(b).state().groups == old(b).state().groups
            &&& final(b).state().restricted_sids == old(b).state().restricted_sids
            &&& final(b).state().default_dacl == old(b).state().default_dacl
            &&& final(b).state().confinement_sid == old(b).state().confinement_sid
            &&& final(b).state().supp_gids == old(b).state().supp_gids
            &&& final(b).state().user_claims == old(b).state().user_claims
            &&& final(b).state().device_claims == old(b).state().device_claims
            &&& final(b).state().lcs_credentials == old(b).state().lcs_credentials
            &&& final(b).scalars == old(b).scalars
            &&& final(b).error is None
        },
        old(b).error is None && !sid_valid(sid@) ==> final(b).error == Some(Errno::Inval) && only_values_differ(
            final(b).state().latched(Errno::Inval),
            old(b).state().latched(Errno::Inval),
        ) && final(b).scalars == old(b).scalars,
        old(b).error is Some ==> final(b).state() == old(b).state(),
{
}

/// A claim of the user, behind those before it.
pub proof fn law_token_add_user_claim(b: &mut peios_token_builder, claim: &peios_token_claim)
    requires
        old(b).wf(),
        claim.wf(),
        call_ensures(peios_token_builder_add_user_claim, (b, Some(claim)), ()),
    ensures
        old(b).error is None ==> (claim_encoding(*claim) matches Some(c) ==> (c.len() <= 0xffff_ffff ==> {
            &&& final(b).state().user_claims == old(b).state().user_claims.push(c)
            &&& final(b).state().user_sid == old(b).state().user_sid
            &&& final(b).state().groups == old(b).state().groups
            &&& final(b).state().device_groups == old(b).state().device_groups
            &&& final(b).state().restricted_sids == old(b).state().restricted_sids
            &&& final(b).state().default_dacl == old(b).state().default_dacl
            &&& final(b).state().confinement_sid == old(b).state().confinement_sid
            &&& final(b).state().supp_gids == old(b).state().supp_gids
            &&& final(b).state().device_claims == old(b).state().device_claims
            &&& final(b).state().lcs_credentials == old(b).state().lcs_credentials
            &&& final(b).scalars == old(b).scalars
            &&& final(b).error is None
        })),
        old(b).error is None && claim_encoding(*claim) is None ==> final(b).error == Some(Errno::Inval) && only_values_differ(
            final(b).state().latched(Errno::Inval),
            old(b).state().latched(Errno::Inval),
        ) && final(b).scalars == old(b).scalars,
        old(b).error is Some ==> final(b).state() == old(b).state(),
{
}

/// A claim of the device, behind those before it.
pub proof fn law_token_add_device_claim(b: &mut peios_token_builder, claim: &peios_token_claim)
    requires
        old(b).wf(),
        claim.wf(),
        call_ensures(peios_token_builder_add_device_claim, (b, Some(claim)), ()),
    ensures
        old(b).error is None ==> (claim_encoding(*claim) matches Some(c) ==> (c.len() <= 0xffff_ffff ==> {
            &&& final(b).state().device_claims == old(b).state().device_claims.push(c)
            &&& final(b).state().user_sid == old(b).state().user_sid
            &&& final(b).state().groups == old(b).state().groups
            &&& final(b).state().device_groups == old(b).state().device_groups
            &&& final(b).state().restricted_sids == old(b).state().restricted_sids
            &&& final(b).state().default_dacl == old(b).state().default_dacl
            &&& final(b).state().confinement_sid == old(b).state().confinement_sid
            &&& final(b).state().supp_gids == old(b).state().supp_gids
            &&& final(b).state().user_claims == old(b).state().user_claims
            &&& final(b).state().lcs_credentials == old(b).state().lcs_credentials
            &&& final(b).scalars == old(b).scalars
            &&& final(b).error is None
        })),
        old(b).error is None && claim_encoding(*claim) is None ==> final(b).error == Some(Errno::Inval) && only_values_differ(
            final(b).state().latched(Errno::Inval),
            old(b).state().latched(Errno::Inval),
        ) && final(b).scalars == old(b).scalars,
        old(b).error is Some ==> final(b).state() == old(b).state(),
{
}

/// The supplementary groups, behind those before them.
pub proof fn law_token_supplementary_groups(b: &mut peios_token_builder, gids: &[u32], count: u32)
    requires
        old(b).wf(),
        gids@.len() == count,
        call_ensures(peios_token_builder_supp_gids, (b, Some(gids), count), ()),
    ensures
        old(b).error is None && old(b).supp_gids@.len() + count <= 0xffff_ffff ==> {
            &&& final(b).state().supp_gids == old(b).state().supp_gids + gids@
            &&& final(b).state().user_sid == old(b).state().user_sid
            &&& final(b).state().groups == old(b).state().groups
            &&& final(b).state().device_groups == old(b).state().device_groups
            &&& final(b).state().restricted_sids == old(b).state().restricted_sids
            &&& final(b).state().default_dacl == old(b).state().default_dacl
            &&& final(b).state().confinement_sid == old(b).state().confinement_sid
            &&& final(b).state().user_claims == old(b).state().user_claims
            &&& final(b).state().device_claims == old(b).state().device_claims
            &&& final(b).state().lcs_credentials == old(b).state().lcs_credentials
            &&& final(b).scalars == old(b).scalars
            &&& final(b).error is None
        },
        old(b).error is Some ==> final(b).state() == old(b).state(),
{
}

/// The registry credentials.
pub proof fn law_token_registry_credentials(b: &mut peios_token_builder, creds: &peios_token_lcs_credentials)
    requires
        old(b).wf(),
        creds.wf(),
        call_ensures(peios_token_builder_lcs_credentials, (b, Some(creds)), ()),
    ensures
        old(b).error is None ==> (lcs_encoding(*creds) matches Some(c) ==> {
            &&& final(b).state().lcs_credentials == Some(c)
            &&& final(b).state().user_sid == old(b).state().user_sid
            &&& final(b).state().groups == old(b).state().groups
            &&& final(b).state().device_groups == old(b).state().device_groups
            &&& final(b).state().restricted_sids == old(b).state().restricted_sids
            &&& final(b).state().default_dacl == old(b).state().default_dacl
            &&& final(b).state().confinement_sid == old(b).state().confinement_sid
            &&& final(b).state().supp_gids == old(b).state().supp_gids
            &&& final(b).state().user_claims == old(b).state().user_claims
            &&& final(b).state().device_claims == old(b).state().device_claims
            &&& final(b).scalars == old(b).scalars
            &&& final(b).error is None
        }),
        old(b).error is None && lcs_encoding(*creds) is None ==> final(b).error == Some(Errno::Inval) && only_values_differ(
            final(b).state().latched(Errno::Inval),
            old(b).state().latched(Errno::Inval),
        ) && final(b).scalars == old(b).scalars,
        old(b).error is Some ==> final(b).state() == old(b).state(),
{
}

/// A new description: every number is zero, every switch off, nothing else is there.
pub proof fn law_new_token(b: peios_token_builder)
    requires
        call_ensures(peios_token_builder_new, (), b),
    ensures
        b.scalars.token_type == 0,
        b.scalars.impersonation_level == 0,
        b.scalars.integrity_rid == 0,
        b.scalars.mandatory_policy == 0,
        b.scalars.privs_present == 0,
        b.scalars.privs_enabled == 0,
        b.scalars.projected_uid == 0,
        b.scalars.projected_gid == 0,
        b.scalars.audit_policy == 0,
        b.scalars.expiration == 0,
        b.scalars.session_id == 0,
        b.scalars.owner_sid_index == 0,
        b.scalars.primary_group_index == 0,
        b.scalars.source_id == 0,
        !b.scalars.flags.write_restricted && !b.scalars.flags.user_deny_only && !b.scalars.flags.isolation_boundary
            && !b.scalars.flags.confinement_exempt,
        b.scalars.source_name@ == seq![0u8, 0, 0, 0, 0, 0, 0, 0],
        b.user_sid is None && b.default_dacl is None && b.confinement_sid is None && b.lcs_credentials is None,
        b.groups.list@.len() == 0 && b.device_groups.list@.len() == 0 && b.restricted_sids.list@.len() == 0,
        b.supp_gids@.len() == 0 && b.user_claims.list@.len() == 0 && b.device_claims.list@.len() == 0,
        b.error is None,
{
}

/// The plain values on the wire.
pub proof fn law_token_values_on_the_wire(st: TokenState)
    ensures
        ({
            let s = st.bytes();
            let c = st.scalars;
            &&& le32_at(s, 0) == 2
            &&& s[4] == c.token_type
            &&& s[5] == c.impersonation_level
            &&& le32_at(s, 8) == c.integrity_rid
            &&& le32_at(s, 12) == c.mandatory_policy
            &&& le64_at(s, 16) == c.privs_present
            &&& le64_at(s, 24) == c.privs_enabled
            &&& le32_at(s, 36) == c.projected_uid
            &&& le32_at(s, 40) == c.projected_gid
            &&& le32_at(s, 44) == c.audit_policy
            &&& le64_at(s, 48) == c.expiration
            &&& le64_at(s, 56) == c.session_id
            &&& le32_at(s, 64) == c.owner_sid_index
            &&& le32_at(s, 68) == c.primary_group_index
            &&& s.subrange(72, 80) == c.source_name@
            &&& le64_at(s, 80) == c.source_id
            &&& s[156] == 1 <==> c.flags.confinement_exempt
            &&& s[157] == 1 <==> c.flags.write_restricted
            &&& s[158] == 1 <==> c.flags.user_deny_only
            &&& s[159] == 1 <==> c.flags.isolation_boundary
            &&& s[156] <= 1 && s[157] <= 1 && s[158] <= 1 && s[159] <= 1
            &&& st.groups.len() <= 0xffff_ffff ==> le32_at(s, 96) == st.groups.len()
            &&& st.device_groups.len() <= 0xffff_ffff ==> le32_at(s, 128) == st.device_groups.len()
            &&& st.restricted_sids.len() <= 0xffff_ffff ==> le32_at(s, 136) == st.restricted_sids.len()
            &&& st.supp_gids.len() <= 0xffff_ffff ==> le32_at(s, 164) == st.supp_gids.len()
        }),
{
    law_token_scalars_read_back(st);
    law_token_directory_reads_back(st);
}

/// Bytes stand where a word of the header says.
pub open spec fn stands_at(s: Seq<u8>, word: int, b: Seq<u8>) -> bool {
    let at = le32_at(s, word) as int;
    192 <= at && at + b.len() <= s.len() && s.subrange(at, at + b.len()) == b
}

/// The parts on the wire: each stands where its word of the header says, and the word of one that
/// is not there is zero.
#[verifier::spinoff_prover]
#[verifier::rlimit(60)]
pub proof fn law_token_parts_on_the_wire(st: TokenState)
    requires
        st.len() <= 65536,
    ensures
        st.user_sid matches Some(b) ==> stands_at(st.bytes(), 88, b),
        st.user_sid is None ==> le32_at(st.bytes(), 88) == 0,
        st.default_dacl matches Some(b) ==> stands_at(st.bytes(), 100, b) && le32_at(st.bytes(), 104) == b.len(),
        st.default_dacl is None ==> le32_at(st.bytes(), 100) == 0 && le32_at(st.bytes(), 104) == 0,
        st.confinement_sid matches Some(b) ==> stands_at(st.bytes(), 140, b) && le32_at(st.bytes(), 144) == b.len(),
        st.confinement_sid is None ==> le32_at(st.bytes(), 140) == 0 && le32_at(st.bytes(), 144) == 0,
        st.lcs_credentials matches Some(b) ==> stands_at(st.bytes(), 188, b),
        st.lcs_credentials is None ==> le32_at(st.bytes(), 188) == 0,
        sid_entries_bytes(st.groups).len() > 0 ==> stands_at(st.bytes(), 92, sid_entries_bytes(st.groups)),
        sid_entries_bytes(st.groups).len() == 0 ==> le32_at(st.bytes(), 92) == 0,
        sid_entries_bytes(st.device_groups).len() > 0 ==> stands_at(st.bytes(), 124, sid_entries_bytes(st.device_groups)),
        sid_entries_bytes(st.device_groups).len() == 0 ==> le32_at(st.bytes(), 124) == 0,
        sid_entries_bytes(st.restricted_sids).len() > 0 ==> stands_at(st.bytes(), 132, sid_entries_bytes(st.restricted_sids)),
        sid_entries_bytes(st.restricted_sids).len() == 0 ==> le32_at(st.bytes(), 132) == 0,
        le32s(st.supp_gids).len() > 0 ==> stands_at(st.bytes(), 160, le32s(st.supp_gids)),
        le32s(st.supp_gids).len() == 0 ==> le32_at(st.bytes(), 160) == 0,
        claims_bytes(st.user_claims).len() > 0 ==> stands_at(st.bytes(), 108, claims_bytes(st.user_claims)) && le32_at(st.bytes(), 112) == claims_bytes(st.user_claims).len(),
        claims_bytes(st.user_claims).len() == 0 ==> le32_at(st.bytes(), 108) == 0,
        claims_bytes(st.device_claims).len() > 0 ==> stands_at(st.bytes(), 116, claims_bytes(st.device_claims)) && le32_at(st.bytes(), 120) == claims_bytes(st.device_claims).len(),
        claims_bytes(st.device_claims).len() == 0 ==> le32_at(st.bytes(), 116) == 0,
{
    law_token_directory_reads_back(st);
    lemma_part_in_place(st, 0);
    lemma_part_in_place(st, 2);
    lemma_part_in_place(st, 5);
    lemma_part_in_place(st, 9);
    lemma_part_in_place(st, 1);
    lemma_part_in_place(st, 3);
    lemma_part_in_place(st, 4);
    lemma_part_in_place(st, 6);
    lemma_part_in_place(st, 7);
    lemma_part_in_place(st, 8);
}

proof fn lemma_part_in_place(st: TokenState, k: int)
    requires
        st.len() <= 65536,
        0 <= k < 10,
    ensures
        st.sections()[k] matches Some(b) ==> {
            let at = section_at(st.sections(), k) as int;
            192 <= at && at + b.len() <= st.bytes().len() && st.bytes().subrange(at, at + b.len()) == b && b.len() <= 65536
        },
        st.sections()[k] is None ==> section_at(st.sections(), k) == 0,
{
    if st.sections()[k] is Some {
        law_token_section_in_place(st, k);
    }
}

/// The parts follow one another without gaps: user, groups, default list, groups of the device,
/// restricted identifiers, the one that confines, supplementary groups, claims of the user, claims
/// of the device, registry credentials.
pub proof fn law_order_of_token_parts(st: TokenState)
    ensures
        st.sections().len() == 10,
        st.sections()[0] == st.user_sid,
        st.sections()[2] == st.default_dacl,
        st.sections()[5] == st.confinement_sid,
        st.sections()[9] == st.lcs_credentials,
        sid_entries_bytes(st.groups).len() > 0 ==> st.sections()[1] == Some(sid_entries_bytes(st.groups)),
        sid_entries_bytes(st.device_groups).len() > 0 ==> st.sections()[3] == Some(sid_entries_bytes(st.device_groups)),
        sid_entries_bytes(st.restricted_sids).len() > 0 ==> st.sections()[4] == Some(
            sid_entries_bytes(st.restricted_sids),
        ),
        le32s(st.supp_gids).len() > 0 ==> st.sections()[6] == Some(le32s(st.supp_gids)),
        claims_bytes(st.user_claims).len() > 0 ==> st.sections()[7] == Some(claims_bytes(st.user_claims)),
        claims_bytes(st.device_claims).len() > 0 ==> st.sections()[8] == Some(claims_bytes(st.device_claims)),
{
}

/// A description is at most 64 KiB; a longer one is an error from then on.
pub proof fn law_token_bytes(b: &mut peios_token_builder, r: Result<&[u8], Errno>)
    requires
        old(b).wf(),
        call_ensures(peios_token_builder_bytes, (b,), r),
    ensures
        old(b).error matches Some(e) ==> r == Err::<&[u8], Errno>(e),
        old(b).error is None && old(b).state().len() > 65536 ==> r == Err::<&[u8], Errno>(Errno::Inval) && final(b).error
            == Some(Errno::Inval),
        old(b).error is None && old(b).state().len() <= 65536 ==> (r matches Ok(s) && s@ == old(b).state().bytes())
            && final(b).error is None,
{
}

/// Lists of identifiers and of claims on the wire.
pub proof fn law_lists_of_a_token(l: Seq<(Seq<u8>, u32)>, sid: Seq<u8>, attrs: u32, c: Seq<Seq<u8>>, claim: Seq<u8>)
    ensures
        sid_entries_bytes(Seq::empty()) == Seq::<u8>::empty(),
        sid_entries_bytes(l.push((sid, attrs))) == sid_entries_bytes(l) + (le32(sid.len() as u32) + sid + le32(attrs)),
        claims_bytes(Seq::empty()) == Seq::<u8>::empty(),
        claims_bytes(c.push(claim)) == claims_bytes(c) + le32(claim.len() as u32) + claim,
{
    assert(l.push((sid, attrs)).drop_last() =~= l);
    assert(c.push(claim).drop_last() =~= c);
}

/// Words on the wire, one behind another.
pub proof fn law_words_in_a_row(w: Seq<u32>, i: int)
    ensures
        le32s(w).len() == 4 * w.len(),
        0 <= i < w.len() ==> le32s(w).subrange(4 * i, 4 * i + 4) == le32(w[i]),
{
    if 0 <= i < w.len() {
        let t = le32s(w).subrange(4 * i, 4 * i + 4);
        assert forall|k: int| 0 <= k < 4 implies t[k] == le32(w[i])[k] by {
            assert((4 * i + k) / 4 == i && (4 * i + k) % 4 == k);
        }
        assert(t =~= le32(w[i]));
    }
}

/// Which claims are encoded.
pub proof fn law_claims_that_are_encoded(c: peios_token_claim, r: Result<Vec<u8>, Errno>)
    requires
        c.wf(),
        call_ensures(encode_claim, (&c,), r),
    ensures
        r matches Err(e) ==> e == Errno::Inval,
        c.name is None ==> r is Err,
        c.name matches Some(n) ==> (n@.len() >= 65536 || !valid_utf8(n@) || decode_utf8(n@).contains('\0') ==> r is Err),
        c.value_count > 0 && c.values is None ==> r is Err,
        !(c.value_type == 1 || c.value_type == 2 || c.value_type == 3 || c.value_type == 5 || c.value_type == 6
            || c.value_type == 0x10) ==> r is Err,
        r matches Ok(b) ==> {
            let n = c.name->Some_0@;
            &&& le16_at(b@, 4) == c.value_type
            &&& le32_at(b@, 8) == c.flags
            &&& le32_at(b@, 12) == c.value_seq().len()
            &&& b@.subrange(le32_at(b@, 0) as int, b@.len() as int) == text16(decode_utf8(n)) + seq![0u8, 0u8]
        },
{
    if let Ok(b) = r {
        let n = c.name->Some_0@;
        law_claim_header_reads_back(n, c.value_type, c.flags, c.value_seq());
        assert(cstr16(n) =~= text16(decode_utf8(n)) + seq![0u8, 0u8]);
    }
}

/// Where a value of a claim stands, by its type.
pub proof fn law_values_of_claims_on_the_wire(name: Seq<u8>, t: u16, flags: u32, vals: Seq<ClaimValueView>, i: int)
    requires
        encodable(name, t, vals),
        0 <= i < vals.len(),
    ensures
        ({
            let s = claim_bytes(name, t, flags, vals);
            let slot = le32_at(s, 16 + 4 * i) as int;
            let at = le32_at(s, slot) as int;
            let b = vals[i].bytes->Some_0;
            &&& t == 1 || t == 2 || t == 6 ==> slot + 8 <= s.len() && le64_at(s, slot) == vals[i].scalar
            &&& t == 5 ==> at + b.len() <= s.len() && s.subrange(at, at + b.len()) == b
            &&& t == 0x10 ==> at + 4 + b.len() <= s.len() && s.subrange(at, at + 4 + b.len()) == le32(b.len() as u32) + b
            &&& t == 3 ==> at + cstr16(b).len() <= s.len() && s.subrange(at, at + cstr16(b).len()) == cstr16(b)
        }),
{
    law_claim_value_reads_back(name, t, flags, vals, i);
    if t == 0x10 {
        assert((le32(vals[i].bytes->Some_0.len() as u32) + vals[i].bytes->Some_0).len() == 4 + vals[i].bytes->Some_0.len());
    }
}

/// UTF-16: one unit below 0x10000, else two.
pub proof fn law_utf16_units(v: u32, chars: Seq<char>, c: char)
    ensures
        v < 0x1_0000 ==> scalar16(v) == le16(v as u16),
        0x1_0000 <= v <= 0x10_ffff ==> ({
            let hi = le16_at(scalar16(v), 0);
            let lo = le16_at(scalar16(v), 2);
            &&& scalar16(v).len() == 4
            &&& 0xd800 <= hi < 0xdc00
            &&& 0xdc00 <= lo < 0xe000
            &&& v == 0x1_0000 + 0x400 * (hi - 0xd800) + (lo - 0xdc00)
        }),
        text16(Seq::empty()) == Seq::<u8>::empty(),
        text16(chars.push(c)) == text16(chars) + scalar16(c as u32),
{
    assert(chars.push(c).drop_last() =~= chars);
    if 0x1_0000 <= v <= 0x10_ffff {
        let a = (0xd800 + (v - 0x1_0000) / 0x400) as u16;
        let b = (0xdc00 + (v - 0x1_0000) % 0x400) as u16;
        let s = scalar16(v);
        assert(s.subrange(0, 2) =~= le16(a));
        assert(s.subrange(2, 4) =~= le16(b));
        crate::bytes::law_le16_reads_back(s, 0, a);
        crate::bytes::law_le16_reads_back(s, 2, b);
    }
}

/// Registry credentials on the wire: version 1, zero, how many scopes, how many layers, the
/// scopes, the lengths of the layers' names, the names.
pub proof fn law_registry_credentials_on_the_wire(c: peios_token_lcs_credentials, r: Result<Vec<u8>, Errno>, i: int)
    requires
        c.wf(),
        call_ensures(encode_lcs, (&c,), r),
    ensures
        r matches Err(e) ==> e == Errno::Inval,
        c.scope_count > 256 || c.private_layer_count > 256 ==> r is Err,
        c.scope_count > 0 && c.scope_guids is None ==> r is Err,
        c.private_layer_count > 0 && c.private_layers is None ==> r is Err,
        r matches Ok(b) ==> {
            let g = c.guids();
            let l = c.layers();
            let lengths = 16 + 16 * g.len();
            let names = lengths + 4 * l.len();
            &&& le32_at(b@, 0) == 1
            &&& le32_at(b@, 4) == 0
            &&& le32_at(b@, 8) == g.len()
            &&& le32_at(b@, 12) == l.len()
            &&& 0 <= i < g.len() ==> b@.subrange(16 + 16 * i, 32 + 16 * i) == g[i]@ && !is_nil(g[i]@)
            &&& 0 <= i < l.len() ==> l[i] is Some && le32_at(b@, lengths + 4 * i) == l[i]->Some_0@.len() && layer_name_fits(
                l[i]->Some_0@,
            )
            &&& 0 <= i < l.len() ==> ({
                let at = names + name_bytes(l.take(i)).len();
                b@.subrange(at as int, (at + l[i]->Some_0@.len()) as int) == l[i]->Some_0@
            })
        },
{
    if let Ok(b) = r {
        law_lcs_counts_read_back(c.guids(), c.layers());
        if 0 <= i < c.guids().len() {
            law_lcs_scope_reads_back(c.guids(), c.layers(), i);
        }
        if 0 <= i < c.layers().len() {
            law_lcs_layer_reads_back(c.guids(), c.layers(), i);
        }
    }
}

/// No scope comes twice, and no layer under names that differ only in the case of ASCII letters.
pub proof fn law_registry_credentials_are_distinct(c: peios_token_lcs_credentials, r: Result<Vec<u8>, Errno>, i: int, j: int)
    requires
        c.wf(),
        call_ensures(encode_lcs, (&c,), r),
        r is Ok,
        0 <= i < j,
    ensures
        j < c.guids().len() ==> c.guids()[i]@ != c.guids()[j]@,
        j < c.layers().len() ==> !same_fold(c.layers()[i]->Some_0@, c.layers()[j]->Some_0@),
{
}

/// Names of layers: 1 to 255 bytes of UTF-8 without slashes, backslashes or zeros.
pub proof fn law_names_of_layers(n: Seq<u8>, c: u8)
    ensures
        layer_name_fits(n) <==> {
            &&& 1 <= n.len() <= 255
            &&& valid_utf8(n)
            &&& forall|k: int| 0 <= k < n.len() ==> (#[trigger] n[k]) != 0x2f && n[k] != 0x5c && n[k] != 0
        },
        0x41 <= c <= 0x5a ==> fold(c) == c + 0x20,
        !(0x41 <= c <= 0x5a) ==> fold(c) == c,
{
}

} // verus!
