// Token descriptions, and what goes to and comes from the kernel about tokens and sessions.

use peios::abi::Span;
use peios::error::Errno;
use peios::security::rules::{CLAIM_TYPE_SID, CLAIM_TYPE_STRING, CLAIM_TYPE_UINT64};
use peios::token::actions::{
    adjust_default_args, duplicate_args, pack_restrict, peios_token_restrict, reset_groups_entry, reset_privileges_entry,
    restrict_request,
};
use peios::token::builder::{
    peios_token_builder, peios_token_builder_add_device_claim, peios_token_builder_add_device_group,
    peios_token_builder_add_group, peios_token_builder_add_restricted_sid, peios_token_builder_add_user_claim,
    peios_token_builder_audit_policy, peios_token_builder_bytes, peios_token_builder_confinement,
    peios_token_builder_default_dacl, peios_token_builder_error, peios_token_builder_expiration,
    peios_token_builder_flags, peios_token_builder_integrity, peios_token_builder_lcs_credentials,
    peios_token_builder_mandatory_policy, peios_token_builder_new, peios_token_builder_owner_index,
    peios_token_builder_primary_group_index, peios_token_builder_privileges, peios_token_builder_projected_ids,
    peios_token_builder_reset, peios_token_builder_session, peios_token_builder_source, peios_token_builder_supp_gids,
    peios_token_builder_type, peios_token_builder_user, peios_token_flags, TOKEN_SPEC_HEADER_BYTES, TOKEN_SPEC_VERSION,
};
use peios::token::claims::{peios_token_claim, peios_token_claim_value};
use peios::token::lcs::peios_token_lcs_credentials;
use peios::token::message::{
    build_send_control, cmsg_align, cmsg_len, cmsg_space, deliver_control, fds_to_send, parse_control, receive_answer,
    receive_control_len, receive_flags, send_control, KACS_SCM_TOKEN, MSG_CMSG_CLOEXEC, PEIOS_SOCKET_MSG_CTRUNCATED, PEIOS_SOCKET_MSG_TRUNCATED, SCM_RIGHTS, SOL_KACS,
    SOL_SOCKET,
};
use peios::token::ops::{encode_session_spec, peios_session_spec, session_request, LOGON_SESSION_SPEC_MAX_BYTES};
use peios::token::query::{
    fixed_answer_room, integrity_answer, privileges_answer, query_args, statistics_answer, word_answer,
    TOKEN_CLASS_SESSION_ID, TOKEN_CLASS_STATISTICS,
};

fn sid(authority: u64, subs: &[u32]) -> Vec<u8> {
    let mut v = vec![1u8, subs.len() as u8];
    v.extend_from_slice(&authority.to_be_bytes()[2..8]);
    for s in subs {
        v.extend_from_slice(&s.to_le_bytes());
    }
    v
}

fn empty_dacl() -> Vec<u8> {
    vec![2, 0, 8, 0, 0, 0, 0, 0]
}

fn u32_at(b: &[u8], off: usize) -> u32 {
    u32::from_le_bytes(b[off..off + 4].try_into().unwrap())
}

fn u64_at(b: &[u8], off: usize) -> u64 {
    u64::from_le_bytes(b[off..off + 8].try_into().unwrap())
}

fn sid_attrs_at(b: &[u8], off: usize, count: u32) -> Vec<(Vec<u8>, u32)> {
    let mut out = Vec::new();
    let mut p = off;
    for _ in 0..count {
        let sl = u32_at(b, p) as usize;
        p += 4;
        let sid = b[p..p + sl].to_vec();
        p += sl;
        let attrs = u32_at(b, p);
        p += 4;
        out.push((sid, attrs));
    }
    out
}

fn bytes(b: &mut peios_token_builder) -> Vec<u8> {
    match peios_token_builder_bytes(b) {
        Ok(s) => s.to_vec(),
        Err(e) => panic!("bytes: {:?}", e),
    }
}

#[test]
fn full_spec_roundtrip() {
    let mut b = peios_token_builder_new();
    let user = sid(5, &[21, 1, 2, 3, 1000]);
    let g1 = sid(5, &[32, 544]);
    let g2 = sid(5, &[11]);
    let dacl = empty_dacl();

    peios_token_builder_user(&mut b, Some(&user));
    peios_token_builder_type(&mut b, 1, 0); // primary
    peios_token_builder_integrity(&mut b, 8192);
    peios_token_builder_session(&mut b, 0x1234_5678_9abc);
    peios_token_builder_privileges(&mut b, 0xFF, 0x0F);
    peios_token_builder_add_group(&mut b, Some(&g1), 0x7);
    peios_token_builder_add_group(&mut b, Some(&g2), 0x4);
    peios_token_builder_default_dacl(&mut b, Some(&dacl));
    let gids = [1000u32, 1001, 1002];
    peios_token_builder_supp_gids(&mut b, Some(&gids), gids.len() as u32);
    let flags = peios_token_flags {
        write_restricted: true,
        user_deny_only: false,
        isolation_boundary: true,
        confinement_exempt: false,
    };
    peios_token_builder_flags(&mut b, Some(&flags));
    assert_eq!(peios_token_builder_error(Some(&b)), None);

    let spec = bytes(&mut b);
    assert!(spec.len() >= TOKEN_SPEC_HEADER_BYTES);
    assert_eq!(u32_at(&spec, 0), TOKEN_SPEC_VERSION);
    assert_eq!(spec[4], 1);
    assert_eq!(u32_at(&spec, 8), 8192);
    assert_eq!(u64_at(&spec, 56), 0x1234_5678_9abc);
    assert_eq!(u64_at(&spec, 16), 0xFF);
    assert_eq!(u64_at(&spec, 24), 0x0F);
    assert_eq!(spec[157], 1);
    assert_eq!(spec[159], 1);
    assert_eq!(spec[158], 0);

    // The user.
    let uoff = u32_at(&spec, 88) as usize;
    assert!(uoff >= TOKEN_SPEC_HEADER_BYTES);
    assert_eq!(&spec[uoff..uoff + user.len()], &user[..]);

    // The groups.
    assert_eq!(u32_at(&spec, 96), 2);
    let goff = u32_at(&spec, 92) as usize;
    let groups = sid_attrs_at(&spec, goff, 2);
    assert_eq!(groups, vec![(g1.clone(), 0x7), (g2.clone(), 0x4)]);

    // The default list.
    let doff = u32_at(&spec, 100) as usize;
    let dlen = u32_at(&spec, 104) as usize;
    assert_eq!(&spec[doff..doff + dlen], &dacl[..]);

    // The supplementary groups.
    assert_eq!(u32_at(&spec, 164), 3);
    let soff = u32_at(&spec, 160) as usize;
    for (i, want) in gids.iter().enumerate() {
        assert_eq!(u32_at(&spec, soff + i * 4), *want);
    }

    // What is absent stays zero.
    assert_eq!(u32_at(&spec, 132), 0);
    assert_eq!(u32_at(&spec, 136), 0);
    assert_eq!(u32_at(&spec, 140), 0);
}

#[test]
fn the_other_setters_have_their_places() {
    let mut b = peios_token_builder_new();
    peios_token_builder_mandatory_policy(&mut b, 3);
    peios_token_builder_projected_ids(&mut b, 1000, 1001);
    peios_token_builder_audit_policy(&mut b, 0x55);
    peios_token_builder_expiration(&mut b, 0x1122_3344_5566_7788);
    peios_token_builder_owner_index(&mut b, 4);
    peios_token_builder_primary_group_index(&mut b, 5);
    peios_token_builder_source(&mut b, Some(b"sourced!"), 0x99);
    let app = sid(15, &[2, 1]);
    peios_token_builder_confinement(&mut b, Some(&app));
    let r = sid(5, &[12]);
    peios_token_builder_add_restricted_sid(&mut b, Some(&r), 1);
    let d = sid(5, &[2]);
    peios_token_builder_add_device_group(&mut b, Some(&d), 2);
    let spec = bytes(&mut b);
    assert_eq!(u32_at(&spec, 12), 3);
    assert_eq!((u32_at(&spec, 36), u32_at(&spec, 40)), (1000, 1001));
    assert_eq!(u32_at(&spec, 44), 0x55);
    assert_eq!(u64_at(&spec, 48), 0x1122_3344_5566_7788);
    assert_eq!((u32_at(&spec, 64), u32_at(&spec, 68)), (4, 5));
    assert_eq!(&spec[72..80], b"sourced!");
    assert_eq!(u64_at(&spec, 80), 0x99);
    let coff = u32_at(&spec, 140) as usize;
    assert_eq!(&spec[coff..coff + u32_at(&spec, 144) as usize], &app[..]);
    assert_eq!(sid_attrs_at(&spec, u32_at(&spec, 132) as usize, u32_at(&spec, 136)), vec![(r, 1)]);
    assert_eq!(sid_attrs_at(&spec, u32_at(&spec, 124) as usize, u32_at(&spec, 128)), vec![(d, 2)]);
}

#[test]
fn empty_spec_is_just_the_header() {
    let mut b = peios_token_builder_new();
    let spec = bytes(&mut b);
    assert_eq!(spec.len(), TOKEN_SPEC_HEADER_BYTES);
    assert_eq!(u32_at(&spec, 0), TOKEN_SPEC_VERSION);
    assert_eq!(u32_at(&spec, 88), 0);
    assert_eq!(u32_at(&spec, 96), 0);
}

#[test]
fn invalid_sid_latches() {
    let mut b = peios_token_builder_new();
    let bad = [1u8, 2, 3];
    peios_token_builder_user(&mut b, Some(&bad));
    assert_eq!(peios_token_builder_error(Some(&b)), Some(Errno::Inval));
    assert!(peios_token_builder_bytes(&mut b).is_err());
    peios_token_builder_reset(&mut b);
    assert_eq!(peios_token_builder_error(Some(&b)), None);
    assert_eq!(peios_token_builder_error(None), Some(Errno::Inval));
}

fn utf16_units(b: &[u8], off: usize) -> Vec<u16> {
    let mut out = Vec::new();
    let mut p = off;
    loop {
        let u = u16::from_le_bytes([b[p], b[p + 1]]);
        if u == 0 {
            break;
        }
        out.push(u);
        p += 2;
    }
    out
}

#[test]
fn claims_roundtrip() {
    let mut b = peios_token_builder_new();

    // A text claim of the user.
    let uval = [peios_token_claim_value { scalar: 0, bytes: Span::At(b"Engineering") }];
    let uclaim = peios_token_claim {
        name: Some(b"Department"),
        value_type: CLAIM_TYPE_STRING,
        flags: 0,
        values: Some(&uval),
        value_count: 1,
    };
    peios_token_builder_add_user_claim(&mut b, Some(&uclaim));

    // A number claim of the device.
    let dval = [peios_token_claim_value { scalar: 42, bytes: Span::Null(0) }];
    let dclaim = peios_token_claim {
        name: Some(b"Level"),
        value_type: CLAIM_TYPE_UINT64,
        flags: 0,
        values: Some(&dval),
        value_count: 1,
    };
    peios_token_builder_add_device_claim(&mut b, Some(&dclaim));
    assert_eq!(peios_token_builder_error(Some(&b)), None);

    let spec = bytes(&mut b);
    let uoff = u32_at(&spec, 108) as usize;
    let ulen = u32_at(&spec, 112) as usize;
    let usec = &spec[uoff..uoff + ulen];
    // One entry behind its length, and nothing else.
    let elen = u32_at(usec, 0) as usize;
    assert_eq!(usec.len(), 4 + elen);
    let s = &usec[4..4 + elen];
    let name_off = u32_at(s, 0) as usize;
    assert_eq!(u16::from_le_bytes([s[4], s[5]]), CLAIM_TYPE_STRING);
    assert_eq!(u32_at(s, 12), 1); // one value
    let slot = u32_at(s, 16) as usize;
    let str_off = u32_at(s, slot) as usize;
    assert_eq!(utf16_units(s, name_off), "Department".encode_utf16().collect::<Vec<u16>>());
    assert_eq!(utf16_units(s, str_off), "Engineering".encode_utf16().collect::<Vec<u16>>());

    // A number is in the slot itself.
    let doff = u32_at(&spec, 116) as usize;
    let dlen = u32_at(&spec, 120) as usize;
    let dsec = &spec[doff..doff + dlen];
    assert_eq!(dsec.len(), 4 + u32_at(dsec, 0) as usize);
    let ds = &dsec[4..4 + u32_at(dsec, 0) as usize];
    let dslot = u32_at(ds, 16) as usize;
    assert_eq!(u64_at(ds, dslot), 42);
}

#[test]
fn claim_bad_name_and_sid_latch() {
    // A name that is not UTF-8.
    let mut b = peios_token_builder_new();
    let claim = peios_token_claim {
        name: Some(&[0xFFu8, 0xFE]),
        value_type: CLAIM_TYPE_UINT64,
        flags: 0,
        values: None,
        value_count: 0,
    };
    peios_token_builder_add_user_claim(&mut b, Some(&claim));
    assert_eq!(peios_token_builder_error(Some(&b)), Some(Errno::Inval));

    // A SID value with other bytes.
    let mut b = peios_token_builder_new();
    let bad_sid = [1u8, 2, 3];
    let val = [peios_token_claim_value { scalar: 0, bytes: Span::At(&bad_sid) }];
    let claim =
        peios_token_claim { name: Some(b"S"), value_type: CLAIM_TYPE_SID, flags: 0, values: Some(&val), value_count: 1 };
    peios_token_builder_add_user_claim(&mut b, Some(&claim));
    assert_eq!(peios_token_builder_error(Some(&b)), Some(Errno::Inval));
}

#[test]
fn lcs_credentials_roundtrip() {
    let mut b = peios_token_builder_new();
    let guid: [u8; 16] =
        [0x11, 0x22, 0x33, 0x44, 0x55, 0x66, 0x77, 0x88, 0x99, 0xAA, 0xBB, 0xCC, 0xDD, 0xEE, 0xFF, 0x01];
    let guids = [guid];
    let layers: [Option<&[u8]>; 1] = [Some(b"mylayer")];
    let creds = peios_token_lcs_credentials {
        scope_guids: Some(&guids),
        scope_count: 1,
        private_layers: Some(&layers),
        private_layer_count: 1,
    };
    peios_token_builder_lcs_credentials(&mut b, Some(&creds));
    assert_eq!(peios_token_builder_error(Some(&b)), None);

    let spec = bytes(&mut b);
    let lcs_off = u32_at(&spec, 188) as usize;
    assert!(lcs_off >= TOKEN_SPEC_HEADER_BYTES);
    let ext = &spec[lcs_off..]; // runs to the end
    assert_eq!(u32_at(ext, 0), 1); // version
    assert_eq!(u32_at(ext, 4), 0); // reserved
    assert_eq!(u32_at(ext, 8), 1); // scopes
    assert_eq!(u32_at(ext, 12), 1); // layers
    assert_eq!(&ext[16..32], &guid[..]);
    let nlen = u32_at(ext, 32) as usize;
    assert_eq!(nlen, b"mylayer".len());
    assert_eq!(&ext[36..36 + nlen], b"mylayer");
    assert_eq!(ext.len(), 36 + nlen);
}

#[test]
fn lcs_nil_guid_and_bad_name_latch() {
    // A scope of zeros.
    let mut b = peios_token_builder_new();
    let guids = [[0u8; 16]];
    let creds = peios_token_lcs_credentials {
        scope_guids: Some(&guids),
        scope_count: 1,
        private_layers: None,
        private_layer_count: 0,
    };
    peios_token_builder_lcs_credentials(&mut b, Some(&creds));
    assert_eq!(peios_token_builder_error(Some(&b)), Some(Errno::Inval));

    // A layer name with a slash.
    let mut b = peios_token_builder_new();
    let guids = [[1u8; 16]];
    let layers: [Option<&[u8]>; 1] = [Some(b"a/b")];
    let creds = peios_token_lcs_credentials {
        scope_guids: Some(&guids),
        scope_count: 1,
        private_layers: Some(&layers),
        private_layer_count: 1,
    };
    peios_token_builder_lcs_credentials(&mut b, Some(&creds));
    assert_eq!(peios_token_builder_error(Some(&b)), Some(Errno::Inval));
}

// ---- Control messages ----

#[test]
fn alignment_matches_the_kernel_macros() {
    assert_eq!(cmsg_align(1), 8);
    assert_eq!(cmsg_align(8), 8);
    assert_eq!(cmsg_space(4), 16 + 8);
    assert_eq!(cmsg_len(4), 16 + 4);
}

#[test]
fn send_control_carries_token_then_rights() {
    let control = build_send_control(7, &[3, 4]);
    let parsed = parse_control(&control);
    assert_eq!(parsed.len(), 2);
    assert_eq!(parsed[0].level, SOL_KACS);
    assert_eq!(parsed[0].kind, KACS_SCM_TOKEN);
    assert_eq!(parsed[0].data, &7i32.to_le_bytes()[..]);
    assert_eq!(parsed[1].level, SOL_SOCKET);
    assert_eq!(parsed[1].kind, SCM_RIGHTS);
    let mut rights = Vec::new();
    rights.extend_from_slice(&3i32.to_le_bytes());
    rights.extend_from_slice(&4i32.to_le_bytes());
    assert_eq!(parsed[1].data, &rights[..]);
}

#[test]
fn send_control_is_empty_with_nothing_to_attach() {
    assert!(build_send_control(-1, &[]).is_empty());
}

#[test]
fn parse_control_stops_at_a_short_header() {
    let mut control = build_send_control(7, &[]);
    control.truncate(16 - 1);
    assert_eq!(parse_control(&control).len(), 0);
}

#[test]
fn parse_control_rejects_a_length_past_the_buffer() {
    let mut control = build_send_control(7, &[]);
    let bogus = (control.len() as u64 + 8).to_le_bytes();
    control[..8].copy_from_slice(&bogus);
    assert_eq!(parse_control(&control).len(), 0);
}

#[test]
fn what_was_sent_is_delivered() {
    let control = build_send_control(7, &[3, 4, 5]);
    let r = deliver_control(&control, 0, 2);
    assert_eq!(r.token_fd, 7);
    assert_eq!(r.fds, vec![3, 4]);
    // What the caller has no room for is closed.
    assert_eq!(r.closed, vec![5]);
    assert_eq!(r.flags, 0);
    let cut = deliver_control(&[], 0x28, 0);
    assert_eq!(cut.token_fd, -1);
    assert_eq!(cut.flags, PEIOS_SOCKET_MSG_TRUNCATED | PEIOS_SOCKET_MSG_CTRUNCATED);
}

#[test]
fn a_second_token_is_closed() {
    let mut control = build_send_control(7, &[]);
    control.extend_from_slice(&build_send_control(8, &[]));
    let r = deliver_control(&control, 0, 4);
    assert_eq!(r.token_fd, 7);
    assert_eq!(r.closed, vec![8]);
}

#[test]
fn message_arguments_are_checked() {
    assert_eq!(send_control(true, 1, -1, None, 0), Err(Errno::Inval));
    assert_eq!(send_control(false, 1, -1, None, 1), Err(Errno::Inval));
    assert!(send_control(false, 1, 7, Some(&[3]), 1).is_ok());
    // Of too many descriptors none is looked at.
    assert_eq!((fds_to_send(253), fds_to_send(254)), (253, 0));
    assert_eq!(send_control(false, 1, 7, Some(&[]), 254), Err(Errno::Inval));
    assert!(receive_control_len(true, 1, false, 0).is_err());
    assert!(receive_control_len(false, 1, true, 1).is_err());
    assert!(receive_control_len(false, 1, false, 4).is_ok());
}

#[test]
fn a_receive_asks_for_close_on_exec() {
    assert_eq!(MSG_CMSG_CLOEXEC, 0x4000_0000);
    assert_eq!(receive_flags(0), 0x4000_0000);
    assert_eq!(receive_flags(0x42), 0x4000_0042);
    assert_eq!(receive_flags(0x4000_0040), 0x4000_0040);
    assert_eq!(receive_flags(-1), -1);
}

#[test]
fn a_receive_is_answered_by_what_arrived() {
    let control = build_send_control(7, &[3, 4]);
    // A receive that failed gives nothing.
    assert!(receive_answer(-1, &control, control.len(), 0x28, 2).is_none());
    // The end of the stream is no failure.
    let (count, end) = receive_answer(0, &control, 0, 0, 2).unwrap();
    assert_eq!((count, end.token_fd, end.fds.len(), end.flags), (0, -1, 0, 0));
    // Only what the kernel filled counts: here the token, without the descriptors behind it.
    let (count, token) = receive_answer(9, &control, 24, 0x8, 2).unwrap();
    assert_eq!((count, token.token_fd, token.fds.len()), (9, 7, 0));
    assert_eq!(token.flags, PEIOS_SOCKET_MSG_CTRUNCATED);
    // A length past the buffer is that of the buffer.
    let (count, all) = receive_answer(9, &control, control.len() + 100, 0x20, 2).unwrap();
    assert_eq!((count, all.token_fd, all.fds, all.closed), (9, 7, vec![3, 4], vec![]));
    assert_eq!(all.flags, PEIOS_SOCKET_MSG_TRUNCATED);
}

// ---- Actions ----

#[test]
fn restrict_payload_packs_indices_then_sids() {
    let deny = [3u32, 7];
    let s1 = [1u8, 1, 0, 0, 0, 0, 0, 1, 0, 0, 0, 0]; // S-1-1-0
    let s2 = [1u8, 1, 0, 0, 0, 0, 0, 5, 18, 0, 0, 0]; // S-1-5-18
    let sids: [Option<&[u8]>; 2] = [Some(&s1), Some(&s2)];

    let payload = pack_restrict(&deny, &sids).unwrap();

    let mut expect = Vec::new();
    expect.extend_from_slice(&3u32.to_le_bytes());
    expect.extend_from_slice(&7u32.to_le_bytes());
    expect.extend_from_slice(&s1);
    expect.extend_from_slice(&s2);
    assert_eq!(payload, expect);

    let spec = peios_token_restrict {
        privs_to_delete: 5,
        deny_group_indices: Some(&deny),
        deny_count: 2,
        restrict_sids: Some(&sids),
        restrict_count: 2,
        flags: 1,
    };
    let (args, data) = restrict_request(Some(&spec)).unwrap();
    assert_eq!(data, expect);
    assert_eq!((args.num_deny_indices, args.num_restrict_sids, args.data_len), (2, 2, 32));
    assert_eq!((args.privs_to_delete, args.flags), (5, 1));
}

#[test]
fn restrict_payload_empty() {
    assert_eq!(pack_restrict(&[], &[]).unwrap(), Vec::<u8>::new());
    assert!(pack_restrict(&[], &[None]).is_none());
    assert!(restrict_request(None).is_err());
}

#[test]
fn adjust_default_null_dacl_ignores_len() {
    let args = adjust_default_args(0, usize::MAX, 0xFFFF, 0xFFFF).unwrap();
    assert_eq!(args.dacl_ptr, 0);
    assert_eq!(args.dacl_len, 0);
    assert_eq!(args.owner_index, 0xFFFF);
    assert_eq!(args.group_index, 0xFFFF);
}

#[test]
fn adjust_default_non_null_dacl_checks_len() {
    let dacl = 1u64;
    let clear = adjust_default_args(dacl, 0, 1, 2).unwrap();
    assert_eq!(clear.dacl_ptr, dacl);
    assert_eq!(clear.dacl_len, 0);
    assert_eq!(clear.owner_index, 1);
    assert_eq!(clear.group_index, 2);
    assert_eq!(adjust_default_args(dacl, u32::MAX as usize + 1, 0xFFFF, 0xFFFF), Err(Errno::Inval));
}

#[test]
fn fixed_requests() {
    let d = duplicate_args(0x0f, 2, 3);
    assert_eq!((d.access_mask, d.token_type, d.impersonation_level, d.result_fd), (0x0f, 2, 3, -1));
    assert_eq!(reset_privileges_entry().attributes, 0x8000_0000);
    assert_eq!(reset_groups_entry().index, 0xffff_ffff);
}

// ---- Sessions ----

#[test]
fn session_spec_encodes_exactly() {
    let user = sid(5, &[21, 7, 8, 9]);
    let auth = b"Negotiate";
    let spec = encode_session_spec(2, auth, &user).unwrap();

    let mut expect = Vec::new();
    expect.push(2u8); // logon type
    expect.extend_from_slice(&(auth.len() as u16).to_le_bytes());
    expect.extend_from_slice(auth);
    expect.extend_from_slice(&(user.len() as u32).to_le_bytes());
    expect.extend_from_slice(&user);
    assert_eq!(spec, expect);
    assert_eq!(spec.len(), 7 + auth.len() + user.len());
}

#[test]
fn session_spec_empty_auth_package() {
    let user = sid(5, &[18]);
    let spec = encode_session_spec(5, b"", &user).unwrap();
    assert_eq!(spec.len(), 7 + user.len());
    assert_eq!(&spec[1..3], &0u16.to_le_bytes());
}

#[test]
fn session_spec_too_large_is_einval() {
    let user = sid(5, &[18]);
    let big = vec![b'x'; LOGON_SESSION_SPEC_MAX_BYTES];
    assert_eq!(encode_session_spec(2, &big, &user), Err(Errno::Inval));
}

#[test]
fn session_create_rejects_null_id_out_before_syscall() {
    let user = sid(5, &[18]);
    let spec = peios_session_spec { logon_type: 2, auth_package: Some(b"Negotiate"), user_sid: Some(&user) };
    assert_eq!(session_request(Some(&spec), true), Err(Errno::Inval));
    assert!(session_request(Some(&spec), false).is_ok());
    assert_eq!(session_request(None, false), Err(Errno::Inval));
}

// ---- Queries ----

#[test]
fn typed_queries_reject_null_output_before_ioctl() {
    assert_eq!(fixed_answer_room(true, 4), Err(Errno::Inval));
    assert_eq!(fixed_answer_room(false, 4), Ok(4));
    assert_eq!(query_args(1, 0, 8), Err(Errno::Inval));
    assert!(query_args(1, 0, 0).is_ok());
}

#[test]
fn token_statistics_matches_the_kacs_wire_shape() {
    let mut reply = Vec::new();
    for v in [1u64, 2, 3] {
        reply.extend_from_slice(&v.to_le_bytes());
    }
    reply.extend_from_slice(&4u32.to_le_bytes());
    reply.extend_from_slice(&5u32.to_le_bytes());
    reply.extend_from_slice(&6u64.to_le_bytes());
    assert_eq!(reply.len(), 40);
    let s = statistics_answer(&reply).unwrap();
    assert_eq!((s.token_id, s.auth_id, s.modified_id), (1, 2, 3));
    assert_eq!((s.token_type, s.reserved, s.expiration), (4, 5, 6));
    assert!(statistics_answer(&reply[..32]).is_err());
    assert_eq!(TOKEN_CLASS_SESSION_ID, 0x08);
    assert_eq!(TOKEN_CLASS_STATISTICS, 0x0b);
}

#[test]
fn other_answers() {
    assert_eq!(word_answer(&[1, 2, 0, 0]), Ok(0x201));
    assert!(word_answer(&[1]).is_err());
    assert_eq!(integrity_answer(&sid(16, &[8192])), Ok(8192));
    assert!(integrity_answer(&sid(16, &[])).is_err());
    let mut reply = Vec::new();
    for v in [1u64, 2, 3, 4] {
        reply.extend_from_slice(&v.to_le_bytes());
    }
    let p = privileges_answer(&reply).unwrap();
    assert_eq!((p.present, p.enabled, p.enabled_by_default, p.used), (1, 2, 3, 4));
}
