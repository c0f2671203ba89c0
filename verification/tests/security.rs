// SIDs, list and descriptor builders, views, and the entry points for text.

use peios::abi::{emit, Emit};
use peios::error::Errno;
use peios::security::acl_builder::{
    integrity_sid, peios_ace_spec, peios_acl_builder, peios_acl_builder_add, peios_acl_builder_allow,
    peios_acl_builder_audit, peios_acl_builder_bytes, peios_acl_builder_deny, peios_acl_builder_error,
    peios_acl_builder_finish, peios_acl_builder_label, peios_acl_builder_new, peios_acl_builder_reset,
};
use peios::security::codec::DACL_SECURITY_INFORMATION;
use peios::security::mapping::{
    kacs_generic_mapping, peios_access_map_generic, peios_file_generic_mapping, peios_token_generic_mapping, GENERIC_BITS,
};
use peios::security::sd_builder::{
    peios_sd_builder, peios_sd_builder_bytes, peios_sd_builder_control, peios_sd_builder_dacl,
    peios_sd_builder_dacl_null, peios_sd_builder_error, peios_sd_builder_finish, peios_sd_builder_group,
    peios_sd_builder_new, peios_sd_builder_owner, peios_sd_builder_reset, peios_sd_builder_sacl,
};
use peios::security::sddl_ffi::{
    peios_sd_reinherit, peios_sd_strip_inherited, peios_sddl_format_condition, peios_sddl_format_sd,
    peios_sddl_parse_condition, peios_sddl_parse_sd, MAX_SDDL_TEXT,
};
use peios::security::sid::{
    peios_sid_build, peios_sid_equal, peios_sid_format, peios_sid_integrity, peios_sid_length, peios_sid_logon,
    peios_sid_parse_string, peios_sid_rid, peios_sid_valid, peios_sid_well_known,
};
use peios::security::view::{
    peios_ace_view_app_data, peios_ace_view_flags, peios_ace_view_inherited_object_type, peios_ace_view_mask,
    peios_ace_view_object_type, peios_ace_view_sid, peios_ace_view_type, peios_acl_parse, peios_acl_view,
    peios_acl_view_ace, peios_acl_view_count, peios_sd_parse, peios_sd_view_control, peios_sd_view_dacl,
    peios_sd_view_group, peios_sd_view_owner, peios_sd_view_sacl, peios_sid_array_count, peios_sid_array_get,
    peios_sid_array_parse,
};

const SELF_RELATIVE: u16 = 0x8000;
const DACL_PRESENT: u16 = 0x0004;

fn build(authority: u64, subs: &[u32]) -> Vec<u8> {
    peios_sid_build(authority, Some(subs), subs.len()).unwrap()
}

fn text(sid: &[u8]) -> String {
    String::from_utf8(peios_sid_format(Some(sid)).unwrap()).unwrap()
}

fn parse_string(s: &str) -> Result<Vec<u8>, Errno> {
    peios_sid_parse_string(Some(s.as_bytes()))
}

// ---- SIDs ----

#[test]
fn build_layout_and_roundtrip() {
    let sid = build(5, &[21, 1, 2, 3]);
    assert_eq!(sid.len(), 8 + 4 * 4);
    assert_eq!(sid[0], 1); // revision
    assert_eq!(sid[1], 4); // sub-authority count
    assert_eq!(&sid[2..8], &[0, 0, 0, 0, 0, 5]); // authority big-endian
    assert_eq!(&sid[8..12], &21u32.to_le_bytes()); // first sub-authority little-endian
    assert_eq!(text(&sid), "S-1-5-21-1-2-3");
}

#[test]
fn well_known_strings() {
    let expected = [
        (0, "S-1-0-0"),
        (1, "S-1-1-0"),
        (2, "S-1-2-0"),
        (3, "S-1-3-0"),
        (4, "S-1-3-1"),
        (5, "S-1-3-4"),
        (6, "S-1-5-7"),
        (7, "S-1-5-10"),
        (8, "S-1-5-11"),
        (9, "S-1-5-18"),
        (10, "S-1-5-19"),
        (11, "S-1-5-20"),
        (12, "S-1-5-32-544"),
    ];
    for (which, want) in expected {
        assert_eq!(text(&peios_sid_well_known(which).unwrap()), want, "well-known {}", which);
    }
}

#[test]
fn integrity_and_logon() {
    assert_eq!(text(&peios_sid_integrity(8192)), "S-1-16-8192");
    // The session number's upper half comes first.
    let session = (3u64 << 32) | 999;
    assert_eq!(text(&peios_sid_logon(session)), "S-1-5-5-3-999");
}

#[test]
fn parse_string_roundtrips_format() {
    for s in ["S-1-0-0", "S-1-5-18", "S-1-5-32-544", "S-1-16-12288", "S-1-5-5-3-999"] {
        let sid = parse_string(s).unwrap();
        assert_eq!(text(&sid), s);
    }
}

#[test]
fn the_longest_sid_is_written_and_read() {
    let longest = build(0xffff_ffff_ffff, &[u32::MAX; 15]);
    let written = text(&longest);
    assert_eq!(written.len(), 183);
    assert_eq!(parse_string(&written), Ok(longest));
}

#[test]
fn parse_string_accepts_hex_authority() {
    // An authority below 2^32 formats back in decimal.
    assert_eq!(parse_string("S-1-0x20-5").unwrap(), build(32, &[5]));
    // A larger one keeps the hexadecimal form.
    let big = parse_string("S-1-0x100000000-1").unwrap();
    assert_eq!(big, build(0x1_0000_0000, &[1]));
    assert_eq!(text(&big), "S-1-0x000100000000-1");
}

#[test]
fn parse_string_accepts_sddl_aliases() {
    assert_eq!(parse_string("BA").unwrap(), build(5, &[32, 544]));
    assert_eq!(parse_string("SY").unwrap(), build(5, &[18]));
    assert_eq!(parse_string("WD").unwrap(), build(1, &[0]));
}

#[test]
fn parse_string_rejects_malformed() {
    for bad in [
        "garbage",
        "S-2-5",                                        // wrong revision
        "S-1-",                                         // empty authority
        "S-1-5-",                                       // trailing empty sub-authority
        "S-1-5-99999999999",                            // sub-authority overflows
        "S-1-5-1-2-3-4-5-6-7-8-9-10-11-12-13-14-15-16", // too many sub-authorities
    ] {
        assert_eq!(parse_string(bad), Err(Errno::Inval), "expected a refusal of {:?}", bad);
    }
    assert_eq!(peios_sid_parse_string(None), Err(Errno::Inval));
    assert_eq!(peios_sid_parse_string(Some(&[0xff, 0xfe])), Err(Errno::Inval));
}

#[test]
fn inspectors() {
    let sid = build(5, &[32, 544]);
    assert!(peios_sid_valid(Some(&sid)));
    // Exactly the bytes of the SID.
    let mut padded = sid.clone();
    padded.push(0);
    assert!(!peios_sid_valid(Some(&padded)));
    assert!(!peios_sid_valid(Some(&sid[..sid.len() - 1])));

    assert_eq!(peios_sid_length(Some(&sid)), sid.len());
    assert_eq!(peios_sid_rid(Some(&sid)), 544);

    let same = build(5, &[32, 544]);
    let other = build(5, &[32, 545]);
    assert!(peios_sid_equal(Some(&sid), sid.len(), Some(&same), same.len()));
    assert!(!peios_sid_equal(Some(&sid), sid.len(), Some(&other), other.len()));
}

#[test]
fn probe_erange_and_bad_args() {
    // Probing returns the needed size.
    let need = peios_sid_well_known(9).unwrap().len();
    assert_eq!(need, 12);
    assert_eq!(emit(need, 0, true), Ok(Emit::Probe));
    // A buffer that is there but too small.
    assert_eq!(emit(need, 4, false), Err(Errno::Range));
    // A capacity without a buffer.
    assert_eq!(emit(need, 8, true), Err(Errno::Inval));
    assert_eq!(emit(need, 12, false), Ok(Emit::Write));
    // Too many sub-authorities.
    assert_eq!(peios_sid_build(5, None, 16), Err(Errno::Inval));
    // An unknown selector.
    assert_eq!(peios_sid_well_known(99), Err(Errno::Inval));
}

// ---- Lists under construction ----

fn finish_acl(b: &mut peios_acl_builder) -> Vec<u8> {
    match peios_acl_builder_finish(b, 0, true) {
        Ok((how, bytes)) => {
            assert_eq!(how, Emit::Probe);
            bytes.to_vec()
        }
        Err(e) => panic!("finish: {:?}", e),
    }
}

fn view(acl: &[u8]) -> peios_acl_view<'_> {
    match peios_acl_parse(Some(acl)) {
        Ok(v) => v,
        Err(e) => panic!("parse: {:?}", e),
    }
}

#[test]
fn allow_deny_roundtrip() {
    let mut b = peios_acl_builder_new();
    let admins = build(5, &[32, 544]);
    let users = build(5, &[11]);
    // Deny first (canonical order), then allow.
    peios_acl_builder_deny(&mut b, Some(&users), 0x10000, 0);
    peios_acl_builder_allow(&mut b, Some(&admins), 0x1F01FF, 0);
    assert_eq!(peios_acl_builder_error(&b), None);

    let acl = finish_acl(&mut b);
    assert_eq!(acl[0], 2); // basic entries
    let av = view(&acl);
    assert_eq!(peios_acl_view_count(&av), 2);

    let Ok(ev) = peios_acl_view_ace(&av, 0) else { panic!("no entry") };
    assert_eq!(peios_ace_view_type(&ev), 0x01);
    assert_eq!(peios_ace_view_mask(&ev), 0x10000);
    assert_eq!(peios_ace_view_sid(&ev), Some(&users[..]));

    let Ok(ev) = peios_acl_view_ace(&av, 1) else { panic!("no entry") };
    assert_eq!(peios_ace_view_type(&ev), 0x00);
    assert_eq!(peios_ace_view_mask(&ev), 0x1F01FF);
}

#[test]
fn object_ace_raises_revision() {
    let mut b = peios_acl_builder_new();
    let admins = build(5, &[32, 544]);
    let guid = [0xABu8; 16];
    let spec = peios_ace_spec {
        type_: 0x05,
        flags: 0,
        mask: 0x1,
        sid: Some(&admins),
        object_type: Some(&guid),
        inherited_object_type: None,
        app_data: None,
    };
    peios_acl_builder_add(&mut b, Some(&spec));
    assert_eq!(peios_acl_builder_error(&b), None);
    let acl = finish_acl(&mut b);
    assert_eq!(acl[0], 0x04); // the larger revision for object entries
    let av = view(&acl);
    let Ok(ev) = peios_acl_view_ace(&av, 0) else { panic!("no entry") };
    assert_eq!(peios_ace_view_object_type(&ev), Some(&guid[..]));
    assert_eq!(peios_ace_view_inherited_object_type(&ev), None);
    assert_eq!(peios_ace_view_sid(&ev), Some(&admins[..]));
}

#[test]
fn callback_data_is_read_back() {
    let admins = build(5, &[32, 544]);
    let mut spec = peios_ace_spec {
        type_: 0x09,
        flags: 0,
        mask: 0x1,
        sid: Some(&admins),
        object_type: None,
        inherited_object_type: None,
        app_data: Some(&[1, 2, 3, 4, 5, 6, 7, 8]),
    };
    let mut b = peios_acl_builder_new();
    peios_acl_builder_add(&mut b, Some(&spec));
    let acl = finish_acl(&mut b);
    let av = view(&acl);
    let Ok(ev) = peios_acl_view_ace(&av, 0) else { panic!("no entry") };
    assert_eq!(peios_ace_view_app_data(&ev), Some(&[1, 2, 3, 4, 5, 6, 7, 8][..]));

    // An entry is a whole number of words.
    spec.app_data = Some(&[1, 2, 3, 4, 5]);
    let mut b = peios_acl_builder_new();
    peios_acl_builder_add(&mut b, Some(&spec));
    assert_eq!(peios_acl_builder_error(&b), Some(Errno::Inval));
}

#[test]
fn label_ace() {
    let mut b = peios_acl_builder_new();
    peios_acl_builder_label(&mut b, 8192, 0x1); // medium integrity, no write-up
    let acl = finish_acl(&mut b);
    let av = view(&acl);
    let Ok(ev) = peios_acl_view_ace(&av, 0) else { panic!("no entry") };
    assert_eq!(peios_ace_view_type(&ev), 0x11);
    assert_eq!(peios_ace_view_mask(&ev), 0x1);
    assert_eq!(peios_ace_view_sid(&ev), Some(&integrity_sid(8192)[..]));
}

#[test]
fn audit_ace_keeps_its_flags() {
    let mut b = peios_acl_builder_new();
    peios_acl_builder_audit(&mut b, Some(&build(1, &[0])), 0x2, 0xc0);
    let acl = finish_acl(&mut b);
    let av = view(&acl);
    let Ok(ev) = peios_acl_view_ace(&av, 0) else { panic!("no entry") };
    assert_eq!(peios_ace_view_type(&ev), 0x02);
    assert_eq!(peios_ace_view_flags(&ev), 0xc0);
}

#[test]
fn empty_acl_is_valid() {
    let mut b = peios_acl_builder_new();
    let acl = finish_acl(&mut b);
    assert_eq!(acl.len(), 8);
    assert_eq!(peios_acl_view_count(&view(&acl)), 0);
}

#[test]
fn sticky_error_latches() {
    let mut b = peios_acl_builder_new();
    let admins = build(5, &[32, 544]);
    // No SID: latched.
    peios_acl_builder_allow(&mut b, None, 0x1, 0);
    assert_eq!(peios_acl_builder_error(&b), Some(Errno::Inval));
    // Further entries change nothing.
    peios_acl_builder_allow(&mut b, Some(&admins), 0x1, 0);
    assert_eq!(peios_acl_builder_error(&b), Some(Errno::Inval));
    assert!(peios_acl_builder_bytes(&mut b).is_err());
    assert!(matches!(peios_acl_builder_finish(&mut b, 0, true), Err(Errno::Inval)));
    // A reset makes the builder usable again.
    peios_acl_builder_reset(&mut b);
    assert_eq!(peios_acl_builder_error(&b), None);
    peios_acl_builder_add(&mut b, None);
    assert_eq!(peios_acl_builder_error(&b), Some(Errno::Inval));
}

#[test]
fn reserved_mask_bits_rejected() {
    let mut b = peios_acl_builder_new();
    let admins = build(5, &[32, 544]);
    peios_acl_builder_allow(&mut b, Some(&admins), 0x0400_0000, 0);
    assert_eq!(peios_acl_builder_error(&b), Some(Errno::Inval));
}

#[test]
fn finish_erange() {
    let mut b = peios_acl_builder_new();
    let admins = build(5, &[32, 544]);
    peios_acl_builder_allow(&mut b, Some(&admins), 0x1, 0);
    let need = finish_acl(&mut b).len();
    assert!(matches!(peios_acl_builder_finish(&mut b, need - 1, false), Err(Errno::Range)));
    assert!(matches!(peios_acl_builder_finish(&mut b, need, false), Ok((Emit::Write, _))));
}

// ---- Descriptors under construction ----

fn finish_sd(b: &mut peios_sd_builder) -> Vec<u8> {
    match peios_sd_builder_finish(b, 0, true) {
        Ok((_, bytes)) => bytes.to_vec(),
        Err(e) => panic!("finish: {:?}", e),
    }
}

fn dacl_for(trustee: &[u8]) -> Vec<u8> {
    let mut b = peios_acl_builder_new();
    peios_acl_builder_allow(&mut b, Some(trustee), 0x1F01FF, 0);
    finish_acl(&mut b)
}

#[test]
fn full_sd_roundtrip() {
    let owner = build(5, &[18]);
    let group = build(5, &[11]);
    let trustee = build(5, &[32, 544]);
    let dacl = dacl_for(&trustee);

    let mut b = peios_sd_builder_new();
    peios_sd_builder_owner(&mut b, Some(&owner));
    peios_sd_builder_group(&mut b, Some(&group));
    peios_sd_builder_dacl(&mut b, Some(&dacl));
    peios_sd_builder_control(&mut b, 0x1000, 0); // protected
    assert_eq!(peios_sd_builder_error(&b), None);

    let sd = finish_sd(&mut b);
    let Ok(v) = peios_sd_parse(Some(&sd)) else { panic!("parse") };
    let control = peios_sd_view_control(&v);
    assert_eq!(control & SELF_RELATIVE, SELF_RELATIVE);
    assert_eq!(control & DACL_PRESENT, DACL_PRESENT);
    assert_eq!(control & 0x1000, 0x1000);

    assert_eq!(peios_sd_view_owner(&v), Some(&owner[..]));
    assert_eq!(peios_sd_view_group(&v), Some(&group[..]));
    assert!(peios_sd_view_dacl(&v).is_some());
}

#[test]
fn sacl_is_taken_over() {
    let mut list = peios_acl_builder_new();
    peios_acl_builder_label(&mut list, 12288, 0x1);
    let sacl = finish_acl(&mut list);
    let mut b = peios_sd_builder_new();
    peios_sd_builder_sacl(&mut b, Some(&sacl));
    let sd = finish_sd(&mut b);
    let Ok(v) = peios_sd_parse(Some(&sd)) else { panic!("parse") };
    let Some(av) = peios_sd_view_sacl(&v) else { panic!("no list") };
    assert_eq!(peios_acl_view_count(&av), 1);
    assert!(peios_sd_view_dacl(&v).is_none());
}

#[test]
fn dacl_null_is_grant_all_absent() {
    let mut b = peios_sd_builder_new();
    peios_sd_builder_dacl_null(&mut b);
    let sd = finish_sd(&mut b);
    let Ok(v) = peios_sd_parse(Some(&sd)) else { panic!("parse") };
    assert_eq!(peios_sd_view_control(&v) & DACL_PRESENT, 0);
    assert!(peios_sd_view_dacl(&v).is_none());
}

#[test]
fn dacl_null_clears_a_prior_dacl() {
    let mut b = peios_sd_builder_new();
    let dacl = dacl_for(&build(5, &[32, 544]));
    peios_sd_builder_dacl(&mut b, Some(&dacl));
    peios_sd_builder_dacl_null(&mut b); // the last call counts
    let sd = finish_sd(&mut b);
    let Ok(v) = peios_sd_parse(Some(&sd)) else { panic!("parse") };
    assert_eq!(peios_sd_view_control(&v) & DACL_PRESENT, 0);
}

#[test]
fn empty_sd_is_valid() {
    let mut b = peios_sd_builder_new();
    let sd = finish_sd(&mut b);
    assert_eq!(sd.len(), 20);
    let Ok(v) = peios_sd_parse(Some(&sd)) else { panic!("parse") };
    assert_eq!(peios_sd_view_control(&v) & DACL_PRESENT, 0);
}

#[test]
fn invalid_owner_latches() {
    let mut b = peios_sd_builder_new();
    let bad = [1u8, 2, 3]; // too short to be a SID
    peios_sd_builder_owner(&mut b, Some(&bad));
    assert_eq!(peios_sd_builder_error(&b), Some(Errno::Inval));
    assert!(peios_sd_builder_bytes(&mut b).is_err());
    peios_sd_builder_reset(&mut b);
    assert_eq!(peios_sd_builder_error(&b), None);
}

#[test]
fn malformed_dacl_latches() {
    let mut b = peios_sd_builder_new();
    let bad_acl = [2u8, 0, 0, 0]; // truncated header
    peios_sd_builder_dacl(&mut b, Some(&bad_acl));
    assert_eq!(peios_sd_builder_error(&b), Some(Errno::Inval));
}

// ---- Views ----

fn allow_ace(trustee: &[u8], mask: u32) -> Vec<u8> {
    let mut v = vec![0u8, 0];
    v.extend_from_slice(&((8 + trustee.len()) as u16).to_le_bytes());
    v.extend_from_slice(&mask.to_le_bytes());
    v.extend_from_slice(trustee);
    v
}

fn acl(aces: &[Vec<u8>]) -> Vec<u8> {
    let body: usize = aces.iter().map(Vec::len).sum();
    let mut v = vec![2u8, 0];
    v.extend_from_slice(&((8 + body) as u16).to_le_bytes());
    v.extend_from_slice(&(aces.len() as u16).to_le_bytes());
    v.extend_from_slice(&[0, 0]);
    for a in aces {
        v.extend_from_slice(a);
    }
    v
}

fn sd(owner: Option<&[u8]>, group: Option<&[u8]>, dacl: Option<&[u8]>, control: u16) -> Vec<u8> {
    let mut body: Vec<u8> = Vec::new();
    let mut offsets = [0u32; 3];
    for (i, part) in [owner, group, dacl].iter().enumerate() {
        if let Some(c) = part {
            offsets[i] = 20 + body.len() as u32;
            body.extend_from_slice(c);
        }
    }
    let mut v = vec![1u8, 0];
    v.extend_from_slice(&(control | 0x8000).to_le_bytes());
    v.extend_from_slice(&offsets[0].to_le_bytes());
    v.extend_from_slice(&offsets[1].to_le_bytes());
    v.extend_from_slice(&0u32.to_le_bytes());
    v.extend_from_slice(&offsets[2].to_le_bytes());
    v.extend_from_slice(&body);
    v
}

#[test]
fn sd_views_roundtrip() {
    let owner = build(5, &[18]);
    let group = build(5, &[11]);
    let trustee = build(5, &[32, 544]);
    let dacl = acl(&[allow_ace(&trustee, 0x1F01FF)]);
    let buf = sd(Some(&owner), Some(&group), Some(&dacl), 0x0004);

    let Ok(v) = peios_sd_parse(Some(&buf)) else { panic!("parse") };
    assert_eq!(peios_sd_view_control(&v) & 0x8000, 0x8000);
    assert_eq!(peios_sd_view_owner(&v), Some(&owner[..]));
    assert_eq!(peios_sd_view_group(&v), Some(&group[..]));

    let Some(av) = peios_sd_view_dacl(&v) else { panic!("no list") };
    assert_eq!(peios_acl_view_count(&av), 1);
    assert!(peios_sd_view_sacl(&v).is_none());

    let Ok(ev) = peios_acl_view_ace(&av, 0) else { panic!("no entry") };
    assert_eq!(peios_ace_view_type(&ev), 0);
    assert_eq!(peios_ace_view_flags(&ev), 0);
    assert_eq!(peios_ace_view_mask(&ev), 0x1F01FF);
    assert_eq!(peios_ace_view_sid(&ev), Some(&trustee[..]));

    // A plain entry has no GUID and no data.
    assert!(peios_ace_view_object_type(&ev).is_none());
    assert!(peios_ace_view_app_data(&ev).is_none());

    assert!(matches!(peios_acl_view_ace(&av, 1), Err(Errno::Range)));
}

#[test]
fn absent_components() {
    let owner = build(5, &[18]);
    let buf = sd(Some(&owner), None, None, 0);
    let Ok(v) = peios_sd_parse(Some(&buf)) else { panic!("parse") };
    assert!(peios_sd_view_owner(&v).is_some());
    assert!(peios_sd_view_group(&v).is_none());
    assert!(peios_sd_view_dacl(&v).is_none());
}

#[test]
fn bare_acl_parse_and_malformed() {
    let trustee = build(5, &[11]);
    let bytes = acl(&[allow_ace(&trustee, 0x120089)]);
    assert_eq!(peios_acl_view_count(&view(&bytes)), 1);
    // Truncated header.
    assert!(matches!(peios_acl_parse(Some(&bytes[..4])), Err(Errno::Inval)));
    assert!(matches!(peios_acl_parse(None), Err(Errno::Inval)));
}

#[test]
fn malformed_sd_rejected() {
    // An entry that runs past the end of its list.
    let bad_ace = {
        let mut a = vec![0u8, 0];
        a.extend_from_slice(&64u16.to_le_bytes()); // size 64, but the body is short
        a.extend_from_slice(&0u32.to_le_bytes());
        a.extend_from_slice(&build(5, &[18]));
        a
    };
    let dacl = acl(&[bad_ace]);
    let buf = sd(None, None, Some(&dacl), 0x0004);
    assert!(matches!(peios_sd_parse(Some(&buf)), Err(Errno::Inval)));
    assert!(matches!(peios_sd_parse(None), Err(Errno::Inval)));
}

fn sid_array(entries: &[(&[u8], u32)]) -> Vec<u8> {
    let mut blob = Vec::new();
    blob.extend_from_slice(&(entries.len() as u32).to_le_bytes());
    for (s, attrs) in entries {
        blob.extend_from_slice(&(s.len() as u32).to_le_bytes());
        blob.extend_from_slice(s);
        blob.extend_from_slice(&attrs.to_le_bytes());
    }
    blob
}

#[test]
fn sid_array_roundtrip() {
    let s1 = build(5, &[18]);
    let s2 = build(5, &[32, 544]);
    let blob = sid_array(&[(&s1, 0x7), (&s2, 0xC000_0000)]);

    let Ok(v) = peios_sid_array_parse(Some(&blob)) else { panic!("parse") };
    assert_eq!(peios_sid_array_count(&v), 2);
    assert_eq!(peios_sid_array_get(&v, 0), Ok((&s1[..], 0x7)));
    assert_eq!(peios_sid_array_get(&v, 1), Ok((&s2[..], 0xC000_0000)));
    assert_eq!(peios_sid_array_get(&v, 2), Err(Errno::Range));
}

#[test]
fn sid_array_empty_and_malformed() {
    let empty = sid_array(&[]);
    let Ok(v) = peios_sid_array_parse(Some(&empty)) else { panic!("parse") };
    assert_eq!(peios_sid_array_count(&v), 0);
    // One entry whose SID runs past the end.
    let bad = {
        let mut b = 1u32.to_le_bytes().to_vec();
        b.extend_from_slice(&12u32.to_le_bytes());
        b
    };
    assert!(matches!(peios_sid_array_parse(Some(&bad)), Err(Errno::Inval)));
    // Bytes behind the announced entries.
    let mut slop = sid_array(&[(&build(5, &[11]), 0)]);
    slop.push(0xAB);
    assert!(peios_sid_array_parse(Some(&slop)).is_err());
}

// ---- Generic rights ----

#[test]
fn maps_and_clears_generic_bits() {
    let m = kacs_generic_mapping { read: 0x0012_0089, write: 0x0012_0116, execute: 0x0012_00A0, all: 0x001F_01FF };
    assert_eq!(peios_access_map_generic(0x8000_0000, Some(&m)), 0x0012_0089);
    assert_eq!(peios_access_map_generic(0x1000_0000, Some(&m)), 0x001F_01FF);
    // Other bits pass; the generic one is cleared.
    let mixed = peios_access_map_generic(0x4000_0000 | 0x40, Some(&m));
    assert_eq!(mixed, 0x0012_0116 | 0x40);
    assert_eq!(mixed & GENERIC_BITS, 0);
    // Without a mapping the mask stays.
    assert_eq!(peios_access_map_generic(0x5, None), 0x5);
}

#[test]
fn file_generic_mapping_matches_kernel() {
    assert_eq!(peios_file_generic_mapping().read, 0x0012_0089);
    assert_eq!(peios_file_generic_mapping().write, 0x0012_0116);
    assert_eq!(peios_file_generic_mapping().execute, 0x0012_00A0);
    assert_eq!(peios_file_generic_mapping().all, 0x001F_01FF);
}

#[test]
fn token_mapping_leaves_no_generic_bit() {
    let m = peios_token_generic_mapping();
    assert_eq!((m.read | m.write | m.execute | m.all) & GENERIC_BITS, 0);
}

// ---- Text through the entry points ----

#[test]
fn sddl_sd_round_trips_through_the_abi() {
    let sddl = b"O:SYG:BAD:(A;;FA;;;BA)(A;;FR;;;BU)";
    let bytes = peios_sddl_parse_sd(Some(sddl)).unwrap();
    assert!(!bytes.is_empty());
    let back = peios_sddl_format_sd(Some(&bytes)).unwrap();
    assert!(back.starts_with(b"O:SYG:BA"));
    // Reading the text again yields identical bytes.
    assert_eq!(peios_sddl_parse_sd(Some(&back)).unwrap(), bytes);
}

#[test]
fn writing_what_was_read_is_a_fixed_point() {
    let texts: [&[u8]; 6] = [
        b"O:S-1-5-18G:baD:PAI(A;OICI;0x1200a9;;;S-1-1-0)(D;;GWFA;;;sy)",
        b"D:",
        b"S:(ML;;NWNR;;;S-1-16-8192)D:AR(OA;;RP;4C164200-20c0-11d0-a768-00aa006e0529;;WD)",
        b"D:(XA;;FA;;;WD;(  title==\"VP\" &&(@User.clearance>= 3 || !Exists @Device.Managed) ))",
        b"S:(RA;;;;;WD;(\"Proj\",TS,0x10,\"a,b\",\"\xc3\xa9\"))",
        b"D:(XD;;GX;;;BU;(Member_of {SID(BA), SID(S-1-5-21-1-2-3)}))",
    ];
    for text in texts {
        let bytes = peios_sddl_parse_sd(Some(text)).unwrap();
        let back = peios_sddl_format_sd(Some(&bytes)).unwrap();
        assert!(String::from_utf8(back.clone()).is_ok());
        assert_eq!(peios_sddl_parse_sd(Some(&back)).unwrap(), bytes);
        assert_eq!(peios_sddl_format_sd(Some(&bytes)).unwrap(), back);
    }
}

#[test]
fn condition_round_trips_through_the_abi() {
    let expr = b"@User.Title == \"PM\"";
    let artx = peios_sddl_parse_condition(Some(expr)).unwrap();
    assert!(artx.starts_with(b"artx"));
    let back = String::from_utf8(peios_sddl_format_condition(Some(&artx)).unwrap()).unwrap();
    assert!(back.contains("Title"), "got {:?}", back);
    assert_eq!(back.as_bytes(), expr);
}

#[test]
fn reinherit_and_strip_accept_a_valid_sd() {
    let bytes = peios_sddl_parse_sd(Some(b"O:SYG:BAD:(A;;FA;;;BA)")).unwrap();
    let reinherited = peios_sd_reinherit(Some(&bytes), Some(&bytes), 1).unwrap();
    assert!(!reinherited.is_empty());
    let stripped = peios_sd_strip_inherited(Some(&bytes), DACL_SECURITY_INFORMATION).unwrap();
    assert!(!stripped.is_empty());
}

#[test]
fn malformed_input_is_einval_and_small_buffer_is_erange() {
    assert_eq!(peios_sddl_parse_sd(Some(b"definitely not sddl")), Err(Errno::Inval));
    let bytes = peios_sddl_parse_sd(Some(b"O:SYG:BAD:(A;;FA;;;BA)")).unwrap();
    let need = peios_sddl_format_sd(Some(&bytes)).unwrap().len();
    assert!(need > 1);
    assert_eq!(emit(need + 1, 1, false), Err(Errno::Range));
}

#[test]
fn entry_points_refuse_what_is_not_there() {
    assert_eq!(peios_sddl_parse_sd(None), Err(Errno::Inval));
    assert_eq!(peios_sddl_parse_sd(Some(&[b'O', b':', 0xff])), Err(Errno::Inval));
    assert_eq!(peios_sddl_parse_sd(Some(&vec![b'x'; MAX_SDDL_TEXT])), Err(Errno::Inval));
    assert_eq!(peios_sddl_format_sd(None), Err(Errno::Inval));
    assert_eq!(peios_sddl_format_sd(Some(&[1, 0])), Err(Errno::Inval));
    assert_eq!(peios_sddl_parse_condition(None), Err(Errno::Inval));
    assert_eq!(peios_sddl_parse_condition(Some(b"==")), Err(Errno::Inval));
    assert_eq!(peios_sddl_format_condition(None), Err(Errno::Inval));
    assert_eq!(peios_sddl_format_condition(Some(b"artx")), Err(Errno::Inval));
    let bytes = peios_sddl_parse_sd(Some(b"O:SY")).unwrap();
    assert_eq!(peios_sd_reinherit(None, Some(&bytes), 0), Err(Errno::Inval));
    assert_eq!(peios_sd_reinherit(Some(&bytes), Some(&[0]), 0), Err(Errno::Inval));
    assert_eq!(peios_sd_strip_inherited(None, 4), Err(Errno::Inval));
}
