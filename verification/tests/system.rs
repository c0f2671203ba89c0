// Access checks, files, and events.

use peios::access::{
    access_verdict, build_args, check_args, check_outputs, list_args, peios_access_request, validate_request,
    OutputPlaces, Verdict, ACCESS_CHECK_ARGS_BYTES,
};
use peios::error::{errno_for, Errno, KacsFailure};
use peios::event::consume::{
    event_window, parse_event, peios_event_reader, peios_event_reader_lost, peios_event_ring, ring_map_len,
    ring_page_valid, timeout_parts, wait_code, wait_outcome, EventFields, Next, Ring, Wait,
};
use peios::event::emit::{batch_request, entries_to_emit, marshal_entries, peios_event_entry};
use peios::file::{
    build_open_how, emit_len, get_sd_request, kacs_mount_policy_args, mount_get_args, mount_policy_answer,
    mount_set_args, open_request, peios_mount_policy, peios_open_params, set_sd_request,
};
use peios::security::mapping::kacs_generic_mapping;

// ---- Access checks ----

const SD: u64 = 0x1000;
const TREE: u64 = 0x2000;

fn request(sd_len: usize, tree_count: u32) -> peios_access_request {
    peios_access_request {
        token_fd: -1,
        sd: SD,
        sd_len,
        desired: 0x120089,
        mapping: kacs_generic_mapping { read: 0x1001, write: 0x1002, execute: 0x1004, all: 0x1007 },
        self_sid: 0,
        self_sid_len: 0,
        privilege_intent: 0,
        object_tree: TREE,
        object_tree_count: tree_count,
        local_claims: 0,
        local_claims_len: 0,
        pip_type: 0,
        pip_trust: 0,
        audit_context: 0,
        audit_context_len: 0,
    }
}

fn word(b: &[u8], at: usize) -> u32 {
    u32::from_le_bytes(b[at..at + 4].try_into().unwrap())
}

#[test]
fn args_size_is_136() {
    assert_eq!(ACCESS_CHECK_ARGS_BYTES, 136);
    assert_eq!(build_args(&request(20, 2)).unwrap().encode().len(), 136);
}

#[test]
fn build_args_packs_fields_and_flattens_mapping() {
    let a = build_args(&request(20, 2)).unwrap();
    assert_eq!(a.caller_size, 136);
    assert_eq!(a.token_fd, -1);
    assert_eq!(a.sd_ptr, SD);
    assert_eq!(a.sd_len, 20);
    assert_eq!(a.desired_access, 0x120089);
    assert_eq!(a.mapping_read, 0x1001);
    assert_eq!(a.mapping_write, 0x1002);
    assert_eq!(a.mapping_execute, 0x1004);
    assert_eq!(a.mapping_all, 0x1007);
    assert_eq!(a.object_tree_ptr, TREE);
    assert_eq!(a.object_tree_count, 2);
    assert_eq!(a.granted_out_ptr, 0);
    assert_eq!(a.continuous_audit_out_ptr, 0);
    assert_eq!(a.staging_mismatch_out_ptr, 0);
    // The reserved words.
    let b = a.encode();
    assert_eq!(word(&b, 68), 0);
    assert_eq!(word(&b, 84), 0);
    assert_eq!(word(&b, 116), 0);
    assert_eq!(word(&b, 0), 136);
    assert_eq!(word(&b, 4), 0xffff_ffff);
    assert_eq!(word(&b, 64), 2);
}

#[test]
fn build_args_unset_adv_fields_are_zero() {
    let a = build_args(&request(4, 0)).unwrap();
    assert_eq!(a.self_sid_ptr, 0);
    assert_eq!(a.self_sid_len, 0);
    assert_eq!(a.local_claims_ptr, 0);
    assert_eq!(a.local_claims_len, 0);
    assert_eq!(a.audit_context_ptr, 0);
    assert_eq!(a.pip_type, 0);
    assert_eq!(a.pip_trust, 0);
    assert_eq!(a.object_tree_count, 0);
}

#[test]
fn build_args_rejects_oversized_length() {
    let mut req = request(4, 0);
    req.sd_len = (u32::MAX as usize) + 1;
    assert!(matches!(build_args(&req), Err(Errno::Inval)));
}

#[test]
fn access_check_rejects_null_optional_pointer_with_length() {
    let mut req = request(4, 0);
    req.self_sid = 0;
    req.self_sid_len = 1;
    let out = OutputPlaces { granted: 0, continuous_audit: 0, staging_mismatch: 0 };
    assert_eq!(check_args(Some(&req), out, false), Err(Errno::Inval));
}

#[test]
fn access_check_rejects_null_object_tree_with_count() {
    let mut req = request(4, 0);
    req.object_tree = 0;
    req.object_tree_count = 1;
    let out = OutputPlaces { granted: 0, continuous_audit: 0, staging_mismatch: 0 };
    assert_eq!(check_args(Some(&req), out, false), Err(Errno::Inval));
}

#[test]
fn check_arguments_name_the_places_of_the_results() {
    let out = OutputPlaces { granted: 1, continuous_audit: 2, staging_mismatch: 3 };
    let a = check_args(Some(&request(20, 2)), out, true).unwrap();
    assert_eq!((a.granted_out_ptr, a.continuous_audit_out_ptr, a.staging_mismatch_out_ptr), (1, 2, 3));
    let a = check_args(Some(&request(20, 2)), out, false).unwrap();
    assert_eq!((a.granted_out_ptr, a.continuous_audit_out_ptr, a.staging_mismatch_out_ptr), (1, 0, 0));
    assert_eq!(check_args(None, out, false), Err(Errno::Inval));
}

#[test]
fn list_checks_count_the_tree() {
    let req = request(20, 2);
    assert!(list_args(Some(&req), false, 2).is_ok());
    assert_eq!(list_args(Some(&req), false, 3), Err(Errno::Inval));
    assert_eq!(list_args(Some(&req), true, 2), Err(Errno::Inval));
    assert_eq!(list_args(Some(&request(20, 0)), false, 0), Err(Errno::Inval));
    assert_eq!(validate_request(&request(0, 2), false), Err(Errno::Inval));
    assert_eq!(validate_request(&request(4, 0), false), Ok(()));
}

#[test]
fn a_denial_is_an_outcome() {
    assert_eq!(access_verdict(0, Errno::Inval), Verdict::Granted);
    assert_eq!(access_verdict(-1, Errno::Acces), Verdict::Denied);
    assert_eq!(access_verdict(-1, Errno::Inval), Verdict::Failed(Errno::Inval));
    let (granted, audit) = check_outputs(Verdict::Denied, 0x20, 1, 1).unwrap();
    assert_eq!((granted, audit.continuous_audit, audit.staging_mismatch), (0x20, 1, 1));
    assert!(check_outputs(Verdict::Failed(Errno::Inval), 0x20, 1, 1).is_none());
}

// ---- Files ----

fn open_params(sd: u64, sd_len: usize) -> peios_open_params {
    peios_open_params { desired_access: 0x0012_0089, disposition: 2, options: 1, flags: 0x100, sd, sd_len }
}

fn mount_policy(template_sd: u64, template_sd_len: usize) -> peios_mount_policy {
    peios_mount_policy { policy: 0, flags: 0, generation: 0, template_sd, template_sd_len }
}

#[test]
fn file_struct_sizes_pinned() {
    assert_eq!(build_open_how(&open_params(SD, 24)).unwrap().encode().len(), 32);
    assert_eq!(mount_set_args(Some(&mount_policy(0, 0))).unwrap().encode().len(), 32);
}

#[test]
fn build_open_how_packs_fields() {
    let how = build_open_how(&open_params(SD, 24)).unwrap();
    assert_eq!(how.desired_access, 0x0012_0089);
    assert_eq!(how.create_disposition, 2);
    assert_eq!(how.create_options, 1);
    assert_eq!(how.flags, 0x100);
    assert_eq!(how.sd_ptr, SD);
    assert_eq!(how.sd_len, 24);
    assert_eq!(word(&how.encode(), 28), 0);
    assert_eq!(word(&how.encode(), 24), 24);
}

#[test]
fn build_open_how_no_sd_is_zeroed() {
    let how =
        build_open_how(&peios_open_params { desired_access: 1, disposition: 1, options: 0, flags: 0, sd: 0, sd_len: 0 })
            .unwrap();
    assert_eq!(how.sd_ptr, 0);
    assert_eq!(how.sd_len, 0);
}

#[test]
fn build_open_how_null_sd_with_length_is_einval() {
    let p = peios_open_params { desired_access: 1, disposition: 1, options: 0, flags: 0, sd: 0, sd_len: 16 };
    assert!(matches!(build_open_how(&p), Err(Errno::Inval)));
    assert!(matches!(open_request(false, Some(&p)), Err(Errno::Inval)));
    assert!(matches!(open_request(true, Some(&open_params(SD, 24))), Err(Errno::Inval)));
    assert!(open_request(false, Some(&open_params(SD, 24))).is_ok());
}

#[test]
fn mount_get_rejects_null_template_buffer_with_capacity() {
    assert_eq!(mount_get_args(false, 0, 1), Err(Errno::Inval));
    assert_eq!(mount_get_args(true, SD, 1), Err(Errno::Inval));
}

#[test]
fn mount_set_rejects_null_template_with_length() {
    assert_eq!(mount_set_args(Some(&mount_policy(0, 1))), Err(Errno::Inval));
    assert_eq!(mount_set_args(None), Err(Errno::Inval));
}

#[test]
fn mount_policy_comes_back() {
    let mut args = mount_get_args(false, SD, 64).unwrap();
    args.policy = 2;
    args.template_sd_len = 40;
    let args = kacs_mount_policy_args::decode(&args.encode()).unwrap();
    let p = mount_policy_answer(&args, SD, 64);
    assert_eq!((p.policy, p.template_sd, p.template_sd_len), (2, SD, 40));
    // A template that does not fit is only measured.
    let p = mount_policy_answer(&args, SD, 16);
    assert_eq!((p.template_sd, p.template_sd_len), (0, 40));
    assert!(kacs_mount_policy_args::decode(&[0; 31]).is_none());
}

#[test]
fn emit_len_probe_returns_size() {
    assert_eq!(emit_len(40, 0), Ok(40));
}

#[test]
fn emit_len_fits_returns_size() {
    assert_eq!(emit_len(40, 64), Ok(40));
    assert_eq!(emit_len(40, 40), Ok(40));
}

#[test]
fn emit_len_too_small_is_erange() {
    assert_eq!(emit_len(40, 16), Err(Errno::Range));
}

#[test]
fn descriptor_requests_are_checked() {
    assert_eq!(get_sd_request(true, false, 8), Err(Errno::Inval));
    assert_eq!(get_sd_request(false, true, 8), Err(Errno::Inval));
    assert_eq!(get_sd_request(false, true, 0), Ok(0));
    assert_eq!(set_sd_request(false, false, 0), Err(Errno::Inval));
    assert_eq!(set_sd_request(false, false, 20), Ok(20));
}

// ---- Emitted events ----

#[test]
fn struct_sizes_match_abi() {
    assert_eq!(core::mem::size_of::<peios::event::emit::kmes_emit_entry>(), 32);
}

#[test]
fn marshal_copies_fields_and_zeroes_padding() {
    let et = b"my.event";
    let pl = [0x81u8, 0xa1, b'a', 0x01];
    let entries = [peios_event_entry {
        event_type: 0x1000,
        event_type_len: et.len() as u16,
        payload: 0x2000,
        payload_len: pl.len() as u32,
    }];
    let out = marshal_entries(&entries);
    assert_eq!(out.len(), 1);
    assert_eq!(out[0].event_type, 0x1000);
    assert_eq!(out[0].event_type_len, 8);
    assert_eq!(out[0].payload, 0x2000);
    assert_eq!(out[0].payload_len, 4);
    assert_eq!(out[0].pad0, [0u8; 6]);
    assert_eq!(out[0].pad1, [0u8; 4]);

    assert_eq!(batch_request(Some(&entries), 1, 8).map(|v| v.len()), Ok(1));
    assert!(matches!(batch_request(Some(&entries), 1, 0), Err(Errno::Inval)));
    assert!(matches!(batch_request(None, 1, 8), Err(Errno::Inval)));
    assert!(matches!(batch_request(Some(&[]), 0, 8), Err(Errno::Inval)));
    // Of a batch that is too long nothing is looked at.
    assert_eq!((entries_to_emit(8, 8), entries_to_emit(9, 8)), (8, 0));
    assert!(matches!(batch_request(Some(&[]), 9, 8), Err(Errno::Inval)));
}

#[test]
fn marshal_empty_is_empty() {
    assert!(marshal_entries(&[]).is_empty());
}

// ---- Received events ----

fn event(seq: u64, ts: u64, cpu: u16, origin: u8, etype: &[u8], payload: &[u8]) -> Vec<u8> {
    let header_size = 77 + etype.len();
    let event_size = header_size + payload.len();
    let mut e = Vec::new();
    e.extend_from_slice(&(event_size as u32).to_le_bytes());
    e.extend_from_slice(&(header_size as u32).to_le_bytes());
    e.extend_from_slice(&ts.to_le_bytes());
    e.extend_from_slice(&seq.to_le_bytes());
    e.extend_from_slice(&cpu.to_le_bytes());
    e.push(origin);
    e.extend_from_slice(&[0xA1; 16]);
    e.extend_from_slice(&[0xB2; 16]);
    e.extend_from_slice(&[0xC3; 16]);
    e.extend_from_slice(&(etype.len() as u16).to_le_bytes());
    e.extend_from_slice(etype);
    e.extend_from_slice(payload);
    assert_eq!(e.len(), event_size);
    e
}

#[test]
fn parse_valid_event() {
    let et = b"net.connect";
    let pl = [0x81u8, 0xa1, b'a', 0x01];
    let bytes = event(7, 123_456, 2, 0, et, &pl);
    let f = parse_event(&bytes, 1 << 20).unwrap();
    assert_eq!(f.event_size as usize, bytes.len());
    assert_eq!(f.timestamp, 123_456);
    assert_eq!(f.sequence, 7);
    assert_eq!(f.cpu_id, 2);
    assert_eq!(f.origin_class, 0);
    assert_eq!(f.eff_guid, [0xA1; 16]);
    assert_eq!(f.true_guid, [0xB2; 16]);
    assert_eq!(f.proc_guid, [0xC3; 16]);
    assert_eq!(f.type_off, 77);
    assert_eq!(f.type_len, et.len());
    assert_eq!(&bytes[f.type_off..f.type_off + f.type_len], et);
    assert_eq!(f.payload_len, pl.len());
    assert_eq!(&bytes[f.payload_off..f.payload_off + f.payload_len], &pl);
}

#[test]
fn parse_zero_payload_event() {
    let bytes = event(1, 1, 0, 1, b"kmes.up", &[]);
    let f = parse_event(&bytes, 1 << 20).unwrap();
    assert_eq!(f.payload_len, 0);
    assert_eq!(f.type_len, 7);
}

#[test]
fn parse_rejects_corruption() {
    let good = event(1, 1, 0, 0, b"x", &[0xc0]);
    let mut z = good.clone();
    z[0..4].copy_from_slice(&0u32.to_le_bytes());
    assert!(parse_event(&z, 1 << 20).is_none());
    let mut h = good.clone();
    h[4..8].copy_from_slice(&9999u32.to_le_bytes());
    assert!(parse_event(&h, 1 << 20).is_none());
    let mut t = good.clone();
    t[75..77].copy_from_slice(&5u16.to_le_bytes());
    assert!(parse_event(&t, 1 << 20).is_none());
    assert!(parse_event(&good, 4).is_none());
    assert!(parse_event(&good[..good.len() - 1], 1 << 20).is_none());
    assert!(parse_event(&good[..10], 1 << 20).is_none());
}

#[test]
fn reader_struct_is_sized() {
    assert_eq!(core::mem::size_of::<peios_event_ring>(), 32);
}

#[test]
fn a_ring_is_stored_and_loaded() {
    let r = peios_event_ring::store(Ring { base: 0x7000, capacity: 4096, map_len: 16384 }).load();
    assert_eq!((r.base, r.capacity, r.map_len), (0x7000, 4096, 16384));
    assert_eq!(peios_event_ring::unmapped().load().base, 0);
    assert_eq!(ring_map_len(4096), Ok(8192 + 8192));
    assert_eq!(ring_map_len(u64::MAX), Err(Errno::Inval));
    assert_eq!(ring_page_valid(b"KMES", 1, 4096, b"KMES", 1, 4096), Ok(()));
    assert_eq!(ring_page_valid(b"KMEZ", 1, 4096, b"KMES", 1, 4096), Err(Errno::Inval));
    assert_eq!(ring_page_valid(b"KMES", 2, 4096, b"KMES", 1, 4096), Err(Errno::Inval));
    assert_eq!(ring_page_valid(b"KMES", 1, 8192, b"KMES", 1, 4096), Err(Errno::Inval));
    // A window always has room for a whole lap.
    let (off, len) = event_window(4096 + 100, &r);
    assert_eq!((off, len), (100, 8192 - 100));
}

#[test]
fn waiting() {
    assert_eq!(timeout_parts(-1), None);
    assert_eq!(timeout_parts(1500), Some((1, 500_000_000)));
    assert_eq!(wait_code(wait_outcome(true, Errno::Inval)), 1);
    assert_eq!(wait_code(wait_outcome(false, Errno::Again)), 1);
    assert_eq!(wait_code(wait_outcome(false, Errno::TimedOut)), 0);
    assert_eq!(wait_code(wait_outcome(false, Errno::Intr)), 0);
    assert_eq!(wait_code(wait_outcome(false, Errno::Inval)), -1);
    assert_eq!(wait_outcome(false, Errno::Inval), Wait::Failed);
}

#[test]
fn reading_counts_what_was_lost() {
    let mut r = peios_event_reader::start(0, 100, 5);
    assert_eq!(r.on_generation(5), Next::WritePos);
    assert_eq!(r.on_generation(6), Next::Reattach);
    assert_eq!(r.on_write_pos(100), Next::Empty);
    assert_eq!(r.on_write_pos(300), Next::Tail);
    assert_eq!(r.on_tail(100), Next::Event(100));
    assert_eq!(r.on_event(true, 100), Next::Recheck(100));
    assert_eq!(r.on_event(false, 100), Next::Resync);
    // The first event sets the count; a gap of three events follows.
    assert_eq!(r.on_recheck(100, 100, 50, 7), Next::Delivered);
    assert_eq!((r.read_pos, r.last_seq, peios_event_reader_lost(Some(&r))), (150, 7, 0));
    assert_eq!(r.on_recheck(100, 100, 50, 11), Next::Delivered);
    assert_eq!((r.read_pos, r.last_seq, peios_event_reader_lost(Some(&r))), (200, 11, 3));
    // Overwritten while it was copied: read again.
    assert_eq!(r.on_recheck(250, 100, 50, 12), Next::Generation);
    assert_eq!(r.read_pos, 200);
    assert_eq!(r.on_tail(250), Next::Generation);
    assert_eq!(r.read_pos, 250);
    assert_eq!(r.on_resync(400), Next::Generation);
    assert_eq!(r.read_pos, 400);
    assert_eq!(r.on_reattach(Err(Errno::Inval)), Next::Failed(Errno::Inval));
    assert_eq!(r.on_reattach(Ok((10, 6))), Next::Generation);
    assert_eq!((r.read_pos, r.generation), (10, 6));
    assert_eq!(peios_event_reader_lost(None), 0);
}

/// Reads the event at the start of the bytes, which nothing overwrites meanwhile, and keeps it
/// only where there is a place for it.
fn read_one(r: &mut peios_event_reader, bytes: &[u8], out: Option<&mut EventFields>) -> Next {
    let f = parse_event(bytes, 1 << 20).unwrap();
    if let Some(out) = out {
        *out = f;
    }
    let tail = r.read_pos;
    r.on_recheck(tail, tail, f.event_size as u64, f.sequence)
}

#[test]
fn an_event_that_is_not_kept_is_not_lost() {
    let mut r = peios_event_reader::start(0, 0, 1);
    let first = event(1, 10, 0, 0, b"a", &[]);
    let second = event(2, 20, 0, 0, b"b", &[]);
    let third = event(3, 30, 0, 0, b"c", &[]);
    let mut out = parse_event(&first, 1 << 20).unwrap();
    assert_eq!(read_one(&mut r, &first, Some(&mut out)), Next::Delivered);
    assert_eq!(read_one(&mut r, &second, None), Next::Delivered);
    assert_eq!((out.sequence, r.last_seq, peios_event_reader_lost(Some(&r))), (1, 2, 0));
    assert_eq!(read_one(&mut r, &third, Some(&mut out)), Next::Delivered);
    assert_eq!((out.sequence, r.last_seq, peios_event_reader_lost(Some(&r))), (3, 3, 0));
    assert_eq!(r.read_pos as usize, first.len() + second.len() + third.len());
}

#[test]
fn failures_have_error_numbers() {
    assert_eq!(errno_for(KacsFailure::AllocationFailure), Errno::NoMem);
    assert_eq!(errno_for(KacsFailure::AccessDenied), Errno::Acces);
    assert_eq!(errno_for(KacsFailure::UserMemoryFault), Errno::Fault);
    assert_eq!(errno_for(KacsFailure::Invalid), Errno::Inval);
}
