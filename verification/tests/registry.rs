// Requests to the registry and what their answers say.

use core::mem::size_of;
use peios::error::Errno;
use peios::registry::backup::{backup_args, reg_backup_args, reg_restore_args, restore_args};
use peios::registry::key::{
    build_create_key_args, enum_subkey_answer, enum_subkey_request, layer_args, notify_args, open_key_request,
    peios_reg_key_info, peios_reg_subkey, query_key_info_answer, query_key_info_request, reg_create_key_args,
    reg_enum_subkey_args, reg_layer_args, reg_notify_args, reg_query_key_info_args,
};
use peios::registry::security::{
    get_security_answer, get_security_args, reg_get_security_args, reg_set_security_args, set_security_request,
};
use peios::registry::transaction::{reg_txn_status_args, txn_status_answer, REG_IOC_COMMIT, REG_IOC_TXN_STATUS};
use peios::registry::value::{
    build_blanket_tombstone_args, build_delete_value_args, build_enum_value_args, build_query_value_args,
    build_set_value_args, enum_value_answer, enum_value_request, peios_reg_enum_value, peios_reg_value,
    query_value_answer, query_value_request, query_values_batch_answer, query_values_batch_request,
    reg_blanket_tombstone_args, reg_delete_value_args, reg_enum_value_args, reg_query_value_args,
    reg_query_values_batch_args, reg_set_value_args, SetValueInput,
};

const VOLATILE: u32 = 1;
const TEXT: u32 = 1;
const TOMBSTONE: u32 = 0xffff;

#[test]
fn backup_struct_sizes_pinned() {
    assert_eq!(size_of::<reg_backup_args>(), 4);
    assert_eq!(size_of::<reg_restore_args>(), 4);
    assert_eq!(backup_args(7).output_fd, 7);
    assert_eq!(restore_args(8).input_fd, 8);
}

#[test]
fn key_struct_sizes_pinned() {
    assert_eq!(size_of::<reg_create_key_args>(), 48);
    assert_eq!(size_of::<reg_enum_subkey_args>(), 40);
    assert_eq!(size_of::<reg_query_key_info_args>(), 64);
    assert_eq!(size_of::<reg_layer_args>(), 24);
    assert_eq!(size_of::<reg_notify_args>(), 8);
}

#[test]
fn security_struct_sizes_pinned() {
    assert_eq!(size_of::<reg_get_security_args>(), 16);
    assert_eq!(size_of::<reg_set_security_args>(), 24);
}

#[test]
fn value_struct_sizes_pinned() {
    assert_eq!(size_of::<reg_query_value_args>(), 64);
    assert_eq!(size_of::<reg_set_value_args>(), 64);
    assert_eq!(size_of::<reg_delete_value_args>(), 40);
    assert_eq!(size_of::<reg_blanket_tombstone_args>(), 24);
    assert_eq!(size_of::<reg_query_values_batch_args>(), 24);
    assert_eq!(size_of::<reg_enum_value_args>(), 40);
}

#[test]
fn txn_status_args_size_pinned() {
    assert_eq!(size_of::<reg_txn_status_args>(), 8);
}

#[test]
fn commit_ioctl_code_is_io_encoded() {
    assert_eq!(REG_IOC_COMMIT, 21008);
}

#[test]
fn txn_status_ioctl_code_is_ior_encoded() {
    assert_eq!(REG_IOC_TXN_STATUS, 2148028945);
}

#[test]
fn txn_status_is_told_on_success() {
    let args = reg_txn_status_args { state: 2, terminal_errno: 5 };
    assert_eq!(txn_status_answer(&args, true), Some((2, 5)));
    assert_eq!(txn_status_answer(&args, false), None);
}

#[test]
fn build_create_key_args_packs_fields() {
    let path = 0x1000u64;
    let layer = 0x2000u64;
    let disposition = 0x3000u64;
    let args = build_create_key_args(-1, path, 0x0002_0019, VOLATILE, layer, 7, disposition);
    assert_eq!(args.parent_fd, -1);
    assert_eq!(args.path_ptr, path);
    assert_eq!(args.desired_access, 0x0002_0019);
    assert_eq!(args.flags, VOLATILE);
    assert_eq!(args.layer_ptr, layer);
    assert_eq!(args.txn_fd, 7);
    assert_eq!(args.disposition_ptr, disposition);
    assert_eq!(args._pad0, 0);
    assert_eq!(args._pad1, 0);
}

#[test]
fn build_create_key_args_null_layer_is_zero_ptr() {
    let args = build_create_key_args(-1, 0x1000, 1, 0, 0, -1, 0);
    assert_eq!(args.layer_ptr, 0);
    assert_eq!(args.disposition_ptr, 0);
    assert_eq!(args.txn_fd, -1);
}

#[test]
fn keys_need_a_path() {
    assert_eq!(open_key_request(0), Err(Errno::Inval));
    assert_eq!(open_key_request(0x1000), Ok(()));
}

#[test]
fn subkeys_are_told() {
    let mut v = peios_reg_subkey {
        name: 0x5000,
        last_write_time: 0,
        name_cap: 32,
        name_len: 0,
        subkey_count: 0,
        value_count: 0,
    };
    let mut a = enum_subkey_request(3, -1, Some(&v)).unwrap();
    assert_eq!((a.index, a.name_len, a.name_ptr, a.txn_fd), (3, 32, 0x5000, -1));
    a.name_len = 40;
    a.subkey_count = 9;
    enum_subkey_answer(&mut v, &a, Err(Errno::Range));
    assert_eq!((v.name_len, v.subkey_count), (40, 0));
    enum_subkey_answer(&mut v, &a, Ok(()));
    assert_eq!((v.name_len, v.subkey_count), (40, 9));
    assert_eq!(enum_subkey_request(3, -1, None), Err(Errno::Inval));
}

#[test]
fn key_info_is_told() {
    let mut v = peios_reg_key_info {
        name: 0x5000,
        last_write_time: 0,
        hive_generation: 0,
        name_cap: 32,
        name_len: 0,
        subkey_count: 0,
        value_count: 0,
        max_subkey_name_len: 0,
        max_value_name_len: 0,
        max_value_data_size: 0,
        sd_size: 0,
        volatile_key: 0,
        symlink: 0,
    };
    let mut a = query_key_info_request(Some(&v)).unwrap();
    assert_eq!((a.name_len, a.name_ptr), (32, 0x5000));
    a.name_len = 40;
    a.sd_size = 64;
    a.symlink = 1;
    query_key_info_answer(&mut v, &a, Err(Errno::Other(2)));
    assert_eq!(v.name_len, 0);
    query_key_info_answer(&mut v, &a, Err(Errno::Range));
    assert_eq!((v.name_len, v.sd_size), (40, 0));
    query_key_info_answer(&mut v, &a, Ok(()));
    assert_eq!((v.name_len, v.sd_size, v.symlink), (40, 64, 1));
    assert_eq!(query_key_info_request(None), Err(Errno::Inval));
}

#[test]
fn layers_and_watches() {
    let a = layer_args(0x2000, 4, 9);
    assert_eq!((a.layer_ptr, a.layer_len, a.txn_fd), (0x2000, 4, 9));
    let n = notify_args(7, 1).unwrap();
    assert_eq!((n.filter, n.subtree), (7, 1));
    assert_eq!(notify_args(7, 256), Err(Errno::Inval));
}

#[test]
fn set_security_rejects_empty_sd() {
    assert_eq!(set_security_request(0x4, 0, 0, -1), Err(Errno::Inval));
    assert_eq!(set_security_request(0x4, 0x1000, 0, -1), Err(Errno::Inval));
    let a = set_security_request(0x4, 0x1000, 20, -1).unwrap();
    assert_eq!((a.security_info, a.sd_ptr, a.sd_len, a.txn_fd), (0x4, 0x1000, 20, -1));
}

#[test]
fn security_length_is_told() {
    let mut a = get_security_args(0x7, 0x1000, 8);
    assert_eq!((a.security_info, a.sd_ptr, a.sd_len), (0x7, 0x1000, 8));
    a.sd_len = 40;
    assert_eq!(get_security_answer(&a, Ok(())), Some(40));
    assert_eq!(get_security_answer(&a, Err(Errno::Range)), Some(40));
    assert_eq!(get_security_answer(&a, Err(Errno::Acces)), None);
}

#[test]
fn query_value_args_pack_capacities_as_lengths() {
    let v = peios_reg_value {
        sequence: 0,
        data: 0x7000,
        layer: 0x8000,
        type_: 0,
        data_cap: 32,
        data_len: 0,
        layer_cap: 16,
        layer_len: 0,
    };
    let a = build_query_value_args(0x9000, b"Color".len() as u32, -1, &v);
    assert_eq!(a.name_len, 5);
    assert_eq!(a.name_ptr, 0x9000);
    assert_eq!(a.data_ptr, 0x7000);
    assert_eq!(a.data_len, 32); // the capacity
    assert_eq!(a.layer_ptr, 0x8000);
    assert_eq!(a.layer_buf_len, 16); // the capacity
    assert_eq!(a.txn_fd, -1);
    assert_eq!(a._pad0, 0);
    assert_eq!(a._pad1, 0);
    assert_eq!(query_value_request(0x9000, 5, -1, Some(&v)), Ok(a));
}

#[test]
fn query_value_rejects_null_buffer_with_capacity() {
    let v = peios_reg_value {
        sequence: 0,
        data: 0,
        layer: 0,
        type_: 0,
        data_cap: 1,
        data_len: 0,
        layer_cap: 0,
        layer_len: 0,
    };
    assert_eq!(query_value_request(0, 0, -1, Some(&v)), Err(Errno::Inval));
    assert_eq!(query_value_request(0, 0, -1, None), Err(Errno::Inval));
}

#[test]
fn values_are_told() {
    let mut v = peios_reg_value {
        sequence: 0,
        data: 0x7000,
        layer: 0x8000,
        type_: 0,
        data_cap: 32,
        data_len: 0,
        layer_cap: 16,
        layer_len: 0,
    };
    let mut a = build_query_value_args(0x9000, 5, -1, &v);
    a.type_ = TEXT;
    a.data_len = 64;
    a.layer_len = 4;
    a.sequence = 11;
    query_value_answer(&mut v, &a, Err(Errno::Range));
    assert_eq!((v.type_, v.sequence, v.data_len, v.layer_len), (0, 0, 64, 4));
    query_value_answer(&mut v, &a, Ok(()));
    assert_eq!((v.type_, v.sequence, v.data_len, v.layer_len), (TEXT, 11, 64, 4));
}

#[test]
fn set_value_args_pack_fields_and_tombstone_type() {
    let a = build_set_value_args(SetValueInput {
        name: 0x9000,
        name_len: b"K".len() as u32,
        type_: TEXT,
        data: 0x7000,
        data_len: 4,
        layer: 0x8000,
        layer_len: b"overlay".len() as u32,
        txn_fd: 9,
        expected_seq: 42,
    });
    assert_eq!(a.name_len, 1);
    assert_eq!(a.type_, TEXT);
    assert_eq!(a.data_len, 4);
    assert_eq!(a.data_ptr, 0x7000);
    assert_eq!(a.layer_len, 7);
    assert_eq!(a.layer_ptr, 0x8000);
    assert_eq!(a.txn_fd, 9);
    assert_eq!(a.expected_seq, 42);
    assert_eq!(a._pad0, 0);
    assert_eq!(a._pad1, 0);
    assert_eq!(a._pad2, 0);

    let t = build_set_value_args(SetValueInput {
        name: 0,
        name_len: 0,
        type_: TOMBSTONE,
        data: 0,
        data_len: 0,
        layer: 0,
        layer_len: 0,
        txn_fd: -1,
        expected_seq: 0,
    });
    assert_eq!(t.type_, TOMBSTONE);
    assert_eq!(t.name_ptr, 0);
    assert_eq!(t.layer_ptr, 0); // the base layer
}

#[test]
fn base_layer_is_null_ptr_zero_len() {
    let d = build_delete_value_args(0x9000, 1, 0, 0, -1);
    assert_eq!(d.layer_len, 0);
    assert_eq!(d.layer_ptr, 0);
    let b = build_blanket_tombstone_args(0, 0, 1, -1).unwrap();
    assert_eq!(b.layer_len, 0);
    assert_eq!(b.layer_ptr, 0);
    assert_eq!(b.set, 1);
}

#[test]
fn blanket_tombstone_rejects_non_boolean_set() {
    assert_eq!(build_blanket_tombstone_args(0, 0, 256, -1), Err(Errno::Inval));
}

#[test]
fn query_values_batch_rejects_null_buffer_with_capacity() {
    assert_eq!(query_values_batch_request(-1, 0, 1), Err(Errno::Inval));
    let mut a = query_values_batch_request(-1, 0x1000, 64).unwrap();
    assert_eq!((a.buf_ptr, a.buf_len, a.count), (0x1000, 64, 0));
    a.buf_len = 100;
    a.count = 3;
    assert_eq!(query_values_batch_answer(&a, Ok(())), Some((100, 3)));
    assert_eq!(query_values_batch_answer(&a, Err(Errno::Range)), Some((100, 3)));
    assert_eq!(query_values_batch_answer(&a, Err(Errno::Acces)), None);
}

#[test]
fn enum_value_args_pack_capacities_as_lengths() {
    let v = peios_reg_enum_value {
        name: 0x5000,
        data: 0x7000,
        type_: 0,
        name_cap: 64,
        name_len: 0,
        data_cap: 128,
        data_len: 0,
    };
    let a = build_enum_value_args(3, -1, &v);
    assert_eq!(a.index, 3);
    assert_eq!(a.name_len, 64); // the capacity
    assert_eq!(a.name_ptr, 0x5000);
    assert_eq!(a.data_len, 128); // the capacity
    assert_eq!(a.data_ptr, 0x7000);
    assert_eq!(a.txn_fd, -1);
    assert_eq!(a._pad, 0);
}

#[test]
fn enum_value_rejects_null_buffer_with_capacity() {
    let mut v = peios_reg_enum_value {
        name: 0,
        data: 0,
        type_: 0,
        name_cap: 1,
        name_len: 0,
        data_cap: 0,
        data_len: 0,
    };
    assert_eq!(enum_value_request(0, -1, Some(&v)), Err(Errno::Inval));
    v.name_cap = 0;
    let mut a = enum_value_request(0, -1, Some(&v)).unwrap();
    a.name_len = 5;
    a.data_len = 6;
    a.type_ = TEXT;
    enum_value_answer(&mut v, &a, Err(Errno::Range));
    assert_eq!((v.name_len, v.data_len, v.type_), (5, 6, 0));
    enum_value_answer(&mut v, &a, Ok(()));
    assert_eq!((v.name_len, v.data_len, v.type_), (5, 6, TEXT));
}
