//! Keys: opening, creating, listing, asking about, deleting and watching them.

use vstd::prelude::*;
use crate::error::Errno;

verus! {

/// The arguments for opening or creating a key.
#[allow(non_camel_case_types)]
#[derive(Clone, Copy, Debug, PartialEq, Eq, Structural)]
pub struct reg_create_key_args {
    pub parent_fd: i32,
    pub _pad0: u32,
    pub path_ptr: u64,
    pub desired_access: u32,
    pub flags: u32,
    pub layer_ptr: u64,
    pub txn_fd: i32,
    pub _pad1: u32,
    pub disposition_ptr: u64,
}

/// A child key that is listed: where its name goes, and what it is.
#[allow(non_camel_case_types)]
#[derive(Clone, Copy, Debug, PartialEq, Eq, Structural)]
pub struct peios_reg_subkey {
    pub name: u64,
    pub last_write_time: u64,
    pub name_cap: u32,
    /// How long the name is, or how much room it needs.
    pub name_len: u32,
    pub subkey_count: u32,
    pub value_count: u32,
}

/// The arguments for listing a child key.
#[allow(non_camel_case_types)]
#[derive(Clone, Copy, Debug, PartialEq, Eq, Structural)]
pub struct reg_enum_subkey_args {
    pub index: u32,
    pub name_len: u32,
    pub name_ptr: u64,
    pub last_write_time: u64,
    pub subkey_count: u32,
    pub value_count: u32,
    pub txn_fd: i32,
    pub _pad: u32,
}

/// What there is to know of a key, and where its name goes.
#[allow(non_camel_case_types)]
#[derive(Clone, Copy, Debug, PartialEq, Eq, Structural)]
pub struct peios_reg_key_info {
    pub name: u64,
    pub last_write_time: u64,
    pub hive_generation: u64,
    pub name_cap: u32,
    /// How long the name is, or how much room it needs.
    pub name_len: u32,
    pub subkey_count: u32,
    pub value_count: u32,
    pub max_subkey_name_len: u32,
    pub max_value_name_len: u32,
    pub max_value_data_size: u32,
    pub sd_size: u32,
    pub volatile_key: u8,
    pub symlink: u8,
}

/// The arguments for asking about a key.
#[allow(non_camel_case_types)]
#[derive(Clone, Copy, Debug, PartialEq, Eq, Structural)]
pub struct reg_query_key_info_args {
    pub name_len: u32,
    pub _pad0: u32,
    pub name_ptr: u64,
    pub last_write_time: u64,
    pub hive_generation: u64,
    pub subkey_count: u32,
    pub value_count: u32,
    pub max_subkey_name_len: u32,
    pub max_value_name_len: u32,
    pub max_value_data_size: u32,
    pub sd_size: u32,
    pub volatile_key: u8,
    pub symlink: u8,
    pub _pad1: u16,
    pub _pad2: u32,
}

/// The arguments for deleting or hiding a key in a layer.
#[allow(non_camel_case_types)]
#[derive(Clone, Copy, Debug, PartialEq, Eq, Structural)]
pub struct reg_layer_args {
    pub layer_len: u32,
    pub _pad0: u32,
    pub layer_ptr: u64,
    pub txn_fd: i32,
    pub _pad1: u32,
}

/// The arguments for watching a key.
#[allow(non_camel_case_types)]
#[derive(Clone, Copy, Debug, PartialEq, Eq, Structural)]
pub struct reg_notify_args {
    pub filter: u32,
    pub subtree: u8,
}

/// A path has to be there.
pub fn open_key_request(path: u64) -> (r: Result<(), Errno>)
    ensures
        r == (if path == 0 {
            Err::<(), Errno>(Errno::Inval)
        } else {
            Ok(())
        }),
{
    if path == 0 {
        return Err(Errno::Inval);
    }
    Ok(())
}

/// The arguments for opening or creating a key.
pub fn build_create_key_args(
    parent_fd: i32,
    path: u64,
    desired_access: u32,
    flags: u32,
    layer: u64,
    txn_fd: i32,
    disposition_out: u64,
) -> (a: reg_create_key_args)
    ensures
        a == (reg_create_key_args {
            parent_fd,
            _pad0: 0,
            path_ptr: path,
            desired_access,
            flags,
            layer_ptr: layer,
            txn_fd,
            _pad1: 0,
            disposition_ptr: disposition_out,
        }),
{
    reg_create_key_args {
        parent_fd,
        _pad0: 0,
        path_ptr: path,
        desired_access,
        flags,
        layer_ptr: layer,
        txn_fd,
        _pad1: 0,
        disposition_ptr: disposition_out,
    }
}

/// The arguments of a request to list a child key. The capacity goes where the kernel puts
/// the length.
pub fn enum_subkey_request(index: u32, txn_fd: i32, v: Option<&peios_reg_subkey>) -> (r: Result<
    reg_enum_subkey_args,
    Errno,
>)
    ensures
        match r {
            Ok(a) => {
                &&& v is Some
                &&& a == (reg_enum_subkey_args {
                    index,
                    name_len: v->Some_0.name_cap,
                    name_ptr: v->Some_0.name,
                    last_write_time: 0,
                    subkey_count: 0,
                    value_count: 0,
                    txn_fd,
                    _pad: 0,
                })
            },
            Err(e) => e == Errno::Inval && v is None,
        },
{
    match v {
        Some(v) => Ok(
            reg_enum_subkey_args {
                index,
                name_len: v.name_cap,
                name_ptr: v.name,
                last_write_time: 0,
                subkey_count: 0,
                value_count: 0,
                txn_fd,
                _pad: 0,
            },
        ),
        None => Err(Errno::Inval),
    }
}

/// What the caller is told of a child key that was listed. If the buffer was too small, only
/// the length that is needed is told.
pub fn enum_subkey_answer(v: &mut peios_reg_subkey, a: &reg_enum_subkey_args, outcome: Result<(), Errno>)
    ensures
        *final(v) == (match outcome {
            Ok(_) => peios_reg_subkey {
                name_len: a.name_len,
                last_write_time: a.last_write_time,
                subkey_count: a.subkey_count,
                value_count: a.value_count,
                ..*old(v)
            },
            Err(e) => if e == Errno::Range {
                peios_reg_subkey { name_len: a.name_len, ..*old(v) }
            } else {
                *old(v)
            },
        }),
{
    match outcome {
        Ok(_) => {
            v.name_len = a.name_len;
            v.last_write_time = a.last_write_time;
            v.subkey_count = a.subkey_count;
            v.value_count = a.value_count;
        },
        Err(Errno::Range) => {
            v.name_len = a.name_len;
        },
        Err(_) => {},
    }
}

/// The arguments of a request to ask about a key. The capacity goes where the kernel puts the
/// length.
pub fn query_key_info_request(v: Option<&peios_reg_key_info>) -> (r: Result<reg_query_key_info_args, Errno>)
    ensures
        match r {
            Ok(a) => {
                &&& v is Some
                &&& a == (reg_query_key_info_args {
                    name_len: v->Some_0.name_cap,
                    _pad0: 0,
                    name_ptr: v->Some_0.name,
                    last_write_time: 0,
                    hive_generation: 0,
                    subkey_count: 0,
                    value_count: 0,
                    max_subkey_name_len: 0,
                    max_value_name_len: 0,
                    max_value_data_size: 0,
                    sd_size: 0,
                    volatile_key: 0,
                    symlink: 0,
                    _pad1: 0,
                    _pad2: 0,
                })
            },
            Err(e) => e == Errno::Inval && v is None,
        },
{
    match v {
        Some(v) => Ok(
            reg_query_key_info_args {
                name_len: v.name_cap,
                _pad0: 0,
                name_ptr: v.name,
                last_write_time: 0,
                hive_generation: 0,
                subkey_count: 0,
                value_count: 0,
                max_subkey_name_len: 0,
                max_value_name_len: 0,
                max_value_data_size: 0,
                sd_size: 0,
                volatile_key: 0,
                symlink: 0,
                _pad1: 0,
                _pad2: 0,
            },
        ),
        None => Err(Errno::Inval),
    }
}

/// What the caller is told of a key. If the buffer was too small, only the length that is
/// needed is told.
pub fn query_key_info_answer(v: &mut peios_reg_key_info, a: &reg_query_key_info_args, outcome: Result<(), Errno>)
    ensures
        *final(v) == (match outcome {
            Ok(_) => peios_reg_key_info {
                name_len: a.name_len,
                last_write_time: a.last_write_time,
                hive_generation: a.hive_generation,
                subkey_count: a.subkey_count,
                value_count: a.value_count,
                max_subkey_name_len: a.max_subkey_name_len,
                max_value_name_len: a.max_value_name_len,
                max_value_data_size: a.max_value_data_size,
                sd_size: a.sd_size,
                volatile_key: a.volatile_key,
                symlink: a.symlink,
                ..*old(v)
            },
            Err(e) => if e == Errno::Range {
                peios_reg_key_info { name_len: a.name_len, ..*old(v) }
            } else {
                *old(v)
            },
        }),
{
    match outcome {
        Ok(_) => {
            v.name_len = a.name_len;
            v.last_write_time = a.last_write_time;
            v.hive_generation = a.hive_generation;
            v.subkey_count = a.subkey_count;
            v.value_count = a.value_count;
            v.max_subkey_name_len = a.max_subkey_name_len;
            v.max_value_name_len = a.max_value_name_len;
            v.max_value_data_size = a.max_value_data_size;
            v.sd_size = a.sd_size;
            v.volatile_key = a.volatile_key;
            v.symlink = a.symlink;
        },
        Err(Errno::Range) => {
            v.name_len = a.name_len;
        },
        Err(_) => {},
    }
}

/// The arguments for deleting or hiding a key in a layer.
pub fn layer_args(layer: u64, layer_len: u32, txn_fd: i32) -> (a: reg_layer_args)
    ensures
        a == (reg_layer_args { layer_len, _pad0: 0, layer_ptr: layer, txn_fd, _pad1: 0 }),
{
    reg_layer_args { layer_len, _pad0: 0, layer_ptr: layer, txn_fd, _pad1: 0 }
}

/// The arguments for watching a key, with (1) or without (0) what is below it. Other numbers
/// are refused.
pub fn notify_args(filter: u32, subtree: i32) -> (r: Result<reg_notify_args, Errno>)
    ensures
        match r {
            Ok(a) => (subtree == 0 || subtree == 1) && a == (reg_notify_args { filter, subtree: subtree as u8 }),
            Err(e) => e == Errno::Inval && subtree != 0 && subtree != 1,
        },
{
    if subtree != 0 && subtree != 1 {
        return Err(Errno::Inval);
    }
    Ok(reg_notify_args { filter, subtree: subtree as u8 })
}

} // verus!
