//! Values of a key: reading, writing, deleting and listing them.

use vstd::prelude::*;
use crate::error::Errno;

verus! {

/// A value that is read: where it goes, and what it is.
#[allow(non_camel_case_types)]
#[derive(Clone, Copy, Debug, PartialEq, Eq, Structural)]
pub struct peios_reg_value {
    pub sequence: u64,
    /// Where the data goes.
    pub data: u64,
    /// Where the name of the layer goes.
    pub layer: u64,
    pub type_: u32,
    pub data_cap: u32,
    /// How long the data is, or how much room it needs.
    pub data_len: u32,
    pub layer_cap: u32,
    /// How long the name of the layer is, or how much room it needs.
    pub layer_len: u32,
}

/// The arguments for reading a value.
#[allow(non_camel_case_types)]
#[derive(Clone, Copy, Debug, PartialEq, Eq, Structural)]
pub struct reg_query_value_args {
    pub name_len: u32,
    pub _pad0: u32,
    pub name_ptr: u64,
    pub type_: u32,
    pub data_len: u32,
    pub data_ptr: u64,
    pub sequence: u64,
    pub layer_ptr: u64,
    pub layer_buf_len: u32,
    pub layer_len: u32,
    pub txn_fd: i32,
    pub _pad1: u32,
}

/// A value that is written.
#[allow(non_camel_case_types)]
#[derive(Clone, Copy, Debug, PartialEq, Eq, Structural)]
pub struct SetValueInput {
    pub name: u64,
    pub name_len: u32,
    pub type_: u32,
    pub data: u64,
    pub data_len: u32,
    pub layer: u64,
    pub layer_len: u32,
    pub txn_fd: i32,
    pub expected_seq: u64,
}

/// The arguments for writing a value.
#[allow(non_camel_case_types)]
#[derive(Clone, Copy, Debug, PartialEq, Eq, Structural)]
pub struct reg_set_value_args {
    pub name_len: u32,
    pub _pad0: u32,
    pub name_ptr: u64,
    pub type_: u32,
    pub data_len: u32,
    pub data_ptr: u64,
    pub layer_len: u32,
    pub _pad1: u32,
    pub layer_ptr: u64,
    pub txn_fd: i32,
    pub _pad2: u32,
    pub expected_seq: u64,
}

/// The arguments for deleting a value.
#[allow(non_camel_case_types)]
#[derive(Clone, Copy, Debug, PartialEq, Eq, Structural)]
pub struct reg_delete_value_args {
    pub name_len: u32,
    pub _pad0: u32,
    pub name_ptr: u64,
    pub layer_len: u32,
    pub _pad1: u32,
    pub layer_ptr: u64,
    pub txn_fd: i32,
    pub _pad2: u32,
}

/// The arguments for masking all lower values.
#[allow(non_camel_case_types)]
#[derive(Clone, Copy, Debug, PartialEq, Eq, Structural)]
pub struct reg_blanket_tombstone_args {
    pub layer_len: u32,
    pub _pad0: u32,
    pub layer_ptr: u64,
    pub set: u8,
    pub txn_fd: i32,
}

/// The arguments for reading all values at once.
#[allow(non_camel_case_types)]
#[derive(Clone, Copy, Debug, PartialEq, Eq, Structural)]
pub struct reg_query_values_batch_args {
    pub buf_len: u32,
    pub count: u32,
    pub buf_ptr: u64,
    pub txn_fd: i32,
    pub _pad: u32,
}

/// A value that is listed: where it goes, and what it is.
#[allow(non_camel_case_types)]
#[derive(Clone, Copy, Debug, PartialEq, Eq, Structural)]
pub struct peios_reg_enum_value {
    pub name: u64,
    pub data: u64,
    pub type_: u32,
    pub name_cap: u32,
    /// How long the name is, or how much room it needs.
    pub name_len: u32,
    pub data_cap: u32,
    /// How long the data is, or how much room it needs.
    pub data_len: u32,
}

/// The arguments for listing a value.
#[allow(non_camel_case_types)]
#[derive(Clone, Copy, Debug, PartialEq, Eq, Structural)]
pub struct reg_enum_value_args {
    pub index: u32,
    pub name_len: u32,
    pub name_ptr: u64,
    pub type_: u32,
    pub data_len: u32,
    pub data_ptr: u64,
    pub txn_fd: i32,
    pub _pad: u32,
}

/// Whether a buffer can be offered: only an empty one may be null.
pub fn out_buf_valid(addr: u64, cap: u32) -> (valid: bool)
    ensures
        valid == (cap == 0 || addr != 0),
{
    cap == 0 || addr != 0
}

/// The arguments for reading a value. The capacities go where the kernel puts the lengths.
pub fn build_query_value_args(name: u64, name_len: u32, txn_fd: i32, v: &peios_reg_value) -> (a: reg_query_value_args)
    ensures
        a == (reg_query_value_args {
            name_len,
            _pad0: 0,
            name_ptr: name,
            type_: 0,
            data_len: v.data_cap,
            data_ptr: v.data,
            sequence: 0,
            layer_ptr: v.layer,
            layer_buf_len: v.layer_cap,
            layer_len: 0,
            txn_fd,
            _pad1: 0,
        }),
{
    reg_query_value_args {
        name_len,
        _pad0: 0,
        name_ptr: name,
        type_: 0,
        data_len: v.data_cap,
        data_ptr: v.data,
        sequence: 0,
        layer_ptr: v.layer,
        layer_buf_len: v.layer_cap,
        layer_len: 0,
        txn_fd,
        _pad1: 0,
    }
}

/// The arguments of a request to read a value.
pub fn query_value_request(name: u64, name_len: u32, txn_fd: i32, v: Option<&peios_reg_value>) -> (r: Result<
    reg_query_value_args,
    Errno,
>)
    ensures
        match r {
            Ok(a) => {
                &&& v is Some
                &&& v->Some_0.data_cap == 0 || v->Some_0.data != 0
                &&& v->Some_0.layer_cap == 0 || v->Some_0.layer != 0
                &&& a == (reg_query_value_args {
                    name_len,
                    _pad0: 0,
                    name_ptr: name,
                    type_: 0,
                    data_len: v->Some_0.data_cap,
                    data_ptr: v->Some_0.data,
                    sequence: 0,
                    layer_ptr: v->Some_0.layer,
                    layer_buf_len: v->Some_0.layer_cap,
                    layer_len: 0,
                    txn_fd,
                    _pad1: 0,
                })
            },
            Err(e) => {
                &&& e == Errno::Inval
                &&& v is None || (v->Some_0.data_cap != 0 && v->Some_0.data == 0) || (v->Some_0.layer_cap != 0
                    && v->Some_0.layer == 0)
            },
        },
{
    match v {
        Some(v) => {
            if !out_buf_valid(v.data, v.data_cap) || !out_buf_valid(v.layer, v.layer_cap) {
                return Err(Errno::Inval);
            }
            Ok(build_query_value_args(name, name_len, txn_fd, v))
        },
        None => Err(Errno::Inval),
    }
}

/// What the caller is told of a value that was read. If a buffer was too small, the lengths
/// that are needed are told.
pub fn query_value_answer(v: &mut peios_reg_value, a: &reg_query_value_args, outcome: Result<(), Errno>)
    ensures
        *final(v) == (match outcome {
            Ok(_) => peios_reg_value {
                type_: a.type_,
                sequence: a.sequence,
                data_len: a.data_len,
                layer_len: a.layer_len,
                ..*old(v)
            },
            Err(e) => if e == Errno::Range {
                peios_reg_value { data_len: a.data_len, layer_len: a.layer_len, ..*old(v) }
            } else {
                *old(v)
            },
        }),
{
    match outcome {
        Ok(_) => {
            v.type_ = a.type_;
            v.sequence = a.sequence;
            v.data_len = a.data_len;
            v.layer_len = a.layer_len;
        },
        Err(Errno::Range) => {
            v.data_len = a.data_len;
            v.layer_len = a.layer_len;
        },
        Err(_) => {},
    }
}

/// The arguments for writing a value.
pub fn build_set_value_args(input: SetValueInput) -> (a: reg_set_value_args)
    ensures
        a == (reg_set_value_args {
            name_len: input.name_len,
            _pad0: 0,
            name_ptr: input.name,
            type_: input.type_,
            data_len: input.data_len,
            data_ptr: input.data,
            layer_len: input.layer_len,
            _pad1: 0,
            layer_ptr: input.layer,
            txn_fd: input.txn_fd,
            _pad2: 0,
            expected_seq: input.expected_seq,
        }),
{
    reg_set_value_args {
        name_len: input.name_len,
        _pad0: 0,
        name_ptr: input.name,
        type_: input.type_,
        data_len: input.data_len,
        data_ptr: input.data,
        layer_len: input.layer_len,
        _pad1: 0,
        layer_ptr: input.layer,
        txn_fd: input.txn_fd,
        _pad2: 0,
        expected_seq: input.expected_seq,
    }
}

/// The arguments for deleting a value in a layer.
pub fn build_delete_value_args(name: u64, name_len: u32, layer: u64, layer_len: u32, txn_fd: i32) -> (a:
    reg_delete_value_args)
    ensures
        a == (reg_delete_value_args {
            name_len,
            _pad0: 0,
            name_ptr: name,
            layer_len,
            _pad1: 0,
            layer_ptr: layer,
            txn_fd,
            _pad2: 0,
        }),
{
    reg_delete_value_args { name_len, _pad0: 0, name_ptr: name, layer_len, _pad1: 0, layer_ptr: layer, txn_fd, _pad2: 0 }
}

/// The arguments for setting (1) or clearing (0) a mask over all lower values. Other numbers
/// are refused.
pub fn build_blanket_tombstone_args(layer: u64, layer_len: u32, set: i32, txn_fd: i32) -> (r: Result<
    reg_blanket_tombstone_args,
    Errno,
>)
    ensures
        match r {
            Ok(a) => {
                &&& set == 0 || set == 1
                &&& a == (reg_blanket_tombstone_args {
                    layer_len,
                    _pad0: 0,
                    layer_ptr: layer,
                    set: set as u8,
                    txn_fd,
                })
            },
            Err(e) => e == Errno::Inval && set != 0 && set != 1,
        },
{
    if set != 0 && set != 1 {
        return Err(Errno::Inval);
    }
    Ok(reg_blanket_tombstone_args { layer_len, _pad0: 0, layer_ptr: layer, set: set as u8, txn_fd })
}

/// The arguments of a request to read all values at once.
pub fn query_values_batch_request(txn_fd: i32, buf: u64, cap: u32) -> (r: Result<reg_query_values_batch_args, Errno>)
    ensures
        r == (if cap != 0 && buf == 0 {
            Err::<reg_query_values_batch_args, Errno>(Errno::Inval)
        } else {
            Ok(reg_query_values_batch_args { buf_len: cap, count: 0, buf_ptr: buf, txn_fd, _pad: 0 })
        }),
{
    if !out_buf_valid(buf, cap) {
        return Err(Errno::Inval);
    }
    Ok(reg_query_values_batch_args { buf_len: cap, count: 0, buf_ptr: buf, txn_fd, _pad: 0 })
}

/// The length and the count that the caller is told, if the kernel wrote them: when it
/// succeeded, and when the buffer was too small.
pub fn query_values_batch_answer(a: &reg_query_values_batch_args, outcome: Result<(), Errno>) -> (r: Option<(u32, u32)>)
    ensures
        r == (if outcome is Ok || outcome == Err::<(), Errno>(Errno::Range) {
            Some((a.buf_len, a.count))
        } else {
            None
        }),
{
    match outcome {
        Ok(_) => Some((a.buf_len, a.count)),
        Err(Errno::Range) => Some((a.buf_len, a.count)),
        Err(_) => None,
    }
}

/// The arguments for listing a value. The capacities go where the kernel puts the lengths.
pub fn build_enum_value_args(index: u32, txn_fd: i32, v: &peios_reg_enum_value) -> (a: reg_enum_value_args)
    ensures
        a == (reg_enum_value_args {
            index,
            name_len: v.name_cap,
            name_ptr: v.name,
            type_: 0,
            data_len: v.data_cap,
            data_ptr: v.data,
            txn_fd,
            _pad: 0,
        }),
{
    reg_enum_value_args {
        index,
        name_len: v.name_cap,
        name_ptr: v.name,
        type_: 0,
        data_len: v.data_cap,
        data_ptr: v.data,
        txn_fd,
        _pad: 0,
    }
}

/// The arguments of a request to list a value.
pub fn enum_value_request(index: u32, txn_fd: i32, v: Option<&peios_reg_enum_value>) -> (r: Result<
    reg_enum_value_args,
    Errno,
>)
    ensures
        match r {
            Ok(a) => {
                &&& v is Some
                &&& v->Some_0.name_cap == 0 || v->Some_0.name != 0
                &&& v->Some_0.data_cap == 0 || v->Some_0.data != 0
                &&& a == (reg_enum_value_args {
                    index,
                    name_len: v->Some_0.name_cap,
                    name_ptr: v->Some_0.name,
                    type_: 0,
                    data_len: v->Some_0.data_cap,
                    data_ptr: v->Some_0.data,
                    txn_fd,
                    _pad: 0,
                })
            },
            Err(e) => {
                &&& e == Errno::Inval
                &&& v is None || (v->Some_0.name_cap != 0 && v->Some_0.name == 0) || (v->Some_0.data_cap != 0
                    && v->Some_0.data == 0)
            },
        },
{
    match v {
        Some(v) => {
            if !out_buf_valid(v.name, v.name_cap) || !out_buf_valid(v.data, v.data_cap) {
                return Err(Errno::Inval);
            }
            Ok(build_enum_value_args(index, txn_fd, v))
        },
        None => Err(Errno::Inval),
    }
}

/// What the caller is told of a value that was listed. If a buffer was too small, the lengths
/// that are needed are told.
pub fn enum_value_answer(v: &mut peios_reg_enum_value, a: &reg_enum_value_args, outcome: Result<(), Errno>)
    ensures
        *final(v) == (match outcome {
            Ok(_) => peios_reg_enum_value {
                type_: a.type_,
                name_len: a.name_len,
                data_len: a.data_len,
                ..*old(v)
            },
            Err(e) => if e == Errno::Range {
                peios_reg_enum_value { name_len: a.name_len, data_len: a.data_len, ..*old(v) }
            } else {
                *old(v)
            },
        }),
{
    match outcome {
        Ok(_) => {
            v.type_ = a.type_;
            v.name_len = a.name_len;
            v.data_len = a.data_len;
        },
        Err(Errno::Range) => {
            v.name_len = a.name_len;
            v.data_len = a.data_len;
        },
        Err(_) => {},
    }
}

} // verus!
