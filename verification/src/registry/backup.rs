//! Backup and restore of a key and all below it.

use vstd::prelude::*;

verus! {

/// Where a backup goes.
#[allow(non_camel_case_types)]
#[derive(Clone, Copy, Debug, PartialEq, Eq, Structural)]
pub struct reg_backup_args {
    pub output_fd: i32,
}

/// Where a backup comes from.
#[allow(non_camel_case_types)]
#[derive(Clone, Copy, Debug, PartialEq, Eq, Structural)]
pub struct reg_restore_args {
    pub input_fd: i32,
}

pub fn backup_args(output_fd: i32) -> (a: reg_backup_args)
    ensures
        a.output_fd == output_fd,
{
    reg_backup_args { output_fd }
}

pub fn restore_args(input_fd: i32) -> (a: reg_restore_args)
    ensures
        a.input_fd == input_fd,
{
    reg_restore_args { input_fd }
}

} // verus!
