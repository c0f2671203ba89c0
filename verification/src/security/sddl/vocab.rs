//! The vocabulary of descriptor text: codes of entry types, flags and rights, and the
//! two-letter names of SIDs.

use vstd::prelude::*;
use crate::security::codec::{
    ACCESS_DELETE, ACCESS_GENERIC_ALL, ACCESS_GENERIC_EXECUTE, ACCESS_GENERIC_READ, ACCESS_GENERIC_WRITE,
    ACCESS_READ_CONTROL, ACCESS_WRITE_DAC, ACCESS_WRITE_OWNER, ACE_FLAG_CONTAINER_INHERIT, ACE_FLAG_FAILED_ACCESS,
    ACE_FLAG_INHERITED, ACE_FLAG_INHERIT_ONLY, ACE_FLAG_NO_PROPAGATE_INHERIT, ACE_FLAG_OBJECT_INHERIT,
    ACE_FLAG_SUCCESSFUL_ACCESS, ACE_TYPE_ACCESS_ALLOWED, ACE_TYPE_ACCESS_ALLOWED_CALLBACK,
    ACE_TYPE_ACCESS_ALLOWED_CALLBACK_OBJECT, ACE_TYPE_ACCESS_ALLOWED_OBJECT, ACE_TYPE_ACCESS_DENIED,
    ACE_TYPE_ACCESS_DENIED_CALLBACK, ACE_TYPE_ACCESS_DENIED_CALLBACK_OBJECT, ACE_TYPE_ACCESS_DENIED_OBJECT,
    ACE_TYPE_SYSTEM_AUDIT, ACE_TYPE_SYSTEM_AUDIT_CALLBACK, ACE_TYPE_SYSTEM_AUDIT_CALLBACK_OBJECT,
    ACE_TYPE_SYSTEM_AUDIT_OBJECT, ACE_TYPE_SYSTEM_MANDATORY_LABEL, ACE_TYPE_SYSTEM_RESOURCE_ATTRIBUTE,
    ACE_TYPE_SYSTEM_SCOPED_POLICY_ID,
};
use crate::security::sddl::wellknown::{one, two, WellKnownSid};
use crate::security::sid::{Sid, SidView};

verus! {

/// A code of two characters.
#[derive(Clone, Copy, Debug, PartialEq, Eq, Structural)]
pub struct Code {
    pub first: u8,
    pub second: u8,
}

impl Code {
    /// The code as text.
    pub open spec fn text(self) -> Seq<u8> {
        seq![self.first, self.second]
    }
}

/// Appends a code.
pub fn put_code(out: &mut Vec<u8>, c: Code)
    ensures
        final(out)@ == old(out)@ + c.text(),
{
    out.push(c.first);
    out.push(c.second);
    assert(out@ =~= old(out)@ + c.text());
}

/// The entry type that a code stands for.
pub open spec fn type_of_code(s: Seq<u8>) -> Option<u8> {
    if s.len() == 1 {
        if s[0] == 0x41 {
            Some(ACE_TYPE_ACCESS_ALLOWED)
        } else if s[0] == 0x44 {
            Some(ACE_TYPE_ACCESS_DENIED)
        } else {
            None
        }
    } else if s.len() == 2 {
        type_of_pair(s[0], s[1])
    } else {
        None
    }
}

/// The entry type that a code of two characters stands for.
pub open spec fn type_of_pair(a: u8, b: u8) -> Option<u8> {
    if a == 0x41 && b == 0x55 {
        Some(ACE_TYPE_SYSTEM_AUDIT)
    } else if a == 0x4f && b == 0x41 {
        Some(ACE_TYPE_ACCESS_ALLOWED_OBJECT)
    } else if a == 0x4f && b == 0x44 {
        Some(ACE_TYPE_ACCESS_DENIED_OBJECT)
    } else if a == 0x4f && b == 0x55 {
        Some(ACE_TYPE_SYSTEM_AUDIT_OBJECT)
    } else if a == 0x58 && b == 0x41 {
        Some(ACE_TYPE_ACCESS_ALLOWED_CALLBACK)
    } else if a == 0x58 && b == 0x44 {
        Some(ACE_TYPE_ACCESS_DENIED_CALLBACK)
    } else if a == 0x58 && b == 0x55 {
        Some(ACE_TYPE_SYSTEM_AUDIT_CALLBACK)
    } else if a == 0x5a && b == 0x41 {
        Some(ACE_TYPE_ACCESS_ALLOWED_CALLBACK_OBJECT)
    } else if a == 0x5a && b == 0x44 {
        Some(ACE_TYPE_ACCESS_DENIED_CALLBACK_OBJECT)
    } else if a == 0x5a && b == 0x55 {
        Some(ACE_TYPE_SYSTEM_AUDIT_CALLBACK_OBJECT)
    } else if a == 0x4d && b == 0x4c {
        Some(ACE_TYPE_SYSTEM_MANDATORY_LABEL)
    } else if a == 0x52 && b == 0x41 {
        Some(ACE_TYPE_SYSTEM_RESOURCE_ATTRIBUTE)
    } else if a == 0x53 && b == 0x50 {
        Some(ACE_TYPE_SYSTEM_SCOPED_POLICY_ID)
    } else {
        None
    }
}

fn find_type(a: u8, b: u8) -> (r: Option<u8>)
    ensures
        r == type_of_pair(a, b),
{
    match (a, b) {
        (0x41, 0x55) => Some(ACE_TYPE_SYSTEM_AUDIT),
        (0x4f, 0x41) => Some(ACE_TYPE_ACCESS_ALLOWED_OBJECT),
        (0x4f, 0x44) => Some(ACE_TYPE_ACCESS_DENIED_OBJECT),
        (0x4f, 0x55) => Some(ACE_TYPE_SYSTEM_AUDIT_OBJECT),
        (0x58, 0x41) => Some(ACE_TYPE_ACCESS_ALLOWED_CALLBACK),
        (0x58, 0x44) => Some(ACE_TYPE_ACCESS_DENIED_CALLBACK),
        (0x58, 0x55) => Some(ACE_TYPE_SYSTEM_AUDIT_CALLBACK),
        (0x5a, 0x41) => Some(ACE_TYPE_ACCESS_ALLOWED_CALLBACK_OBJECT),
        (0x5a, 0x44) => Some(ACE_TYPE_ACCESS_DENIED_CALLBACK_OBJECT),
        (0x5a, 0x55) => Some(ACE_TYPE_SYSTEM_AUDIT_CALLBACK_OBJECT),
        (0x4d, 0x4c) => Some(ACE_TYPE_SYSTEM_MANDATORY_LABEL),
        (0x52, 0x41) => Some(ACE_TYPE_SYSTEM_RESOURCE_ATTRIBUTE),
        (0x53, 0x50) => Some(ACE_TYPE_SYSTEM_SCOPED_POLICY_ID),
        _ => None,
    }
}

/// The entry type that a code stands for, if it is one.
pub fn ace_type_from_code(code: &[u8]) -> (t: Option<u8>)
    ensures
        t == type_of_code(code@),
{
    if code.len() == 1 {
        match code[0] {
            0x41 => Some(ACE_TYPE_ACCESS_ALLOWED),
            0x44 => Some(ACE_TYPE_ACCESS_DENIED),
            _ => None,
        }
    } else if code.len() == 2 {
        find_type(code[0], code[1])
    } else {
        None
    }
}

/// The code of an entry type.
pub open spec fn code_of_type(t: u8) -> Option<Seq<u8>> {
    if t == ACE_TYPE_ACCESS_ALLOWED {
        Some(seq![0x41u8])
    } else if t == ACE_TYPE_ACCESS_DENIED {
        Some(seq![0x44u8])
    } else if t == ACE_TYPE_SYSTEM_AUDIT {
        Some(seq![0x41u8, 0x55u8])
    } else if t == ACE_TYPE_ACCESS_ALLOWED_OBJECT {
        Some(seq![0x4fu8, 0x41u8])
    } else if t == ACE_TYPE_ACCESS_DENIED_OBJECT {
        Some(seq![0x4fu8, 0x44u8])
    } else if t == ACE_TYPE_SYSTEM_AUDIT_OBJECT {
        Some(seq![0x4fu8, 0x55u8])
    } else if t == ACE_TYPE_ACCESS_ALLOWED_CALLBACK {
        Some(seq![0x58u8, 0x41u8])
    } else if t == ACE_TYPE_ACCESS_DENIED_CALLBACK {
        Some(seq![0x58u8, 0x44u8])
    } else if t == ACE_TYPE_SYSTEM_AUDIT_CALLBACK {
        Some(seq![0x58u8, 0x55u8])
    } else if t == ACE_TYPE_ACCESS_ALLOWED_CALLBACK_OBJECT {
        Some(seq![0x5au8, 0x41u8])
    } else if t == ACE_TYPE_ACCESS_DENIED_CALLBACK_OBJECT {
        Some(seq![0x5au8, 0x44u8])
    } else if t == ACE_TYPE_SYSTEM_AUDIT_CALLBACK_OBJECT {
        Some(seq![0x5au8, 0x55u8])
    } else if t == ACE_TYPE_SYSTEM_MANDATORY_LABEL {
        Some(seq![0x4du8, 0x4cu8])
    } else if t == ACE_TYPE_SYSTEM_RESOURCE_ATTRIBUTE {
        Some(seq![0x52u8, 0x41u8])
    } else if t == ACE_TYPE_SYSTEM_SCOPED_POLICY_ID {
        Some(seq![0x53u8, 0x50u8])
    } else {
        None
    }
}

/// The code of an entry type, if it has one.
pub fn ace_code_from_type(t: u8) -> (code: Option<Vec<u8>>)
    ensures
        match code {
            Some(c) => code_of_type(t) == Some(c@),
            None => code_of_type(t) is None,
        },
{
    let (a, b): (u8, u8) = match t {
        ACE_TYPE_ACCESS_ALLOWED => (0x41, 0),
        ACE_TYPE_ACCESS_DENIED => (0x44, 0),
        ACE_TYPE_SYSTEM_AUDIT => (0x41, 0x55),
        ACE_TYPE_ACCESS_ALLOWED_OBJECT => (0x4f, 0x41),
        ACE_TYPE_ACCESS_DENIED_OBJECT => (0x4f, 0x44),
        ACE_TYPE_SYSTEM_AUDIT_OBJECT => (0x4f, 0x55),
        ACE_TYPE_ACCESS_ALLOWED_CALLBACK => (0x58, 0x41),
        ACE_TYPE_ACCESS_DENIED_CALLBACK => (0x58, 0x44),
        ACE_TYPE_SYSTEM_AUDIT_CALLBACK => (0x58, 0x55),
        ACE_TYPE_ACCESS_ALLOWED_CALLBACK_OBJECT => (0x5a, 0x41),
        ACE_TYPE_ACCESS_DENIED_CALLBACK_OBJECT => (0x5a, 0x44),
        ACE_TYPE_SYSTEM_AUDIT_CALLBACK_OBJECT => (0x5a, 0x55),
        ACE_TYPE_SYSTEM_MANDATORY_LABEL => (0x4d, 0x4c),
        ACE_TYPE_SYSTEM_RESOURCE_ATTRIBUTE => (0x52, 0x41),
        ACE_TYPE_SYSTEM_SCOPED_POLICY_ID => (0x53, 0x50),
        _ => return None,
    };
    let mut code: Vec<u8> = Vec::new();
    code.push(a);
    if b != 0 {
        code.push(b);
    }
    assert(code@ =~= code_of_type(t)->Some_0);
    Some(code)
}

/// Every entry type that has a code is found by that code.
pub proof fn law_type_codes(t: u8)
    ensures
        code_of_type(t) matches Some(c) ==> type_of_code(c) == Some(t),
{
}

/// The flag that a code stands for.
pub open spec fn flag_of_pair(a: u8, b: u8) -> Option<u8> {
    if a == 0x43 && b == 0x49 {
        Some(ACE_FLAG_CONTAINER_INHERIT)
    } else if a == 0x4f && b == 0x49 {
        Some(ACE_FLAG_OBJECT_INHERIT)
    } else if a == 0x4e && b == 0x50 {
        Some(ACE_FLAG_NO_PROPAGATE_INHERIT)
    } else if a == 0x49 && b == 0x4f {
        Some(ACE_FLAG_INHERIT_ONLY)
    } else if a == 0x49 && b == 0x44 {
        Some(ACE_FLAG_INHERITED)
    } else if a == 0x53 && b == 0x41 {
        Some(ACE_FLAG_SUCCESSFUL_ACCESS)
    } else if a == 0x46 && b == 0x41 {
        Some(ACE_FLAG_FAILED_ACCESS)
    } else {
        None
    }
}

/// The flag that a code stands for, if it is one.
pub fn ace_flag_from_code(code: Code) -> (flag: Option<u8>)
    ensures
        flag == flag_of_pair(code.first, code.second),
{
    match (code.first, code.second) {
        (0x43, 0x49) => Some(ACE_FLAG_CONTAINER_INHERIT),
        (0x4f, 0x49) => Some(ACE_FLAG_OBJECT_INHERIT),
        (0x4e, 0x50) => Some(ACE_FLAG_NO_PROPAGATE_INHERIT),
        (0x49, 0x4f) => Some(ACE_FLAG_INHERIT_ONLY),
        (0x49, 0x44) => Some(ACE_FLAG_INHERITED),
        (0x53, 0x41) => Some(ACE_FLAG_SUCCESSFUL_ACCESS),
        (0x46, 0x41) => Some(ACE_FLAG_FAILED_ACCESS),
        _ => None,
    }
}

/// The flags in the order in which they are written: container before object, success
/// before failure.
pub open spec fn flag_order() -> Seq<(Code, u8)> {
    seq![
        (Code { first: 0x43u8, second: 0x49u8 }, ACE_FLAG_CONTAINER_INHERIT),
        (Code { first: 0x4fu8, second: 0x49u8 }, ACE_FLAG_OBJECT_INHERIT),
        (Code { first: 0x4eu8, second: 0x50u8 }, ACE_FLAG_NO_PROPAGATE_INHERIT),
        (Code { first: 0x49u8, second: 0x4fu8 }, ACE_FLAG_INHERIT_ONLY),
        (Code { first: 0x49u8, second: 0x44u8 }, ACE_FLAG_INHERITED),
        (Code { first: 0x53u8, second: 0x41u8 }, ACE_FLAG_SUCCESSFUL_ACCESS),
        (Code { first: 0x46u8, second: 0x41u8 }, ACE_FLAG_FAILED_ACCESS),
    ]
}

pub fn ace_flag_format_order() -> (order: [(Code, u8); 7])
    ensures
        order@ == flag_order(),
{
    let order: [(Code, u8); 7] = [
        (Code { first: 0x43, second: 0x49 }, ACE_FLAG_CONTAINER_INHERIT),
        (Code { first: 0x4f, second: 0x49 }, ACE_FLAG_OBJECT_INHERIT),
        (Code { first: 0x4e, second: 0x50 }, ACE_FLAG_NO_PROPAGATE_INHERIT),
        (Code { first: 0x49, second: 0x4f }, ACE_FLAG_INHERIT_ONLY),
        (Code { first: 0x49, second: 0x44 }, ACE_FLAG_INHERITED),
        (Code { first: 0x53, second: 0x41 }, ACE_FLAG_SUCCESSFUL_ACCESS),
        (Code { first: 0x46, second: 0x41 }, ACE_FLAG_FAILED_ACCESS),
    ];
    assert(order@ =~= flag_order());
    order
}

/// The access rights that a code stands for.
pub open spec fn right_of_pair(a: u8, b: u8) -> Option<u32> {
    if a == 0x47 && b == 0x41 {
        Some(ACCESS_GENERIC_ALL)
    } else if a == 0x47 && b == 0x52 {
        Some(ACCESS_GENERIC_READ)
    } else if a == 0x47 && b == 0x57 {
        Some(ACCESS_GENERIC_WRITE)
    } else if a == 0x47 && b == 0x58 {
        Some(ACCESS_GENERIC_EXECUTE)
    } else if a == 0x53 && b == 0x44 {
        Some(ACCESS_DELETE)
    } else if a == 0x52 && b == 0x43 {
        Some(ACCESS_READ_CONTROL)
    } else if a == 0x57 && b == 0x44 {
        Some(ACCESS_WRITE_DAC)
    } else if a == 0x57 && b == 0x4f {
        Some(ACCESS_WRITE_OWNER)
    } else if a == 0x46 && b == 0x41 {
        Some(0x001F_01FF)
    } else if a == 0x46 && b == 0x52 {
        Some(0x0012_0089)
    } else if a == 0x46 && b == 0x57 {
        Some(0x0012_0116)
    } else if a == 0x46 && b == 0x58 {
        Some(0x0012_00A0)
    } else if a == 0x4b && b == 0x41 {
        Some(0x000F_003F)
    } else if a == 0x4b && b == 0x52 {
        Some(0x0002_0019)
    } else if a == 0x4b && b == 0x57 {
        Some(0x0002_0006)
    } else if a == 0x4b && b == 0x58 {
        Some(0x0002_0019)
    } else if a == 0x43 && b == 0x43 {
        Some(0x1)
    } else if a == 0x44 && b == 0x43 {
        Some(0x2)
    } else if a == 0x4c && b == 0x43 {
        Some(0x4)
    } else if a == 0x53 && b == 0x57 {
        Some(0x8)
    } else if a == 0x52 && b == 0x50 {
        Some(0x10)
    } else if a == 0x57 && b == 0x50 {
        Some(0x20)
    } else if a == 0x44 && b == 0x54 {
        Some(0x40)
    } else if a == 0x4c && b == 0x4f {
        Some(0x80)
    } else if a == 0x43 && b == 0x52 {
        Some(0x100)
    } else if a == 0x4e && b == 0x57 {
        Some(0x1)
    } else if a == 0x4e && b == 0x52 {
        Some(0x2)
    } else if a == 0x4e && b == 0x58 {
        Some(0x4)
    } else {
        None
    }
}

/// The access rights that a code stands for, if it is one.
pub fn right_from_code(code: Code) -> (mask: Option<u32>)
    ensures
        mask == right_of_pair(code.first, code.second),
{
    match (code.first, code.second) {
        (0x47, 0x41) => Some(ACCESS_GENERIC_ALL),
        (0x47, 0x52) => Some(ACCESS_GENERIC_READ),
        (0x47, 0x57) => Some(ACCESS_GENERIC_WRITE),
        (0x47, 0x58) => Some(ACCESS_GENERIC_EXECUTE),
        (0x53, 0x44) => Some(ACCESS_DELETE),
        (0x52, 0x43) => Some(ACCESS_READ_CONTROL),
        (0x57, 0x44) => Some(ACCESS_WRITE_DAC),
        (0x57, 0x4f) => Some(ACCESS_WRITE_OWNER),
        (0x46, 0x41) => Some(0x001F_01FF),
        (0x46, 0x52) => Some(0x0012_0089),
        (0x46, 0x57) => Some(0x0012_0116),
        (0x46, 0x58) => Some(0x0012_00A0),
        (0x4b, 0x41) => Some(0x000F_003F),
        (0x4b, 0x52) => Some(0x0002_0019),
        (0x4b, 0x57) => Some(0x0002_0006),
        (0x4b, 0x58) => Some(0x0002_0019),
        (0x43, 0x43) => Some(0x1),
        (0x44, 0x43) => Some(0x2),
        (0x4c, 0x43) => Some(0x4),
        (0x53, 0x57) => Some(0x8),
        (0x52, 0x50) => Some(0x10),
        (0x57, 0x50) => Some(0x20),
        (0x44, 0x54) => Some(0x40),
        (0x4c, 0x4f) => Some(0x80),
        (0x43, 0x52) => Some(0x100),
        (0x4e, 0x57) => Some(0x1),
        (0x4e, 0x52) => Some(0x2),
        (0x4e, 0x58) => Some(0x4),
        _ => None,
    }
}

/// The rights in the order in which they are tried when a mask is written: composites
/// first. Codes whose meaning depends on the object are left out.
pub open spec fn right_order() -> Seq<(Code, u32)> {
    seq![
        (Code { first: 0x46u8, second: 0x41u8 }, 0x001F_01FFu32),
        (Code { first: 0x46u8, second: 0x52u8 }, 0x0012_0089u32),
        (Code { first: 0x46u8, second: 0x57u8 }, 0x0012_0116u32),
        (Code { first: 0x46u8, second: 0x58u8 }, 0x0012_00A0u32),
        (Code { first: 0x4bu8, second: 0x41u8 }, 0x000F_003Fu32),
        (Code { first: 0x4bu8, second: 0x52u8 }, 0x0002_0019u32),
        (Code { first: 0x4bu8, second: 0x57u8 }, 0x0002_0006u32),
        (Code { first: 0x47u8, second: 0x41u8 }, ACCESS_GENERIC_ALL),
        (Code { first: 0x47u8, second: 0x52u8 }, ACCESS_GENERIC_READ),
        (Code { first: 0x47u8, second: 0x57u8 }, ACCESS_GENERIC_WRITE),
        (Code { first: 0x47u8, second: 0x58u8 }, ACCESS_GENERIC_EXECUTE),
        (Code { first: 0x53u8, second: 0x44u8 }, ACCESS_DELETE),
        (Code { first: 0x52u8, second: 0x43u8 }, ACCESS_READ_CONTROL),
        (Code { first: 0x57u8, second: 0x44u8 }, ACCESS_WRITE_DAC),
        (Code { first: 0x57u8, second: 0x4fu8 }, ACCESS_WRITE_OWNER),
    ]
}

pub fn rights_format_order() -> (order: [(Code, u32); 15])
    ensures
        order@ == right_order(),
{
    let order: [(Code, u32); 15] = [
        (Code { first: 0x46, second: 0x41 }, 0x001F_01FF),
        (Code { first: 0x46, second: 0x52 }, 0x0012_0089),
        (Code { first: 0x46, second: 0x57 }, 0x0012_0116),
        (Code { first: 0x46, second: 0x58 }, 0x0012_00A0),
        (Code { first: 0x4b, second: 0x41 }, 0x000F_003F),
        (Code { first: 0x4b, second: 0x52 }, 0x0002_0019),
        (Code { first: 0x4b, second: 0x57 }, 0x0002_0006),
        (Code { first: 0x47, second: 0x41 }, ACCESS_GENERIC_ALL),
        (Code { first: 0x47, second: 0x52 }, ACCESS_GENERIC_READ),
        (Code { first: 0x47, second: 0x57 }, ACCESS_GENERIC_WRITE),
        (Code { first: 0x47, second: 0x58 }, ACCESS_GENERIC_EXECUTE),
        (Code { first: 0x53, second: 0x44 }, ACCESS_DELETE),
        (Code { first: 0x52, second: 0x43 }, ACCESS_READ_CONTROL),
        (Code { first: 0x57, second: 0x44 }, ACCESS_WRITE_DAC),
        (Code { first: 0x57, second: 0x4f }, ACCESS_WRITE_OWNER),
    ];
    assert(order@ =~= right_order());
    order
}

/// How a two-letter name gives its SID: as a principal that the library knows, or by an
/// authority and one or two sub-authorities.
#[derive(Clone, Copy, Debug, PartialEq, Eq, Structural)]
pub enum AliasSid {
    WellKnown(WellKnownSid),
    Literal(u64, u32),
    Literal2(u64, u32, u32),
}

impl AliasSid {
    pub open spec fn sid(self) -> SidView {
        match self {
            AliasSid::WellKnown(w) => w.sid(),
            AliasSid::Literal(authority, sub) => SidView { authority, subs: seq![sub] },
            AliasSid::Literal2(authority, first, second) => SidView { authority, subs: seq![first, second] },
        }
    }

    /// The authority fits a SID.
    pub open spec fn wf(self) -> bool {
        match self {
            AliasSid::WellKnown(_) => true,
            AliasSid::Literal(authority, _) => authority <= 0xffff_ffff_ffff,
            AliasSid::Literal2(authority, _, _) => authority <= 0xffff_ffff_ffff,
        }
    }

    pub fn to_sid(self) -> (sid: Sid)
        requires
            self.wf(),
        ensures
            sid.wf(),
            sid@ == self.sid(),
    {
        match self {
            AliasSid::WellKnown(w) => w.to_sid(),
            AliasSid::Literal(authority, sub) => one(authority, sub),
            AliasSid::Literal2(authority, first, second) => two(authority, first, second),
        }
    }

    /// Whether a SID is the one that is named.
    pub fn matches(self, sid: &Sid) -> (same: bool)
        requires
            self.wf(),
        ensures
            same == (sid.revision == 1 && sid@ == self.sid()),
    {
        let own: Sid = self.to_sid();
        sid.revision == 1 && own.same(sid)
    }
}

/// The names of SIDs that are fixed, not relative to a domain or a machine.
pub open spec fn alias_table() -> Seq<(Code, AliasSid)> {
    seq![
        (Code { first: 0x57u8, second: 0x44u8 }, AliasSid::WellKnown(WellKnownSid::Everyone)),
        (Code { first: 0x41u8, second: 0x4eu8 }, AliasSid::WellKnown(WellKnownSid::Anonymous)),
        (Code { first: 0x41u8, second: 0x55u8 }, AliasSid::WellKnown(WellKnownSid::AuthenticatedUsers)),
        (Code { first: 0x49u8, second: 0x55u8 }, AliasSid::Literal(5, 4)),
        (Code { first: 0x4eu8, second: 0x55u8 }, AliasSid::Literal(5, 2)),
        (Code { first: 0x53u8, second: 0x55u8 }, AliasSid::WellKnown(WellKnownSid::Service)),
        (Code { first: 0x52u8, second: 0x43u8 }, AliasSid::Literal(5, 12)),
        (Code { first: 0x57u8, second: 0x52u8 }, AliasSid::Literal(5, 33)),
        (Code { first: 0x50u8, second: 0x53u8 }, AliasSid::Literal(5, 10)),
        (Code { first: 0x45u8, second: 0x44u8 }, AliasSid::Literal(5, 9)),
        (Code { first: 0x43u8, second: 0x4fu8 }, AliasSid::WellKnown(WellKnownSid::CreatorOwner)),
        (Code { first: 0x43u8, second: 0x47u8 }, AliasSid::WellKnown(WellKnownSid::CreatorGroup)),
        (Code { first: 0x4fu8, second: 0x57u8 }, AliasSid::Literal(3, 4)),
        (Code { first: 0x41u8, second: 0x43u8 }, AliasSid::Literal2(15, 2, 1)),
        (Code { first: 0x53u8, second: 0x59u8 }, AliasSid::WellKnown(WellKnownSid::LocalSystem)),
        (Code { first: 0x4cu8, second: 0x53u8 }, AliasSid::WellKnown(WellKnownSid::LocalService)),
        (Code { first: 0x4eu8, second: 0x53u8 }, AliasSid::WellKnown(WellKnownSid::NetworkService)),
        (Code { first: 0x4cu8, second: 0x57u8 }, AliasSid::WellKnown(WellKnownSid::LowIl)),
        (Code { first: 0x4du8, second: 0x45u8 }, AliasSid::WellKnown(WellKnownSid::MediumIl)),
        (Code { first: 0x4du8, second: 0x50u8 }, AliasSid::WellKnown(WellKnownSid::MediumPlusIl)),
        (Code { first: 0x48u8, second: 0x49u8 }, AliasSid::WellKnown(WellKnownSid::HighIl)),
        (Code { first: 0x53u8, second: 0x49u8 }, AliasSid::WellKnown(WellKnownSid::SystemIl)),
        (Code { first: 0x42u8, second: 0x41u8 }, AliasSid::WellKnown(WellKnownSid::BuiltinAdministrators)),
        (Code { first: 0x42u8, second: 0x55u8 }, AliasSid::WellKnown(WellKnownSid::BuiltinUsers)),
        (Code { first: 0x42u8, second: 0x47u8 }, AliasSid::Literal2(5, 32, 546)),
        (Code { first: 0x50u8, second: 0x55u8 }, AliasSid::Literal2(5, 32, 547)),
        (Code { first: 0x41u8, second: 0x4fu8 }, AliasSid::Literal2(5, 32, 548)),
        (Code { first: 0x53u8, second: 0x4fu8 }, AliasSid::Literal2(5, 32, 549)),
        (Code { first: 0x50u8, second: 0x4fu8 }, AliasSid::Literal2(5, 32, 550)),
        (Code { first: 0x42u8, second: 0x4fu8 }, AliasSid::Literal2(5, 32, 551)),
        (Code { first: 0x52u8, second: 0x45u8 }, AliasSid::Literal2(5, 32, 552)),
        (Code { first: 0x52u8, second: 0x55u8 }, AliasSid::Literal2(5, 32, 554)),
        (Code { first: 0x52u8, second: 0x44u8 }, AliasSid::Literal2(5, 32, 555)),
        (Code { first: 0x4eu8, second: 0x4fu8 }, AliasSid::Literal2(5, 32, 556)),
        (Code { first: 0x4du8, second: 0x55u8 }, AliasSid::Literal2(5, 32, 558)),
        (Code { first: 0x4cu8, second: 0x55u8 }, AliasSid::Literal2(5, 32, 559)),
        (Code { first: 0x49u8, second: 0x53u8 }, AliasSid::Literal2(5, 32, 568)),
        (Code { first: 0x43u8, second: 0x59u8 }, AliasSid::Literal2(5, 32, 569)),
        (Code { first: 0x45u8, second: 0x52u8 }, AliasSid::Literal2(5, 32, 573)),
        (Code { first: 0x43u8, second: 0x44u8 }, AliasSid::Literal2(5, 32, 574)),
        (Code { first: 0x52u8, second: 0x41u8 }, AliasSid::Literal2(5, 32, 575)),
        (Code { first: 0x45u8, second: 0x53u8 }, AliasSid::Literal2(5, 32, 576)),
        (Code { first: 0x4du8, second: 0x53u8 }, AliasSid::Literal2(5, 32, 577)),
        (Code { first: 0x48u8, second: 0x41u8 }, AliasSid::Literal2(5, 32, 578)),
        (Code { first: 0x41u8, second: 0x41u8 }, AliasSid::Literal2(5, 32, 579)),
        (Code { first: 0x52u8, second: 0x4du8 }, AliasSid::Literal2(5, 32, 580)),
    ]
}

fn alias_list() -> (list: [(Code, AliasSid); 46])
    ensures
        list@ == alias_table(),
{
    let list: [(Code, AliasSid); 46] = [
        (Code { first: 0x57, second: 0x44 }, AliasSid::WellKnown(WellKnownSid::Everyone)),
        (Code { first: 0x41, second: 0x4e }, AliasSid::WellKnown(WellKnownSid::Anonymous)),
        (Code { first: 0x41, second: 0x55 }, AliasSid::WellKnown(WellKnownSid::AuthenticatedUsers)),
        (Code { first: 0x49, second: 0x55 }, AliasSid::Literal(5, 4)),
        (Code { first: 0x4e, second: 0x55 }, AliasSid::Literal(5, 2)),
        (Code { first: 0x53, second: 0x55 }, AliasSid::WellKnown(WellKnownSid::Service)),
        (Code { first: 0x52, second: 0x43 }, AliasSid::Literal(5, 12)),
        (Code { first: 0x57, second: 0x52 }, AliasSid::Literal(5, 33)),
        (Code { first: 0x50, second: 0x53 }, AliasSid::Literal(5, 10)),
        (Code { first: 0x45, second: 0x44 }, AliasSid::Literal(5, 9)),
        (Code { first: 0x43, second: 0x4f }, AliasSid::WellKnown(WellKnownSid::CreatorOwner)),
        (Code { first: 0x43, second: 0x47 }, AliasSid::WellKnown(WellKnownSid::CreatorGroup)),
        (Code { first: 0x4f, second: 0x57 }, AliasSid::Literal(3, 4)),
        (Code { first: 0x41, second: 0x43 }, AliasSid::Literal2(15, 2, 1)),
        (Code { first: 0x53, second: 0x59 }, AliasSid::WellKnown(WellKnownSid::LocalSystem)),
        (Code { first: 0x4c, second: 0x53 }, AliasSid::WellKnown(WellKnownSid::LocalService)),
        (Code { first: 0x4e, second: 0x53 }, AliasSid::WellKnown(WellKnownSid::NetworkService)),
        (Code { first: 0x4c, second: 0x57 }, AliasSid::WellKnown(WellKnownSid::LowIl)),
        (Code { first: 0x4d, second: 0x45 }, AliasSid::WellKnown(WellKnownSid::MediumIl)),
        (Code { first: 0x4d, second: 0x50 }, AliasSid::WellKnown(WellKnownSid::MediumPlusIl)),
        (Code { first: 0x48, second: 0x49 }, AliasSid::WellKnown(WellKnownSid::HighIl)),
        (Code { first: 0x53, second: 0x49 }, AliasSid::WellKnown(WellKnownSid::SystemIl)),
        (Code { first: 0x42, second: 0x41 }, AliasSid::WellKnown(WellKnownSid::BuiltinAdministrators)),
        (Code { first: 0x42, second: 0x55 }, AliasSid::WellKnown(WellKnownSid::BuiltinUsers)),
        (Code { first: 0x42, second: 0x47 }, AliasSid::Literal2(5, 32, 546)),
        (Code { first: 0x50, second: 0x55 }, AliasSid::Literal2(5, 32, 547)),
        (Code { first: 0x41, second: 0x4f }, AliasSid::Literal2(5, 32, 548)),
        (Code { first: 0x53, second: 0x4f }, AliasSid::Literal2(5, 32, 549)),
        (Code { first: 0x50, second: 0x4f }, AliasSid::Literal2(5, 32, 550)),
        (Code { first: 0x42, second: 0x4f }, AliasSid::Literal2(5, 32, 551)),
        (Code { first: 0x52, second: 0x45 }, AliasSid::Literal2(5, 32, 552)),
        (Code { first: 0x52, second: 0x55 }, AliasSid::Literal2(5, 32, 554)),
        (Code { first: 0x52, second: 0x44 }, AliasSid::Literal2(5, 32, 555)),
        (Code { first: 0x4e, second: 0x4f }, AliasSid::Literal2(5, 32, 556)),
        (Code { first: 0x4d, second: 0x55 }, AliasSid::Literal2(5, 32, 558)),
        (Code { first: 0x4c, second: 0x55 }, AliasSid::Literal2(5, 32, 559)),
        (Code { first: 0x49, second: 0x53 }, AliasSid::Literal2(5, 32, 568)),
        (Code { first: 0x43, second: 0x59 }, AliasSid::Literal2(5, 32, 569)),
        (Code { first: 0x45, second: 0x52 }, AliasSid::Literal2(5, 32, 573)),
        (Code { first: 0x43, second: 0x44 }, AliasSid::Literal2(5, 32, 574)),
        (Code { first: 0x52, second: 0x41 }, AliasSid::Literal2(5, 32, 575)),
        (Code { first: 0x45, second: 0x53 }, AliasSid::Literal2(5, 32, 576)),
        (Code { first: 0x4d, second: 0x53 }, AliasSid::Literal2(5, 32, 577)),
        (Code { first: 0x48, second: 0x41 }, AliasSid::Literal2(5, 32, 578)),
        (Code { first: 0x41, second: 0x41 }, AliasSid::Literal2(5, 32, 579)),
        (Code { first: 0x52, second: 0x4d }, AliasSid::Literal2(5, 32, 580)),
    ];
    assert(list@ =~= alias_table());
    list
}

/// The first index of the table at which a name stands.
pub open spec fn alias_index(c: Code, from: int) -> Option<int>
    decreases alias_table().len() - from,
{
    if from < 0 || from >= alias_table().len() {
        None
    } else if alias_table()[from].0 == c {
        Some(from)
    } else {
        alias_index(c, from + 1)
    }
}

/// The SID that a name stands for.
pub open spec fn sid_of_alias(c: Code) -> Option<SidView> {
    match alias_index(c, 0) {
        Some(i) => Some(alias_table()[i].1.sid()),
        None => None,
    }
}

/// The first index of the table at which a SID stands.
pub open spec fn sid_index(v: SidView, from: int) -> Option<int>
    decreases alias_table().len() - from,
{
    if from < 0 || from >= alias_table().len() {
        None
    } else if alias_table()[from].1.sid() == v {
        Some(from)
    } else {
        sid_index(v, from + 1)
    }
}

/// The name of a SID.
pub open spec fn alias_of_sid(v: SidView) -> Option<Code> {
    match sid_index(v, 0) {
        Some(i) => Some(alias_table()[i].0),
        None => None,
    }
}

/// All SIDs of the table fit the binary layout.
proof fn lemma_table_wf(i: int)
    requires
        0 <= i < alias_table().len(),
    ensures
        alias_table()[i].1.wf(),
{
}

/// The SID that a name stands for, if it is one.
pub fn sid_from_alias(alias: Code) -> (sid: Option<Sid>)
    ensures
        match sid {
            Some(s) => s.wf() && sid_of_alias(alias) == Some(s@),
            None => sid_of_alias(alias) is None,
        },
{
    let list = alias_list();
    let mut i: usize = 0;
    while i < list.len()
        invariant
            i <= list@.len(),
            list@ == alias_table(),
            alias_index(alias, 0) == alias_index(alias, i as int),
        decreases list@.len() - i,
    {
        if list[i].0.first == alias.first && list[i].0.second == alias.second {
            proof {
                lemma_table_wf(i as int);
            }
            return Some(list[i].1.to_sid());
        }
        i = i + 1;
    }
    None
}

/// The name of a SID, if it has one.
pub fn alias_from_sid(sid: &Sid) -> (alias: Option<Code>)
    requires
        sid.wf(),
    ensures
        alias == alias_of_sid(sid@),
{
    let list = alias_list();
    let mut i: usize = 0;
    while i < list.len()
        invariant
            i <= list@.len(),
            list@ == alias_table(),
            sid.wf(),
            sid_index(sid@, 0) == sid_index(sid@, i as int),
        decreases list@.len() - i,
    {
        proof {
            lemma_table_wf(i as int);
        }
        if list[i].1.matches(sid) {
            return Some(list[i].0);
        }
        i = i + 1;
    }
    None
}

/// Names that are relative to a domain or a machine.
pub open spec fn relative_pair(a: u8, b: u8) -> bool {
    if a == 0x44 && b == 0x41 {
        true
    } else if a == 0x44 && b == 0x47 {
        true
    } else if a == 0x44 && b == 0x55 {
        true
    } else if a == 0x44 && b == 0x44 {
        true
    } else if a == 0x44 && b == 0x43 {
        true
    } else if a == 0x4c && b == 0x41 {
        true
    } else if a == 0x4c && b == 0x47 {
        true
    } else if a == 0x53 && b == 0x41 {
        true
    } else if a == 0x45 && b == 0x41 {
        true
    } else if a == 0x52 && b == 0x4f {
        true
    } else if a == 0x43 && b == 0x41 {
        true
    } else if a == 0x50 && b == 0x41 {
        true
    } else if a == 0x43 && b == 0x4e {
        true
    } else if a == 0x52 && b == 0x53 {
        true
    } else if a == 0x41 && b == 0x50 {
        true
    } else if a == 0x4b && b == 0x41 {
        true
    } else if a == 0x45 && b == 0x4b {
        true
    } else {
        false
    }
}

/// Whether a name is relative to a domain or a machine.
pub fn is_domain_relative_alias(alias: Code) -> (relative: bool)
    ensures
        relative == relative_pair(alias.first, alias.second),
{
    match (alias.first, alias.second) {
        (0x44, 0x41) => true,
        (0x44, 0x47) => true,
        (0x44, 0x55) => true,
        (0x44, 0x44) => true,
        (0x44, 0x43) => true,
        (0x4c, 0x41) => true,
        (0x4c, 0x47) => true,
        (0x53, 0x41) => true,
        (0x45, 0x41) => true,
        (0x52, 0x4f) => true,
        (0x43, 0x41) => true,
        (0x50, 0x41) => true,
        (0x43, 0x4e) => true,
        (0x52, 0x53) => true,
        (0x41, 0x50) => true,
        (0x4b, 0x41) => true,
        (0x45, 0x4b) => true,
        _ => false,
    }
}

/// Where in the table a name stands.
spec fn slot_of_code(c: Code) -> int {
    if c.first == 0x57 && c.second == 0x44 {
        0
    } else if c.first == 0x41 && c.second == 0x4e {
        1
    } else if c.first == 0x41 && c.second == 0x55 {
        2
    } else if c.first == 0x49 && c.second == 0x55 {
        3
    } else if c.first == 0x4e && c.second == 0x55 {
        4
    } else if c.first == 0x53 && c.second == 0x55 {
        5
    } else if c.first == 0x52 && c.second == 0x43 {
        6
    } else if c.first == 0x57 && c.second == 0x52 {
        7
    } else if c.first == 0x50 && c.second == 0x53 {
        8
    } else if c.first == 0x45 && c.second == 0x44 {
        9
    } else if c.first == 0x43 && c.second == 0x4f {
        10
    } else if c.first == 0x43 && c.second == 0x47 {
        11
    } else if c.first == 0x4f && c.second == 0x57 {
        12
    } else if c.first == 0x41 && c.second == 0x43 {
        13
    } else if c.first == 0x53 && c.second == 0x59 {
        14
    } else if c.first == 0x4c && c.second == 0x53 {
        15
    } else if c.first == 0x4e && c.second == 0x53 {
        16
    } else if c.first == 0x4c && c.second == 0x57 {
        17
    } else if c.first == 0x4d && c.second == 0x45 {
        18
    } else if c.first == 0x4d && c.second == 0x50 {
        19
    } else if c.first == 0x48 && c.second == 0x49 {
        20
    } else if c.first == 0x53 && c.second == 0x49 {
        21
    } else if c.first == 0x42 && c.second == 0x41 {
        22
    } else if c.first == 0x42 && c.second == 0x55 {
        23
    } else if c.first == 0x42 && c.second == 0x47 {
        24
    } else if c.first == 0x50 && c.second == 0x55 {
        25
    } else if c.first == 0x41 && c.second == 0x4f {
        26
    } else if c.first == 0x53 && c.second == 0x4f {
        27
    } else if c.first == 0x50 && c.second == 0x4f {
        28
    } else if c.first == 0x42 && c.second == 0x4f {
        29
    } else if c.first == 0x52 && c.second == 0x45 {
        30
    } else if c.first == 0x52 && c.second == 0x55 {
        31
    } else if c.first == 0x52 && c.second == 0x44 {
        32
    } else if c.first == 0x4e && c.second == 0x4f {
        33
    } else if c.first == 0x4d && c.second == 0x55 {
        34
    } else if c.first == 0x4c && c.second == 0x55 {
        35
    } else if c.first == 0x49 && c.second == 0x53 {
        36
    } else if c.first == 0x43 && c.second == 0x59 {
        37
    } else if c.first == 0x45 && c.second == 0x52 {
        38
    } else if c.first == 0x43 && c.second == 0x44 {
        39
    } else if c.first == 0x52 && c.second == 0x41 {
        40
    } else if c.first == 0x45 && c.second == 0x53 {
        41
    } else if c.first == 0x4d && c.second == 0x53 {
        42
    } else if c.first == 0x48 && c.second == 0x41 {
        43
    } else if c.first == 0x41 && c.second == 0x41 {
        44
    } else if c.first == 0x52 && c.second == 0x4d {
        45
    } else {
        -1
    }
}

/// Where in the table a SID stands.
spec fn slot_of_sid(v: SidView) -> int {
    let a = v.authority;
    let n = v.subs.len();
    let x = v.subs[0];
    let y = v.subs[1];
    if a == 1 && n == 1 && x == 0 {
        0
    } else if a == 5 && n == 1 && x == 7 {
        1
    } else if a == 5 && n == 1 && x == 11 {
        2
    } else if a == 5 && n == 1 && x == 4 {
        3
    } else if a == 5 && n == 1 && x == 2 {
        4
    } else if a == 5 && n == 1 && x == 6 {
        5
    } else if a == 5 && n == 1 && x == 12 {
        6
    } else if a == 5 && n == 1 && x == 33 {
        7
    } else if a == 5 && n == 1 && x == 10 {
        8
    } else if a == 5 && n == 1 && x == 9 {
        9
    } else if a == 3 && n == 1 && x == 0 {
        10
    } else if a == 3 && n == 1 && x == 1 {
        11
    } else if a == 3 && n == 1 && x == 4 {
        12
    } else if a == 15 && n == 2 && x == 2 && y == 1 {
        13
    } else if a == 5 && n == 1 && x == 18 {
        14
    } else if a == 5 && n == 1 && x == 19 {
        15
    } else if a == 5 && n == 1 && x == 20 {
        16
    } else if a == 16 && n == 1 && x == 4096 {
        17
    } else if a == 16 && n == 1 && x == 8192 {
        18
    } else if a == 16 && n == 1 && x == 8448 {
        19
    } else if a == 16 && n == 1 && x == 12288 {
        20
    } else if a == 16 && n == 1 && x == 16384 {
        21
    } else if a == 5 && n == 2 && x == 32 && y == 544 {
        22
    } else if a == 5 && n == 2 && x == 32 && y == 545 {
        23
    } else if a == 5 && n == 2 && x == 32 && y == 546 {
        24
    } else if a == 5 && n == 2 && x == 32 && y == 547 {
        25
    } else if a == 5 && n == 2 && x == 32 && y == 548 {
        26
    } else if a == 5 && n == 2 && x == 32 && y == 549 {
        27
    } else if a == 5 && n == 2 && x == 32 && y == 550 {
        28
    } else if a == 5 && n == 2 && x == 32 && y == 551 {
        29
    } else if a == 5 && n == 2 && x == 32 && y == 552 {
        30
    } else if a == 5 && n == 2 && x == 32 && y == 554 {
        31
    } else if a == 5 && n == 2 && x == 32 && y == 555 {
        32
    } else if a == 5 && n == 2 && x == 32 && y == 556 {
        33
    } else if a == 5 && n == 2 && x == 32 && y == 558 {
        34
    } else if a == 5 && n == 2 && x == 32 && y == 559 {
        35
    } else if a == 5 && n == 2 && x == 32 && y == 568 {
        36
    } else if a == 5 && n == 2 && x == 32 && y == 569 {
        37
    } else if a == 5 && n == 2 && x == 32 && y == 573 {
        38
    } else if a == 5 && n == 2 && x == 32 && y == 574 {
        39
    } else if a == 5 && n == 2 && x == 32 && y == 575 {
        40
    } else if a == 5 && n == 2 && x == 32 && y == 576 {
        41
    } else if a == 5 && n == 2 && x == 32 && y == 577 {
        42
    } else if a == 5 && n == 2 && x == 32 && y == 578 {
        43
    } else if a == 5 && n == 2 && x == 32 && y == 579 {
        44
    } else if a == 5 && n == 2 && x == 32 && y == 580 {
        45
    } else {
        -1
    }
}

/// No name and no SID stands in the table twice.
#[verifier::spinoff_prover]
#[verifier::rlimit(60)]
proof fn lemma_slots(i: int)
    requires
        0 <= i < alias_table().len(),
    ensures
        slot_of_code(alias_table()[i].0) == i,
        slot_of_sid(alias_table()[i].1.sid()) == i,
{
}

/// A name is found where it stands.
proof fn lemma_alias_index(i: int, from: int)
    requires
        0 <= from <= i < alias_table().len(),
    ensures
        alias_index(alias_table()[i].0, from) == Some(i),
    decreases i - from,
{
    lemma_slots(i);
    lemma_slots(from);
    if from < i {
        lemma_alias_index(i, from + 1);
    }
}

/// A SID is found where it stands.
proof fn lemma_sid_index(i: int, from: int)
    requires
        0 <= from <= i < alias_table().len(),
    ensures
        sid_index(alias_table()[i].1.sid(), from) == Some(i),
    decreases i - from,
{
    lemma_slots(i);
    lemma_slots(from);
    if from < i {
        lemma_sid_index(i, from + 1);
    }
}

/// An index that is found holds what was looked for.
proof fn lemma_indices_hold(c: Code, v: SidView, from: int)
    requires
        0 <= from,
    ensures
        alias_index(c, from) matches Some(i) ==> from <= i < alias_table().len() && alias_table()[i].0 == c,
        sid_index(v, from) matches Some(i) ==> from <= i < alias_table().len() && alias_table()[i].1.sid() == v,
    decreases alias_table().len() - from,
{
    if from < alias_table().len() {
        lemma_indices_hold(c, v, from + 1);
    }
}

/// Names and SIDs go together one to one: a name's SID has that name, and a SID's name
/// stands for that SID.
pub proof fn law_aliases_are_a_bijection(c: Code, v: SidView)
    ensures
        sid_of_alias(c) matches Some(s) ==> alias_of_sid(s) == Some(c) && s.wf(),
        alias_of_sid(v) matches Some(a) ==> sid_of_alias(a) == Some(v),
{
    lemma_indices_hold(c, v, 0);
    if let Some(i) = alias_index(c, 0) {
        lemma_sid_index(i, 0);
        lemma_table_wf(i);
    }
    if let Some(i) = sid_index(v, 0) {
        lemma_alias_index(i, 0);
    }
}

/// Names are two capital letters.
pub proof fn lemma_aliases_are_capitals(c: Code)
    requires
        sid_of_alias(c) is Some,
    ensures
        0x41 <= c.first <= 0x5a,
        0x41 <= c.second <= 0x5a,
{
    lemma_indices_hold(c, SidView { authority: 0, subs: Seq::empty() }, 0);
    if let Some(i) = alias_index(c, 0) {
        lemma_slots(i);
    }
}

/// No name is both fixed and relative.
#[verifier::spinoff_prover]
pub proof fn law_aliases_are_not_relative(c: Code)
    ensures
        sid_of_alias(c) is Some ==> !relative_pair(c.first, c.second),
{
    lemma_indices_hold(c, SidView { authority: 0, subs: Seq::empty() }, 0);
    if let Some(i) = alias_index(c, 0) {
        lemma_slots(i);
    }
}

/// Which SID each name stands for.
#[verifier::spinoff_prover]
#[verifier::rlimit(60)]
pub proof fn law_names_by_number()
    ensures
        sid_of_alias(Code { first: 0x57, second: 0x44 }) == Some(SidView { authority: 1, subs: seq![0u32] }),
        sid_of_alias(Code { first: 0x41, second: 0x4e }) == Some(SidView { authority: 5, subs: seq![7u32] }),
        sid_of_alias(Code { first: 0x41, second: 0x55 }) == Some(SidView { authority: 5, subs: seq![11u32] }),
        sid_of_alias(Code { first: 0x49, second: 0x55 }) == Some(SidView { authority: 5, subs: seq![4u32] }),
        sid_of_alias(Code { first: 0x4e, second: 0x55 }) == Some(SidView { authority: 5, subs: seq![2u32] }),
        sid_of_alias(Code { first: 0x53, second: 0x55 }) == Some(SidView { authority: 5, subs: seq![6u32] }),
        sid_of_alias(Code { first: 0x52, second: 0x43 }) == Some(SidView { authority: 5, subs: seq![12u32] }),
        sid_of_alias(Code { first: 0x57, second: 0x52 }) == Some(SidView { authority: 5, subs: seq![33u32] }),
        sid_of_alias(Code { first: 0x50, second: 0x53 }) == Some(SidView { authority: 5, subs: seq![10u32] }),
        sid_of_alias(Code { first: 0x45, second: 0x44 }) == Some(SidView { authority: 5, subs: seq![9u32] }),
        sid_of_alias(Code { first: 0x43, second: 0x4f }) == Some(SidView { authority: 3, subs: seq![0u32] }),
        sid_of_alias(Code { first: 0x43, second: 0x47 }) == Some(SidView { authority: 3, subs: seq![1u32] }),
        sid_of_alias(Code { first: 0x4f, second: 0x57 }) == Some(SidView { authority: 3, subs: seq![4u32] }),
        sid_of_alias(Code { first: 0x41, second: 0x43 }) == Some(SidView { authority: 15, subs: seq![2u32, 1u32] }),
        sid_of_alias(Code { first: 0x53, second: 0x59 }) == Some(SidView { authority: 5, subs: seq![18u32] }),
        sid_of_alias(Code { first: 0x4c, second: 0x53 }) == Some(SidView { authority: 5, subs: seq![19u32] }),
        sid_of_alias(Code { first: 0x4e, second: 0x53 }) == Some(SidView { authority: 5, subs: seq![20u32] }),
        sid_of_alias(Code { first: 0x4c, second: 0x57 }) == Some(SidView { authority: 16, subs: seq![4096u32] }),
        sid_of_alias(Code { first: 0x4d, second: 0x45 }) == Some(SidView { authority: 16, subs: seq![8192u32] }),
        sid_of_alias(Code { first: 0x4d, second: 0x50 }) == Some(SidView { authority: 16, subs: seq![8448u32] }),
        sid_of_alias(Code { first: 0x48, second: 0x49 }) == Some(SidView { authority: 16, subs: seq![12288u32] }),
        sid_of_alias(Code { first: 0x53, second: 0x49 }) == Some(SidView { authority: 16, subs: seq![16384u32] }),
        sid_of_alias(Code { first: 0x42, second: 0x41 }) == Some(SidView { authority: 5, subs: seq![32u32, 544u32] }),
        sid_of_alias(Code { first: 0x42, second: 0x55 }) == Some(SidView { authority: 5, subs: seq![32u32, 545u32] }),
        sid_of_alias(Code { first: 0x42, second: 0x47 }) == Some(SidView { authority: 5, subs: seq![32u32, 546u32] }),
        sid_of_alias(Code { first: 0x50, second: 0x55 }) == Some(SidView { authority: 5, subs: seq![32u32, 547u32] }),
        sid_of_alias(Code { first: 0x41, second: 0x4f }) == Some(SidView { authority: 5, subs: seq![32u32, 548u32] }),
        sid_of_alias(Code { first: 0x53, second: 0x4f }) == Some(SidView { authority: 5, subs: seq![32u32, 549u32] }),
        sid_of_alias(Code { first: 0x50, second: 0x4f }) == Some(SidView { authority: 5, subs: seq![32u32, 550u32] }),
        sid_of_alias(Code { first: 0x42, second: 0x4f }) == Some(SidView { authority: 5, subs: seq![32u32, 551u32] }),
        sid_of_alias(Code { first: 0x52, second: 0x45 }) == Some(SidView { authority: 5, subs: seq![32u32, 552u32] }),
        sid_of_alias(Code { first: 0x52, second: 0x55 }) == Some(SidView { authority: 5, subs: seq![32u32, 554u32] }),
        sid_of_alias(Code { first: 0x52, second: 0x44 }) == Some(SidView { authority: 5, subs: seq![32u32, 555u32] }),
        sid_of_alias(Code { first: 0x4e, second: 0x4f }) == Some(SidView { authority: 5, subs: seq![32u32, 556u32] }),
        sid_of_alias(Code { first: 0x4d, second: 0x55 }) == Some(SidView { authority: 5, subs: seq![32u32, 558u32] }),
        sid_of_alias(Code { first: 0x4c, second: 0x55 }) == Some(SidView { authority: 5, subs: seq![32u32, 559u32] }),
        sid_of_alias(Code { first: 0x49, second: 0x53 }) == Some(SidView { authority: 5, subs: seq![32u32, 568u32] }),
        sid_of_alias(Code { first: 0x43, second: 0x59 }) == Some(SidView { authority: 5, subs: seq![32u32, 569u32] }),
        sid_of_alias(Code { first: 0x45, second: 0x52 }) == Some(SidView { authority: 5, subs: seq![32u32, 573u32] }),
        sid_of_alias(Code { first: 0x43, second: 0x44 }) == Some(SidView { authority: 5, subs: seq![32u32, 574u32] }),
        sid_of_alias(Code { first: 0x52, second: 0x41 }) == Some(SidView { authority: 5, subs: seq![32u32, 575u32] }),
        sid_of_alias(Code { first: 0x45, second: 0x53 }) == Some(SidView { authority: 5, subs: seq![32u32, 576u32] }),
        sid_of_alias(Code { first: 0x4d, second: 0x53 }) == Some(SidView { authority: 5, subs: seq![32u32, 577u32] }),
        sid_of_alias(Code { first: 0x48, second: 0x41 }) == Some(SidView { authority: 5, subs: seq![32u32, 578u32] }),
        sid_of_alias(Code { first: 0x41, second: 0x41 }) == Some(SidView { authority: 5, subs: seq![32u32, 579u32] }),
        sid_of_alias(Code { first: 0x52, second: 0x4d }) == Some(SidView { authority: 5, subs: seq![32u32, 580u32] }),
{
    lemma_alias_index(0, 0);
    lemma_alias_index(1, 0);
    lemma_alias_index(2, 0);
    lemma_alias_index(3, 0);
    lemma_alias_index(4, 0);
    lemma_alias_index(5, 0);
    lemma_alias_index(6, 0);
    lemma_alias_index(7, 0);
    lemma_alias_index(8, 0);
    lemma_alias_index(9, 0);
    lemma_alias_index(10, 0);
    lemma_alias_index(11, 0);
    lemma_alias_index(12, 0);
    lemma_alias_index(13, 0);
    lemma_alias_index(14, 0);
    lemma_alias_index(15, 0);
    lemma_alias_index(16, 0);
    lemma_alias_index(17, 0);
    lemma_alias_index(18, 0);
    lemma_alias_index(19, 0);
    lemma_alias_index(20, 0);
    lemma_alias_index(21, 0);
    lemma_alias_index(22, 0);
    lemma_alias_index(23, 0);
    lemma_alias_index(24, 0);
    lemma_alias_index(25, 0);
    lemma_alias_index(26, 0);
    lemma_alias_index(27, 0);
    lemma_alias_index(28, 0);
    lemma_alias_index(29, 0);
    lemma_alias_index(30, 0);
    lemma_alias_index(31, 0);
    lemma_alias_index(32, 0);
    lemma_alias_index(33, 0);
    lemma_alias_index(34, 0);
    lemma_alias_index(35, 0);
    lemma_alias_index(36, 0);
    lemma_alias_index(37, 0);
    lemma_alias_index(38, 0);
    lemma_alias_index(39, 0);
    lemma_alias_index(40, 0);
    lemma_alias_index(41, 0);
    lemma_alias_index(42, 0);
    lemma_alias_index(43, 0);
    lemma_alias_index(44, 0);
    lemma_alias_index(45, 0);
}

/// No other name stands for a SID.
pub proof fn law_no_other_names(c: Code)
    ensures
        sid_of_alias(c) is Some ==> {
            ||| c.first == 0x57 && c.second == 0x44
            ||| c.first == 0x41 && c.second == 0x4e
            ||| c.first == 0x41 && c.second == 0x55
            ||| c.first == 0x49 && c.second == 0x55
            ||| c.first == 0x4e && c.second == 0x55
            ||| c.first == 0x53 && c.second == 0x55
            ||| c.first == 0x52 && c.second == 0x43
            ||| c.first == 0x57 && c.second == 0x52
            ||| c.first == 0x50 && c.second == 0x53
            ||| c.first == 0x45 && c.second == 0x44
            ||| c.first == 0x43 && c.second == 0x4f
            ||| c.first == 0x43 && c.second == 0x47
            ||| c.first == 0x4f && c.second == 0x57
            ||| c.first == 0x41 && c.second == 0x43
            ||| c.first == 0x53 && c.second == 0x59
            ||| c.first == 0x4c && c.second == 0x53
            ||| c.first == 0x4e && c.second == 0x53
            ||| c.first == 0x4c && c.second == 0x57
            ||| c.first == 0x4d && c.second == 0x45
            ||| c.first == 0x4d && c.second == 0x50
            ||| c.first == 0x48 && c.second == 0x49
            ||| c.first == 0x53 && c.second == 0x49
            ||| c.first == 0x42 && c.second == 0x41
            ||| c.first == 0x42 && c.second == 0x55
            ||| c.first == 0x42 && c.second == 0x47
            ||| c.first == 0x50 && c.second == 0x55
            ||| c.first == 0x41 && c.second == 0x4f
            ||| c.first == 0x53 && c.second == 0x4f
            ||| c.first == 0x50 && c.second == 0x4f
            ||| c.first == 0x42 && c.second == 0x4f
            ||| c.first == 0x52 && c.second == 0x45
            ||| c.first == 0x52 && c.second == 0x55
            ||| c.first == 0x52 && c.second == 0x44
            ||| c.first == 0x4e && c.second == 0x4f
            ||| c.first == 0x4d && c.second == 0x55
            ||| c.first == 0x4c && c.second == 0x55
            ||| c.first == 0x49 && c.second == 0x53
            ||| c.first == 0x43 && c.second == 0x59
            ||| c.first == 0x45 && c.second == 0x52
            ||| c.first == 0x43 && c.second == 0x44
            ||| c.first == 0x52 && c.second == 0x41
            ||| c.first == 0x45 && c.second == 0x53
            ||| c.first == 0x4d && c.second == 0x53
            ||| c.first == 0x48 && c.second == 0x41
            ||| c.first == 0x41 && c.second == 0x41
            ||| c.first == 0x52 && c.second == 0x4d
        },
{
    lemma_indices_hold(c, SidView { authority: 0, subs: Seq::empty() }, 0);
    if let Some(i) = alias_index(c, 0) {
        lemma_slots(i);
    }
}

} // verus!
