//! Principals that the library knows by name.

use vstd::prelude::*;
use crate::security::sid::{Sid, SidView};

verus! {

#[derive(Clone, Copy, Debug, PartialEq, Eq, Structural)]
pub enum WellKnownSid {
    Everyone,
    CreatorOwner,
    CreatorGroup,
    Service,
    Anonymous,
    AuthenticatedUsers,
    LocalSystem,
    LocalService,
    NetworkService,
    BuiltinAdministrators,
    BuiltinUsers,
    LowIl,
    MediumIl,
    MediumPlusIl,
    HighIl,
    SystemIl,
}

impl WellKnownSid {
    /// The SID of the principal.
    pub open spec fn sid(self) -> SidView {
        match self {
            WellKnownSid::Everyone => SidView { authority: 1, subs: seq![0u32] },
            WellKnownSid::CreatorOwner => SidView { authority: 3, subs: seq![0u32] },
            WellKnownSid::CreatorGroup => SidView { authority: 3, subs: seq![1u32] },
            WellKnownSid::Service => SidView { authority: 5, subs: seq![6u32] },
            WellKnownSid::Anonymous => SidView { authority: 5, subs: seq![7u32] },
            WellKnownSid::AuthenticatedUsers => SidView { authority: 5, subs: seq![11u32] },
            WellKnownSid::LocalSystem => SidView { authority: 5, subs: seq![18u32] },
            WellKnownSid::LocalService => SidView { authority: 5, subs: seq![19u32] },
            WellKnownSid::NetworkService => SidView { authority: 5, subs: seq![20u32] },
            WellKnownSid::BuiltinAdministrators => SidView { authority: 5, subs: seq![32u32, 544u32] },
            WellKnownSid::BuiltinUsers => SidView { authority: 5, subs: seq![32u32, 545u32] },
            WellKnownSid::LowIl => SidView { authority: 16, subs: seq![4096u32] },
            WellKnownSid::MediumIl => SidView { authority: 16, subs: seq![8192u32] },
            WellKnownSid::MediumPlusIl => SidView { authority: 16, subs: seq![8448u32] },
            WellKnownSid::HighIl => SidView { authority: 16, subs: seq![12288u32] },
            WellKnownSid::SystemIl => SidView { authority: 16, subs: seq![16384u32] },
        }
    }

    pub fn to_sid(self) -> (sid: Sid)
        ensures
            sid.wf(),
            sid@ == self.sid(),
    {
        match self {
            WellKnownSid::Everyone => one(1, 0),
            WellKnownSid::CreatorOwner => one(3, 0),
            WellKnownSid::CreatorGroup => one(3, 1),
            WellKnownSid::Service => one(5, 6),
            WellKnownSid::Anonymous => one(5, 7),
            WellKnownSid::AuthenticatedUsers => one(5, 11),
            WellKnownSid::LocalSystem => one(5, 18),
            WellKnownSid::LocalService => one(5, 19),
            WellKnownSid::NetworkService => one(5, 20),
            WellKnownSid::BuiltinAdministrators => two(5, 32, 544),
            WellKnownSid::BuiltinUsers => two(5, 32, 545),
            WellKnownSid::LowIl => one(16, 4096),
            WellKnownSid::MediumIl => one(16, 8192),
            WellKnownSid::MediumPlusIl => one(16, 8448),
            WellKnownSid::HighIl => one(16, 12288),
            WellKnownSid::SystemIl => one(16, 16384),
        }
    }

    /// Whether a SID is that of the principal.
    pub fn matches(self, sid: &Sid) -> (same: bool)
        ensures
            same == (sid.revision == 1 && sid@ == self.sid()),
    {
        let own: Sid = self.to_sid();
        sid.revision == 1 && own.same(sid)
    }
}

/// A SID with one sub-authority.
pub fn one(authority: u64, sub: u32) -> (sid: Sid)
    requires
        authority <= 0xffff_ffff_ffff,
    ensures
        sid.wf(),
        sid@ == (SidView { authority, subs: seq![sub] }),
{
    let mut subs: Vec<u32> = Vec::new();
    subs.push(sub);
    assert(subs@ =~= seq![sub]);
    Sid { revision: 1, authority, sub_authorities: subs }
}

/// A SID with two sub-authorities.
pub fn two(authority: u64, first: u32, second: u32) -> (sid: Sid)
    requires
        authority <= 0xffff_ffff_ffff,
    ensures
        sid.wf(),
        sid@ == (SidView { authority, subs: seq![first, second] }),
{
    let mut subs: Vec<u32> = Vec::new();
    subs.push(first);
    subs.push(second);
    assert(subs@ =~= seq![first, second]);
    Sid { revision: 1, authority, sub_authorities: subs }
}

} // verus!
