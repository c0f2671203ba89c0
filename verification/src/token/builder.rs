//! The description of a token under construction. It remembers its first error, and holds
//! each part to the kernel's rules as it is set.

use vstd::prelude::*;
use vstd::slice::slice_to_vec;
use crate::bytes::{
    law_le32_reads_back, law_le64_reads_back, le16, le32, le32_at, le64, le64_at, put_le16, put_le32, put_le64, put_slice,
};
use crate::error::Errno;
use crate::security::codec::{opt_vec_view, part_bytes, part_len, part_offset};
use crate::security::rules::{acl_sound, acl_valid, claim_sound};
use crate::security::sid::{le32s, peios_sid_valid, sid_valid};
use crate::security::view::{sid_entries_bytes, sid_entry_bytes};
use crate::token::claims::{claim_encoding, encode_claim, peios_token_claim};
use crate::token::lcs::{encode_lcs, lcs_encoding, peios_token_lcs_credentials};

verus! {

/// The length of the fixed header.
pub const TOKEN_SPEC_HEADER_BYTES: usize = 192;

/// The largest description.
pub const TOKEN_SPEC_MAX_BYTES: usize = 65536;

pub const TOKEN_SPEC_VERSION: u32 = 2;

/// The four switches of a token.
#[allow(non_camel_case_types)]
#[derive(Clone, Copy, Debug, PartialEq, Eq, Structural)]
pub struct peios_token_flags {
    pub write_restricted: bool,
    pub user_deny_only: bool,
    pub isolation_boundary: bool,
    pub confinement_exempt: bool,
}

/// The parts of a description that have a fixed place in the header.
#[derive(Clone, Copy)]
pub struct TokenScalars {
    pub token_type: u8,
    pub impersonation_level: u8,
    pub integrity_rid: u32,
    pub mandatory_policy: u32,
    pub privs_present: u64,
    pub privs_enabled: u64,
    pub projected_uid: u32,
    pub projected_gid: u32,
    pub audit_policy: u32,
    pub expiration: u64,
    pub session_id: u64,
    pub owner_sid_index: u32,
    pub primary_group_index: u32,
    pub source_name: [u8; 8],
    pub source_id: u64,
    pub flags: peios_token_flags,
}

/// SIDs with attributes, as they are added.
pub struct SidAttrs {
    pub data: Vec<u8>,
    pub count: u32,
    pub list: Ghost<Seq<(Seq<u8>, u32)>>,
}

impl SidAttrs {
    pub open spec fn wf(&self) -> bool {
        &&& self.data@ == sid_entries_bytes(self.list@)
        &&& self.count == self.list@.len()
        &&& forall|i: int| 0 <= i < self.list@.len() ==> sid_valid((#[trigger] self.list@[i]).0)
    }

    fn new() -> (s: SidAttrs)
        ensures
            s.wf(),
            s.list@ == Seq::<(Seq<u8>, u32)>::empty(),
    {
        SidAttrs { data: Vec::new(), count: 0, list: Ghost(Seq::empty()) }
    }

    /// Appends an entry, unless there are too many to count.
    fn push(&mut self, sid: &[u8], attrs: u32) -> (pushed: bool)
        requires
            old(self).wf(),
            sid_valid(sid@),
        ensures
            final(self).wf(),
            pushed == (old(self).list@.len() < u32::MAX),
            final(self).list@ == (if pushed {
                old(self).list@.push((sid@, attrs))
            } else {
                old(self).list@
            }),
    {
        if self.count == u32::MAX {
            return false;
        }
        let ghost before = self.list@;
        let ghost entry = (sid@, attrs);
        assert(sid@.len() <= 68);
        put_le32(&mut self.data, sid.len() as u32);
        put_slice(&mut self.data, sid);
        put_le32(&mut self.data, attrs);
        self.count = self.count + 1;
        self.list = Ghost(before.push(entry));
        proof {
            assert(self.list@.drop_last() =~= before);
            assert(self.data@ =~= sid_entries_bytes(before) + sid_entry_bytes(entry));
        }
        true
    }
}

/// Claim entries behind their lengths, one after the other.
pub open spec fn claims_bytes(list: Seq<Seq<u8>>) -> Seq<u8>
    decreases list.len(),
{
    if list.len() == 0 {
        Seq::empty()
    } else {
        claims_bytes(list.drop_last()) + le32(list.last().len() as u32) + list.last()
    }
}

/// Claims, as they are added.
pub struct ClaimList {
    pub data: Vec<u8>,
    pub list: Ghost<Seq<Seq<u8>>>,
}

impl ClaimList {
    pub open spec fn wf(&self) -> bool {
        &&& self.data@ == claims_bytes(self.list@)
        &&& forall|i: int|
            0 <= i < self.list@.len() ==> claim_sound(#[trigger] self.list@[i]) && self.list@[i].len() <= u32::MAX
    }

    fn new() -> (s: ClaimList)
        ensures
            s.wf(),
            s.list@ == Seq::<Seq<u8>>::empty(),
    {
        ClaimList { data: Vec::new(), list: Ghost(Seq::empty()) }
    }

    fn push(&mut self, payload: &[u8])
        requires
            old(self).wf(),
            claim_sound(payload@),
            payload@.len() <= u32::MAX,
        ensures
            final(self).wf(),
            final(self).list@ == old(self).list@.push(payload@),
    {
        let ghost before = self.list@;
        put_le32(&mut self.data, payload.len() as u32);
        put_slice(&mut self.data, payload);
        self.list = Ghost(before.push(payload@));
        proof {
            assert(self.list@.drop_last() =~= before);
            assert(self.data@ =~= claims_bytes(self.list@));
        }
    }
}

/// A description under construction.
#[allow(non_camel_case_types)]
pub struct peios_token_builder {
    pub scalars: TokenScalars,
    pub user_sid: Option<Vec<u8>>,
    pub groups: SidAttrs,
    pub device_groups: SidAttrs,
    pub restricted_sids: SidAttrs,
    pub default_dacl: Option<Vec<u8>>,
    pub confinement_sid: Option<Vec<u8>>,
    pub supp_gids: Vec<u32>,
    pub user_claims: ClaimList,
    pub device_claims: ClaimList,
    pub lcs_credentials: Option<Vec<u8>>,
    pub error: Option<Errno>,
    pub built: Vec<u8>,
}

/// What the builder has been given.
#[verifier::ext_equal]
pub struct TokenState {
    pub scalars: TokenScalars,
    pub user_sid: Option<Seq<u8>>,
    pub groups: Seq<(Seq<u8>, u32)>,
    pub device_groups: Seq<(Seq<u8>, u32)>,
    pub restricted_sids: Seq<(Seq<u8>, u32)>,
    pub default_dacl: Option<Seq<u8>>,
    pub confinement_sid: Option<Seq<u8>>,
    pub supp_gids: Seq<u32>,
    pub user_claims: Seq<Seq<u8>>,
    pub device_claims: Seq<Seq<u8>>,
    pub lcs_credentials: Option<Seq<u8>>,
    pub error: Option<Errno>,
}

/// A section that is left out if it would be empty.
pub open spec fn unless_empty(b: Seq<u8>) -> Option<Seq<u8>> {
    if b.len() == 0 {
        None
    } else {
        Some(b)
    }
}

/// The first `k` sections, one after the other.
pub open spec fn area(sections: Seq<Option<Seq<u8>>>, k: int) -> Seq<u8>
    decreases k,
{
    if k <= 0 {
        Seq::empty()
    } else {
        area(sections, k - 1) + part_bytes(sections[k - 1])
    }
}

/// Where the section with index `k` starts in the description; zero if it is left out.
pub open spec fn section_at(sections: Seq<Option<Seq<u8>>>, k: int) -> u32 {
    part_offset(sections[k], TOKEN_SPEC_HEADER_BYTES as nat + area(sections, k).len())
}

/// A switch as a byte.
pub open spec fn switch(b: bool) -> u8 {
    if b {
        1
    } else {
        0
    }
}

/// The part of the header with the fixed fields before the sections.
pub open spec fn scalar_bytes(c: TokenScalars) -> Seq<u8> {
    le32(TOKEN_SPEC_VERSION) + seq![c.token_type, c.impersonation_level] + le16(0) + le32(c.integrity_rid) + le32(
        c.mandatory_policy,
    ) + le64(c.privs_present) + le64(c.privs_enabled) + le32(0) + le32(c.projected_uid) + le32(c.projected_gid) + le32(
        c.audit_policy,
    ) + le64(c.expiration) + le64(c.session_id) + le32(c.owner_sid_index) + le32(c.primary_group_index)
        + c.source_name@ + le64(c.source_id)
}

/// Where the sections are, and how many entries or bytes each has.
#[derive(Clone, Copy, Debug, PartialEq, Eq, Structural)]
pub struct Directory {
    pub user_sid_offset: u32,
    pub groups_offset: u32,
    pub groups_count: u32,
    pub default_dacl_offset: u32,
    pub default_dacl_len: u32,
    pub user_claims_offset: u32,
    pub user_claims_len: u32,
    pub device_claims_offset: u32,
    pub device_claims_len: u32,
    pub device_groups_offset: u32,
    pub device_groups_count: u32,
    pub restricted_sids_offset: u32,
    pub restricted_sids_count: u32,
    pub confinement_sid_offset: u32,
    pub confinement_sid_len: u32,
    pub supp_gids_offset: u32,
    pub supp_gids_count: u32,
    pub lcs_credentials_offset: u32,
}

/// The part of the header that says where the sections are. The switches stand in its middle,
/// and what this library does not set is zero.
pub open spec fn directory_bytes(d: Directory, f: peios_token_flags) -> Seq<u8> {
    le32(d.user_sid_offset) + le32(d.groups_offset) + le32(d.groups_count) + le32(d.default_dacl_offset) + le32(
        d.default_dacl_len,
    ) + le32(d.user_claims_offset) + le32(d.user_claims_len) + le32(d.device_claims_offset) + le32(d.device_claims_len)
        + le32(d.device_groups_offset) + le32(d.device_groups_count) + le32(d.restricted_sids_offset) + le32(
        d.restricted_sids_count,
    ) + le32(d.confinement_sid_offset) + le32(d.confinement_sid_len) + le32(0) + le32(0) + seq![
        switch(f.confinement_exempt),
        switch(f.write_restricted),
        switch(f.user_deny_only),
        switch(f.isolation_boundary),
    ] + le32(d.supp_gids_offset) + le32(d.supp_gids_count) + le32(0) + le32(0) + le64(0) + le32(0) + le32(
        d.lcs_credentials_offset,
    )
}

impl TokenState {
    /// The sections, in the order in which they are laid out.
    pub open spec fn sections(self) -> Seq<Option<Seq<u8>>> {
        seq![
            self.user_sid,
            unless_empty(sid_entries_bytes(self.groups)),
            self.default_dacl,
            unless_empty(sid_entries_bytes(self.device_groups)),
            unless_empty(sid_entries_bytes(self.restricted_sids)),
            self.confinement_sid,
            unless_empty(le32s(self.supp_gids)),
            unless_empty(claims_bytes(self.user_claims)),
            unless_empty(claims_bytes(self.device_claims)),
            self.lcs_credentials,
        ]
    }

    /// What the header says of the sections.
    pub open spec fn directory(self) -> Directory {
        let s = self.sections();
        Directory {
            user_sid_offset: section_at(s, 0),
            groups_offset: section_at(s, 1),
            groups_count: self.groups.len() as u32,
            default_dacl_offset: section_at(s, 2),
            default_dacl_len: part_len(s[2]) as u32,
            user_claims_offset: section_at(s, 7),
            user_claims_len: part_len(s[7]) as u32,
            device_claims_offset: section_at(s, 8),
            device_claims_len: part_len(s[8]) as u32,
            device_groups_offset: section_at(s, 3),
            device_groups_count: self.device_groups.len() as u32,
            restricted_sids_offset: section_at(s, 4),
            restricted_sids_count: self.restricted_sids.len() as u32,
            confinement_sid_offset: section_at(s, 5),
            confinement_sid_len: part_len(s[5]) as u32,
            supp_gids_offset: section_at(s, 6),
            supp_gids_count: self.supp_gids.len() as u32,
            lcs_credentials_offset: section_at(s, 9),
        }
    }

    /// The length of the description.
    pub open spec fn len(self) -> nat {
        TOKEN_SPEC_HEADER_BYTES as nat + area(self.sections(), 10).len()
    }

    /// The description: the header, then the sections.
    pub open spec fn bytes(self) -> Seq<u8> {
        scalar_bytes(self.scalars) + directory_bytes(self.directory(), self.scalars.flags) + area(self.sections(), 10)
    }

    /// The state with an error latched, unless there is one.
    pub open spec fn latched(self, e: Errno) -> TokenState {
        TokenState {
            error: if self.error is Some {
                self.error
            } else {
                Some(e)
            },
            ..self
        }
    }

    /// The state with other fixed fields, unless there is an error.
    pub open spec fn with_scalars(self, scalars: TokenScalars) -> TokenState {
        if self.error is Some {
            self
        } else {
            TokenState { scalars, ..self }
        }
    }

    /// Nothing has been given yet.
    pub open spec fn is_fresh(self) -> bool {
        &&& self.scalars == fresh_scalars(self.scalars.source_name)
        &&& self.scalars.source_name@ == seq![0u8, 0, 0, 0, 0, 0, 0, 0]
        &&& self.user_sid is None
        &&& self.groups.len() == 0
        &&& self.device_groups.len() == 0
        &&& self.restricted_sids.len() == 0
        &&& self.default_dacl is None
        &&& self.confinement_sid is None
        &&& self.supp_gids.len() == 0
        &&& self.user_claims.len() == 0
        &&& self.device_claims.len() == 0
        &&& self.lcs_credentials is None
        &&& self.error is None
    }
}

/// Fixed fields that are all zero but for the name of the source.
pub open spec fn fresh_scalars(source_name: [u8; 8]) -> TokenScalars {
    TokenScalars {
        token_type: 0,
        impersonation_level: 0,
        integrity_rid: 0,
        mandatory_policy: 0,
        privs_present: 0,
        privs_enabled: 0,
        projected_uid: 0,
        projected_gid: 0,
        audit_policy: 0,
        expiration: 0,
        session_id: 0,
        owner_sid_index: 0,
        primary_group_index: 0,
        source_name,
        source_id: 0,
        flags: peios_token_flags {
            write_restricted: false,
            user_deny_only: false,
            isolation_boundary: false,
            confinement_exempt: false,
        },
    }
}

/// A SID with attributes is added to a list, by the rules that all three lists share.
pub open spec fn sid_added(
    st: TokenState,
    list: Seq<(Seq<u8>, u32)>,
    sid: Option<&[u8]>,
    attrs: u32,
) -> Result<Seq<(Seq<u8>, u32)>, TokenState> {
    if st.error is Some {
        Err(st)
    } else if sid is None || !sid_valid(sid->Some_0@) {
        Err(st.latched(Errno::Inval))
    } else if list.len() >= u32::MAX {
        Err(st.latched(Errno::NoMem))
    } else {
        Ok(list.push((sid->Some_0@, attrs)))
    }
}

/// A claim is added to a list, by the rules that both lists share.
pub open spec fn claim_added(
    st: TokenState,
    list: Seq<Seq<u8>>,
    claim: Option<&peios_token_claim>,
) -> Result<Seq<Seq<u8>>, TokenState> {
    if st.error is Some {
        Err(st)
    } else if claim is None || claim_encoding(*claim->Some_0) is None || claim_encoding(*claim->Some_0)->Some_0.len()
        > u32::MAX {
        Err(st.latched(Errno::Inval))
    } else {
        Ok(list.push(claim_encoding(*claim->Some_0)->Some_0))
    }
}

/// Which list a SID goes to.
#[derive(Clone, Copy, Debug, PartialEq, Eq, Structural)]
pub enum Section {
    Groups,
    DeviceGroups,
    RestrictedSids,
}

/// The sections as byte sequences.
pub open spec fn part_views(parts: Seq<Option<&[u8]>>) -> Seq<Option<Seq<u8>>> {
    Seq::new(
        parts.len(),
        |i: int|
            match parts[i] {
                Some(b) => Some(b@),
                None => None,
            },
    )
}

/// Lays the sections out one after the other, and says where each starts in the description;
/// nothing if they do not fit.
fn lay_out(parts: &[Option<&[u8]>]) -> (r: Option<(Vec<u8>, Vec<u32>)>)
    ensures
        ({
            let views = part_views(parts@);
            let all = area(views, parts@.len() as int);
            match r {
                Some((data, offsets)) => {
                    &&& TOKEN_SPEC_HEADER_BYTES + all.len() <= TOKEN_SPEC_MAX_BYTES
                    &&& data@ == all
                    &&& offsets@.len() == parts@.len()
                    &&& forall|k: int| 0 <= k < parts@.len() ==> #[trigger] offsets@[k] == section_at(views, k)
                },
                None => TOKEN_SPEC_HEADER_BYTES + all.len() > TOKEN_SPEC_MAX_BYTES,
            }
        }),
{
    let ghost views = part_views(parts@);
    let mut data: Vec<u8> = Vec::new();
    let mut offsets: Vec<u32> = Vec::new();
    let mut i: usize = 0;
    while i < parts.len()
        invariant
            i <= parts@.len(),
            views == part_views(parts@),
            data@ == area(views, i as int),
            data@.len() <= TOKEN_SPEC_MAX_BYTES - TOKEN_SPEC_HEADER_BYTES,
            offsets@.len() == i,
            forall|k: int| 0 <= k < i ==> #[trigger] offsets@[k] == section_at(views, k),
        decreases parts@.len() - i,
    {
        match parts[i] {
            Some(b) => {
                offsets.push((TOKEN_SPEC_HEADER_BYTES + data.len()) as u32);
                put_slice(&mut data, b);
            },
            None => {
                offsets.push(0);
                assert(data@ =~= data@ + Seq::<u8>::empty());
            },
        }
        assert(data@ == area(views, i + 1));
        if data.len() > TOKEN_SPEC_MAX_BYTES - TOKEN_SPEC_HEADER_BYTES {
            proof {
                lemma_area_grows(views, i + 1, parts@.len() as int);
            }
            return None;
        }
        i = i + 1;
    }
    Some((data, offsets))
}

/// Laying out more sections takes no less room.
proof fn lemma_area_grows(sections: Seq<Option<Seq<u8>>>, i: int, k: int)
    requires
        0 <= i <= k,
    ensures
        area(sections, i).len() <= area(sections, k).len(),
    decreases k - i,
{
    if i < k {
        lemma_area_grows(sections, i, k - 1);
    }
}

/// The bytes of a section that may be missing.
fn opt_part(v: &Option<Vec<u8>>) -> (r: Option<&[u8]>)
    ensures
        match r {
            Some(b) => opt_vec_view(*v) == Some(b@),
            None => opt_vec_view(*v) is None,
        },
{
    match v {
        Some(v) => Some(v.as_slice()),
        None => None,
    }
}

/// The bytes of a section that is left out if it is empty.
fn list_part(v: &Vec<u8>) -> (r: Option<&[u8]>)
    ensures
        match r {
            Some(b) => unless_empty(v@) == Some(b@),
            None => unless_empty(v@) is None,
        },
{
    if v.len() == 0 {
        None
    } else {
        Some(v.as_slice())
    }
}

fn switch_byte(b: bool) -> (r: u8)
    ensures
        r == switch(b),
{
    if b {
        1
    } else {
        0
    }
}

/// Words as little-endian bytes.
fn encode_words(words: &[u32]) -> (out: Vec<u8>)
    ensures
        out@ == le32s(words@),
{
    let mut out: Vec<u8> = Vec::new();
    let mut i: usize = 0;
    assert(out@ =~= le32s(words@.take(0)));
    while i < words.len()
        invariant
            i <= words@.len(),
            out@ == le32s(words@.take(i as int)),
        decreases words@.len() - i,
    {
        put_le32(&mut out, words[i]);
        assert(out@ =~= le32s(words@.take(i + 1)));
        i = i + 1;
    }
    assert(words@.take(i as int) =~= words@);
    out
}

/// Appends the fixed fields before the sections.
fn put_scalars(out: &mut Vec<u8>, c: &TokenScalars)
    ensures
        final(out)@ == old(out)@ + scalar_bytes(*c),
{
    put_le32(out, TOKEN_SPEC_VERSION);
    out.push(c.token_type);
    out.push(c.impersonation_level);
    put_le16(out, 0);
    put_le32(out, c.integrity_rid);
    put_le32(out, c.mandatory_policy);
    put_le64(out, c.privs_present);
    put_le64(out, c.privs_enabled);
    put_le32(out, 0);
    put_le32(out, c.projected_uid);
    put_le32(out, c.projected_gid);
    put_le32(out, c.audit_policy);
    put_le64(out, c.expiration);
    put_le64(out, c.session_id);
    put_le32(out, c.owner_sid_index);
    put_le32(out, c.primary_group_index);
    put_slice(out, c.source_name.as_slice());
    put_le64(out, c.source_id);
    assert(out@ =~= old(out)@ + scalar_bytes(*c));
}

impl peios_token_builder {
    pub open spec fn state(&self) -> TokenState {
        TokenState {
            scalars: self.scalars,
            user_sid: opt_vec_view(self.user_sid),
            groups: self.groups.list@,
            device_groups: self.device_groups.list@,
            restricted_sids: self.restricted_sids.list@,
            default_dacl: opt_vec_view(self.default_dacl),
            confinement_sid: opt_vec_view(self.confinement_sid),
            supp_gids: self.supp_gids@,
            user_claims: self.user_claims.list@,
            device_claims: self.device_claims.list@,
            lcs_credentials: opt_vec_view(self.lcs_credentials),
            error: self.error,
        }
    }

    pub open spec fn wf(&self) -> bool {
        &&& self.user_sid matches Some(v) ==> sid_valid(v@)
        &&& self.groups.wf()
        &&& self.device_groups.wf()
        &&& self.restricted_sids.wf()
        &&& self.default_dacl matches Some(v) ==> acl_sound(v@)
        &&& self.confinement_sid matches Some(v) ==> sid_valid(v@)
        &&& self.supp_gids@.len() <= u32::MAX
        &&& self.user_claims.wf()
        &&& self.device_claims.wf()
    }

    fn latch(&mut self, errno: Errno)
        requires
            old(self).wf(),
        ensures
            final(self).wf(),
            final(self).state() == old(self).state().latched(errno),
    {
        if self.error.is_none() {
            self.error = Some(errno);
        }
    }

    /// Adds a SID to one of the lists.
    fn add_sid_attrs(&mut self, section: Section, sid: Option<&[u8]>, attrs: u32)
        requires
            old(self).wf(),
        ensures
            final(self).wf(),
            final(self).state() == (match section {
                Section::Groups => match sid_added(old(self).state(), old(self).state().groups, sid, attrs) {
                    Ok(groups) => TokenState { groups, ..old(self).state() },
                    Err(st) => st,
                },
                Section::DeviceGroups => match sid_added(old(self).state(), old(self).state().device_groups, sid, attrs) {
                    Ok(device_groups) => TokenState { device_groups, ..old(self).state() },
                    Err(st) => st,
                },
                Section::RestrictedSids => match sid_added(
                    old(self).state(),
                    old(self).state().restricted_sids,
                    sid,
                    attrs,
                ) {
                    Ok(restricted_sids) => TokenState { restricted_sids, ..old(self).state() },
                    Err(st) => st,
                },
            }),
    {
        if self.error.is_some() {
            return;
        }
        if !peios_sid_valid(sid) {
            self.latch(Errno::Inval);
            return;
        }
        if let Some(sid) = sid {
            let pushed: bool = match section {
                Section::Groups => self.groups.push(sid, attrs),
                Section::DeviceGroups => self.device_groups.push(sid, attrs),
                Section::RestrictedSids => self.restricted_sids.push(sid, attrs),
            };
            if !pushed {
                self.latch(Errno::NoMem);
            }
        }
    }

    /// Renders the description into `built`.
    fn materialize(&mut self) -> (r: Result<(), Errno>)
        requires
            old(self).wf(),
        ensures
            final(self).wf(),
            final(self).state() == old(self).state(),
            match old(self).error {
                Some(e) => r == Err::<(), Errno>(e),
                None => if old(self).state().len() <= TOKEN_SPEC_MAX_BYTES {
                    r is Ok && final(self).built@ == old(self).state().bytes()
                } else {
                    r == Err::<(), Errno>(Errno::Inval)
                },
            },
    {
        if let Some(e) = self.error {
            return Err(e);
        }
        let ghost st = self.state();
        let ghost s = st.sections();
        let supp_gids: Vec<u8> = encode_words(self.supp_gids.as_slice());
        let parts: [Option<&[u8]>; 10] = [
            opt_part(&self.user_sid),
            list_part(&self.groups.data),
            opt_part(&self.default_dacl),
            list_part(&self.device_groups.data),
            list_part(&self.restricted_sids.data),
            opt_part(&self.confinement_sid),
            list_part(&supp_gids),
            list_part(&self.user_claims.data),
            list_part(&self.device_claims.data),
            opt_part(&self.lcs_credentials),
        ];
        assert(part_views(parts@) =~= s);
        let (data, at) = match lay_out(parts.as_slice()) {
            Some(laid) => laid,
            None => return Err(Errno::Inval),
        };
        proof {
            lemma_sections_small(s, 2);
            lemma_sections_small(s, 5);
            lemma_sections_small(s, 7);
            lemma_sections_small(s, 8);
        }
        let directory = Directory {
            user_sid_offset: at[0],
            groups_offset: at[1],
            groups_count: self.groups.count,
            default_dacl_offset: at[2],
            default_dacl_len: part_size(parts[2]),
            user_claims_offset: at[7],
            user_claims_len: part_size(parts[7]),
            device_claims_offset: at[8],
            device_claims_len: part_size(parts[8]),
            device_groups_offset: at[3],
            device_groups_count: self.device_groups.count,
            restricted_sids_offset: at[4],
            restricted_sids_count: self.restricted_sids.count,
            confinement_sid_offset: at[5],
            confinement_sid_len: part_size(parts[5]),
            supp_gids_offset: at[6],
            supp_gids_count: self.supp_gids.len() as u32,
            lcs_credentials_offset: at[9],
        };
        assert(directory == st.directory());
        let mut built: Vec<u8> = Vec::new();
        put_scalars(&mut built, &self.scalars);
        put_directory(&mut built, &directory, self.scalars.flags);
        put_slice(&mut built, data.as_slice());
        assert(built@ =~= st.bytes());
        self.built = built;
        Ok(())
    }
}

/// A section is no longer than all of them.
proof fn lemma_sections_small(s: Seq<Option<Seq<u8>>>, k: int)
    requires
        s.len() == 10,
        0 <= k < 10,
    ensures
        area(s, k).len() + part_len(s[k]) <= area(s, 10).len(),
{
    lemma_area_grows(s, k + 1, 10);
}

/// Appends the directory.
fn put_directory(out: &mut Vec<u8>, d: &Directory, f: peios_token_flags)
    ensures
        final(out)@ == old(out)@ + directory_bytes(*d, f),
{
    let mut own: Vec<u8> = Vec::new();
    put_le32(&mut own, d.user_sid_offset);
    assert(own@ =~= le32(d.user_sid_offset));
    put_le32(&mut own, d.groups_offset);
    put_le32(&mut own, d.groups_count);
    put_le32(&mut own, d.default_dacl_offset);
    put_le32(&mut own, d.default_dacl_len);
    put_le32(&mut own, d.user_claims_offset);
    put_le32(&mut own, d.user_claims_len);
    put_le32(&mut own, d.device_claims_offset);
    put_le32(&mut own, d.device_claims_len);
    put_le32(&mut own, d.device_groups_offset);
    put_le32(&mut own, d.device_groups_count);
    put_le32(&mut own, d.restricted_sids_offset);
    put_le32(&mut own, d.restricted_sids_count);
    put_le32(&mut own, d.confinement_sid_offset);
    put_le32(&mut own, d.confinement_sid_len);
    put_le32(&mut own, 0);
    put_le32(&mut own, 0);
    let switches: [u8; 4] = [
        switch_byte(f.confinement_exempt),
        switch_byte(f.write_restricted),
        switch_byte(f.user_deny_only),
        switch_byte(f.isolation_boundary),
    ];
    put_slice(&mut own, switches.as_slice());
    assert(switches@ =~= seq![
        switch(f.confinement_exempt),
        switch(f.write_restricted),
        switch(f.user_deny_only),
        switch(f.isolation_boundary),
    ]);
    put_le32(&mut own, d.supp_gids_offset);
    put_le32(&mut own, d.supp_gids_count);
    put_le32(&mut own, 0);
    put_le32(&mut own, 0);
    put_le64(&mut own, 0);
    put_le32(&mut own, 0);
    put_le32(&mut own, d.lcs_credentials_offset);
    put_slice(out, own.as_slice());
}

/// The length of a section.
fn part_size(part: Option<&[u8]>) -> (n: u32)
    requires
        part matches Some(b) ==> b@.len() <= u32::MAX,
    ensures
        n == (match part {
            Some(b) => b@.len(),
            None => 0,
        }),
{
    match part {
        Some(b) => b.len() as u32,
        None => 0,
    }
}

/// A builder to which nothing has been given.
pub fn peios_token_builder_new() -> (b: peios_token_builder)
    ensures
        b.wf(),
        b.state().is_fresh(),
{
    let source_name: [u8; 8] = [0, 0, 0, 0, 0, 0, 0, 0];
    assert(source_name@ =~= seq![0u8, 0, 0, 0, 0, 0, 0, 0]);
    peios_token_builder {
        scalars: TokenScalars {
            token_type: 0,
            impersonation_level: 0,
            integrity_rid: 0,
            mandatory_policy: 0,
            privs_present: 0,
            privs_enabled: 0,
            projected_uid: 0,
            projected_gid: 0,
            audit_policy: 0,
            expiration: 0,
            session_id: 0,
            owner_sid_index: 0,
            primary_group_index: 0,
            source_name,
            source_id: 0,
            flags: peios_token_flags {
                write_restricted: false,
                user_deny_only: false,
                isolation_boundary: false,
                confinement_exempt: false,
            },
        },
        user_sid: None,
        groups: SidAttrs::new(),
        device_groups: SidAttrs::new(),
        restricted_sids: SidAttrs::new(),
        default_dacl: None,
        confinement_sid: None,
        supp_gids: Vec::new(),
        user_claims: ClaimList::new(),
        device_claims: ClaimList::new(),
        lcs_credentials: None,
        error: None,
        built: Vec::new(),
    }
}

/// Drops everything that has been given, and the latched error.
pub fn peios_token_builder_reset(b: &mut peios_token_builder)
    ensures
        final(b).wf(),
        final(b).state().is_fresh(),
{
    *b = peios_token_builder_new();
}

/// Sets the user; anything but a SID latches an error.
pub fn peios_token_builder_user(b: &mut peios_token_builder, sid: Option<&[u8]>)
    requires
        old(b).wf(),
    ensures
        final(b).wf(),
        final(b).state() == (if old(b).error is Some {
            old(b).state()
        } else if sid is Some && sid_valid(sid->Some_0@) {
            TokenState { user_sid: Some(sid->Some_0@), ..old(b).state() }
        } else {
            old(b).state().latched(Errno::Inval)
        }),
{
    if b.error.is_some() {
        return;
    }
    if !peios_sid_valid(sid) {
        b.latch(Errno::Inval);
        return;
    }
    if let Some(sid) = sid {
        b.user_sid = Some(slice_to_vec(sid));
    }
}

/// Adds a group; anything but a SID latches an error.
pub fn peios_token_builder_add_group(b: &mut peios_token_builder, sid: Option<&[u8]>, attrs: u32)
    requires
        old(b).wf(),
    ensures
        final(b).wf(),
        final(b).state() == (match sid_added(old(b).state(), old(b).state().groups, sid, attrs) {
            Ok(groups) => TokenState { groups, ..old(b).state() },
            Err(st) => st,
        }),
{
    b.add_sid_attrs(Section::Groups, sid, attrs);
}

/// Sets the privileges that are present and those that are enabled.
pub fn peios_token_builder_privileges(b: &mut peios_token_builder, present: u64, enabled: u64)
    requires
        old(b).wf(),
    ensures
        final(b).wf(),
        final(b).state() == old(b).state().with_scalars(
            (TokenScalars { privs_present: present, privs_enabled: enabled, ..old(b).scalars }),
        ),
{
    if b.error.is_none() {
        b.scalars.privs_present = present;
        b.scalars.privs_enabled = enabled;
    }
}

/// Sets the type and the impersonation level.
pub fn peios_token_builder_type(b: &mut peios_token_builder, token_type: u8, imp_level: u8)
    requires
        old(b).wf(),
    ensures
        final(b).wf(),
        final(b).state() == old(b).state().with_scalars(
            (TokenScalars { token_type, impersonation_level: imp_level, ..old(b).scalars }),
        ),
{
    if b.error.is_none() {
        b.scalars.token_type = token_type;
        b.scalars.impersonation_level = imp_level;
    }
}

/// Sets the integrity level.
pub fn peios_token_builder_integrity(b: &mut peios_token_builder, rid: u32)
    requires
        old(b).wf(),
    ensures
        final(b).wf(),
        final(b).state() == old(b).state().with_scalars(
            (TokenScalars { integrity_rid: rid, ..old(b).scalars }),
        ),
{
    if b.error.is_none() {
        b.scalars.integrity_rid = rid;
    }
}

/// Sets the session.
pub fn peios_token_builder_session(b: &mut peios_token_builder, session_id: u64)
    requires
        old(b).wf(),
    ensures
        final(b).wf(),
        final(b).state() == old(b).state().with_scalars(
            (TokenScalars { session_id, ..old(b).scalars }),
        ),
{
    if b.error.is_none() {
        b.scalars.session_id = session_id;
    }
}

/// Sets which SID is the owner.
pub fn peios_token_builder_owner_index(b: &mut peios_token_builder, index: u32)
    requires
        old(b).wf(),
    ensures
        final(b).wf(),
        final(b).state() == old(b).state().with_scalars(
            (TokenScalars { owner_sid_index: index, ..old(b).scalars }),
        ),
{
    if b.error.is_none() {
        b.scalars.owner_sid_index = index;
    }
}

/// Sets which group is the primary one.
pub fn peios_token_builder_primary_group_index(b: &mut peios_token_builder, index: u32)
    requires
        old(b).wf(),
    ensures
        final(b).wf(),
        final(b).state() == old(b).state().with_scalars(
            (TokenScalars { primary_group_index: index, ..old(b).scalars }),
        ),
{
    if b.error.is_none() {
        b.scalars.primary_group_index = index;
    }
}

/// Sets the default discretionary list; anything but a sound list latches an error.
pub fn peios_token_builder_default_dacl(b: &mut peios_token_builder, acl: Option<&[u8]>)
    requires
        old(b).wf(),
    ensures
        final(b).wf(),
        final(b).state() == (if old(b).error is Some {
            old(b).state()
        } else if acl is Some && acl_sound(acl->Some_0@) {
            TokenState { default_dacl: Some(acl->Some_0@), ..old(b).state() }
        } else {
            old(b).state().latched(Errno::Inval)
        }),
{
    if b.error.is_some() {
        return;
    }
    if let Some(acl) = acl {
        if acl_valid(acl) {
            b.default_dacl = Some(slice_to_vec(acl));
            return;
        }
    }
    b.latch(Errno::Inval);
}

/// Sets the mandatory policy.
pub fn peios_token_builder_mandatory_policy(b: &mut peios_token_builder, bits: u32)
    requires
        old(b).wf(),
    ensures
        final(b).wf(),
        final(b).state() == old(b).state().with_scalars(
            (TokenScalars { mandatory_policy: bits, ..old(b).scalars }),
        ),
{
    if b.error.is_none() {
        b.scalars.mandatory_policy = bits;
    }
}

/// Sets the user and group that the token projects.
pub fn peios_token_builder_projected_ids(b: &mut peios_token_builder, uid: u32, gid: u32)
    requires
        old(b).wf(),
    ensures
        final(b).wf(),
        final(b).state() == old(b).state().with_scalars(
            (TokenScalars { projected_uid: uid, projected_gid: gid, ..old(b).scalars }),
        ),
{
    if b.error.is_none() {
        b.scalars.projected_uid = uid;
        b.scalars.projected_gid = gid;
    }
}

/// Sets when the token expires.
pub fn peios_token_builder_expiration(b: &mut peios_token_builder, when: u64)
    requires
        old(b).wf(),
    ensures
        final(b).wf(),
        final(b).state() == old(b).state().with_scalars(
            (TokenScalars { expiration: when, ..old(b).scalars }),
        ),
{
    if b.error.is_none() {
        b.scalars.expiration = when;
    }
}

/// Sets the name and the number of the source; without a name an error is latched.
pub fn peios_token_builder_source(b: &mut peios_token_builder, name: Option<&[u8; 8]>, source_id: u64)
    requires
        old(b).wf(),
    ensures
        final(b).wf(),
        final(b).state() == (match name {
            Some(name) => old(b).state().with_scalars(
                (TokenScalars { source_name: *name, source_id, ..old(b).scalars }),
            ),
            None => old(b).state().latched(Errno::Inval),
        }),
{
    if b.error.is_some() {
        return;
    }
    match name {
        Some(name) => {
            b.scalars.source_name = *name;
            b.scalars.source_id = source_id;
        },
        None => {
            b.latch(Errno::Inval);
        },
    }
}

/// Sets the audit policy.
pub fn peios_token_builder_audit_policy(b: &mut peios_token_builder, bits: u32)
    requires
        old(b).wf(),
    ensures
        final(b).wf(),
        final(b).state() == old(b).state().with_scalars(
            (TokenScalars { audit_policy: bits, ..old(b).scalars }),
        ),
{
    if b.error.is_none() {
        b.scalars.audit_policy = bits;
    }
}

/// Adds a restricting SID; anything but a SID latches an error.
pub fn peios_token_builder_add_restricted_sid(b: &mut peios_token_builder, sid: Option<&[u8]>, attrs: u32)
    requires
        old(b).wf(),
    ensures
        final(b).wf(),
        final(b).state() == (match sid_added(old(b).state(), old(b).state().restricted_sids, sid, attrs) {
            Ok(restricted_sids) => TokenState { restricted_sids, ..old(b).state() },
            Err(st) => st,
        }),
{
    b.add_sid_attrs(Section::RestrictedSids, sid, attrs);
}

/// Adds a device group; anything but a SID latches an error.
pub fn peios_token_builder_add_device_group(b: &mut peios_token_builder, sid: Option<&[u8]>, attrs: u32)
    requires
        old(b).wf(),
    ensures
        final(b).wf(),
        final(b).state() == (match sid_added(old(b).state(), old(b).state().device_groups, sid, attrs) {
            Ok(device_groups) => TokenState { device_groups, ..old(b).state() },
            Err(st) => st,
        }),
{
    b.add_sid_attrs(Section::DeviceGroups, sid, attrs);
}

/// Sets the confinement SID; anything but a SID latches an error.
pub fn peios_token_builder_confinement(b: &mut peios_token_builder, sid: Option<&[u8]>)
    requires
        old(b).wf(),
    ensures
        final(b).wf(),
        final(b).state() == (if old(b).error is Some {
            old(b).state()
        } else if sid is Some && sid_valid(sid->Some_0@) {
            TokenState { confinement_sid: Some(sid->Some_0@), ..old(b).state() }
        } else {
            old(b).state().latched(Errno::Inval)
        }),
{
    if b.error.is_some() {
        return;
    }
    if !peios_sid_valid(sid) {
        b.latch(Errno::Inval);
        return;
    }
    if let Some(sid) = sid {
        b.confinement_sid = Some(slice_to_vec(sid));
    }
}

/// Adds supplementary groups that the token projects. A null array latches an error unless it
/// is empty; more groups than can be counted exhaust the memory.
pub fn peios_token_builder_supp_gids(b: &mut peios_token_builder, gids: Option<&[u32]>, count: u32)
    requires
        old(b).wf(),
        gids matches Some(g) ==> g@.len() == count,
    ensures
        final(b).wf(),
        final(b).state() == (if old(b).error is Some {
            old(b).state()
        } else if gids is None {
            if count > 0 {
                old(b).state().latched(Errno::Inval)
            } else {
                old(b).state()
            }
        } else if old(b).state().supp_gids.len() + count > u32::MAX {
            old(b).state().latched(Errno::NoMem)
        } else {
            TokenState { supp_gids: old(b).state().supp_gids + gids->Some_0@, ..old(b).state() }
        }),
{
    if b.error.is_some() {
        return;
    }
    match gids {
        Some(gids) => {
            if count > u32::MAX - b.supp_gids.len() as u32 {
                b.latch(Errno::NoMem);
                return;
            }
            b.supp_gids.extend_from_slice(gids);
            assert(b.supp_gids@ =~= old(b).supp_gids@ + gids@);
        },
        None => {
            if count > 0 {
                b.latch(Errno::Inval);
            }
        },
    }
}

/// Sets the four switches; without them an error is latched.
pub fn peios_token_builder_flags(b: &mut peios_token_builder, f: Option<&peios_token_flags>)
    requires
        old(b).wf(),
    ensures
        final(b).wf(),
        final(b).state() == (match f {
            Some(f) => old(b).state().with_scalars((TokenScalars { flags: *f, ..old(b).scalars })),
            None => old(b).state().latched(Errno::Inval),
        }),
{
    if b.error.is_some() {
        return;
    }
    match f {
        Some(f) => {
            b.scalars.flags = *f;
        },
        None => {
            b.latch(Errno::Inval);
        },
    }
}

/// The entry of a claim that a list can hold.
fn claim_payload(claim: Option<&peios_token_claim>) -> (r: Result<Vec<u8>, Errno>)
    requires
        claim matches Some(c) ==> c.wf(),
    ensures
        match r {
            Ok(b) => {
                &&& claim is Some
                &&& claim_encoding(*claim->Some_0) == Some(b@)
                &&& b@.len() <= u32::MAX
                &&& claim_sound(b@)
            },
            Err(e) => {
                &&& e == Errno::Inval
                &&& claim is None || claim_encoding(*claim->Some_0) is None || claim_encoding(
                    *claim->Some_0,
                )->Some_0.len() > u32::MAX
            },
        },
{
    match claim {
        Some(claim) => match encode_claim(claim) {
            Ok(payload) => if payload.len() as u64 > u32::MAX as u64 {
                Err(Errno::Inval)
            } else {
                Ok(payload)
            },
            Err(errno) => Err(errno),
        },
        None => Err(Errno::Inval),
    }
}

/// Adds a claim of the user; one that has no entry latches an error.
pub fn peios_token_builder_add_user_claim(b: &mut peios_token_builder, claim: Option<&peios_token_claim>)
    requires
        old(b).wf(),
        claim matches Some(c) ==> c.wf(),
    ensures
        final(b).wf(),
        final(b).state() == (match claim_added(old(b).state(), old(b).state().user_claims, claim) {
            Ok(user_claims) => TokenState { user_claims, ..old(b).state() },
            Err(st) => st,
        }),
{
    if b.error.is_some() {
        return;
    }
    match claim_payload(claim) {
        Ok(payload) => {
            b.user_claims.push(payload.as_slice());
        },
        Err(errno) => {
            b.latch(errno);
        },
    }
}

/// Adds a claim of the device; one that has no entry latches an error.
pub fn peios_token_builder_add_device_claim(b: &mut peios_token_builder, claim: Option<&peios_token_claim>)
    requires
        old(b).wf(),
        claim matches Some(c) ==> c.wf(),
    ensures
        final(b).wf(),
        final(b).state() == (match claim_added(old(b).state(), old(b).state().device_claims, claim) {
            Ok(device_claims) => TokenState { device_claims, ..old(b).state() },
            Err(st) => st,
        }),
{
    if b.error.is_some() {
        return;
    }
    match claim_payload(claim) {
        Ok(payload) => {
            b.device_claims.push(payload.as_slice());
        },
        Err(errno) => {
            b.latch(errno);
        },
    }
}

/// Sets the registry credentials; ones that do not fit latch an error.
pub fn peios_token_builder_lcs_credentials(b: &mut peios_token_builder, creds: Option<&peios_token_lcs_credentials>)
    requires
        old(b).wf(),
        creds matches Some(c) ==> c.wf(),
    ensures
        final(b).wf(),
        final(b).state() == (if old(b).error is Some {
            old(b).state()
        } else if creds is Some && lcs_encoding(*creds->Some_0) is Some {
            TokenState { lcs_credentials: lcs_encoding(*creds->Some_0), ..old(b).state() }
        } else {
            old(b).state().latched(Errno::Inval)
        }),
{
    if b.error.is_some() {
        return;
    }
    match creds {
        Some(creds) => match encode_lcs(creds) {
            Ok(ext) => {
                b.lcs_credentials = Some(ext);
            },
            Err(errno) => {
                b.latch(errno);
            },
        },
        None => {
            b.latch(Errno::Inval);
        },
    }
}

/// The finished description. Without one, the error is latched.
pub fn peios_token_builder_bytes(b: &mut peios_token_builder) -> (r: Result<&[u8], Errno>)
    requires
        old(b).wf(),
    ensures
        final(b).wf(),
        match r {
            Ok(s) => {
                &&& old(b).error is None
                &&& old(b).state().len() <= TOKEN_SPEC_MAX_BYTES
                &&& s@ == old(b).state().bytes()
                &&& final(b).state() == old(b).state()
            },
            Err(e) => {
                &&& e == (match old(b).error {
                    Some(latched) => latched,
                    None => Errno::Inval,
                })
                &&& old(b).error is Some || old(b).state().len() > TOKEN_SPEC_MAX_BYTES
                &&& final(b).state() == old(b).state().latched(e)
            },
        },
{
    match b.materialize() {
        Ok(()) => Ok(b.built.as_slice()),
        Err(errno) => {
            b.latch(errno);
            Err(errno)
        },
    }
}

/// The latched error.
pub fn peios_token_builder_error(b: Option<&peios_token_builder>) -> (e: Option<Errno>)
    ensures
        e == (match b {
            Some(b) => b.error,
            None => Some(Errno::Inval),
        }),
{
    match b {
        Some(b) => b.error,
        None => Some(Errno::Inval),
    }
}

/// The fixed part of a description is as long as it has to be.
proof fn lemma_header_len(st: TokenState)
    ensures
        scalar_bytes(st.scalars).len() == 88,
        directory_bytes(st.directory(), st.scalars.flags).len() == 104,
        st.bytes().len() == st.len(),
{
}

/// A section lies in the description at the place that the directory gives for it.
pub proof fn law_token_section_in_place(st: TokenState, k: int)
    requires
        0 <= k < 10,
        st.len() <= TOKEN_SPEC_MAX_BYTES,
        st.sections()[k] is Some,
    ensures
        ({
            let at = section_at(st.sections(), k) as int;
            let b = st.sections()[k]->Some_0;
            &&& TOKEN_SPEC_HEADER_BYTES <= at
            &&& at + b.len() <= st.bytes().len()
            &&& st.bytes().subrange(at, at + b.len()) == b
        }),
{
    let s = st.sections();
    let b = s[k]->Some_0;
    let before = area(s, k).len() as int;
    lemma_header_len(st);
    lemma_area_grows(s, k + 1, 10);
    lemma_area_prefix(s, k + 1, 10);
    let at = section_at(s, k) as int;
    assert(at == 192 + before);
    let all = area(s, 10);
    assert(st.bytes().subrange(at, at + b.len()) =~= all.subrange(before, before + b.len()));
    assert(all.subrange(before, before + b.len()) =~= area(s, k + 1).subrange(before, before + b.len()));
    assert(area(s, k + 1).subrange(before, before + b.len()) =~= b);
}

proof fn lemma_area_prefix(sections: Seq<Option<Seq<u8>>>, i: int, k: int)
    requires
        0 <= i <= k,
    ensures
        area(sections, i).len() <= area(sections, k).len(),
        area(sections, k).subrange(0, area(sections, i).len() as int) == area(sections, i),
    decreases k - i,
{
    let n = area(sections, i).len() as int;
    if i < k {
        lemma_area_prefix(sections, i, k - 1);
        assert(area(sections, k).subrange(0, n) =~= area(sections, k - 1).subrange(0, n));
    } else {
        assert(area(sections, k).subrange(0, n) =~= area(sections, i));
    }
}

/// Nothing follows the registry credentials: they run to the end of the description.
pub proof fn law_lcs_credentials_come_last(st: TokenState)
    requires
        st.len() <= TOKEN_SPEC_MAX_BYTES,
        st.lcs_credentials is Some,
    ensures
        st.bytes().subrange(section_at(st.sections(), 9) as int, st.bytes().len() as int)
            == st.lcs_credentials->Some_0,
{
    law_token_section_in_place(st, 9);
    lemma_header_len(st);
    let at = section_at(st.sections(), 9) as int;
    assert(area(st.sections(), 10) == area(st.sections(), 9) + part_bytes(st.sections()[9]));
    assert(st.bytes().len() == at + st.lcs_credentials->Some_0.len());
}

/// Without sections a description is just its header.
pub proof fn law_empty_description(st: TokenState)
    requires
        st.is_fresh(),
    ensures
        st.len() == TOKEN_SPEC_HEADER_BYTES,
        st.bytes() == scalar_bytes(st.scalars) + directory_bytes(st.directory(), st.scalars.flags),
        st.directory().user_sid_offset == 0,
        st.directory().groups_offset == 0,
        st.directory().groups_count == 0,
        st.directory().default_dacl_offset == 0,
        st.directory().lcs_credentials_offset == 0,
{
    let s = st.sections();
    assert(le32s(st.supp_gids).len() == 0);
    reveal_with_fuel(area, 11);
    assert(area(s, 10) =~= Seq::<u8>::empty());
    assert(st.bytes() =~= scalar_bytes(st.scalars) + directory_bytes(st.directory(), st.scalars.flags));
}

/// Once an error is latched it stays, and nothing but a reset changes what was given: this is
/// what every setter does to such a state.
pub proof fn law_token_error_is_sticky(st: TokenState, e: Errno, scalars: TokenScalars)
    requires
        st.error is Some,
    ensures
        st.latched(e) == st,
        st.with_scalars(scalars) == st,
        forall|l: Seq<(Seq<u8>, u32)>, sid: Option<&[u8]>, attrs: u32|
            sid_added(st, l, sid, attrs) == Err::<Seq<(Seq<u8>, u32)>, TokenState>(st),
        forall|l: Seq<Seq<u8>>, c: Option<&peios_token_claim>|
            claim_added(st, l, c) == Err::<Seq<Seq<u8>>, TokenState>(st),
{
}

/// The entries of a claim section from `p` on.
pub open spec fn claims_at(s: Seq<u8>, p: int) -> Option<Seq<Seq<u8>>>
    decreases s.len() - p,
{
    if p == s.len() {
        Some(Seq::empty())
    } else if p < 0 || p + 4 > s.len() || p + 4 + le32_at(s, p) > s.len() {
        None
    } else {
        let q = p + 4 + le32_at(s, p);
        match claims_at(s, q) {
            None => None,
            Some(rest) => Some(seq![s.subrange(p + 4, q)] + rest),
        }
    }
}

proof fn lemma_claims_front(c: Seq<u8>, rest: Seq<Seq<u8>>)
    ensures
        claims_bytes(seq![c] + rest) == le32(c.len() as u32) + c + claims_bytes(rest),
    decreases rest.len(),
{
    let all = seq![c] + rest;
    if rest.len() == 0 {
        assert(all.drop_last() =~= rest);
        assert(all.last() == c);
        assert(claims_bytes(rest) =~= Seq::<u8>::empty());
        assert(claims_bytes(all) =~= le32(c.len() as u32) + c + claims_bytes(rest));
    } else {
        lemma_claims_front(c, rest.drop_last());
        assert(all.drop_last() =~= seq![c] + rest.drop_last());
        assert(all.last() == rest.last());
        assert(claims_bytes(all) =~= le32(c.len() as u32) + c + claims_bytes(rest));
    }
}

/// The claims of a section read back, wherever in a sequence they end.
proof fn lemma_claims_read_back(pre: Seq<u8>, list: Seq<Seq<u8>>)
    requires
        forall|i: int| 0 <= i < list.len() ==> (#[trigger] list[i]).len() <= u32::MAX,
    ensures
        claims_at(pre + claims_bytes(list), pre.len() as int) == Some(list),
    decreases list.len(),
{
    let s = pre + claims_bytes(list);
    if list.len() == 0 {
        assert(list =~= Seq::<Seq<u8>>::empty());
    } else {
        let c = list[0];
        let n = c.len() as u32;
        let rest = list.subrange(1, list.len() as int);
        let p = pre.len() as int;
        assert(list =~= seq![c] + rest);
        lemma_claims_front(c, rest);
        assert(s.subrange(p, p + 4) =~= le32(n));
        law_le32_reads_back(s, p, n);
        assert(s.subrange(p + 4, p + 4 + n) =~= c);
        let next = pre + le32(n) + c;
        assert(s =~= next + claims_bytes(rest));
        assert forall|i: int| 0 <= i < rest.len() implies (#[trigger] rest[i]).len() <= u32::MAX by {
            assert(rest[i] == list[i + 1]);
        }
        lemma_claims_read_back(next, rest);
    }
}

/// The claims of a section read back as the entries that were added, in order.
pub proof fn law_claims_read_back(list: Seq<Seq<u8>>)
    requires
        forall|i: int| 0 <= i < list.len() ==> (#[trigger] list[i]).len() <= u32::MAX,
    ensures
        claims_at(claims_bytes(list), 0) == Some(list),
{
    lemma_claims_read_back(Seq::empty(), list);
    assert(Seq::<u8>::empty() + claims_bytes(list) =~= claims_bytes(list));
}

/// The fixed fields before the sections read back from a description.
#[verifier::spinoff_prover]
#[verifier::rlimit(60)]
pub proof fn law_token_scalars_read_back(st: TokenState)
    ensures
        ({
            let s = st.bytes();
            let c = st.scalars;
            &&& le32_at(s, 0) == TOKEN_SPEC_VERSION
            &&& s[4] == c.token_type
            &&& s[5] == c.impersonation_level
            &&& le32_at(s, 8) == c.integrity_rid
            &&& le32_at(s, 12) == c.mandatory_policy
            &&& le64_at(s, 16) == c.privs_present
            &&& le64_at(s, 24) == c.privs_enabled
            &&& le32_at(s, 36) == c.projected_uid
            &&& le32_at(s, 40) == c.projected_gid
            &&& le32_at(s, 44) == c.audit_policy
            &&& le64_at(s, 48) == c.expiration
            &&& le64_at(s, 56) == c.session_id
            &&& le32_at(s, 64) == c.owner_sid_index
            &&& le32_at(s, 68) == c.primary_group_index
            &&& s.subrange(72, 80) == c.source_name@
            &&& le64_at(s, 80) == c.source_id
        }),
{
    let s = st.bytes();
    let c = st.scalars;
    let f = scalar_bytes(c);
    lemma_header_len(st);
    assert(s.subrange(0, 4) =~= le32(TOKEN_SPEC_VERSION));
    law_le32_reads_back(s, 0, TOKEN_SPEC_VERSION);
    assert(s.subrange(8, 12) =~= le32(c.integrity_rid));
    law_le32_reads_back(s, 8, c.integrity_rid);
    assert(s.subrange(12, 16) =~= le32(c.mandatory_policy));
    law_le32_reads_back(s, 12, c.mandatory_policy);
    assert(s.subrange(16, 24) =~= le64(c.privs_present));
    law_le64_reads_back(s, 16, c.privs_present);
    assert(s.subrange(24, 32) =~= le64(c.privs_enabled));
    law_le64_reads_back(s, 24, c.privs_enabled);
    assert(s.subrange(36, 40) =~= le32(c.projected_uid));
    law_le32_reads_back(s, 36, c.projected_uid);
    assert(s.subrange(40, 44) =~= le32(c.projected_gid));
    law_le32_reads_back(s, 40, c.projected_gid);
    assert(s.subrange(44, 48) =~= le32(c.audit_policy));
    law_le32_reads_back(s, 44, c.audit_policy);
    assert(s.subrange(48, 56) =~= le64(c.expiration));
    law_le64_reads_back(s, 48, c.expiration);
    assert(s.subrange(56, 64) =~= le64(c.session_id));
    law_le64_reads_back(s, 56, c.session_id);
    assert(s.subrange(64, 68) =~= le32(c.owner_sid_index));
    law_le32_reads_back(s, 64, c.owner_sid_index);
    assert(s.subrange(68, 72) =~= le32(c.primary_group_index));
    law_le32_reads_back(s, 68, c.primary_group_index);
    assert(s.subrange(80, 88) =~= le64(c.source_id));
    law_le64_reads_back(s, 80, c.source_id);
    assert(s[4] == f[4] && s[5] == f[5]);
    assert(s.subrange(72, 80) =~= c.source_name@);
}

#[verifier::spinoff_prover]
proof fn lemma_directory_a(d: Directory, f: peios_token_flags)
    ensures
        directory_bytes(d, f).subrange(0, 4) == le32(d.user_sid_offset),
        directory_bytes(d, f).subrange(4, 8) == le32(d.groups_offset),
        directory_bytes(d, f).subrange(8, 12) == le32(d.groups_count),
        directory_bytes(d, f).subrange(12, 16) == le32(d.default_dacl_offset),
        directory_bytes(d, f).subrange(16, 20) == le32(d.default_dacl_len),
        directory_bytes(d, f).subrange(20, 24) == le32(d.user_claims_offset),
{
    let h = directory_bytes(d, f);
    assert(h.subrange(0, 4) =~= le32(d.user_sid_offset));
    assert(h.subrange(4, 8) =~= le32(d.groups_offset));
    assert(h.subrange(8, 12) =~= le32(d.groups_count));
    assert(h.subrange(12, 16) =~= le32(d.default_dacl_offset));
    assert(h.subrange(16, 20) =~= le32(d.default_dacl_len));
    assert(h.subrange(20, 24) =~= le32(d.user_claims_offset));
}

#[verifier::spinoff_prover]
proof fn lemma_directory_b(d: Directory, f: peios_token_flags)
    ensures
        directory_bytes(d, f).subrange(24, 28) == le32(d.user_claims_len),
        directory_bytes(d, f).subrange(28, 32) == le32(d.device_claims_offset),
        directory_bytes(d, f).subrange(32, 36) == le32(d.device_claims_len),
        directory_bytes(d, f).subrange(36, 40) == le32(d.device_groups_offset),
        directory_bytes(d, f).subrange(40, 44) == le32(d.device_groups_count),
        directory_bytes(d, f).subrange(44, 48) == le32(d.restricted_sids_offset),
{
    let h = directory_bytes(d, f);
    assert(h.subrange(24, 28) =~= le32(d.user_claims_len));
    assert(h.subrange(28, 32) =~= le32(d.device_claims_offset));
    assert(h.subrange(32, 36) =~= le32(d.device_claims_len));
    assert(h.subrange(36, 40) =~= le32(d.device_groups_offset));
    assert(h.subrange(40, 44) =~= le32(d.device_groups_count));
    assert(h.subrange(44, 48) =~= le32(d.restricted_sids_offset));
}

#[verifier::spinoff_prover]
proof fn lemma_directory_c(d: Directory, f: peios_token_flags)
    ensures
        directory_bytes(d, f).subrange(48, 52) == le32(d.restricted_sids_count),
        directory_bytes(d, f).subrange(52, 56) == le32(d.confinement_sid_offset),
        directory_bytes(d, f).subrange(56, 60) == le32(d.confinement_sid_len),
        directory_bytes(d, f).subrange(72, 76) == le32(d.supp_gids_offset),
        directory_bytes(d, f).subrange(76, 80) == le32(d.supp_gids_count),
        directory_bytes(d, f).subrange(100, 104) == le32(d.lcs_credentials_offset),
{
    let h = directory_bytes(d, f);
    assert(h.subrange(48, 52) =~= le32(d.restricted_sids_count));
    assert(h.subrange(52, 56) =~= le32(d.confinement_sid_offset));
    assert(h.subrange(56, 60) =~= le32(d.confinement_sid_len));
    assert(h.subrange(72, 76) =~= le32(d.supp_gids_offset));
    assert(h.subrange(76, 80) =~= le32(d.supp_gids_count));
    assert(h.subrange(100, 104) =~= le32(d.lcs_credentials_offset));
}

#[verifier::spinoff_prover]
proof fn lemma_directory_switches(d: Directory, f: peios_token_flags)
    ensures
        directory_bytes(d, f).subrange(68, 72) == seq![
            switch(f.confinement_exempt),
            switch(f.write_restricted),
            switch(f.user_deny_only),
            switch(f.isolation_boundary),
        ],
{
    assert(directory_bytes(d, f).subrange(68, 72) =~= seq![
        switch(f.confinement_exempt),
        switch(f.write_restricted),
        switch(f.user_deny_only),
        switch(f.isolation_boundary),
    ]);
}

proof fn lemma_directory_byte(st: TokenState, i: int)
    requires
        88 <= i < 192,
    ensures
        st.bytes()[i] == directory_bytes(st.directory(), st.scalars.flags)[i - 88],
{
    lemma_header_len(st);
}

proof fn lemma_directory_word(st: TokenState, off: int, v: u32)
    requires
        88 <= off <= 188,
        directory_bytes(st.directory(), st.scalars.flags).subrange(off - 88, off - 84) == le32(v),
    ensures
        le32_at(st.bytes(), off) == v,
{
    let s = st.bytes();
    let h = directory_bytes(st.directory(), st.scalars.flags);
    lemma_header_len(st);
    assert(s.subrange(off, off + 4) =~= h.subrange(off - 88, off - 84));
    law_le32_reads_back(s, off, v);
}

/// The directory and the switches read back from a description.
#[verifier::spinoff_prover]
#[verifier::rlimit(60)]
pub proof fn law_token_directory_reads_back(st: TokenState)
    ensures
        ({
            let s = st.bytes();
            let d = st.directory();
            let f = st.scalars.flags;
            &&& le32_at(s, 88) == d.user_sid_offset
            &&& le32_at(s, 92) == d.groups_offset
            &&& le32_at(s, 96) == d.groups_count
            &&& le32_at(s, 100) == d.default_dacl_offset
            &&& le32_at(s, 104) == d.default_dacl_len
            &&& le32_at(s, 108) == d.user_claims_offset
            &&& le32_at(s, 112) == d.user_claims_len
            &&& le32_at(s, 116) == d.device_claims_offset
            &&& le32_at(s, 120) == d.device_claims_len
            &&& le32_at(s, 124) == d.device_groups_offset
            &&& le32_at(s, 128) == d.device_groups_count
            &&& le32_at(s, 132) == d.restricted_sids_offset
            &&& le32_at(s, 136) == d.restricted_sids_count
            &&& le32_at(s, 140) == d.confinement_sid_offset
            &&& le32_at(s, 144) == d.confinement_sid_len
            &&& le32_at(s, 160) == d.supp_gids_offset
            &&& le32_at(s, 164) == d.supp_gids_count
            &&& le32_at(s, 188) == d.lcs_credentials_offset
            &&& s[156] == switch(f.confinement_exempt)
            &&& s[157] == switch(f.write_restricted)
            &&& s[158] == switch(f.user_deny_only)
            &&& s[159] == switch(f.isolation_boundary)
        }),
{
    let s = st.bytes();
    let d = st.directory();
    let f = st.scalars.flags;
    let h = directory_bytes(d, f);
    lemma_header_len(st);
    lemma_directory_a(d, f);
    lemma_directory_b(d, f);
    lemma_directory_c(d, f);
    lemma_directory_switches(d, f);
    lemma_directory_word(st, 88, d.user_sid_offset);
    lemma_directory_word(st, 92, d.groups_offset);
    lemma_directory_word(st, 96, d.groups_count);
    lemma_directory_word(st, 100, d.default_dacl_offset);
    lemma_directory_word(st, 104, d.default_dacl_len);
    lemma_directory_word(st, 108, d.user_claims_offset);
    lemma_directory_word(st, 112, d.user_claims_len);
    lemma_directory_word(st, 116, d.device_claims_offset);
    lemma_directory_word(st, 120, d.device_claims_len);
    lemma_directory_word(st, 124, d.device_groups_offset);
    lemma_directory_word(st, 128, d.device_groups_count);
    lemma_directory_word(st, 132, d.restricted_sids_offset);
    lemma_directory_word(st, 136, d.restricted_sids_count);
    lemma_directory_word(st, 140, d.confinement_sid_offset);
    lemma_directory_word(st, 144, d.confinement_sid_len);
    lemma_directory_word(st, 160, d.supp_gids_offset);
    lemma_directory_word(st, 164, d.supp_gids_count);
    lemma_directory_word(st, 188, d.lcs_credentials_offset);
    assert forall|i: int| 0 <= i < 4 implies s[156 + i] == #[trigger] h.subrange(68, 72)[i] by {
        lemma_directory_byte(st, 156 + i);
    }
    let w = h.subrange(68, 72);
    assert(s[156] == w[0] && s[157] == w[1] && s[158] == w[2] && s[159] == w[3]);
}

} // verus!
