//! Builders of entries, lists and descriptors.

use vstd::prelude::*;
use vstd::slice::slice_to_vec;
use crate::bytes::{le32, put_le16, put_le32, put_slice};
use crate::security::codec::{
    ace_bytes, aces_bytes, acl_bytes, assemble_sd, law_acl_round_trip, min_revision, needs_ds_revision, opt_sid_bytes,
    opt_sid_view, opt_vec_view, sd_bytes, sd_len, AceRef, AceView, ACE_TYPE_ACCESS_ALLOWED, ACE_TYPE_ACCESS_DENIED,
    ACE_TYPE_SYSTEM_AUDIT, ACL_REVISION, ACL_REVISION_DS, SE_DACL_PRESENT, SE_SACL_PRESENT, SE_SELF_RELATIVE,
};
use crate::security::sddl::{Error, ACL_DOES_NOT_FIT, SD_DOES_NOT_FIT};
use crate::security::sid::{law_sid_round_trip, sid_bytes, Sid, SidView};

verus! {

/// The body of an entry that is a mask and a SID.
pub open spec fn mask_sid_body(mask: u32, sid: SidView) -> Seq<u8> {
    le32(mask) + sid_bytes(sid)
}

/// An entry to be put into a list.
pub struct AceBuilder {
    pub ace_type: u8,
    pub flags: u8,
    pub body: Vec<u8>,
}

impl View for AceBuilder {
    type V = AceView;

    open spec fn view(&self) -> AceView {
        AceView { ace_type: self.ace_type, flags: self.flags, body: self.body@ }
    }
}

impl AceBuilder {
    /// An entry of the given type whose body is a mask and a SID.
    pub fn mask_sid(ace_type: u8, sid: &Sid, mask: u32) -> (ace: AceBuilder)
        requires
            sid.wf(),
        ensures
            ace@ == (AceView { ace_type, flags: 0, body: mask_sid_body(mask, sid@) }),
            ace@.wf(),
    {
        let mut body: Vec<u8> = Vec::new();
        put_le32(&mut body, mask);
        put_slice(&mut body, sid.encode().as_slice());
        proof {
            law_sid_round_trip(Seq::empty(), sid@, Seq::empty());
            assert(body@ =~= mask_sid_body(mask, sid@));
        }
        AceBuilder { ace_type, flags: 0, body }
    }

    pub fn allow(sid: &Sid, mask: u32) -> (ace: AceBuilder)
        requires
            sid.wf(),
        ensures
            ace@ == (AceView { ace_type: ACE_TYPE_ACCESS_ALLOWED, flags: 0, body: mask_sid_body(mask, sid@) }),
            ace@.wf(),
    {
        AceBuilder::mask_sid(ACE_TYPE_ACCESS_ALLOWED, sid, mask)
    }

    pub fn deny(sid: &Sid, mask: u32) -> (ace: AceBuilder)
        requires
            sid.wf(),
        ensures
            ace@ == (AceView { ace_type: ACE_TYPE_ACCESS_DENIED, flags: 0, body: mask_sid_body(mask, sid@) }),
            ace@.wf(),
    {
        AceBuilder::mask_sid(ACE_TYPE_ACCESS_DENIED, sid, mask)
    }

    pub fn audit(sid: &Sid, mask: u32) -> (ace: AceBuilder)
        requires
            sid.wf(),
        ensures
            ace@ == (AceView { ace_type: ACE_TYPE_SYSTEM_AUDIT, flags: 0, body: mask_sid_body(mask, sid@) }),
            ace@.wf(),
    {
        AceBuilder::mask_sid(ACE_TYPE_SYSTEM_AUDIT, sid, mask)
    }

    /// A copy of an entry of a list.
    pub fn from_ace_ref(ace: &AceRef) -> (copy: AceBuilder)
        ensures
            copy@ == ace@,
    {
        AceBuilder { ace_type: ace.ace_type, flags: ace.flags, body: slice_to_vec(ace.body) }
    }

    /// The entry with other flags.
    pub fn flags(self, flags: u8) -> (ace: AceBuilder)
        ensures
            ace@ == (AceView { flags, ..self@ }),
    {
        AceBuilder { ace_type: self.ace_type, flags, body: self.body }
    }

    /// The binary form.
    pub fn build(&self) -> (out: Vec<u8>)
        requires
            self.body@.len() + 4 <= 0xffff,
        ensures
            out@ == ace_bytes(self@),
    {
        let mut out: Vec<u8> = Vec::new();
        out.push(self.ace_type);
        out.push(self.flags);
        put_le16(&mut out, (4 + self.body.len()) as u16);
        put_slice(&mut out, self.body.as_slice());
        assert(out@ =~= ace_bytes(self@));
        out
    }
}

/// What the entries of a builder say.
pub open spec fn builder_views(aces: Seq<AceBuilder>) -> Seq<AceView> {
    Seq::new(aces.len(), |i: int| aces[i]@)
}

/// Entries that fit one list.
pub open spec fn buildable(aces: Seq<AceView>) -> bool {
    &&& forall|i: int| 0 <= i < aces.len() ==> (#[trigger] aces[i]).wf()
    &&& 8 + aces_bytes(aces).len() <= 0xffff
}

/// The list that is built from entries, with the smallest revision.
pub open spec fn built_acl(aces: Seq<AceView>) -> Result<Seq<u8>, Error> {
    if buildable(aces) {
        Ok(acl_bytes(min_revision(aces), 0, aces))
    } else {
        Err(Error::Encode(ACL_DOES_NOT_FIT))
    }
}

/// Every entry takes at least four bytes.
pub proof fn lemma_aces_len(aces: Seq<AceView>)
    ensures
        4 * aces.len() <= aces_bytes(aces).len(),
    decreases aces.len(),
{
    if aces.len() > 0 {
        lemma_aces_len(aces.drop_last());
    }
}

/// Fewer entries take fewer bytes.
pub proof fn lemma_aces_prefix(aces: Seq<AceView>, k: int)
    requires
        0 <= k <= aces.len(),
    ensures
        aces_bytes(aces.take(k)).len() <= aces_bytes(aces).len(),
    decreases aces.len(),
{
    if k == aces.len() {
        assert(aces.take(k) =~= aces);
    } else {
        lemma_aces_prefix(aces.drop_last(), k);
        assert(aces.drop_last().take(k) =~= aces.take(k));
    }
}

/// A list under construction.
pub struct AclBuilder {
    pub aces: Vec<AceBuilder>,
}

impl View for AclBuilder {
    type V = Seq<AceView>;

    open spec fn view(&self) -> Seq<AceView> {
        builder_views(self.aces@)
    }
}

impl AclBuilder {
    pub fn new() -> (b: AclBuilder)
        ensures
            b@ == Seq::<AceView>::empty(),
    {
        let b = AclBuilder { aces: Vec::new() };
        assert(b@ =~= Seq::<AceView>::empty());
        b
    }

    /// Appends an entry.
    pub fn ace(self, ace: AceBuilder) -> (b: AclBuilder)
        ensures
            b@ == self@.push(ace@),
    {
        let mut aces = self.aces;
        aces.push(ace);
        let b = AclBuilder { aces };
        assert(b@ =~= self@.push(ace@));
        b
    }

    pub fn is_empty(&self) -> (empty: bool)
        ensures
            empty == (self@.len() == 0),
    {
        self.aces.len() == 0
    }

    /// The binary form, if the entries fit.
    pub fn build(&self) -> (r: Result<Vec<u8>, Error>)
        ensures
            match r {
                Ok(out) => built_acl(self@) == Ok::<Seq<u8>, Error>(out@),
                Err(e) => built_acl(self@) == Err::<Seq<u8>, Error>(e),
            },
    {
        let mut body: Vec<u8> = Vec::new();
        let mut ds: bool = false;
        let mut i: usize = 0;
        assert(self@.take(0) =~= Seq::<AceView>::empty());
        while i < self.aces.len()
            invariant
                i <= self.aces@.len(),
                body@ == aces_bytes(self@.take(i as int)),
                body@.len() + 8 <= 0xffff,
                forall|j: int| 0 <= j < i ==> (#[trigger] self@[j]).wf(),
                ds == (exists|j: int| 0 <= j < i && needs_ds_revision(#[trigger] self@[j].ace_type)),
            decreases self.aces@.len() - i,
        {
            let ace = &self.aces[i];
            let ghost next = self@.take(i + 1);
            assert(next.drop_last() =~= self@.take(i as int));
            assert(self@[i as int] == ace@);
            let n: usize = ace.body.len();
            if n > 0xfffb || n % 4 != 0 {
                return Err(Error::Encode(ACL_DOES_NOT_FIT));
            }
            if n + 4 > 0xffff - 8 - body.len() {
                proof {
                    lemma_aces_prefix(self@, i + 1);
                }
                return Err(Error::Encode(ACL_DOES_NOT_FIT));
            }
            put_slice(&mut body, ace.build().as_slice());
            if ace.ace_type >= 0x05 && ace.ace_type <= 0x10 {
                ds = true;
            }
            i = i + 1;
        }
        assert(self@.take(i as int) =~= self@);
        proof {
            lemma_aces_len(self@);
        }
        let mut out: Vec<u8> = Vec::new();
        out.push(if ds { ACL_REVISION_DS } else { ACL_REVISION });
        out.push(0);
        put_le16(&mut out, (8 + body.len()) as u16);
        put_le16(&mut out, self.aces.len() as u16);
        out.push(0);
        out.push(0);
        put_slice(&mut out, body.as_slice());
        assert(out@ =~= acl_bytes(min_revision(self@), 0, self@));
        Ok(out)
    }
}

/// The control word of a descriptor that is built: it is self-relative, the lists are
/// marked as they are there, and the other bits are taken over.
pub open spec fn built_control(extra: u16, sacl: bool, dacl: bool) -> u16 {
    SE_SELF_RELATIVE | (if dacl {
        SE_DACL_PRESENT
    } else {
        0
    }) | (if sacl {
        SE_SACL_PRESENT
    } else {
        0
    }) | (extra & 0x7feb)
}

/// The control word of a built descriptor marks exactly the lists that are there.
pub proof fn law_built_control(extra: u16, sacl: bool, dacl: bool)
    ensures
        built_control(extra, sacl, dacl) & SE_SELF_RELATIVE != 0,
        (built_control(extra, sacl, dacl) & SE_SACL_PRESENT != 0) == sacl,
        (built_control(extra, sacl, dacl) & SE_DACL_PRESENT != 0) == dacl,
{
    let d: u16 = if dacl { 4 } else { 0 };
    let s: u16 = if sacl { 0x10 } else { 0 };
    assert((0x8000u16 | d | s | (extra & 0x7feb)) & 0x8000 != 0) by (bit_vector);
    assert(((0x8000u16 | d | s | (extra & 0x7feb)) & 0x10 != 0) == (s == 0x10)) by (bit_vector)
        requires
            d == 0 || d == 4,
            s == 0 || s == 0x10,
    ;
    assert(((0x8000u16 | d | s | (extra & 0x7feb)) & 4 != 0) == (d == 4)) by (bit_vector)
        requires
            d == 0 || d == 4,
            s == 0 || s == 0x10,
    ;
}

/// What a descriptor builder has been given.
#[verifier::ext_equal]
pub struct SdParts {
    pub owner: Option<SidView>,
    pub group: Option<SidView>,
    pub sacl: Option<Seq<AceView>>,
    pub dacl: Option<Seq<AceView>>,
    pub control: u16,
}

/// The list of optional entries.
pub open spec fn opt_acl(aces: Option<Seq<AceView>>) -> Option<Seq<u8>> {
    match aces {
        Some(a) => Some(acl_bytes(min_revision(a), 0, a)),
        None => None,
    }
}

/// The entries fit their lists.
pub open spec fn lists_buildable(p: SdParts) -> bool {
    &&& p.sacl matches Some(a) ==> buildable(a)
    &&& p.dacl matches Some(a) ==> buildable(a)
}

/// The components fit their lists and the whole fits the size limit of descriptors.
pub open spec fn sd_buildable(p: SdParts) -> bool {
    &&& lists_buildable(p)
    &&& sd_len(opt_sid_bytes(p.owner), opt_sid_bytes(p.group), opt_acl(p.sacl), opt_acl(p.dacl)) <= 0xffff
}

/// The descriptor that is built from its parts.
pub open spec fn built_sd(p: SdParts) -> Result<Seq<u8>, Error> {
    if sd_buildable(p) {
        Ok(
            sd_bytes(
                0,
                built_control(p.control, p.sacl is Some, p.dacl is Some),
                opt_sid_bytes(p.owner),
                opt_sid_bytes(p.group),
                opt_acl(p.sacl),
                opt_acl(p.dacl),
            ),
        )
    } else if !lists_buildable(p) {
        Err(Error::Encode(ACL_DOES_NOT_FIT))
    } else {
        Err(Error::Encode(SD_DOES_NOT_FIT))
    }
}

/// A descriptor under construction.
pub struct SdBuilder {
    pub owner: Option<Sid>,
    pub group: Option<Sid>,
    pub sacl: Option<AclBuilder>,
    pub dacl: Option<AclBuilder>,
    pub control: u16,
}

pub open spec fn opt_aces(acl: Option<AclBuilder>) -> Option<Seq<AceView>> {
    match acl {
        Some(b) => Some(b@),
        None => None,
    }
}

impl View for SdBuilder {
    type V = SdParts;

    open spec fn view(&self) -> SdParts {
        SdParts {
            owner: opt_sid_view(self.owner),
            group: opt_sid_view(self.group),
            sacl: opt_aces(self.sacl),
            dacl: opt_aces(self.dacl),
            control: self.control,
        }
    }
}

/// Encodes an optional SID.
pub fn encode_opt_sid(sid: &Option<Sid>) -> (out: Option<Vec<u8>>)
    requires
        sid matches Some(s) ==> s.wf(),
    ensures
        opt_vec_view(out) == opt_sid_bytes(opt_sid_view(*sid)),
        out matches Some(b) ==> b@.len() <= 68,
{
    match sid {
        Some(s) => {
            proof {
                law_sid_round_trip(Seq::empty(), s@, Seq::empty());
            }
            Some(s.encode())
        },
        None => None,
    }
}

/// Builds an optional list.
fn build_opt_acl(acl: &Option<AclBuilder>) -> (r: Result<Option<Vec<u8>>, Error>)
    ensures
        match r {
            Ok(out) => {
                &&& opt_aces(*acl) matches Some(a) ==> buildable(a)
                &&& opt_vec_view(out) == opt_acl(opt_aces(*acl))
                &&& out matches Some(b) ==> b@.len() <= 0xffff
            },
            Err(e) => e == Error::Encode(ACL_DOES_NOT_FIT) && opt_aces(*acl) is Some && !buildable(opt_aces(*acl)->Some_0),
        },
{
    match acl {
        Some(b) => match b.build() {
            Ok(out) => Ok(Some(out)),
            Err(e) => Err(e),
        },
        None => Ok(None),
    }
}

impl SdBuilder {
    pub open spec fn wf(&self) -> bool {
        &&& self.owner matches Some(s) ==> s.wf()
        &&& self.group matches Some(s) ==> s.wf()
    }

    pub fn new() -> (b: SdBuilder)
        ensures
            b.wf(),
            b@ == (SdParts { owner: None, group: None, sacl: None, dacl: None, control: 0 }),
    {
        SdBuilder { owner: None, group: None, sacl: None, dacl: None, control: 0 }
    }

    pub fn owner(self, sid: Sid) -> (b: SdBuilder)
        requires
            self.wf(),
            sid.wf(),
        ensures
            b.wf(),
            b@ == (SdParts { owner: Some(sid@), ..self@ }),
    {
        SdBuilder { owner: Some(sid), group: self.group, sacl: self.sacl, dacl: self.dacl, control: self.control }
    }

    pub fn group(self, sid: Sid) -> (b: SdBuilder)
        requires
            self.wf(),
            sid.wf(),
        ensures
            b.wf(),
            b@ == (SdParts { group: Some(sid@), ..self@ }),
    {
        SdBuilder { owner: self.owner, group: Some(sid), sacl: self.sacl, dacl: self.dacl, control: self.control }
    }

    pub fn sacl(self, acl: AclBuilder) -> (b: SdBuilder)
        requires
            self.wf(),
        ensures
            b.wf(),
            b@ == (SdParts { sacl: Some(acl@), ..self@ }),
    {
        SdBuilder { owner: self.owner, group: self.group, sacl: Some(acl), dacl: self.dacl, control: self.control }
    }

    pub fn dacl(self, acl: AclBuilder) -> (b: SdBuilder)
        requires
            self.wf(),
        ensures
            b.wf(),
            b@ == (SdParts { dacl: Some(acl@), ..self@ }),
    {
        SdBuilder { owner: self.owner, group: self.group, sacl: self.sacl, dacl: Some(acl), control: self.control }
    }

    /// Adds control bits.
    pub fn control(self, bits: u16) -> (b: SdBuilder)
        requires
            self.wf(),
        ensures
            b.wf(),
            b@ == (SdParts { control: self.control | bits, ..self@ }),
    {
        SdBuilder {
            owner: self.owner,
            group: self.group,
            sacl: self.sacl,
            dacl: self.dacl,
            control: self.control | bits,
        }
    }

    /// The binary form, if the parts fit.
    pub fn build(&self) -> (r: Result<Vec<u8>, Error>)
        requires
            self.wf(),
        ensures
            match r {
                Ok(out) => built_sd(self@) == Ok::<Seq<u8>, Error>(out@),
                Err(e) => built_sd(self@) == Err::<Seq<u8>, Error>(e),
            },
    {
        let owner: Option<Vec<u8>> = encode_opt_sid(&self.owner);
        let group: Option<Vec<u8>> = encode_opt_sid(&self.group);
        let sacl: Option<Vec<u8>> = match build_opt_acl(&self.sacl) {
            Ok(b) => b,
            Err(e) => return Err(e),
        };
        let dacl: Option<Vec<u8>> = match build_opt_acl(&self.dacl) {
            Ok(b) => b,
            Err(e) => return Err(e),
        };
        let control: u16 = built_control_word(self.control, sacl.is_some(), dacl.is_some());
        let out: Vec<u8> = assemble_sd(0, control, &owner, &group, &sacl, &dacl);
        proof {
            lemma_sd_bytes_len(
                0,
                control,
                opt_vec_view(owner),
                opt_vec_view(group),
                opt_vec_view(sacl),
                opt_vec_view(dacl),
            );
        }
        if out.len() > 0xffff {
            return Err(Error::Encode(SD_DOES_NOT_FIT));
        }
        Ok(out)
    }
}

/// The length of a descriptor's binary form.
pub proof fn lemma_sd_bytes_len(
    sbz1: u8,
    control: u16,
    owner: Option<Seq<u8>>,
    group: Option<Seq<u8>>,
    sacl: Option<Seq<u8>>,
    dacl: Option<Seq<u8>>,
)
    ensures
        sd_bytes(sbz1, control, owner, group, sacl, dacl).len() == sd_len(owner, group, sacl, dacl),
{
}

/// Computes the control word of a descriptor that is built.
pub fn built_control_word(extra: u16, sacl: bool, dacl: bool) -> (control: u16)
    ensures
        control == built_control(extra, sacl, dacl),
{
    let d: u16 = if dacl { SE_DACL_PRESENT } else { 0 };
    let s: u16 = if sacl { SE_SACL_PRESENT } else { 0 };
    SE_SELF_RELATIVE | d | s | (extra & 0x7feb)
}

/// A built list is one list with exactly the entries that it was built from.
pub proof fn law_built_acl_reads_back(aces: Seq<AceView>)
    requires
        buildable(aces),
    ensures
        crate::security::codec::is_acl(built_acl(aces)->Ok_0),
        crate::security::codec::acl_aces(built_acl(aces)->Ok_0) == aces,
        crate::security::codec::acl_complete(built_acl(aces)->Ok_0),
{
    lemma_aces_len(aces);
    law_acl_round_trip(min_revision(aces), 0, aces);
}

} // verus!
