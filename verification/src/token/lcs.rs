//! Registry credentials: the scopes and the private layers that a token brings along.

use vstd::prelude::*;
use vstd::utf8::valid_utf8;
use crate::bytes::{is_utf8, law_le32_reads_back, le32, le32_at, put_le32, put_slice, same_bytes};
use crate::error::Errno;

verus! {

pub const LCS_EXT_VERSION: u32 = 1;

pub const LCS_MAX_SCOPE_GUIDS: u32 = 256;

pub const LCS_MAX_PRIVATE_LAYERS: u32 = 256;

pub const LCS_MAX_LAYER_NAME_BYTES: usize = 255;

/// Registry credentials as they are handed over. `None` stands for a null pointer.
#[allow(non_camel_case_types)]
#[derive(Clone, Copy)]
pub struct peios_token_lcs_credentials<'a> {
    pub scope_guids: Option<&'a [[u8; 16]]>,
    pub scope_count: u32,
    pub private_layers: Option<&'a [Option<&'a [u8]>]>,
    pub private_layer_count: u32,
}

impl<'a> peios_token_lcs_credentials<'a> {
    /// The arrays have as many items as the counts say.
    pub open spec fn wf(&self) -> bool {
        &&& self.scope_guids matches Some(g) ==> g@.len() == self.scope_count
        &&& self.private_layers matches Some(l) ==> l@.len() == self.private_layer_count
    }

    pub open spec fn guids(&self) -> Seq<[u8; 16]> {
        match self.scope_guids {
            Some(g) => g@,
            None => Seq::empty(),
        }
    }

    pub open spec fn layers(&self) -> Seq<Option<&'a [u8]>> {
        match self.private_layers {
            Some(l) => l@,
            None => Seq::empty(),
        }
    }
}

/// All bytes are zero.
pub open spec fn is_nil(g: Seq<u8>) -> bool {
    forall|k: int| 0 <= k < g.len() ==> g[k] == 0
}

/// The scopes are none of them nil and no two the same.
pub open spec fn guids_fit(gs: Seq<[u8; 16]>) -> bool {
    &&& forall|i: int| 0 <= i < gs.len() ==> !is_nil(#[trigger] gs[i]@)
    &&& forall|i: int, j: int| 0 <= i < j < gs.len() ==> (#[trigger] gs[i])@ != (#[trigger] gs[j])@
}

/// An ASCII letter in lower case; other bytes as they are.
pub open spec fn fold(b: u8) -> u8 {
    if 0x41 <= b <= 0x5a {
        (b + 0x20) as u8
    } else {
        b
    }
}

/// Two names differ at most in the case of ASCII letters.
pub open spec fn same_fold(a: Seq<u8>, b: Seq<u8>) -> bool {
    a.len() == b.len() && forall|k: int| 0 <= k < a.len() ==> fold(a[k]) == fold(#[trigger] b[k])
}

/// A name is UTF-8 text of 1 to 255 bytes without separators or terminators.
pub open spec fn layer_name_fits(n: Seq<u8>) -> bool {
    &&& 1 <= n.len() <= LCS_MAX_LAYER_NAME_BYTES
    &&& valid_utf8(n)
    &&& forall|k: int| 0 <= k < n.len() ==> (#[trigger] n[k]) != 0x2f && n[k] != 0x5c && n[k] != 0
}

/// Every layer has a fitting name, and no two the same but for case.
pub open spec fn layers_fit(ls: Seq<Option<&[u8]>>) -> bool {
    &&& forall|i: int| 0 <= i < ls.len() ==> (#[trigger] ls[i]) is Some && layer_name_fits(ls[i]->Some_0@)
    &&& forall|i: int, j: int|
        0 <= i < j < ls.len() ==> !same_fold((#[trigger] ls[i])->Some_0@, (#[trigger] ls[j])->Some_0@)
}

pub open spec fn guid_bytes(gs: Seq<[u8; 16]>) -> Seq<u8>
    decreases gs.len(),
{
    if gs.len() == 0 {
        Seq::empty()
    } else {
        guid_bytes(gs.drop_last()) + gs.last()@
    }
}

pub open spec fn length_bytes(ls: Seq<Option<&[u8]>>) -> Seq<u8>
    decreases ls.len(),
{
    if ls.len() == 0 {
        Seq::empty()
    } else {
        length_bytes(ls.drop_last()) + le32(ls.last()->Some_0@.len() as u32)
    }
}

pub open spec fn name_bytes(ls: Seq<Option<&[u8]>>) -> Seq<u8>
    decreases ls.len(),
{
    if ls.len() == 0 {
        Seq::empty()
    } else {
        name_bytes(ls.drop_last()) + ls.last()->Some_0@
    }
}

/// The extension: a version, a reserved word, the two counts, the scopes, the lengths of the
/// names, and the names.
pub open spec fn lcs_bytes(gs: Seq<[u8; 16]>, ls: Seq<Option<&[u8]>>) -> Seq<u8> {
    le32(LCS_EXT_VERSION) + le32(0) + le32(gs.len() as u32) + le32(ls.len() as u32) + guid_bytes(gs) + length_bytes(
        ls,
    ) + name_bytes(ls)
}

/// The extension for credentials as they are handed over; nothing if they do not fit.
pub open spec fn lcs_encoding(c: peios_token_lcs_credentials) -> Option<Seq<u8>> {
    if c.scope_count > LCS_MAX_SCOPE_GUIDS || c.private_layer_count > LCS_MAX_PRIVATE_LAYERS || (c.scope_count > 0
        && c.scope_guids is None) || (c.private_layer_count > 0 && c.private_layers is None) || !guids_fit(c.guids())
        || !layers_fit(c.layers()) {
        None
    } else {
        Some(lcs_bytes(c.guids(), c.layers()))
    }
}

fn all_zero(g: &[u8]) -> (nil: bool)
    ensures
        nil == is_nil(g@),
{
    let mut k: usize = 0;
    while k < g.len()
        invariant
            k <= g@.len(),
            forall|j: int| 0 <= j < k ==> g@[j] == 0,
        decreases g@.len() - k,
    {
        if g[k] != 0 {
            return false;
        }
        k = k + 1;
    }
    true
}

fn check_guids(gs: &[[u8; 16]]) -> (fit: bool)
    ensures
        fit == guids_fit(gs@),
{
    let mut i: usize = 0;
    while i < gs.len()
        invariant
            i <= gs@.len(),
            forall|a: int| 0 <= a < i ==> !is_nil(#[trigger] gs@[a]@),
            forall|a: int, b: int| 0 <= a < b < i ==> (#[trigger] gs@[a])@ != (#[trigger] gs@[b])@,
        decreases gs@.len() - i,
    {
        if all_zero(gs[i].as_slice()) {
            assert(is_nil(gs@[i as int]@));
            return false;
        }
        let mut j: usize = 0;
        while j < i
            invariant
                j <= i < gs@.len(),
                forall|a: int| 0 <= a < j ==> (#[trigger] gs@[a])@ != gs@[i as int]@,
            decreases i - j,
        {
            if same_bytes(gs[j].as_slice(), gs[i].as_slice()) {
                assert(gs@[j as int]@ == gs@[i as int]@);
                return false;
            }
            j = j + 1;
        }
        i = i + 1;
    }
    true
}

fn fold_byte(b: u8) -> (r: u8)
    ensures
        r == fold(b),
{
    if b >= 0x41 && b <= 0x5a {
        b + 0x20
    } else {
        b
    }
}

fn names_clash(a: &[u8], b: &[u8]) -> (same: bool)
    ensures
        same == same_fold(a@, b@),
{
    if a.len() != b.len() {
        return false;
    }
    let mut k: usize = 0;
    while k < a.len()
        invariant
            k <= a@.len(),
            a@.len() == b@.len(),
            forall|j: int| 0 <= j < k ==> fold(a@[j]) == fold(#[trigger] b@[j]),
        decreases a@.len() - k,
    {
        if fold_byte(a[k]) != fold_byte(b[k]) {
            assert(fold(a@[k as int]) != fold(b@[k as int]));
            return false;
        }
        k = k + 1;
    }
    true
}

fn check_layer_name(n: &[u8]) -> (fits: bool)
    ensures
        fits == layer_name_fits(n@),
{
    if n.len() == 0 || n.len() > LCS_MAX_LAYER_NAME_BYTES || !is_utf8(n) {
        return false;
    }
    let mut k: usize = 0;
    while k < n.len()
        invariant
            k <= n@.len(),
            forall|j: int| 0 <= j < k ==> (#[trigger] n@[j]) != 0x2f && n@[j] != 0x5c && n@[j] != 0,
        decreases n@.len() - k,
    {
        if n[k] == 0x2f || n[k] == 0x5c || n[k] == 0 {
            assert(n@[k as int] == 0x2f || n@[k as int] == 0x5c || n@[k as int] == 0);
            return false;
        }
        k = k + 1;
    }
    true
}

/// The names of the layers, if they fit.
fn collect_layers<'a>(ls: &[Option<&'a [u8]>]) -> (r: Option<Vec<&'a [u8]>>)
    ensures
        match r {
            Some(names) => {
                &&& layers_fit(ls@)
                &&& names@.len() == ls@.len()
                &&& forall|i: int| 0 <= i < ls@.len() ==> ls@[i] == Some(#[trigger] names@[i])
            },
            None => !layers_fit(ls@),
        },
{
    let mut names: Vec<&'a [u8]> = Vec::new();
    let mut i: usize = 0;
    while i < ls.len()
        invariant
            i <= ls@.len(),
            names@.len() == i,
            forall|a: int| 0 <= a < i ==> ls@[a] == Some(#[trigger] names@[a]),
            forall|a: int| 0 <= a < i ==> (#[trigger] ls@[a]) is Some && layer_name_fits(ls@[a]->Some_0@),
            forall|a: int, b: int|
                0 <= a < b < i ==> !same_fold((#[trigger] ls@[a])->Some_0@, (#[trigger] ls@[b])->Some_0@),
        decreases ls@.len() - i,
    {
        let name: &'a [u8] = match ls[i] {
            Some(name) => name,
            None => {
                assert(ls@[i as int] is None);
                return None;
            },
        };
        if !check_layer_name(name) {
            assert(!layer_name_fits(ls@[i as int]->Some_0@));
            return None;
        }
        let mut j: usize = 0;
        while j < i
            invariant
                j <= i < ls@.len(),
                names@.len() == i,
                ls@[i as int] == Some(name),
                forall|a: int| 0 <= a < i ==> ls@[a] == Some(#[trigger] names@[a]),
                forall|a: int| 0 <= a < j ==> !same_fold((#[trigger] ls@[a])->Some_0@, ls@[i as int]->Some_0@),
            decreases i - j,
        {
            if names_clash(names[j], name) {
                assert(ls@[j as int] == Some(names@[j as int]));
                assert(same_fold(ls@[j as int]->Some_0@, ls@[i as int]->Some_0@));
                return None;
            }
            assert(ls@[j as int] == Some(names@[j as int]));
            j = j + 1;
        }
        names.push(name);
        i = i + 1;
    }
    Some(names)
}

/// The extension for registry credentials.
pub fn encode_lcs(creds: &peios_token_lcs_credentials) -> (r: Result<Vec<u8>, Errno>)
    requires
        creds.wf(),
    ensures
        match r {
            Ok(b) => lcs_encoding(*creds) == Some(b@),
            Err(e) => e == Errno::Inval && lcs_encoding(*creds) is None,
        },
{
    if creds.scope_count > LCS_MAX_SCOPE_GUIDS || creds.private_layer_count > LCS_MAX_PRIVATE_LAYERS {
        return Err(Errno::Inval);
    }
    let no_guids: &[[u8; 16]] = &[];
    let guids: &[[u8; 16]] = match creds.scope_guids {
        Some(guids) => guids,
        None => {
            if creds.scope_count > 0 {
                return Err(Errno::Inval);
            }
            no_guids
        },
    };
    let ghost gs = creds.guids();
    assert(guids@ =~= gs);
    if !check_guids(guids) {
        return Err(Errno::Inval);
    }
    let no_layers: &[Option<&[u8]>] = &[];
    let layers: &[Option<&[u8]>] = match creds.private_layers {
        Some(layers) => layers,
        None => {
            if creds.private_layer_count > 0 {
                return Err(Errno::Inval);
            }
            no_layers
        },
    };
    let ghost ls = creds.layers();
    assert(layers@ =~= ls);
    let names: Vec<&[u8]> = match collect_layers(layers) {
        Some(names) => names,
        None => return Err(Errno::Inval),
    };
    let mut ext: Vec<u8> = Vec::new();
    put_le32(&mut ext, LCS_EXT_VERSION);
    put_le32(&mut ext, 0);
    put_le32(&mut ext, guids.len() as u32);
    put_le32(&mut ext, names.len() as u32);
    let ghost header = le32(LCS_EXT_VERSION) + le32(0) + le32(gs.len() as u32) + le32(ls.len() as u32);
    assert(ext@ =~= header);
    let mut i: usize = 0;
    assert(ext@ =~= header + guid_bytes(gs.take(0)));
    while i < guids.len()
        invariant
            i <= guids@.len(),
            guids@ == gs,
            ext@ == header + guid_bytes(gs.take(i as int)),
        decreases guids@.len() - i,
    {
        put_slice(&mut ext, guids[i].as_slice());
        assert(gs.take(i + 1).drop_last() =~= gs.take(i as int));
        assert(ext@ =~= header + guid_bytes(gs.take(i + 1)));
        i = i + 1;
    }
    assert(gs.take(i as int) =~= gs);
    let ghost scopes = ext@;
    let mut i: usize = 0;
    assert(ext@ =~= scopes + length_bytes(ls.take(0)));
    while i < names.len()
        invariant
            i <= names@.len(),
            names@.len() == ls.len(),
            layers_fit(ls),
            forall|a: int| 0 <= a < ls.len() ==> ls[a] == Some(#[trigger] names@[a]),
            ext@ == scopes + length_bytes(ls.take(i as int)),
        decreases names@.len() - i,
    {
        let name: &[u8] = names[i];
        assert(ls[i as int] == Some(names@[i as int]));
        assert(layer_name_fits(ls[i as int]->Some_0@));
        put_le32(&mut ext, name.len() as u32);
        assert(ls.take(i + 1).drop_last() =~= ls.take(i as int));
        assert(ext@ =~= scopes + length_bytes(ls.take(i + 1)));
        i = i + 1;
    }
    assert(ls.take(i as int) =~= ls);
    let ghost lengths = ext@;
    let mut i: usize = 0;
    assert(ext@ =~= lengths + name_bytes(ls.take(0)));
    while i < names.len()
        invariant
            i <= names@.len(),
            names@.len() == ls.len(),
            forall|a: int| 0 <= a < ls.len() ==> ls[a] == Some(#[trigger] names@[a]),
            ext@ == lengths + name_bytes(ls.take(i as int)),
        decreases names@.len() - i,
    {
        put_slice(&mut ext, names[i]);
        assert(ls[i as int] == Some(names@[i as int]));
        assert(ls.take(i + 1).drop_last() =~= ls.take(i as int));
        assert(ext@ =~= lengths + name_bytes(ls.take(i + 1)));
        i = i + 1;
    }
    assert(ls.take(i as int) =~= ls);
    Ok(ext)
}

proof fn lemma_guids(gs: Seq<[u8; 16]>, i: int)
    ensures
        guid_bytes(gs).len() == 16 * gs.len(),
        0 <= i < gs.len() ==> guid_bytes(gs).subrange(16 * i, 16 * i + 16) == gs[i]@,
    decreases gs.len(),
{
    if gs.len() > 0 {
        lemma_guids(gs.drop_last(), i);
        let s = guid_bytes(gs);
        if 0 <= i < gs.len() - 1 {
            assert(s.subrange(16 * i, 16 * i + 16) =~= guid_bytes(gs.drop_last()).subrange(16 * i, 16 * i + 16));
        } else if i == gs.len() - 1 {
            assert(s.subrange(16 * i, 16 * i + 16) =~= gs[i]@);
        }
    }
}

proof fn lemma_lengths(ls: Seq<Option<&[u8]>>, i: int)
    ensures
        length_bytes(ls).len() == 4 * ls.len(),
        0 <= i < ls.len() ==> length_bytes(ls).subrange(4 * i, 4 * i + 4) == le32(ls[i]->Some_0@.len() as u32),
    decreases ls.len(),
{
    if ls.len() > 0 {
        lemma_lengths(ls.drop_last(), i);
        let s = length_bytes(ls);
        if 0 <= i < ls.len() - 1 {
            assert(s.subrange(4 * i, 4 * i + 4) =~= length_bytes(ls.drop_last()).subrange(4 * i, 4 * i + 4));
        } else if i == ls.len() - 1 {
            assert(s.subrange(4 * i, 4 * i + 4) =~= le32(ls[i]->Some_0@.len() as u32));
        }
    }
}

proof fn lemma_names(ls: Seq<Option<&[u8]>>, i: int)
    requires
        0 <= i < ls.len(),
    ensures
        ({
            let at = name_bytes(ls.take(i)).len() as int;
            let n = ls[i]->Some_0@;
            at + n.len() <= name_bytes(ls).len() && name_bytes(ls).subrange(at, at + n.len()) == n
        }),
    decreases ls.len(),
{
    let at = name_bytes(ls.take(i)).len() as int;
    let n = ls[i]->Some_0@;
    if i < ls.len() - 1 {
        lemma_names(ls.drop_last(), i);
        assert(ls.drop_last().take(i) =~= ls.take(i));
        assert(name_bytes(ls).subrange(at, at + n.len()) =~= name_bytes(ls.drop_last()).subrange(at, at + n.len()));
    } else {
        assert(ls.take(i) =~= ls.drop_last());
        assert(name_bytes(ls).subrange(at, at + n.len()) =~= n);
    }
}

/// The counts of an extension read back, and nothing follows the names.
pub proof fn law_lcs_counts_read_back(gs: Seq<[u8; 16]>, ls: Seq<Option<&[u8]>>)
    requires
        gs.len() <= LCS_MAX_SCOPE_GUIDS,
        ls.len() <= LCS_MAX_PRIVATE_LAYERS,
    ensures
        ({
            let s = lcs_bytes(gs, ls);
            &&& le32_at(s, 0) == LCS_EXT_VERSION
            &&& le32_at(s, 4) == 0
            &&& le32_at(s, 8) == gs.len()
            &&& le32_at(s, 12) == ls.len()
            &&& s.len() == 16 + 16 * gs.len() + 4 * ls.len() + name_bytes(ls).len()
        }),
{
    let s = lcs_bytes(gs, ls);
    lemma_guids(gs, 0);
    lemma_lengths(ls, 0);
    assert(s.subrange(0, 4) =~= le32(LCS_EXT_VERSION));
    assert(s.subrange(4, 8) =~= le32(0));
    assert(s.subrange(8, 12) =~= le32(gs.len() as u32));
    assert(s.subrange(12, 16) =~= le32(ls.len() as u32));
    law_le32_reads_back(s, 0, LCS_EXT_VERSION);
    law_le32_reads_back(s, 4, 0);
    law_le32_reads_back(s, 8, gs.len() as u32);
    law_le32_reads_back(s, 12, ls.len() as u32);
}

/// A scope reads back from an extension.
pub proof fn law_lcs_scope_reads_back(gs: Seq<[u8; 16]>, ls: Seq<Option<&[u8]>>, i: int)
    requires
        0 <= i < gs.len(),
    ensures
        lcs_bytes(gs, ls).subrange(16 + 16 * i, 32 + 16 * i) == gs[i]@,
{
    lemma_guids(gs, i);
    assert(lcs_bytes(gs, ls).subrange(16 + 16 * i, 32 + 16 * i) =~= guid_bytes(gs).subrange(16 * i, 16 * i + 16));
}

/// A layer's name reads back from an extension: its length, and behind the names before it the
/// name itself.
pub proof fn law_lcs_layer_reads_back(gs: Seq<[u8; 16]>, ls: Seq<Option<&[u8]>>, i: int)
    requires
        layers_fit(ls),
        0 <= i < ls.len(),
    ensures
        ({
            let s = lcs_bytes(gs, ls);
            let lengths_at = 16 + 16 * gs.len();
            let at = lengths_at + 4 * ls.len() + name_bytes(ls.take(i)).len();
            let n = ls[i]->Some_0@;
            &&& le32_at(s, lengths_at + 4 * i) == n.len()
            &&& at + n.len() <= s.len()
            &&& s.subrange(at as int, (at + n.len()) as int) == n
        }),
{
    let s = lcs_bytes(gs, ls);
    let n = ls[i]->Some_0@;
    assert(layer_name_fits(n));
    lemma_guids(gs, 0);
    lemma_lengths(ls, i);
    lemma_names(ls, i);
    let p = 16 + 16 * gs.len() as int;
    assert(s.subrange(p + 4 * i, p + 4 * i + 4) =~= length_bytes(ls).subrange(4 * i, 4 * i + 4));
    law_le32_reads_back(s, p + 4 * i, n.len() as u32);
    let q = p + 4 * ls.len() as int;
    let start = name_bytes(ls.take(i)).len() as int;
    assert(s.subrange(q + start, q + start + n.len()) =~= name_bytes(ls).subrange(start, start + n.len()));
}

} // verus!
