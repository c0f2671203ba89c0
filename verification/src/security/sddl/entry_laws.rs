//! The text of an entry tells the entry.

use vstd::prelude::*;
use crate::security::codec::AceView;
use crate::security::sddl::claims::{claim_entry, claim_from, claim_printable, claim_text};
use crate::security::sddl::claims_laws::{law_claim_forms_agree, law_claim_text_reads_back};
use crate::security::sddl::cond::{condition_text, printable};
use crate::security::sddl::cond_laws::{law_condition_forms_agree, law_condition_text_reads_back};
use crate::security::sddl::condition::{artx, encodable, filled, from_artx, height, MAX_HEIGHT};
use crate::security::sddl::entry::{
    ace_of_text, ace_text, count_fits, entry_ace, entry_fields, entry_of_fields, guid_field, guid_of_field, has_claim,
    has_condition, has_guids, law_entry_reads_back, mask_field, parenthesised, tail_of_field, tail_text, EntryView,
};
use crate::security::sddl::fields::{
    flags_from, flags_known, is_word, law_flags_round_trip, law_label_round_trip, law_rights_round_trip, lemma_word_plain,
    rights_from,
};
use crate::security::sddl::names::{law_guid_round_trip, law_sid_field_round_trip, sid_from_field};
use crate::security::sddl::scan::{
    balanced, clean, join, law_split_undoes_join, lemma_enclosed_clean, lemma_plain_clean,
};
use crate::security::sddl::vocab::{code_of_type, law_type_codes, type_of_code};
use crate::security::sddl::SddlErrorView;
use crate::security::sid::SidView;

verus! {

/// What stands behind the SID is what its text is read as.
pub open spec fn tail_told(t: u8, tail: Seq<u8>) -> bool {
    if has_claim(t) {
        match claim_from(tail) {
            Some(c) => claim_printable(c) && claim_entry(c) is Some && filled(claim_entry(c)->Some_0) == tail,
            None => false,
        }
    } else if tail.len() == 0 {
        true
    } else {
        match from_artx(tail) {
            Some(c) => has_condition(t) && printable(c) && encodable(c) && height(c) <= MAX_HEIGHT && artx(c) == tail,
            None => false,
        }
    }
}

/// An entry that its text tells.
pub open spec fn entry_told(e: EntryView) -> bool {
    &&& e.wf()
    &&& entry_ace(e).wf()
    &&& code_of_type(e.ace_type) is Some
    &&& flags_known(e.flags)
    &&& tail_told(e.ace_type, e.tail)
}

proof fn lemma_word_field(f: Seq<u8>)
    requires
        is_word(f),
    ensures
        clean(f, 0x3b),
{
    lemma_word_plain(f);
    lemma_plain_clean(f, 0x3b);
}

proof fn lemma_code(t: u8)
    requires
        code_of_type(t) is Some,
    ensures
        type_of_code(code_of_type(t)->Some_0) == Some(t),
        is_word(code_of_type(t)->Some_0),
{
    law_type_codes(t);
}

proof fn lemma_guid(g: Option<Seq<u8>>)
    requires
        g matches Some(b) ==> b.len() == 16,
    ensures
        guid_of_field(guid_field(g)) == Ok::<Option<Seq<u8>>, SddlErrorView>(g),
        is_word(guid_field(g)),
        g is None ==> guid_field(g).len() == 0,
{
    if let Some(b) = g {
        law_guid_round_trip(b);
    }
}

proof fn lemma_mask(t: u8, mask: u32)
    ensures
        rights_from(mask_field(t, mask), 0) == Some(mask),
        is_word(mask_field(t, mask)),
{
    law_rights_round_trip(mask);
    law_label_round_trip(mask);
}

/// What stands behind the SID is read back from its text.
proof fn lemma_tail(t: u8, tail: Seq<u8>)
    requires
        tail_told(t, tail),
    ensures
        tail_text(t, tail) is Some,
        match tail_text(t, tail)->Some_0 {
            Some(x) => balanced(x) && tail_of_field(t, parenthesised(x)) == Ok::<Seq<u8>, SddlErrorView>(tail) && (has_claim(t)
                || has_condition(t)),
            None => tail.len() == 0 && !has_claim(t),
        },
{
    if has_claim(t) {
        let c = claim_from(tail)->Some_0;
        law_claim_forms_agree(c);
        law_claim_text_reads_back(c);
        let f = parenthesised(claim_text(c));
        assert(f.subrange(1, f.len() - 1) =~= claim_text(c));
    } else if tail.len() > 0 {
        let c = from_artx(tail)->Some_0;
        law_condition_forms_agree(c);
        law_condition_text_reads_back(c);
        let f = parenthesised(condition_text(c));
        assert(f.subrange(1, f.len() - 1) =~= condition_text(c));
    }
}

/// The text inside the parentheses of an entry's text.
pub open spec fn inner_text(e: EntryView) -> Seq<u8> {
    join(entry_fields(code_of_type(e.ace_type)->Some_0, e, tail_text(e.ace_type, e.tail)->Some_0), 0x3b)
}

/// An entry is read from fields that are read one by one.
#[verifier::spinoff_prover]
proof fn lemma_entry_of(f: Seq<Seq<u8>>, e: EntryView)
    requires
        f.len() >= 6,
        type_of_code(f[0]) == Some(e.ace_type),
        count_fits(e.ace_type, f.len()),
        flags_from(f[1], 0) == Some(e.flags),
        rights_from(f[2], 0) == Some(e.mask),
        has_guids(e.ace_type) || (f[3].len() == 0 && f[4].len() == 0),
        guid_of_field(f[3]) == Ok::<Option<Seq<u8>>, SddlErrorView>(e.object),
        guid_of_field(f[4]) == Ok::<Option<Seq<u8>>, SddlErrorView>(e.inherited),
        sid_from_field(f[5]) == Ok::<SidView, SddlErrorView>(e.sid),
        if f.len() == 7 {
            tail_of_field(e.ace_type, f[6]) == Ok::<Seq<u8>, SddlErrorView>(e.tail)
        } else {
            e.tail.len() == 0
        },
    ensures
        entry_of_fields(f) == Ok::<EntryView, SddlErrorView>(e),
{
    assert(f.len() != 7 ==> e.tail =~= Seq::<u8>::empty());
    assert(entry_of_fields(f)->Ok_0 =~= e);
}

#[verifier::spinoff_prover]
#[verifier::rlimit(60)]
proof fn lemma_fields(e: EntryView)
    requires
        entry_told(e),
    ensures
        tail_text(e.ace_type, e.tail) is Some,
        ({
            let f = entry_fields(code_of_type(e.ace_type)->Some_0, e, tail_text(e.ace_type, e.tail)->Some_0);
            &&& entry_of_fields(f) == Ok::<EntryView, SddlErrorView>(e)
            &&& f.len() >= 6
            &&& forall|i: int| 0 <= i < f.len() ==> clean(#[trigger] f[i], 0x3b)
        }),
{
    let t = e.ace_type;
    lemma_code(t);
    law_flags_round_trip(e.flags);
    lemma_mask(t, e.mask);
    lemma_guid(e.object);
    lemma_guid(e.inherited);
    law_sid_field_round_trip(e.sid);
    lemma_tail(t, e.tail);
    let x = tail_text(t, e.tail)->Some_0;
    let f = entry_fields(code_of_type(t)->Some_0, e, x);
    assert(entry_of_fields(f) == Ok::<EntryView, SddlErrorView>(e)) by {
        lemma_entry_of(f, e);
    }
    lemma_word_field(f[0]);
    lemma_word_field(f[1]);
    lemma_word_field(f[2]);
    lemma_word_field(f[3]);
    lemma_word_field(f[4]);
    lemma_word_field(f[5]);
    if let Some(y) = x {
        lemma_enclosed_clean(y, 0x3b);
    }
}

/// The text of an entry tells it, and closes everything that it opens.
pub proof fn law_ace_text_reads_back(e: EntryView)
    requires
        entry_told(e),
    ensures
        ace_text(entry_ace(e)) == Ok::<Seq<u8>, SddlErrorView>(parenthesised(inner_text(e))),
        ace_of_text(inner_text(e)) == Ok::<AceView, SddlErrorView>(entry_ace(e)),
        balanced(inner_text(e)),
{
    reveal(ace_of_text);
    reveal(ace_text);
    lemma_fields(e);
    law_entry_reads_back(e);
    let f = entry_fields(code_of_type(e.ace_type)->Some_0, e, tail_text(e.ace_type, e.tail)->Some_0);
    law_split_undoes_join(f, 0x3b);
}

} // verus!
