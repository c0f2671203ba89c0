//! The C entry points for descriptors as text and for the inheritance of entries. `None` stands
//! for a null pointer; text is what precedes its terminator.

use vstd::prelude::*;
use vstd::utf8::valid_utf8;
use crate::bytes::is_utf8;
use crate::error::Errno;
use crate::security::codec::{sd_fault, SecurityDescriptor};
use crate::security::sddl::builders::built_sd;
use crate::security::sddl::cond::{
    artx_of_text, format_condition_from_artx, parse_condition_to_artx, text_of_artx,
};
use crate::security::sddl::grammar::{parse, sd_format, sd_of_text, sd_parts};
use crate::security::sddl::grammar_laws::law_built_sd_says;
use crate::security::sddl::inherit::{reinherit, reinherited, strip_inherited_aces, stripped};
use crate::security::sddl::parsed_laws::{law_condition_fixed_point, law_read_sd_is_told, law_sd_fixed_point};
use crate::security::sddl::utf8_laws::{law_condition_text_is_utf8, law_sd_text_is_utf8};

verus! {

/// Text is shorter than this.
pub const MAX_SDDL_TEXT: usize = 65536;

/// Text that is there, not too long, and UTF-8.
pub open spec fn text_given(text: Option<&[u8]>) -> bool {
    text is Some && text->Some_0@.len() < MAX_SDDL_TEXT && valid_utf8(text->Some_0@)
}

fn given<'a>(text: Option<&'a [u8]>) -> (r: Option<&'a [u8]>)
    ensures
        match r {
            Some(s) => text_given(text) && s@ == text->Some_0@,
            None => !text_given(text),
        },
{
    match text {
        Some(s) => if s.len() < MAX_SDDL_TEXT && is_utf8(s) {
            Some(s)
        } else {
            None
        },
        None => None,
    }
}

/// The binary descriptor that text is; nothing if it is none or does not fit.
#[verifier::opaque]
pub open spec fn binary_of(s: Seq<u8>) -> Option<Seq<u8>> {
    match sd_of_text(s) {
        Err(_) => None,
        Ok(m) => match built_sd(sd_parts(m)) {
            Ok(b) => Some(b),
            Err(_) => None,
        },
    }
}

/// The binary descriptor of text that a caller gives.
pub open spec fn sd_from_string(text: Option<&[u8]>) -> Option<Seq<u8>> {
    if text_given(text) {
        binary_of(text->Some_0@)
    } else {
        None
    }
}

/// The binary descriptor of text.
pub fn peios_sddl_parse_sd(sddl: Option<&[u8]>) -> (r: Result<Vec<u8>, Errno>)
    ensures
        match r {
            Ok(out) => sd_from_string(sddl) == Some(out@),
            Err(e) => e == Errno::Inval && sd_from_string(sddl) is None,
        },
{
    reveal(binary_of);
    let s: &[u8] = match given(sddl) {
        Some(s) => s,
        None => return Err(Errno::Inval),
    };
    match parse(s) {
        Ok(b) => match b.build() {
            Ok(out) => Ok(out),
            Err(_) => Err(Errno::Inval),
        },
        Err(_) => Err(Errno::Inval),
    }
}

/// The text of a binary descriptor; nothing if it is malformed or no text tells it.
#[verifier::opaque]
pub open spec fn string_of(b: Seq<u8>) -> Option<Seq<u8>> {
    if sd_fault(b) is Some {
        None
    } else {
        match sd_format(b) {
            Ok(t) => Some(t),
            Err(_) => None,
        }
    }
}

/// The text of a binary descriptor that a caller gives.
pub open spec fn sd_to_string(sd: Option<&[u8]>) -> Option<Seq<u8>> {
    match sd {
        Some(b) => string_of(b@),
        None => None,
    }
}

/// The text of a binary descriptor.
pub fn peios_sddl_format_sd(sd: Option<&[u8]>) -> (r: Result<Vec<u8>, Errno>)
    ensures
        match r {
            Ok(out) => sd_to_string(sd) == Some(out@),
            Err(e) => e == Errno::Inval && sd_to_string(sd) is None,
        },
{
    reveal(string_of);
    let bytes: &[u8] = match sd {
        Some(bytes) => bytes,
        None => return Err(Errno::Inval),
    };
    match SecurityDescriptor::parse(bytes) {
        Ok(parsed) => match crate::security::sddl::grammar::format(&parsed) {
            Ok(out) => Ok(out),
            Err(_) => Err(Errno::Inval),
        },
        Err(_) => Err(Errno::Inval),
    }
}

/// The bytecode of an expression in text; nothing if it is none.
pub open spec fn condition_from_string(expr: Option<&[u8]>) -> Option<Seq<u8>> {
    if text_given(expr) {
        artx_of_text(expr->Some_0@)
    } else {
        None
    }
}

/// The text of an expression in bytecode; nothing if it is malformed or no text tells it.
pub open spec fn condition_to_string(artx: Option<&[u8]>) -> Option<Seq<u8>> {
    match artx {
        Some(s) => text_of_artx(s@),
        None => None,
    }
}

/// The bytecode of a conditional expression.
pub fn peios_sddl_parse_condition(expr: Option<&[u8]>) -> (r: Result<Vec<u8>, Errno>)
    ensures
        match r {
            Ok(out) => condition_from_string(expr) == Some(out@),
            Err(e) => e == Errno::Inval && condition_from_string(expr) is None,
        },
{
    let s: &[u8] = match given(expr) {
        Some(s) => s,
        None => return Err(Errno::Inval),
    };
    match parse_condition_to_artx(s) {
        Ok(out) => Ok(out),
        Err(_) => Err(Errno::Inval),
    }
}

/// The text of a conditional expression in bytecode.
pub fn peios_sddl_format_condition(artx: Option<&[u8]>) -> (r: Result<Vec<u8>, Errno>)
    ensures
        match r {
            Ok(out) => condition_to_string(artx) == Some(out@),
            Err(e) => e == Errno::Inval && condition_to_string(artx) is None,
        },
{
    let s: &[u8] = match artx {
        Some(s) => s,
        None => return Err(Errno::Inval),
    };
    match format_condition_from_artx(s) {
        Ok(out) => Ok(out),
        Err(_) => Err(Errno::Inval),
    }
}

/// The child's descriptor with its inherited entries derived anew from the parent's.
pub fn peios_sd_reinherit(parent: Option<&[u8]>, child: Option<&[u8]>, is_container: i32) -> (r: Result<
    Vec<u8>,
    Errno,
>)
    ensures
        match r {
            Ok(out) => parent is Some && child is Some && reinherited(
                parent->Some_0@,
                child->Some_0@,
                is_container != 0,
            ) == Ok::<Seq<u8>, crate::security::sddl::Error>(out@),
            Err(e) => e == Errno::Inval && (parent is None || child is None || reinherited(
                parent->Some_0@,
                child->Some_0@,
                is_container != 0,
            ) is Err),
        },
{
    match (parent, child) {
        (Some(p), Some(c)) => match reinherit(p, c, is_container != 0) {
            Ok(out) => Ok(out),
            Err(_) => Err(Errno::Inval),
        },
        _ => Err(Errno::Inval),
    }
}

/// The descriptor without the inherited entries of the lists that `info` selects.
pub fn peios_sd_strip_inherited(sd: Option<&[u8]>, info: u32) -> (r: Result<Vec<u8>, Errno>)
    ensures
        match r {
            Ok(out) => sd is Some && stripped(sd->Some_0@, info) == Ok::<Seq<u8>, crate::security::sddl::Error>(out@),
            Err(e) => e == Errno::Inval && (sd is None || stripped(sd->Some_0@, info) is Err),
        },
{
    match sd {
        Some(bytes) => match strip_inherited_aces(bytes, info) {
            Ok(out) => Ok(out),
            Err(_) => Err(Errno::Inval),
        },
        None => Err(Errno::Inval),
    }
}

proof fn lemma_fixed_point(s: Seq<u8>)
    requires
        binary_of(s) is Some,
    ensures
        string_of(binary_of(s)->Some_0) is Some,
        valid_utf8(string_of(binary_of(s)->Some_0)->Some_0),
        binary_of(string_of(binary_of(s)->Some_0)->Some_0) == binary_of(s),
{
    reveal(binary_of);
    reveal(string_of);
    let b = binary_of(s)->Some_0;
    law_sd_fixed_point(s);
    law_read_sd_is_told(s);
    law_built_sd_says(sd_of_text(s)->Ok_0);
    law_sd_text_is_utf8(b);
}

/// Formatting and parsing is a fixed point: whatever text gives a descriptor, the descriptor has a
/// text, and that text gives the same descriptor, unless it is too long to be taken.
pub proof fn law_format_parse_fixed_point(sddl: Option<&[u8]>, sd: Option<&[u8]>, text: Option<&[u8]>)
    requires
        sd_from_string(sddl) is Some,
        sd is Some,
        sd->Some_0@ == sd_from_string(sddl)->Some_0,
        text is Some,
        text->Some_0@.len() < MAX_SDDL_TEXT,
        sd_to_string(sd) is Some ==> text->Some_0@ == sd_to_string(sd)->Some_0,
    ensures
        sd_to_string(sd) is Some,
        sd_from_string(text) == sd_from_string(sddl),
{
    lemma_fixed_point(sddl->Some_0@);
}

/// Formatting and parsing is a fixed point for conditions too: whatever text gives bytecode, the
/// bytecode has a text, and that text gives the same bytecode, unless it is too long to be taken.
pub proof fn law_format_parse_condition_fixed_point(expr: Option<&[u8]>, artx: Option<&[u8]>, text: Option<&[u8]>)
    requires
        condition_from_string(expr) is Some,
        artx is Some,
        artx->Some_0@ == condition_from_string(expr)->Some_0,
        text is Some,
        text->Some_0@.len() < MAX_SDDL_TEXT,
        condition_to_string(artx) is Some ==> text->Some_0@ == condition_to_string(artx)->Some_0,
    ensures
        condition_to_string(artx) is Some,
        condition_from_string(text) == condition_from_string(expr),
{
    law_condition_fixed_point(expr->Some_0@);
    law_condition_text_is_utf8(artx->Some_0@);
}

} // verus!
