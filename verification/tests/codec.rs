// Malformed bytes, and what does not fit the binary layout.

use peios::security::codec::{Acl, ParseError, SecurityDescriptor};
use peios::security::sddl::builders::{AceBuilder, AclBuilder, SdBuilder};
use peios::security::sddl::inherit::reinherit;
use peios::security::sddl::{Error, SddlError, ACL_DOES_NOT_FIT, SD_DOES_NOT_FIT};
use peios::security::sid::Sid;

const DACL_PRESENT: u16 = 0x0004;
const SELF_RELATIVE: u16 = 0x8000;

fn header(control: u16, owner: u32, group: u32, sacl: u32, dacl: u32) -> Vec<u8> {
    let mut v = vec![1u8, 0];
    v.extend_from_slice(&control.to_le_bytes());
    for off in [owner, group, sacl, dacl] {
        v.extend_from_slice(&off.to_le_bytes());
    }
    v
}

fn fault(s: &[u8]) -> Option<ParseError> {
    SecurityDescriptor::parse(s).err()
}

#[test]
fn descriptors_are_refused_for_their_first_fault() {
    let good = header(SELF_RELATIVE, 0, 0, 0, 0);
    assert_eq!(fault(&good), None);
    assert_eq!(fault(&good[..19]), Some(ParseError::SdTooShort));
    let mut revision = good.clone();
    revision[0] = 2;
    assert_eq!(fault(&revision), Some(ParseError::SdBadRevision));
    assert_eq!(fault(&header(SELF_RELATIVE, 100, 0, 0, 0)), Some(ParseError::SdOffsetOutOfBounds));
    assert_eq!(fault(&header(SELF_RELATIVE, 0, 20, 0, 0)), Some(ParseError::SidMalformed));
}

#[test]
fn lists_are_looked_at_when_they_are_asked_for() {
    let mut short = header(SELF_RELATIVE | DACL_PRESENT, 0, 0, 0, 20);
    short.extend_from_slice(&[2, 0, 8, 0]);
    assert_eq!(SecurityDescriptor::parse(&short).unwrap().dacl().err(), Some(ParseError::AclTooShort));

    let mut long = header(SELF_RELATIVE | DACL_PRESENT, 0, 0, 0, 20);
    long.extend_from_slice(&[2, 0, 16, 0, 0, 0, 0, 0]);
    assert_eq!(SecurityDescriptor::parse(&long).unwrap().dacl().err(), Some(ParseError::AclSizeOutOfBounds));
    assert_eq!(Acl::parse(&[2, 0, 4, 0, 0, 0, 0, 0]).err(), Some(ParseError::AclSizeOutOfBounds));

    // A list that is not marked present is not there.
    let absent = header(SELF_RELATIVE, 0, 0, 0, 20);
    assert!(SecurityDescriptor::parse(&absent).unwrap().dacl().unwrap().is_none());
}

#[test]
fn a_torn_list_passes_nothing_on_and_is_not_rebuilt() {
    // One entry is announced, and none is there.
    let mut torn = header(SELF_RELATIVE | DACL_PRESENT, 0, 0, 0, 20);
    torn.extend_from_slice(&[2, 0, 8, 0, 1, 0, 0, 0]);
    let bare = header(SELF_RELATIVE, 0, 0, 0, 0);
    assert_eq!(reinherit(&torn, &bare, true), Ok(bare.clone()));
    assert_eq!(reinherit(&bare, &torn, true), Err(Error::Parse(ParseError::AceMalformed)));
}

#[test]
fn what_does_not_fit_is_not_built() {
    let everyone = Sid::new(1, 1, vec![0]);
    let mut b = AclBuilder::new();
    // Each entry takes twenty bytes.
    for _ in 0..4000 {
        b = b.ace(AceBuilder::allow(&everyone, 1));
    }
    assert_eq!(b.build(), Err(Error::Encode(ACL_DOES_NOT_FIT)));

    let mut half = AclBuilder::new();
    let mut other = AclBuilder::new();
    for _ in 0..2000 {
        half = half.ace(AceBuilder::allow(&everyone, 1));
        other = other.ace(AceBuilder::audit(&everyone, 1));
    }
    assert_eq!(half.build().unwrap().len(), 8 + 2000 * 20);
    assert_eq!(SdBuilder::new().dacl(half).sacl(other).build(), Err(Error::Encode(SD_DOES_NOT_FIT)));
    assert_eq!(SdBuilder::new().dacl(b).build(), Err(Error::Encode(ACL_DOES_NOT_FIT)));
}

#[test]
fn errors_are_told_apart_by_where_they_come_from() {
    assert_eq!(Error::from(ParseError::SdTooShort), Error::Parse(ParseError::SdTooShort));
    assert_eq!(Error::from(SddlError::Empty), Error::Sddl(SddlError::Empty));
}
