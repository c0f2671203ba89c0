// Which entries a child inherits, and what becomes of its descriptor.

use peios::security::codec::{
    Acl, ParseError, SecurityDescriptor, ACCESS_GENERIC_ALL, ACCESS_GENERIC_READ, ACE_FLAG_CONTAINER_INHERIT,
    ACE_FLAG_INHERITED, ACE_FLAG_INHERIT_ONLY, ACE_FLAG_NO_PROPAGATE_INHERIT, ACE_FLAG_OBJECT_INHERIT,
    DACL_SECURITY_INFORMATION, SACL_SECURITY_INFORMATION, SE_DACL_PROTECTED,
};
use peios::security::sddl::builders::{AceBuilder, AclBuilder, SdBuilder};
use peios::security::sddl::inherit::{compute_inherited_aces, reinherit, strip_inherited_aces};
use peios::security::sddl::wellknown::WellKnownSid;
use peios::security::sddl::Error;

const ALL_INHERIT_FLAGS: u8 =
    ACE_FLAG_OBJECT_INHERIT | ACE_FLAG_CONTAINER_INHERIT | ACE_FLAG_NO_PROPAGATE_INHERIT | ACE_FLAG_INHERIT_ONLY;

fn allow(who: WellKnownSid, mask: u32) -> AceBuilder {
    AceBuilder::allow(&who.to_sid(), mask)
}

fn everyone(flags: u8) -> AceBuilder {
    allow(WellKnownSid::Everyone, ACCESS_GENERIC_READ).flags(flags)
}

// The flags of the entries that a child inherits from one entry for everyone.
fn inherited(flags: u8, container: bool) -> Vec<u8> {
    let bytes = AclBuilder::new().ace(everyone(flags)).build().unwrap();
    let Ok(acl) = Acl::parse(&bytes) else { panic!("parse") };
    compute_inherited_aces(&acl, container).iter().map(|a| a.build()[1]).collect()
}

fn parsed(sd: &[u8]) -> SecurityDescriptor<'_> {
    match SecurityDescriptor::parse(sd) {
        Ok(sd) => sd,
        Err(e) => panic!("parse: {:?}", e),
    }
}

fn dacl<'a>(sd: &SecurityDescriptor<'a>) -> Acl<'a> {
    match sd.dacl() {
        Ok(Some(acl)) => acl,
        _ => panic!("no list"),
    }
}

fn sacl<'a>(sd: &SecurityDescriptor<'a>) -> Acl<'a> {
    match sd.sacl() {
        Ok(Some(acl)) => acl,
        _ => panic!("no list"),
    }
}

#[test]
fn no_inherit_flags_emits_nothing() {
    assert!(inherited(0, true).is_empty());
    assert!(inherited(0, false).is_empty());
}

#[test]
fn oi_only_to_file_clears_all_inherit_flags() {
    let out = inherited(ACE_FLAG_OBJECT_INHERIT, false);
    assert_eq!(out.len(), 1);
    assert!(out[0] & ACE_FLAG_INHERITED != 0);
    assert_eq!(out[0] & ALL_INHERIT_FLAGS, 0);
}

#[test]
fn oi_only_to_container_keeps_oi_sets_io() {
    let out = inherited(ACE_FLAG_OBJECT_INHERIT, true);
    assert_eq!(out.len(), 1);
    let f = out[0];
    assert!(f & ACE_FLAG_INHERITED != 0);
    assert!(f & ACE_FLAG_OBJECT_INHERIT != 0);
    assert!(f & ACE_FLAG_INHERIT_ONLY != 0);
    assert_eq!(f & ACE_FLAG_CONTAINER_INHERIT, 0);
    assert_eq!(f & ACE_FLAG_NO_PROPAGATE_INHERIT, 0);
}

#[test]
fn ci_only_to_file_emits_nothing() {
    assert!(inherited(ACE_FLAG_CONTAINER_INHERIT, false).is_empty());
}

#[test]
fn ci_only_to_container_keeps_ci_clears_io() {
    let out = inherited(ACE_FLAG_CONTAINER_INHERIT | ACE_FLAG_INHERIT_ONLY, true);
    assert_eq!(out.len(), 1);
    let f = out[0];
    assert!(f & ACE_FLAG_INHERITED != 0);
    assert!(f & ACE_FLAG_CONTAINER_INHERIT != 0);
    assert_eq!(f & ACE_FLAG_INHERIT_ONLY, 0);
    assert_eq!(f & ACE_FLAG_OBJECT_INHERIT, 0);
}

#[test]
fn ci_oi_to_container_keeps_both_clears_io() {
    let f = inherited(ACE_FLAG_CONTAINER_INHERIT | ACE_FLAG_OBJECT_INHERIT, true)[0];
    assert!(f & ACE_FLAG_INHERITED != 0);
    assert!(f & ACE_FLAG_CONTAINER_INHERIT != 0);
    assert!(f & ACE_FLAG_OBJECT_INHERIT != 0);
    assert_eq!(f & ACE_FLAG_INHERIT_ONLY, 0);
}

#[test]
fn np_collapses_to_one_level_on_container() {
    let f = inherited(
        ACE_FLAG_CONTAINER_INHERIT | ACE_FLAG_OBJECT_INHERIT | ACE_FLAG_NO_PROPAGATE_INHERIT,
        true,
    )[0];
    assert!(f & ACE_FLAG_INHERITED != 0);
    assert_eq!(f & ALL_INHERIT_FLAGS, 0);
}

#[test]
fn np_with_oi_only_to_container_emits_nothing() {
    // It applies to files only and does not go further than the immediate child.
    assert!(inherited(ACE_FLAG_OBJECT_INHERIT | ACE_FLAG_NO_PROPAGATE_INHERIT, true).is_empty());
}

#[test]
fn np_with_oi_to_file_emits_one_terminal_ace() {
    let out = inherited(ACE_FLAG_OBJECT_INHERIT | ACE_FLAG_NO_PROPAGATE_INHERIT, false);
    assert_eq!(out.len(), 1);
    assert!(out[0] & ACE_FLAG_INHERITED != 0);
    assert_eq!(out[0] & ALL_INHERIT_FLAGS, 0);
}

#[test]
fn parent_inherited_flag_preserved_on_child() {
    let f = inherited(ACE_FLAG_OBJECT_INHERIT | ACE_FLAG_INHERITED, false)[0];
    assert!(f & ACE_FLAG_INHERITED != 0);
}

#[test]
fn reinherit_drops_old_inherited_and_appends_new() {
    let parent = SdBuilder::new()
        .owner(WellKnownSid::LocalSystem.to_sid())
        .dacl(AclBuilder::new().ace(everyone(ACE_FLAG_OBJECT_INHERIT | ACE_FLAG_CONTAINER_INHERIT)))
        .build()
        .unwrap();
    // A file with a stale inherited entry and an explicit one.
    let child = SdBuilder::new()
        .dacl(
            AclBuilder::new()
                .ace(allow(WellKnownSid::Anonymous, ACCESS_GENERIC_ALL))
                .ace(allow(WellKnownSid::AuthenticatedUsers, ACCESS_GENERIC_READ).flags(ACE_FLAG_INHERITED)),
        )
        .build()
        .unwrap();

    let out = reinherit(&parent, &child, false).unwrap();
    let sd = parsed(&out);
    let list = dacl(&sd);
    assert_eq!(list.ace_count, 2, "explicit + freshly inherited");
    let aces = list.aces();
    // The explicit entry comes first.
    assert_eq!(aces[0].flags & ACE_FLAG_INHERITED, 0);
    let (_, sid0) = aces[0].as_mask_sid().unwrap();
    assert_eq!(sid0, WellKnownSid::Anonymous.to_sid());
    // Then the one from the parent.
    assert!(aces[1].flags & ACE_FLAG_INHERITED != 0);
    let (_, sid1) = aces[1].as_mask_sid().unwrap();
    assert_eq!(sid1, WellKnownSid::Everyone.to_sid());
}

#[test]
fn reinherit_preserves_owner_group_sacl() {
    let parent = SdBuilder::new().build().unwrap();
    let child = SdBuilder::new()
        .owner(WellKnownSid::LocalSystem.to_sid())
        .group(WellKnownSid::BuiltinAdministrators.to_sid())
        .sacl(AclBuilder::new().ace(AceBuilder::audit(&WellKnownSid::Everyone.to_sid(), ACCESS_GENERIC_READ)))
        .dacl(AclBuilder::new().ace(allow(WellKnownSid::Anonymous, ACCESS_GENERIC_ALL)))
        .build()
        .unwrap();
    let out = reinherit(&parent, &child, true).unwrap();
    let sd = parsed(&out);
    assert_eq!(sd.owner, Some(WellKnownSid::LocalSystem.to_sid()));
    assert_eq!(sd.group, Some(WellKnownSid::BuiltinAdministrators.to_sid()));
    assert_eq!(sacl(&sd).ace_count, 1);
    assert_eq!(dacl(&sd).ace_count, 1);
}

#[test]
fn reinherit_preserves_protection_bit() {
    let parent =
        SdBuilder::new().dacl(AclBuilder::new().ace(everyone(ACE_FLAG_OBJECT_INHERIT))).build().unwrap();
    let child = SdBuilder::new()
        .dacl(AclBuilder::new().ace(allow(WellKnownSid::Anonymous, ACCESS_GENERIC_ALL)))
        .control(SE_DACL_PROTECTED)
        .build()
        .unwrap();
    let out = reinherit(&parent, &child, false).unwrap();
    assert!(parsed(&out).control & SE_DACL_PROTECTED != 0);
}

#[test]
fn reinherit_with_parent_no_dacl_just_strips() {
    let parent = SdBuilder::new().build().unwrap();
    let child = SdBuilder::new()
        .dacl(
            AclBuilder::new()
                .ace(allow(WellKnownSid::Anonymous, ACCESS_GENERIC_ALL))
                .ace(everyone(ACE_FLAG_INHERITED)),
        )
        .build()
        .unwrap();
    let out = reinherit(&parent, &child, false).unwrap();
    let sd = parsed(&out);
    assert_eq!(dacl(&sd).ace_count, 1, "only the explicit entry remains");
}

#[test]
fn reinherit_rejects_non_self_relative_child() {
    let parent = SdBuilder::new().build().unwrap();
    let mut child = [0u8; 20];
    child[0] = 1; // revision; not marked self-relative
    assert!(matches!(
        reinherit(&parent, &child, false),
        Err(Error::Parse(ParseError::SdNotSelfRelative))
    ));
}

#[test]
fn reinherit_container_chain_keeps_propagating_flags() {
    let parent = SdBuilder::new()
        .dacl(AclBuilder::new().ace(everyone(ACE_FLAG_OBJECT_INHERIT | ACE_FLAG_CONTAINER_INHERIT)))
        .build()
        .unwrap();
    let child = SdBuilder::new().build().unwrap();
    let out = reinherit(&parent, &child, true).unwrap();
    let sd = parsed(&out);
    let aces = dacl(&sd).aces();
    let f = aces[0].flags;
    assert!(f & ACE_FLAG_CONTAINER_INHERIT != 0);
    assert!(f & ACE_FLAG_OBJECT_INHERIT != 0);
    assert!(f & ACE_FLAG_INHERITED != 0);
}

#[test]
fn reinherit_twice_is_reinherit_once() {
    let parent = SdBuilder::new()
        .dacl(AclBuilder::new().ace(everyone(ACE_FLAG_OBJECT_INHERIT | ACE_FLAG_CONTAINER_INHERIT)))
        .build()
        .unwrap();
    let child = SdBuilder::new()
        .dacl(
            AclBuilder::new()
                .ace(allow(WellKnownSid::Anonymous, ACCESS_GENERIC_ALL))
                .ace(everyone(ACE_FLAG_INHERITED)),
        )
        .build()
        .unwrap();
    let once = reinherit(&parent, &child, true).unwrap();
    assert_eq!(reinherit(&parent, &once, true).unwrap(), once);
}

#[test]
fn strip_drops_inherited_entries_of_the_selected_lists() {
    let audit = |flags: u8| AceBuilder::audit(&WellKnownSid::Everyone.to_sid(), ACCESS_GENERIC_READ).flags(flags);
    let sd = SdBuilder::new()
        .dacl(AclBuilder::new().ace(everyone(0)).ace(everyone(ACE_FLAG_INHERITED)))
        .sacl(AclBuilder::new().ace(audit(0)).ace(audit(ACE_FLAG_INHERITED)))
        .build()
        .unwrap();
    let none = strip_inherited_aces(&sd, 0).unwrap();
    assert_eq!(none, sd);
    let d = strip_inherited_aces(&sd, DACL_SECURITY_INFORMATION).unwrap();
    assert_eq!((dacl(&parsed(&d)).ace_count, sacl(&parsed(&d)).ace_count), (1, 2));
    let s = strip_inherited_aces(&sd, SACL_SECURITY_INFORMATION).unwrap();
    assert_eq!((dacl(&parsed(&s)).ace_count, sacl(&parsed(&s)).ace_count), (2, 1));
    // One list after the other is both at once.
    let both = strip_inherited_aces(&sd, DACL_SECURITY_INFORMATION | SACL_SECURITY_INFORMATION).unwrap();
    assert_eq!((dacl(&parsed(&both)).ace_count, sacl(&parsed(&both)).ace_count), (1, 1));
    assert_eq!(strip_inherited_aces(&d, SACL_SECURITY_INFORMATION).unwrap(), both);
    assert_eq!(strip_inherited_aces(&s, DACL_SECURITY_INFORMATION).unwrap(), both);
    // Stripping again changes nothing.
    assert_eq!(strip_inherited_aces(&d, DACL_SECURITY_INFORMATION).unwrap(), d);
    assert!(strip_inherited_aces(&[1, 0], DACL_SECURITY_INFORMATION).is_err());
}

// The entries that a child inherits from a list, as bytes.
fn handed_down(list: &[u8], container: bool) -> Vec<u8> {
    let Ok(acl) = Acl::parse(list) else { panic!("parse") };
    let mut out = AclBuilder::new();
    for ace in compute_inherited_aces(&acl, container) {
        out = out.ace(ace);
    }
    out.build().unwrap()
}

#[test]
fn what_a_file_inherits_goes_no_further() {
    let list = AclBuilder::new()
        .ace(everyone(ACE_FLAG_OBJECT_INHERIT | ACE_FLAG_CONTAINER_INHERIT))
        .ace(everyone(ACE_FLAG_OBJECT_INHERIT | ACE_FLAG_NO_PROPAGATE_INHERIT))
        .build()
        .unwrap();
    let file = handed_down(&list, false);
    assert_eq!(file[4], 2);
    assert_eq!(handed_down(&file, false)[4], 0);
    assert_eq!(handed_down(&file, true)[4], 0);
}

#[test]
fn inherited_lists_settle() {
    let list = AclBuilder::new()
        .ace(everyone(ACE_FLAG_OBJECT_INHERIT))
        .ace(everyone(0))
        .ace(everyone(ACE_FLAG_CONTAINER_INHERIT | ACE_FLAG_INHERIT_ONLY))
        .build()
        .unwrap();
    let child = handed_down(&list, true);
    assert_eq!(child[4], 2);
    assert_ne!(child, list);
    assert_eq!(handed_down(&child, true), child);
}
