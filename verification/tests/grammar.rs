// Descriptors as text: reading, writing, and one after the other.

use peios::security::codec::{
    AceRef, SecurityDescriptor, ACCESS_GENERIC_ALL, ACCESS_GENERIC_READ, ACE_FLAG_CONTAINER_INHERIT,
    ACE_TYPE_ACCESS_ALLOWED, SE_DACL_PRESENT, SE_DACL_PROTECTED,
};
use peios::security::sddl::builders::{AceBuilder, AclBuilder, SdBuilder};
use peios::security::sddl::cond;
use peios::security::sddl::condition::{decode_artx, CompareOp, Condition, Literal, MemberOp, Operand, Source};
use peios::security::sddl::entry::{format_ace, parse_ace, parse_rights};
use peios::security::sddl::grammar;
use peios::security::sddl::grammar::{parse, parse_acl, AclKind};
use peios::security::sddl::names::parse_sid;
use peios::security::sddl::vocab;
use peios::security::sddl::vocab::Code;
use peios::security::sddl::wellknown::WellKnownSid;
use peios::security::sddl::SddlError;
use peios::security::sid::Sid;

fn text(bytes: Vec<u8>) -> String {
    String::from_utf8(bytes).expect("text")
}

// Text to bytes and back to text.
fn round_trip(sddl: &str) -> String {
    let builder = match parse(sddl.as_bytes()) {
        Ok(b) => b,
        Err(e) => panic!("parse: {:?}", e),
    };
    let bytes = builder.build().expect("build");
    let sd = match SecurityDescriptor::parse(&bytes) {
        Ok(sd) => sd,
        Err(e) => panic!("re-parse: {:?}", e),
    };
    text(grammar::format(&sd).expect("format"))
}

fn refused(sddl: &str) -> SddlError {
    match parse(sddl.as_bytes()) {
        Ok(_) => panic!("{} was accepted", sddl),
        Err(e) => e,
    }
}

fn sid(s: &str) -> Sid {
    parse_sid(s.as_bytes()).unwrap()
}

fn sid_text(s: &Sid) -> String {
    text(s.to_text())
}

// ---- Whole descriptors ----

#[test]
fn empty_input_is_an_error() {
    assert!(matches!(parse(b""), Err(SddlError::Empty)));
}

#[test]
fn owner_and_group_round_trip() {
    let s = "O:SYG:BA";
    assert_eq!(round_trip(s), s);
}

#[test]
fn raw_sid_literal_round_trips() {
    // A domain-user SID that has no two-letter alias.
    let s = "O:S-1-5-21-1234-5678-9012-1001";
    assert_eq!(round_trip(s), s);
}

#[test]
fn simple_dacl_round_trips() {
    let s = "O:SYG:BAD:(A;;FA;;;BA)(A;;FR;;;BU)";
    assert_eq!(round_trip(s), s);
}

#[test]
fn protected_dacl_emits_p_flag() {
    let s = "D:P(A;;FA;;;SY)";
    assert_eq!(round_trip(s), s);
}

#[test]
fn auto_inherited_dacl_emits_ai_flag() {
    let s = "D:AI(A;;FA;;;SY)";
    assert_eq!(round_trip(s), s);
}

#[test]
fn dacl_and_sacl_together_round_trip() {
    let s = "D:(A;;FA;;;BA)S:(AU;FA;FA;;;WD)";
    assert_eq!(round_trip(s), s);
}

#[test]
fn all_acl_flags_round_trip() {
    let s = "D:PARAI(A;;FA;;;SY)S:PARAI(AU;SA;FA;;;WD)";
    assert_eq!(round_trip(s), s);
}

#[test]
fn a_list_may_be_empty() {
    assert_eq!(round_trip("D:"), "D:");
    assert_eq!(round_trip("O:SYD:PS:"), "O:SYD:PS:");
}

// ---- Flags of entries ----

#[test]
fn ace_flags_round_trip() {
    // Container-inherit + object-inherit + no-propagate.
    let s = "D:(A;CIOINP;FA;;;BA)";
    assert_eq!(round_trip(s), s);
}

#[test]
fn audit_flags_round_trip() {
    let s = "S:(AU;SAFA;FA;;;BA)";
    assert_eq!(round_trip(s), s);
}

#[test]
fn inherited_flag_is_emitted_on_round_trip() {
    let s = "D:(A;ID;FA;;;BA)";
    assert_eq!(round_trip(s), s);
}

// ---- Rights ----

#[test]
fn generic_rights_round_trip() {
    let s = "D:(A;;GA;;;SY)";
    assert_eq!(round_trip(s), s);
}

#[test]
fn standard_rights_round_trip() {
    let s = "D:(A;;SDRCWDWO;;;SY)";
    assert_eq!(round_trip(s), s);
}

fn reference(ace: &[u8]) -> AceRef<'_> {
    AceRef { ace_type: ace[0], flags: ace[1], size: u16::from_le_bytes([ace[2], ace[3]]), body: &ace[4..] }
}

#[test]
fn unknown_rights_bits_become_hex_suffix() {
    // GA plus a bit without a code of its own: the residue is in hexadecimal.
    let mask = 0x1010_0000u32;
    let ace = AceBuilder::allow(&WellKnownSid::LocalSystem.to_sid(), mask).build();
    let s = text(format_ace(&reference(&ace)).expect("format"));
    assert!(s.contains("GA"));
    assert!(s.contains("0x"));
    assert_eq!(s, "(A;;GA0x100000;;;SY)");
}

#[test]
fn hex_rights_parse_and_format_round_trip() {
    let s = "D:(A;;0x1234;;;SY)";
    assert_eq!(round_trip(s), "D:(A;;0x1234;;;SY)");
}

// ---- Object entries ----

#[test]
fn object_ace_round_trips_with_guids() {
    let s = "D:(OA;;GR;11111111-2222-3333-4444-555555555555;\
             66666666-7777-8888-9999-aaaaaaaaaaaa;BA)";
    assert_eq!(round_trip(s), s);
}

#[test]
fn object_ace_round_trips_with_one_guid() {
    let s = "D:(OA;;GR;11111111-2222-3333-4444-555555555555;;BA)";
    assert_eq!(round_trip(s), s);
}

#[test]
fn object_ace_with_no_guids_still_works() {
    let s = "D:(OA;;GR;;;BA)";
    assert_eq!(round_trip(s), s);
}

#[test]
fn object_ace_with_the_second_guid_only() {
    let s = "D:(OA;;GR;;66666666-7777-8888-9999-aaaaaaaaaaaa;BA)";
    assert_eq!(round_trip(s), s);
}

#[test]
fn object_guid_on_simple_ace_is_rejected() {
    let s = "D:(A;;FA;11111111-2222-3333-4444-555555555555;;BA)";
    assert_eq!(refused(s), SddlError::ObjectFieldsOnNonObjectAce(b"A".to_vec()));
}

// ---- Mandatory label / scoped policy ----

#[test]
fn mandatory_label_round_trips() {
    // High integrity, no-write-up policy.
    let s = "S:(ML;;NW;;;HI)";
    assert_eq!(round_trip(s), s);
}

#[test]
fn scoped_policy_id_round_trips() {
    let s = "S:(SP;;;;;SY)";
    assert_eq!(round_trip(s), s);
}

// ---- Conditional / callback entries ----

#[test]
fn conditional_ace_simple_compare_round_trips() {
    let sddl = "D:(XA;;FA;;;BU;(@User.title == \"VP\"))";
    let got = round_trip(sddl);
    // Operator spacing is canonical: single space either side.
    assert_eq!(got, sddl);
}

#[test]
fn conditional_ace_membership_round_trips() {
    let sddl = "D:(XA;;FA;;;BU;(Member_of {SID(BA)}))";
    let got = round_trip(sddl);
    assert_eq!(got, sddl);
}

#[test]
fn conditional_ace_logical_combination_round_trips() {
    let sddl = "D:(XA;;FA;;;BU;(Exists @User.dept && @User.clearance >= 3))";
    let got = round_trip(sddl);
    assert_eq!(got, sddl);
}

#[test]
fn conditional_ace_object_round_trips() {
    let sddl = "D:(ZA;;GR;11111111-2222-3333-4444-555555555555;;\
                BU;(@User.level == 10))";
    let got = round_trip(sddl);
    assert_eq!(got, sddl);
}

#[test]
fn callback_ace_without_a_condition() {
    let s = "D:(XA;;FA;;;BU)";
    assert_eq!(round_trip(s), s);
}

#[test]
fn separators_inside_strings_do_not_separate() {
    let s = "D:(XA;;FA;;;BU;(@User.title == \"a;b)(D:c\"))(A;;FA;;;SY)";
    assert_eq!(round_trip(s), s);
}

// ---- Resource attribute ----

#[test]
fn resource_attribute_int64_round_trips() {
    let sddl = "S:(RA;;;;;WD;(\"Confidentiality\",TI,0x0,3))";
    assert_eq!(round_trip(sddl), sddl);
}

#[test]
fn resource_attribute_string_multi_value_round_trips() {
    let sddl = "S:(RA;;;;;WD;(\"Dept\",TS,0x0,\"sales\",\"eng\"))";
    assert_eq!(round_trip(sddl), sddl);
}

#[test]
fn resource_attribute_bool_round_trips() {
    let sddl = "S:(RA;;;;;WD;(\"IsManaged\",TB,0x0,1))";
    assert_eq!(round_trip(sddl), sddl);
}

#[test]
fn resource_attributes_of_the_other_types() {
    for s in [
        "S:(RA;;;;;WD;(\"A\",TI,0x2,-3,9223372036854775807,-9223372036854775808))",
        "S:(RA;;;;;WD;(\"A\",TU,0x10,18446744073709551615,0))",
        "S:(RA;;;;;WD;(\"A\",TD,0x0,SID(BA),SID(S-1-5-21-1-2-3-4)))",
        "S:(RA;;;;;WD;(\"A\",TX,0x0,#deadbeef,#))",
        "S:(RA;;;;;WD;(\"gr\u{fc}n\",TS,0x0,\"\u{1f512},x\"))",
        "S:(RA;;;;;WD;(\"None\",TS,0x0))",
    ] {
        assert_eq!(round_trip(s), s);
    }
}

// ---- Fragments ----

#[test]
fn parse_acl_extracts_flag_bits() {
    let parsed = match parse_acl(b"P(A;;FA;;;BA)", AclKind::Dacl) {
        Ok(parsed) => parsed,
        Err(e) => panic!("parse: {:?}", e),
    };
    assert!(parsed.control & SE_DACL_PROTECTED != 0);
    assert!(parsed.control & SE_DACL_PRESENT != 0);
    let bytes = parsed.acl.build().expect("build");
    assert!(!bytes.is_empty());
}

#[test]
fn parse_acl_flag_bits_by_kind() {
    for (s, dacl, sacl) in
        [("", 0x0004, 0x0010), ("P", 0x1004, 0x2010), ("AR", 0x0104, 0x0210), ("AI", 0x0404, 0x0810)]
    {
        assert!(matches!(parse_acl(s.as_bytes(), AclKind::Dacl), Ok(a) if a.control == dacl));
        assert!(matches!(parse_acl(s.as_bytes(), AclKind::Sacl), Ok(a) if a.control == sacl));
    }
}

#[test]
fn parse_ace_basic() {
    let ace = match parse_ace(b"A;;FA;;;BA") {
        Ok(ace) => ace,
        Err(e) => panic!("parse: {:?}", e),
    };
    let bytes = ace.build();
    assert_eq!(bytes[0], ACE_TYPE_ACCESS_ALLOWED);
    assert_eq!(
        bytes,
        vec![0, 0, 24, 0, 0xff, 1, 0x1f, 0, 1, 2, 0, 0, 0, 0, 0, 5, 32, 0, 0, 0, 0x20, 2, 0, 0]
    );
}

#[test]
fn format_ace_basic() {
    let bytes = AceBuilder::allow(&WellKnownSid::BuiltinAdministrators.to_sid(), 0x001F_01FF).build();
    let s = text(format_ace(&reference(&bytes)).expect("format"));
    assert_eq!(s, "(A;;FA;;;BA)");
}

// ---- What is refused ----

#[test]
fn unknown_ace_type_is_rejected() {
    assert_eq!(refused("D:(QQ;;FA;;;BA)"), SddlError::UnknownAceType(b"QQ".to_vec()));
}

#[test]
fn unknown_flag_is_rejected() {
    assert_eq!(refused("D:(A;XX;FA;;;BA)"), SddlError::UnknownFlag(b"XX".to_vec()));
}

#[test]
fn unknown_right_is_rejected() {
    assert_eq!(refused("D:(A;;ZZ;;;BA)"), SddlError::UnknownRight(b"ZZ".to_vec()));
}

#[test]
fn domain_relative_alias_is_rejected() {
    assert_eq!(refused("O:DA"), SddlError::DomainRelativeAlias(b"DA".to_vec()));
}

#[test]
fn wrong_field_count_is_rejected() {
    assert!(matches!(refused("D:(A;;FA;;BA)"), SddlError::WrongFieldCount(5)));
    assert!(matches!(refused("D:(A;;FA;;;BA;)"), SddlError::WrongFieldCount(7)));
    assert!(matches!(refused("S:(RA;;;;;WD)"), SddlError::WrongFieldCount(6)));
}

#[test]
fn malformed_guid_is_rejected() {
    assert_eq!(refused("D:(OA;;FA;not-a-guid;;BA)"), SddlError::BadGuid(b"not-a-guid".to_vec()));
    // The first fault counts.
    assert_eq!(refused("D:(OA;;FA;;neither;BA)"), SddlError::BadGuid(b"neither".to_vec()));
    assert_eq!(refused("D:(OA;;FA;one;other;BA)"), SddlError::BadGuid(b"one".to_vec()));
}

#[test]
fn duplicate_section_is_rejected() {
    assert!(matches!(refused("O:SYO:BA"), SddlError::DuplicateSection('O')));
    assert!(matches!(refused("D:D:"), SddlError::DuplicateSection('D')));
}

#[test]
fn other_malformed_text_is_rejected() {
    assert!(matches!(refused("definitely not sddl"), SddlError::Malformed));
    assert!(matches!(refused("D:(A;;FA;;;BA"), SddlError::Malformed));
    assert!(matches!(refused("D:(A;;FA;;;BA)x"), SddlError::Malformed));
    assert!(matches!(refused("D:X(A;;FA;;;BA)"), SddlError::UnknownAclFlag));
    assert_eq!(refused("O:QQ"), SddlError::BadSid(b"QQ".to_vec()));
    assert!(matches!(refused("D:(XA;;FA;;;BU;(@User.x ==))"), SddlError::BadCondition));
    assert!(matches!(refused("D:(XA;;FA;;;BU;@User.x == 1)"), SddlError::BadCondition));
    assert!(matches!(refused("S:(RA;;;;;WD;(\"x\",TB,0x0,2))"), SddlError::BadClaim));
}

#[test]
fn an_entry_that_is_too_long_is_rejected() {
    let value = "\"".to_string() + &"x".repeat(40_000) + "\"";
    let s = format!("S:(RA;;;;;WD;(\"x\",TS,0x0,{}))", value);
    assert!(matches!(refused(&s), SddlError::BadAce));
}

#[test]
fn entries_without_text_are_refused() {
    // A type without a code, a flag without a code, a body that is cut short, and data behind
    // the SID that is no condition.
    let sid = WellKnownSid::LocalSystem.to_sid();
    let alarm = AceBuilder::mask_sid(0x03, &sid, 1).build();
    assert_eq!(format_ace(&reference(&alarm)), Err(SddlError::UnknownAceType(b"0x03".to_vec())));
    let flagged = AceBuilder::allow(&sid, 1).flags(0x20).build();
    assert!(matches!(format_ace(&reference(&flagged)), Err(SddlError::BadAce)));
    let short = [0u8, 0, 8, 0, 1, 0, 0, 0];
    assert!(matches!(format_ace(&reference(&short)), Err(SddlError::BadAce)));
    let mut callback = AceBuilder::mask_sid(0x09, &sid, 1);
    callback.body.extend_from_slice(&[1, 2, 3, 4]);
    assert!(matches!(format_ace(&reference(&callback.build())), Err(SddlError::BadAce)));
}

// ---- Conditional expressions ----

fn attr(source: Source, name: &str) -> Operand {
    Operand::Attr(source, name.as_bytes().to_vec())
}

fn user(name: &str) -> Operand {
    attr(Source::User, name)
}

fn whole(v: i64) -> Operand {
    Operand::Value(Literal::Int(v))
}

#[test]
fn cond_parse_int_compare() {
    let c = cond::parse(b"@User.x == 5").unwrap();
    assert_eq!(c, Condition::Compare { op: CompareOp::Eq, lhs: user("x"), rhs: whole(5) });
}

#[test]
fn cond_parse_string_compare() {
    let c = cond::parse(b"@User.dept == \"eng\"").unwrap();
    assert_eq!(
        c,
        Condition::Compare {
            op: CompareOp::Eq,
            lhs: user("dept"),
            rhs: Operand::Value(Literal::Str(b"eng".to_vec())),
        }
    );
}

#[test]
fn cond_parse_member_with_sid_composite() {
    let c = cond::parse(b"Member_of {SID(BA)}").unwrap();
    assert!(matches!(c, Condition::Member { op: MemberOp::MemberOf, .. }));
}

#[test]
fn cond_sids_have_revision_one() {
    let c = cond::parse(b"Member_of {SID(BA), SID(S-1-5-18)}").unwrap();
    let decoded = decode_artx(&c.encode().unwrap()).unwrap();
    for c in [c, decoded] {
        let Condition::Member { operand: Operand::Composite(items), .. } = c else { panic!("member") };
        assert_eq!(items.len(), 2);
        assert!(items.iter().all(|l| matches!(l, Literal::Sid(s) if s.revision == 1)));
    }
}

#[test]
fn cond_parse_and_or_precedence() {
    // && binds tighter than ||.
    let c = cond::parse(b"Exists @User.a && Exists @User.b || Exists @User.c").unwrap();
    match c {
        Condition::Or(lhs, rhs) => {
            assert!(matches!(*lhs, Condition::And(_, _)));
            assert!(matches!(*rhs, Condition::Exists(_)));
        }
        _ => panic!("expected Or at root"),
    }
}

#[test]
fn cond_parse_negation() {
    let c = cond::parse(b"!Exists @User.x").unwrap();
    assert!(matches!(c, Condition::Not(_)));
}

#[test]
fn cond_parse_octet_literal() {
    let c = cond::parse(b"@User.token == #deadbeef").unwrap();
    if let Condition::Compare { rhs: Operand::Value(Literal::Octet(bytes)), .. } = c {
        assert_eq!(bytes, vec![0xde, 0xad, 0xbe, 0xef]);
    } else {
        panic!("expected octet operand");
    }
}

#[test]
fn cond_format_canonical_spacing() {
    let c = Condition::Compare { op: CompareOp::Eq, lhs: user("x"), rhs: whole(5) };
    assert_eq!(text(cond::format(&c).unwrap()), "@User.x == 5");
}

#[test]
fn cond_artx_round_trip_via_condition_encode() {
    let c = Condition::Exists(user("clearance")).and(Condition::Compare {
        op: CompareOp::Gt,
        lhs: user("level"),
        rhs: whole(-1),
    });
    let bytes = c.encode().unwrap();
    let decoded = decode_artx(&bytes).unwrap();
    assert_eq!(decoded, c);
}

#[test]
fn cond_artx_round_trip_member_of() {
    let admins = Sid::new(1, 5, vec![32, 544]);
    let c = Condition::Member {
        op: MemberOp::MemberOf,
        operand: Operand::Composite(vec![Literal::Sid(admins)]),
    };
    let bytes = c.encode().unwrap();
    let decoded = decode_artx(&bytes).unwrap();
    assert_eq!(decoded, c);
}

#[test]
fn cond_artx_bytes() {
    // The mark, the attribute, the number, the operator, and zeros up to a multiple of four.
    let c = cond::parse(b"@User.x == -2").unwrap();
    let mut want = b"artx".to_vec();
    want.extend_from_slice(&[0xf9, 2, 0, 0, 0, b'x', 0]);
    want.extend_from_slice(&[0x04, 0xfe, 0xff, 0xff, 0xff, 0xff, 0xff, 0xff, 0xff, 2, 2]);
    want.extend_from_slice(&[0x80, 0]);
    assert_eq!(c.encode().unwrap(), want);
    assert_eq!(text(cond::format(&decode_artx(&want).unwrap()).unwrap()), "@User.x == -2");
}

#[test]
fn cond_texts_are_canonical() {
    for s in [
        "@Local.a == 1",
        "@Resource.a != @Device.b",
        "@User.a < 1 && @User.a <= 1 && @User.a > 1 && @User.a >= 1",
        "@User.a Contains {1, 2, 3}",
        "@User.a Any_of {\"x\", #00ff, SID(S-1-5-21-1-2-3)}",
        "@User.a Not_Contains {}",
        "@User.a Not_Any_of 5",
        "Not_Exists @User.a",
        "Member_of_Any {SID(BA)} || Device_Member_of {SID(BU)} || Device_Member_of_Any {SID(SY)}",
        "Not_Member_of {SID(BA)} && Not_Device_Member_of {SID(BA)}",
        "Not_Member_of_Any {SID(BA)} && Not_Device_Member_of_Any {SID(BA)}",
        "(Exists @User.a || Exists @User.b) && Exists @User.c",
        "Exists @User.a && (Exists @User.b && Exists @User.c)",
        "Exists @User.a || (Exists @User.b || Exists @User.c)",
        "!(Exists @User.a && Exists @User.b)",
        "!!Exists @User.a",
        "@User.gr\u{fc}n:x/y == \"\u{1f512}\"",
    ] {
        let c = cond::parse(s.as_bytes()).unwrap_or_else(|| panic!("parse {}", s));
        assert_eq!(text(cond::format(&c).unwrap()), s);
        assert_eq!(decode_artx(&c.encode().unwrap()).unwrap(), c);
    }
}

#[test]
fn cond_spacing_and_parentheses_do_not_matter() {
    let c = cond::parse(b"( ((@User.x==5)) )").unwrap();
    assert_eq!(text(cond::format(&c).unwrap()), "@User.x == 5");
    let local = cond::parse(b"title == 5").unwrap();
    assert_eq!(text(cond::format(&local).unwrap()), "@Local.title == 5");
}

#[test]
fn cond_malformed_text_is_refused() {
    for s in [
        "", "@User.x", "@User. == 1", "@Nobody.x == 1", "5", "@User.x = 5", "@User.x == \"a", "Exists",
        "(@User.x == 1", "@User.x == 1)", "@User.x == 1 &&", "@User.x == {1,}", "@User.x == #abc",
        "@User.x == 9223372036854775808", "SID == 1", "Member_of {SID(DA)}", "@User.x == 1 2",
    ] {
        assert!(cond::parse(s.as_bytes()).is_none(), "{} was accepted", s);
    }
    let deep = "!".repeat(300) + "Exists @User.x";
    assert!(cond::parse(deep.as_bytes()).is_none());
    let nested = "!".repeat(200) + "Exists @User.x";
    assert!(cond::parse(nested.as_bytes()).is_some());
}

#[test]
fn cond_malformed_bytecode_is_refused() {
    for b in [
        &b""[..],
        &b"artx"[..],
        &b"arty"[..],
        &[0x61, 0x72, 0x74, 0x78, 0x87][..],
        &[0x61, 0x72, 0x74, 0x78, 0xa2][..],
        &[0x61, 0x72, 0x74, 0x78, 0x10, 4, 0, 0, 0, b'x', 0][..],
        &[0x61, 0x72, 0x74, 0x78, 0x10, 2, 0, 0, 0, 0, 0xd8, 0x87][..],
        &[0x61, 0x72, 0x74, 0x78, 0xf9, 2, 0, 0, 0, b'x', 0][..],
    ] {
        assert!(decode_artx(b).is_none());
    }
}

#[test]
fn cond_without_text_is_refused() {
    // A quotation mark inside of text, and a name that is not a word.
    let quote = Condition::Compare {
        op: CompareOp::Eq,
        lhs: user("x"),
        rhs: Operand::Value(Literal::Str(b"a\"b".to_vec())),
    };
    assert!(cond::format(&quote).is_none());
    assert_eq!(
        cond::format_condition_from_artx(&quote.encode().unwrap()),
        Err(SddlError::BadCondition)
    );
    assert!(cond::format(&Condition::Exists(user("a b"))).is_none());
    assert!(Condition::Exists(Operand::Attr(Source::User, vec![0xff])).encode().is_none());
}

// ---- Order of the sections ----

#[test]
fn out_of_order_sections_are_canonicalised() {
    // Input order: G, O, S, D. Output must be O, G, D, S.
    let s = "G:BAO:SYS:(AU;FA;FA;;;WD)D:(A;;FA;;;BA)";
    let out = round_trip(s);
    assert_eq!(out, "O:SYG:BAD:(A;;FA;;;BA)S:(AU;FA;FA;;;WD)");
}

// ---- Builders ----

#[test]
fn programmatic_build_then_format() {
    let admins = WellKnownSid::BuiltinAdministrators.to_sid();
    let sd = SdBuilder::new()
        .owner(WellKnownSid::LocalSystem.to_sid())
        .group(WellKnownSid::BuiltinAdministrators.to_sid())
        .dacl(
            AclBuilder::new()
                .ace(AceBuilder::allow(&admins, ACCESS_GENERIC_ALL).flags(ACE_FLAG_CONTAINER_INHERIT))
                .ace(AceBuilder::allow(&WellKnownSid::BuiltinUsers.to_sid(), ACCESS_GENERIC_READ)),
        )
        .build()
        .unwrap();
    let parsed = match SecurityDescriptor::parse(&sd) {
        Ok(parsed) => parsed,
        Err(e) => panic!("{:?}", e),
    };
    let s = text(grammar::format(&parsed).unwrap());
    assert_eq!(s, "O:SYG:BAD:(A;CI;GA;;;BA)(A;;GR;;;BU)");
}

// ---- SIDs ----

#[test]
fn parse_sid_accepts_literal() {
    assert_eq!(sid("S-1-5-18"), WellKnownSid::LocalSystem.to_sid());
}

#[test]
fn parse_sid_accepts_alias() {
    assert_eq!(sid("BA"), WellKnownSid::BuiltinAdministrators.to_sid());
}

#[test]
fn parse_sid_alias_is_case_insensitive() {
    assert_eq!(sid("ba"), WellKnownSid::BuiltinAdministrators.to_sid());
}

/// `SU` is the group of every token made for a service logon.
#[test]
fn parse_sid_accepts_the_service_alias() {
    assert_eq!(sid("SU"), WellKnownSid::Service.to_sid());
    assert_eq!(sid_text(&sid("SU")), "S-1-5-6");
}

#[test]
fn parse_sid_trims_whitespace() {
    assert_eq!(sid("  SY  "), WellKnownSid::LocalSystem.to_sid());
}

#[test]
fn parse_sid_accepts_integrity_level_literal() {
    assert_eq!(sid("S-1-16-12288"), WellKnownSid::HighIl.to_sid());
}

#[test]
fn parse_sid_rejects_domain_relative_alias() {
    let err = parse_sid(b"DA").unwrap_err();
    assert_eq!(err, SddlError::DomainRelativeAlias(b"DA".to_vec()));
}

#[test]
fn parse_sid_rejects_empty() {
    let err = parse_sid(b"").unwrap_err();
    assert_eq!(err, SddlError::BadSid(vec![]));
}

#[test]
fn parse_sid_rejects_garbage() {
    let err = parse_sid(b"notasid").unwrap_err();
    assert_eq!(err, SddlError::BadSid(b"notasid".to_vec()));
}

// ---- Tables of codes and aliases ----

const RIGHTS: &[(&str, u32)] = &[
    ("GA", 0x10000000),
    ("GR", 0x80000000),
    ("GW", 0x40000000),
    ("GX", 0x20000000),
    ("SD", 0x00010000),
    ("RC", 0x00020000),
    ("WD", 0x00040000),
    ("WO", 0x00080000),
    ("FA", 0x001f01ff),
    ("FR", 0x00120089),
    ("FW", 0x00120116),
    ("FX", 0x001200a0),
    ("KA", 0x000f003f),
    ("KR", 0x00020019),
    ("KW", 0x00020006),
    ("KX", 0x00020019),
    ("CC", 0x00000001),
    ("DC", 0x00000002),
    ("LC", 0x00000004),
    ("SW", 0x00000008),
    ("RP", 0x00000010),
    ("WP", 0x00000020),
    ("DT", 0x00000040),
    ("LO", 0x00000080),
    ("CR", 0x00000100),
    ("NW", 0x00000001),
    ("NR", 0x00000002),
    ("NX", 0x00000004),
    ("FRFX0x6", 0x001200af),
    ("", 0x00000000),
    ("0x6", 0x00000006),
    ("0XfF", 0x000000ff),
    ("GAGR", 0x90000000),
];

const BAD_RIGHTS: &[&str] = &["ZZ", "F", "FRF", "fr", "0x", "0xg", "0x100000000", "0x6FR", "6", "FR 0x6"];

const ALIASES: &[(&str, &str)] = &[
    ("WD", "S-1-1-0"),
    ("AN", "S-1-5-7"),
    ("AU", "S-1-5-11"),
    ("IU", "S-1-5-4"),
    ("NU", "S-1-5-2"),
    ("SU", "S-1-5-6"),
    ("RC", "S-1-5-12"),
    ("WR", "S-1-5-33"),
    ("PS", "S-1-5-10"),
    ("ED", "S-1-5-9"),
    ("CO", "S-1-3-0"),
    ("CG", "S-1-3-1"),
    ("OW", "S-1-3-4"),
    ("AC", "S-1-15-2-1"),
    ("SY", "S-1-5-18"),
    ("LS", "S-1-5-19"),
    ("NS", "S-1-5-20"),
    ("LW", "S-1-16-4096"),
    ("ME", "S-1-16-8192"),
    ("MP", "S-1-16-8448"),
    ("HI", "S-1-16-12288"),
    ("SI", "S-1-16-16384"),
    ("BA", "S-1-5-32-544"),
    ("BU", "S-1-5-32-545"),
    ("BG", "S-1-5-32-546"),
    ("PU", "S-1-5-32-547"),
    ("AO", "S-1-5-32-548"),
    ("SO", "S-1-5-32-549"),
    ("PO", "S-1-5-32-550"),
    ("BO", "S-1-5-32-551"),
    ("RE", "S-1-5-32-552"),
    ("RU", "S-1-5-32-554"),
    ("RD", "S-1-5-32-555"),
    ("NO", "S-1-5-32-556"),
    ("MU", "S-1-5-32-558"),
    ("LU", "S-1-5-32-559"),
    ("IS", "S-1-5-32-568"),
    ("CY", "S-1-5-32-569"),
    ("ER", "S-1-5-32-573"),
    ("CD", "S-1-5-32-574"),
    ("RA", "S-1-5-32-575"),
    ("ES", "S-1-5-32-576"),
    ("MS", "S-1-5-32-577"),
    ("HA", "S-1-5-32-578"),
    ("AA", "S-1-5-32-579"),
    ("RM", "S-1-5-32-580"),
];

#[test]
fn conformance_rights_fields() {
    for (arg, want) in RIGHTS {
        let got = parse_rights(arg.as_bytes()).unwrap_or_else(|e| panic!("parse_rights({:?}) failed: {:?}", arg, e));
        assert_eq!(got, *want, "parse_rights({:?})", arg);
    }
}

#[test]
fn conformance_bad_rights_fields() {
    for arg in BAD_RIGHTS {
        assert!(parse_rights(arg.as_bytes()).is_err(), "parse_rights({:?}) should have failed", arg);
    }
}

#[test]
fn conformance_sid_aliases() {
    for (arg, want) in ALIASES {
        let code = Code { first: arg.as_bytes()[0], second: arg.as_bytes()[1] };
        let sid = vocab::sid_from_alias(code).unwrap_or_else(|| panic!("unknown alias {:?}", arg));
        assert_eq!(sid_text(&sid), *want, "{:?} resolves to the wrong SID", arg);
        assert_eq!(vocab::alias_from_sid(&sid), Some(code), "{} must format back as {:?}", want, arg);
        // And through the whole pipeline: text in, bytes, text out.
        let line = format!("O:{}", arg);
        assert_eq!(round_trip(&line), line);
    }
}

#[test]
fn mixed_rights_field_in_whole_descriptor() {
    // Rights without a code of their own follow those with one.
    assert_eq!(parse_rights(b"FRFX0x6").unwrap(), 0x0012_00AF);
    assert_eq!(parse_rights(b"FRZZ"), Err(SddlError::UnknownRight(b"FRZZ".to_vec())));
    assert!(parse(b"D:(A;;FRFX0x6;;;WD)").is_ok());
}

#[test]
fn ru_is_builtin_not_domain_relative() {
    assert_eq!(sid_text(&sid("RU")), "S-1-5-32-554");
}

#[test]
fn every_rights_mask_reads_back() {
    for mask in [0u32, 1, 0x0012_0089, 0x001f_01ff, 0x0010_0000, 0x1234_5678, 0x8000_0001, u32::MAX] {
        let bytes = AceBuilder::allow(&WellKnownSid::LocalSystem.to_sid(), mask).build();
        let s = text(format_ace(&reference(&bytes)).unwrap());
        let inner = &s.as_bytes()[1..s.len() - 1];
        assert!(matches!(parse_ace(inner), Ok(a) if a.build() == bytes));
    }
}
