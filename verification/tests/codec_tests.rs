use ldap_proto::ber_integer_to_i64;
use ldap_proto::i64_to_ber_bytes;
use ldap_proto::narrow_to_i32;
use ldap_proto::LdapBindResponse;
use ldap_proto::LdapError;
use ldap_proto::LdapExtendedRequest;
use ldap_proto::LdapExtendedResponse;
use ldap_proto::LdapMsg;
use ldap_proto::LdapOp;
use ldap_proto::LdapResult;
use ldap_proto::LdapResultCode;
use ldap_proto::LdapSimpleBind;
use ldap_proto::TagClass;
use ldap_proto::TagNode;
use ldap_proto::TagPayload;

fn prim(class: TagClass, id: u64, bytes: Vec<u8>) -> TagNode {
    TagNode { class, id, payload: TagPayload::Primitive(bytes) }
}

fn cons(class: TagClass, id: u64, children: Vec<TagNode>) -> TagNode {
    TagNode { class, id, payload: TagPayload::Constructed(children) }
}

fn text(class: TagClass, id: u64, s: &str) -> TagNode {
    prim(class, id, s.as_bytes().to_vec())
}

fn bind_children(version: Vec<u8>, dn: &str, pw_node: TagNode) -> Vec<TagNode> {
    vec![
        prim(TagClass::Universal, 2, version),
        text(TagClass::Universal, 4, dn),
        pw_node,
    ]
}

fn envelope(msgid_bytes: Vec<u8>, op: TagNode) -> TagNode {
    cons(TagClass::Universal, 16, vec![prim(TagClass::Universal, 2, msgid_bytes), op])
}

fn anonymous_bind_op() -> TagNode {
    cons(
        TagClass::Application,
        0,
        bind_children(vec![0x03], "", text(TagClass::Context, 0, "")),
    )
}

#[test]
fn int_decode_zero_byte() {
    assert_eq!(ber_integer_to_i64(vec![0x00]), Some(0));
}

#[test]
fn int_decode_max_positive_byte() {
    assert_eq!(ber_integer_to_i64(vec![0x7F]), Some(127));
}

#[test]
fn int_decode_sign_extends() {
    assert_eq!(ber_integer_to_i64(vec![0x80]), Some(-128));
    assert_eq!(ber_integer_to_i64(vec![0xFF]), Some(-1));
    assert_eq!(ber_integer_to_i64(vec![0xFF, 0x7F]), Some(-129));
}

#[test]
fn int_decode_multi_byte() {
    assert_eq!(ber_integer_to_i64(vec![0x01, 0x00]), Some(256));
    assert_eq!(ber_integer_to_i64(vec![0x00, 0x80]), Some(128));
    assert_eq!(
        ber_integer_to_i64(vec![0x7F, 0xFF, 0xFF, 0xFF, 0xFF, 0xFF, 0xFF, 0xFF]),
        Some(i64::MAX)
    );
    assert_eq!(
        ber_integer_to_i64(vec![0x80, 0x00, 0x00, 0x00, 0x00, 0x00, 0x00, 0x00]),
        Some(i64::MIN)
    );
}

#[test]
fn int_decode_empty_is_zero() {
    assert_eq!(ber_integer_to_i64(Vec::new()), Some(0));
}

#[test]
fn int_decode_nine_bytes_overflows() {
    assert_eq!(ber_integer_to_i64(vec![0x01; 9]), None);
}

#[test]
fn int_encode_is_minimal() {
    assert_eq!(i64_to_ber_bytes(0), vec![0x00]);
    assert_eq!(i64_to_ber_bytes(127), vec![0x7F]);
    assert_eq!(i64_to_ber_bytes(128), vec![0x00, 0x80]);
    assert_eq!(i64_to_ber_bytes(256), vec![0x01, 0x00]);
    assert_eq!(i64_to_ber_bytes(-1), vec![0xFF]);
    assert_eq!(i64_to_ber_bytes(-128), vec![0x80]);
    assert_eq!(i64_to_ber_bytes(-129), vec![0xFF, 0x7F]);
}

#[test]
fn int_encode_decode_round_trip_samples() {
    for v in [0i64, 1, -1, 3, 127, 128, -128, -129, 255, 256, 65535, -65536, i64::MAX, i64::MIN] {
        assert_eq!(ber_integer_to_i64(i64_to_ber_bytes(v)), Some(v));
    }
}

#[test]
fn narrowing_keeps_low_32_bits() {
    // The rule: reduce modulo 2^32 into [-2^31, 2^31).
    assert_eq!(narrow_to_i32(5), 5);
    assert_eq!(narrow_to_i32(-7), -7);
    assert_eq!(narrow_to_i32((1i64 << 32) + 5), 5);
    assert_eq!(narrow_to_i32(0xFFFF_FFFF), -1);
    assert_eq!(narrow_to_i32(1i64 << 31), i32::MIN);
    assert_eq!(narrow_to_i32(i64::MIN), 0);
}

#[test]
fn msgid_outside_32_bits_truncates() {
    // 2^32 + 5 on the wire decodes to message id 5.
    let env = envelope(vec![0x01, 0x00, 0x00, 0x00, 0x05], anonymous_bind_op());
    let msg = LdapMsg::decode(env).expect("decode");
    assert_eq!(msg.msgid, 5);
}

#[test]
fn anonymous_bind_round_trip() {
    let msg = LdapMsg::new(1, LdapOp::SimpleBind(LdapSimpleBind::new_anonymous()));
    let tree = msg.clone().encode().expect("encode");
    let decoded = LdapMsg::decode(tree).expect("decode");
    assert_eq!(decoded, msg);
}

#[test]
fn bind_response_success_round_trip() {
    let msg = LdapMsg::new(2, LdapOp::BindResponse(LdapBindResponse::new_success("ok")));
    let tree = msg.clone().encode().expect("encode");
    let decoded = LdapMsg::decode(tree).expect("decode");
    match &decoded.op {
        LdapOp::BindResponse(b) => {
            assert_eq!(b.res.code, LdapResultCode::Success);
            assert_eq!(b.res.message, "ok");
            assert_eq!(b.res.matcheddn, "");
            assert_eq!(b.saslcreds, None);
        }
        other => panic!("expected a bind response, got {:?}", other),
    }
    assert_eq!(decoded, msg);
}

#[test]
fn four_child_envelope_is_malformed() {
    let env = cons(
        TagClass::Universal,
        16,
        vec![
            prim(TagClass::Universal, 2, vec![0x01]),
            anonymous_bind_op(),
            prim(TagClass::Universal, 2, vec![0x01]),
            prim(TagClass::Universal, 2, vec![0x01]),
        ],
    );
    assert_eq!(LdapMsg::decode(env), Err(LdapError::MalformedEnvelope));
}

#[test]
fn unknown_operation_tag_is_reported() {
    let op = cons(TagClass::Application, 99, Vec::new());
    let env = envelope(vec![0x01], op);
    assert_eq!(LdapMsg::decode(env), Err(LdapError::UnknownOperation(99)));
}

#[test]
fn non_application_operation_is_unknown() {
    let op = cons(TagClass::Universal, 0, Vec::new());
    let env = envelope(vec![0x01], op);
    assert_eq!(LdapMsg::decode(env), Err(LdapError::UnknownOperation(0)));
}

#[test]
fn extended_request_round_trip_without_value() {
    let req = LdapExtendedRequest { name: "1.3.6.1.4.1.1466.20037".to_string(), value: None };
    let msg = LdapMsg::new(7, LdapOp::ExtendedRequest(req));
    let tree = msg.clone().encode().expect("encode");
    let decoded = LdapMsg::decode(tree).expect("decode");
    match &decoded.op {
        LdapOp::ExtendedRequest(r) => {
            assert_eq!(r.name, "1.3.6.1.4.1.1466.20037");
            assert_eq!(r.value, None);
        }
        other => panic!("expected an extended request, got {:?}", other),
    }
    assert_eq!(decoded, msg);
}

#[test]
fn extended_request_round_trip_with_value() {
    let req = LdapExtendedRequest {
        name: "1.3.6.1.4.1.4203.1.11.3".to_string(),
        value: Some("who am i".to_string()),
    };
    let msg = LdapMsg::new(8, LdapOp::ExtendedRequest(req));
    let tree = msg.clone().encode().expect("encode");
    assert_eq!(LdapMsg::decode(tree).expect("decode"), msg);
}

#[test]
fn nonempty_controls_refuse_encoding() {
    let msg = LdapMsg {
        msgid: 1,
        op: LdapOp::SimpleBind(LdapSimpleBind::new_anonymous()),
        ctrl: vec![()],
    };
    assert_eq!(msg.encode(), Err(LdapError::NotImplemented));
}

#[test]
fn nonempty_referral_refuses_encoding() {
    let res = LdapResult {
        code: LdapResultCode::Referral,
        matcheddn: String::new(),
        message: String::new(),
        referral: vec![()],
    };
    assert_eq!(res.into_tags(), Err(LdapError::NotImplemented));
    let resp = LdapBindResponse {
        res: LdapResult {
            code: LdapResultCode::Referral,
            matcheddn: String::new(),
            message: String::new(),
            referral: vec![()],
        },
        saslcreds: None,
    };
    let msg = LdapMsg::new(3, LdapOp::BindResponse(resp));
    assert_eq!(msg.encode(), Err(LdapError::NotImplemented));
}

#[test]
fn two_child_envelope_has_empty_controls() {
    let env = envelope(vec![0x01], anonymous_bind_op());
    let msg = LdapMsg::decode(env).expect("decode");
    assert_eq!(msg.ctrl, Vec::<()>::new());
}

#[test]
fn three_child_envelope_discards_controls() {
    let ctrl = cons(TagClass::Context, 0, vec![prim(TagClass::Universal, 4, vec![1, 2, 3])]);
    let env = cons(
        TagClass::Universal,
        16,
        vec![prim(TagClass::Universal, 2, vec![0x04]), anonymous_bind_op(), ctrl],
    );
    let msg = LdapMsg::decode(env).expect("decode");
    assert_eq!(msg.msgid, 4);
    assert_eq!(msg.ctrl, Vec::<()>::new());
}

#[test]
fn three_child_envelope_with_wrong_third_child_is_malformed() {
    let third = prim(TagClass::Universal, 4, vec![1]);
    let env = cons(
        TagClass::Universal,
        16,
        vec![prim(TagClass::Universal, 2, vec![0x04]), anonymous_bind_op(), third],
    );
    assert_eq!(LdapMsg::decode(env), Err(LdapError::MalformedEnvelope));
}

#[test]
fn primitive_envelope_is_malformed() {
    let t = prim(TagClass::Universal, 16, vec![1, 2, 3]);
    assert_eq!(LdapMsg::decode(t), Err(LdapError::MalformedEnvelope));
}

#[test]
fn wrong_envelope_tag_is_malformed() {
    let t = cons(TagClass::Application, 16, Vec::new());
    assert_eq!(LdapMsg::decode(t), Err(LdapError::MalformedEnvelope));
    let t2 = cons(TagClass::Universal, 17, Vec::new());
    assert_eq!(LdapMsg::decode(t2), Err(LdapError::MalformedEnvelope));
}

#[test]
fn msgid_wider_than_eight_bytes_overflows() {
    let env = envelope(vec![0x01; 9], anonymous_bind_op());
    assert_eq!(LdapMsg::decode(env), Err(LdapError::Overflow));
}

#[test]
fn bind_version_two_is_unsupported() {
    let op = cons(
        TagClass::Application,
        0,
        bind_children(vec![0x02], "", text(TagClass::Context, 0, "")),
    );
    let env = envelope(vec![0x01], op);
    assert_eq!(LdapMsg::decode(env), Err(LdapError::UnsupportedVersion));
}

#[test]
fn sasl_credential_choice_is_unsupported() {
    let op = cons(
        TagClass::Application,
        0,
        bind_children(vec![0x03], "", cons(TagClass::Context, 3, Vec::new())),
    );
    let env = envelope(vec![0x01], op);
    assert_eq!(LdapMsg::decode(env), Err(LdapError::UnsupportedAuthMethod));
}

#[test]
fn bind_with_two_children_is_malformed() {
    let op = cons(
        TagClass::Application,
        0,
        vec![prim(TagClass::Universal, 2, vec![0x03]), text(TagClass::Universal, 4, "")],
    );
    let env = envelope(vec![0x01], op);
    assert_eq!(LdapMsg::decode(env), Err(LdapError::MalformedOperation));
}

#[test]
fn invalid_utf8_dn_is_rejected() {
    let op = cons(
        TagClass::Application,
        0,
        vec![
            prim(TagClass::Universal, 2, vec![0x03]),
            prim(TagClass::Universal, 4, vec![0xFF, 0xFE]),
            text(TagClass::Context, 0, ""),
        ],
    );
    let env = envelope(vec![0x01], op);
    assert_eq!(LdapMsg::decode(env), Err(LdapError::InvalidText));
}

#[test]
fn multibyte_text_survives_the_codec() {
    // A non-ASCII DN: the UTF-8 bytes on the wire differ from the text, so
    // this fails if either text conversion hands bytes through unchanged.
    let bind = LdapSimpleBind { dn: "cn=ren\u{e9}".to_string(), pw: "s\u{e9}same".to_string() };
    let msg = LdapMsg::new(9, LdapOp::SimpleBind(bind));
    let tree = msg.clone().encode().expect("encode");
    match &tree.payload {
        TagPayload::Constructed(children) => match &children[1].payload {
            TagPayload::Constructed(bind_nodes) => match &bind_nodes[1].payload {
                TagPayload::Primitive(dn_bytes) => {
                    assert_eq!(dn_bytes.as_slice(), "cn=ren\u{e9}".as_bytes());
                    assert_eq!(dn_bytes.len(), 8);
                }
                other => panic!("expected primitive dn node, got {:?}", other),
            },
            other => panic!("expected constructed bind node, got {:?}", other),
        },
        other => panic!("expected constructed envelope, got {:?}", other),
    }
    assert_eq!(LdapMsg::decode(tree).expect("decode"), msg);
}

#[test]
fn unknown_result_code_is_reported() {
    // 9 is a reserved value in the RFC 4511 table.
    let op = cons(
        TagClass::Application,
        1,
        vec![
            prim(TagClass::Universal, 10, vec![0x09]),
            text(TagClass::Universal, 4, ""),
            text(TagClass::Universal, 4, ""),
        ],
    );
    let env = envelope(vec![0x01], op);
    assert_eq!(LdapMsg::decode(env), Err(LdapError::UnrecognizedResultCode(9)));
}

#[test]
fn result_code_values_round_trip() {
    let codes = [
        (LdapResultCode::Success, 0),
        (LdapResultCode::OperationsError, 1),
        (LdapResultCode::ProtocolError, 2),
        (LdapResultCode::TimeLimitExceeded, 3),
        (LdapResultCode::SizeLimitExceeded, 4),
        (LdapResultCode::CompareFalse, 5),
        (LdapResultCode::CompareTrue, 6),
        (LdapResultCode::AuthMethodNotSupported, 7),
        (LdapResultCode::StrongerAuthRequired, 8),
        (LdapResultCode::Referral, 10),
        (LdapResultCode::AdminLimitExceeded, 11),
        (LdapResultCode::UnavailableCriticalExtension, 12),
        (LdapResultCode::ConfidentialityRequired, 13),
        (LdapResultCode::SaslBindInProgress, 14),
        (LdapResultCode::NoSuchAttribute, 16),
        (LdapResultCode::UndefinedAttributeType, 17),
        (LdapResultCode::InappropriateMatching, 18),
        (LdapResultCode::ConstraintViolation, 19),
        (LdapResultCode::AttributeOrValueExists, 20),
        (LdapResultCode::InvalidAttributeSyntax, 21),
        (LdapResultCode::NoSuchObject, 32),
        (LdapResultCode::AliasProblem, 33),
        (LdapResultCode::InvalidDNSyntax, 34),
        (LdapResultCode::AliasDereferencingProblem, 35),
        (LdapResultCode::InappropriateAuthentication, 48),
        (LdapResultCode::InvalidCredentials, 49),
        (LdapResultCode::InsufficentAccessRights, 50),
        (LdapResultCode::Busy, 51),
        (LdapResultCode::Unavailable, 52),
        (LdapResultCode::UnwillingToPerform, 53),
        (LdapResultCode::LoopDetect, 54),
        (LdapResultCode::NamingViolation, 64),
        (LdapResultCode::ObjectClassViolation, 65),
        (LdapResultCode::NotAllowedOnNonLeaf, 66),
        (LdapResultCode::NotALlowedOnRDN, 67),
        (LdapResultCode::EntryAlreadyExists, 68),
        (LdapResultCode::ObjectClassModsProhibited, 69),
        (LdapResultCode::AffectsMultipleDSAs, 71),
        (LdapResultCode::Other, 80),
    ];
    for (code, value) in codes {
        assert_eq!(code.value(), value);
        assert_eq!(LdapResultCode::from_i64(value), Some(code));
    }
    assert_eq!(LdapResultCode::from_i64(9), None);
    assert_eq!(LdapResultCode::from_i64(-1), None);
    assert_eq!(LdapResultCode::from_i64(81), None);
}

#[test]
fn unbind_round_trip() {
    let msg = LdapMsg::new(5, LdapOp::UnbindRequest);
    let tree = msg.clone().encode().expect("encode");
    match &tree.payload {
        TagPayload::Constructed(children) => {
            assert_eq!(children.len(), 2);
            assert_eq!(children[1].class, TagClass::Application);
            assert_eq!(children[1].id, 2);
            assert_eq!(children[1].payload, TagPayload::Primitive(Vec::new()));
        }
        other => panic!("expected constructed envelope, got {:?}", other),
    }
    assert_eq!(LdapMsg::decode(tree).expect("decode"), msg);
}

#[test]
fn unbind_accepts_any_payload() {
    let op = cons(TagClass::Application, 2, vec![prim(TagClass::Universal, 4, vec![1])]);
    let env = envelope(vec![0x01], op);
    let msg = LdapMsg::decode(env).expect("decode");
    assert_eq!(msg.op, LdapOp::UnbindRequest);
}

#[test]
fn extended_response_round_trip() {
    let resp = LdapExtendedResponse::new_success(Some("1.3.6.1.4.1.1466.20037"), Some("done"));
    let msg = LdapMsg::new(6, LdapOp::ExtendedResponse(resp));
    let tree = msg.clone().encode().expect("encode");
    assert_eq!(LdapMsg::decode(tree).expect("decode"), msg);
}

#[test]
fn extended_response_without_name_or_value_round_trip() {
    let resp = LdapExtendedResponse::new_operationserror("nope");
    let msg = LdapMsg::new(6, LdapOp::ExtendedResponse(resp));
    let tree = msg.clone().encode().expect("encode");
    let decoded = LdapMsg::decode(tree).expect("decode");
    match &decoded.op {
        LdapOp::ExtendedResponse(r) => {
            assert_eq!(r.res.code, LdapResultCode::OperationsError);
            assert_eq!(r.res.message, "nope");
            assert_eq!(r.name, None);
            assert_eq!(r.value, None);
        }
        other => panic!("expected an extended response, got {:?}", other),
    }
    assert_eq!(decoded, msg);
}

#[test]
fn extended_response_ignores_unknown_trailing_tags() {
    let op = cons(
        TagClass::Application,
        24,
        vec![
            prim(TagClass::Universal, 10, vec![0x00]),
            text(TagClass::Universal, 4, ""),
            text(TagClass::Universal, 4, "fine"),
            prim(TagClass::Universal, 3, vec![1, 2]),
            text(TagClass::Context, 10, "a-name"),
            text(TagClass::Context, 99, "ignored"),
        ],
    );
    let env = envelope(vec![0x01], op);
    let msg = LdapMsg::decode(env).expect("decode");
    match &msg.op {
        LdapOp::ExtendedResponse(r) => {
            assert_eq!(r.res.code, LdapResultCode::Success);
            assert_eq!(r.res.message, "fine");
            assert_eq!(r.name, Some("a-name".to_string()));
            assert_eq!(r.value, None);
        }
        other => panic!("expected an extended response, got {:?}", other),
    }
}

#[test]
fn extended_request_without_name_is_malformed() {
    let op = cons(TagClass::Application, 23, Vec::new());
    let env = envelope(vec![0x01], op);
    assert_eq!(LdapMsg::decode(env), Err(LdapError::MalformedOperation));
}

#[test]
fn bind_response_with_credentials_emits_fourth_node() {
    let resp = LdapBindResponse {
        res: LdapResult {
            code: LdapResultCode::SaslBindInProgress,
            matcheddn: String::new(),
            message: String::new(),
            referral: Vec::new(),
        },
        saslcreds: Some("challenge".to_string()),
    };
    let nodes = resp.encode().expect("encode");
    assert_eq!(nodes.len(), 4);
    assert_eq!(nodes[3].class, TagClass::Universal);
    assert_eq!(nodes[3].id, 4);
    assert_eq!(nodes[3].payload, TagPayload::Primitive(b"challenge".to_vec()));
}

#[test]
fn is_simplebind_distinguishes_operations() {
    assert!(LdapOp::SimpleBind(LdapSimpleBind::new_anonymous()).is_simplebind());
    assert!(!LdapOp::UnbindRequest.is_simplebind());
}

#[test]
fn new_constructors_fill_the_documented_fields() {
    let b = LdapSimpleBind::new_anonymous();
    assert_eq!(b.dn, "");
    assert_eq!(b.pw, "");
    let m = LdapMsg::new(12, LdapOp::UnbindRequest);
    assert_eq!(m.msgid, 12);
    assert_eq!(m.op, LdapOp::UnbindRequest);
    assert!(m.ctrl.is_empty());
    let r = LdapBindResponse::new_invalidcredentials("cn=x", "bad");
    assert_eq!(r.res.code, LdapResultCode::InvalidCredentials);
    assert_eq!(r.res.matcheddn, "cn=x");
    assert_eq!(r.res.message, "bad");
    assert_eq!(r.saslcreds, None);
    let e = LdapExtendedResponse::new_success(None, Some("v"));
    assert_eq!(e.res.code, LdapResultCode::Success);
    assert_eq!(e.name, None);
    assert_eq!(e.value, Some("v".to_string()));
}

#[test]
fn garbage_trees_fail_with_typed_errors() {
    let cases = vec![
        prim(TagClass::Private, 0, Vec::new()),
        prim(TagClass::Universal, 16, vec![0x30, 0x00]),
        cons(TagClass::Universal, 16, Vec::new()),
        cons(TagClass::Universal, 16, vec![text(TagClass::Universal, 4, "x")]),
        cons(
            TagClass::Universal,
            16,
            vec![
                cons(TagClass::Universal, 2, Vec::new()),
                anonymous_bind_op(),
            ],
        ),
        envelope(vec![0x01], cons(TagClass::Application, 0, Vec::new())),
        envelope(vec![0x01], prim(TagClass::Application, 0, vec![0x01])),
        envelope(vec![0x01], cons(TagClass::Application, 24, Vec::new())),
    ];
    for tree in cases {
        assert!(LdapMsg::decode(tree).is_err());
    }
}
