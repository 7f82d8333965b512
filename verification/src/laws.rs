//! The library-wide laws: encode/decode round trips for every supported
//! operation, and the envelope dispatch rules.

use crate::berint::lemma_ber_int_len;
use crate::berint::lemma_ber_int_round_trip;
use crate::berint::lemma_narrow_identity;
use crate::codes::lemma_result_code_round_trip;
use crate::codes::spec_result_code_value;
use crate::proto::spec_decode_msg;
use crate::proto::spec_decode_op;
use crate::proto::spec_decode_result_parts;
use crate::proto::spec_encode_msg;
use crate::proto::spec_encode_op;
use crate::proto::spec_encode_result_parts;
use crate::proto::spec_filter_referrals;
use crate::proto::LdapError;
use crate::proto::SpecLdapResult;
use crate::proto::SpecMsg;
use crate::proto::SpecOp;
use crate::proto::TYPE_SEQUENCE;
use crate::tag::SpecTagNode;
use crate::tag::SpecTagPayload;
use crate::tag::TagClass;
use vstd::arithmetic::power2::lemma2_to64;
use vstd::arithmetic::power2::lemma2_to64_rest;
use vstd::prelude::*;
use vstd::utf8::encode_utf8_decode_utf8;
use vstd::utf8::encode_utf8_valid_utf8;

verus! {

/// The domain values whose encoding is defined and reversible: the controls
/// list is empty, response referral lists are empty, and a bind response
/// carries no SASL credentials (decoding leaves them structurally absent).
pub open spec fn spec_msg_round_trippable(m: SpecMsg) -> bool {
    &&& m.ctrl.len() == 0
    &&& (match m.op {
        SpecOp::SimpleBind(_) => true,
        SpecOp::BindResponse(b) => b.res.referral.len() == 0 && b.saslcreds is None,
        SpecOp::UnbindRequest => true,
        SpecOp::ExtendedRequest(_) => true,
        SpecOp::ExtendedResponse(e) => e.res.referral.len() == 0,
    })
}

/// An encoded result block, followed by any trailing nodes, decodes back to
/// the same result block and hands the trailing nodes on (minus referrals).
proof fn lemma_result_parts_round_trip(r: SpecLdapResult, trailing: Seq<SpecTagNode>)
    requires
        r.referral.len() == 0,
    ensures
        spec_encode_result_parts(r) is Ok,
        spec_decode_result_parts(spec_encode_result_parts(r)->Ok_0 + trailing) == Ok::<
            (SpecLdapResult, Seq<SpecTagNode>),
            LdapError,
        >((r, spec_filter_referrals(trailing))),
{
    let v = spec_result_code_value(r.code);
    assert(0 <= v <= 80);
    lemma2_to64();
    lemma2_to64_rest();
    lemma_ber_int_len(v, 8);
    lemma_ber_int_round_trip(v);
    lemma_result_code_round_trip(r.code);
    encode_utf8_valid_utf8(r.matcheddn);
    encode_utf8_decode_utf8(r.matcheddn);
    encode_utf8_valid_utf8(r.message);
    encode_utf8_decode_utf8(r.message);
    let parts = spec_encode_result_parts(r)->Ok_0;
    let c = parts + trailing;
    assert(c[0] == parts[0] && c[1] == parts[1] && c[2] == parts[2]);
    assert(c.skip(3) =~= trailing);
    let decoded = spec_decode_result_parts(c)->Ok_0.0;
    assert(decoded =~= r);
}

/// Filtering referrals from a sequence without referral nodes keeps it
/// unchanged.
proof fn lemma_filter_keeps(s: Seq<SpecTagNode>)
    requires
        forall|i: int| 0 <= i < s.len() ==> s[i].id != 3,
    ensures
        spec_filter_referrals(s) =~= s,
    decreases s.len(),
{
    if s.len() > 0 {
        lemma_filter_keeps(s.drop_first());
        assert(spec_filter_referrals(s) =~= seq![s[0]] + s.drop_first());
    }
}

/// An encoded operation decodes back to the same operation.
proof fn lemma_op_round_trip(op: SpecOp)
    requires
        (match op {
            SpecOp::SimpleBind(_) => true,
            SpecOp::BindResponse(b) => b.res.referral.len() == 0 && b.saslcreds is None,
            SpecOp::UnbindRequest => true,
            SpecOp::ExtendedRequest(_) => true,
            SpecOp::ExtendedResponse(e) => e.res.referral.len() == 0,
        }),
    ensures
        spec_encode_op(op) is Ok,
        spec_decode_op(spec_encode_op(op)->Ok_0) == Ok::<SpecOp, LdapError>(op),
{
    match op {
        SpecOp::SimpleBind(b) => {
            lemma_ber_int_round_trip(3);
            assert(crate::berint::spec_ber_int(3).len() <= 8);
            encode_utf8_valid_utf8(b.dn);
            encode_utf8_decode_utf8(b.dn);
            encode_utf8_valid_utf8(b.pw);
            encode_utf8_decode_utf8(b.pw);
            let c = spec_encode_op(op)->Ok_0.payload->Constructed_0;
            let decoded = spec_decode_op(spec_encode_op(op)->Ok_0)->Ok_0;
            assert(decoded->SimpleBind_0 =~= b);
        },
        SpecOp::BindResponse(b) => {
            lemma_result_parts_round_trip(b.res, Seq::<SpecTagNode>::empty());
            let parts = spec_encode_result_parts(b.res)->Ok_0;
            assert(parts + Seq::<SpecTagNode>::empty() =~= parts);
            assert(spec_filter_referrals(Seq::<SpecTagNode>::empty())
                =~= Seq::<SpecTagNode>::empty());
            let decoded = spec_decode_op(spec_encode_op(op)->Ok_0)->Ok_0;
            assert(decoded->BindResponse_0 =~= b);
        },
        SpecOp::UnbindRequest => {
        },
        SpecOp::ExtendedRequest(e) => {
            encode_utf8_valid_utf8(e.name);
            encode_utf8_decode_utf8(e.name);
            match e.value {
                Some(v) => {
                    encode_utf8_valid_utf8(v);
                    encode_utf8_decode_utf8(v);
                },
                None => {},
            }
            let decoded = spec_decode_op(spec_encode_op(op)->Ok_0)->Ok_0;
            assert(decoded->ExtendedRequest_0 =~= e);
        },
        SpecOp::ExtendedResponse(e) => {
            let parts = spec_encode_result_parts(e.res)->Ok_0;
            let with_name = (match e.name {
                Some(n) => parts.push(crate::proto::spec_text_node(TagClass::Context, 10, n)),
                None => parts,
            });
            let all = (match e.value {
                Some(v) => with_name.push(
                    crate::proto::spec_text_node(TagClass::Context, 11, v),
                ),
                None => with_name,
            });
            let trailing = all.skip(3);
            lemma_result_parts_round_trip(e.res, trailing);
            assert(parts + trailing =~= all);
            match e.name {
                Some(n) => {
                    encode_utf8_valid_utf8(n);
                    encode_utf8_decode_utf8(n);
                },
                None => {},
            }
            match e.value {
                Some(v) => {
                    encode_utf8_valid_utf8(v);
                    encode_utf8_decode_utf8(v);
                },
                None => {},
            }
            let empty = Seq::<SpecTagNode>::empty();
            match (e.name, e.value) {
                (None, None) => {
                    assert(trailing =~= empty);
                    lemma_filter_keeps(trailing);
                },
                (Some(n), None) => {
                    let n10 = crate::proto::spec_text_node(TagClass::Context, 10, n);
                    assert(trailing =~= seq![n10]);
                    lemma_filter_keeps(trailing);
                    assert(trailing.drop_first() =~= empty);
                    assert(crate::proto::spec_ctx_text(n10) == Some(n));
                    assert(crate::proto::spec_scan_extended_trailer(trailing, None, None)
                        == crate::proto::spec_scan_extended_trailer(
                        trailing.drop_first(),
                        Some(n),
                        None,
                    ));
                },
                (None, Some(v)) => {
                    let n11 = crate::proto::spec_text_node(TagClass::Context, 11, v);
                    assert(trailing =~= seq![n11]);
                    lemma_filter_keeps(trailing);
                    assert(trailing.drop_first() =~= empty);
                    assert(crate::proto::spec_ctx_text(n11) == Some(v));
                    assert(crate::proto::spec_scan_extended_trailer(trailing, None, None)
                        == crate::proto::spec_scan_extended_trailer(
                        trailing.drop_first(),
                        None,
                        Some(v),
                    ));
                },
                (Some(n), Some(v)) => {
                    let n10 = crate::proto::spec_text_node(TagClass::Context, 10, n);
                    let n11 = crate::proto::spec_text_node(TagClass::Context, 11, v);
                    assert(trailing =~= seq![n10, n11]);
                    lemma_filter_keeps(trailing);
                    let s1 = trailing.drop_first();
                    assert(s1 =~= seq![n11]);
                    assert(s1.drop_first() =~= empty);
                    assert(crate::proto::spec_ctx_text(n10) == Some(n));
                    assert(crate::proto::spec_ctx_text(n11) == Some(v));
                    assert(crate::proto::spec_scan_extended_trailer(trailing, None, None)
                        == crate::proto::spec_scan_extended_trailer(s1, Some(n), None));
                    assert(crate::proto::spec_scan_extended_trailer(s1, Some(n), None)
                        == crate::proto::spec_scan_extended_trailer(
                        s1.drop_first(),
                        Some(n),
                        Some(v),
                    ));
                },
            }
            let decoded = spec_decode_op(spec_encode_op(op)->Ok_0)->Ok_0;
            assert(decoded->ExtendedResponse_0 =~= e);
        },
    }
}

/// Round trip: every message within the encoder's scope decodes from its
/// own encoding unchanged. Out of scope, by construction, are a non-empty
/// controls list, a non-empty referral list, and bind-response SASL
/// credentials, whose encodings are refused or not decoded.
pub proof fn lemma_msg_round_trip(m: SpecMsg)
    requires
        spec_msg_round_trippable(m),
    ensures
        spec_encode_msg(m) is Ok,
        spec_decode_msg(spec_encode_msg(m)->Ok_0) == Ok::<SpecMsg, LdapError>(m),
{
    lemma2_to64();
    lemma2_to64_rest();
    lemma_ber_int_len(m.msgid as int, 8);
    lemma_ber_int_round_trip(m.msgid as int);
    lemma_narrow_identity(m.msgid as int);
    lemma_op_round_trip(m.op);
    let t = spec_encode_msg(m)->Ok_0;
    let c = t.payload->Constructed_0;
    assert(c.len() == 2);
    let decoded = spec_decode_msg(t)->Ok_0;
    assert(decoded =~= m);
}

/// Envelope dispatch: a decoded message always carries an empty controls
/// list, whether the envelope had 2 children or 3; any other child count of
/// a well-tagged envelope is malformed.
pub proof fn lemma_envelope_dispatch(t: SpecTagNode)
    ensures
        spec_decode_msg(t) matches Ok(m) ==> m.ctrl == Seq::<()>::empty(),
        (t.class == TagClass::Universal && t.id == TYPE_SEQUENCE && (t.payload matches
            SpecTagPayload::Constructed(c) && c.len() != 2 && c.len() != 3)) ==> spec_decode_msg(
            t,
        ) == Err::<SpecMsg, LdapError>(LdapError::MalformedEnvelope),
{
}

} // verus!
