//! The LDAP message, operation and result types, and the codec between them
//! and the BER tagged-node tree: envelope, operation dispatch, the shared
//! result block, and the per-operation codecs.

use crate::berint::spec_be_signed;
use crate::berint::spec_ber_int;
use crate::berint::spec_narrow_to_i32;
use crate::berint::ber_integer_to_i64;
use crate::berint::i64_to_ber_bytes;
use crate::berint::narrow_to_i32;
use crate::codes::spec_result_code_from;
use crate::codes::spec_result_code_value;
use crate::codes::LdapResultCode;
use crate::tag::spec_node_view;
use crate::tag::spec_nodes_view;
use crate::tag::SpecTagNode;
use crate::tag::SpecTagPayload;
use crate::tag::TagClass;
use crate::tag::TagNode;
use crate::tag::TagPayload;
use vstd::prelude::*;
use vstd::string::StringExecFns;
use vstd::string::StrSliceExecFns;
use vstd::utf8::decode_utf8;
use vstd::utf8::valid_utf8;

verus! {

/// Universal tag number of INTEGER.
pub const TYPE_INTEGER: u64 = 2;

/// Universal tag number of OCTET STRING.
pub const TYPE_OCTET_STRING: u64 = 4;

/// Universal tag number of ENUMERATED.
pub const TYPE_ENUMERATED: u64 = 10;

/// Universal tag number of SEQUENCE.
pub const TYPE_SEQUENCE: u64 = 16;

/// How a decode or encode call fails. Decoding never panics: every failure
/// on a malformed tree is one of these values.
#[derive(Clone, Copy, Debug, PartialEq, Eq, Structural)]
pub enum LdapError {
    /// The envelope is not a universal SEQUENCE of 2 or 3 well-shaped children.
    MalformedEnvelope,
    /// The operation node carries a tag number outside the supported set.
    UnknownOperation(u64),
    /// A bind request asked for a protocol version other than 3.
    UnsupportedVersion,
    /// A bind request carried a credential choice other than simple.
    UnsupportedAuthMethod,
    /// A mandatory field within a recognized operation is missing or mistyped.
    MalformedOperation,
    /// An OCTET STRING that must hold text is not valid UTF-8.
    InvalidText,
    /// A BER integer payload is wider than 8 bytes.
    Overflow,
    /// An ENUMERATED value outside the result-code table.
    UnrecognizedResultCode(i64),
    /// Encoding of non-empty controls or referrals is out of scope.
    NotImplemented,
}

/// A top-level LDAP message: an id, an operation, and controls.
#[derive(Clone, Debug, PartialEq)]
pub struct LdapMsg {
    pub msgid: i32,
    pub op: LdapOp,
    pub ctrl: Vec<()>,
}

/// The common result block shared by every response operation.
#[derive(Clone, Debug, PartialEq)]
pub struct LdapResult {
    pub code: LdapResultCode,
    pub matcheddn: String,
    pub message: String,
    pub referral: Vec<()>,
}

/// The closed set of operations this codec supports.
#[derive(Clone, Debug, PartialEq)]
pub enum LdapOp {
    SimpleBind(LdapSimpleBind),
    BindResponse(LdapBindResponse),
    UnbindRequest,
    ExtendedRequest(LdapExtendedRequest),
    ExtendedResponse(LdapExtendedResponse),
}

/// A simple bind request: a DN and a password.
#[derive(Clone, Debug, PartialEq)]
pub struct LdapSimpleBind {
    pub dn: String,
    pub pw: String,
}

/// A bind response: a result block and optional server SASL credentials.
#[derive(Clone, Debug, PartialEq)]
pub struct LdapBindResponse {
    pub res: LdapResult,
    pub saslcreds: Option<String>,
}

/// An extended request: a name (context tag 0) and an optional value
/// (context tag 1).
#[derive(Clone, Debug, PartialEq)]
pub struct LdapExtendedRequest {
    pub name: String,
    pub value: Option<String>,
}

/// An extended response: a result block, an optional name (context tag 10)
/// and an optional value (context tag 11).
#[derive(Clone, Debug, PartialEq)]
pub struct LdapExtendedResponse {
    pub res: LdapResult,
    pub name: Option<String>,
    pub value: Option<String>,
}

/// Model of [`LdapMsg`].
#[verifier::ext_equal]
pub struct SpecMsg {
    pub msgid: i32,
    pub op: SpecOp,
    pub ctrl: Seq<()>,
}

/// Model of [`LdapResult`].
#[verifier::ext_equal]
pub struct SpecLdapResult {
    pub code: LdapResultCode,
    pub matcheddn: Seq<char>,
    pub message: Seq<char>,
    pub referral: Seq<()>,
}

/// Model of [`LdapOp`].
#[verifier::ext_equal]
pub enum SpecOp {
    SimpleBind(SpecSimpleBind),
    BindResponse(SpecBindResponse),
    UnbindRequest,
    ExtendedRequest(SpecExtendedRequest),
    ExtendedResponse(SpecExtendedResponse),
}

/// Model of [`LdapSimpleBind`].
#[verifier::ext_equal]
pub struct SpecSimpleBind {
    pub dn: Seq<char>,
    pub pw: Seq<char>,
}

/// Model of [`LdapBindResponse`].
#[verifier::ext_equal]
pub struct SpecBindResponse {
    pub res: SpecLdapResult,
    pub saslcreds: Option<Seq<char>>,
}

/// Model of [`LdapExtendedRequest`].
#[verifier::ext_equal]
pub struct SpecExtendedRequest {
    pub name: Seq<char>,
    pub value: Option<Seq<char>>,
}

/// Model of [`LdapExtendedResponse`].
#[verifier::ext_equal]
pub struct SpecExtendedResponse {
    pub res: SpecLdapResult,
    pub name: Option<Seq<char>>,
    pub value: Option<Seq<char>>,
}

/// The view of an optional owned string.
pub open spec fn spec_opt_str(o: Option<String>) -> Option<Seq<char>> {
    match o {
        Some(s) => Some(s@),
        None => None,
    }
}

impl View for LdapSimpleBind {
    type V = SpecSimpleBind;

    open spec fn view(&self) -> SpecSimpleBind {
        SpecSimpleBind { dn: self.dn@, pw: self.pw@ }
    }
}

impl View for LdapResult {
    type V = SpecLdapResult;

    open spec fn view(&self) -> SpecLdapResult {
        SpecLdapResult {
            code: self.code,
            matcheddn: self.matcheddn@,
            message: self.message@,
            referral: self.referral@,
        }
    }
}

impl View for LdapBindResponse {
    type V = SpecBindResponse;

    open spec fn view(&self) -> SpecBindResponse {
        SpecBindResponse { res: self.res@, saslcreds: spec_opt_str(self.saslcreds) }
    }
}

impl View for LdapExtendedRequest {
    type V = SpecExtendedRequest;

    open spec fn view(&self) -> SpecExtendedRequest {
        SpecExtendedRequest { name: self.name@, value: spec_opt_str(self.value) }
    }
}

impl View for LdapExtendedResponse {
    type V = SpecExtendedResponse;

    open spec fn view(&self) -> SpecExtendedResponse {
        SpecExtendedResponse {
            res: self.res@,
            name: spec_opt_str(self.name),
            value: spec_opt_str(self.value),
        }
    }
}

impl View for LdapOp {
    type V = SpecOp;

    open spec fn view(&self) -> SpecOp {
        match self {
            LdapOp::SimpleBind(b) => SpecOp::SimpleBind(b@),
            LdapOp::BindResponse(b) => SpecOp::BindResponse(b@),
            LdapOp::UnbindRequest => SpecOp::UnbindRequest,
            LdapOp::ExtendedRequest(e) => SpecOp::ExtendedRequest(e@),
            LdapOp::ExtendedResponse(e) => SpecOp::ExtendedResponse(e@),
        }
    }
}

impl View for LdapMsg {
    type V = SpecMsg;

    open spec fn view(&self) -> SpecMsg {
        SpecMsg { msgid: self.msgid, op: self.op@, ctrl: self.ctrl@ }
    }
}

/// Is `t` a primitive node of universal class with tag number `id`?
pub open spec fn spec_is_univ_prim(t: SpecTagNode, id: u64) -> bool {
    t.class == TagClass::Universal && t.id == id && t.payload is Primitive
}

/// The bytes of a primitive node.
pub open spec fn spec_prim_bytes(t: SpecTagNode) -> Seq<u8> {
    t.payload->Primitive_0
}

/// What decoding a simple bind request from the ordered children of its
/// application node yields: version 3, a DN, and a simple (context tag 0)
/// password, in that order.
pub open spec fn spec_decode_simple_bind(c: Seq<SpecTagNode>) -> Result<
    SpecSimpleBind,
    LdapError,
> {
    if c.len() != 3 {
        Err(LdapError::MalformedOperation)
    } else if !spec_is_univ_prim(c[0], TYPE_INTEGER) {
        Err(LdapError::MalformedOperation)
    } else if spec_prim_bytes(c[0]).len() > 8 {
        Err(LdapError::Overflow)
    } else if spec_be_signed(spec_prim_bytes(c[0])) != 3 {
        Err(LdapError::UnsupportedVersion)
    } else if !spec_is_univ_prim(c[1], TYPE_OCTET_STRING) {
        Err(LdapError::MalformedOperation)
    } else if !valid_utf8(spec_prim_bytes(c[1])) {
        Err(LdapError::InvalidText)
    } else if !(c[2].class == TagClass::Context && c[2].id == 0) {
        Err(LdapError::UnsupportedAuthMethod)
    } else if !(c[2].payload is Primitive) {
        Err(LdapError::MalformedOperation)
    } else if !valid_utf8(spec_prim_bytes(c[2])) {
        Err(LdapError::InvalidText)
    } else {
        Ok(
            SpecSimpleBind {
                dn: decode_utf8(spec_prim_bytes(c[1])),
                pw: decode_utf8(spec_prim_bytes(c[2])),
            },
        )
    }
}

/// Drops every node with tag number 3 (a referral) from a sequence of
/// trailing result-block nodes.
pub open spec fn spec_filter_referrals(s: Seq<SpecTagNode>) -> Seq<SpecTagNode>
    decreases s.len(),
{
    if s.len() == 0 {
        Seq::empty()
    } else if s[0].id != 3 {
        seq![s[0]] + spec_filter_referrals(s.drop_first())
    } else {
        spec_filter_referrals(s.drop_first())
    }
}

/// What decoding the shared result block yields: the first three children
/// are the result code, the matched DN and the diagnostic message; trailing
/// children are handed back with referral nodes dropped.
pub open spec fn spec_decode_result_parts(c: Seq<SpecTagNode>) -> Result<
    (SpecLdapResult, Seq<SpecTagNode>),
    LdapError,
> {
    if c.len() < 3 {
        Err(LdapError::MalformedOperation)
    } else if !spec_is_univ_prim(c[0], TYPE_ENUMERATED) {
        Err(LdapError::MalformedOperation)
    } else if spec_prim_bytes(c[0]).len() > 8 {
        Err(LdapError::Overflow)
    } else if spec_result_code_from(spec_be_signed(spec_prim_bytes(c[0]))) is None {
        Err(LdapError::UnrecognizedResultCode(spec_be_signed(spec_prim_bytes(c[0])) as i64))
    } else if !spec_is_univ_prim(c[1], TYPE_OCTET_STRING) {
        Err(LdapError::MalformedOperation)
    } else if !valid_utf8(spec_prim_bytes(c[1])) {
        Err(LdapError::InvalidText)
    } else if !spec_is_univ_prim(c[2], TYPE_OCTET_STRING) {
        Err(LdapError::MalformedOperation)
    } else if !valid_utf8(spec_prim_bytes(c[2])) {
        Err(LdapError::InvalidText)
    } else {
        Ok(
            (
                SpecLdapResult {
                    code: spec_result_code_from(
                        spec_be_signed(spec_prim_bytes(c[0])),
                    )->Some_0,
                    matcheddn: decode_utf8(spec_prim_bytes(c[1])),
                    message: decode_utf8(spec_prim_bytes(c[2])),
                    referral: Seq::empty(),
                },
                spec_filter_referrals(c.skip(3)),
            ),
        )
    }
}

/// What decoding a bind response yields: the result block; trailing nodes
/// are ignored and the credentials are structurally absent.
pub open spec fn spec_decode_bind_response(c: Seq<SpecTagNode>) -> Result<
    SpecBindResponse,
    LdapError,
> {
    match spec_decode_result_parts(c) {
        Err(e) => Err(e),
        Ok((res, _rest)) => Ok(SpecBindResponse { res, saslcreds: None }),
    }
}

/// The text of a context-tagged optional field, when the node is primitive
/// and holds valid UTF-8.
pub open spec fn spec_ctx_text(t: SpecTagNode) -> Option<Seq<char>> {
    if t.payload is Primitive && valid_utf8(spec_prim_bytes(t)) {
        Some(decode_utf8(spec_prim_bytes(t)))
    } else {
        None
    }
}

/// What decoding an extended request yields: a mandatory context-tag-0 name
/// and an optional context-tag-1 value.
pub open spec fn spec_decode_extended_request(c: Seq<SpecTagNode>) -> Result<
    SpecExtendedRequest,
    LdapError,
> {
    if c.len() < 1 {
        Err(LdapError::MalformedOperation)
    } else if !(c[0].class == TagClass::Context && c[0].id == 0 && c[0].payload is Primitive) {
        Err(LdapError::MalformedOperation)
    } else if !valid_utf8(spec_prim_bytes(c[0])) {
        Err(LdapError::InvalidText)
    } else {
        Ok(
            SpecExtendedRequest {
                name: decode_utf8(spec_prim_bytes(c[0])),
                value: if c.len() >= 2 && c[1].class == TagClass::Context && c[1].id == 1 {
                    spec_ctx_text(c[1])
                } else {
                    None
                },
            },
        )
    }
}

/// Scans the trailing nodes of an extended response for the optional
/// context-tag-10 name and context-tag-11 value; the last occurrence wins
/// and unrecognized tags are ignored.
pub open spec fn spec_scan_extended_trailer(
    s: Seq<SpecTagNode>,
    name: Option<Seq<char>>,
    value: Option<Seq<char>>,
) -> (Option<Seq<char>>, Option<Seq<char>>)
    decreases s.len(),
{
    if s.len() == 0 {
        (name, value)
    } else if s[0].class == TagClass::Context && s[0].id == 10 {
        spec_scan_extended_trailer(s.drop_first(), spec_ctx_text(s[0]), value)
    } else if s[0].class == TagClass::Context && s[0].id == 11 {
        spec_scan_extended_trailer(s.drop_first(), name, spec_ctx_text(s[0]))
    } else {
        spec_scan_extended_trailer(s.drop_first(), name, value)
    }
}

/// What decoding an extended response yields: the result block, then the
/// optional name and value found among the trailing nodes.
pub open spec fn spec_decode_extended_response(c: Seq<SpecTagNode>) -> Result<
    SpecExtendedResponse,
    LdapError,
> {
    match spec_decode_result_parts(c) {
        Err(e) => Err(e),
        Ok((res, rest)) => {
            let (name, value) = spec_scan_extended_trailer(rest, None, None);
            Ok(SpecExtendedResponse { res, name, value })
        },
    }
}

/// What dispatching on an operation node yields: the class must be
/// application and the tag number picks the operation codec; any other pair
/// fails with the offending tag number.
pub open spec fn spec_decode_op(t: SpecTagNode) -> Result<SpecOp, LdapError> {
    if t.class != TagClass::Application {
        Err(LdapError::UnknownOperation(t.id))
    } else if t.id == 0 && t.payload is Constructed {
        match spec_decode_simple_bind(t.payload->Constructed_0) {
            Ok(b) => Ok(SpecOp::SimpleBind(b)),
            Err(e) => Err(e),
        }
    } else if t.id == 1 && t.payload is Constructed {
        match spec_decode_bind_response(t.payload->Constructed_0) {
            Ok(b) => Ok(SpecOp::BindResponse(b)),
            Err(e) => Err(e),
        }
    } else if t.id == 2 {
        Ok(SpecOp::UnbindRequest)
    } else if t.id == 23 && t.payload is Constructed {
        match spec_decode_extended_request(t.payload->Constructed_0) {
            Ok(b) => Ok(SpecOp::ExtendedRequest(b)),
            Err(e) => Err(e),
        }
    } else if t.id == 24 && t.payload is Constructed {
        match spec_decode_extended_response(t.payload->Constructed_0) {
            Ok(b) => Ok(SpecOp::ExtendedResponse(b)),
            Err(e) => Err(e),
        }
    } else {
        Err(LdapError::UnknownOperation(t.id))
    }
}

/// What decoding a message envelope yields: a universal SEQUENCE of 2 or 3
/// children; the message id is a universal INTEGER narrowed to 32 bits, the
/// operation is dispatched, and a third child must be a context-tag-0
/// controls node whose contents are discarded.
pub open spec fn spec_decode_msg(t: SpecTagNode) -> Result<SpecMsg, LdapError> {
    if !(t.class == TagClass::Universal && t.id == TYPE_SEQUENCE && t.payload is Constructed) {
        Err(LdapError::MalformedEnvelope)
    } else {
        let c = t.payload->Constructed_0;
        if c.len() != 2 && c.len() != 3 {
            Err(LdapError::MalformedEnvelope)
        } else if !spec_is_univ_prim(c[0], TYPE_INTEGER) {
            Err(LdapError::MalformedEnvelope)
        } else if spec_prim_bytes(c[0]).len() > 8 {
            Err(LdapError::Overflow)
        } else {
            match spec_decode_op(c[1]) {
                Err(e) => Err(e),
                Ok(op) => {
                    if c.len() == 3 && !(c[2].class == TagClass::Context && c[2].id == 0) {
                        Err(LdapError::MalformedEnvelope)
                    } else {
                        Ok(
                            SpecMsg {
                                msgid: spec_narrow_to_i32(
                                    spec_be_signed(spec_prim_bytes(c[0])),
                                ) as i32,
                                op,
                                ctrl: Seq::empty(),
                            },
                        )
                    }
                },
            }
        }
    }
}

/// A primitive universal INTEGER node holding the minimal encoding of `v`.
pub open spec fn spec_int_node(v: int) -> SpecTagNode {
    SpecTagNode {
        class: TagClass::Universal,
        id: TYPE_INTEGER,
        payload: SpecTagPayload::Primitive(spec_ber_int(v)),
    }
}

/// A primitive node holding the UTF-8 bytes of `s`.
pub open spec fn spec_text_node(class: TagClass, id: u64, s: Seq<char>) -> SpecTagNode {
    SpecTagNode {
        class,
        id,
        payload: SpecTagPayload::Primitive(vstd::utf8::encode_utf8(s)),
    }
}

/// What encoding a simple bind request emits: version 3, the DN, and the
/// password always tagged as the simple credential choice.
pub open spec fn spec_encode_simple_bind(b: SpecSimpleBind) -> Seq<SpecTagNode> {
    seq![
        spec_int_node(3),
        spec_text_node(TagClass::Universal, TYPE_OCTET_STRING, b.dn),
        spec_text_node(TagClass::Context, 0, b.pw),
    ]
}

/// What encoding the shared result block emits: code, matched DN and
/// message in fixed order; a non-empty referral list is not implemented.
pub open spec fn spec_encode_result_parts(r: SpecLdapResult) -> Result<
    Seq<SpecTagNode>,
    LdapError,
> {
    if r.referral.len() > 0 {
        Err(LdapError::NotImplemented)
    } else {
        Ok(
            seq![
                SpecTagNode {
                    class: TagClass::Universal,
                    id: TYPE_ENUMERATED,
                    payload: SpecTagPayload::Primitive(
                        spec_ber_int(spec_result_code_value(r.code)),
                    ),
                },
                spec_text_node(TagClass::Universal, TYPE_OCTET_STRING, r.matcheddn),
                spec_text_node(TagClass::Universal, TYPE_OCTET_STRING, r.message),
            ],
        )
    }
}

/// What encoding a bind response emits: the result block, then the SASL
/// credentials as a universal OCTET STRING when present.
pub open spec fn spec_encode_bind_response(b: SpecBindResponse) -> Result<
    Seq<SpecTagNode>,
    LdapError,
> {
    match spec_encode_result_parts(b.res) {
        Err(e) => Err(e),
        Ok(parts) => Ok(
            match b.saslcreds {
                Some(s) => parts.push(
                    spec_text_node(TagClass::Universal, TYPE_OCTET_STRING, s),
                ),
                None => parts,
            },
        ),
    }
}

/// What encoding an extended request emits: the name under context tag 0,
/// and the value under context tag 1 only when present.
pub open spec fn spec_encode_extended_request(e: SpecExtendedRequest) -> Seq<SpecTagNode> {
    let base = seq![spec_text_node(TagClass::Context, 0, e.name)];
    match e.value {
        Some(v) => base.push(spec_text_node(TagClass::Context, 1, v)),
        None => base,
    }
}

/// What encoding an extended response emits: the result block, then the
/// name under context tag 10 and the value under context tag 11 when
/// present.
pub open spec fn spec_encode_extended_response(e: SpecExtendedResponse) -> Result<
    Seq<SpecTagNode>,
    LdapError,
> {
    match spec_encode_result_parts(e.res) {
        Err(err) => Err(err),
        Ok(parts) => {
            let with_name = match e.name {
                Some(n) => parts.push(spec_text_node(TagClass::Context, 10, n)),
                None => parts,
            };
            Ok(
                match e.value {
                    Some(v) => with_name.push(spec_text_node(TagClass::Context, 11, v)),
                    None => with_name,
                },
            )
        },
    }
}

/// What encoding an operation emits: an application-class node whose fixed
/// tag number identifies the operation; unbind is an empty primitive node.
pub open spec fn spec_encode_op(op: SpecOp) -> Result<SpecTagNode, LdapError> {
    match op {
        SpecOp::SimpleBind(b) => Ok(
            SpecTagNode {
                class: TagClass::Application,
                id: 0,
                payload: SpecTagPayload::Constructed(spec_encode_simple_bind(b)),
            },
        ),
        SpecOp::BindResponse(b) => match spec_encode_bind_response(b) {
            Err(e) => Err(e),
            Ok(ns) => Ok(
                SpecTagNode {
                    class: TagClass::Application,
                    id: 1,
                    payload: SpecTagPayload::Constructed(ns),
                },
            ),
        },
        SpecOp::UnbindRequest => Ok(
            SpecTagNode {
                class: TagClass::Application,
                id: 2,
                payload: SpecTagPayload::Primitive(Seq::empty()),
            },
        ),
        SpecOp::ExtendedRequest(e) => Ok(
            SpecTagNode {
                class: TagClass::Application,
                id: 23,
                payload: SpecTagPayload::Constructed(spec_encode_extended_request(e)),
            },
        ),
        SpecOp::ExtendedResponse(e) => match spec_encode_extended_response(e) {
            Err(err) => Err(err),
            Ok(ns) => Ok(
                SpecTagNode {
                    class: TagClass::Application,
                    id: 24,
                    payload: SpecTagPayload::Constructed(ns),
                },
            ),
        },
    }
}

/// What encoding a message emits: a universal SEQUENCE holding the message
/// id as a 64-bit BER integer and the operation node; a non-empty controls
/// list is not implemented and exactly 2 children are emitted otherwise.
pub open spec fn spec_encode_msg(m: SpecMsg) -> Result<SpecTagNode, LdapError> {
    if m.ctrl.len() > 0 {
        Err(LdapError::NotImplemented)
    } else {
        match spec_encode_op(m.op) {
            Err(e) => Err(e),
            Ok(opn) => Ok(
                SpecTagNode {
                    class: TagClass::Universal,
                    id: TYPE_SEQUENCE,
                    payload: SpecTagPayload::Constructed(
                        seq![spec_int_node(m.msgid as int), opn],
                    ),
                },
            ),
        }
    }
}

/// Relies on `String::from_utf8`: it succeeds exactly on valid UTF-8 input,
/// and the returned string is the decoding of those bytes.
#[verifier::external_body]
fn utf8_to_string(bytes: &Vec<u8>) -> (r: Option<String>)
    ensures
        r is Some <==> valid_utf8(bytes@),
        r matches Some(s) ==> s@ == decode_utf8(bytes@),
{
    String::from_utf8(bytes.clone()).ok()
}

/// A primitive universal INTEGER node carrying `v`.
fn int_node(v: i64) -> (r: TagNode)
    ensures
        r@ == spec_int_node(v as int),
{
    TagNode::primitive(TagClass::Universal, TYPE_INTEGER, i64_to_ber_bytes(v))
}

/// A primitive node carrying the UTF-8 bytes of `s`.
fn text_node(class: TagClass, id: u64, s: &String) -> (r: TagNode)
    ensures
        r@ == spec_text_node(class, id, s@),
{
    TagNode::primitive(class, id, s.as_str().as_bytes_vec())
}

impl LdapOp {
    /// Is this operation a simple bind request?
    pub fn is_simplebind(&self) -> (r: bool)
        ensures
            r == (self@ is SimpleBind),
    {
        match self {
            LdapOp::SimpleBind(_) => true,
            _ => false,
        }
    }

    /// Decodes an operation node by dispatching on its application-class
    /// tag number.
    pub fn decode(value: TagNode) -> (r: Result<LdapOp, LdapError>)
        ensures
            (match r {
                Ok(op) => spec_decode_op(value@) == Ok::<SpecOp, LdapError>(op@),
                Err(e) => spec_decode_op(value@) == Err::<SpecOp, LdapError>(e),
            }),
    {
        let TagNode { class, id, payload } = value;
        if !(class == TagClass::Application) {
            return Err(LdapError::UnknownOperation(id));
        }
        match payload {
            TagPayload::Constructed(inner) => {
                if id == 0 {
                    match LdapSimpleBind::decode(inner) {
                        Ok(b) => Ok(LdapOp::SimpleBind(b)),
                        Err(e) => Err(e),
                    }
                } else if id == 1 {
                    match LdapBindResponse::decode(inner) {
                        Ok(b) => Ok(LdapOp::BindResponse(b)),
                        Err(e) => Err(e),
                    }
                } else if id == 2 {
                    Ok(LdapOp::UnbindRequest)
                } else if id == 23 {
                    match LdapExtendedRequest::decode(inner) {
                        Ok(b) => Ok(LdapOp::ExtendedRequest(b)),
                        Err(e) => Err(e),
                    }
                } else if id == 24 {
                    match LdapExtendedResponse::decode(inner) {
                        Ok(b) => Ok(LdapOp::ExtendedResponse(b)),
                        Err(e) => Err(e),
                    }
                } else {
                    Err(LdapError::UnknownOperation(id))
                }
            },
            TagPayload::Primitive(_) => {
                if id == 2 {
                    Ok(LdapOp::UnbindRequest)
                } else {
                    Err(LdapError::UnknownOperation(id))
                }
            },
        }
    }

    /// Encodes an operation as an application-class node with its fixed tag
    /// number.
    pub fn encode(self) -> (r: Result<TagNode, LdapError>)
        ensures
            (match r {
                Ok(n) => spec_encode_op(self@) == Ok::<SpecTagNode, LdapError>(n@),
                Err(e) => spec_encode_op(self@) == Err::<SpecTagNode, LdapError>(e),
            }),
    {
        match self {
            LdapOp::SimpleBind(b) => {
                let ns = b.encode();
                Ok(TagNode::constructed(TagClass::Application, 0, ns))
            },
            LdapOp::BindResponse(b) => {
                match b.encode() {
                    Ok(ns) => Ok(TagNode::constructed(TagClass::Application, 1, ns)),
                    Err(e) => Err(e),
                }
            },
            LdapOp::UnbindRequest => {
                let empty: Vec<u8> = Vec::new();
                proof {
                    assert(empty@ =~= Seq::<u8>::empty());
                }
                Ok(TagNode::primitive(TagClass::Application, 2, empty))
            },
            LdapOp::ExtendedRequest(e) => {
                let ns = e.encode();
                Ok(TagNode::constructed(TagClass::Application, 23, ns))
            },
            LdapOp::ExtendedResponse(e) => {
                match e.encode() {
                    Ok(ns) => Ok(TagNode::constructed(TagClass::Application, 24, ns)),
                    Err(err) => Err(err),
                }
            },
        }
    }
}

impl LdapSimpleBind {
    /// The anonymous bind: both the DN and the password are empty.
    pub fn new_anonymous() -> (r: LdapSimpleBind)
        ensures
            r@ == (SpecSimpleBind { dn: Seq::<char>::empty(), pw: Seq::<char>::empty() }),
    {
        LdapSimpleBind { dn: String::new(), pw: String::new() }
    }

    /// Decodes a simple bind request from the ordered children of its
    /// application node.
    pub fn decode(value: Vec<TagNode>) -> (r: Result<LdapSimpleBind, LdapError>)
        ensures
            (match r {
                Ok(b) => spec_decode_simple_bind(spec_nodes_view(value@)) == Ok::<
                    SpecSimpleBind,
                    LdapError,
                >(b@),
                Err(e) => spec_decode_simple_bind(spec_nodes_view(value@)) == Err::<
                    SpecSimpleBind,
                    LdapError,
                >(e),
            }),
    {
        let ghost cs = spec_nodes_view(value@);
        proof {
            crate::tag::lemma_nodes_view(value@);
        }
        if value.len() != 3 {
            return Err(LdapError::MalformedOperation);
        }
        let mut rest = value;
        let ghost v0 = rest@;
        let v_node = rest.remove(0);
        let dn_node = rest.remove(0);
        let pw_node = rest.remove(0);
        proof {
            assert(v0.remove(0) =~= v0.subrange(1, 3));
            assert(v0.remove(0).remove(0) =~= v0.subrange(2, 3));
            assert(v_node@ == cs[0] && dn_node@ == cs[1] && pw_node@ == cs[2]);
        }
        if !(v_node.class == TagClass::Universal && v_node.id == TYPE_INTEGER) {
            return Err(LdapError::MalformedOperation);
        }
        let vbytes = match v_node.payload {
            TagPayload::Primitive(b) => b,
            TagPayload::Constructed(_) => {
                return Err(LdapError::MalformedOperation);
            },
        };
        let ver = match ber_integer_to_i64(vbytes) {
            None => {
                return Err(LdapError::Overflow);
            },
            Some(v) => v,
        };
        if ver != 3 {
            return Err(LdapError::UnsupportedVersion);
        }
        if !(dn_node.class == TagClass::Universal && dn_node.id == TYPE_OCTET_STRING) {
            return Err(LdapError::MalformedOperation);
        }
        let dn_bytes = match dn_node.payload {
            TagPayload::Primitive(b) => b,
            TagPayload::Constructed(_) => {
                return Err(LdapError::MalformedOperation);
            },
        };
        let dn = match utf8_to_string(&dn_bytes) {
            None => {
                return Err(LdapError::InvalidText);
            },
            Some(s) => s,
        };
        if !(pw_node.class == TagClass::Context && pw_node.id == 0) {
            return Err(LdapError::UnsupportedAuthMethod);
        }
        let pw_bytes = match pw_node.payload {
            TagPayload::Primitive(b) => b,
            TagPayload::Constructed(_) => {
                return Err(LdapError::MalformedOperation);
            },
        };
        let pw = match utf8_to_string(&pw_bytes) {
            None => {
                return Err(LdapError::InvalidText);
            },
            Some(s) => s,
        };
        Ok(LdapSimpleBind { dn, pw })
    }

    /// Encodes a simple bind request as the ordered children of its
    /// application node.
    pub fn encode(self) -> (r: Vec<TagNode>)
        ensures
            spec_nodes_view(r@) == spec_encode_simple_bind(self@),
    {
        let mut out: Vec<TagNode> = Vec::new();
        out.push(int_node(3));
        out.push(text_node(TagClass::Universal, TYPE_OCTET_STRING, &self.dn));
        out.push(text_node(TagClass::Context, 0, &self.pw));
        proof {
            crate::tag::lemma_nodes_view(out@);
            assert(spec_nodes_view(out@) =~= spec_encode_simple_bind(self@));
        }
        out
    }
}

impl LdapResult {
    /// Decodes the shared result block from the ordered children of a
    /// response node, returning the unconsumed trailing children with
    /// referral nodes dropped.
    pub fn try_from_tag(value: Vec<TagNode>) -> (r: Result<
        (LdapResult, Vec<TagNode>),
        LdapError,
    >)
        ensures
            (match r {
                Ok(p) => spec_decode_result_parts(spec_nodes_view(value@)) == Ok::<
                    (SpecLdapResult, Seq<SpecTagNode>),
                    LdapError,
                >((p.0@, spec_nodes_view(p.1@))),
                Err(e) => spec_decode_result_parts(spec_nodes_view(value@)) == Err::<
                    (SpecLdapResult, Seq<SpecTagNode>),
                    LdapError,
                >(e),
            }),
    {
        let ghost cs = spec_nodes_view(value@);
        proof {
            crate::tag::lemma_nodes_view(value@);
        }
        if value.len() < 3 {
            return Err(LdapError::MalformedOperation);
        }
        let mut rest = value;
        let ghost v0 = rest@;
        let code_node = rest.remove(0);
        let dn_node = rest.remove(0);
        let msg_node = rest.remove(0);
        proof {
            assert(v0.remove(0) =~= v0.subrange(1, v0.len() as int));
            assert(v0.remove(0).remove(0) =~= v0.subrange(2, v0.len() as int));
            assert(v0.remove(0).remove(0).remove(0) =~= v0.skip(3));
            assert(code_node@ == cs[0] && dn_node@ == cs[1] && msg_node@ == cs[2]);
            crate::tag::lemma_nodes_view(rest@);
            assert(spec_nodes_view(rest@) =~= cs.skip(3));
        }
        if !(code_node.class == TagClass::Universal && code_node.id == TYPE_ENUMERATED) {
            return Err(LdapError::MalformedOperation);
        }
        let code_bytes = match code_node.payload {
            TagPayload::Primitive(b) => b,
            TagPayload::Constructed(_) => {
                return Err(LdapError::MalformedOperation);
            },
        };
        let ci = match ber_integer_to_i64(code_bytes) {
            None => {
                return Err(LdapError::Overflow);
            },
            Some(v) => v,
        };
        let code = match LdapResultCode::from_i64(ci) {
            None => {
                return Err(LdapError::UnrecognizedResultCode(ci));
            },
            Some(c) => c,
        };
        if !(dn_node.class == TagClass::Universal && dn_node.id == TYPE_OCTET_STRING) {
            return Err(LdapError::MalformedOperation);
        }
        let dn_bytes = match dn_node.payload {
            TagPayload::Primitive(b) => b,
            TagPayload::Constructed(_) => {
                return Err(LdapError::MalformedOperation);
            },
        };
        let matcheddn = match utf8_to_string(&dn_bytes) {
            None => {
                return Err(LdapError::InvalidText);
            },
            Some(s) => s,
        };
        if !(msg_node.class == TagClass::Universal && msg_node.id == TYPE_OCTET_STRING) {
            return Err(LdapError::MalformedOperation);
        }
        let msg_bytes = match msg_node.payload {
            TagPayload::Primitive(b) => b,
            TagPayload::Constructed(_) => {
                return Err(LdapError::MalformedOperation);
            },
        };
        let message = match utf8_to_string(&msg_bytes) {
            None => {
                return Err(LdapError::InvalidText);
            },
            Some(s) => s,
        };
        let mut other: Vec<TagNode> = Vec::new();
        proof {
            crate::tag::lemma_nodes_view(other@);
            assert(spec_nodes_view(other@) =~= Seq::<SpecTagNode>::empty());
            assert(spec_nodes_view(other@) + spec_filter_referrals(spec_nodes_view(rest@))
                =~= spec_filter_referrals(cs.skip(3)));
        }
        while rest.len() > 0
            invariant
                spec_filter_referrals(cs.skip(3)) == spec_nodes_view(other@)
                    + spec_filter_referrals(spec_nodes_view(rest@)),
            decreases rest.len(),
        {
            let ghost r0 = rest@;
            let ghost o0 = other@;
            let t = rest.remove(0);
            proof {
                crate::tag::lemma_nodes_view(r0);
                crate::tag::lemma_nodes_view(rest@);
                assert(r0.remove(0) =~= r0.drop_first());
                assert(spec_nodes_view(rest@) =~= spec_nodes_view(r0).drop_first());
                assert(spec_nodes_view(r0)[0] == t@);
            }
            if t.id != 3 {
                other.push(t);
                proof {
                    crate::tag::lemma_nodes_view(other@);
                    crate::tag::lemma_nodes_view(o0);
                    assert(spec_nodes_view(other@) =~= spec_nodes_view(o0).push(t@));
                    assert(spec_nodes_view(o0).push(t@) + spec_filter_referrals(
                        spec_nodes_view(rest@),
                    ) =~= spec_nodes_view(o0) + (seq![t@] + spec_filter_referrals(
                        spec_nodes_view(rest@),
                    )));
                }
            }
        }
        proof {
            assert(spec_nodes_view(rest@) =~= Seq::<SpecTagNode>::empty());
            assert(spec_filter_referrals(cs.skip(3)) =~= spec_nodes_view(other@));
        }
        Ok((LdapResult { code, matcheddn, message, referral: Vec::new() }, other))
    }

    /// Encodes the result block as its three fixed nodes; a non-empty
    /// referral list is not implemented.
    pub fn into_tags(self) -> (r: Result<Vec<TagNode>, LdapError>)
        ensures
            (match r {
                Ok(v) => spec_encode_result_parts(self@) == Ok::<Seq<SpecTagNode>, LdapError>(
                    spec_nodes_view(v@),
                ),
                Err(e) => spec_encode_result_parts(self@) == Err::<Seq<SpecTagNode>, LdapError>(
                    e,
                ),
            }),
    {
        if self.referral.len() > 0 {
            return Err(LdapError::NotImplemented);
        }
        let mut out: Vec<TagNode> = Vec::new();
        out.push(
            TagNode::primitive(
                TagClass::Universal,
                TYPE_ENUMERATED,
                i64_to_ber_bytes(self.code.value()),
            ),
        );
        out.push(text_node(TagClass::Universal, TYPE_OCTET_STRING, &self.matcheddn));
        out.push(text_node(TagClass::Universal, TYPE_OCTET_STRING, &self.message));
        proof {
            crate::tag::lemma_nodes_view(out@);
            assert(spec_nodes_view(out@) =~= spec_encode_result_parts(self@)->Ok_0);
        }
        Ok(out)
    }
}

impl LdapBindResponse {
    /// A success bind response carrying a diagnostic message.
    pub fn new_success(msg: &str) -> (r: LdapBindResponse)
        ensures
            r@ == (SpecBindResponse {
                res: SpecLdapResult {
                    code: LdapResultCode::Success,
                    matcheddn: Seq::<char>::empty(),
                    message: msg@,
                    referral: Seq::<()>::empty(),
                },
                saslcreds: None,
            }),
    {
        LdapBindResponse {
            res: LdapResult {
                code: LdapResultCode::Success,
                matcheddn: String::new(),
                message: String::from_str(msg),
                referral: Vec::new(),
            },
            saslcreds: None,
        }
    }

    /// An invalid-credentials bind response carrying the matched DN and a
    /// diagnostic message.
    pub fn new_invalidcredentials(dn: &str, msg: &str) -> (r: LdapBindResponse)
        ensures
            r@ == (SpecBindResponse {
                res: SpecLdapResult {
                    code: LdapResultCode::InvalidCredentials,
                    matcheddn: dn@,
                    message: msg@,
                    referral: Seq::<()>::empty(),
                },
                saslcreds: None,
            }),
    {
        LdapBindResponse {
            res: LdapResult {
                code: LdapResultCode::InvalidCredentials,
                matcheddn: String::from_str(dn),
                message: String::from_str(msg),
                referral: Vec::new(),
            },
            saslcreds: None,
        }
    }

    /// Decodes a bind response from the ordered children of its application
    /// node: the result block, with trailing children ignored.
    pub fn decode(value: Vec<TagNode>) -> (r: Result<LdapBindResponse, LdapError>)
        ensures
            (match r {
                Ok(b) => spec_decode_bind_response(spec_nodes_view(value@)) == Ok::<
                    SpecBindResponse,
                    LdapError,
                >(b@),
                Err(e) => spec_decode_bind_response(spec_nodes_view(value@)) == Err::<
                    SpecBindResponse,
                    LdapError,
                >(e),
            }),
    {
        match LdapResult::try_from_tag(value) {
            Ok(p) => Ok(LdapBindResponse { res: p.0, saslcreds: None }),
            Err(e) => Err(e),
        }
    }

    /// Encodes a bind response: the result block, then the SASL credentials
    /// when present.
    pub fn encode(self) -> (r: Result<Vec<TagNode>, LdapError>)
        ensures
            (match r {
                Ok(v) => spec_encode_bind_response(self@) == Ok::<Seq<SpecTagNode>, LdapError>(
                    spec_nodes_view(v@),
                ),
                Err(e) => spec_encode_bind_response(self@) == Err::<Seq<SpecTagNode>, LdapError>(
                    e,
                ),
            }),
    {
        let LdapBindResponse { res, saslcreds } = self;
        let mut out = match res.into_tags() {
            Ok(v) => v,
            Err(e) => {
                return Err(e);
            },
        };
        let ghost base = spec_nodes_view(out@);
        match saslcreds {
            Some(sc) => {
                let ghost o0 = out@;
                out.push(text_node(TagClass::Universal, TYPE_OCTET_STRING, &sc));
                proof {
                    crate::tag::lemma_nodes_view(o0);
                    crate::tag::lemma_nodes_view(out@);
                    assert(spec_nodes_view(out@) =~= base.push(
                        spec_text_node(TagClass::Universal, TYPE_OCTET_STRING, sc@),
                    ));
                }
            },
            None => {},
        }
        Ok(out)
    }
}

impl LdapExtendedRequest {
    /// Decodes an extended request from the ordered children of its
    /// application node: a mandatory context-tag-0 name, an optional
    /// context-tag-1 value.
    pub fn decode(value: Vec<TagNode>) -> (r: Result<LdapExtendedRequest, LdapError>)
        ensures
            (match r {
                Ok(b) => spec_decode_extended_request(spec_nodes_view(value@)) == Ok::<
                    SpecExtendedRequest,
                    LdapError,
                >(b@),
                Err(e) => spec_decode_extended_request(spec_nodes_view(value@)) == Err::<
                    SpecExtendedRequest,
                    LdapError,
                >(e),
            }),
    {
        let ghost cs = spec_nodes_view(value@);
        proof {
            crate::tag::lemma_nodes_view(value@);
        }
        if value.len() == 0 {
            return Err(LdapError::MalformedOperation);
        }
        let mut rest = value;
        let ghost v0 = rest@;
        let name_node = rest.remove(0);
        proof {
            assert(name_node@ == cs[0]);
        }
        if !(name_node.class == TagClass::Context && name_node.id == 0) {
            return Err(LdapError::MalformedOperation);
        }
        let name_bytes = match name_node.payload {
            TagPayload::Primitive(b) => b,
            TagPayload::Constructed(_) => {
                return Err(LdapError::MalformedOperation);
            },
        };
        let name = match utf8_to_string(&name_bytes) {
            None => {
                return Err(LdapError::InvalidText);
            },
            Some(s) => s,
        };
        let mut value_field: Option<String> = None;
        if rest.len() > 0 {
            let v_node = rest.remove(0);
            proof {
                assert(v0.remove(0) =~= v0.subrange(1, v0.len() as int));
                assert(v_node@ == cs[1]);
            }
            if v_node.class == TagClass::Context && v_node.id == 1 {
                match v_node.payload {
                    TagPayload::Primitive(b) => {
                        value_field = utf8_to_string(&b);
                    },
                    TagPayload::Constructed(_) => {},
                }
            }
        }
        Ok(LdapExtendedRequest { name, value: value_field })
    }

    /// Encodes an extended request: the name under context tag 0, the value
    /// under context tag 1 only when present.
    pub fn encode(self) -> (r: Vec<TagNode>)
        ensures
            spec_nodes_view(r@) == spec_encode_extended_request(self@),
    {
        let LdapExtendedRequest { name, value } = self;
        let mut out: Vec<TagNode> = Vec::new();
        out.push(text_node(TagClass::Context, 0, &name));
        proof {
            crate::tag::lemma_nodes_view(out@);
            assert(spec_nodes_view(out@) =~= seq![spec_text_node(TagClass::Context, 0, name@)]);
        }
        let ghost base = spec_nodes_view(out@);
        match value {
            Some(v) => {
                out.push(text_node(TagClass::Context, 1, &v));
                proof {
                    crate::tag::lemma_nodes_view(out@);
                    assert(spec_nodes_view(out@) =~= base.push(
                        spec_text_node(TagClass::Context, 1, v@),
                    ));
                }
            },
            None => {},
        }
        out
    }
}

impl LdapExtendedResponse {
    /// A success extended response with an optional response name and value
    /// and empty texts in the result block.
    pub fn new_success(name: Option<&str>, value: Option<&str>) -> (r: LdapExtendedResponse)
        ensures
            r@ == (SpecExtendedResponse {
                res: SpecLdapResult {
                    code: LdapResultCode::Success,
                    matcheddn: Seq::<char>::empty(),
                    message: Seq::<char>::empty(),
                    referral: Seq::<()>::empty(),
                },
                name: (match name {
                    Some(n) => Some(n@),
                    None => None,
                }),
                value: (match value {
                    Some(v) => Some(v@),
                    None => None,
                }),
            }),
    {
        LdapExtendedResponse {
            res: LdapResult {
                code: LdapResultCode::Success,
                matcheddn: String::new(),
                message: String::new(),
                referral: Vec::new(),
            },
            name: (match name {
                Some(n) => Some(String::from_str(n)),
                None => None,
            }),
            value: (match value {
                Some(v) => Some(String::from_str(v)),
                None => None,
            }),
        }
    }

    /// An operations-error extended response carrying a diagnostic message.
    pub fn new_operationserror(msg: &str) -> (r: LdapExtendedResponse)
        ensures
            r@ == (SpecExtendedResponse {
                res: SpecLdapResult {
                    code: LdapResultCode::OperationsError,
                    matcheddn: Seq::<char>::empty(),
                    message: msg@,
                    referral: Seq::<()>::empty(),
                },
                name: None,
                value: None,
            }),
    {
        LdapExtendedResponse {
            res: LdapResult {
                code: LdapResultCode::OperationsError,
                matcheddn: String::new(),
                message: String::from_str(msg),
                referral: Vec::new(),
            },
            name: None,
            value: None,
        }
    }

    /// Decodes an extended response from the ordered children of its
    /// application node: the result block, then the optional context-tag-10
    /// name and context-tag-11 value among the trailing children.
    pub fn decode(value: Vec<TagNode>) -> (r: Result<LdapExtendedResponse, LdapError>)
        ensures
            (match r {
                Ok(b) => spec_decode_extended_response(spec_nodes_view(value@)) == Ok::<
                    SpecExtendedResponse,
                    LdapError,
                >(b@),
                Err(e) => spec_decode_extended_response(spec_nodes_view(value@)) == Err::<
                    SpecExtendedResponse,
                    LdapError,
                >(e),
            }),
    {
        let (res, mut rest) = match LdapResult::try_from_tag(value) {
            Ok(p) => p,
            Err(e) => {
                return Err(e);
            },
        };
        let ghost trail = spec_nodes_view(rest@);
        let mut name: Option<String> = None;
        let mut value_field: Option<String> = None;
        proof {
            crate::tag::lemma_nodes_view(rest@);
        }
        while rest.len() > 0
            invariant
                spec_scan_extended_trailer(trail, None, None) == spec_scan_extended_trailer(
                    spec_nodes_view(rest@),
                    spec_opt_str(name),
                    spec_opt_str(value_field),
                ),
            decreases rest.len(),
        {
            let ghost r0 = rest@;
            let t = rest.remove(0);
            proof {
                crate::tag::lemma_nodes_view(r0);
                crate::tag::lemma_nodes_view(rest@);
                assert(r0.remove(0) =~= r0.drop_first());
                assert(spec_nodes_view(rest@) =~= spec_nodes_view(r0).drop_first());
                assert(spec_nodes_view(r0)[0] == t@);
            }
            let is_ctx = t.class == TagClass::Context;
            if is_ctx && t.id == 10 {
                match t.payload {
                    TagPayload::Primitive(b) => {
                        name = utf8_to_string(&b);
                    },
                    TagPayload::Constructed(_) => {
                        name = None;
                    },
                }
            } else if is_ctx && t.id == 11 {
                match t.payload {
                    TagPayload::Primitive(b) => {
                        value_field = utf8_to_string(&b);
                    },
                    TagPayload::Constructed(_) => {
                        value_field = None;
                    },
                }
            }
        }
        proof {
            assert(spec_nodes_view(rest@) =~= Seq::<SpecTagNode>::empty());
        }
        Ok(LdapExtendedResponse { res, name, value: value_field })
    }

    /// Encodes an extended response: the result block, then the name under
    /// context tag 10 and the value under context tag 11 when present.
    pub fn encode(self) -> (r: Result<Vec<TagNode>, LdapError>)
        ensures
            (match r {
                Ok(v) => spec_encode_extended_response(self@) == Ok::<
                    Seq<SpecTagNode>,
                    LdapError,
                >(spec_nodes_view(v@)),
                Err(e) => spec_encode_extended_response(self@) == Err::<
                    Seq<SpecTagNode>,
                    LdapError,
                >(e),
            }),
    {
        let LdapExtendedResponse { res, name, value } = self;
        let mut out = match res.into_tags() {
            Ok(v) => v,
            Err(e) => {
                return Err(e);
            },
        };
        let ghost base = spec_nodes_view(out@);
        match name {
            Some(n) => {
                let ghost o0 = out@;
                out.push(text_node(TagClass::Context, 10, &n));
                proof {
                    crate::tag::lemma_nodes_view(o0);
                    crate::tag::lemma_nodes_view(out@);
                    assert(spec_nodes_view(out@) =~= base.push(
                        spec_text_node(TagClass::Context, 10, n@),
                    ));
                }
            },
            None => {},
        }
        let ghost with_name = spec_nodes_view(out@);
        match value {
            Some(v) => {
                let ghost o0 = out@;
                out.push(text_node(TagClass::Context, 11, &v));
                proof {
                    crate::tag::lemma_nodes_view(o0);
                    crate::tag::lemma_nodes_view(out@);
                    assert(spec_nodes_view(out@) =~= with_name.push(
                        spec_text_node(TagClass::Context, 11, v@),
                    ));
                }
            },
            None => {},
        }
        Ok(out)
    }
}

impl LdapMsg {
    /// A message with the given id and operation and an empty controls
    /// list.
    pub fn new(msgid: i32, op: LdapOp) -> (r: LdapMsg)
        ensures
            r@ == (SpecMsg { msgid, op: op@, ctrl: Seq::<()>::empty() }),
    {
        let r = LdapMsg { msgid, op, ctrl: Vec::new() };
        proof {
            assert(r@ =~= (SpecMsg { msgid, op: r.op@, ctrl: Seq::<()>::empty() }));
        }
        r
    }

    /// Decodes a message envelope: a universal SEQUENCE of 2 or 3 children
    /// holding the message id, the operation, and optionally a
    /// context-tag-0 controls node whose contents are discarded.
    pub fn decode(value: TagNode) -> (r: Result<LdapMsg, LdapError>)
        ensures
            (match r {
                Ok(m) => spec_decode_msg(value@) == Ok::<SpecMsg, LdapError>(m@),
                Err(e) => spec_decode_msg(value@) == Err::<SpecMsg, LdapError>(e),
            }),
    {
        let ghost tv = value@;
        let TagNode { class, id, payload } = value;
        if !(class == TagClass::Universal && id == TYPE_SEQUENCE) {
            return Err(LdapError::MalformedEnvelope);
        }
        let mut c = match payload {
            TagPayload::Constructed(v) => v,
            TagPayload::Primitive(_) => {
                return Err(LdapError::MalformedEnvelope);
            },
        };
        let ghost cs = spec_nodes_view(c@);
        proof {
            crate::tag::lemma_nodes_view(c@);
            assert(tv.payload->Constructed_0 == cs);
        }
        let clen = c.len();
        if clen != 2 && clen != 3 {
            return Err(LdapError::MalformedEnvelope);
        }
        let ghost c0 = c@;
        let msg_node = c.remove(0);
        let op_node = c.remove(0);
        proof {
            assert(c0.remove(0) =~= c0.subrange(1, c0.len() as int));
            assert(msg_node@ == cs[0] && op_node@ == cs[1]);
        }
        if !(msg_node.class == TagClass::Universal && msg_node.id == TYPE_INTEGER) {
            return Err(LdapError::MalformedEnvelope);
        }
        let mbytes = match msg_node.payload {
            TagPayload::Primitive(b) => b,
            TagPayload::Constructed(_) => {
                return Err(LdapError::MalformedEnvelope);
            },
        };
        let mv = match ber_integer_to_i64(mbytes) {
            None => {
                return Err(LdapError::Overflow);
            },
            Some(v) => v,
        };
        let msgid = narrow_to_i32(mv);
        let op = match LdapOp::decode(op_node) {
            Ok(o) => o,
            Err(e) => {
                return Err(e);
            },
        };
        if clen == 3 {
            let ctrl_node = c.remove(0);
            proof {
                assert(c0.remove(0).remove(0) =~= c0.subrange(2, c0.len() as int));
                assert(ctrl_node@ == cs[2]);
            }
            if !(ctrl_node.class == TagClass::Context && ctrl_node.id == 0) {
                return Err(LdapError::MalformedEnvelope);
            }
        }
        let r = LdapMsg { msgid, op, ctrl: Vec::new() };
        proof {
            assert(r@ =~= spec_decode_msg(tv)->Ok_0);
        }
        Ok(r)
    }

    /// Encodes a message envelope: exactly the message id and the operation
    /// when the controls list is empty; a non-empty controls list is not
    /// implemented.
    pub fn encode(self) -> (r: Result<TagNode, LdapError>)
        ensures
            (match r {
                Ok(n) => spec_encode_msg(self@) == Ok::<SpecTagNode, LdapError>(n@),
                Err(e) => spec_encode_msg(self@) == Err::<SpecTagNode, LdapError>(e),
            }),
    {
        let ghost sv = self@;
        let LdapMsg { msgid, op, ctrl } = self;
        if ctrl.len() > 0 {
            return Err(LdapError::NotImplemented);
        }
        let opn = match op.encode() {
            Ok(n) => n,
            Err(e) => {
                return Err(e);
            },
        };
        let ghost opv = opn@;
        let mut children: Vec<TagNode> = Vec::new();
        children.push(int_node(msgid as i64));
        children.push(opn);
        let r = TagNode::constructed(TagClass::Universal, TYPE_SEQUENCE, children);
        proof {
            crate::tag::lemma_nodes_view(children@);
            assert(spec_nodes_view(children@) =~= seq![spec_int_node(msgid as int), opv]);
            assert(r@ =~= spec_encode_msg(sv)->Ok_0);
        }
        Ok(r)
    }
}

} // verus!
