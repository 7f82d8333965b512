//! A typed codec between a subset of the LDAP protocol (bind, unbind and
//! extended operations, RFC 4511) and a generic BER tagged-node tree.
//!
//! The byte-level BER lexer is an external collaborator: this crate consumes
//! and produces trees of [`tag::TagNode`] values and maps them to and from
//! strongly typed protocol messages, validating the protocol grammar.

pub mod berint;
pub mod codes;
pub mod laws;
pub mod proto;
pub mod tag;

pub use berint::ber_integer_to_i64;
pub use berint::i64_to_ber_bytes;
pub use berint::narrow_to_i32;
pub use codes::LdapResultCode;
pub use proto::LdapBindResponse;
pub use proto::LdapError;
pub use proto::LdapExtendedRequest;
pub use proto::LdapExtendedResponse;
pub use proto::LdapMsg;
pub use proto::LdapOp;
pub use proto::LdapResult;
pub use proto::LdapSimpleBind;
pub use tag::TagClass;
pub use tag::TagNode;
pub use tag::TagPayload;
