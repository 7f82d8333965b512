//! The generic BER tagged-node tree that the codec consumes and produces,
//! together with its mathematical model.

use vstd::prelude::*;

verus! {

/// ASN.1 tag class of a BER node.
#[derive(Clone, Copy, Debug, PartialEq, Eq, Structural)]
pub enum TagClass {
    Universal,
    Application,
    Context,
    Private,
}

/// Payload of a BER node: raw bytes for a primitive node, an ordered
/// sequence of child nodes for a constructed one.
#[derive(Debug, PartialEq)]
pub enum TagPayload {
    Primitive(Vec<u8>),
    Constructed(Vec<TagNode>),
}

/// One node of a BER tagged-node tree: a class, a numeric tag and a payload.
#[derive(Debug, PartialEq)]
pub struct TagNode {
    pub class: TagClass,
    pub id: u64,
    pub payload: TagPayload,
}

/// Mathematical model of a payload.
#[verifier::ext_equal]
pub enum SpecTagPayload {
    Primitive(Seq<u8>),
    Constructed(Seq<SpecTagNode>),
}

/// Mathematical model of a tagged node.
#[verifier::ext_equal]
pub struct SpecTagNode {
    pub class: TagClass,
    pub id: u64,
    pub payload: SpecTagPayload,
}

/// The model of a node: the tree with every `Vec` replaced by a `Seq`.
pub open spec fn spec_node_view(t: TagNode) -> SpecTagNode
    decreases t, 1int,
{
    SpecTagNode {
        class: t.class,
        id: t.id,
        payload: if t.payload is Primitive {
            SpecTagPayload::Primitive(t.payload->Primitive_0@)
        } else {
            SpecTagPayload::Constructed(spec_nodes_view(t.payload->Constructed_0@))
        },
    }
}

/// The models of a sequence of nodes, elementwise.
pub open spec fn spec_nodes_view(s: Seq<TagNode>) -> Seq<SpecTagNode>
    decreases s, 0int,
{
    if s.len() == 0 {
        Seq::empty()
    } else {
        seq![spec_node_view(s[0])] + spec_nodes_view(s.subrange(1, s.len() as int))
    }
}

/// Elementwise description of [`spec_nodes_view`]: it keeps the length and
/// models each node in place.
pub proof fn lemma_nodes_view(s: Seq<TagNode>)
    ensures
        spec_nodes_view(s).len() == s.len(),
        forall|i: int|
            0 <= i < s.len() ==> #[trigger] spec_nodes_view(s)[i] == spec_node_view(s[i]),
    decreases s.len(),
{
    if s.len() > 0 {
        lemma_nodes_view(s.subrange(1, s.len() as int));
    }
}

impl View for TagNode {
    type V = SpecTagNode;

    open spec fn view(&self) -> SpecTagNode {
        spec_node_view(*self)
    }
}

impl TagNode {
    /// Builds a primitive node from its class, tag number and payload bytes.
    pub fn primitive(class: TagClass, id: u64, bytes: Vec<u8>) -> (r: TagNode)
        ensures
            r@ == (SpecTagNode { class, id, payload: SpecTagPayload::Primitive(bytes@) }),
    {
        TagNode { class, id, payload: TagPayload::Primitive(bytes) }
    }

    /// Builds a constructed node from its class, tag number and children.
    pub fn constructed(class: TagClass, id: u64, children: Vec<TagNode>) -> (r: TagNode)
        ensures
            r@ == (SpecTagNode {
                class,
                id,
                payload: SpecTagPayload::Constructed(spec_nodes_view(children@)),
            }),
    {
        let ghost cs = children@;
        let r = TagNode { class, id, payload: TagPayload::Constructed(children) };
        proof {
            assert(r@.payload->Constructed_0 =~= spec_nodes_view(cs));
            assert(r@ =~= (SpecTagNode {
                class,
                id,
                payload: SpecTagPayload::Constructed(spec_nodes_view(cs)),
            }));
        }
        r
    }
}

} // verus!
