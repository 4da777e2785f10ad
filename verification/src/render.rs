//! The render capability: every document element can produce a structured
//! rendering node, and its plain-text rendering is always the `ascii`
//! field of that node. The generic child aggregator builds a composite's
//! node from its children's nodes.

use vstd::prelude::*;
use vstd::string::StringExecFns;

use crate::textspec::join_texts;
use crate::textspec::lemma_join_texts_push;

verus! {

broadcast use vstd::seq::axiom_seq_index_decreases, vstd::std_specs::vec::axiom_vec_decreases_to_view;

/// The opaque properties payload of a rendering node is an arbitrary
/// structured serde_json value. Relies on serde_json::Value only as a
/// type: the renderer carries such a value verbatim and never reads it,
/// so it is declared opaque, with no operation assumed of it.
#[verifier::external_type_specification]
#[verifier::external_body]
pub struct ExValue(serde_json::Value);

/// The mathematical value of a rendering node: its type tag, its
/// plain-text rendering, its children's values in document order, and
/// the opaque properties payload (`None` marks "no properties").
pub struct NodeView {
    pub tag: Seq<char>,
    pub text: Seq<char>,
    pub children: Seq<NodeView>,
    pub props: Option<serde_json::Value>,
}

/// The structured rendering node of one element: a type tag, the
/// accumulated plain-text rendering of the element's subtree, one child
/// node per structural child in document order, and an opaque properties
/// payload that the renderer never interprets (`None` marks "no
/// properties").
pub struct JsonRender {
    pub node_type: String,
    pub ascii: String,
    pub children: Vec<JsonRender>,
    pub properties: Option<serde_json::Value>,
}

impl View for JsonRender {
    type V = NodeView;

    open spec fn view(&self) -> NodeView
        decreases self,
    {
        proof {
            assert(decreases_to!(self => self.children));
            assert(decreases_to!(self.children => self.children@));
        }
        NodeView {
            tag: self.node_type@,
            text: self.ascii@,
            children: node_views(self.children@),
            props: self.properties,
        }
    }
}

/// The mathematical values of a sequence of rendering nodes, in order.
pub open spec fn node_views(nodes: Seq<JsonRender>) -> Seq<NodeView>
    decreases nodes,
{
    if nodes.len() == 0 {
        Seq::empty()
    } else {
        proof {
            assert(decreases_to!(nodes => nodes[0]));
            assert(decreases_to!(nodes => nodes.drop_first()));
        }
        seq![nodes[0]@] + node_views(nodes.drop_first())
    }
}

/// `node_views` is the element-wise view.
pub proof fn lemma_node_views(nodes: Seq<JsonRender>)
    ensures
        node_views(nodes).len() == nodes.len(),
        forall|i: int| 0 <= i < nodes.len() ==> node_views(nodes)[i] == nodes[i]@,
    decreases nodes.len(),
{
    if nodes.len() > 0 {
        lemma_node_views(nodes.drop_first());
        assert forall|i: int| 0 <= i < nodes.len() implies node_views(nodes)[i] == nodes[i]@ by {
            if i >= 1 {
                let rest = node_views(nodes.drop_first());
                assert(node_views(nodes) == seq![nodes[0]@] + rest);
                assert((seq![nodes[0]@] + rest)[i] == rest[i - 1]);
                assert(nodes.drop_first()[i - 1] == nodes[i]);
            }
        }
    }
}

impl JsonRender {
    /// A minimal rendering node: the given tag and text alone, with no
    /// children and the "no properties" marker.
    pub fn leaf(node_type: &str, ascii: &str) -> (r: JsonRender)
        ensures
            r@ == (NodeView {
                tag: node_type@,
                text: ascii@,
                children: Seq::empty(),
                props: None,
            }),
    {
        let r = JsonRender {
            node_type: String::from_str(node_type),
            ascii: String::from_str(ascii),
            children: Vec::new(),
            properties: None,
        };
        proof {
            assert(r@.children =~= Seq::<NodeView>::empty());
        }
        r
    }
}

/// The node the generic aggregator owes: tag and properties verbatim,
/// the children's nodes in order, and their texts joined with the
/// separator.
pub open spec fn agg_node(
    kids: Seq<NodeView>,
    sep: Seq<char>,
    tag: Seq<char>,
    props: Option<serde_json::Value>,
) -> NodeView {
    NodeView { tag, text: join_texts(node_texts(kids), sep), children: kids, props }
}

/// The texts of a sequence of rendering nodes, in order.
pub open spec fn node_texts(kids: Seq<NodeView>) -> Seq<Seq<char>> {
    kids.map_values(|k: NodeView| k.text)
}

/// The render capability. Every element implements `spec_render`, its
/// mathematical rendering, and `render_ascii_json`, which produces it;
/// `render_ascii` is a projection of `render_ascii_json` and is never
/// overridden, so the two renderings of one element always agree.
pub trait Render {
    /// The rendering node this element's renders are held to.
    spec fn spec_render(&self) -> NodeView;

    /// Produce the structured rendering node of this element.
    fn render_ascii_json(&self) -> (r: JsonRender)
        ensures
            r@ == self.spec_render(),
    ;

    /// Produce the plain-text rendering: the `text` of the structured
    /// rendering node, never computed independently of it.
    fn render_ascii(&self) -> (r: String)
        ensures
            r@ == self.spec_render().text,
    {
        self.render_ascii_json().ascii
    }
}

/// The spec renderings of a sequence of elements, in order.
pub open spec fn spec_renders<T: Render>(elements: Seq<T>) -> Seq<NodeView> {
    elements.map_values(|c: T| c.spec_render())
}

/// The generic child aggregator: the rendering node of a composite whose
/// children render independently. Its children are the children's own
/// nodes in input order; its text is the join of their texts with the
/// separator; tag and properties are the caller's, verbatim.
pub fn render_children<T: Render>(
    children: &Vec<T>,
    children_join: &str,
    tag: &str,
    properties: Option<serde_json::Value>,
) -> (r: JsonRender)
    ensures
        r@ == agg_node(spec_renders(children@), children_join@, tag@, properties),
{
    let ghost kids = spec_renders(children@);
    let ghost props = properties;
    let mut nodes: Vec<JsonRender> = Vec::new();
    let mut ascii: String = String::new();
    let n = children.len();
    let mut idx: usize = 0;
    while idx < n
        invariant
            n == children@.len(),
            idx <= n,
            kids == spec_renders(children@),
            kids.len() == n,
            nodes@.len() == idx,
            forall|i: int| 0 <= i < idx ==> #[trigger] nodes@[i]@ == kids[i],
            ascii@ == join_texts(node_texts(kids.take(idx as int)), children_join@),
        decreases n - idx,
    {
        let ghost texts_before = node_texts(kids.take(idx as int));
        let node = children[idx].render_ascii_json();
        if idx > 0 {
            ascii.append(children_join);
        }
        ascii.append(node.ascii.as_str());
        nodes.push(node);
        proof {
            lemma_join_texts_push(texts_before, children_join@, kids[idx as int].text);
            assert(node_texts(kids.take(idx + 1 as int)) =~= texts_before.push(
                kids[idx as int].text,
            ));
        }
        idx += 1;
    }
    let r = JsonRender {
        node_type: String::from_str(tag),
        ascii,
        children: nodes,
        properties,
    };
    proof {
        assert(kids.take(n as int) =~= kids);
        lemma_node_views(r.children@);
        assert(r@.children =~= kids);
        assert(r@ == agg_node(kids, children_join@, tag@, props));
    }
    r
}

} // verus!
