use vstd::prelude::*;

verus! {

/// An attribute of an XML element.
#[derive(Debug, Clone, PartialEq, Eq)]
pub struct XmlAttribute {
    /// Namespace URI, where the attribute name has a prefix.
    pub namespace: Option<String>,
    /// Local name.
    pub name: String,
    pub value: String,
}

/// A node of a parsed XML document. A document is the sequence of its nodes in
/// document order, the root first; `children` are positions in that sequence.
/// Nodes other than elements have an empty name and no attributes.
#[derive(Debug, Clone, PartialEq, Eq)]
pub struct XmlNode {
    /// Local name of the element.
    pub name: String,
    pub attributes: Vec<XmlAttribute>,
    pub children: Vec<usize>,
}

pub struct AttributeView {
    pub namespace: Option<Seq<char>>,
    pub name: Seq<char>,
    pub value: Seq<char>,
}

pub struct NodeView {
    pub name: Seq<char>,
    pub attributes: Seq<AttributeView>,
    pub children: Seq<usize>,
}

impl View for XmlAttribute {
    type V = AttributeView;

    open spec fn view(&self) -> AttributeView {
        AttributeView {
            namespace: match self.namespace {
                Some(s) => Some(s@),
                None => None,
            },
            name: self.name@,
            value: self.value@,
        }
    }
}

impl View for XmlNode {
    type V = NodeView;

    open spec fn view(&self) -> NodeView {
        NodeView {
            name: self.name@,
            attributes: self.attributes@.map_values(|a: XmlAttribute| a@),
            children: self.children@,
        }
    }
}

/// The views of a document's nodes.
pub open spec fn nodes_view(s: Seq<XmlNode>) -> Seq<NodeView> {
    s.map_values(|n: XmlNode| n@)
}

/// The nodes of the XML document `text`, in document order; `None` where `text`
/// is not well-formed XML.
pub uninterp spec fn xml_nodes_of(text: Seq<char>) -> Option<Seq<NodeView>>;

#[verifier::external_type_specification]
#[verifier::external_body]
pub struct ExXmlError(roxmltree::Error);

/// Relies on roxmltree::Document::parse for the document and on
/// `Document::descendants`, which visits the nodes in document order, the n-th
/// of them having the id n, so that a child's id is its position.
#[verifier::external_body]
pub(crate) fn parse_xml(text: &str) -> (r: Result<Vec<XmlNode>, roxmltree::Error>)
    ensures
        match r {
            Ok(nodes) => xml_nodes_of(text@) == Some(nodes_view(nodes@)),
            Err(_) => xml_nodes_of(text@) is None,
        },
{
    let doc = roxmltree::Document::parse(text)?;
    Ok(doc.descendants().map(|n| XmlNode {
        name: n.tag_name().name().to_string(),
        attributes: n.attributes().iter().map(|a| XmlAttribute {
            namespace: a.namespace().map(|s| s.to_string()),
            name: a.name().to_string(),
            value: a.value().to_string(),
        }).collect(),
        children: n.children().map(|c| c.id().get_usize()).collect(),
    }).collect())
}

/// Relies on the `Display` impl of roxmltree::Error for a description of the fault.
#[verifier::external_body]
pub(crate) fn xml_error_text(e: &roxmltree::Error) -> String {
    e.to_string()
}

/// The value of the attribute without namespace named `key`, the first one
/// that matches.
pub open spec fn attr_in(attrs: Seq<AttributeView>, key: Seq<char>) -> Option<Seq<char>>
    decreases attrs.len(),
{
    if attrs.len() == 0 {
        None
    } else if attrs[0].namespace is None && attrs[0].name == key {
        Some(attrs[0].value)
    } else {
        attr_in(attrs.drop_first(), key)
    }
}

/// The value of a node's attribute `key` (without namespace).
pub open spec fn attr_of(node: NodeView, key: Seq<char>) -> Option<Seq<char>> {
    attr_in(node.attributes, key)
}

/// Looks up the attribute `key` (without namespace) of `node`.
pub fn attribute<'a>(node: &'a XmlNode, key: &String) -> (r: Option<&'a String>)
    ensures
        match r {
            Some(v) => attr_of(node@, key@) == Some(v@),
            None => attr_of(node@, key@) is None,
        },
{
    let attrs = &node.attributes;
    let ghost full = node@.attributes;
    let mut i: usize = 0;
    assert(full.skip(0) =~= full);
    while i < attrs.len()
        invariant
            full == node@.attributes,
            attrs == &node.attributes,
            full.len() == attrs@.len(),
            i <= attrs@.len(),
            attr_in(full, key@) == attr_in(full.skip(i as int), key@),
        decreases attrs@.len() - i,
    {
        let a = &attrs[i];
        assert(full[i as int] == a@);
        assert(full.skip(i as int)[0] == a@);
        if a.namespace.is_none() && a.name.eq(key) {
            assert(a@.namespace is None);
            assert(full.skip(i as int).len() > 0);
            return Some(&a.value);
        }
        assert(full.skip(i as int).drop_first() =~= full.skip(i + 1));
        i += 1;
    }
    None
}

} // verus!
