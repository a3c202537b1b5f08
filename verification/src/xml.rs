//! Element-tree model of the parsed XML feed, and the trusted parser behind it.
//!
//! A parsed document is held as an [`XmlElem`] tree: each element keeps its
//! (local) tag name, its text content if its first child is a text node, and
//! its child elements in document order. Everything the extractor reads is in
//! this tree; the XML parsing itself is roxmltree's, behind [`parse_xml`].

use vstd::prelude::*;

verus! {

/// Mathematical value of an element tree: tag name, text content, and child
/// elements in document order.
pub ghost struct XmlTreeV {
    pub tag: Seq<char>,
    pub text: Option<Seq<char>>,
    pub children: Seq<XmlTreeV>,
}

/// One element of a parsed document: its local tag name, its text content
/// (present when the element's first child is a text node), and its child
/// elements in document order.
pub struct XmlElem {
    pub tag: String,
    pub text: Option<String>,
    pub children: Vec<XmlElem>,
}

/// The tree value of an element.
pub open spec fn elem_view(e: XmlElem) -> XmlTreeV
    decreases e,
{
    XmlTreeV {
        tag: e.tag@,
        text: match e.text {
            Some(t) => Some(t@),
            None => None,
        },
        children: elems_view(e.children@),
    }
}

/// The tree values of a sequence of elements, in order.
pub open spec fn elems_view(es: Seq<XmlElem>) -> Seq<XmlTreeV>
    decreases es,
{
    if es.len() == 0 {
        Seq::empty()
    } else {
        elems_view(es.drop_last()).push(elem_view(es.last()))
    }
}

impl View for XmlElem {
    type V = XmlTreeV;

    open spec fn view(&self) -> XmlTreeV {
        elem_view(*self)
    }
}

/// The first element tagged `tag` in a depth-first, document-order search of
/// `t` and its descendants: `t` itself if it carries the tag, else the first
/// match within the children, earlier children searched in full first.
pub open spec fn first_with_tag(t: XmlTreeV, tag: Seq<char>) -> Option<XmlTreeV>
    decreases t,
{
    if t.tag == tag {
        Some(t)
    } else {
        first_with_tag_in(t.children, tag)
    }
}

/// The first element tagged `tag` found by searching each tree of `ts`, in
/// order, depth first.
pub open spec fn first_with_tag_in(ts: Seq<XmlTreeV>, tag: Seq<char>) -> Option<XmlTreeV>
    decreases ts,
{
    if ts.len() == 0 {
        None
    } else {
        match first_with_tag(ts[0], tag) {
            Some(m) => Some(m),
            None => first_with_tag_in(ts.drop_first(), tag),
        }
    }
}

/// Every element tagged `tag` in `t` and its descendants, in depth-first
/// document order (`t` itself first if it carries the tag).
pub open spec fn all_with_tag(t: XmlTreeV, tag: Seq<char>) -> Seq<XmlTreeV>
    decreases t,
{
    let below = all_with_tag_in(t.children, tag);
    if t.tag == tag {
        seq![t] + below
    } else {
        below
    }
}

/// Every element tagged `tag` in the trees of `ts`, in order.
pub open spec fn all_with_tag_in(ts: Seq<XmlTreeV>, tag: Seq<char>) -> Seq<XmlTreeV>
    decreases ts,
{
    if ts.len() == 0 {
        Seq::empty()
    } else {
        all_with_tag_in(ts.drop_last(), tag) + all_with_tag(ts.last(), tag)
    }
}

/// A depth-first search over concatenated tree sequences takes the first
/// match of the left part, and falls back to the right part.
pub proof fn lemma_first_with_tag_in_concat(ts1: Seq<XmlTreeV>, ts2: Seq<XmlTreeV>, tag: Seq<char>)
    ensures
        first_with_tag_in(ts1 + ts2, tag) == match first_with_tag_in(ts1, tag) {
            Some(m) => Some(m),
            None => first_with_tag_in(ts2, tag),
        },
    decreases ts1,
{
    if ts1.len() == 0 {
        assert(ts1 + ts2 =~= ts2);
    } else {
        assert((ts1 + ts2)[0] == ts1[0]);
        assert((ts1 + ts2).drop_first() =~= ts1.drop_first() + ts2);
        lemma_first_with_tag_in_concat(ts1.drop_first(), ts2, tag);
    }
}

/// `elems_view` maps `elem_view` over the sequence, pointwise.
pub proof fn lemma_elems_view(es: Seq<XmlElem>)
    ensures
        elems_view(es).len() == es.len(),
        forall|i: int| 0 <= i < es.len() ==> elems_view(es)[i] == elem_view(es[i]),
    decreases es,
{
    if es.len() > 0 {
        lemma_elems_view(es.drop_last());
    }
}

impl XmlElem {
    /// Find the first element tagged `tag` among this element and its
    /// descendants, in depth-first document order.
    pub fn find_tagged<'a>(&'a self, tag: &String) -> (r: Option<&'a XmlElem>)
        ensures
            match r {
                Some(n) => first_with_tag(self@, tag@) == Some(n@),
                None => first_with_tag(self@, tag@) is None,
            },
        decreases *self,
    {
        if self.tag == *tag {
            return Some(self);
        }
        proof {
            lemma_elems_view(self.children@);
        }
        let ghost cs = elems_view(self.children@);
        let mut i: usize = 0;
        while i < self.children.len()
            invariant
                i <= self.children.len(),
                cs == elems_view(self.children@),
                cs.len() == self.children@.len(),
                forall|j: int| 0 <= j < cs.len() ==> cs[j] == elem_view(self.children@[j]),
                self@.tag != tag@,
                self@.children == cs,
                first_with_tag_in(cs.take(i as int), tag@) is None,
            decreases self.children.len() - i,
        {
            proof {
                assert(decreases_to!(*self => self.children));
                assert(decreases_to!(self.children => self.children@));
                assert(decreases_to!(self.children@ => self.children@[i as int]));
            }
            match self.children[i].find_tagged(tag) {
                Some(n) => {
                    proof {
                        lemma_first_with_tag_in_concat(cs.take(i as int), cs.skip(i as int), tag@);
                        assert(cs.take(i as int) + cs.skip(i as int) =~= cs);
                        assert(cs.skip(i as int)[0] == cs[i as int]);
                    }
                    return Some(n);
                },
                None => {},
            }
            proof {
                assert(first_with_tag(cs[i as int], tag@) is None);
                lemma_first_with_tag_in_concat(
                    cs.take(i as int),
                    seq![cs[i as int]],
                    tag@,
                );
                assert(cs.take(i as int) + seq![cs[i as int]] =~= cs.take(i as int + 1));
                assert(seq![cs[i as int]][0] == cs[i as int]);
                assert(seq![cs[i as int]].drop_first() =~= Seq::<XmlTreeV>::empty());
                assert(first_with_tag_in(Seq::<XmlTreeV>::empty(), tag@) is None);
                assert(seq![cs[i as int]].drop_first() == Seq::<XmlTreeV>::empty());
                assert(first_with_tag_in(seq![cs[i as int]], tag@) is None);
                assert(first_with_tag_in(cs.take(i as int + 1), tag@) is None);
            }
            i += 1;
        }
        proof {
            assert(cs.take(cs.len() as int) =~= cs);
        }
        None
    }
}

/// roxmltree's handle to one node of a parsed document; values of it live
/// only inside the trusted parser below.
#[verifier::external_type_specification]
#[verifier::external_body]
pub struct ExNode<'a, 'input: 'a>(roxmltree::Node<'a, 'input>);

/// The element tree that the XML text parses to: `Some` exactly on well-formed
/// XML, holding the root element's tree. Named, not stated: what roxmltree
/// accepts and how it assembles the tree is its own definition.
pub uninterp spec fn xml_doc_of(s: Seq<char>) -> Option<XmlTreeV>;

/// Recursive converter used only by `parse_xml`. Relies on roxmltree's
/// `Node::tag_name` (the element's name; `.name()` takes the local part),
/// `Node::text` (the first child's text, when that child is a text node),
/// `Node::children` and `Node::is_element` (child elements, in document
/// order): the built tree copies the parsed element tree faithfully.
#[verifier::external_body]
fn convert_elem<'a, 'input>(n: roxmltree::Node<'a, 'input>) -> XmlElem {
    XmlElem {
        tag: n.tag_name().name().to_string(),
        text: n.text().map(|t| t.to_string()),
        children: n.children().filter(|c| c.is_element()).map(convert_elem).collect(),
    }
}

/// Relies on roxmltree's `Document::parse`: it returns `Ok` exactly on
/// well-formed XML, and every parsed document has a root element, of which
/// every element of the document is a descendant (or the root itself). The
/// returned tree is the root element's, converted by `convert_elem`.
#[verifier::external_body]
pub(crate) fn parse_xml(xml: &str) -> (r: Option<XmlElem>)
    ensures
        match r {
            Some(root) => xml_doc_of(xml@) == Some(root@),
            None => xml_doc_of(xml@) is None,
        },
{
    match roxmltree::Document::parse(xml) {
        Ok(doc) => Some(convert_elem(doc.root_element())),
        Err(_) => None,
    }
}

} // verus!
