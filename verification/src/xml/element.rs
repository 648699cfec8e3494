//! The XML document model: a tree of elements carrying attributes and
//! child elements, the shape that records are rendered into and decoded
//! from.

use vstd::prelude::*;

use crate::text::is_digit_char;
use crate::text::str_eq;

verus! {

/// One XML element: a name, its attributes in order, and its child
/// elements in order.
///
/// Text content and entity escaping are not part of the model: data lives
/// in attribute values, which therefore must not contain the double-quote
/// character (see [`wf_value`]).
#[derive(Debug, PartialEq, Eq)]
pub struct XmlElement {
    pub name: String,
    pub attributes: Vec<(String, String)>,
    pub children: Vec<XmlElement>,
}

/// The mathematical shape of an element: name, attributes and children as
/// sequences.
#[verifier::ext_equal]
pub struct ElemView {
    pub name: Seq<char>,
    pub attrs: Seq<(Seq<char>, Seq<char>)>,
    pub children: Seq<ElemView>,
}

/// The attribute pairs of an element, as sequences of characters.
pub open spec fn attrs_views(s: Seq<(String, String)>) -> Seq<(Seq<char>, Seq<char>)> {
    Seq::new(s.len(), |i: int| (s[i].0@, s[i].1@))
}

/// The mathematical shape of an element.
pub open spec fn elem_view(e: XmlElement) -> ElemView
    decreases e,
    via elem_view_dec
{
    ElemView {
        name: e.name@,
        attrs: attrs_views(e.attributes@),
        children: children_views(e.children@),
    }
}

/// The mathematical shapes of a sequence of elements, in order.
pub open spec fn children_views(s: Seq<XmlElement>) -> Seq<ElemView>
    decreases s,
    via children_views_dec
{
    if s.len() == 0 {
        Seq::empty()
    } else {
        children_views(s.drop_last()).push(elem_view(s.last()))
    }
}

#[via_fn]
proof fn elem_view_dec(e: XmlElement) {
    vstd::std_specs::vec::axiom_vec_decreases_to_view(e.children);
    assert(decreases_to!(e => e.children));
}

#[via_fn]
proof fn children_views_dec(s: Seq<XmlElement>) {
    if s.len() > 0 {
        vstd::seq::axiom_seq_len_decreases(s, s.drop_last());
        vstd::seq::axiom_seq_index_decreases(s, s.len() - 1);
    }
}

impl View for XmlElement {
    type V = ElemView;

    open spec fn view(&self) -> ElemView {
        elem_view(*self)
    }
}

/// Appending an element appends its shape.
pub proof fn lemma_children_views_push(s: Seq<XmlElement>, e: XmlElement)
    ensures
        children_views(s.push(e)) == children_views(s).push(elem_view(e)),
{
    assert(s.push(e).drop_last() =~= s);
    assert(s.push(e).last() == e);
}

/// The shape sequence has one entry per element, each its shape.
pub proof fn lemma_children_views_index(s: Seq<XmlElement>)
    ensures
        children_views(s).len() == s.len(),
        forall|i: int| 0 <= i < s.len() ==> children_views(s)[i] == elem_view(#[trigger] s[i]),
    decreases s,
{
    if s.len() > 0 {
        lemma_children_views_index(s.drop_last());
        assert(forall|i: int| 0 <= i < s.len() - 1 ==> #[trigger] s.drop_last()[i] == s[i]);
        assert forall|i: int| 0 <= i < s.len() implies children_views(s)[i] == elem_view(
            #[trigger] s[i],
        ) by {
            if i < s.len() - 1 {
                assert(children_views(s)[i] == children_views(s.drop_last())[i]);
                assert(s.drop_last()[i] == s[i]);
            } else {
                assert(children_views(s)[i] == elem_view(s.last()));
            }
        }
    }
}

/// True for the characters accepted in element and attribute names:
/// ASCII letters and digits, underscore, hyphen and dot.
pub open spec fn name_char_ok(c: char) -> bool {
    ||| is_digit_char(c)
    ||| 65 <= c as int <= 90
    ||| 97 <= c as int <= 122
    ||| c == '_'
    ||| c == '-'
    ||| c == '.'
}

/// A well-formed name: non-empty and made of name characters only.
pub open spec fn wf_name(s: Seq<char>) -> bool {
    s.len() >= 1 && forall|i: int| 0 <= i < s.len() ==> name_char_ok(#[trigger] s[i])
}

/// A well-formed attribute value: free of the double-quote delimiter.
pub open spec fn wf_value(s: Seq<char>) -> bool {
    forall|i: int| 0 <= i < s.len() ==> #[trigger] s[i] != '"'
}

impl ElemView {
    /// The element can be rendered and read back: its name and attribute
    /// names are well-formed, attribute values avoid the delimiter, and
    /// the same holds of every child.
    pub open spec fn wf(&self) -> bool
        decreases self,
    {
        &&& wf_name(self.name)
        &&& forall|i: int|
            0 <= i < self.attrs.len() ==> wf_name((#[trigger] self.attrs[i]).0) && wf_value(
                self.attrs[i].1,
            )
        &&& forall|i: int| 0 <= i < self.children.len() ==> (#[trigger] self.children[i]).wf()
    }
}

/// The value of the first attribute with the given name, if any.
pub open spec fn attr_lookup(attrs: Seq<(Seq<char>, Seq<char>)>, name: Seq<char>) -> Option<
    Seq<char>,
>
    decreases attrs.len(),
{
    if attrs.len() == 0 {
        None
    } else if attrs[0].0 == name {
        Some(attrs[0].1)
    } else {
        attr_lookup(attrs.subrange(1, attrs.len() as int), name)
    }
}

impl XmlElement {
    /// The value of the first attribute with the given name, if any.
    #[verifier::loop_isolation(false)]
    pub fn attribute<'a>(&'a self, name: &str) -> (r: Option<&'a String>)
        ensures
            match r {
                Some(v) => attr_lookup(self@.attrs, name@) == Some(v@),
                None => attr_lookup(self@.attrs, name@) is None,
            },
    {
        let n = self.attributes.len();
        proof {
            assert(self@.attrs.skip(0) =~= self@.attrs);
        }
        let mut i: usize = 0;
        while i < n
            invariant
                i <= n,
                attr_lookup(self@.attrs, name@) == attr_lookup(
                    self@.attrs.skip(i as int),
                    name@,
                ),
            decreases n - i,
        {
            proof {
                assert(self@.attrs.skip(i as int)[0] == self@.attrs[i as int]);
                assert(self@.attrs[i as int] == (
                    self.attributes@[i as int].0@,
                    self.attributes@[i as int].1@,
                ));
            }
            if str_eq(self.attributes[i].0.as_str(), name) {
                return Some(&self.attributes[i].1);
            }
            proof {
                assert(self@.attrs.skip(i as int).subrange(
                    1,
                    self@.attrs.skip(i as int).len() as int,
                ) =~= self@.attrs.skip(i + 1));
            }
            i += 1;
        }
        proof {
            assert(self@.attrs.skip(n as int).len() == 0);
        }
        None
    }

    /// An element with the given name and no attributes or children yet.
    pub fn new(name: String) -> (e: XmlElement)
        ensures
            e@ == (ElemView { name: name@, attrs: Seq::empty(), children: Seq::empty() }),
    {
        let e = XmlElement { name, attributes: Vec::new(), children: Vec::new() };
        proof {
            assert(attrs_views(e.attributes@) =~= Seq::<(Seq<char>, Seq<char>)>::empty());
            assert(e@ =~= ElemView {
                name: e.name@,
                attrs: Seq::empty(),
                children: Seq::empty(),
            });
        }
        e
    }

    /// Appends an attribute.
    pub fn push_attribute(&mut self, name: String, value: String)
        ensures
            final(self)@ == (ElemView {
                name: old(self)@.name,
                attrs: old(self)@.attrs.push((name@, value@)),
                children: old(self)@.children,
            }),
    {
        let ghost n = name@;
        let ghost v = value@;
        self.attributes.push((name, value));
        proof {
            assert(attrs_views(self.attributes@) =~= attrs_views(old(self).attributes@).push(
                (n, v),
            ));
            assert(self@ =~= ElemView {
                name: old(self)@.name,
                attrs: old(self)@.attrs.push((n, v)),
                children: old(self)@.children,
            });
        }
    }

    /// Appends a child element.
    pub fn push_child(&mut self, child: XmlElement)
        ensures
            final(self)@ == (ElemView {
                name: old(self)@.name,
                attrs: old(self)@.attrs,
                children: old(self)@.children.push(child@),
            }),
    {
        let ghost cv = child@;
        let ghost oldc = self.children@;
        self.children.push(child);
        proof {
            lemma_children_views_push(oldc, child);
            assert(self@ =~= ElemView {
                name: old(self)@.name,
                attrs: old(self)@.attrs,
                children: old(self)@.children.push(cv),
            });
        }
    }
}

} // verus!
