//! Rendering an element tree as XML text: deterministic two-space
//! indentation, attributes inline, childless elements self-closed, and an
//! optional one-line declaration header.

use vstd::prelude::*;
use vstd::string::StrSliceExecFns;
use vstd::string::StringExecFns;

use crate::xml::SeError;
use crate::xml::element::ElemView;
use crate::xml::element::XmlElement;
use crate::xml::element::attrs_views;
use crate::xml::element::children_views;
use crate::xml::element::lemma_children_views_index;
use crate::xml::element::name_char_ok;
use crate::xml::element::wf_name;
use crate::xml::element::wf_value;

verus! {

/// The indentation of a nesting depth: two spaces per level.
pub open spec fn indent_text(depth: nat) -> Seq<char>
    decreases depth,
{
    if depth == 0 {
        Seq::empty()
    } else {
        indent_text((depth - 1) as nat) + seq![' ', ' ']
    }
}

/// The text of one attribute: a leading space, the name, `="`, the value,
/// and the closing quote.
pub open spec fn attr_text(a: (Seq<char>, Seq<char>)) -> Seq<char> {
    seq![' '] + a.0 + seq!['=', '"'] + a.1 + seq!['"']
}

/// The text of an attribute list, in order.
pub open spec fn attrs_text(attrs: Seq<(Seq<char>, Seq<char>)>) -> Seq<char>
    decreases attrs.len(),
{
    if attrs.len() == 0 {
        Seq::empty()
    } else {
        attrs_text(attrs.drop_last()) + attr_text(attrs.last())
    }
}

/// The text of an element at a nesting depth: its indented start tag, then
/// either `/>` for a childless element, or the children each on their own
/// line followed by the indented end tag.
pub open spec fn render_elem(e: ElemView, depth: nat) -> Seq<char>
    decreases e, 0int,
{
    let open_part = indent_text(depth) + seq!['<'] + e.name + attrs_text(e.attrs);
    if e.children.len() == 0 {
        open_part + seq!['/', '>']
    } else {
        open_part + seq!['>'] + children_text(e.children, (depth + 1) as nat, e.children.len() as int)
            + seq!['\n'] + indent_text(depth) + seq!['<', '/'] + e.name + seq!['>']
    }
}

/// The text of the first `k` children, each preceded by a newline.
pub open spec fn children_text(cs: Seq<ElemView>, depth: nat, k: int) -> Seq<char>
    decreases cs, k,
    via children_text_dec
{
    if k <= 0 || k > cs.len() {
        Seq::empty()
    } else {
        children_text(cs, depth, k - 1) + seq!['\n'] + render_elem(cs[k - 1], depth)
    }
}

#[via_fn]
proof fn children_text_dec(cs: Seq<ElemView>, depth: nat, k: int) {
    if !(k <= 0 || k > cs.len()) {
        vstd::seq::axiom_seq_index_decreases(cs, k - 1);
    }
}

/// The one-line XML declaration header.
pub open spec fn decl_text() -> Seq<char> {
    "<?xml version=\"1.0\" encoding=\"UTF-8\"?>"@
}

/// The full document text: the element rendered at depth zero, preceded by
/// the declaration header and a newline when asked for.
pub open spec fn document_text(e: ElemView, declaration_header: bool) -> Seq<char> {
    if declaration_header {
        decl_text() + seq!['\n'] + render_elem(e, 0)
    } else {
        render_elem(e, 0)
    }
}

/// Decides [`wf_name`].
#[verifier::loop_isolation(false)]
pub fn check_name(s: &str) -> (r: bool)
    ensures
        r == wf_name(s@),
{
    let n = s.unicode_len();
    if n == 0 {
        return false;
    }
    let mut i: usize = 0;
    while i < n
        invariant
            i <= n,
            forall|j: int| 0 <= j < i ==> name_char_ok(#[trigger] s@[j]),
        decreases n - i,
    {
        let c = s.get_char(i);
        let u = c as u32;
        let ok = (48 <= u && u <= 57) || (65 <= u && u <= 90) || (97 <= u && u <= 122) || c == '_'
            || c == '-' || c == '.';
        if !ok {
            assert(!name_char_ok(s@[i as int]));
            return false;
        }
        i += 1;
    }
    true
}

/// Decides [`wf_value`].
#[verifier::loop_isolation(false)]
pub fn check_value(s: &str) -> (r: bool)
    ensures
        r == wf_value(s@),
{
    let n = s.unicode_len();
    let mut i: usize = 0;
    while i < n
        invariant
            i <= n,
            forall|j: int| 0 <= j < i ==> #[trigger] s@[j] != '"',
        decreases n - i,
    {
        if s.get_char(i) == '"' {
            return false;
        }
        i += 1;
    }
    true
}

/// Decides well-formedness of a whole element tree.
#[verifier::loop_isolation(false)]
pub fn check_element(e: &XmlElement) -> (r: bool)
    ensures
        r == e@.wf(),
    decreases *e,
{
    proof {
        lemma_children_views_index(e.children@);
    }
    if !check_name(e.name.as_str()) {
        return false;
    }
    let mut i: usize = 0;
    let na = e.attributes.len();
    while i < na
        invariant
            i <= na,
            forall|j: int|
                0 <= j < i ==> wf_name((#[trigger] e@.attrs[j]).0) && wf_value(e@.attrs[j].1),
        decreases na - i,
    {
        let ok_name = check_name(e.attributes[i].0.as_str());
        let ok_value = check_value(e.attributes[i].1.as_str());
        if !ok_name || !ok_value {
            assert(e@.attrs[i as int] == (e.attributes@[i as int].0@, e.attributes@[i as int].1@));
            return false;
        }
        assert(e@.attrs[i as int] == (e.attributes@[i as int].0@, e.attributes@[i as int].1@));
        i += 1;
    }
    let mut i: usize = 0;
    let nc = e.children.len();
    while i < nc
        invariant
            i <= nc,
            forall|j: int| 0 <= j < i ==> (#[trigger] e@.children[j]).wf(),
        decreases nc - i,
    {
        proof {
            vstd::std_specs::vec::axiom_vec_index_decreases(e.children, i as int);
        }
        let child = &e.children[i];
        let ok = check_element(child);
        assert(e@.children[i as int] == child@);
        if !ok {
            return false;
        }
        i += 1;
    }
    true
}

/// Appends the text of an attribute list.
#[verifier::loop_isolation(false)]
fn render_attrs(attrs: &Vec<(String, String)>, out: &mut String)
    ensures
        final(out)@ == old(out)@ + attrs_text(attrs_views(attrs@)),
{
    proof {
        reveal_strlit(" ");
        reveal_strlit("=\"");
        reveal_strlit("\"");
    }
    let ghost av = attrs_views(attrs@);
    let n = attrs.len();
    let mut i: usize = 0;
    while i < n
        invariant
            i <= n,
            out@ == old(out)@ + attrs_text(av.take(i as int)),
        decreases n - i,
    {
        let ghost before = out@;
        out.append(" ");
        out.append(attrs[i].0.as_str());
        out.append("=\"");
        out.append(attrs[i].1.as_str());
        out.append("\"");
        proof {
            assert(av.take(i + 1).drop_last() =~= av.take(i as int));
            assert(av.take(i + 1).last() == av[i as int]);
            assert(out@ =~= before + attr_text(av[i as int]));
            assert(out@ =~= old(out)@ + attrs_text(av.take(i + 1)));
        }
        i += 1;
    }
    proof {
        assert(av.take(n as int) =~= av);
    }
}

/// Appends the text of an element rendered at the nesting depth whose
/// indentation is `indent`.
#[verifier::loop_isolation(false)]
fn render_element(e: &XmlElement, indent: &str, Ghost(depth): Ghost<nat>, out: &mut String)
    requires
        indent@ == indent_text(depth),
    ensures
        final(out)@ == old(out)@ + render_elem(e@, depth),
    decreases *e,
{
    proof {
        reveal_strlit("<");
        reveal_strlit(">");
        reveal_strlit("/>");
        reveal_strlit("</");
        reveal_strlit("\n");
        reveal_strlit("  ");
        lemma_children_views_index(e.children@);
    }
    out.append(indent);
    out.append("<");
    out.append(e.name.as_str());
    render_attrs(&e.attributes, out);
    if e.children.len() == 0 {
        out.append("/>");
        assert(final(out)@ =~= old(out)@ + render_elem(e@, depth));
    } else {
        out.append(">");
        let ghost base = out@;
        let mut child_indent = indent.to_owned();
        child_indent.append("  ");
        assert(child_indent@ =~= indent_text((depth + 1) as nat));
        let nc = e.children.len();
        let ghost cs = e@.children;
        let mut i: usize = 0;
        while i < nc
            invariant
                i <= nc,
                out@ == base + children_text(cs, (depth + 1) as nat, i as int),
            decreases nc - i,
        {
            let ghost before = out@;
            out.append("\n");
            proof {
                vstd::std_specs::vec::axiom_vec_index_decreases(e.children, i as int);
            }
            render_element(&e.children[i], child_indent.as_str(), Ghost((depth + 1) as nat), out);
            proof {
                assert(cs[i as int] == e.children@[i as int]@);
                assert(out@ =~= before + seq!['\n'] + render_elem(cs[i as int], (depth + 1) as nat));
                assert(out@ =~= base + children_text(cs, (depth + 1) as nat, i + 1));
            }
            i += 1;
        }
        out.append("\n");
        out.append(indent);
        out.append("</");
        out.append(e.name.as_str());
        out.append(">");
        assert(final(out)@ =~= old(out)@ + render_elem(e@, depth));
    }
}

/// Renders an element tree as an XML document with two-space indentation,
/// optionally preceded by the declaration header line; a tree that is not
/// well-formed is rejected.
pub fn element_to_xml(e: &XmlElement, declaration_header: bool) -> (r: Result<String, SeError>)
    ensures
        match r {
            Ok(text) => e@.wf() && text@ == document_text(e@, declaration_header),
            Err(_) => !e@.wf(),
        },
{
    if !check_element(e) {
        return Err(SeError::MalformedElement);
    }
    proof {
        reveal_strlit("");
        reveal_strlit("\n");
        reveal_strlit("<?xml version=\"1.0\" encoding=\"UTF-8\"?>");
    }
    let mut out = String::new();
    if declaration_header {
        out.append("<?xml version=\"1.0\" encoding=\"UTF-8\"?>");
        out.append("\n");
        assert(out@ =~= decl_text() + seq!['\n']);
    }
    assert(""@ =~= indent_text(0));
    render_element(e, "", Ghost(0nat), &mut out);
    assert(out@ =~= document_text(e@, declaration_header));
    Ok(out)
}

} // verus!
