//! The facade's round-trip law: parsing the rendered document text of a
//! well-formed element tree recovers that tree exactly, with or without
//! the declaration header.

use vstd::prelude::*;

use crate::xml::element::ElemView;
use crate::xml::element::name_char_ok;
use crate::xml::element::wf_name;
use crate::xml::element::wf_value;
use crate::xml::parse::doc_fuel;
use crate::xml::parse::find_qgt;
use crate::xml::parse::is_ws;
use crate::xml::parse::parse_attrs;
use crate::xml::parse::parse_document_spec;
use crate::xml::parse::parse_children;
use crate::xml::parse::parse_element;
use crate::xml::parse::scan_name;
use crate::xml::parse::scan_value;
use crate::xml::parse::skip_ws;
use crate::xml::render::attr_text;
use crate::xml::render::attrs_text;
use crate::xml::render::children_text;
use crate::xml::render::decl_text;
use crate::xml::render::document_text;
use crate::xml::render::indent_text;
use crate::xml::render::render_elem;

verus! {

/// The text `t` occurs in `s` at position `p`.
spec fn matches_at(s: Seq<char>, p: int, t: Seq<char>) -> bool {
    &&& 0 <= p
    &&& p + t.len() <= s.len()
    &&& forall|i: int| 0 <= i < t.len() ==> s[p + i] == t[i]
}

proof fn lemma_matches_split(s: Seq<char>, p: int, a: Seq<char>, b: Seq<char>)
    requires
        matches_at(s, p, a + b),
    ensures
        matches_at(s, p, a),
        matches_at(s, p + a.len(), b),
{
    assert forall|i: int| 0 <= i < a.len() implies s[p + i] == a[i] by {
        assert((a + b)[i] == a[i]);
    }
    assert forall|i: int| 0 <= i < b.len() implies s[p + a.len() + i] == b[i] by {
        assert((a + b)[a.len() + i] == b[i]);
    }
}

/// Name characters are distinct from whitespace and from every delimiter
/// the grammar uses.
proof fn lemma_name_char_classes(c: char)
    requires
        name_char_ok(c),
    ensures
        !is_ws(c),
        c != '=' && c != '/' && c != '>' && c != '<' && c != '"' && c != '?',
{
}

proof fn lemma_skip_ws_runs(s: Seq<char>, p: int, k: int)
    requires
        0 <= p <= k <= s.len(),
        forall|i: int| p <= i < k ==> is_ws(#[trigger] s[i]),
        k == s.len() || !is_ws(s[k]),
    ensures
        skip_ws(s, p) == k,
    decreases k - p,
{
    if p < k {
        lemma_skip_ws_runs(s, p + 1, k);
    }
}

proof fn lemma_scan_name_runs(s: Seq<char>, p: int, k: int)
    requires
        0 <= p <= k <= s.len(),
        forall|i: int| p <= i < k ==> name_char_ok(#[trigger] s[i]),
        k == s.len() || !name_char_ok(s[k]),
    ensures
        scan_name(s, p) == k,
    decreases k - p,
{
    if p < k {
        lemma_scan_name_runs(s, p + 1, k);
    }
}

proof fn lemma_scan_value_runs(s: Seq<char>, p: int, k: int)
    requires
        0 <= p <= k <= s.len(),
        forall|i: int| p <= i < k ==> #[trigger] s[i] != '"',
        k < s.len() && s[k] == '"',
    ensures
        scan_value(s, p) == k,
    decreases k - p,
{
    if p < k {
        lemma_scan_value_runs(s, p + 1, k);
    }
}

/// The text of the attribute list from index `k` on.
spec fn attrs_tail_text(attrs: Seq<(Seq<char>, Seq<char>)>, k: int) -> Seq<char>
    decreases attrs.len() - k,
{
    if k < 0 || k >= attrs.len() {
        Seq::empty()
    } else {
        attr_text(attrs[k]) + attrs_tail_text(attrs, k + 1)
    }
}

/// The whole attribute list's text is the tail text from index zero.
proof fn lemma_attrs_text_as_tail(attrs: Seq<(Seq<char>, Seq<char>)>, k: int)
    requires
        0 <= k <= attrs.len(),
    ensures
        attrs_text(attrs) == attrs_text(attrs.take(k)) + attrs_tail_text(attrs, k),
    decreases attrs.len() - k,
{
    if k == attrs.len() {
        assert(attrs.take(k) =~= attrs);
        assert(attrs_text(attrs) =~= attrs_text(attrs) + attrs_tail_text(attrs, k));
    } else {
        lemma_attrs_text_as_tail(attrs, k + 1);
        let t1 = attrs.take(k + 1);
        assert(t1.drop_last() =~= attrs.take(k));
        assert(t1.last() == attrs[k]);
        assert(attrs_text(t1) == attrs_text(attrs.take(k)) + attr_text(attrs[k]));
        assert(attrs_text(attrs.take(k)) + attr_text(attrs[k]) + attrs_tail_text(attrs, k + 1)
            =~= attrs_text(attrs.take(k)) + (attr_text(attrs[k]) + attrs_tail_text(
            attrs,
            k + 1,
        )));
    }
}

/// Reading the rendered text of the attributes from index `k` on, the
/// parser adds exactly those attributes and stops at the delimiter that
/// follows them.
proof fn lemma_parse_attrs_of_text(
    s: Seq<char>,
    p: int,
    attrs: Seq<(Seq<char>, Seq<char>)>,
    k: int,
    acc: Seq<(Seq<char>, Seq<char>)>,
    fuel: nat,
)
    requires
        forall|j: int|
            0 <= j < attrs.len() ==> wf_name((#[trigger] attrs[j]).0) && wf_value(attrs[j].1),
        0 <= k <= attrs.len(),
        matches_at(s, p, attrs_tail_text(attrs, k)),
        p + attrs_tail_text(attrs, k).len() < s.len(),
        !is_ws(s[p + attrs_tail_text(attrs, k).len()]),
        !name_char_ok(s[p + attrs_tail_text(attrs, k).len()]),
        fuel >= attrs.len() - k + 1,
    ensures
        parse_attrs(s, p, acc, fuel) == Some(
            (acc + attrs.skip(k), p + attrs_tail_text(attrs, k).len()),
        ),
    decreases attrs.len() - k,
{
    let tail = attrs_tail_text(attrs, k);
    if k == attrs.len() {
        assert(tail.len() == 0);
        lemma_skip_ws_runs(s, p, p);
        assert(acc + attrs.skip(k) =~= acc);
    } else {
        let n = attrs[k].0;
        let v = attrs[k].1;
        let at = attr_text(attrs[k]);
        let rest = attrs_tail_text(attrs, k + 1);
        assert(tail == at + rest);
        lemma_matches_split(s, p, at, rest);
        // The attribute's own text, piece by piece.
        assert(at == seq![' '] + n + seq!['=', '"'] + v + seq!['"']);
        let pn = p + 1;
        let pe = pn + n.len() as int;
        let pv = pe + 2;
        let pq = pv + v.len() as int;
        assert(s[p] == ' ') by {
            assert(at[0] == ' ');
        }
        assert forall|i: int| 0 <= i < n.len() implies s[pn + i] == n[i] by {
            assert(at[1 + i] == n[i]);
        }
        assert(s[pe] == '=' && s[pe + 1] == '"') by {
            assert(at[1 + n.len() as int] == '=');
            assert(at[2 + n.len() as int] == '"');
        }
        assert forall|i: int| 0 <= i < v.len() implies s[pv + i] == v[i] by {
            assert(at[3 + n.len() + i] == v[i]);
        }
        assert(s[pq] == '"') by {
            assert(at[at.len() - 1] == '"');
        }
        // Where the scans land.
        assert(name_char_ok(s[pn])) by {
            assert(wf_name(n));
            assert(n.len() >= 1);
            assert(s[pn + 0] == n[0]);
            assert(name_char_ok(n[0]));
        }
        proof_skip_one_space(s, p, pn);
        assert forall|i: int| pn <= i < pe implies name_char_ok(#[trigger] s[i]) by {
            assert(s[i] == n[i - pn]);
        }
        lemma_name_char_classes(s[pn]);
        lemma_scan_name_runs(s, pn, pe);
        assert forall|i: int| pv <= i < pq implies #[trigger] s[i] != '"' by {
            assert(s[i] == v[i - pv]);
            assert(wf_value(v));
        }
        lemma_scan_value_runs(s, pv, pq);
        // The parser consumes this attribute and recurses after the
        // closing quote.
        assert(s.subrange(pn, pe) =~= n);
        assert(s.subrange(pv, pq) =~= v);
        lemma_parse_attrs_of_text(s, pq + 1, attrs, k + 1, acc.push(attrs[k]), (fuel - 1) as nat);
        assert(acc.push(attrs[k]) + attrs.skip(k + 1) =~= acc + attrs.skip(k));
        assert(parse_attrs(s, p, acc, fuel) == parse_attrs(
            s,
            pq + 1,
            acc.push((s.subrange(pn, pe), s.subrange(pv, pq))),
            (fuel - 1) as nat,
        ));
    }
}

proof fn proof_skip_one_space(s: Seq<char>, p: int, k: int)
    requires
        0 <= p,
        k == p + 1,
        k < s.len(),
        s[p] == ' ',
        name_char_ok(s[k]),
    ensures
        skip_ws(s, p) == k,
{
    lemma_name_char_classes(s[k]);
    lemma_skip_ws_runs(s, p, k);
}

/// An attribute list's text is at least as long as the list.
proof fn lemma_attrs_text_len(attrs: Seq<(Seq<char>, Seq<char>)>)
    ensures
        attrs_text(attrs).len() >= attrs.len(),
    decreases attrs.len(),
{
    if attrs.len() > 0 {
        lemma_attrs_text_len(attrs.drop_last());
    }
}

/// The text of an element at a nesting depth, without its leading
/// indentation.
spec fn elem_body(e: ElemView, depth: nat) -> Seq<char> {
    let open_part = seq!['<'] + e.name + attrs_text(e.attrs);
    if e.children.len() == 0 {
        open_part + seq!['/', '>']
    } else {
        open_part + seq!['>'] + children_text(e.children, (depth + 1) as nat, e.children.len() as int)
            + seq!['\n'] + indent_text(depth) + seq!['<', '/'] + e.name + seq!['>']
    }
}

/// An element renders as its indentation followed by its body.
proof fn lemma_render_body(e: ElemView, depth: nat)
    ensures
        render_elem(e, depth) == indent_text(depth) + elem_body(e, depth),
{
    assert(render_elem(e, depth) =~= indent_text(depth) + elem_body(e, depth));
}

/// Indentation is whitespace, two characters per level.
proof fn lemma_indent_ws(depth: nat)
    ensures
        indent_text(depth).len() == 2 * depth,
        forall|i: int|
            0 <= i < indent_text(depth).len() ==> #[trigger] indent_text(depth)[i] == ' ',
    decreases depth,
{
    if depth > 0 {
        lemma_indent_ws((depth - 1) as nat);
    }
}

/// The text of the children from index `k` on, each child rendered at its
/// own depth and preceded by a newline.
spec fn children_tail_text(cs: Seq<ElemView>, k: int, depth: nat) -> Seq<char>
    decreases cs.len() - k,
{
    if k < 0 || k >= cs.len() {
        Seq::empty()
    } else {
        seq!['\n'] + render_elem(cs[k], depth) + children_tail_text(cs, k + 1, depth)
    }
}

/// The whole children text is the tail text from index zero.
proof fn lemma_children_text_as_tail(cs: Seq<ElemView>, k: int, depth: nat)
    requires
        0 <= k <= cs.len(),
    ensures
        children_text(cs, depth, cs.len() as int) == children_text(cs, depth, k)
            + children_tail_text(cs, k, depth),
    decreases cs.len() - k,
{
    if k == cs.len() {
        assert(children_text(cs, depth, k) =~= children_text(cs, depth, k) + children_tail_text(
            cs,
            k,
            depth,
        ));
    } else {
        lemma_children_text_as_tail(cs, k + 1, depth);
        assert(children_text(cs, depth, k + 1) == children_text(cs, depth, k) + seq!['\n']
            + render_elem(cs[k], depth));
        assert(children_text(cs, depth, k) + seq!['\n'] + render_elem(cs[k], depth)
            + children_tail_text(cs, k + 1, depth) =~= children_text(cs, depth, k) + (seq!['\n']
            + render_elem(cs[k], depth) + children_tail_text(cs, k + 1, depth)));
    }
}

/// The text parse_children still has to read when the children from `k`
/// on and the enclosing end tag remain: the remaining children, then a
/// newline, the enclosing element's indentation, and its end tag.
spec fn children_rest_text(
    cs: Seq<ElemView>,
    k: int,
    depth: nat,
    name: Seq<char>,
) -> Seq<char> {
    children_tail_text(cs, k, (depth + 1) as nat) + seq!['\n'] + indent_text(depth)
        + seq!['<', '/'] + name + seq!['>']
}

/// Reading the body of a well-formed element, the parser returns exactly
/// that element and stops right after it.
#[verifier::rlimit(100)]
proof fn lemma_parse_elem_of_text(s: Seq<char>, i: int, e: ElemView, depth: nat, fuel: nat)
    requires
        e.wf(),
        matches_at(s, i, elem_body(e, depth)),
        fuel >= elem_body(e, depth).len() + 2,
    ensures
        parse_element(s, i, fuel) == Some((e, i + elem_body(e, depth).len())),
    decreases e, 0int,
{
    let name = e.name;
    let attrs = e.attrs;
    let body = elem_body(e, depth);
    let at = attrs_text(attrs);
    let pn = i + 1;
    let ne = pn + name.len() as int;
    let j = ne + at.len() as int;
    lemma_attrs_text_len(attrs);
    assert(s[i] == '<') by {
        assert(body[0] == '<');
    }
    assert forall|t: int| 0 <= t < name.len() implies s[pn + t] == name[t] by {
        assert(body[1 + t] == name[t]);
    }
    assert forall|t: int| 0 <= t < at.len() implies s[ne + t] == at[t] by {
        assert(body[1 + name.len() + t] == at[t]);
    }
    let delim: char = if e.children.len() == 0 { '/' } else { '>' };
    assert(s[j] == delim) by {
        assert(body[1 + name.len() + at.len() as int] == delim);
    }
    // The name scan stops at the first character after the name: a space
    // when attributes follow, the delimiter otherwise.
    assert forall|t: int| pn <= t < ne implies name_char_ok(#[trigger] s[t]) by {
        assert(s[t] == name[t - pn]);
    }
    assert(!name_char_ok(s[ne])) by {
        if attrs.len() > 0 {
            lemma_attrs_text_as_tail(attrs, 0);
            assert(attrs.take(0) =~= Seq::<(Seq<char>, Seq<char>)>::empty());
            assert(at =~= attrs_tail_text(attrs, 0));
            assert(attrs_tail_text(attrs, 0)[0] == ' ') by {
                assert(attr_text(attrs[0])[0] == ' ');
            }
            assert(s[ne] == ' ');
        } else {
            assert(at.len() == 0);
            assert(s[ne] == delim);
        }
    }
    lemma_scan_name_runs(s, pn, ne);
    // The attribute parser consumes the attribute text and stops at the
    // delimiter.
    lemma_attrs_text_as_tail(attrs, 0);
    assert(attrs.take(0) =~= Seq::<(Seq<char>, Seq<char>)>::empty());
    assert(at =~= attrs_tail_text(attrs, 0));
    assert forall|t: int| 0 <= t < attrs_tail_text(attrs, 0).len() implies s[ne + t]
        == attrs_tail_text(attrs, 0)[t] by {
        assert(s[ne + t] == at[t]);
    }
    lemma_parse_attrs_of_text(s, ne, attrs, 0, Seq::empty(), (fuel - 1) as nat);
    assert(Seq::<(Seq<char>, Seq<char>)>::empty() + attrs.skip(0) =~= attrs);
    assert(s.subrange(pn, ne) =~= name);
    if e.children.len() == 0 {
        assert(s[j + 1] == '>') by {
            assert(body[body.len() - 1] == '>');
        }
        let parsed = ElemView {
            name: s.subrange(pn, ne),
            attrs: Seq::<(Seq<char>, Seq<char>)>::empty() + attrs.skip(0),
            children: Seq::empty(),
        };
        assert(Seq::<ElemView>::empty() =~= e.children);
        assert(parsed =~= e);
        assert(parse_element(s, i, fuel) == Some((parsed, j + 2)));
    } else {
        // The slash branch is not taken: the character at `j` is `>`.
        let cs = e.children;
        let rest = children_rest_text(cs, 0, depth, name);
        lemma_children_text_as_tail(cs, 0, (depth + 1) as nat);
        assert(children_text(cs, (depth + 1) as nat, 0 as int) =~= Seq::<char>::empty());
        assert(children_text(cs, (depth + 1) as nat, cs.len() as int) =~= children_tail_text(
            cs,
            0,
            (depth + 1) as nat,
        ));
        assert(body =~= (seq!['<'] + name + at + seq!['>']) + rest);
        assert forall|t: int| 0 <= t < rest.len() implies s[j + 1 + t] == rest[t] by {
            assert(body[2 + name.len() + at.len() + t] == rest[t]);
        }
        lemma_parse_children_of_text(s, j + 1, cs, 0, name, Seq::empty(), depth, (fuel - 1) as nat);
        assert(Seq::<ElemView>::empty() + cs.skip(0) =~= cs);
        let parsed = ElemView {
            name: s.subrange(pn, ne),
            attrs: Seq::<(Seq<char>, Seq<char>)>::empty() + attrs.skip(0),
            children: Seq::<ElemView>::empty() + cs.skip(0),
        };
        assert(parsed =~= e);
        assert(parse_element(s, i, fuel) == Some((parsed, j + 1 + rest.len())));
        assert(i + body.len() == j + 1 + rest.len());
    }
}

/// Reading the remaining children and the enclosing end tag, the parser
/// appends exactly those children and stops right after the end tag.
#[verifier::rlimit(100)]
proof fn lemma_parse_children_of_text(
    s: Seq<char>,
    i: int,
    cs: Seq<ElemView>,
    k: int,
    name: Seq<char>,
    acc: Seq<ElemView>,
    depth: nat,
    fuel: nat,
)
    requires
        forall|j: int| 0 <= j < cs.len() ==> (#[trigger] cs[j]).wf(),
        wf_name(name),
        0 <= k <= cs.len(),
        matches_at(s, i, children_rest_text(cs, k, depth, name)),
        fuel >= children_rest_text(cs, k, depth, name).len() + 1,
    ensures
        parse_children(s, i, name, acc, fuel) == Some(
            (acc + cs.skip(k), i + children_rest_text(cs, k, depth, name).len()),
        ),
    decreases cs, cs.len() - k + 1,
{
    let rest = children_rest_text(cs, k, depth, name);
    lemma_indent_ws(depth);
    lemma_indent_ws((depth + 1) as nat);
    if k == cs.len() {
        // Only the end tag remains: a newline, the indentation, `</`, the
        // name, and `>`.
        let tag = seq!['\n'] + indent_text(depth) + seq!['<', '/'] + name + seq!['>'];
        assert(children_tail_text(cs, k, (depth + 1) as nat) =~= Seq::<char>::empty());
        assert(rest =~= tag);
        let j = i + 1 + 2 * depth;
        let ke = j + 2 + name.len() as int;
        assert forall|t: int| i <= t < j implies is_ws(#[trigger] s[t]) by {
            if t == i {
                assert(rest[0] == '\n');
            } else {
                assert(rest[t - i] == indent_text(depth)[t - i - 1]);
            }
        }
        assert(s[j] == '<' && s[j + 1] == '/') by {
            assert(rest[1 + 2 * depth as int] == '<');
            assert(rest[2 + 2 * depth as int] == '/');
        }
        lemma_skip_ws_runs(s, i, j);
        assert forall|t: int| 0 <= t < name.len() implies s[j + 2 + t] == name[t] by {
            assert(rest[3 + 2 * depth + t] == name[t]);
        }
        assert(s[ke] == '>') by {
            assert(rest[rest.len() - 1] == '>');
        }
        assert forall|t: int| j + 2 <= t < ke implies name_char_ok(#[trigger] s[t]) by {
            assert(s[t] == name[t - j - 2]);
        }
        assert(!name_char_ok(s[ke]));
        lemma_scan_name_runs(s, j + 2, ke);
        assert(s.subrange(j + 2, ke) =~= name);
        assert(!is_ws(s[ke]));
        lemma_skip_ws_runs(s, ke, ke);
        assert(acc + cs.skip(k) =~= acc);
        assert(parse_children(s, i, name, acc, fuel) == Some((acc, ke + 1)));
        assert(ke + 1 == i + rest.len());
    } else {
        // A child comes first: a newline, its indentation, and its body.
        let c = cs[k];
        let cb = elem_body(c, (depth + 1) as nat);
        lemma_render_body(c, (depth + 1) as nat);
        let tail = children_rest_text(cs, k + 1, depth, name);
        assert(rest =~= (seq!['\n'] + indent_text((depth + 1) as nat)) + cb + tail) by {
            assert(children_tail_text(cs, k, (depth + 1) as nat) == seq!['\n'] + render_elem(
                c,
                (depth + 1) as nat,
            ) + children_tail_text(cs, k + 1, (depth + 1) as nat));
            assert(children_tail_text(cs, k, (depth + 1) as nat) + seq!['\n'] + indent_text(depth)
                + seq!['<', '/'] + name + seq!['>'] =~= (seq!['\n'] + indent_text(
                (depth + 1) as nat,
            )) + cb + (children_tail_text(cs, k + 1, (depth + 1) as nat) + seq!['\n']
                + indent_text(depth) + seq!['<', '/'] + name + seq!['>']));
        }
        let j = i + 1 + 2 * (depth + 1);
        assert forall|t: int| i <= t < j implies is_ws(#[trigger] s[t]) by {
            if t == i {
                assert(rest[0] == '\n');
            } else {
                assert(rest[t - i] == indent_text((depth + 1) as nat)[t - i - 1]);
            }
        }
        assert forall|t: int| 0 <= t < cb.len() implies s[j + t] == cb[t] by {
            assert(rest[1 + 2 * (depth + 1) + t] == cb[t]);
        }
        assert(c.wf());
        assert(wf_name(c.name));
        assert(s[j] == '<') by {
            assert(cb[0] == '<');
        }
        assert(s[j + 1] == c.name[0]) by {
            assert(cb[1] == c.name[0]);
        }
        assert(name_char_ok(c.name[0]));
        lemma_name_char_classes(c.name[0]);
        assert(s[j + 1] != '/');
        lemma_skip_ws_runs(s, i, j);
        assert forall|t: int| 0 <= t < tail.len() implies s[j + cb.len() + t] == tail[t] by {
            assert(rest[1 + 2 * (depth + 1) + cb.len() + t] == tail[t]);
        }
        vstd::seq::axiom_seq_index_decreases(cs, k);
        lemma_parse_elem_of_text(s, j, c, (depth + 1) as nat, (fuel - 1) as nat);
        lemma_parse_children_of_text(
            s,
            j + cb.len() as int,
            cs,
            k + 1,
            name,
            acc.push(c),
            depth,
            (fuel - 1) as nat,
        );
        assert(acc.push(c) + cs.skip(k + 1) =~= acc + cs.skip(k));
        assert(parse_children(s, i, name, acc, fuel) == Some(
            (acc.push(c) + cs.skip(k + 1), j + cb.len() + tail.len()),
        ));
        assert(j + cb.len() + tail.len() == i + rest.len());
    }
}

proof fn lemma_find_qgt_runs(s: Seq<char>, p: int, k: int)
    requires
        0 <= p <= k,
        k + 1 < s.len(),
        forall|i: int| p <= i < k ==> !(#[trigger] s[i] == '?' && s[i + 1] == '>'),
        s[k] == '?' && s[k + 1] == '>',
    ensures
        find_qgt(s, p) == k,
    decreases k - p,
{
    if p < k {
        lemma_find_qgt_runs(s, p + 1, k);
    }
}

/// Law: parsing the rendered document text of a well-formed element —
/// with or without the declaration header — returns exactly that
/// element.  The length bound keeps the text inside the parser's
/// accepted range.
#[verifier::rlimit(100)]
pub proof fn lemma_document_round_trip(e: ElemView, header: bool)
    requires
        e.wf(),
        document_text(e, header).len() < usize::MAX - 4,
    ensures
        parse_document_spec(document_text(e, header)) == Some(e),
{
    let s = document_text(e, header);
    let body = elem_body(e, 0);
    lemma_render_body(e, 0);
    assert(indent_text(0) =~= Seq::<char>::empty());
    assert(render_elem(e, 0) =~= body);
    assert(name_char_ok(e.name[0]));
    lemma_name_char_classes(e.name[0]);
    if header {
        reveal_strlit("<?xml version=\"1.0\" encoding=\"UTF-8\"?>");
        let d = decl_text();
        assert(d.len() == 38);
        assert(s =~= (d + seq!['\n']) + body);
        let start: int = 39;
        assert forall|t: int| 0 <= t < body.len() implies s[start + t] == body[t] by {
            assert(((d + seq!['\n']) + body)[39 + t] == body[t]);
        }
        assert(s[0] == '<' && s[1] == '?');
        assert(!is_ws(s[0]));
        lemma_skip_ws_runs(s, 0, 0);
        assert forall|i: int| 2 <= i < 36 implies !(#[trigger] s[i] == '?' && s[i + 1] == '>') by {
            assert(s[i] == d[i]);
            if i < 35 {
                assert(s[i + 1] == d[i + 1]);
            } else {
                assert(s[i + 1] == d[36]);
            }
        }
        assert(s[36] == '?' && s[37] == '>');
        lemma_find_qgt_runs(s, 2, 36);
        assert(s[38] == '\n');
        assert(s[39] == body[0] && body[0] == '<');
        assert(is_ws('\n'));
        lemma_skip_ws_runs(s, 38, 39);
        lemma_parse_elem_of_text(s, 39, e, 0, doc_fuel(s));
        lemma_skip_ws_runs(s, 39 + body.len() as int, s.len() as int);
    } else {
        assert(s == body);
        assert forall|t: int| 0 <= t < body.len() implies s[0 + t] == body[t] by {
        }
        assert(s[0] == '<') by {
            assert(body[0] == '<');
        }
        assert(s[1] == e.name[0]) by {
            assert(body[1] == e.name[0]);
        }
        assert(!is_ws(s[0]));
        lemma_skip_ws_runs(s, 0, 0);
        assert(s[1] != '?');
        lemma_parse_elem_of_text(s, 0, e, 0, doc_fuel(s));
        lemma_skip_ws_runs(s, body.len() as int, s.len() as int);
    }
}

} // verus!
