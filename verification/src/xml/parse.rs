//! Parsing XML text into an element tree: elements with attributes and
//! child elements, arbitrary whitespace between tokens, and an optional
//! leading `<?xml ...?>` declaration, which is tolerated and skipped.
//!
//! The grammar is stated by total specification functions; recursion over
//! the nested element structure is bounded by a fuel argument that the
//! top-level entry point fixes at the text's length plus a small margin,
//! which no accepted document can exhaust.

use vstd::prelude::*;
use vstd::string::StrSliceExecFns;
use vstd::string::StringExecFns;

use crate::xml::DeError;
use crate::xml::element::ElemView;
use crate::xml::element::XmlElement;
use crate::xml::element::attrs_views;
use crate::xml::element::children_views;
use crate::xml::element::lemma_children_views_push;
use crate::xml::element::name_char_ok;

verus! {

/// True for the whitespace characters tolerated between tokens.
pub open spec fn is_ws(c: char) -> bool {
    c == ' ' || c == '\n' || c == '\t' || c == '\r'
}

/// The first index at or after `i` holding a non-whitespace character, or
/// the length of `s`.
pub open spec fn skip_ws(s: Seq<char>, i: int) -> int
    decreases s.len() - i,
{
    if 0 <= i < s.len() && is_ws(s[i]) {
        skip_ws(s, i + 1)
    } else {
        i
    }
}

/// The first index at or after `i` holding a non-name character, or the
/// length of `s`.
pub open spec fn scan_name(s: Seq<char>, i: int) -> int
    decreases s.len() - i,
{
    if 0 <= i < s.len() && name_char_ok(s[i]) {
        scan_name(s, i + 1)
    } else {
        i
    }
}

/// The first index at or after `i` holding a double quote, or the length
/// of `s`.
pub open spec fn scan_value(s: Seq<char>, i: int) -> int
    decreases s.len() - i,
{
    if 0 <= i < s.len() && s[i] != '"' {
        scan_value(s, i + 1)
    } else {
        i
    }
}

/// The first index at or after `i` where `?>` starts, or the length of
/// `s` if there is none.
pub open spec fn find_qgt(s: Seq<char>, i: int) -> int
    decreases s.len() - i,
{
    if 0 <= i < s.len() {
        if s[i] == '?' && i + 1 < s.len() && s[i + 1] == '>' {
            i
        } else {
            find_qgt(s, i + 1)
        }
    } else {
        s.len() as int
    }
}

/// Reads an attribute list starting at `i`, accumulating onto `acc`:
/// whitespace-separated `name="value"` pairs, ending (successfully) just
/// before the first non-whitespace character that cannot start a name.
pub open spec fn parse_attrs(
    s: Seq<char>,
    i: int,
    acc: Seq<(Seq<char>, Seq<char>)>,
    fuel: nat,
) -> Option<(Seq<(Seq<char>, Seq<char>)>, int)>
    decreases fuel,
{
    if fuel == 0 {
        None
    } else {
        let j = skip_ws(s, i);
        if j < s.len() && name_char_ok(s[j]) {
            let k = scan_name(s, j);
            if k + 1 < s.len() && s[k] == '=' && s[k + 1] == '"' {
                let v = scan_value(s, k + 2);
                if v < s.len() {
                    parse_attrs(
                        s,
                        v + 1,
                        acc.push((s.subrange(j, k), s.subrange(k + 2, v))),
                        (fuel - 1) as nat,
                    )
                } else {
                    None
                }
            } else {
                None
            }
        } else {
            Some((acc, j))
        }
    }
}

/// Reads one element starting at `i`: `<name`, attributes, then either
/// `/>` or `>` followed by child elements and the matching end tag.
pub open spec fn parse_element(s: Seq<char>, i: int, fuel: nat) -> Option<(ElemView, int)>
    decreases fuel,
{
    if fuel == 0 {
        None
    } else {
        if 0 <= i < s.len() && s[i] == '<' {
            let ne = scan_name(s, i + 1);
            if ne > i + 1 {
                let name = s.subrange(i + 1, ne);
                match parse_attrs(s, ne, Seq::empty(), (fuel - 1) as nat) {
                    None => None,
                    Some((attrs, j)) => {
                        if j + 1 < s.len() && s[j] == '/' && s[j + 1] == '>' {
                            Some((ElemView { name, attrs, children: Seq::empty() }, j + 2))
                        } else if j < s.len() && s[j] == '>' {
                            match parse_children(s, j + 1, name, Seq::empty(), (fuel - 1) as nat) {
                                None => None,
                                Some((children, end)) => Some(
                                    (ElemView { name, attrs, children }, end),
                                ),
                            }
                        } else {
                            None
                        }
                    },
                }
            } else {
                None
            }
        } else {
            None
        }
    }
}

/// Reads child elements starting at `i`, accumulating onto `acc`, up to
/// and including the end tag `</name>` of the enclosing element.
pub open spec fn parse_children(
    s: Seq<char>,
    i: int,
    name: Seq<char>,
    acc: Seq<ElemView>,
    fuel: nat,
) -> Option<(Seq<ElemView>, int)>
    decreases fuel,
{
    if fuel == 0 {
        None
    } else {
        let j = skip_ws(s, i);
        if j + 1 < s.len() && s[j] == '<' && s[j + 1] == '/' {
            let ke = scan_name(s, j + 2);
            if s.subrange(j + 2, ke) == name {
                let g = skip_ws(s, ke);
                if g < s.len() && s[g] == '>' {
                    Some((acc, g + 1))
                } else {
                    None
                }
            } else {
                None
            }
        } else if j < s.len() && s[j] == '<' {
            match parse_element(s, j, (fuel - 1) as nat) {
                None => None,
                Some((child, k)) => parse_children(s, k, name, acc.push(child), (fuel - 1) as nat),
            }
        } else {
            None
        }
    }
}

/// The fuel that the top-level entry point hands to the recursive
/// parsers; enough for any document of this length.
pub open spec fn doc_fuel(s: Seq<char>) -> nat {
    (s.len() + 4) as nat
}

/// Reads a whole document starting at `i` (after any declaration): one
/// element, with nothing but whitespace after it.
pub open spec fn parse_document_body(s: Seq<char>, i: int) -> Option<ElemView> {
    let j = skip_ws(s, i);
    match parse_element(s, j, doc_fuel(s)) {
        None => None,
        Some((e, end)) => if skip_ws(s, end) == s.len() {
            Some(e)
        } else {
            None
        },
    }
}

/// The element tree denoted by XML document text: optional leading
/// whitespace and `<?...?>` declaration, one element, optional trailing
/// whitespace.  Text whose length leaves no room for the fuel margin is
/// rejected outright.
pub open spec fn parse_document_spec(s: Seq<char>) -> Option<ElemView> {
    if s.len() >= usize::MAX - 4 {
        None
    } else {
        let i0 = skip_ws(s, 0);
        if i0 + 1 < s.len() && s[i0] == '<' && s[i0 + 1] == '?' {
            let q = find_qgt(s, i0 + 2);
            if q == s.len() {
                None
            } else {
                parse_document_body(s, q + 2)
            }
        } else {
            parse_document_body(s, i0)
        }
    }
}

#[verifier::loop_isolation(false)]
fn skip_ws_from(s: &str, from: usize) -> (r: usize)
    requires
        from <= s@.len(),
    ensures
        r == skip_ws(s@, from as int),
        from <= r <= s@.len(),
{
    let n = s.unicode_len();
    let mut i = from;
    while i < n
        invariant
            from <= i <= n,
            skip_ws(s@, from as int) == skip_ws(s@, i as int),
        decreases n - i,
    {
        let c = s.get_char(i);
        if !(c == ' ' || c == '\n' || c == '\t' || c == '\r') {
            return i;
        }
        i += 1;
    }
    i
}

#[verifier::loop_isolation(false)]
fn scan_name_from(s: &str, from: usize) -> (r: usize)
    requires
        from <= s@.len(),
    ensures
        r == scan_name(s@, from as int),
        from <= r <= s@.len(),
{
    let n = s.unicode_len();
    let mut i = from;
    while i < n
        invariant
            from <= i <= n,
            scan_name(s@, from as int) == scan_name(s@, i as int),
        decreases n - i,
    {
        let c = s.get_char(i);
        let u = c as u32;
        let ok = (48 <= u && u <= 57) || (65 <= u && u <= 90) || (97 <= u && u <= 122) || c == '_'
            || c == '-' || c == '.';
        if !ok {
            assert(!name_char_ok(s@[i as int]));
            return i;
        }
        i += 1;
    }
    i
}

#[verifier::loop_isolation(false)]
fn scan_value_from(s: &str, from: usize) -> (r: usize)
    requires
        from <= s@.len(),
    ensures
        r == scan_value(s@, from as int),
        from <= r <= s@.len(),
{
    let n = s.unicode_len();
    let mut i = from;
    while i < n
        invariant
            from <= i <= n,
            scan_value(s@, from as int) == scan_value(s@, i as int),
        decreases n - i,
    {
        if s.get_char(i) == '"' {
            return i;
        }
        i += 1;
    }
    i
}

#[verifier::loop_isolation(false)]
fn find_qgt_from(s: &str, from: usize) -> (r: usize)
    requires
        from <= s@.len(),
        s@.len() < usize::MAX,
    ensures
        r == find_qgt(s@, from as int),
        r <= s@.len(),
        r < s@.len() ==> r + 2 <= s@.len(),
{
    let n = s.unicode_len();
    let mut i = from;
    while i < n
        invariant
            from <= i <= n,
            find_qgt(s@, from as int) == find_qgt(s@, i as int),
        decreases n - i,
    {
        if s.get_char(i) == '?' && i + 1 < n && s.get_char(i + 1) == '>' {
            return i;
        }
        i += 1;
    }
    i
}

/// Compares the text of `s` between `a` and `b` with `t`.
#[verifier::loop_isolation(false)]
fn str_eq_range(s: &str, a: usize, b: usize, t: &str) -> (r: bool)
    requires
        a <= b <= s@.len(),
    ensures
        r == (s@.subrange(a as int, b as int) == t@),
{
    let tl = t.unicode_len();
    if b - a != tl {
        assert(s@.subrange(a as int, b as int).len() != t@.len());
        return false;
    }
    let mut k: usize = 0;
    while k < tl
        invariant
            k <= tl,
            tl == b - a,
            forall|q: int| 0 <= q < k ==> s@.subrange(a as int, b as int)[q] == t@[q],
        decreases tl - k,
    {
        let cs = s.get_char(a + k);
        let ct = t.get_char(k);
        if cs != ct {
            assert(s@.subrange(a as int, b as int)[k as int] != t@[k as int]);
            return false;
        }
        k += 1;
    }
    proof {
        assert(s@.subrange(a as int, b as int) =~= t@);
    }
    true
}

#[verifier::loop_isolation(false)]
fn parse_attrs_exec(s: &str, i: usize, fuel: usize) -> (r: Option<(Vec<(String, String)>, usize)>)
    requires
        i <= s@.len(),
        s@.len() < usize::MAX - 4,
    ensures
        match r {
            Some(p) => parse_attrs(s@, i as int, Seq::empty(), fuel as nat) == Some(
                (attrs_views(p.0@), p.1 as int),
            ) && p.1 <= s@.len(),
            None => parse_attrs(s@, i as int, Seq::empty(), fuel as nat) is None,
        },
{
    let n = s.unicode_len();
    let mut acc: Vec<(String, String)> = Vec::new();
    let mut cur = i;
    let mut f = fuel;
    proof {
        assert(attrs_views(acc@) =~= Seq::<(Seq<char>, Seq<char>)>::empty());
    }
    loop
        invariant
            cur <= n,
            parse_attrs(s@, i as int, Seq::empty(), fuel as nat) == parse_attrs(
                s@,
                cur as int,
                attrs_views(acc@),
                f as nat,
            ),
        decreases f,
    {
        if f == 0 {
            return None;
        }
        let j = skip_ws_from(s, cur);
        let starts_name = if j < n {
            let c = s.get_char(j);
            let u = c as u32;
            (48 <= u && u <= 57) || (65 <= u && u <= 90) || (97 <= u && u <= 122) || c == '_'
                || c == '-' || c == '.'
        } else {
            false
        };
        if !starts_name {
            assert(!(j < s@.len() && name_char_ok(s@[j as int])));
            return Some((acc, j));
        }
        let k = scan_name_from(s, j);
        if !(k + 1 < n) {
            return None;
        }
        if !(s.get_char(k) == '=' && s.get_char(k + 1) == '"') {
            return None;
        }
        let v = scan_value_from(s, k + 2);
        if v == n {
            return None;
        }
        let name = s.substring_char(j, k).to_owned();
        let value = s.substring_char(k + 2, v).to_owned();
        let ghost old_views = attrs_views(acc@);
        acc.push((name, value));
        proof {
            assert(attrs_views(acc@) =~= old_views.push(
                (s@.subrange(j as int, k as int), s@.subrange(k + 2, v as int)),
            ));
        }
        cur = v + 1;
        f = f - 1;
    }
}

fn parse_element_exec(s: &str, i: usize, fuel: usize) -> (r: Option<(XmlElement, usize)>)
    requires
        i <= s@.len(),
        s@.len() < usize::MAX - 4,
    ensures
        match r {
            Some(p) => parse_element(s@, i as int, fuel as nat) == Some((p.0@, p.1 as int))
                && p.1 <= s@.len(),
            None => parse_element(s@, i as int, fuel as nat) is None,
        },
    decreases fuel,
{
    if fuel == 0 {
        return None;
    }
    let n = s.unicode_len();
    if !(i < n) {
        return None;
    }
    if s.get_char(i) != '<' {
        return None;
    }
    let ne = scan_name_from(s, i + 1);
    if ne == i + 1 {
        return None;
    }
    let name_str = s.substring_char(i + 1, ne);
    let ar = parse_attrs_exec(s, ne, fuel - 1);
    let (attrs, j) = match ar {
        Some(p) => p,
        None => {
            return None;
        },
    };
    if j + 1 < n && s.get_char(j) == '/' {
        if s.get_char(j + 1) == '>' {
            let e = XmlElement { name: name_str.to_owned(), attributes: attrs, children: Vec::new() };
            proof {
                assert(children_views(e.children@) =~= Seq::<ElemView>::empty());
                assert(e@ =~= ElemView {
                    name: s@.subrange(i + 1, ne as int),
                    attrs: attrs_views(attrs@),
                    children: Seq::empty(),
                });
            }
            return Some((e, j + 2));
        }
        return None;
    }
    if j < n && s.get_char(j) == '>' {
        match parse_children_exec(s, j + 1, name_str, fuel - 1) {
            None => {
                return None;
            },
            Some((children, end)) => {
                let e = XmlElement { name: name_str.to_owned(), attributes: attrs, children };
                proof {
                    assert(e@ =~= ElemView {
                        name: s@.subrange(i + 1, ne as int),
                        attrs: attrs_views(attrs@),
                        children: children_views(e.children@),
                    });
                }
                return Some((e, end));
            },
        }
    }
    None
}

#[verifier::loop_isolation(false)]
fn parse_children_exec(s: &str, i: usize, name: &str, fuel: usize) -> (r: Option<
    (Vec<XmlElement>, usize),
>)
    requires
        i <= s@.len(),
        s@.len() < usize::MAX - 4,
    ensures
        match r {
            Some(p) => parse_children(s@, i as int, name@, Seq::empty(), fuel as nat) == Some(
                (children_views(p.0@), p.1 as int),
            ) && p.1 <= s@.len(),
            None => parse_children(s@, i as int, name@, Seq::empty(), fuel as nat) is None,
        },
    decreases fuel,
{
    let n = s.unicode_len();
    let mut acc: Vec<XmlElement> = Vec::new();
    let mut cur = i;
    let mut f = fuel;
    proof {
        assert(children_views(acc@) =~= Seq::<ElemView>::empty());
    }
    loop
        invariant
            cur <= n,
            f <= fuel,
            parse_children(s@, i as int, name@, Seq::empty(), fuel as nat) == parse_children(
                s@,
                cur as int,
                name@,
                children_views(acc@),
                f as nat,
            ),
        decreases f,
    {
        if f == 0 {
            return None;
        }
        let j = skip_ws_from(s, cur);
        if j + 1 < n && s.get_char(j) == '<' && s.get_char(j + 1) == '/' {
            let ke = scan_name_from(s, j + 2);
            if !str_eq_range(s, j + 2, ke, name) {
                return None;
            }
            let g = skip_ws_from(s, ke);
            if g < n && s.get_char(g) == '>' {
                return Some((acc, g + 1));
            }
            return None;
        }
        if j < n && s.get_char(j) == '<' {
            match parse_element_exec(s, j, f - 1) {
                None => {
                    return None;
                },
                Some((child, k)) => {
                    proof {
                        lemma_children_views_push(acc@, child);
                    }
                    acc.push(child);
                    cur = k;
                    f = f - 1;
                },
            }
        } else {
            return None;
        }
    }
}

/// Parses XML document text into an element tree: optional leading
/// whitespace and `<?...?>` declaration line, one element with attributes
/// and nested children, optional trailing whitespace.  Any other text is
/// rejected as a syntax failure.
pub fn element_from_xml(s: &str) -> (r: Result<XmlElement, DeError>)
    ensures
        match r {
            Ok(e) => parse_document_spec(s@) == Some(e@),
            Err(err) => parse_document_spec(s@) is None && err == DeError::Syntax,
        },
{
    let n = s.unicode_len();
    if n >= usize::MAX - 4 {
        return Err(DeError::Syntax);
    }
    let i0 = skip_ws_from(s, 0);
    let has_decl = i0 + 1 < n && s.get_char(i0) == '<' && s.get_char(i0 + 1) == '?';
    let start: usize = if has_decl {
        let q = find_qgt_from(s, i0 + 2);
        if q == n {
            return Err(DeError::Syntax);
        }
        q + 2
    } else {
        i0
    };
    let j = skip_ws_from(s, start);
    match parse_element_exec(s, j, n + 4) {
        None => Err(DeError::Syntax),
        Some((e, end)) => {
            let t = skip_ws_from(s, end);
            if t == n {
                Ok(e)
            } else {
                Err(DeError::Syntax)
            }
        },
    }
}

} // verus!
