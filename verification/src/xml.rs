use vstd::prelude::*;

use crate::text::str_eq;

verus! {

/// An element of an XML document: its tag name, its attributes in order, the text that
/// opens it (its first child, where that child is text), and its child elements in order.
#[derive(Debug)]
pub struct XmlElement {
    pub name: String,
    pub attributes: Vec<(String, String)>,
    pub text: Option<String>,
    pub children: Vec<XmlElement>,
}

/// Why an element was not found.
#[derive(Debug, Clone, Copy, PartialEq, Eq, Structural)]
pub enum XmlError {
    /// No element has the name.
    NotFound,
    /// More than one element has the name.
    NotUnique,
    /// The element has no text.
    NoText,
}

/// An element followed by all the elements inside it, in document order.
pub open spec fn descendants(e: XmlElement) -> Seq<XmlElement>
    decreases e,
{
    seq![e] + descendants_all(e.children@)
}

/// The elements of `s` each followed by the elements inside it, in document order.
pub open spec fn descendants_all(s: Seq<XmlElement>) -> Seq<XmlElement>
    decreases s,
{
    if s.len() == 0 {
        Seq::empty()
    } else {
        descendants_all(s.drop_last()) + descendants(s.last())
    }
}

/// The elements of `s` whose tag name is `name`, in order.
pub open spec fn tagged(s: Seq<XmlElement>, name: Seq<char>) -> Seq<XmlElement>
    decreases s.len(),
{
    if s.len() == 0 {
        Seq::empty()
    } else {
        tagged(s.drop_last(), name) + (if s.last().name@ == name {
            seq![s.last()]
        } else {
            Seq::empty()
        })
    }
}

/// The value of the attribute `key` of an element.
pub open spec fn attribute_of(e: XmlElement, key: Seq<char>) -> Option<Seq<char>> {
    let i = first_attribute_index(e.attributes@, key);
    if i < e.attributes@.len() {
        Some(e.attributes@[i].1@)
    } else {
        None
    }
}

/// The index of the first attribute named `key`, or the number of attributes.
pub open spec fn first_attribute_index(a: Seq<(String, String)>, key: Seq<char>) -> int
    decreases a.len(),
{
    if a.len() == 0 {
        0
    } else if a[0].0@ == key {
        0
    } else {
        1 + first_attribute_index(a.skip(1), key)
    }
}

/// The text of an element.
pub open spec fn text_of(e: XmlElement) -> Option<Seq<char>> {
    match e.text {
        Some(t) => Some(t@),
        None => None,
    }
}

/// The elements that references point to.
pub open spec fn derefs(s: Seq<&XmlElement>) -> Seq<XmlElement> {
    s.map_values(|r: &XmlElement| *r)
}

proof fn lemma_tagged_append(a: Seq<XmlElement>, b: Seq<XmlElement>, name: Seq<char>)
    ensures
        tagged(a + b, name) == tagged(a, name) + tagged(b, name),
    decreases b.len(),
{
    if b.len() == 0 {
        assert(a + b =~= a);
        assert(tagged(a, name) + tagged(b, name) =~= tagged(a, name));
    } else {
        lemma_tagged_append(a, b.drop_last(), name);
        assert((a + b).drop_last() =~= a + b.drop_last());
        assert((a + b).last() == b.last());
    }
}

proof fn lemma_first_attribute_index_bounds(a: Seq<(String, String)>, key: Seq<char>)
    ensures
        0 <= first_attribute_index(a, key) <= a.len(),
    decreases a.len(),
{
    if a.len() > 0 && a[0].0@ != key {
        lemma_first_attribute_index_bounds(a.skip(1), key);
    }
}

/// Appends the elements of `e`'s subtree whose tag name is `name`.
fn collect_tagged<'a>(e: &'a XmlElement, name: &str, out: &mut Vec<&'a XmlElement>)
    ensures
        derefs(final(out)@) == derefs(old(out)@) + tagged(descendants(*e), name@),
    decreases e,
{
    let ghost start = derefs(out@);
    if str_eq(e.name.as_str(), name) {
        out.push(e);
    }
    proof {
        reveal_with_fuel(tagged, 2);
        assert(seq![*e].drop_last() =~= Seq::<XmlElement>::empty());
        assert(derefs(out@) =~= start + tagged(seq![*e], name@));
    }
    let mut i: usize = 0;
    while i < e.children.len()
        invariant
            i <= e.children.len(),
            derefs(out@) == start + tagged(seq![*e], name@) + tagged(descendants_all(e.children@.take(i as int)), name@),
        decreases e.children.len() - i,
    {
        let ghost before = derefs(out@);
        assert(decreases_to!(*e => e.children@[i as int]));
        collect_tagged(&e.children[i], name, out);
        proof {
            let t = e.children@.take(i + 1);
            assert(t.drop_last() =~= e.children@.take(i as int));
            assert(t.last() == e.children@[i as int]);
            lemma_tagged_append(descendants_all(t.drop_last()), descendants(t.last()), name@);
        }
        i = i + 1;
    }
    proof {
        assert(e.children@.take(e.children@.len() as int) =~= e.children@);
        lemma_tagged_append(seq![*e], descendants_all(e.children@), name@);
    }
}

/// The elements of `node`'s subtree, itself included, whose tag name is `element_name`.
pub fn get_nodes<'a>(node: &'a XmlElement, element_name: &str) -> (v: Vec<&'a XmlElement>)
    ensures
        derefs(v@) == tagged(descendants(*node), element_name@),
{
    let mut v: Vec<&'a XmlElement> = Vec::new();
    proof {
        assert(derefs(v@) =~= Seq::<XmlElement>::empty());
    }
    collect_tagged(node, element_name, &mut v);
    proof {
        assert(Seq::<XmlElement>::empty() + tagged(descendants(*node), element_name@) =~= tagged(
            descendants(*node),
            element_name@,
        ));
    }
    v
}


/// The elements of `s` whose attribute `key` has the value `val`, in order.
pub open spec fn with_attribute(s: Seq<XmlElement>, key: Seq<char>, val: Seq<char>) -> Seq<XmlElement>
    decreases s.len(),
{
    if s.len() == 0 {
        Seq::empty()
    } else {
        with_attribute(s.drop_last(), key, val) + (if attribute_of(s.last(), key) == Some(val) {
            seq![s.last()]
        } else {
            Seq::empty()
        })
    }
}

/// The value of the attribute `key` of an element.
pub fn attribute<'a>(e: &'a XmlElement, key: &str) -> (r: Option<&'a str>)
    ensures
        match r {
            Some(v) => attribute_of(*e, key@) == Some(v@),
            None => attribute_of(*e, key@) is None,
        },
{
    proof {
        lemma_first_attribute_index_bounds(e.attributes@, key@);
        assert(e.attributes@.skip(0) =~= e.attributes@);
    }
    let mut i: usize = 0;
    while i < e.attributes.len()
        invariant
            i <= e.attributes.len(),
            first_attribute_index(e.attributes@, key@) == i + first_attribute_index(e.attributes@.skip(i as int), key@),
        decreases e.attributes.len() - i,
    {
        let ghost rest = e.attributes@.skip(i as int);
        assert(rest[0] == e.attributes@[i as int]);
        if str_eq(e.attributes[i].0.as_str(), key) {
            return Some(e.attributes[i].1.as_str());
        }
        assert(rest.skip(1) =~= e.attributes@.skip(i + 1));
        i = i + 1;
    }
    None
}

/// Appends every element of `e`'s subtree.
fn collect_all<'a>(e: &'a XmlElement, out: &mut Vec<&'a XmlElement>)
    ensures
        derefs(final(out)@) == derefs(old(out)@) + descendants(*e),
    decreases e,
{
    let ghost start = derefs(out@);
    out.push(e);
    proof {
        assert(derefs(out@) =~= start + seq![*e]);
    }
    let mut i: usize = 0;
    while i < e.children.len()
        invariant
            i <= e.children.len(),
            derefs(out@) == start + seq![*e] + descendants_all(e.children@.take(i as int)),
        decreases e.children.len() - i,
    {
        assert(decreases_to!(*e => e.children@[i as int]));
        collect_all(&e.children[i], out);
        proof {
            let t = e.children@.take(i + 1);
            assert(t.drop_last() =~= e.children@.take(i as int));
            assert(t.last() == e.children@[i as int]);
        }
        i = i + 1;
    }
    proof {
        assert(e.children@.take(e.children@.len() as int) =~= e.children@);
    }
}

/// The first of the elements whose attribute `key` has the value `val`.
fn first_with_attribute<'a>(v: &Vec<&'a XmlElement>, key: &str, val: &str) -> (r: Option<&'a XmlElement>)
    ensures
        match r {
            Some(x) => with_attribute(derefs(v@), key@, val@).len() > 0
                && *x == with_attribute(derefs(v@), key@, val@)[0],
            None => with_attribute(derefs(v@), key@, val@).len() == 0,
        },
{
    let ghost all = derefs(v@);
    let mut i: usize = 0;
    while i < v.len()
        invariant
            i <= v.len(),
            all == derefs(v@),
            with_attribute(all.take(i as int), key@, val@).len() == 0,
        decreases v.len() - i,
    {
        let ghost t = all.take(i + 1);
        assert(t.drop_last() =~= all.take(i as int));
        assert(t.last() == *v@[i as int]);
        let found = match attribute(v[i], key) {
            Some(a) => str_eq(a, val),
            None => false,
        };
        if found {
            proof {
                lemma_with_attribute_prefix(all, i + 1, key@, val@);
            }
            return Some(v[i]);
        }
        i = i + 1;
    }
    assert(all.take(all.len() as int) =~= all);
    None
}

proof fn lemma_with_attribute_append(a: Seq<XmlElement>, b: Seq<XmlElement>, key: Seq<char>, val: Seq<char>)
    ensures
        with_attribute(a + b, key, val) == with_attribute(a, key, val) + with_attribute(b, key, val),
    decreases b.len(),
{
    if b.len() == 0 {
        assert(a + b =~= a);
        assert(with_attribute(a, key, val) + with_attribute(b, key, val) =~= with_attribute(a, key, val));
    } else {
        lemma_with_attribute_append(a, b.drop_last(), key, val);
        assert((a + b).drop_last() =~= a + b.drop_last());
        assert((a + b).last() == b.last());
    }
}

/// A prefix's matches come first among all matches.
proof fn lemma_with_attribute_prefix(s: Seq<XmlElement>, k: int, key: Seq<char>, val: Seq<char>)
    requires
        0 <= k <= s.len(),
    ensures
        with_attribute(s, key, val) == with_attribute(s.take(k), key, val) + with_attribute(s.skip(k), key, val),
{
    assert(s.take(k) + s.skip(k) =~= s);
    lemma_with_attribute_append(s.take(k), s.skip(k), key, val);
}

/// The only element of `node`'s subtree, itself included, named `element_name`.
pub fn get_unique_node<'a>(node: &'a XmlElement, element_name: &str) -> (r: Result<&'a XmlElement, XmlError>)
    ensures
        ({
            let t = tagged(descendants(*node), element_name@);
            match r {
                Ok(x) => t.len() == 1 && *x == t[0],
                Err(e) => (t.len() == 0 && e == XmlError::NotFound) || (t.len() >= 2 && e == XmlError::NotUnique),
            }
        }),
{
    let v = get_nodes(node, element_name);
    if v.len() >= 2 {
        Err(XmlError::NotUnique)
    } else if v.len() == 1 {
        Ok(v[0])
    } else {
        Err(XmlError::NotFound)
    }
}

/// The first element of `node`'s subtree, itself included, named `element_name`.
pub fn get_first_node<'a>(node: &'a XmlElement, element_name: &str) -> (r: Option<&'a XmlElement>)
    ensures
        ({
            let t = tagged(descendants(*node), element_name@);
            match r {
                Some(x) => t.len() > 0 && *x == t[0],
                None => t.len() == 0,
            }
        }),
{
    let v = get_nodes(node, element_name);
    if v.len() > 0 {
        Some(v[0])
    } else {
        None
    }
}

/// The text of the only element of `node`'s subtree named `element_name`.
pub open spec fn unique_node_text(node: XmlElement, element_name: Seq<char>) -> Result<Seq<char>, XmlError> {
    let t = tagged(descendants(node), element_name);
    if t.len() == 0 {
        Err(XmlError::NotFound)
    } else if t.len() >= 2 {
        Err(XmlError::NotUnique)
    } else {
        match text_of(t[0]) {
            Some(s) => Ok(s),
            None => Err(XmlError::NoText),
        }
    }
}

/// The text of the only element of `node`'s subtree, itself included, named `element_name`.
pub fn get_unique_node_text<'a>(node: &'a XmlElement, element_name: &str) -> (r: Result<&'a str, XmlError>)
    ensures
        match r {
            Ok(s) => unique_node_text(*node, element_name@) == Ok::<Seq<char>, XmlError>(s@),
            Err(e) => unique_node_text(*node, element_name@) == Err::<Seq<char>, XmlError>(e),
        },
{
    match get_unique_node(node, element_name) {
        Ok(x) => match &x.text {
            Some(t) => Ok(t.as_str()),
            None => Err(XmlError::NoText),
        },
        Err(e) => Err(e),
    }
}

/// The texts of the elements of `node`'s subtree named `element_name`, skipping those
/// without text.
pub open spec fn texts(s: Seq<XmlElement>) -> Seq<Seq<char>>
    decreases s.len(),
{
    if s.len() == 0 {
        Seq::empty()
    } else {
        texts(s.drop_last()) + match text_of(s.last()) {
            Some(t) => seq![t],
            None => Seq::empty(),
        }
    }
}

/// The texts of the elements of `node`'s subtree, itself included, named `element_name`,
/// in document order; elements without text are skipped.
pub fn get_nodes_text<'a>(node: &'a XmlElement, element_name: &str) -> (r: Vec<&'a str>)
    ensures
        r@.map_values(|s: &str| s@) == texts(tagged(descendants(*node), element_name@)),
{
    let v = get_nodes(node, element_name);
    let ghost all = derefs(v@);
    let mut out: Vec<&'a str> = Vec::new();
    let mut i: usize = 0;
    while i < v.len()
        invariant
            i <= v.len(),
            all == derefs(v@),
            all == tagged(descendants(*node), element_name@),
            out@.map_values(|s: &str| s@) == texts(all.take(i as int)),
        decreases v.len() - i,
    {
        let ghost t = all.take(i + 1);
        assert(t.drop_last() =~= all.take(i as int));
        assert(t.last() == *v@[i as int]);
        match &v[i].text {
            Some(x) => {
                out.push(x.as_str());
            },
            None => {},
        }
        assert(out@.map_values(|s: &str| s@) =~= texts(t));
        i = i + 1;
    }
    assert(all.take(all.len() as int) =~= all);
    out
}

/// The first element of `node`'s subtree, itself included, named `name` whose attribute
/// `attribute_name` is `attribute_val`.
pub fn find_unique_node_with_name_and_attribute<'a>(
    node: &'a XmlElement,
    name: &str,
    attribute_name: &str,
    attribute_val: &str,
) -> (r: Result<&'a XmlElement, XmlError>)
    ensures
        ({
            let t = with_attribute(tagged(descendants(*node), name@), attribute_name@, attribute_val@);
            match r {
                Ok(x) => t.len() > 0 && *x == t[0],
                Err(e) => t.len() == 0 && e == XmlError::NotFound,
            }
        }),
{
    let v = get_nodes(node, name);
    match first_with_attribute(&v, attribute_name, attribute_val) {
        Some(x) => Ok(x),
        None => Err(XmlError::NotFound),
    }
}

/// The first element of `node`'s subtree, itself included, whose attribute
/// `attribute_name` is `attribute_val`.
pub fn find_unique_node_with_attribute<'a>(
    node: &'a XmlElement,
    attribute_name: &str,
    attribute_val: &str,
) -> (r: Result<&'a XmlElement, XmlError>)
    ensures
        ({
            let t = with_attribute(descendants(*node), attribute_name@, attribute_val@);
            match r {
                Ok(x) => t.len() > 0 && *x == t[0],
                Err(e) => t.len() == 0 && e == XmlError::NotFound,
            }
        }),
{
    let mut v: Vec<&'a XmlElement> = Vec::new();
    proof {
        assert(derefs(v@) =~= Seq::<XmlElement>::empty());
    }
    collect_all(node, &mut v);
    assert(derefs(v@) =~= descendants(*node));
    match first_with_attribute(&v, attribute_name, attribute_val) {
        Some(x) => Ok(x),
        None => Err(XmlError::NotFound),
    }
}

} // verus!
