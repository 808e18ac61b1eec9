//! A plain tree of XML elements: local names, attributes and children.
use vstd::prelude::*;

verus! {

/// One attribute of an element, by its local name.
#[derive(Clone, Debug, PartialEq)]
pub struct XmlAttr {
    pub name: String,
    pub value: String,
}

/// One element, by its local name, with its attributes and child elements in
/// document order. Text, comments and processing instructions are not kept.
#[derive(Debug)]
pub struct Element {
    pub name: String,
    pub attributes: Vec<XmlAttr>,
    pub children: Vec<Element>,
}

/// An element as a value: local name, (name, value) attribute pairs, and
/// children, all in document order.
pub struct ElementView {
    pub name: Seq<char>,
    pub attributes: Seq<(Seq<char>, Seq<char>)>,
    pub children: Seq<ElementView>,
}

pub open spec fn attribute_view(a: XmlAttr) -> (Seq<char>, Seq<char>) {
    (a.name@, a.value@)
}

pub open spec fn element_view(e: Element) -> ElementView
    decreases e,
{
    ElementView {
        name: e.name@,
        attributes: e.attributes@.map_values(|a: XmlAttr| attribute_view(a)),
        children: Seq::new(
            e.children@.len(),
            |i: int|
                if 0 <= i < e.children@.len() {
                    element_view(e.children@[i])
                } else {
                    ElementView { name: Seq::empty(), attributes: Seq::empty(), children: Seq::empty() }
                },
        ),
    }
}

pub open spec fn views(es: Seq<Element>) -> Seq<ElementView> {
    es.map_values(|e: Element| e@)
}

impl View for Element {
    type V = ElementView;

    open spec fn view(&self) -> ElementView {
        element_view(*self)
    }
}

pub open spec fn attribute_names(attrs: Seq<(Seq<char>, Seq<char>)>) -> Seq<Seq<char>> {
    attrs.map_values(|a: (Seq<char>, Seq<char>)| a.0)
}

pub open spec fn element_names(elems: Seq<ElementView>) -> Seq<Seq<char>> {
    elems.map_values(|e: ElementView| e.name)
}

/// Index of the first entry of `names` equal to `key`.
pub open spec fn first_index(names: Seq<Seq<char>>, key: Seq<char>) -> Option<int>
    decreases names.len(),
{
    if names.len() == 0 {
        None
    } else {
        match first_index(names.drop_last(), key) {
            Some(i) => Some(i),
            None => if names.last() == key {
                Some(names.len() - 1)
            } else {
                None
            },
        }
    }
}

/// Value of the first attribute of `e` named `key`.
pub open spec fn attr(e: ElementView, key: Seq<char>) -> Option<Seq<char>> {
    match first_index(attribute_names(e.attributes), key) {
        Some(i) => Some(e.attributes[i].1),
        None => None,
    }
}

/// First child of `e` named `key`.
pub open spec fn child(e: ElementView, key: Seq<char>) -> Option<ElementView> {
    match first_index(element_names(e.children), key) {
        Some(i) => Some(e.children[i]),
        None => None,
    }
}

pub open spec fn opt_view(o: Option<String>) -> Option<Seq<char>> {
    match o {
        Some(s) => Some(s@),
        None => None,
    }
}

proof fn lemma_first_index_prefix(names: Seq<Seq<char>>, key: Seq<char>, k: int)
    requires
        0 <= k <= names.len(),
    ensures
        first_index(names.take(k), key) is Some ==> first_index(names, key) == first_index(
            names.take(k),
            key,
        ),
        first_index(names.take(k), key) is Some ==> 0 <= first_index(names.take(k), key)->0 < k,
        first_index(names.take(k), key) is None && k < names.len() ==> first_index(
            names.take(k + 1),
            key,
        ) == if names[k] == key {
            Some(k)
        } else {
            None::<int>
        },
    decreases names.len(),
{
    if k < names.len() {
        assert(names.take(k + 1).drop_last() =~= names.take(k));
        lemma_first_index_prefix(names.drop_last(), key, k);
        assert(names.drop_last().take(k) =~= names.take(k));
        if k + 1 < names.len() {
            lemma_first_index_prefix(names.drop_last(), key, k + 1);
            assert(names.drop_last().take(k + 1) =~= names.take(k + 1));
        } else {
            assert(names.take(k + 1) =~= names);
        }
    } else {
        assert(names.take(k) =~= names);
        if names.len() > 0 {
            lemma_first_index_prefix(names.drop_last(), key, names.len() - 1);
            assert(names.drop_last().take(names.len() - 1) =~= names.drop_last());
        }
    }
}

/// Value of the first attribute of `e` named `key`.
pub fn find_attribute(e: &Element, key: &str) -> (r: Option<String>)
    ensures
        opt_view(r) == attr(e@, key@),
{
    let ghost names = attribute_names(e@.attributes);
    let wanted = key.to_owned();
    let mut i: usize = 0;
    while i < e.attributes.len()
        invariant
            wanted@ == key@,
            names == attribute_names(e@.attributes),
            names.len() == e.attributes@.len(),
            i <= e.attributes@.len(),
            first_index(names.take(i as int), key@) is None,
        decreases e.attributes@.len() - i,
    {
        proof {
            lemma_first_index_prefix(names, key@, i as int);
        }
        assert(names[i as int] == e.attributes@[i as int].name@);
        if e.attributes[i].name == wanted {
            proof {
                lemma_first_index_prefix(names, key@, i + 1);
            }
            return Some(e.attributes[i].value.clone());
        }
        i = i + 1;
    }
    proof {
        assert(names.take(i as int) =~= names);
    }
    None
}

/// Index of the first child of `e` named `key`.
pub fn find_child(e: &Element, key: &str) -> (r: Option<usize>)
    ensures
        match r {
            Some(i) => i < e.children@.len() && first_index(element_names(e@.children), key@)
                == Some(i as int) && e@.children[i as int] == e.children@[i as int]@ && views(
                e.children@[i as int].children@,
            ) == e@.children[i as int].children,
            None => first_index(element_names(e@.children), key@) is None,
        },
{
    let ghost names = element_names(e@.children);
    let wanted = key.to_owned();
    let mut i: usize = 0;
    while i < e.children.len()
        invariant
            wanted@ == key@,
            names == element_names(e@.children),
            names.len() == e.children@.len(),
            i <= e.children@.len(),
            first_index(names.take(i as int), key@) is None,
        decreases e.children@.len() - i,
    {
        proof {
            lemma_first_index_prefix(names, key@, i as int);
        }
        assert(names[i as int] == e.children@[i as int]@.name);
        if e.children[i].name == wanted {
            proof {
                lemma_first_index_prefix(names, key@, i + 1);
                let c = e.children@[i as int];
                assert(views(c.children@) =~= c@.children);
            }
            return Some(i);
        }
        i = i + 1;
    }
    proof {
        assert(names.take(i as int) =~= names);
    }
    None
}

/// Adding a child to an element adds its view to the element's children.
pub proof fn lemma_push_child(p: Element, q: Element, c: Element)
    requires
        q.name@ == p.name@,
        q.attributes@ == p.attributes@,
        q.children@ == p.children@.push(c),
    ensures
        q@ == (ElementView {
            name: p@.name,
            attributes: p@.attributes,
            children: p@.children.push(c@),
        }),
{
    assert(q@.attributes =~= p@.attributes);
    assert(q@.children =~= p@.children.push(c@));
}

} // verus!
