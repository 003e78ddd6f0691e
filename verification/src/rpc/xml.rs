//! The XML documents of the game's entity definitions, as a flat list of
//! nodes in document order.
use vstd::prelude::*;

use crate::text::{trim, trim_bounds};

verus! {

/// One node of an XML document: its id, its parent's id, whether it is an
/// element, its tag name (empty for nodes that are not elements) and its
/// text (for an element, the text of its first child when that is text).
#[derive(Debug)]
pub struct XmlNode {
    pub id: usize,
    pub parent: Option<usize>,
    pub is_element: bool,
    pub name: String,
    pub text: Option<String>,
}

/// The mathematical value of an [`XmlNode`].
pub struct XmlNodeV {
    pub id: nat,
    pub parent: Option<nat>,
    pub is_element: bool,
    pub name: Seq<char>,
    pub text: Option<Seq<char>>,
}

pub open spec fn node_view(n: XmlNode) -> XmlNodeV {
    XmlNodeV {
        id: n.id as nat,
        parent: match n.parent {
            Some(p) => Some(p as nat),
            None => None,
        },
        is_element: n.is_element,
        name: n.name@,
        text: match n.text {
            Some(t) => Some(t@),
            None => None,
        },
    }
}

pub open spec fn nodes_view(ns: Seq<XmlNode>) -> Seq<XmlNodeV> {
    Seq::new(ns.len(), |i: int| node_view(ns[i]))
}

/// The nodes of the XML document `text` in document order (the document
/// node first), as `roxmltree` parses it; `None` when `text` is not a
/// well-formed document.
pub uninterp spec fn xml_parse(text: Seq<char>) -> Option<Seq<XmlNodeV>>;

/// Parses an XML document with `roxmltree::Document::parse` and lists its
/// nodes: each node's id, its parent's id, whether it is an element, its
/// tag name and its text. The result is the one that [`xml_parse`] names;
/// nothing more is claimed of it.
#[verifier::external_body]
fn roxmltree_nodes(text: &str) -> (r: Option<Vec<XmlNode>>)
    ensures
        match r {
            Some(ns) => xml_parse(text@) == Some(nodes_view(ns@)),
            None => xml_parse(text@) is None,
        },
{
    let doc = roxmltree::Document::parse(text).ok()?;
    let nodes = doc.descendants().map(|n| XmlNode {
        id: n.id().get_usize(),
        parent: n.parent().map(|p| p.id().get_usize()),
        is_element: n.is_element(),
        name: n.tag_name().name().to_string(),
        text: n.text().map(|t| t.to_string()),
    }).collect();
    Some(nodes)
}

/// The nodes of the XML document `text` in document order, as
/// [`xml_parse`] names them; `None` when it is not well formed.
pub fn parse_xml(text: &str) -> (r: Option<Vec<XmlNode>>)
    ensures
        match r {
            Some(ns) => xml_parse(text@) == Some(nodes_view(ns@)),
            None => xml_parse(text@) is None,
        },
{
    roxmltree_nodes(text)
}

/// The first node from index `k` on that is a child of the node with id
/// `pid` and, when `name` is given, has that tag name.
pub open spec fn child_from(ns: Seq<XmlNodeV>, pid: nat, name: Option<Seq<char>>, k: int) -> Option<int>
    decreases ns.len() - k,
{
    if k < 0 || k >= ns.len() {
        None
    } else if ns[k].parent == Some(pid) && (name is None || ns[k].name == name->0) {
        Some(k)
    } else {
        child_from(ns, pid, name, k + 1)
    }
}

/// The element children of the node with id `pid`, from index `k` on, in
/// document order.
pub open spec fn element_children(ns: Seq<XmlNodeV>, pid: nat, k: int) -> Seq<int>
    decreases ns.len() - k,
{
    if k < 0 || k >= ns.len() {
        Seq::empty()
    } else if ns[k].parent == Some(pid) && ns[k].is_element {
        seq![k] + element_children(ns, pid, k + 1)
    } else {
        element_children(ns, pid, k + 1)
    }
}

/// The index of the first child of node `i` (any kind) from index `k` on,
/// or, with `name`, the first child with that tag name.
pub fn find_child(ns: &Vec<XmlNode>, i: usize, name: Option<&str>, k: usize) -> (r: Option<usize>)
    requires
        i < ns@.len(),
    ensures
        match r {
            Some(j) => child_from(nodes_view(ns@), ns@[i as int].id as nat, opt_str(name), k as int) == Some(
                j as int,
            ) && j < ns@.len(),
            None => child_from(nodes_view(ns@), ns@[i as int].id as nat, opt_str(name), k as int) is None,
        },
{
    let pid = ns[i].id;
    let ghost nv = nodes_view(ns@);
    let mut j = k;
    while j < ns.len()
        invariant
            k <= j,
            i < ns@.len(),
            pid == ns@[i as int].id,
            nv == nodes_view(ns@),
            child_from(nv, pid as nat, opt_str(name), k as int) == child_from(nv, pid as nat, opt_str(name), j as int),
        decreases ns@.len() - j,
    {
        let hit = match ns[j].parent {
            Some(p) => p == pid && match name {
                Some(n) => crate::text::str_eq(ns[j].name.as_str(), n),
                None => true,
            },
            None => false,
        };
        if hit {
            return Some(j);
        }
        j = j + 1;
    }
    None
}

pub open spec fn opt_str(name: Option<&str>) -> Option<Seq<char>> {
    match name {
        Some(n) => Some(n@),
        None => None,
    }
}

/// The element children of node `i`, as indices in document order.
pub fn children_elements(ns: &Vec<XmlNode>, i: usize) -> (r: Vec<usize>)
    requires
        i < ns@.len(),
    ensures
        r@.map_values(|j: usize| j as int) == element_children(nodes_view(ns@), ns@[i as int].id as nat, 0),
        forall|t: int| 0 <= t < r@.len() ==> #[trigger] r@[t] < ns@.len(),
{
    let pid = ns[i].id;
    let ghost nv = nodes_view(ns@);
    let mut out: Vec<usize> = Vec::new();
    let mut j: usize = 0;
    while j < ns.len()
        invariant
            i < ns@.len(),
            j <= ns@.len(),
            pid == ns@[i as int].id,
            nv == nodes_view(ns@),
            forall|t: int| 0 <= t < out@.len() ==> #[trigger] out@[t] < ns@.len(),
            element_children(nv, pid as nat, 0) == out@.map_values(|x: usize| x as int) + element_children(
                nv,
                pid as nat,
                j as int,
            ),
        decreases ns@.len() - j,
    {
        let hit = match ns[j].parent {
            Some(p) => p == pid && ns[j].is_element,
            None => false,
        };
        if hit {
            proof {
                assert(out@.push(j).map_values(|x: usize| x as int) =~= out@.map_values(|x: usize| x as int).push(
                    j as int,
                ));
                assert(out@.map_values(|x: usize| x as int) + element_children(nv, pid as nat, j as int)
                    =~= out@.push(j).map_values(|x: usize| x as int) + element_children(nv, pid as nat, j + 1));
            }
            out.push(j);
        }
        j = j + 1;
    }
    proof {
        assert(out@.map_values(|x: usize| x as int) + element_children(nv, pid as nat, j as int)
            =~= out@.map_values(|x: usize| x as int));
    }
    out
}

/// `s` without leading and trailing whitespace.
pub fn trimmed(s: &str) -> (r: String)
    ensures
        r@ == trim(s@),
{
    let (a, b) = trim_bounds(s);
    s.substring_char(a, b).to_owned()
}


/// The children (of any kind) of the node with id `pid`, from index `k`
/// on, in document order.
pub open spec fn all_children(ns: Seq<XmlNodeV>, pid: nat, k: int) -> Seq<int>
    decreases ns.len() - k,
{
    if k < 0 || k >= ns.len() {
        Seq::empty()
    } else if ns[k].parent == Some(pid) {
        seq![k] + all_children(ns, pid, k + 1)
    } else {
        all_children(ns, pid, k + 1)
    }
}

/// The children of node `i` (of any kind), as indices in document order.
pub fn children_all(ns: &Vec<XmlNode>, i: usize) -> (r: Vec<usize>)
    requires
        i < ns@.len(),
    ensures
        r@.map_values(|j: usize| j as int) == all_children(nodes_view(ns@), ns@[i as int].id as nat, 0),
        forall|t: int| 0 <= t < r@.len() ==> #[trigger] r@[t] < ns@.len(),
{
    let pid = ns[i].id;
    let ghost nv = nodes_view(ns@);
    let mut out: Vec<usize> = Vec::new();
    let mut j: usize = 0;
    while j < ns.len()
        invariant
            i < ns@.len(),
            j <= ns@.len(),
            pid == ns@[i as int].id,
            nv == nodes_view(ns@),
            forall|t: int| 0 <= t < out@.len() ==> #[trigger] out@[t] < ns@.len(),
            all_children(nv, pid as nat, 0) == out@.map_values(|x: usize| x as int) + all_children(
                nv,
                pid as nat,
                j as int,
            ),
        decreases ns@.len() - j,
    {
        let hit = match ns[j].parent {
            Some(p) => p == pid,
            None => false,
        };
        if hit {
            proof {
                assert(out@.push(j).map_values(|x: usize| x as int) =~= out@.map_values(|x: usize| x as int).push(
                    j as int,
                ));
                assert(out@.map_values(|x: usize| x as int) + all_children(nv, pid as nat, j as int)
                    =~= out@.push(j).map_values(|x: usize| x as int) + all_children(nv, pid as nat, j + 1));
            }
            out.push(j);
        }
        j = j + 1;
    }
    proof {
        assert(out@.map_values(|x: usize| x as int) + all_children(nv, pid as nat, j as int)
            =~= out@.map_values(|x: usize| x as int));
    }
    out
}


} // verus!
