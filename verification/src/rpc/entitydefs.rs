//! Entity definitions: the properties and methods of each entity type, as
//! the game's `.def` scripts declare them.
use vstd::prelude::*;

use crate::error::ErrorKind;
use crate::rpc::typedefs::{
    aliases_view, lemma_sort_size_nonneg, parse_type, sort_size_fits, spec_parse_type, spec_sort_size, trimmed_text,
    ArgType, TypeAliases, TypeV,
};
use crate::rpc::xml::{
    all_children, child_from, children_all, children_elements, element_children, find_child, nodes_view, parse_xml,
    trimmed, xml_parse, XmlNode, XmlNodeV,
};
use crate::version::{parse_usize, spec_parse_usize, DataFileLoader};
use crate::rpc::typedefs::parse_aliases;
use crate::sort::{keys_sorted, lemma_sort_all, lemma_sort_map, lemma_sort_sorted, map_second, sort_by_key, sort_keyed};
use crate::text::str_eq;

verus! {

/// Which parts of the game a property is sent to.
#[derive(Clone, Copy, Debug, PartialEq, Eq, Structural)]
pub enum Flags {
    AllClients,
    CellPublicAndOwn,
    OwnClient,
    BaseAndClient,
    Base,
    CellPrivate,
    CellPublic,
    OtherClients,
}

/// The flag that a `<Flags>` text names, if it is one of those recognised.
pub open spec fn spec_flag_named(s: Seq<char>) -> Option<Flags> {
    if s == "ALL_CLIENTS"@ {
        Some(Flags::AllClients)
    } else if s == "CELL_PUBLIC_AND_OWN"@ {
        Some(Flags::CellPublicAndOwn)
    } else if s == "OWN_CLIENT"@ {
        Some(Flags::OwnClient)
    } else if s == "BASE_AND_CLIENT"@ {
        Some(Flags::BaseAndClient)
    } else if s == "BASE"@ {
        Some(Flags::Base)
    } else if s == "CELL_PRIVATE"@ {
        Some(Flags::CellPrivate)
    } else if s == "CELL_PUBLIC"@ {
        Some(Flags::CellPublic)
    } else {
        None
    }
}

impl Flags {
    /// The flag named by `s`, or `None` when `s` names none of them.
    pub fn parse(s: &str) -> (r: Option<Flags>)
        ensures
            r == spec_flag_named(s@),
    {
        if str_eq(s, "ALL_CLIENTS") {
            Some(Flags::AllClients)
        } else if str_eq(s, "CELL_PUBLIC_AND_OWN") {
            Some(Flags::CellPublicAndOwn)
        } else if str_eq(s, "OWN_CLIENT") {
            Some(Flags::OwnClient)
        } else if str_eq(s, "BASE_AND_CLIENT") {
            Some(Flags::BaseAndClient)
        } else if str_eq(s, "BASE") {
            Some(Flags::Base)
        } else if str_eq(s, "CELL_PRIVATE") {
            Some(Flags::CellPrivate)
        } else if str_eq(s, "CELL_PUBLIC") {
            Some(Flags::CellPublic)
        } else {
            None
        }
    }

    /// The flag named by `s`.
    pub fn from_str(s: &str) -> (r: Flags)
        requires
            spec_flag_named(s@) is Some,
        ensures
            r == spec_flag_named(s@)->0,
    {
        match Flags::parse(s) {
            Some(f) => f,
            None => {
                proof {
                    assert(false);
                }
                Flags::AllClients
            },
        }
    }
}

/// A property of an entity type.
#[derive(Debug)]
pub struct Property {
    pub name: String,
    pub prop_type: ArgType,
    pub flags: Flags,
}

impl Clone for Property {
    fn clone(&self) -> (r: Self)
        ensures
            r.name@ == self.name@,
            r.prop_type@ == self.prop_type@,
            r.flags == self.flags,
    {
        Property { name: self.name.clone(), prop_type: self.prop_type.clone(), flags: self.flags }
    }
}

/// A remote method of an entity type.
#[derive(Debug)]
pub struct Method {
    pub name: String,
    pub variable_length_header_size: usize,
    pub args: Vec<ArgType>,
}

/// The sort sizes of the first `i` arguments, added up.
pub open spec fn args_size(args: Seq<ArgType>, i: int) -> int
    decreases i,
{
    if i <= 0 {
        0
    } else {
        args_size(args, i - 1) + spec_sort_size(args[i - 1]@)
    }
}

/// The key by which a method is ordered: its arguments' sizes added up,
/// capped at `0xffff`, plus the size of its length header.
pub open spec fn spec_method_sort_size(m: Method) -> int {
    let size = args_size(m.args@, m.args@.len() as int);
    if size >= 0xffff {
        0xffff + m.variable_length_header_size
    } else {
        size + m.variable_length_header_size
    }
}

/// Every step of [`spec_method_sort_size`] fits in a `usize`.
pub open spec fn method_sort_size_fits(m: Method) -> bool {
    &&& forall|i: int| 0 <= i < m.args@.len() ==> sort_size_fits(#[trigger] m.args@[i]@)
    &&& args_size(m.args@, m.args@.len() as int) <= usize::MAX
    &&& spec_method_sort_size(m) <= usize::MAX
}

proof fn lemma_args_size_mono(args: Seq<ArgType>, i: int, j: int)
    requires
        0 <= i <= j <= args.len(),
    ensures
        args_size(args, i) <= args_size(args, j),
        args_size(args, i) >= 0,
    decreases j - i,
{
    if i < j {
        lemma_args_size_mono(args, i, j - 1);
        lemma_sort_size_nonneg(args[j - 1]@);
    } else {
        lemma_args_size_nonneg(args, i);
    }
}

proof fn lemma_args_size_nonneg(args: Seq<ArgType>, i: int)
    ensures
        args_size(args, i) >= 0,
    decreases i,
{
    if i > 0 {
        lemma_args_size_nonneg(args, i - 1);
        lemma_sort_size_nonneg(args[i - 1]@);
    }
}

impl Method {
    /// The key by which the client methods of an entity are ordered, or
    /// `None` when computing it would overflow a `usize`.
    pub fn checked_sort_size(&self) -> (r: Option<usize>)
        ensures
            r is Some <==> method_sort_size_fits(*self),
            r matches Some(v) ==> v == spec_method_sort_size(*self),
    {
        let mut size: usize = 0;
        let mut k: usize = 0;
        while k < self.args.len()
            invariant
                k <= self.args@.len(),
                size == args_size(self.args@, k as int),
                forall|i: int| 0 <= i < k ==> sort_size_fits(#[trigger] self.args@[i]@),
            decreases self.args@.len() - k,
        {
            let s = match self.args[k].checked_sort_size() {
                Some(s) => s,
                None => return None,
            };
            size = match size.checked_add(s) {
                Some(v) => v,
                None => {
                    proof {
                        lemma_args_size_mono(self.args@, k + 1, self.args@.len() as int);
                    }
                    return None;
                },
            };
            k = k + 1;
        }
        if size >= 0xffff {
            0xffffusize.checked_add(self.variable_length_header_size)
        } else {
            size.checked_add(self.variable_length_header_size)
        }
    }

    /// The key by which the client methods of an entity are ordered.
    pub fn sort_size(&self) -> (r: usize)
        requires
            method_sort_size_fits(*self),
        ensures
            r == spec_method_sort_size(*self),
    {
        match self.checked_sort_size() {
            Some(v) => v,
            None => {
                proof {
                    assert(false);
                }
                0
            },
        }
    }
}

/// The definition of one entity type, with its interfaces' members merged
/// in.
pub struct EntitySpec {
    pub name: String,
    pub base_methods: Vec<Method>,
    pub cell_methods: Vec<Method>,
    /// Ordered by sort size.
    pub client_methods: Vec<Method>,
    /// The client-visible properties, ordered by sort size.
    pub properties: Vec<Property>,
    /// The properties sent when a player's cell entity is created.
    pub internal_properties: Vec<Property>,
    pub base_properties: Vec<Property>,
}


/// The mathematical value of a [`Method`].
pub struct MethodV {
    pub name: Seq<char>,
    pub header: usize,
    pub args: Seq<TypeV>,
}

pub open spec fn args_view(a: Seq<ArgType>) -> Seq<TypeV> {
    Seq::new(a.len(), |i: int| a[i]@)
}

pub open spec fn method_view(m: Method) -> MethodV {
    MethodV { name: m.name@, header: m.variable_length_header_size, args: args_view(m.args@) }
}

pub open spec fn methods_view(ms: Seq<Method>) -> Seq<MethodV> {
    Seq::new(ms.len(), |i: int| method_view(ms[i]))
}

/// The mathematical value of a [`Property`].
pub struct PropertyV {
    pub name: Seq<char>,
    pub ty: TypeV,
    pub flags: Flags,
}

pub open spec fn property_view(p: Property) -> PropertyV {
    PropertyV { name: p.name@, ty: p.prop_type@, flags: p.flags }
}

pub open spec fn properties_view(ps: Seq<Property>) -> Seq<PropertyV> {
    Seq::new(ps.len(), |i: int| property_view(ps[i]))
}

/// The types of the nodes `cs`, each as [`spec_parse_type`] reads it.
pub open spec fn spec_type_list(ns: Seq<XmlNodeV>, cs: Seq<int>, al: Seq<(Seq<char>, TypeV)>) -> Option<Seq<TypeV>>
    decreases cs.len(),
{
    if cs.len() == 0 {
        Some(Seq::empty())
    } else {
        match (spec_type_list(ns, cs.drop_last(), al), spec_parse_type(ns, cs.last(), al)) {
            (Some(ts), Some(t)) => Some(ts.push(t)),
            _ => None,
        }
    }
}

/// The arguments of a method, from its children `cs`: a child `Arg` is one
/// argument; the element children of a child `Args` are one argument each;
/// other children are skipped.
pub open spec fn spec_method_args(ns: Seq<XmlNodeV>, cs: Seq<int>, al: Seq<(Seq<char>, TypeV)>) -> Option<Seq<TypeV>>
    decreases cs.len(),
{
    if cs.len() == 0 {
        Some(Seq::empty())
    } else {
        match spec_method_args(ns, cs.drop_last(), al) {
            None => None,
            Some(ts) => {
                let c = cs.last();
                if ns[c].name == "Arg"@ {
                    match spec_parse_type(ns, c, al) {
                        Some(t) => Some(ts.push(t)),
                        None => None,
                    }
                } else if ns[c].name == "Args"@ {
                    match spec_type_list(ns, element_children(ns, ns[c].id, 0), al) {
                        Some(more) => Some(ts + more),
                        None => None,
                    }
                } else {
                    Some(ts)
                }
            },
        }
    }
}

/// The size of a method's length header: the number in the first child of
/// its child `VariableLengthHeaderSize`, 1 when that is not a number, and 1
/// when there is no such child.
pub open spec fn spec_header_size(ns: Seq<XmlNodeV>, m: int) -> Option<usize> {
    match child_from(ns, ns[m].id, Some("VariableLengthHeaderSize"@), 0) {
        None => Some(1),
        Some(x) => match child_from(ns, ns[x].id, None, 0) {
            None => None,
            Some(f) => match trimmed_text(ns, f) {
                None => None,
                Some(t) => match spec_parse_usize(t) {
                    Some(n) => Some(n),
                    None => Some(1),
                },
            },
        },
    }
}

/// The method that element `ns[m]` declares, named by its tag.
pub open spec fn spec_parse_method(ns: Seq<XmlNodeV>, m: int, al: Seq<(Seq<char>, TypeV)>) -> Option<MethodV> {
    match (spec_method_args(ns, all_children(ns, ns[m].id, 0), al), spec_header_size(ns, m)) {
        (Some(args), Some(h)) => Some(MethodV { name: ns[m].name, header: h, args }),
        _ => None,
    }
}

/// The methods that the nodes `cs` declare.
pub open spec fn spec_method_list(ns: Seq<XmlNodeV>, cs: Seq<int>, al: Seq<(Seq<char>, TypeV)>) -> Option<Seq<MethodV>>
    decreases cs.len(),
{
    if cs.len() == 0 {
        Some(Seq::empty())
    } else {
        match (spec_method_list(ns, cs.drop_last(), al), spec_parse_method(ns, cs.last(), al)) {
            (Some(ms), Some(m)) => Some(ms.push(m)),
            _ => None,
        }
    }
}

/// The property that element `ns[p]` declares: named by its tag, with the
/// type of its child `Type` and the flag its child `Flags` names.
pub open spec fn spec_parse_property(ns: Seq<XmlNodeV>, p: int, al: Seq<(Seq<char>, TypeV)>) -> Option<PropertyV> {
    match (child_from(ns, ns[p].id, Some("Type"@), 0), child_from(ns, ns[p].id, Some("Flags"@), 0)) {
        (Some(t), Some(f)) => match (spec_parse_type(ns, t, al), trimmed_text(ns, f)) {
            (Some(ty), Some(fl)) => match spec_flag_named(fl) {
                Some(flags) => Some(PropertyV { name: ns[p].name, ty, flags }),
                None => None,
            },
            _ => None,
        },
        _ => None,
    }
}

/// The properties that the nodes `cs` declare.
pub open spec fn spec_property_list(ns: Seq<XmlNodeV>, cs: Seq<int>, al: Seq<(Seq<char>, TypeV)>) -> Option<
    Seq<PropertyV>,
>
    decreases cs.len(),
{
    if cs.len() == 0 {
        Some(Seq::empty())
    } else {
        match (spec_property_list(ns, cs.drop_last(), al), spec_parse_property(ns, cs.last(), al)) {
            (Some(ps), Some(p)) => Some(ps.push(p)),
            _ => None,
        }
    }
}

/// The interface names that the nodes `cs` hold as text.
pub open spec fn spec_implements(ns: Seq<XmlNodeV>, cs: Seq<int>) -> Option<Seq<Seq<char>>>
    decreases cs.len(),
{
    if cs.len() == 0 {
        Some(Seq::empty())
    } else {
        match (spec_implements(ns, cs.drop_last()), ns[cs.last()].text) {
            (Some(is), Some(t)) => Some(is.push(t)),
            _ => None,
        }
    }
}

fn type_list(ns: &Vec<XmlNode>, cs: &Vec<usize>, aliases: &TypeAliases) -> (r: Result<Vec<ArgType>, ErrorKind>)
    requires
        forall|t: int| 0 <= t < cs@.len() ==> #[trigger] cs@[t] < ns@.len(),
    ensures
        match r {
            Ok(ts) => spec_type_list(nodes_view(ns@), cs@.map_values(|j: usize| j as int), aliases_view(aliases@))
                == Some(args_view(ts@)),
            Err(_) => spec_type_list(nodes_view(ns@), cs@.map_values(|j: usize| j as int), aliases_view(aliases@))
                is None,
        },
{
    let ghost nv = nodes_view(ns@);
    let ghost av = aliases_view(aliases@);
    let ghost cv = cs@.map_values(|j: usize| j as int);
    let mut out: Vec<ArgType> = Vec::new();
    let mut k: usize = 0;
    proof {
        assert(cv.subrange(0, 0) =~= Seq::<int>::empty());
        assert(args_view(out@) =~= Seq::<TypeV>::empty());
    }
    while k < cs.len()
        invariant
            k <= cs@.len(),
            nv == nodes_view(ns@),
            av == aliases_view(aliases@),
            cv == cs@.map_values(|j: usize| j as int),
            forall|t: int| 0 <= t < cs@.len() ==> #[trigger] cs@[t] < ns@.len(),
            spec_type_list(nv, cv.subrange(0, k as int), av) == Some(args_view(out@)),
        decreases cs@.len() - k,
    {
        proof {
            assert(cv.subrange(0, k + 1).drop_last() =~= cv.subrange(0, k as int));
            assert(cv.subrange(0, k + 1).last() == cs@[k as int] as int);
        }
        match parse_type(ns, cs[k], aliases) {
            Ok(t) => {
                proof {
                    assert(args_view(out@.push(t)) =~= args_view(out@).push(t@));
                }
                out.push(t);
            },
            Err(e) => {
                proof {
                    lemma_type_list_fail(nv, cv, k as int + 1, av);
                }
                return Err(e);
            },
        }
        k = k + 1;
    }
    proof {
        assert(cv.subrange(0, cs@.len() as int) =~= cv);
    }
    Ok(out)
}

proof fn lemma_type_list_fail(ns: Seq<XmlNodeV>, cs: Seq<int>, k: int, al: Seq<(Seq<char>, TypeV)>)
    requires
        1 <= k <= cs.len(),
        spec_type_list(ns, cs.subrange(0, k), al) is None,
    ensures
        spec_type_list(ns, cs, al) is None,
    decreases cs.len() - k,
{
    if k < cs.len() {
        assert(cs.subrange(0, k + 1).drop_last() =~= cs.subrange(0, k));
        lemma_type_list_fail(ns, cs, k + 1, al);
    } else {
        assert(cs.subrange(0, k) =~= cs);
    }
}



proof fn lemma_method_args_fail(ns: Seq<XmlNodeV>, cs: Seq<int>, k: int, al: Seq<(Seq<char>, TypeV)>)
    requires
        1 <= k <= cs.len(),
        spec_method_args(ns, cs.subrange(0, k), al) is None,
    ensures
        spec_method_args(ns, cs, al) is None,
    decreases cs.len() - k,
{
    if k < cs.len() {
        assert(cs.subrange(0, k + 1).drop_last() =~= cs.subrange(0, k));
        lemma_method_args_fail(ns, cs, k + 1, al);
    } else {
        assert(cs.subrange(0, k) =~= cs);
    }
}

fn method_args(ns: &Vec<XmlNode>, cs: &Vec<usize>, aliases: &TypeAliases) -> (r: Result<Vec<ArgType>, ErrorKind>)
    requires
        forall|t: int| 0 <= t < cs@.len() ==> #[trigger] cs@[t] < ns@.len(),
    ensures
        match r {
            Ok(ts) => spec_method_args(nodes_view(ns@), cs@.map_values(|j: usize| j as int), aliases_view(aliases@))
                == Some(args_view(ts@)),
            Err(_) => spec_method_args(nodes_view(ns@), cs@.map_values(|j: usize| j as int), aliases_view(aliases@))
                is None,
        },
{
    let ghost nv = nodes_view(ns@);
    let ghost av = aliases_view(aliases@);
    let ghost cv = cs@.map_values(|j: usize| j as int);
    let mut out: Vec<ArgType> = Vec::new();
    let mut k: usize = 0;
    proof {
        assert(cv.subrange(0, 0) =~= Seq::<int>::empty());
        assert(args_view(out@) =~= Seq::<TypeV>::empty());
    }
    while k < cs.len()
        invariant
            k <= cs@.len(),
            nv == nodes_view(ns@),
            av == aliases_view(aliases@),
            cv == cs@.map_values(|j: usize| j as int),
            forall|t: int| 0 <= t < cs@.len() ==> #[trigger] cs@[t] < ns@.len(),
            spec_method_args(nv, cv.subrange(0, k as int), av) == Some(args_view(out@)),
        decreases cs@.len() - k,
    {
        let c = cs[k];
        proof {
            assert(cv.subrange(0, k + 1).drop_last() =~= cv.subrange(0, k as int));
            assert(cv.subrange(0, k + 1).last() == c as int);
            assert(nv[c as int].name == ns@[c as int].name@);
        }
        if crate::text::str_eq(ns[c].name.as_str(), "Arg") {
            match parse_type(ns, c, aliases) {
                Ok(t) => {
                    proof {
                        assert(args_view(out@.push(t)) =~= args_view(out@).push(t@));
                    }
                    out.push(t);
                },
                Err(e) => {
                    proof {
                        lemma_method_args_fail(nv, cv, k as int + 1, av);
                    }
                    return Err(e);
                },
            }
        } else if crate::text::str_eq(ns[c].name.as_str(), "Args") {
            let inner = children_elements(ns, c);
            match type_list(ns, &inner, aliases) {
                Ok(mut more) => {
                    let ghost before = out@;
                    let ghost added = more@;
                    out.append(&mut more);
                    proof {
                        assert(out@ =~= before + added);
                        assert(args_view(out@) =~= args_view(before) + args_view(added));
                    }
                },
                Err(e) => {
                    proof {
                        lemma_method_args_fail(nv, cv, k as int + 1, av);
                    }
                    return Err(e);
                },
            }
        }
        k = k + 1;
    }
    proof {
        assert(cv.subrange(0, cs@.len() as int) =~= cv);
    }
    Ok(out)
}



fn def_error() -> (r: ErrorKind)
    ensures
        r matches ErrorKind::ParsingFailure(m) && m@ == "malformed entity definition"@,
{
    ErrorKind::ParsingFailure("malformed entity definition".to_owned())
}

fn header_size(ns: &Vec<XmlNode>, m: usize) -> (r: Option<usize>)
    requires
        m < ns@.len(),
    ensures
        r == spec_header_size(nodes_view(ns@), m as int),
{
    match find_child(ns, m, Some("VariableLengthHeaderSize"), 0) {
        None => Some(1),
        Some(x) => match find_child(ns, x, None, 0) {
            None => None,
            Some(f) => match &ns[f].text {
                None => None,
                Some(t) => match parse_usize(trimmed(t.as_str()).as_str()) {
                    Some(n) => Some(n),
                    None => Some(1),
                },
            },
        },
    }
}

/// The method that element `ns[m]` declares, as [`spec_parse_method`] says.
fn parse_method(ns: &Vec<XmlNode>, m: usize, aliases: &TypeAliases) -> (r: Result<Method, ErrorKind>)
    requires
        m < ns@.len(),
    ensures
        match r {
            Ok(me) => spec_parse_method(nodes_view(ns@), m as int, aliases_view(aliases@)) == Some(method_view(me)),
            Err(_) => spec_parse_method(nodes_view(ns@), m as int, aliases_view(aliases@)) is None,
        },
{
    let cs = children_all(ns, m);
    let args = match method_args(ns, &cs, aliases) {
        Ok(a) => a,
        Err(e) => return Err(e),
    };
    let header = match header_size(ns, m) {
        Some(h) => h,
        None => return Err(def_error()),
    };
    Ok(Method { name: ns[m].name.clone(), variable_length_header_size: header, args })
}

proof fn lemma_method_list_fail(ns: Seq<XmlNodeV>, cs: Seq<int>, k: int, al: Seq<(Seq<char>, TypeV)>)
    requires
        1 <= k <= cs.len(),
        spec_method_list(ns, cs.subrange(0, k), al) is None,
    ensures
        spec_method_list(ns, cs, al) is None,
    decreases cs.len() - k,
{
    if k < cs.len() {
        assert(cs.subrange(0, k + 1).drop_last() =~= cs.subrange(0, k));
        lemma_method_list_fail(ns, cs, k + 1, al);
    } else {
        assert(cs.subrange(0, k) =~= cs);
    }
}

/// The methods that the element children of node `l` declare.
fn parse_method_list(ns: &Vec<XmlNode>, l: usize, aliases: &TypeAliases) -> (r: Result<Vec<Method>, ErrorKind>)
    requires
        l < ns@.len(),
    ensures
        match r {
            Ok(ms) => spec_method_list(
                nodes_view(ns@),
                element_children(nodes_view(ns@), ns@[l as int].id as nat, 0),
                aliases_view(aliases@),
            ) == Some(methods_view(ms@)),
            Err(_) => spec_method_list(
                nodes_view(ns@),
                element_children(nodes_view(ns@), ns@[l as int].id as nat, 0),
                aliases_view(aliases@),
            ) is None,
        },
{
    let cs = children_elements(ns, l);
    let ghost nv = nodes_view(ns@);
    let ghost av = aliases_view(aliases@);
    let ghost cv = cs@.map_values(|j: usize| j as int);
    let mut out: Vec<Method> = Vec::new();
    let mut k: usize = 0;
    proof {
        assert(cv.subrange(0, 0) =~= Seq::<int>::empty());
        assert(methods_view(out@) =~= Seq::<MethodV>::empty());
    }
    while k < cs.len()
        invariant
            k <= cs@.len(),
            nv == nodes_view(ns@),
            av == aliases_view(aliases@),
            cv == cs@.map_values(|j: usize| j as int),
            l < ns@.len(),
            cv == element_children(nv, ns@[l as int].id as nat, 0),
            forall|t: int| 0 <= t < cs@.len() ==> #[trigger] cs@[t] < ns@.len(),
            spec_method_list(nv, cv.subrange(0, k as int), av) == Some(methods_view(out@)),
        decreases cs@.len() - k,
    {
        proof {
            assert(cv.subrange(0, k + 1).drop_last() =~= cv.subrange(0, k as int));
            assert(cv.subrange(0, k + 1).last() == cs@[k as int] as int);
        }
        match parse_method(ns, cs[k], aliases) {
            Ok(m) => {
                proof {
                    assert(methods_view(out@.push(m)) =~= methods_view(out@).push(method_view(m)));
                }
                out.push(m);
            },
            Err(e) => {
                proof {
                    lemma_method_list_fail(nv, cv, k as int + 1, av);
                }
                return Err(e);
            },
        }
        k = k + 1;
    }
    proof {
        assert(cv.subrange(0, cs@.len() as int) =~= cv);
    }
    Ok(out)
}

/// The property that element `ns[p]` declares, as [`spec_parse_property`]
/// says.
fn parse_property(ns: &Vec<XmlNode>, p: usize, aliases: &TypeAliases) -> (r: Result<Property, ErrorKind>)
    requires
        p < ns@.len(),
    ensures
        match r {
            Ok(pr) => spec_parse_property(nodes_view(ns@), p as int, aliases_view(aliases@)) == Some(
                property_view(pr),
            ),
            Err(_) => spec_parse_property(nodes_view(ns@), p as int, aliases_view(aliases@)) is None,
        },
{
    let t = match find_child(ns, p, Some("Type"), 0) {
        Some(t) => t,
        None => return Err(def_error()),
    };
    let f = match find_child(ns, p, Some("Flags"), 0) {
        Some(f) => f,
        None => return Err(def_error()),
    };
    let prop_type = match parse_type(ns, t, aliases) {
        Ok(ty) => ty,
        Err(e) => return Err(e),
    };
    let fl = match &ns[f].text {
        Some(x) => trimmed(x.as_str()),
        None => return Err(def_error()),
    };
    let flags = match Flags::parse(fl.as_str()) {
        Some(fl) => fl,
        None => return Err(ErrorKind::ParsingFailure("unrecognized property flag".to_owned())),
    };
    Ok(Property { name: ns[p].name.clone(), prop_type, flags })
}

proof fn lemma_property_list_fail(ns: Seq<XmlNodeV>, cs: Seq<int>, k: int, al: Seq<(Seq<char>, TypeV)>)
    requires
        1 <= k <= cs.len(),
        spec_property_list(ns, cs.subrange(0, k), al) is None,
    ensures
        spec_property_list(ns, cs, al) is None,
    decreases cs.len() - k,
{
    if k < cs.len() {
        assert(cs.subrange(0, k + 1).drop_last() =~= cs.subrange(0, k));
        lemma_property_list_fail(ns, cs, k + 1, al);
    } else {
        assert(cs.subrange(0, k) =~= cs);
    }
}

/// The properties that the element children of node `l` declare.
fn parse_properties(ns: &Vec<XmlNode>, l: usize, aliases: &TypeAliases) -> (r: Result<Vec<Property>, ErrorKind>)
    requires
        l < ns@.len(),
    ensures
        match r {
            Ok(ps) => spec_property_list(
                nodes_view(ns@),
                element_children(nodes_view(ns@), ns@[l as int].id as nat, 0),
                aliases_view(aliases@),
            ) == Some(properties_view(ps@)),
            Err(_) => spec_property_list(
                nodes_view(ns@),
                element_children(nodes_view(ns@), ns@[l as int].id as nat, 0),
                aliases_view(aliases@),
            ) is None,
        },
{
    let cs = children_elements(ns, l);
    let ghost nv = nodes_view(ns@);
    let ghost av = aliases_view(aliases@);
    let ghost cv = cs@.map_values(|j: usize| j as int);
    let mut out: Vec<Property> = Vec::new();
    let mut k: usize = 0;
    proof {
        assert(cv.subrange(0, 0) =~= Seq::<int>::empty());
        assert(properties_view(out@) =~= Seq::<PropertyV>::empty());
    }
    while k < cs.len()
        invariant
            k <= cs@.len(),
            nv == nodes_view(ns@),
            av == aliases_view(aliases@),
            cv == cs@.map_values(|j: usize| j as int),
            l < ns@.len(),
            cv == element_children(nv, ns@[l as int].id as nat, 0),
            forall|t: int| 0 <= t < cs@.len() ==> #[trigger] cs@[t] < ns@.len(),
            spec_property_list(nv, cv.subrange(0, k as int), av) == Some(properties_view(out@)),
        decreases cs@.len() - k,
    {
        proof {
            assert(cv.subrange(0, k + 1).drop_last() =~= cv.subrange(0, k as int));
            assert(cv.subrange(0, k + 1).last() == cs@[k as int] as int);
        }
        match parse_property(ns, cs[k], aliases) {
            Ok(pr) => {
                proof {
                    assert(properties_view(out@.push(pr)) =~= properties_view(out@).push(property_view(pr)));
                }
                out.push(pr);
            },
            Err(e) => {
                proof {
                    lemma_property_list_fail(nv, cv, k as int + 1, av);
                }
                return Err(e);
            },
        }
        k = k + 1;
    }
    proof {
        assert(cv.subrange(0, cs@.len() as int) =~= cv);
    }
    Ok(out)
}

proof fn lemma_implements_fail(ns: Seq<XmlNodeV>, cs: Seq<int>, k: int)
    requires
        1 <= k <= cs.len(),
        spec_implements(ns, cs.subrange(0, k)) is None,
    ensures
        spec_implements(ns, cs) is None,
    decreases cs.len() - k,
{
    if k < cs.len() {
        assert(cs.subrange(0, k + 1).drop_last() =~= cs.subrange(0, k));
        lemma_implements_fail(ns, cs, k + 1);
    } else {
        assert(cs.subrange(0, k) =~= cs);
    }
}

pub open spec fn strings_view(ss: Seq<String>) -> Seq<Seq<char>> {
    Seq::new(ss.len(), |i: int| ss[i]@)
}

/// The interface names that the element children of node `l` hold.
fn parse_implements(ns: &Vec<XmlNode>, l: usize) -> (r: Result<Vec<String>, ErrorKind>)
    requires
        l < ns@.len(),
    ensures
        match r {
            Ok(is) => spec_implements(nodes_view(ns@), element_children(nodes_view(ns@), ns@[l as int].id as nat, 0))
                == Some(strings_view(is@)),
            Err(_) => spec_implements(nodes_view(ns@), element_children(nodes_view(ns@), ns@[l as int].id as nat, 0))
                is None,
        },
{
    let cs = children_elements(ns, l);
    let ghost nv = nodes_view(ns@);
    let ghost cv = cs@.map_values(|j: usize| j as int);
    let mut out: Vec<String> = Vec::new();
    let mut k: usize = 0;
    proof {
        assert(cv.subrange(0, 0) =~= Seq::<int>::empty());
        assert(strings_view(out@) =~= Seq::<Seq<char>>::empty());
    }
    while k < cs.len()
        invariant
            k <= cs@.len(),
            nv == nodes_view(ns@),
            cv == cs@.map_values(|j: usize| j as int),
            l < ns@.len(),
            cv == element_children(nv, ns@[l as int].id as nat, 0),
            forall|t: int| 0 <= t < cs@.len() ==> #[trigger] cs@[t] < ns@.len(),
            spec_implements(nv, cv.subrange(0, k as int)) == Some(strings_view(out@)),
        decreases cs@.len() - k,
    {
        let c = cs[k];
        proof {
            assert(cv.subrange(0, k + 1).drop_last() =~= cv.subrange(0, k as int));
            assert(cv.subrange(0, k + 1).last() == c as int);
        }
        match &ns[c].text {
            Some(t) => {
                let t = t.clone();
                proof {
                    assert(strings_view(out@.push(t)) =~= strings_view(out@).push(t@));
                }
                out.push(t);
            },
            None => {
                proof {
                    lemma_implements_fail(nv, cv, k as int + 1);
                }
                return Err(def_error());
            },
        }
        k = k + 1;
    }
    proof {
        assert(cv.subrange(0, cs@.len() as int) =~= cv);
    }
    Ok(out)
}



/// The sort sizes of the first `i` argument types, added up.
pub open spec fn args_size_v(args: Seq<TypeV>, i: int) -> int
    decreases i,
{
    if i <= 0 {
        0
    } else {
        args_size_v(args, i - 1) + spec_sort_size(args[i - 1])
    }
}

/// The key by which a method is ordered, as [`spec_method_sort_size`] says.
pub open spec fn method_key(m: MethodV) -> int {
    let size = args_size_v(m.args, m.args.len() as int);
    if size >= 0xffff {
        0xffff + m.header
    } else {
        size + m.header
    }
}

/// Every step of [`method_key`] fits in a `usize`.
pub open spec fn method_key_fits(m: MethodV) -> bool {
    &&& forall|i: int| 0 <= i < m.args.len() ==> sort_size_fits(#[trigger] m.args[i])
    &&& args_size_v(m.args, m.args.len() as int) <= usize::MAX
    &&& method_key(m) <= usize::MAX
}

proof fn lemma_args_size_view(args: Seq<ArgType>, i: int)
    requires
        0 <= i <= args.len(),
    ensures
        args_size(args, i) == args_size_v(args_view(args), i),
    decreases i,
{
    if i > 0 {
        lemma_args_size_view(args, i - 1);
    }
}

proof fn lemma_method_key_view(m: Method)
    ensures
        spec_method_sort_size(m) == method_key(method_view(m)),
        method_sort_size_fits(m) == method_key_fits(method_view(m)),
{
    lemma_args_size_view(m.args@, m.args@.len() as int);
    assert(method_view(m).args.len() == m.args@.len());
    if method_key_fits(method_view(m)) {
        assert forall|i: int| 0 <= i < m.args@.len() implies sort_size_fits(#[trigger] m.args@[i]@) by {
            assert(method_view(m).args[i] == m.args@[i]@);
        }
    }
    if method_sort_size_fits(m) {
        assert forall|i: int| 0 <= i < method_view(m).args.len() implies sort_size_fits(
            #[trigger] method_view(m).args[i],
        ) by {
            assert(method_view(m).args[i] == m.args@[i]@);
        }
    }
}

/// Methods ordered by [`method_key`], methods with equal keys keeping
/// their order.
pub open spec fn sort_methods_v(ms: Seq<MethodV>) -> Seq<MethodV> {
    let sorted = sort_by_key(Seq::new(ms.len(), |i: int| (method_key(ms[i]) as usize, ms[i])));
    Seq::new(sorted.len(), |i: int| sorted[i].1)
}

/// Orders methods as [`sort_methods_v`] says; fails when a key overflows.
pub fn sort_methods(ms: Vec<Method>) -> (r: Result<Vec<Method>, ErrorKind>)
    ensures
        match r {
            Ok(out) => (forall|i: int| 0 <= i < ms@.len() ==> method_key_fits(#[trigger] method_view(ms@[i])))
                && methods_view(out@) == sort_methods_v(methods_view(ms@)),
            Err(_) => exists|i: int| 0 <= i < ms@.len() && !method_key_fits(#[trigger] method_view(ms@[i])),
        },
{
    let ghost orig = ms@;
    let mut rest = ms;
    let mut keyed: Vec<(usize, Method)> = Vec::new();
    let n = rest.len();
    let mut k: usize = 0;
    while rest.len() > 0
        invariant
            k + rest@.len() == n,
            n == orig.len(),
            rest@ == orig.subrange(k as int, n as int),
            orig == ms@,
            keyed@.len() == k,
            forall|i: int| 0 <= i < k ==> method_key_fits(#[trigger] method_view(orig[i])),
            forall|i: int| 0 <= i < k ==> #[trigger] keyed@[i] == (method_key(method_view(orig[i])) as usize, orig[i]),
        decreases rest@.len(),
    {
        let m = rest.remove(0);
        proof {
            assert(m == orig[k as int]);
            assert(rest@ =~= orig.subrange(k + 1, n as int));
            lemma_method_key_view(m);
        }
        match m.checked_sort_size() {
            Some(key) => {
                keyed.push((key, m));
            },
            None => {
                proof {
                    assert(!method_key_fits(method_view(orig[k as int])));
                }
                return Err(ErrorKind::ParsingFailure("method sort size overflows".to_owned()));
            },
        }
        k = k + 1;
    }
    let sorted = sort_keyed(keyed);
    let ghost sv = sorted@;
    let mut out: Vec<Method> = Vec::new();
    let mut sorted = sorted;
    let total = sorted.len();
    let mut j: usize = 0;
    while sorted.len() > 0
        invariant
            j + sorted@.len() == total,
            total == sv.len(),
            sorted@ == sv.subrange(j as int, total as int),
            out@.len() == j,
            forall|i: int| 0 <= i < j ==> #[trigger] out@[i] == sv[i].1,
        decreases sorted@.len(),
    {
        let (_, m) = sorted.remove(0);
        proof {
            assert(sorted@ =~= sv.subrange(j + 1, total as int));
        }
        out.push(m);
        j = j + 1;
    }
    proof {
        let mv = methods_view(orig);
        let f = |m: Method| method_view(m);
        let keyed_exec = Seq::new(n as nat, |i: int| (method_key(method_view(orig[i])) as usize, orig[i]));
        assert(keyed@ =~= keyed_exec);
        assert(map_second(keyed_exec, f) =~= Seq::new(mv.len(), |i: int| (method_key(mv[i]) as usize, mv[i])));
        lemma_sort_map(keyed_exec, f);
        assert(methods_view(out@) =~= sort_methods_v(mv));
    }
    Ok(out)
}



/// The members one definition file declares.
pub struct DefFile {
    pub base_methods: Vec<Method>,
    pub cell_methods: Vec<Method>,
    /// Ordered by sort size.
    pub client_methods: Vec<Method>,
    pub properties: Vec<Property>,
    /// The interfaces it implements.
    pub implements: Vec<String>,
}

/// The mathematical value of a [`DefFile`].
pub struct DefV {
    pub base: Seq<MethodV>,
    pub cell: Seq<MethodV>,
    pub client: Seq<MethodV>,
    pub props: Seq<PropertyV>,
    pub implements: Seq<Seq<char>>,
}

pub open spec fn def_view(d: DefFile) -> DefV {
    DefV {
        base: methods_view(d.base_methods@),
        cell: methods_view(d.cell_methods@),
        client: methods_view(d.client_methods@),
        props: properties_view(d.properties@),
        implements: strings_view(d.implements@),
    }
}

/// Whether the key of every method fits in a `usize`.
pub open spec fn all_keys_fit(ms: Seq<MethodV>) -> bool {
    forall|i: int| 0 <= i < ms.len() ==> #[trigger] method_key_fits(ms[i])
}

/// The methods of the optional section `name` of node `r`.
pub open spec fn section_methods(ns: Seq<XmlNodeV>, r: int, name: Seq<char>, al: Seq<(Seq<char>, TypeV)>) -> Option<
    Seq<MethodV>,
> {
    match child_from(ns, ns[r].id, Some(name), 0) {
        None => Some(Seq::empty()),
        Some(n) => spec_method_list(ns, element_children(ns, ns[n].id, 0), al),
    }
}

/// The members that a definition file declares: UTF-8 text of an XML
/// document with a `root` element whose optional sections `BaseMethods`,
/// `CellMethods`, `ClientMethods`, `Properties` and `Implements` list them;
/// the client methods come ordered by sort size.
pub open spec fn spec_parse_def(def: Seq<u8>, al: Seq<(Seq<char>, TypeV)>) -> Option<DefV> {
    if !vstd::utf8::valid_utf8(def) {
        None
    } else {
        match xml_parse(vstd::utf8::decode_utf8(def)) {
            None => None,
            Some(ns) => if ns.len() == 0 {
                None
            } else {
                match child_from(ns, ns[0].id, Some("root"@), 0) {
                    None => None,
                    Some(r) => {
                        let props = match child_from(ns, ns[r].id, Some("Properties"@), 0) {
                            None => Some(Seq::empty()),
                            Some(n) => spec_property_list(ns, element_children(ns, ns[n].id, 0), al),
                        };
                        let imps = match child_from(ns, ns[r].id, Some("Implements"@), 0) {
                            None => Some(Seq::empty()),
                            Some(n) => spec_implements(ns, element_children(ns, ns[n].id, 0)),
                        };
                        match (
                            section_methods(ns, r, "BaseMethods"@, al),
                            section_methods(ns, r, "CellMethods"@, al),
                            section_methods(ns, r, "ClientMethods"@, al),
                            props,
                            imps,
                        ) {
                            (Some(b), Some(c), Some(cl), Some(p), Some(im)) => if all_keys_fit(cl) {
                                Some(DefV { base: b, cell: c, client: sort_methods_v(cl), props: p, implements: im })
                            } else {
                                None
                            },
                            _ => None,
                        }
                    },
                }
            },
        }
    }
}

fn methods_section(ns: &Vec<XmlNode>, r: usize, name: &str, aliases: &TypeAliases) -> (res: Result<
    Vec<Method>,
    ErrorKind,
>)
    requires
        r < ns@.len(),
    ensures
        match res {
            Ok(ms) => section_methods(nodes_view(ns@), r as int, name@, aliases_view(aliases@)) == Some(
                methods_view(ms@),
            ),
            Err(_) => section_methods(nodes_view(ns@), r as int, name@, aliases_view(aliases@)) is None,
        },
{
    match find_child(ns, r, Some(name), 0) {
        None => {
            let v: Vec<Method> = Vec::new();
            proof {
                assert(methods_view(v@) =~= Seq::<MethodV>::empty());
            }
            Ok(v)
        },
        Some(n) => {
            proof {
                assert(nodes_view(ns@)[n as int].id == ns@[n as int].id as nat);
            }
            parse_method_list(ns, n, aliases)
        },
    }
}

/// Reads a definition file, as [`spec_parse_def`] says.
pub fn parse_def(def: &[u8], aliases: &TypeAliases) -> (r: Result<DefFile, ErrorKind>)
    ensures
        match r {
            Ok(d) => spec_parse_def(def@, aliases_view(aliases@)) == Some(def_view(d)),
            Err(_) => spec_parse_def(def@, aliases_view(aliases@)) is None,
        },
{
    let text = match crate::packet2::utf8_string(def) {
        Some(t) => t,
        None => return Err(ErrorKind::Utf8Error),
    };
    let ns = match parse_xml(text.as_str()) {
        Some(ns) => ns,
        None => return Err(ErrorKind::ParsingFailure("malformed XML".to_owned())),
    };
    if ns.len() == 0 {
        return Err(def_error());
    }
    let ghost nv = nodes_view(ns@);
    proof {
        assert(nv[0].id == ns@[0].id as nat);
    }
    let root = match find_child(&ns, 0, Some("root"), 0) {
        Some(r) => r,
        None => return Err(def_error()),
    };
    proof {
        assert(nv[root as int].id == ns@[root as int].id as nat);
    }
    let base_methods = match methods_section(&ns, root, "BaseMethods", aliases) {
        Ok(m) => m,
        Err(e) => return Err(e),
    };
    let cell_methods = match methods_section(&ns, root, "CellMethods", aliases) {
        Ok(m) => m,
        Err(e) => return Err(e),
    };
    let client = match methods_section(&ns, root, "ClientMethods", aliases) {
        Ok(m) => m,
        Err(e) => return Err(e),
    };
    let properties = match find_child(&ns, root, Some("Properties"), 0) {
        None => {
            let v: Vec<Property> = Vec::new();
            proof {
                assert(properties_view(v@) =~= Seq::<PropertyV>::empty());
            }
            v
        },
        Some(n) => {
            proof {
                assert(nv[n as int].id == ns@[n as int].id as nat);
            }
            match parse_properties(&ns, n, aliases) {
                Ok(p) => p,
                Err(e) => return Err(e),
            }
        },
    };
    let implements = match find_child(&ns, root, Some("Implements"), 0) {
        None => {
            let v: Vec<String> = Vec::new();
            proof {
                assert(strings_view(v@) =~= Seq::<Seq<char>>::empty());
            }
            v
        },
        Some(n) => {
            proof {
                assert(nv[n as int].id == ns@[n as int].id as nat);
            }
            match parse_implements(&ns, n) {
                Ok(i) => i,
                Err(e) => return Err(e),
            }
        },
    };
    let ghost cv = client@;
    let ghost cl = methods_view(client@);
    let client_methods = match sort_methods(client) {
        Ok(c) => c,
        Err(e) => {
            proof {
                let i = choose|i: int| 0 <= i < cv.len() && !method_key_fits(#[trigger] method_view(cv[i]));
                assert(cl[i] == method_view(cv[i]));
                assert(!method_key_fits(cl[i]));
                assert(!all_keys_fit(cl));
            }
            return Err(e);
        },
    };
    proof {
        assert forall|i: int| 0 <= i < cl.len() implies #[trigger] method_key_fits(cl[i]) by {
            assert(cl[i] == method_view(cv[i]));
        }
    }
    Ok(DefFile { base_methods, cell_methods, client_methods, properties, implements })
}



/// The mathematical value of an [`EntitySpec`].
pub struct EntitySpecV {
    pub name: Seq<char>,
    pub base: Seq<MethodV>,
    pub cell: Seq<MethodV>,
    pub client: Seq<MethodV>,
    pub props: Seq<PropertyV>,
    pub internal: Seq<PropertyV>,
    pub base_props: Seq<PropertyV>,
}

pub open spec fn entity_view(e: EntitySpec) -> EntitySpecV {
    EntitySpecV {
        name: e.name@,
        base: methods_view(e.base_methods@),
        cell: methods_view(e.cell_methods@),
        client: methods_view(e.client_methods@),
        props: properties_view(e.properties@),
        internal: properties_view(e.internal_properties@),
        base_props: properties_view(e.base_properties@),
    }
}

/// The flags of the properties sent when a player's cell entity is
/// created.
pub open spec fn is_internal_flag(f: Flags) -> bool {
    f == Flags::AllClients || f == Flags::OtherClients || f == Flags::OwnClient || f == Flags::CellPublicAndOwn
}

/// The flags of the properties that clients see.
pub open spec fn is_client_flag(f: Flags) -> bool {
    is_internal_flag(f) || f == Flags::BaseAndClient
}

/// The properties of `ps` whose flag `keep` selects, in order.
pub open spec fn props_where(ps: Seq<PropertyV>, keep: spec_fn(Flags) -> bool) -> Seq<PropertyV>
    decreases ps.len(),
{
    if ps.len() == 0 {
        Seq::empty()
    } else if keep(ps.last().flags) {
        props_where(ps.drop_last(), keep).push(ps.last())
    } else {
        props_where(ps.drop_last(), keep)
    }
}

/// Properties ordered by the sort size of their type, properties with equal
/// sizes keeping their order.
pub open spec fn sort_props_v(ps: Seq<PropertyV>) -> Seq<PropertyV> {
    let sorted = sort_by_key(Seq::new(ps.len(), |i: int| (spec_sort_size(ps[i].ty) as usize, ps[i])));
    Seq::new(sorted.len(), |i: int| sorted[i].1)
}

/// Whether the sort size of every property's type fits in a `usize`.
pub open spec fn all_prop_keys_fit(ps: Seq<PropertyV>) -> bool {
    forall|i: int| 0 <= i < ps.len() ==> #[trigger] sort_size_fits(ps[i].ty)
}

/// The members of a list of definitions, one kind of member after the
/// other, in order.
pub open spec fn all_base(ds: Seq<DefV>) -> Seq<MethodV>
    decreases ds.len(),
{
    if ds.len() == 0 {
        Seq::empty()
    } else {
        all_base(ds.drop_last()) + ds.last().base
    }
}

pub open spec fn all_cell(ds: Seq<DefV>) -> Seq<MethodV>
    decreases ds.len(),
{
    if ds.len() == 0 {
        Seq::empty()
    } else {
        all_cell(ds.drop_last()) + ds.last().cell
    }
}

pub open spec fn all_client(ds: Seq<DefV>) -> Seq<MethodV>
    decreases ds.len(),
{
    if ds.len() == 0 {
        Seq::empty()
    } else {
        all_client(ds.drop_last()) + ds.last().client
    }
}

pub open spec fn all_props(ds: Seq<DefV>) -> Seq<PropertyV>
    decreases ds.len(),
{
    if ds.len() == 0 {
        Seq::empty()
    } else {
        all_props(ds.drop_last()) + ds.last().props
    }
}

pub open spec fn defs_view(ds: Seq<DefFile>) -> Seq<DefV> {
    Seq::new(ds.len(), |i: int| def_view(ds[i]))
}

/// The entity type `name` defined by `own` and the definitions `parents`
/// of its interfaces (already flattened, in order): the members of the
/// interfaces come first; client methods are ordered by sort size; the
/// properties are split by their flags, the client-visible ones ordered by
/// the sort size of their type.
pub open spec fn spec_entity(name: Seq<char>, own: DefV, parents: Seq<DefV>) -> Option<EntitySpecV> {
    let ds = parents.push(own);
    let props = all_props(ds);
    let visible = props_where(props, flag_filter(1));
    if all_keys_fit(all_client(ds)) && all_prop_keys_fit(visible) {
        Some(
            EntitySpecV {
                name,
                base: all_base(ds),
                cell: all_cell(ds),
                client: sort_methods_v(all_client(ds)),
                props: sort_props_v(visible),
                internal: props_where(props, flag_filter(0)),
                base_props: props_where(props, flag_filter(2)),
            },
        )
    } else {
        None
    }
}

/// The properties of `ps` whose flag `keep` selects, copied.
fn filter_props(ps: &Vec<Property>, keep: u8) -> (r: Vec<Property>)
    requires
        keep <= 2,
    ensures
        properties_view(r@) == props_where(properties_view(ps@), flag_filter(keep)),
{
    let ghost pv = properties_view(ps@);
    let mut out: Vec<Property> = Vec::new();
    let mut k: usize = 0;
    proof {
        assert(pv.subrange(0, 0) =~= Seq::<PropertyV>::empty());
        assert(properties_view(out@) =~= Seq::<PropertyV>::empty());
    }
    while k < ps.len()
        invariant
            k <= ps@.len(),
            keep <= 2,
            pv == properties_view(ps@),
            properties_view(out@) == props_where(pv.subrange(0, k as int), flag_filter(keep)),
        decreases ps@.len() - k,
    {
        proof {
            assert(pv.subrange(0, k + 1).drop_last() =~= pv.subrange(0, k as int));
            assert(pv.subrange(0, k + 1).last() == property_view(ps@[k as int]));
        }
        let f = ps[k].flags;
        let hit = if keep == 0 {
            f == Flags::AllClients || f == Flags::OtherClients || f == Flags::OwnClient || f == Flags::CellPublicAndOwn
        } else if keep == 1 {
            f == Flags::AllClients || f == Flags::OtherClients || f == Flags::OwnClient || f == Flags::CellPublicAndOwn
                || f == Flags::BaseAndClient
        } else {
            f == Flags::BaseAndClient
        };
        if hit {
            let c = ps[k].clone();
            proof {
                assert(properties_view(out@.push(c)) =~= properties_view(out@).push(property_view(c)));
            }
            out.push(c);
        }
        k = k + 1;
    }
    proof {
        assert(pv.subrange(0, ps@.len() as int) =~= pv);
    }
    out
}

/// The flag selections [`filter_props`] offers: 0 for the properties sent
/// when a player's cell entity is created, 1 for those clients see, 2 for
/// those of the base and its client.
pub open spec fn flag_filter(keep: u8) -> spec_fn(Flags) -> bool {
    if keep == 0 {
        |f: Flags| is_internal_flag(f)
    } else if keep == 1 {
        |f: Flags| is_client_flag(f)
    } else {
        |f: Flags| f == Flags::BaseAndClient
    }
}

/// Orders properties as [`sort_props_v`] says; fails when a sort size
/// overflows.
fn sort_props(ps: Vec<Property>) -> (r: Result<Vec<Property>, ErrorKind>)
    ensures
        match r {
            Ok(out) => all_prop_keys_fit(properties_view(ps@)) && properties_view(out@) == sort_props_v(
                properties_view(ps@),
            ),
            Err(_) => !all_prop_keys_fit(properties_view(ps@)),
        },
{
    let ghost orig = ps@;
    let ghost pv = properties_view(orig);
    let mut rest = ps;
    let mut keyed: Vec<(usize, Property)> = Vec::new();
    let n = rest.len();
    let mut k: usize = 0;
    while rest.len() > 0
        invariant
            k + rest@.len() == n,
            n == orig.len(),
            orig == ps@,
            pv == properties_view(orig),
            rest@ == orig.subrange(k as int, n as int),
            keyed@.len() == k,
            forall|i: int| 0 <= i < k ==> #[trigger] sort_size_fits(pv[i].ty),
            forall|i: int| 0 <= i < k ==> #[trigger] keyed@[i] == (spec_sort_size(pv[i].ty) as usize, orig[i]),
        decreases rest@.len(),
    {
        let p = rest.remove(0);
        proof {
            assert(p == orig[k as int]);
            assert(pv[k as int] == property_view(p));
            assert(rest@ =~= orig.subrange(k + 1, n as int));
        }
        match p.prop_type.checked_sort_size() {
            Some(key) => {
                keyed.push((key, p));
            },
            None => {
                proof {
                    assert(!sort_size_fits(pv[k as int].ty));
                }
                return Err(ErrorKind::ParsingFailure("property sort size overflows".to_owned()));
            },
        }
        k = k + 1;
    }
    let sorted = sort_keyed(keyed);
    let ghost sv = sorted@;
    let mut out: Vec<Property> = Vec::new();
    let mut sorted = sorted;
    let total = sorted.len();
    let mut j: usize = 0;
    while sorted.len() > 0
        invariant
            j + sorted@.len() == total,
            total == sv.len(),
            sorted@ == sv.subrange(j as int, total as int),
            out@.len() == j,
            forall|i: int| 0 <= i < j ==> #[trigger] out@[i] == sv[i].1,
        decreases sorted@.len(),
    {
        let (_, p) = sorted.remove(0);
        proof {
            assert(sorted@ =~= sv.subrange(j + 1, total as int));
        }
        out.push(p);
        j = j + 1;
    }
    proof {
        let f = |p: Property| property_view(p);
        let keyed_exec = Seq::new(n as nat, |i: int| (spec_sort_size(pv[i].ty) as usize, orig[i]));
        assert(keyed@ =~= keyed_exec);
        assert(map_second(keyed_exec, f) =~= Seq::new(pv.len(), |i: int| (spec_sort_size(pv[i].ty) as usize, pv[i])));
        lemma_sort_map(keyed_exec, f);
        assert(properties_view(out@) =~= sort_props_v(pv));
    }
    Ok(out)
}



/// The entity type `name` defined by `own` and its interfaces' definitions
/// `parents`, as [`spec_entity`] says.
pub fn assemble_entity(name: String, own: DefFile, parents: Vec<DefFile>) -> (r: Result<EntitySpec, ErrorKind>)
    ensures
        match r {
            Ok(e) => spec_entity(name@, def_view(own), defs_view(parents@)) == Some(entity_view(e)),
            Err(_) => spec_entity(name@, def_view(own), defs_view(parents@)) is None,
        },
{
    let ghost dv = defs_view(parents@).push(def_view(own));
    let mut ds = parents;
    ds.push(own);
    proof {
        assert(defs_view(ds@) =~= dv);
        assert(dv.subrange(0, 0) =~= Seq::<DefV>::empty());
    }
    let n = ds.len();
    let mut base: Vec<Method> = Vec::new();
    let mut cell: Vec<Method> = Vec::new();
    let mut client: Vec<Method> = Vec::new();
    let mut props: Vec<Property> = Vec::new();
    proof {
        assert(methods_view(base@) =~= Seq::<MethodV>::empty());
        assert(methods_view(cell@) =~= Seq::<MethodV>::empty());
        assert(methods_view(client@) =~= Seq::<MethodV>::empty());
        assert(properties_view(props@) =~= Seq::<PropertyV>::empty());
    }
    let mut k: usize = 0;
    while ds.len() > 0
        invariant
            k + ds@.len() == n,
            n == dv.len(),
            defs_view(ds@) == dv.subrange(k as int, n as int),
            methods_view(base@) == all_base(dv.subrange(0, k as int)),
            methods_view(cell@) == all_cell(dv.subrange(0, k as int)),
            methods_view(client@) == all_client(dv.subrange(0, k as int)),
            properties_view(props@) == all_props(dv.subrange(0, k as int)),
        decreases ds@.len(),
    {
        let ghost before = ds@;
        let mut d = ds.remove(0);
        proof {
            assert(def_view(d) == defs_view(before)[0]);
            assert(dv[k as int] == def_view(d));
            assert forall|i: int| 0 <= i < ds@.len() implies #[trigger] defs_view(ds@)[i] == dv.subrange(
                k + 1,
                n as int,
            )[i] by {
                assert(ds@[i] == before[i + 1]);
                assert(defs_view(before)[i + 1] == dv.subrange(k as int, n as int)[i + 1]);
            }
            assert(defs_view(ds@) =~= dv.subrange(k + 1, n as int));
            assert(dv.subrange(0, k + 1).drop_last() =~= dv.subrange(0, k as int));
            assert(dv.subrange(0, k + 1).last() == def_view(d));
        }
        let ghost b0 = base@;
        let ghost b1 = d.base_methods@;
        base.append(&mut d.base_methods);
        let ghost c0 = cell@;
        let ghost c1 = d.cell_methods@;
        cell.append(&mut d.cell_methods);
        let ghost l0 = client@;
        let ghost l1 = d.client_methods@;
        client.append(&mut d.client_methods);
        let ghost p0 = props@;
        let ghost p1 = d.properties@;
        props.append(&mut d.properties);
        proof {
            assert(methods_view(base@) =~= methods_view(b0) + methods_view(b1));
            assert(methods_view(cell@) =~= methods_view(c0) + methods_view(c1));
            assert(methods_view(client@) =~= methods_view(l0) + methods_view(l1));
            assert(properties_view(props@) =~= properties_view(p0) + properties_view(p1));
        }
        k = k + 1;
    }
    proof {
        assert(dv.subrange(0, n as int) =~= dv);
    }
    let internal_properties = filter_props(&props, 0);
    let base_properties = filter_props(&props, 2);
    let visible = filter_props(&props, 1);
    let ghost cl = methods_view(client@);
    let ghost cv = client@;
    let client_methods = match sort_methods(client) {
        Ok(c) => c,
        Err(e) => {
            proof {
                let i = choose|i: int| 0 <= i < cv.len() && !method_key_fits(#[trigger] method_view(cv[i]));
                assert(cl[i] == method_view(cv[i]));
                assert(!method_key_fits(cl[i]));
                assert(!all_keys_fit(cl));
            }
            return Err(e);
        },
    };
    proof {
        assert forall|i: int| 0 <= i < cl.len() implies #[trigger] method_key_fits(cl[i]) by {
            assert(cl[i] == method_view(cv[i]));
        }
    }
    let properties = match sort_props(visible) {
        Ok(p) => p,
        Err(e) => return Err(e),
    };
    Ok(EntitySpec {
        name,
        base_methods: base,
        cell_methods: cell,
        client_methods,
        properties,
        internal_properties,
        base_properties,
    })
}



/// Whether an entity's client methods are ordered by [`method_key`] and its
/// client-visible properties by the sort size of their type.
pub open spec fn entity_ordered(e: EntitySpecV) -> bool {
    &&& forall|i: int, j: int|
        0 <= i < j < e.client.len() ==> #[trigger] method_key(e.client[i]) <= #[trigger] method_key(e.client[j])
    &&& forall|i: int, j: int|
        0 <= i < j < e.props.len() ==> #[trigger] spec_sort_size(e.props[i].ty) <= #[trigger] spec_sort_size(
            e.props[j].ty,
        )
}

proof fn lemma_args_size_v_nonneg(args: Seq<TypeV>, i: int)
    ensures
        args_size_v(args, i) >= 0,
    decreases i,
{
    if i > 0 {
        lemma_args_size_v_nonneg(args, i - 1);
        lemma_sort_size_nonneg(args[i - 1]);
    }
}

/// Sorting methods by key leaves them ordered by key.
pub proof fn lemma_sort_methods_ordered(ms: Seq<MethodV>)
    requires
        all_keys_fit(ms),
    ensures
        sort_methods_v(ms).len() == ms.len(),
        forall|i: int, j: int|
            0 <= i < j < sort_methods_v(ms).len() ==> #[trigger] method_key(sort_methods_v(ms)[i]) <= #[trigger] method_key(
                sort_methods_v(ms)[j],
            ),
{
    let keyed = Seq::new(ms.len(), |i: int| (method_key(ms[i]) as usize, ms[i]));
    let p = |e: (usize, MethodV)| method_key_fits(e.1) && e.0 == method_key(e.1);
    assert forall|i: int| 0 <= i < keyed.len() implies #[trigger] p(keyed[i]) by {
        assert(method_key_fits(ms[i]));
        lemma_args_size_v_nonneg(ms[i].args, ms[i].args.len() as int);
    }
    lemma_sort_all(keyed, p);
    lemma_sort_sorted(keyed);
    let sorted = sort_by_key(keyed);
    assert forall|i: int, j: int| 0 <= i < j < sort_methods_v(ms).len() implies #[trigger] method_key(
        sort_methods_v(ms)[i],
    ) <= #[trigger] method_key(sort_methods_v(ms)[j]) by {
        assert(p(sorted[i]) && p(sorted[j]));
        assert(sorted[i].0 <= sorted[j].0);
    }
}

/// Sorting properties by the sort size of their type leaves them ordered.
pub proof fn lemma_sort_props_ordered(ps: Seq<PropertyV>)
    requires
        all_prop_keys_fit(ps),
    ensures
        sort_props_v(ps).len() == ps.len(),
        forall|i: int, j: int|
            0 <= i < j < sort_props_v(ps).len() ==> #[trigger] spec_sort_size(sort_props_v(ps)[i].ty)
                <= #[trigger] spec_sort_size(sort_props_v(ps)[j].ty),
{
    let keyed = Seq::new(ps.len(), |i: int| (spec_sort_size(ps[i].ty) as usize, ps[i]));
    let p = |e: (usize, PropertyV)| sort_size_fits(e.1.ty) && e.0 == spec_sort_size(e.1.ty);
    assert forall|i: int| 0 <= i < keyed.len() implies #[trigger] p(keyed[i]) by {
        assert(sort_size_fits(ps[i].ty));
        crate::rpc::typedefs::lemma_sort_size_nonneg(ps[i].ty);
        crate::rpc::typedefs::lemma_sort_size_fits_bound(ps[i].ty);
    }
    lemma_sort_all(keyed, p);
    lemma_sort_sorted(keyed);
    let sorted = sort_by_key(keyed);
    assert forall|i: int, j: int| 0 <= i < j < sort_props_v(ps).len() implies #[trigger] spec_sort_size(
        sort_props_v(ps)[i].ty,
    ) <= #[trigger] spec_sort_size(sort_props_v(ps)[j].ty) by {
        assert(p(sorted[i]) && p(sorted[j]));
        assert(sorted[i].0 <= sorted[j].0);
    }
}

/// Every entity type that [`spec_entity`] gives has its client methods and
/// its client-visible properties ordered by sort size.
pub proof fn lemma_entity_ordered(name: Seq<char>, own: DefV, parents: Seq<DefV>)
    requires
        spec_entity(name, own, parents) is Some,
    ensures
        entity_ordered(spec_entity(name, own, parents)->0),
{
    let ds = parents.push(own);
    lemma_sort_methods_ordered(all_client(ds));
    lemma_sort_props_ordered(props_where(all_props(ds), flag_filter(1)));
}



/// The names of the entity types that `entities.xml` lists: the tag names
/// of the element children of `root/ClientServerEntities`, in document
/// order.
pub open spec fn spec_entity_names(xml: Seq<u8>) -> Option<Seq<Seq<char>>> {
    if !vstd::utf8::valid_utf8(xml) {
        None
    } else {
        match xml_parse(vstd::utf8::decode_utf8(xml)) {
            None => None,
            Some(ns) => if ns.len() == 0 {
                None
            } else {
                match child_from(ns, ns[0].id, Some("root"@), 0) {
                    None => None,
                    Some(r) => match child_from(ns, ns[r].id, Some("ClientServerEntities"@), 0) {
                        None => None,
                        Some(c) => Some(element_children(ns, ns[c].id, 0).map_values(|k: int| ns[k].name)),
                    },
                }
            },
        }
    }
}

/// The names of the entity types that the bytes of `entities.xml` list.
pub fn entity_names(xml: &[u8]) -> (r: Result<Vec<String>, ErrorKind>)
    ensures
        match r {
            Ok(v) => spec_entity_names(xml@) == Some(strings_view(v@)),
            Err(_) => spec_entity_names(xml@) is None,
        },
{
    let text = match crate::packet2::utf8_string(xml) {
        Some(t) => t,
        None => return Err(ErrorKind::Utf8Error),
    };
    let ns = match parse_xml(text.as_str()) {
        Some(ns) => ns,
        None => return Err(ErrorKind::ParsingFailure("malformed XML".to_owned())),
    };
    if ns.len() == 0 {
        return Err(def_error());
    }
    let ghost nv = nodes_view(ns@);
    proof {
        assert(nv[0].id == ns@[0].id as nat);
    }
    let root = match find_child(&ns, 0, Some("root"), 0) {
        Some(r) => r,
        None => return Err(def_error()),
    };
    proof {
        assert(nv[root as int].id == ns@[root as int].id as nat);
    }
    let list = match find_child(&ns, root, Some("ClientServerEntities"), 0) {
        Some(c) => c,
        None => return Err(def_error()),
    };
    proof {
        assert(nv[list as int].id == ns@[list as int].id as nat);
    }
    let cs = children_elements(&ns, list);
    let ghost cv = cs@.map_values(|j: usize| j as int);
    let mut out: Vec<String> = Vec::new();
    let mut k: usize = 0;
    while k < cs.len()
        invariant
            k <= cs@.len(),
            nv == nodes_view(ns@),
            cv == cs@.map_values(|j: usize| j as int),
            forall|t: int| 0 <= t < cs@.len() ==> #[trigger] cs@[t] < ns@.len(),
            strings_view(out@) == cv.subrange(0, k as int).map_values(|j: int| nv[j].name),
        decreases cs@.len() - k,
    {
        let c = cs[k];
        let ghost before = strings_view(out@);
        let name = ns[c].name.clone();
        out.push(name);
        proof {
            assert(cv[k as int] == c as int);
            assert(nv[c as int].name == name@);
            assert(strings_view(out@) =~= before.push(name@));
            assert(cv.subrange(0, k + 1) =~= cv.subrange(0, k as int).push(c as int));
            assert(strings_view(out@) =~= cv.subrange(0, k + 1).map_values(|j: int| nv[j].name));
        }
        k += 1;
    }
    proof {
        assert(cv.subrange(0, k as int) =~= cv);
    }
    Ok(out)
}

/// The path of the file that declares the type aliases.
pub fn alias_path() -> (r: String)
    ensures
        r@ == "scripts/entity_defs/alias.xml"@,
{
    "scripts/entity_defs/alias.xml".to_owned()
}

/// The path of the file that lists the entity types.
pub fn entities_path() -> (r: String)
    ensures
        r@ == "scripts/entities.xml"@,
{
    "scripts/entities.xml".to_owned()
}

/// The path of the definition of entity type `name`.
pub fn def_path(name: &str) -> (r: String)
    ensures
        r@ == "scripts/entity_defs/"@ + name@ + ".def"@,
{
    let mut r = "scripts/entity_defs/".to_owned();
    r.append(name);
    r.append(".def");
    r
}

/// The path of the definition of interface `name`.
pub fn interface_path(name: &str) -> (r: String)
    ensures
        r@ == "scripts/entity_defs/interfaces/"@ + name@ + ".def"@,
{
    let mut r = "scripts/entity_defs/interfaces/".to_owned();
    r.append(name);
    r.append(".def");
    r
}

/// What an interface contributes to an entity type: the definitions of the
/// interfaces it implements in turn, then its own definition with its list
/// of interfaces cleared. Only one level of such indirection is supported:
/// an interface of an interface that implements further interfaces is an
/// error.
pub fn interface_chain(parent: DefFile, grandparents: Vec<DefFile>) -> (r: Result<Vec<DefFile>, ErrorKind>)
    ensures
        match r {
            Ok(v) => (forall|i: int| 0 <= i < grandparents@.len() ==> (#[trigger] grandparents@[i]).implements@.len() == 0)
                && defs_view(v@) == defs_view(grandparents@).push(
                DefV { implements: Seq::empty(), ..def_view(parent) },
            ),
            Err(_) => exists|i: int| 0 <= i < grandparents@.len() && (#[trigger] grandparents@[i]).implements@.len() != 0,
        },
{
    let mut k: usize = 0;
    while k < grandparents.len()
        invariant
            k <= grandparents@.len(),
            forall|i: int| 0 <= i < k ==> (#[trigger] grandparents@[i]).implements@.len() == 0,
        decreases grandparents@.len() - k,
    {
        if grandparents[k].implements.len() != 0 {
            return Err(ErrorKind::ParsingFailure("interface nested too deeply".to_owned()));
        }
        k += 1;
    }
    let mut own = parent;
    own.implements = Vec::new();
    let mut out = grandparents;
    let ghost before = defs_view(out@);
    out.push(own);
    proof {
        assert(strings_view(own.implements@) =~= Seq::<Seq<char>>::empty());
        assert(defs_view(out@) =~= before.push(def_view(own)));
    }
    Ok(out)
}

/// What interface `parent` contributes to an entity type when `gps` are
/// the definitions of the interfaces it implements in turn: those, then
/// its own definition with its list of interfaces cleared.
pub open spec fn chain_of(parent: DefV, gps: Seq<DefV>) -> Seq<DefV> {
    gps.push(DefV { implements: Seq::empty(), ..parent })
}

/// Whether `chain` is what an interface contributes: [`chain_of`] a
/// definition of the interface and one definition for each interface it
/// lists, none of which lists further interfaces.
pub open spec fn interface_contribution(chain: Seq<DefV>) -> bool {
    exists|parent: DefV, gps: Seq<DefV>|
        #[trigger] chain_of(parent, gps) == chain && gps.len() == parent.implements.len() && forall|i: int|
            0 <= i < gps.len() ==> (#[trigger] gps[i]).implements.len() == 0
}

/// Whether `e` is what [`spec_entity`] assembles from a definition `own`
/// of its own and, for each interface that `own` implements, in order,
/// what that interface contributes.
pub open spec fn assembled(e: EntitySpecV) -> bool {
    exists|own: DefV, chains: Seq<Seq<DefV>>|
        #[trigger] spec_entity(e.name, own, chains.flatten()) == Some(e) && chains.len() == own.implements.len()
            && forall|j: int| 0 <= j < chains.len() ==> interface_contribution(#[trigger] chains[j])
}

/// The names of the entity types `es`, in order.
pub open spec fn entity_names_of(es: Seq<EntitySpec>) -> Seq<Seq<char>> {
    Seq::new(es.len(), |i: int| entity_view(es[i]).name)
}

/// Reads the entity definitions of a game version from `gamedata`: the type
/// aliases of `scripts/entity_defs/alias.xml`, the entity types listed in
/// `scripts/entities.xml`, and for each the definition of the type and of
/// the interfaces it implements. What the loader hands back is not known
/// here: the entity types returned are those that an entity list names,
/// in its order; each is assembled from a definition of its own and, for
/// each interface that definition implements, in order, what that interface
/// contributes; each has its client methods and its client-visible
/// properties ordered by sort size; any error of the loader is returned as
/// it came.
pub fn parse_scripts<L: DataFileLoader>(gamedata: &L) -> (r: Result<Vec<EntitySpec>, ErrorKind>)
    ensures
        r matches Ok(es) ==> {
            &&& forall|i: int| 0 <= i < es@.len() ==> entity_ordered(#[trigger] entity_view(es@[i]))
            &&& forall|i: int| 0 <= i < es@.len() ==> assembled(#[trigger] entity_view(es@[i]))
            &&& exists|xml: Seq<u8>| #[trigger] spec_entity_names(xml) == Some(entity_names_of(es@))
        },
{
    let alias_xml = gamedata.get(alias_path().as_str())?;
    let aliases = parse_aliases(alias_xml.as_slice())?;
    let entities_xml = gamedata.get(entities_path().as_str())?;
    let names = entity_names(entities_xml.as_slice())?;
    let ghost xml = entities_xml@;
    let mut entities: Vec<EntitySpec> = Vec::new();
    let mut k: usize = 0;
    while k < names.len()
        invariant
            k <= names@.len(),
            entities@.len() == k,
            spec_entity_names(xml) == Some(strings_view(names@)),
            forall|i: int| 0 <= i < entities@.len() ==> entity_ordered(#[trigger] entity_view(entities@[i])),
            forall|i: int| 0 <= i < entities@.len() ==> assembled(#[trigger] entity_view(entities@[i])),
            forall|i: int| 0 <= i < entities@.len() ==> #[trigger] entity_view(entities@[i]).name == names@[i]@,
        decreases names@.len() - k,
    {
        let def_bytes = gamedata.get(def_path(names[k].as_str()).as_str())?;
        let def = parse_def(def_bytes.as_slice(), &aliases)?;
        let mut parents: Vec<DefFile> = Vec::new();
        let ghost mut chains: Seq<Seq<DefV>> = Seq::empty();
        let mut j: usize = 0;
        proof {
            assert(defs_view(parents@) =~= chains.flatten());
        }
        while j < def.implements.len()
            invariant
                j <= def.implements@.len(),
                chains.len() == j,
                defs_view(parents@) == chains.flatten(),
                forall|i: int| 0 <= i < chains.len() ==> interface_contribution(#[trigger] chains[i]),
            decreases def.implements@.len() - j,
        {
            let parent_bytes = gamedata.get(interface_path(def.implements[j].as_str()).as_str())?;
            let parent = parse_def(parent_bytes.as_slice(), &aliases)?;
            let mut grandparents: Vec<DefFile> = Vec::new();
            let mut g: usize = 0;
            while g < parent.implements.len()
                invariant
                    g <= parent.implements@.len(),
                    grandparents@.len() == g,
                decreases parent.implements@.len() - g,
            {
                let gp_name = trimmed(parent.implements[g].as_str());
                let gp_bytes = gamedata.get(interface_path(gp_name.as_str()).as_str())?;
                grandparents.push(parse_def(gp_bytes.as_slice(), &aliases)?);
                g += 1;
            }
            let ghost pd = def_view(parent);
            let ghost gps = defs_view(grandparents@);
            let ghost gs = grandparents@;
            let mut chain = interface_chain(parent, grandparents)?;
            let ghost c = defs_view(chain@);
            let ghost before = parents@;
            parents.append(&mut chain);
            proof {
                assert forall|i: int| 0 <= i < gps.len() implies (#[trigger] gps[i]).implements.len() == 0 by {
                    assert(gs[i].implements@.len() == 0);
                }
                assert(c =~= chain_of(pd, gps));
                assert(interface_contribution(c));
                assert(defs_view(parents@) =~= defs_view(before) + c);
                chains.lemma_flatten_push(c);
                chains = chains.push(c);
            }
            j += 1;
        }
        let ghost own = def_view(def);
        let ghost pv = defs_view(parents@);
        let entity = assemble_entity(names[k].clone(), def, parents)?;
        proof {
            lemma_entity_ordered(names@[k as int]@, own, pv);
            assert(spec_entity(entity_view(entity).name, own, pv) == Some(entity_view(entity)));
            assert(spec_entity(entity_view(entity).name, own, chains.flatten()) == Some(entity_view(entity))
                && chains.len() == own.implements.len() && forall|i: int|
                0 <= i < chains.len() ==> interface_contribution(#[trigger] chains[i]));
        }
        entities.push(entity);
        k += 1;
        proof {
            assert(entity_view(entities@[k - 1]) == entity_view(entity));
        }
    }
    proof {
        assert(entity_names_of(entities@) =~= strings_view(names@));
    }
    Ok(entities)
}

} // verus!
