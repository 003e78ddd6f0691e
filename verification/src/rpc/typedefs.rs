//! Argument types of entity properties and methods, and the binary
//! decoding of their values.
use vstd::prelude::*;

use crate::bytes::{le_bytes4, le_uint, read_u8, read_u16, read_u32, read_u64, read_i8, read_i16, read_i32, read_i64, take};
use crate::error::ErrorKind;
use crate::rpc::xml::{child_from, children_elements, element_children, find_child, nodes_view, parse_xml, trimmed, XmlNode, XmlNodeV};
use crate::text::trim;
use crate::version::{parse_usize, spec_parse_usize};

verus! {

/// The scalar and string types of the entity definition language.
#[derive(Clone, Copy, Debug, PartialEq, Eq, Structural)]
pub enum PrimitiveType {
    Uint8,
    Uint16,
    Uint32,
    Uint64,
    Int8,
    Int16,
    Int32,
    Int64,
    Float32,
    Float64,
    Vector2,
    Vector3,
    String,
    UnicodeString,
    Blob,
}

/// One named entry of a `FIXED_DICT` type.
#[derive(Debug, PartialEq)]
pub struct FixedDictProperty {
    pub name: String,
    pub prop_type: ArgType,
}

/// A type of the entity definition language.
#[derive(Debug, PartialEq)]
pub enum ArgType {
    Primitive(PrimitiveType),
    /// (fixed element count, element type)
    Array((Option<usize>, Box<ArgType>)),
    /// (allow_none, properties)
    FixedDict((bool, Vec<FixedDictProperty>)),
    Tuple((Box<ArgType>, usize)),
}

/// The mathematical value of an [`ArgType`].
pub enum TypeV {
    Primitive(PrimitiveType),
    Array(Option<usize>, Box<TypeV>),
    FixedDict(bool, Seq<(Seq<char>, TypeV)>),
    Tuple(Box<TypeV>, usize),
}

pub open spec fn type_view(t: ArgType) -> TypeV
    decreases t,
{
    match t {
        ArgType::Primitive(p) => TypeV::Primitive(p),
        ArgType::Array((c, e)) => TypeV::Array(c, Box::new(type_view(*e))),
        ArgType::FixedDict((n, ps)) => TypeV::FixedDict(n, props_view(ps@)),
        ArgType::Tuple((e, c)) => TypeV::Tuple(Box::new(type_view(*e)), c),
    }
}

pub open spec fn props_view(ps: Seq<FixedDictProperty>) -> Seq<(Seq<char>, TypeV)>
    decreases ps,
{
    if ps.len() == 0 {
        Seq::empty()
    } else {
        props_view(ps.drop_last()).push((ps.last().name@, type_view(ps.last().prop_type)))
    }
}

impl View for ArgType {
    type V = TypeV;

    open spec fn view(&self) -> TypeV {
        type_view(*self)
    }
}

pub proof fn lemma_props_view_push(ps: Seq<FixedDictProperty>, p: FixedDictProperty)
    ensures
        props_view(ps.push(p)) == props_view(ps).push((p.name@, type_view(p.prop_type))),
{
    assert(ps.push(p).drop_last() =~= ps);
}

pub proof fn lemma_props_view_index(ps: Seq<FixedDictProperty>, i: int)
    requires
        0 <= i < ps.len(),
    ensures
        props_view(ps).len() == ps.len(),
        props_view(ps)[i] == (ps[i].name@, type_view(ps[i].prop_type)),
    decreases ps.len(),
{
    lemma_props_view_len(ps);
    if i < ps.len() - 1 {
        lemma_props_view_index(ps.drop_last(), i);
    }
}

/// The view of a list of entries, entry by entry.
pub proof fn lemma_props_view_ext(ps: Seq<FixedDictProperty>)
    ensures
        props_view(ps) =~= Seq::new(ps.len(), |i: int| (ps[i].name@, type_view(ps[i].prop_type))),
{
    lemma_props_view_len(ps);
    assert forall|i: int| 0 <= i < ps.len() implies props_view(ps)[i] == (ps[i].name@, type_view(
        ps[i].prop_type,
    )) by {
        lemma_props_view_index(ps, i);
    }
}

pub proof fn lemma_props_view_len(ps: Seq<FixedDictProperty>)
    ensures
        props_view(ps).len() == ps.len(),
    decreases ps.len(),
{
    if ps.len() > 0 {
        lemma_props_view_len(ps.drop_last());
    }
}

/// A decoded value. Floating point values are held as their IEEE-754 bit
/// patterns.
#[derive(Debug, PartialEq)]
pub enum ArgValue {
    Uint8(u8),
    Uint16(u16),
    Uint32(u32),
    Uint64(u64),
    Int8(i8),
    Int16(i16),
    Int32(i32),
    Int64(i64),
    Float32(u32),
    Float64(u64),
    Vector2((u32, u32)),
    Vector3((u32, u32, u32)),
    String(Vec<u8>),
    UnicodeString(Vec<u8>),
    Blob(Vec<u8>),
    Array(Vec<ArgValue>),
    /// Entries in the order of the type's properties.
    FixedDict(Vec<(String, ArgValue)>),
    NullableFixedDict(Option<Vec<(String, ArgValue)>>),
    Tuple(Vec<ArgValue>),
}

/// The mathematical value of an [`ArgValue`].
pub enum ArgVal {
    Uint8(u8),
    Uint16(u16),
    Uint32(u32),
    Uint64(u64),
    Int8(i8),
    Int16(i16),
    Int32(i32),
    Int64(i64),
    Float32(u32),
    Float64(u64),
    Vector2(u32, u32),
    Vector3(u32, u32, u32),
    String(Seq<u8>),
    UnicodeString(Seq<u8>),
    Blob(Seq<u8>),
    Array(Seq<ArgVal>),
    FixedDict(Seq<(Seq<char>, ArgVal)>),
    NullableFixedDict(Option<Seq<(Seq<char>, ArgVal)>>),
    Tuple(Seq<ArgVal>),
}

pub open spec fn val_view(v: ArgValue) -> ArgVal
    decreases v,
{
    match v {
        ArgValue::Uint8(x) => ArgVal::Uint8(x),
        ArgValue::Uint16(x) => ArgVal::Uint16(x),
        ArgValue::Uint32(x) => ArgVal::Uint32(x),
        ArgValue::Uint64(x) => ArgVal::Uint64(x),
        ArgValue::Int8(x) => ArgVal::Int8(x),
        ArgValue::Int16(x) => ArgVal::Int16(x),
        ArgValue::Int32(x) => ArgVal::Int32(x),
        ArgValue::Int64(x) => ArgVal::Int64(x),
        ArgValue::Float32(x) => ArgVal::Float32(x),
        ArgValue::Float64(x) => ArgVal::Float64(x),
        ArgValue::Vector2((x, y)) => ArgVal::Vector2(x, y),
        ArgValue::Vector3((x, y, z)) => ArgVal::Vector3(x, y, z),
        ArgValue::String(b) => ArgVal::String(b@),
        ArgValue::UnicodeString(b) => ArgVal::UnicodeString(b@),
        ArgValue::Blob(b) => ArgVal::Blob(b@),
        ArgValue::Array(xs) => ArgVal::Array(vals_view(xs@)),
        ArgValue::FixedDict(xs) => ArgVal::FixedDict(dict_view(xs@)),
        ArgValue::NullableFixedDict(o) => match o {
            Some(xs) => ArgVal::NullableFixedDict(Some(dict_view(xs@))),
            None => ArgVal::NullableFixedDict(None),
        },
        ArgValue::Tuple(xs) => ArgVal::Tuple(vals_view(xs@)),
    }
}

pub open spec fn vals_view(xs: Seq<ArgValue>) -> Seq<ArgVal>
    decreases xs,
{
    if xs.len() == 0 {
        Seq::empty()
    } else {
        vals_view(xs.drop_last()).push(val_view(xs.last()))
    }
}

pub open spec fn dict_view(xs: Seq<(String, ArgValue)>) -> Seq<(Seq<char>, ArgVal)>
    decreases xs,
{
    if xs.len() == 0 {
        Seq::empty()
    } else {
        dict_view(xs.drop_last()).push((xs.last().0@, val_view(xs.last().1)))
    }
}

impl View for ArgValue {
    type V = ArgVal;

    open spec fn view(&self) -> ArgVal {
        val_view(*self)
    }
}

pub proof fn lemma_vals_view_push(xs: Seq<ArgValue>, x: ArgValue)
    ensures
        vals_view(xs.push(x)) == vals_view(xs).push(val_view(x)),
{
    assert(xs.push(x).drop_last() =~= xs);
}

pub proof fn lemma_dict_view_push(xs: Seq<(String, ArgValue)>, x: (String, ArgValue))
    ensures
        dict_view(xs.push(x)) == dict_view(xs).push((x.0@, val_view(x.1))),
{
    assert(xs.push(x).drop_last() =~= xs);
}

pub proof fn lemma_vals_view_len(xs: Seq<ArgValue>)
    ensures
        vals_view(xs).len() == xs.len(),
    decreases xs.len(),
{
    if xs.len() > 0 {
        lemma_vals_view_len(xs.drop_last());
    }
}

pub proof fn lemma_vals_view_index(xs: Seq<ArgValue>, i: int)
    requires
        0 <= i < xs.len(),
    ensures
        vals_view(xs).len() == xs.len(),
        vals_view(xs)[i] == val_view(xs[i]),
    decreases xs.len(),
{
    lemma_vals_view_len(xs);
    if i < xs.len() - 1 {
        lemma_vals_view_index(xs.drop_last(), i);
    }
}

/// The result of decoding a value from bytes: the value and the offset just
/// past it, or why decoding stopped.
pub enum Outcome<T> {
    Done(T, int),
    /// The bytes ended early.
    Eof,
    /// A nullable dictionary flag other than 0 or 1, and the offset after it.
    BadFlag(u8, int),
}

pub open spec fn outcome_map_err<A, B>(o: Outcome<A>) -> Outcome<B> {
    match o {
        Outcome::Done(_, _) => Outcome::Eof,
        Outcome::Eof => Outcome::Eof,
        Outcome::BadFlag(f, p) => Outcome::BadFlag(f, p),
    }
}

/// A length-prefixed byte string: one length byte, or `0xff` followed by a
/// two-byte length and one unused byte.
pub open spec fn spec_sized_bytes(s: Seq<u8>, pos: int) -> Option<(Seq<u8>, int)> {
    if pos < 0 || pos + 1 > s.len() {
        None
    } else if s[pos] == 0xff {
        if pos + 4 > s.len() {
            None
        } else {
            let size = le_uint(s, pos + 1, 2) as int;
            if pos + 4 + size > s.len() {
                None
            } else {
                Some((s.subrange(pos + 4, pos + 4 + size), pos + 4 + size))
            }
        }
    } else {
        let size = s[pos] as int;
        if pos + 1 + size > s.len() {
            None
        } else {
            Some((s.subrange(pos + 1, pos + 1 + size), pos + 1 + size))
        }
    }
}

pub open spec fn fits(s: Seq<u8>, pos: int, n: int) -> bool {
    0 <= pos && pos + n <= s.len()
}

/// The bytes of a primitive value, decoded.
pub open spec fn spec_parse_primitive(p: PrimitiveType, s: Seq<u8>, pos: int) -> Outcome<ArgVal> {
    match p {
        PrimitiveType::Uint8 => if fits(s, pos, 1) {
            Outcome::Done(ArgVal::Uint8(le_uint(s, pos, 1) as u8), pos + 1)
        } else {
            Outcome::Eof
        },
        PrimitiveType::Uint16 => if fits(s, pos, 2) {
            Outcome::Done(ArgVal::Uint16(le_uint(s, pos, 2) as u16), pos + 2)
        } else {
            Outcome::Eof
        },
        PrimitiveType::Uint32 => if fits(s, pos, 4) {
            Outcome::Done(ArgVal::Uint32(le_uint(s, pos, 4) as u32), pos + 4)
        } else {
            Outcome::Eof
        },
        PrimitiveType::Uint64 => if fits(s, pos, 8) {
            Outcome::Done(ArgVal::Uint64(le_uint(s, pos, 8) as u64), pos + 8)
        } else {
            Outcome::Eof
        },
        PrimitiveType::Int8 => if fits(s, pos, 1) {
            Outcome::Done(ArgVal::Int8(crate::bytes::as_signed(le_uint(s, pos, 1), 0x100) as i8), pos + 1)
        } else {
            Outcome::Eof
        },
        PrimitiveType::Int16 => if fits(s, pos, 2) {
            Outcome::Done(
                ArgVal::Int16(crate::bytes::as_signed(le_uint(s, pos, 2), 0x1_0000) as i16),
                pos + 2,
            )
        } else {
            Outcome::Eof
        },
        PrimitiveType::Int32 => if fits(s, pos, 4) {
            Outcome::Done(
                ArgVal::Int32(crate::bytes::as_signed(le_uint(s, pos, 4), 0x1_0000_0000) as i32),
                pos + 4,
            )
        } else {
            Outcome::Eof
        },
        PrimitiveType::Int64 => if fits(s, pos, 8) {
            Outcome::Done(
                ArgVal::Int64(
                    crate::bytes::as_signed(le_uint(s, pos, 8), 0x1_0000_0000_0000_0000) as i64,
                ),
                pos + 8,
            )
        } else {
            Outcome::Eof
        },
        PrimitiveType::Float32 => if fits(s, pos, 4) {
            Outcome::Done(ArgVal::Float32(le_uint(s, pos, 4) as u32), pos + 4)
        } else {
            Outcome::Eof
        },
        PrimitiveType::Float64 => if fits(s, pos, 8) {
            Outcome::Done(ArgVal::Float64(le_uint(s, pos, 8) as u64), pos + 8)
        } else {
            Outcome::Eof
        },
        PrimitiveType::Vector2 => if fits(s, pos, 8) {
            Outcome::Done(
                ArgVal::Vector2(le_uint(s, pos, 4) as u32, le_uint(s, pos + 4, 4) as u32),
                pos + 8,
            )
        } else {
            Outcome::Eof
        },
        PrimitiveType::Vector3 => if fits(s, pos, 12) {
            Outcome::Done(
                ArgVal::Vector3(
                    le_uint(s, pos, 4) as u32,
                    le_uint(s, pos + 4, 4) as u32,
                    le_uint(s, pos + 8, 4) as u32,
                ),
                pos + 12,
            )
        } else {
            Outcome::Eof
        },
        PrimitiveType::String => match spec_sized_bytes(s, pos) {
            Some((b, e)) => Outcome::Done(ArgVal::String(b), e),
            None => Outcome::Eof,
        },
        PrimitiveType::UnicodeString => match spec_sized_bytes(s, pos) {
            Some((b, e)) => Outcome::Done(ArgVal::UnicodeString(b), e),
            None => Outcome::Eof,
        },
        PrimitiveType::Blob => match spec_sized_bytes(s, pos) {
            Some((b, e)) => Outcome::Done(ArgVal::Blob(b), e),
            None => Outcome::Eof,
        },
    }
}

/// Whether decoding a value of type `t` never meets a tuple (tuples cannot
/// be decoded).
pub open spec fn parseable(t: TypeV) -> bool
    decreases t, 0nat,
{
    match t {
        TypeV::Primitive(_) => true,
        TypeV::Array(_, elem) => parseable(*elem),
        TypeV::FixedDict(_, props) => parseable_props(props, 0),
        TypeV::Tuple(_, _) => false,
    }
}

pub open spec fn parseable_props(props: Seq<(Seq<char>, TypeV)>, i: int) -> bool
    decreases props, props.len() - i,
    when 0 <= i <= props.len()
{
    if i >= props.len() {
        true
    } else {
        parseable(props[i].1) && parseable_props(props, i + 1)
    }
}

/// The value of type `t` at `pos` in `s`.
pub open spec fn spec_parse_value(t: TypeV, s: Seq<u8>, pos: int) -> Outcome<ArgVal>
    decreases t, 0nat,
{
    match t {
        TypeV::Primitive(p) => spec_parse_primitive(p, s, pos),
        TypeV::Array(count, elem) => {
            let (n, start) = match count {
                Some(c) => ((c as u8) as nat, pos),
                None => if fits(s, pos, 1) {
                    (s[pos] as nat, pos + 1)
                } else {
                    (0nat, -1)
                },
            };
            if start < 0 {
                Outcome::Eof
            } else {
                match spec_parse_array(*elem, s, start, n) {
                    Outcome::Done(vs, e) => Outcome::Done(ArgVal::Array(vs), e),
                    o => outcome_map_err(o),
                }
            }
        },
        TypeV::FixedDict(allow_none, props) => {
            if allow_none {
                if !fits(s, pos, 1) {
                    Outcome::Eof
                } else if s[pos] == 0 {
                    Outcome::Done(ArgVal::NullableFixedDict(None), pos + 1)
                } else if s[pos] != 1 {
                    Outcome::BadFlag(s[pos], pos + 1)
                } else {
                    match spec_parse_props(props, 0, s, pos + 1) {
                        Outcome::Done(d, e) => Outcome::Done(ArgVal::NullableFixedDict(Some(d)), e),
                        o => outcome_map_err(o),
                    }
                }
            } else {
                match spec_parse_props(props, 0, s, pos) {
                    Outcome::Done(d, e) => Outcome::Done(ArgVal::FixedDict(d), e),
                    o => outcome_map_err(o),
                }
            }
        },
        TypeV::Tuple(_, _) => Outcome::Eof,
    }
}

/// The integer primitives read their bytes little-endian: an unsigned one
/// as the number its bytes spell, a signed one as that number's two's
/// complement; a 32-bit float is kept as the bit pattern its four bytes
/// spell. Each takes as many bytes as its width.
pub proof fn lemma_primitive_values(s: Seq<u8>, pos: int)
    requires
        0 <= pos,
    ensures
        pos + 1 <= s.len() ==> {
            &&& spec_parse_primitive(PrimitiveType::Uint8, s, pos) == Outcome::Done(ArgVal::Uint8(s[pos]), pos + 1)
            &&& spec_parse_primitive(PrimitiveType::Int8, s, pos) matches Outcome::Done(ArgVal::Int8(v), e)
                && e == pos + 1 && v == (if s[pos] >= 128 { s[pos] - 256 } else { s[pos] as int })
        },
        pos + 2 <= s.len() ==> {
            &&& spec_parse_primitive(PrimitiveType::Uint16, s, pos) matches Outcome::Done(ArgVal::Uint16(v), e)
                && e == pos + 2 && v == s[pos] + 256 * s[pos + 1]
            &&& spec_parse_primitive(PrimitiveType::Int16, s, pos) matches Outcome::Done(ArgVal::Int16(v), e)
                && e == pos + 2 && v == (if s[pos] + 256 * s[pos + 1] >= 0x8000 {
                s[pos] + 256 * s[pos + 1] - 0x1_0000
            } else {
                s[pos] + 256 * s[pos + 1]
            })
        },
        pos + 4 <= s.len() ==> {
            &&& spec_parse_primitive(PrimitiveType::Uint32, s, pos) matches Outcome::Done(ArgVal::Uint32(v), e)
                && e == pos + 4 && v == le_bytes4(s, pos)
            &&& spec_parse_primitive(PrimitiveType::Int32, s, pos) matches Outcome::Done(ArgVal::Int32(v), e)
                && e == pos + 4 && v == (if le_bytes4(s, pos) >= 0x8000_0000 {
                le_bytes4(s, pos) - 0x1_0000_0000
            } else {
                le_bytes4(s, pos)
            })
            &&& spec_parse_primitive(PrimitiveType::Float32, s, pos) matches Outcome::Done(ArgVal::Float32(v), e)
                && e == pos + 4 && v == le_bytes4(s, pos)
        },
{
    reveal_with_fuel(le_uint, 5);
    if pos + 4 <= s.len() {
        assert(le_uint(s, pos, 4) == le_bytes4(s, pos));
    }
    if pos + 2 <= s.len() {
        assert(le_uint(s, pos, 2) == s[pos] + 256 * s[pos + 1]);
    }
}

/// Whether reading a value of type `t` at `pos` reaches a tuple type, whose
/// values cannot be read: the parts read before it are read as
/// [`spec_parse_value`] says, and the reading stops at a nullable
/// dictionary whose flag says it is empty or is unknown.
pub open spec fn hits_tuple(t: TypeV, s: Seq<u8>, pos: int) -> bool
    decreases t, 0nat,
{
    match t {
        TypeV::Primitive(_) => false,
        TypeV::Array(count, elem) => {
            let (n, start) = match count {
                Some(c) => ((c as u8) as nat, pos),
                None => if fits(s, pos, 1) {
                    (s[pos] as nat, pos + 1)
                } else {
                    (0nat, -1)
                },
            };
            if start < 0 {
                false
            } else {
                hits_tuple_array(*elem, s, start, n)
            }
        },
        TypeV::FixedDict(allow_none, props) => {
            if allow_none {
                if !fits(s, pos, 1) || s[pos] != 1 {
                    false
                } else {
                    hits_tuple_props(props, 0, s, pos + 1)
                }
            } else {
                hits_tuple_props(props, 0, s, pos)
            }
        },
        TypeV::Tuple(_, _) => true,
    }
}

/// Whether reading `n` consecutive values of type `elem` at `pos` reaches a
/// tuple type, as [`hits_tuple`] says.
pub open spec fn hits_tuple_array(elem: TypeV, s: Seq<u8>, pos: int, n: nat) -> bool
    decreases elem, n,
{
    if n == 0 {
        false
    } else {
        hits_tuple(elem, s, pos) || (spec_parse_value(elem, s, pos) matches Outcome::Done(_, p)
            && hits_tuple_array(elem, s, p, (n - 1) as nat))
    }
}

/// Whether reading the properties of a fixed dictionary from the `i`-th on,
/// at `pos`, reaches a tuple type, as [`hits_tuple`] says.
pub open spec fn hits_tuple_props(props: Seq<(Seq<char>, TypeV)>, i: int, s: Seq<u8>, pos: int) -> bool
    decreases props, props.len() - i,
    when 0 <= i <= props.len()
{
    if i >= props.len() {
        false
    } else {
        hits_tuple(props[i].1, s, pos) || (spec_parse_value(props[i].1, s, pos) matches Outcome::Done(_, p)
            && hits_tuple_props(props, i + 1, s, p))
    }
}

/// Reading a value of a type with no tuple in it never reaches a tuple.
pub proof fn lemma_parseable_no_tuple(t: TypeV, s: Seq<u8>, pos: int)
    requires
        parseable(t),
    ensures
        !hits_tuple(t, s, pos),
    decreases t, 0nat,
{
    match t {
        TypeV::Array(count, elem) => {
            let (n, start) = match count {
                Some(c) => ((c as u8) as nat, pos),
                None => if fits(s, pos, 1) {
                    (s[pos] as nat, pos + 1)
                } else {
                    (0nat, -1)
                },
            };
            lemma_parseable_no_tuple_array(*elem, s, start, n);
        },
        TypeV::FixedDict(allow_none, props) => {
            lemma_parseable_no_tuple_props(props, 0, s, pos);
            lemma_parseable_no_tuple_props(props, 0, s, pos + 1);
        },
        _ => {},
    }
}

proof fn lemma_parseable_no_tuple_array(elem: TypeV, s: Seq<u8>, pos: int, n: nat)
    requires
        parseable(elem),
    ensures
        !hits_tuple_array(elem, s, pos, n),
    decreases elem, n,
{
    if n > 0 {
        lemma_parseable_no_tuple(elem, s, pos);
        match spec_parse_value(elem, s, pos) {
            Outcome::Done(_, p) => lemma_parseable_no_tuple_array(elem, s, p, (n - 1) as nat),
            _ => {},
        }
    }
}

proof fn lemma_parseable_no_tuple_props(props: Seq<(Seq<char>, TypeV)>, i: int, s: Seq<u8>, pos: int)
    requires
        0 <= i <= props.len(),
        parseable_props(props, i),
    ensures
        !hits_tuple_props(props, i, s, pos),
    decreases props, props.len() - i,
{
    if i < props.len() {
        lemma_parseable_no_tuple(props[i].1, s, pos);
        match spec_parse_value(props[i].1, s, pos) {
            Outcome::Done(_, p) => lemma_parseable_no_tuple_props(props, i + 1, s, p),
            _ => {},
        }
    }
}

/// `n` consecutive values of type `elem`.
pub open spec fn spec_parse_array(elem: TypeV, s: Seq<u8>, pos: int, n: nat) -> Outcome<Seq<ArgVal>>
    decreases elem, n,
{
    if n == 0 {
        Outcome::Done(Seq::empty(), pos)
    } else {
        match spec_parse_value(elem, s, pos) {
            Outcome::Done(v, p) => match spec_parse_array(elem, s, p, (n - 1) as nat) {
                Outcome::Done(vs, e) => Outcome::Done(seq![v] + vs, e),
                o => o,
            },
            o => outcome_map_err(o),
        }
    }
}

/// The values of properties `i..` of a fixed dictionary, in order.
pub open spec fn spec_parse_props(props: Seq<(Seq<char>, TypeV)>, i: int, s: Seq<u8>, pos: int) -> Outcome<
    Seq<(Seq<char>, ArgVal)>,
>
    decreases props, props.len() - i,
    when 0 <= i <= props.len()
{
    if i >= props.len() {
        Outcome::Done(Seq::empty(), pos)
    } else {
        match spec_parse_value(props[i].1, s, pos) {
            Outcome::Done(v, p) => match spec_parse_props(props, i + 1, s, p) {
                Outcome::Done(vs, e) => Outcome::Done(seq![(props[i].0, v)] + vs, e),
                o => o,
            },
            o => outcome_map_err(o),
        }
    }
}

pub open spec fn err_matches<T>(e: ErrorKind, o: Outcome<T>, s: Seq<u8>) -> bool {
    match o {
        Outcome::Done(_, _) => false,
        Outcome::Eof => e is UnexpectedEof,
        Outcome::BadFlag(f, p) => match e {
            ErrorKind::UnknownFixedDictFlag { flag, packet } => flag == f && packet@ == s.subrange(
                p,
                s.len() as int,
            ),
            _ => false,
        },
    }
}

/// `r` is what the outcome `o` describes, for input `s`.
pub open spec fn value_result_matches(
    r: Result<(ArgValue, usize), ErrorKind>,
    o: Outcome<ArgVal>,
    s: Seq<u8>,
) -> bool {
    match r {
        Ok((v, np)) => o == Outcome::Done(val_view(v), np as int),
        Err(e) => err_matches(e, o, s),
    }
}

pub open spec fn vals_result_matches(
    r: Result<(Vec<ArgValue>, usize), ErrorKind>,
    o: Outcome<Seq<ArgVal>>,
    s: Seq<u8>,
) -> bool {
    match r {
        Ok((v, np)) => o == Outcome::Done(vals_view(v@), np as int),
        Err(e) => err_matches(e, o, s),
    }
}

pub open spec fn dict_result_matches(
    r: Result<(Vec<(String, ArgValue)>, usize), ErrorKind>,
    o: Outcome<Seq<(Seq<char>, ArgVal)>>,
    s: Seq<u8>,
) -> bool {
    match r {
        Ok((v, np)) => o == Outcome::Done(dict_view(v@), np as int),
        Err(e) => err_matches(e, o, s),
    }
}

pub open spec fn prepend_outcome<T>(prefix: Seq<T>, o: Outcome<Seq<T>>) -> Outcome<Seq<T>> {
    match o {
        Outcome::Done(vs, e) => Outcome::Done(prefix + vs, e),
        other => other,
    }
}

proof fn lemma_prepend_step<T>(prefix: Seq<T>, v: T, o: Outcome<Seq<T>>)
    ensures
        prepend_outcome(prefix, match o {
            Outcome::Done(vs, e) => Outcome::Done(seq![v] + vs, e),
            other => other,
        }) == prepend_outcome(prefix.push(v), o),
{
    match o {
        Outcome::Done(vs, e) => {
            assert(prefix + (seq![v] + vs) =~= prefix.push(v) + vs);
        },
        _ => {},
    }
}

proof fn lemma_prepend_empty<T>(o: Outcome<Seq<T>>)
    ensures
        prepend_outcome(Seq::empty(), o) == o,
{
    match o {
        Outcome::Done(vs, e) => {
            assert(Seq::<T>::empty() + vs =~= vs);
        },
        _ => {},
    }
}

/// Reads a length-prefixed byte string.
fn parse_sized_bytes(data: &[u8], pos: usize) -> (r: Option<(Vec<u8>, usize)>)
    ensures
        match r {
            Some((b, e)) => spec_sized_bytes(data@, pos as int) == Some((b@, e as int)),
            None => spec_sized_bytes(data@, pos as int) is None,
        },
{
    let (size, p) = match read_u8(data, pos) {
        Some(x) => x,
        None => return None,
    };
    proof {
        reveal_with_fuel(le_uint, 2);
    }
    if size == 0xff {
        let (size2, p2) = match read_u16(data, p) {
            Some(x) => x,
            None => return None,
        };
        let (_unknown, p3) = match read_u8(data, p2) {
            Some(x) => x,
            None => return None,
        };
        take(data, p3, size2 as usize)
    } else {
        take(data, p, size as usize)
    }
}

impl PrimitiveType {
    /// Decodes one value of this type at `pos`.
    pub fn parse_value(&self, data: &[u8], pos: usize) -> (r: Result<(ArgValue, usize), ErrorKind>)
        ensures
            value_result_matches(r, spec_parse_primitive(*self, data@, pos as int), data@),
    {
        match self {
            PrimitiveType::Uint8 => match read_u8(data, pos) {
                Some((v, p)) => Ok((ArgValue::Uint8(v), p)),
                None => Err(ErrorKind::UnexpectedEof),
            },
            PrimitiveType::Uint16 => match read_u16(data, pos) {
                Some((v, p)) => Ok((ArgValue::Uint16(v), p)),
                None => Err(ErrorKind::UnexpectedEof),
            },
            PrimitiveType::Uint32 => match read_u32(data, pos) {
                Some((v, p)) => Ok((ArgValue::Uint32(v), p)),
                None => Err(ErrorKind::UnexpectedEof),
            },
            PrimitiveType::Uint64 => match read_u64(data, pos) {
                Some((v, p)) => Ok((ArgValue::Uint64(v), p)),
                None => Err(ErrorKind::UnexpectedEof),
            },
            PrimitiveType::Int8 => match read_i8(data, pos) {
                Some((v, p)) => Ok((ArgValue::Int8(v), p)),
                None => Err(ErrorKind::UnexpectedEof),
            },
            PrimitiveType::Int16 => match read_i16(data, pos) {
                Some((v, p)) => Ok((ArgValue::Int16(v), p)),
                None => Err(ErrorKind::UnexpectedEof),
            },
            PrimitiveType::Int32 => match read_i32(data, pos) {
                Some((v, p)) => Ok((ArgValue::Int32(v), p)),
                None => Err(ErrorKind::UnexpectedEof),
            },
            PrimitiveType::Int64 => match read_i64(data, pos) {
                Some((v, p)) => Ok((ArgValue::Int64(v), p)),
                None => Err(ErrorKind::UnexpectedEof),
            },
            PrimitiveType::Float32 => match read_u32(data, pos) {
                Some((v, p)) => Ok((ArgValue::Float32(v), p)),
                None => Err(ErrorKind::UnexpectedEof),
            },
            PrimitiveType::Float64 => match read_u64(data, pos) {
                Some((v, p)) => Ok((ArgValue::Float64(v), p)),
                None => Err(ErrorKind::UnexpectedEof),
            },
            PrimitiveType::Vector2 => match read_u32(data, pos) {
                Some((x, p)) => match read_u32(data, p) {
                    Some((y, p)) => Ok((ArgValue::Vector2((x, y)), p)),
                    None => Err(ErrorKind::UnexpectedEof),
                },
                None => Err(ErrorKind::UnexpectedEof),
            },
            PrimitiveType::Vector3 => match read_u32(data, pos) {
                Some((x, p)) => match read_u32(data, p) {
                    Some((y, p)) => match read_u32(data, p) {
                        Some((z, p)) => Ok((ArgValue::Vector3((x, y, z)), p)),
                        None => Err(ErrorKind::UnexpectedEof),
                    },
                    None => Err(ErrorKind::UnexpectedEof),
                },
                None => Err(ErrorKind::UnexpectedEof),
            },
            PrimitiveType::String => match parse_sized_bytes(data, pos) {
                Some((b, p)) => Ok((ArgValue::String(b), p)),
                None => Err(ErrorKind::UnexpectedEof),
            },
            PrimitiveType::UnicodeString => match parse_sized_bytes(data, pos) {
                Some((b, p)) => Ok((ArgValue::UnicodeString(b), p)),
                None => Err(ErrorKind::UnexpectedEof),
            },
            PrimitiveType::Blob => match parse_sized_bytes(data, pos) {
                Some((b, p)) => Ok((ArgValue::Blob(b), p)),
                None => Err(ErrorKind::UnexpectedEof),
            },
        }
    }
}

impl ArgType {
    /// Decodes one value of this type at `pos`. Reading must not reach a
    /// tuple type, whose values cannot be read.
    pub fn parse_value(&self, data: &[u8], pos: usize) -> (r: Result<(ArgValue, usize), ErrorKind>)
        requires
            !hits_tuple(self@, data@, pos as int),
        ensures
            value_result_matches(r, spec_parse_value(self@, data@, pos as int), data@),
            fixed_shape(self@) && spec_sort_size(self@) < SORT_SIZE_INFINITY as int && pos + spec_sort_size(
                self@,
            ) <= data@.len() ==> (r matches Ok((_, end)) && end == pos + spec_sort_size(self@)),
        decreases self, 0nat,
    {
        proof {
            if fixed_shape(self@) && spec_sort_size(self@) < SORT_SIZE_INFINITY as int && pos + spec_sort_size(
                self@,
            ) <= data@.len() {
                lemma_fixed_size_consumed(self@, data@, pos as int);
            }
        }
        match self {
            ArgType::Primitive(p) => p.parse_value(data, pos),
            ArgType::Array((count, elem)) => {
                let (n, start): (u8, usize) = match count {
                    Some(c) => (*c as u8, pos),
                    None => match read_u8(data, pos) {
                        Some(x) => x,
                        None => return Err(ErrorKind::UnexpectedEof),
                    },
                };
                proof {
                    reveal_with_fuel(le_uint, 2);
                }
                match parse_elements(elem, data, start, n) {
                    Ok((vs, e)) => Ok((ArgValue::Array(vs), e)),
                    Err(e) => Err(e),
                }
            },
            ArgType::FixedDict((allow_none, props)) => {
                let mut p = pos;
                if *allow_none {
                    let (flag, np) = match read_u8(data, pos) {
                        Some(x) => x,
                        None => return Err(ErrorKind::UnexpectedEof),
                    };
                    proof {
                        reveal_with_fuel(le_uint, 2);
                    }
                    if flag == 0 {
                        return Ok((ArgValue::NullableFixedDict(None), np));
                    } else if flag != 1 {
                        let rest = match take(data, np, data.len() - np) {
                            Some((b, _)) => b,
                            None => return Err(ErrorKind::UnexpectedEof),
                        };
                        return Err(ErrorKind::UnknownFixedDictFlag { flag, packet: rest });
                    }
                    p = np;
                }
                match parse_properties(props, data, p) {
                    Ok((d, e)) => if *allow_none {
                        Ok((ArgValue::NullableFixedDict(Some(d)), e))
                    } else {
                        Ok((ArgValue::FixedDict(d), e))
                    },
                    Err(e) => Err(e),
                }
            },
            ArgType::Tuple(_) => {
                proof {
                    assert(false);
                }
                Err(ErrorKind::UnexpectedEof)
            },
        }
    }
}

/// Decodes `n` consecutive values of type `elem`.
fn parse_elements(elem: &ArgType, data: &[u8], pos: usize, n: u8) -> (r: Result<
    (Vec<ArgValue>, usize),
    ErrorKind,
>)
    requires
        !hits_tuple_array(elem@, data@, pos as int, n as nat),
    ensures
        vals_result_matches(r, spec_parse_array(elem@, data@, pos as int, n as nat), data@),
    decreases elem, 1nat,
{
    let mut values: Vec<ArgValue> = Vec::new();
    let mut p = pos;
    let mut k: u8 = 0;
    proof {
        lemma_prepend_empty(spec_parse_array(elem@, data@, pos as int, n as nat));
    }
    while k < n
        invariant
            k <= n,
            !hits_tuple_array(elem@, data@, p as int, (n - k) as nat),
            spec_parse_array(elem@, data@, pos as int, n as nat) == prepend_outcome(
                vals_view(values@),
                spec_parse_array(elem@, data@, p as int, (n - k) as nat),
            ),
        decreases n - k,
    {
        match elem.parse_value(data, p) {
            Ok((v, np)) => {
                proof {
                    lemma_prepend_step(
                        vals_view(values@),
                        val_view(v),
                        spec_parse_array(elem@, data@, np as int, (n - k - 1) as nat),
                    );
                    lemma_vals_view_push(values@, v);
                }
                values.push(v);
                p = np;
                k = k + 1;
            },
            Err(e) => {
                return Err(e);
            },
        }
    }
    proof {
        assert(vals_view(values@) + Seq::<ArgVal>::empty() =~= vals_view(values@));
    }
    Ok((values, p))
}

/// Decodes the properties of a fixed dictionary in order.
fn parse_properties(props: &Vec<FixedDictProperty>, data: &[u8], pos: usize) -> (r: Result<
    (Vec<(String, ArgValue)>, usize),
    ErrorKind,
>)
    requires
        !hits_tuple_props(props_view(props@), 0, data@, pos as int),
    ensures
        dict_result_matches(r, spec_parse_props(props_view(props@), 0, data@, pos as int), data@),
    decreases props, 1nat,
{
    let ghost pv = props_view(props@);
    let mut entries: Vec<(String, ArgValue)> = Vec::new();
    let mut p = pos;
    let mut k: usize = 0;
    proof {
        lemma_props_view_len(props@);
        lemma_prepend_empty(spec_parse_props(pv, 0, data@, pos as int));
    }
    while k < props.len()
        invariant
            k <= props@.len(),
            pv == props_view(props@),
            pv.len() == props@.len(),
            !hits_tuple_props(pv, k as int, data@, p as int),
            spec_parse_props(pv, 0, data@, pos as int) == prepend_outcome(
                dict_view(entries@),
                spec_parse_props(pv, k as int, data@, p as int),
            ),
        decreases props@.len() - k,
    {
        proof {
            lemma_props_view_index(props@, k as int);
        }
        let prop = &props[k];
        match prop.prop_type.parse_value(data, p) {
            Ok((v, np)) => {
                let name = prop.name.clone();
                proof {
                    lemma_prepend_step(
                        dict_view(entries@),
                        (pv[k as int].0, val_view(v)),
                        spec_parse_props(pv, k + 1, data@, np as int),
                    );
                    lemma_dict_view_push(entries@, (name, v));
                }
                entries.push((name, v));
                p = np;
                k = k + 1;
            },
            Err(e) => {
                return Err(e);
            },
        }
    }
    proof {
        assert(dict_view(entries@) + Seq::<(Seq<char>, ArgVal)>::empty() =~= dict_view(entries@));
    }
    Ok((entries, p))
}

/// The size that stands for "unbounded" in the sort order of properties
/// and methods.
pub const SORT_SIZE_INFINITY: usize = 0xffff;

/// The fixed encoded size of a primitive, or [`SORT_SIZE_INFINITY`] for the
/// length-prefixed ones.
pub open spec fn primitive_sort_size(p: PrimitiveType) -> int {
    match p {
        PrimitiveType::Uint8 => 1,
        PrimitiveType::Uint16 => 2,
        PrimitiveType::Uint32 => 4,
        PrimitiveType::Uint64 => 8,
        PrimitiveType::Int8 => 1,
        PrimitiveType::Int16 => 2,
        PrimitiveType::Int32 => 4,
        PrimitiveType::Int64 => 8,
        PrimitiveType::Float32 => 4,
        PrimitiveType::Float64 => 8,
        PrimitiveType::Vector2 => 8,
        PrimitiveType::Vector3 => 12,
        PrimitiveType::String => SORT_SIZE_INFINITY as int,
        PrimitiveType::UnicodeString => SORT_SIZE_INFINITY as int,
        PrimitiveType::Blob => SORT_SIZE_INFINITY as int,
    }
}

/// The key by which properties are ordered: the encoded size when it is
/// fixed, [`SORT_SIZE_INFINITY`] when it is not.
pub open spec fn spec_sort_size(t: TypeV) -> int
    decreases t, 0nat,
{
    match t {
        TypeV::Primitive(p) => primitive_sort_size(p),
        TypeV::Array(None, _) => SORT_SIZE_INFINITY as int,
        TypeV::Array(Some(count), elem) => {
            let s = spec_sort_size(*elem);
            if s == SORT_SIZE_INFINITY as int {
                SORT_SIZE_INFINITY as int
            } else {
                s * count
            }
        },
        TypeV::FixedDict(allow_none, props) => if allow_none {
            SORT_SIZE_INFINITY as int
        } else {
            props_sort_size(props, props.len() as int)
        },
        TypeV::Tuple(elem, count) => {
            let s = spec_sort_size(*elem);
            if s == SORT_SIZE_INFINITY as int {
                SORT_SIZE_INFINITY as int
            } else {
                s * count
            }
        },
    }
}

/// The sizes of the first `i` properties added up, where any unbounded
/// term, or a partial sum that lands on the unbounded value, makes the
/// result unbounded.
pub open spec fn props_sort_size(props: Seq<(Seq<char>, TypeV)>, i: int) -> int
    decreases props, i,
    when 0 <= i <= props.len()
{
    if i <= 0 {
        0
    } else {
        let a = props_sort_size(props, i - 1);
        let b = spec_sort_size(props[i - 1].1);
        if a == SORT_SIZE_INFINITY as int || b == SORT_SIZE_INFINITY as int {
            SORT_SIZE_INFINITY as int
        } else {
            a + b
        }
    }
}

/// Every product and sum formed while computing the sort size fits in a
/// `usize`.
pub open spec fn sort_size_fits(t: TypeV) -> bool
    decreases t, 0nat,
{
    match t {
        TypeV::Primitive(_) => true,
        TypeV::Array(None, _) => true,
        TypeV::Array(Some(count), elem) => sort_size_fits(*elem) && (spec_sort_size(*elem)
            == SORT_SIZE_INFINITY as int || spec_sort_size(*elem) * count <= usize::MAX),
        TypeV::FixedDict(allow_none, props) => allow_none || props_sort_size_fits(
            props,
            props.len() as int,
        ),
        TypeV::Tuple(elem, count) => sort_size_fits(*elem) && (spec_sort_size(*elem)
            == SORT_SIZE_INFINITY as int || spec_sort_size(*elem) * count <= usize::MAX),
    }
}

pub open spec fn props_sort_size_fits(props: Seq<(Seq<char>, TypeV)>, i: int) -> bool
    decreases props, i,
    when 0 <= i <= props.len()
{
    if i <= 0 {
        true
    } else {
        let a = props_sort_size(props, i - 1);
        let b = spec_sort_size(props[i - 1].1);
        props_sort_size_fits(props, i - 1) && sort_size_fits(props[i - 1].1) && (a
            == SORT_SIZE_INFINITY as int || b == SORT_SIZE_INFINITY as int || a + b <= usize::MAX)
    }
}

pub proof fn lemma_sort_size_nonneg(t: TypeV)
    ensures
        spec_sort_size(t) >= 0,
    decreases t, 0nat,
{
    match t {
        TypeV::Array(Some(count), elem) => {
            lemma_sort_size_nonneg(*elem);
            assert(spec_sort_size(*elem) * count >= 0) by (nonlinear_arith)
                requires
                    spec_sort_size(*elem) >= 0,
            ;
        },
        TypeV::Tuple(elem, count) => {
            lemma_sort_size_nonneg(*elem);
            assert(spec_sort_size(*elem) * count >= 0) by (nonlinear_arith)
                requires
                    spec_sort_size(*elem) >= 0,
            ;
        },
        TypeV::FixedDict(allow_none, props) => {
            if !allow_none {
                lemma_props_sort_size_nonneg(props, props.len() as int);
            }
        },
        _ => {},
    }
}

proof fn lemma_props_sort_size_nonneg(props: Seq<(Seq<char>, TypeV)>, i: int)
    requires
        0 <= i <= props.len(),
    ensures
        props_sort_size(props, i) >= 0,
    decreases props, i,
{
    if i > 0 {
        lemma_props_sort_size_nonneg(props, i - 1);
        lemma_sort_size_nonneg(props[i - 1].1);
    }
}

/// Where every intermediate sort size fits in a `usize`, so does the result.
pub proof fn lemma_sort_size_fits_bound(t: TypeV)
    requires
        sort_size_fits(t),
    ensures
        spec_sort_size(t) <= usize::MAX,
    decreases t, 0nat,
{
    match t {
        TypeV::Array(Some(count), elem) => {
            lemma_sort_size_fits_bound(*elem);
        },
        TypeV::Tuple(elem, count) => {
            lemma_sort_size_fits_bound(*elem);
        },
        TypeV::FixedDict(allow_none, props) => {
            if !allow_none {
                lemma_props_sort_size_fits_bound(props, props.len() as int);
            }
        },
        _ => {},
    }
}

proof fn lemma_props_sort_size_fits_bound(props: Seq<(Seq<char>, TypeV)>, i: int)
    requires
        0 <= i <= props.len(),
        props_sort_size_fits(props, i),
    ensures
        props_sort_size(props, i) <= usize::MAX,
    decreases props, i,
{
    if i > 0 {
        lemma_props_sort_size_fits_bound(props, i - 1);
        lemma_sort_size_fits_bound(props[i - 1].1);
    }
}

impl PrimitiveType {
    fn sort_size(&self) -> (r: usize)
        ensures
            r == primitive_sort_size(*self),
    {
        match self {
            PrimitiveType::Uint8 => 1,
            PrimitiveType::Uint16 => 2,
            PrimitiveType::Uint32 => 4,
            PrimitiveType::Uint64 => 8,
            PrimitiveType::Int8 => 1,
            PrimitiveType::Int16 => 2,
            PrimitiveType::Int32 => 4,
            PrimitiveType::Int64 => 8,
            PrimitiveType::Float32 => 4,
            PrimitiveType::Float64 => 8,
            PrimitiveType::Vector2 => 8,
            PrimitiveType::Vector3 => 12,
            PrimitiveType::String => SORT_SIZE_INFINITY,
            PrimitiveType::UnicodeString => SORT_SIZE_INFINITY,
            PrimitiveType::Blob => SORT_SIZE_INFINITY,
        }
    }
}

impl ArgType {
    /// The key by which properties of an entity are ordered.
    pub fn sort_size(&self) -> (r: usize)
        requires
            sort_size_fits(self@),
        ensures
            r == spec_sort_size(self@),
        decreases self, 0nat,
    {
        proof {
            lemma_sort_size_nonneg(self@);
        }
        match self {
            ArgType::Primitive(p) => p.sort_size(),
            ArgType::Array((None, _)) => SORT_SIZE_INFINITY,
            ArgType::Array((Some(count), elem)) => {
                let s = elem.sort_size();
                if s == SORT_SIZE_INFINITY {
                    SORT_SIZE_INFINITY
                } else {
                    s * *count
                }
            },
            ArgType::FixedDict((allow_none, props)) => {
                if *allow_none {
                    return SORT_SIZE_INFINITY;
                }
                proof {
                    lemma_props_view_len(props@);
                }
                props_sort_size_sum(props)
            },
            ArgType::Tuple((elem, count)) => {
                let s = elem.sort_size();
                if s == SORT_SIZE_INFINITY {
                    SORT_SIZE_INFINITY
                } else {
                    s * *count
                }
            },
        }
    }
}


/// Adds up the sort sizes of a fixed dictionary's properties.
fn props_sort_size_sum(props: &Vec<FixedDictProperty>) -> (r: usize)
    requires
        props_sort_size_fits(props_view(props@), props@.len() as int),
    ensures
        r == props_sort_size(props_view(props@), props@.len() as int),
    decreases props, 1nat,
{
    let ghost pv = props_view(props@);
    proof {
        lemma_props_view_len(props@);
    }
    let mut acc: usize = 0;
    let mut k: usize = 0;
    while k < props.len()
        invariant
            k <= props@.len(),
            pv == props_view(props@),
            pv.len() == props@.len(),
            props_sort_size_fits(pv, pv.len() as int),
            pv.len() == props@.len(),
            acc == props_sort_size(pv, k as int),
        decreases props@.len() - k,
    {
        proof {
            lemma_props_view_index(props@, k as int);
            lemma_props_fits_prefix(pv, k + 1, pv.len() as int);
            lemma_sort_size_nonneg(pv[k as int].1);
        }
        let b = props[k].prop_type.sort_size();
        if acc == SORT_SIZE_INFINITY || b == SORT_SIZE_INFINITY {
            acc = SORT_SIZE_INFINITY;
        } else {
            acc = acc + b;
        }
        k = k + 1;
    }
    acc
}

proof fn lemma_props_fits_prefix(props: Seq<(Seq<char>, TypeV)>, i: int, j: int)
    requires
        0 <= i <= j <= props.len(),
        props_sort_size_fits(props, j),
    ensures
        props_sort_size_fits(props, i),
    decreases j - i,
{
    if i < j {
        lemma_props_fits_prefix(props, i, j - 1);
    }
}

impl ArgType {
    /// The sort size, or `None` when computing it would overflow a `usize`.
    pub fn checked_sort_size(&self) -> (r: Option<usize>)
        ensures
            r is Some <==> sort_size_fits(self@),
            r matches Some(v) ==> v == spec_sort_size(self@),
        decreases self, 0nat,
    {
        proof {
            lemma_sort_size_nonneg(self@);
        }
        match self {
            ArgType::Primitive(p) => Some(p.sort_size()),
            ArgType::Array((None, _)) => Some(SORT_SIZE_INFINITY),
            ArgType::Array((Some(count), elem)) => {
                let s = match elem.checked_sort_size() {
                    Some(s) => s,
                    None => return None,
                };
                if s == SORT_SIZE_INFINITY {
                    Some(SORT_SIZE_INFINITY)
                } else {
                    s.checked_mul(*count)
                }
            },
            ArgType::FixedDict((allow_none, props)) => {
                if *allow_none {
                    return Some(SORT_SIZE_INFINITY);
                }
                proof {
                    lemma_props_view_len(props@);
                }
                props_checked_sort_size(props)
            },
            ArgType::Tuple((elem, count)) => {
                let s = match elem.checked_sort_size() {
                    Some(s) => s,
                    None => return None,
                };
                if s == SORT_SIZE_INFINITY {
                    Some(SORT_SIZE_INFINITY)
                } else {
                    s.checked_mul(*count)
                }
            },
        }
    }

    /// Whether reading a value of this type at `pos` of `data` reaches a
    /// tuple type, whose values cannot be read.
    pub fn reaches_tuple(&self, data: &[u8], pos: usize) -> (r: bool)
        ensures
            r == hits_tuple(self@, data@, pos as int),
        decreases self, 0nat,
    {
        match self {
            ArgType::Primitive(_) => false,
            ArgType::Array((count, elem)) => {
                let (n, start): (u8, usize) = match count {
                    Some(c) => (*c as u8, pos),
                    None => match read_u8(data, pos) {
                        Some(x) => x,
                        None => return false,
                    },
                };
                proof {
                    reveal_with_fuel(le_uint, 2);
                }
                elements_reach_tuple(elem, data, start, n)
            },
            ArgType::FixedDict((allow_none, props)) => {
                let mut p = pos;
                if *allow_none {
                    let (flag, np) = match read_u8(data, pos) {
                        Some(x) => x,
                        None => return false,
                    };
                    proof {
                        reveal_with_fuel(le_uint, 2);
                    }
                    if flag != 1 {
                        return false;
                    }
                    p = np;
                }
                properties_reach_tuple(props, data, p)
            },
            ArgType::Tuple(_) => true,
        }
    }
}

/// Whether reading `n` consecutive values of type `elem` reaches a tuple.
fn elements_reach_tuple(elem: &ArgType, data: &[u8], pos: usize, n: u8) -> (r: bool)
    ensures
        r == hits_tuple_array(elem@, data@, pos as int, n as nat),
    decreases elem, 1nat,
{
    let mut p = pos;
    let mut k: u8 = 0;
    while k < n
        invariant
            k <= n,
            hits_tuple_array(elem@, data@, pos as int, n as nat) == hits_tuple_array(
                elem@,
                data@,
                p as int,
                (n - k) as nat,
            ),
        decreases n - k,
    {
        if elem.reaches_tuple(data, p) {
            return true;
        }
        match elem.parse_value(data, p) {
            Ok((_, np)) => {
                p = np;
                k = k + 1;
            },
            Err(_) => {
                return false;
            },
        }
    }
    false
}

/// Whether reading the properties of a fixed dictionary reaches a tuple.
fn properties_reach_tuple(props: &Vec<FixedDictProperty>, data: &[u8], pos: usize) -> (r: bool)
    ensures
        r == hits_tuple_props(props_view(props@), 0, data@, pos as int),
    decreases props, 1nat,
{
    let ghost pv = props_view(props@);
    let mut p = pos;
    let mut k: usize = 0;
    proof {
        lemma_props_view_len(props@);
    }
    while k < props.len()
        invariant
            k <= props@.len(),
            pv == props_view(props@),
            pv.len() == props@.len(),
            hits_tuple_props(pv, 0, data@, pos as int) == hits_tuple_props(pv, k as int, data@, p as int),
        decreases props@.len() - k,
    {
        proof {
            lemma_props_view_index(props@, k as int);
        }
        let prop = &props[k];
        if prop.prop_type.reaches_tuple(data, p) {
            return true;
        }
        match prop.prop_type.parse_value(data, p) {
            Ok((_, np)) => {
                p = np;
                k = k + 1;
            },
            Err(_) => {
                return false;
            },
        }
    }
    false
}

fn props_checked_sort_size(props: &Vec<FixedDictProperty>) -> (r: Option<usize>)
    ensures
        r is Some <==> props_sort_size_fits(props_view(props@), props@.len() as int),
        r matches Some(v) ==> v == props_sort_size(props_view(props@), props@.len() as int),
    decreases props, 1nat,
{
    let ghost pv = props_view(props@);
    proof {
        lemma_props_view_len(props@);
    }
    let mut acc: usize = 0;
    let mut k: usize = 0;
    while k < props.len()
        invariant
            k <= props@.len(),
            pv == props_view(props@),
            pv.len() == props@.len(),
            props_sort_size_fits(pv, k as int),
            acc == props_sort_size(pv, k as int),
        decreases props@.len() - k,
    {
        proof {
            lemma_props_view_index(props@, k as int);
            lemma_sort_size_nonneg(pv[k as int].1);
        }
        let b = match props[k].prop_type.checked_sort_size() {
            Some(b) => b,
            None => {
                proof {
                    lemma_props_fits_prefix_neg(pv, k + 1, pv.len() as int);
                }
                return None;
            },
        };
        if acc == SORT_SIZE_INFINITY || b == SORT_SIZE_INFINITY {
            acc = SORT_SIZE_INFINITY;
        } else {
            match acc.checked_add(b) {
                Some(v) => acc = v,
                None => {
                    proof {
                        lemma_props_fits_prefix_neg(pv, k + 1, pv.len() as int);
                    }
                    return None;
                },
            }
        }
        k = k + 1;
    }
    Some(acc)
}

proof fn lemma_props_fits_prefix_neg(props: Seq<(Seq<char>, TypeV)>, i: int, j: int)
    requires
        0 <= i <= j <= props.len(),
        !props_sort_size_fits(props, i),
    ensures
        !props_sort_size_fits(props, j),
{
    if props_sort_size_fits(props, j) {
        lemma_props_fits_prefix(props, i, j);
    }
}

impl Clone for ArgType {
    fn clone(&self) -> (r: Self)
        ensures
            r@ == self@,
        decreases self, 0nat,
    {
        match self {
            ArgType::Primitive(p) => ArgType::Primitive(*p),
            ArgType::Array((count, elem)) => {
                let e: ArgType = (**elem).clone();
                ArgType::Array((*count, Box::new(e)))
            },
            ArgType::FixedDict((allow_none, props)) => ArgType::FixedDict(
                (*allow_none, clone_props(props)),
            ),
            ArgType::Tuple((elem, count)) => {
                let e: ArgType = (**elem).clone();
                ArgType::Tuple((Box::new(e), *count))
            },
        }
    }
}

fn clone_props(props: &Vec<FixedDictProperty>) -> (r: Vec<FixedDictProperty>)
    ensures
        props_view(r@) == props_view(props@),
    decreases props, 1nat,
{
    let mut out: Vec<FixedDictProperty> = Vec::new();
    let mut k: usize = 0;
    while k < props.len()
        invariant
            k <= props@.len(),
            props_view(out@) == props_view(props@.subrange(0, k as int)),
        decreases props@.len() - k,
    {
        let p = FixedDictProperty { name: props[k].name.clone(), prop_type: props[k].prop_type.clone() };
        proof {
            lemma_props_view_push(out@, p);
            lemma_props_view_push(props@.subrange(0, k as int), props@[k as int]);
            assert(props@.subrange(0, k as int).push(props@[k as int]) =~= props@.subrange(
                0,
                k + 1,
            ));
        }
        out.push(p);
        k = k + 1;
    }
    proof {
        assert(props@.subrange(0, props@.len() as int) =~= props@);
    }
    out
}

impl Clone for FixedDictProperty {
    fn clone(&self) -> (r: Self)
        ensures
            r.name@ == self.name@,
            r.prop_type@ == self.prop_type@,
    {
        FixedDictProperty { name: self.name.clone(), prop_type: self.prop_type.clone() }
    }
}

impl ArgValue {
    /// A deep copy of this value.
    pub fn duplicate(&self) -> (r: Self)
        ensures
            r@ == self@,
        decreases self, 0nat,
    {
        match self {
            ArgValue::Uint8(x) => ArgValue::Uint8(*x),
            ArgValue::Uint16(x) => ArgValue::Uint16(*x),
            ArgValue::Uint32(x) => ArgValue::Uint32(*x),
            ArgValue::Uint64(x) => ArgValue::Uint64(*x),
            ArgValue::Int8(x) => ArgValue::Int8(*x),
            ArgValue::Int16(x) => ArgValue::Int16(*x),
            ArgValue::Int32(x) => ArgValue::Int32(*x),
            ArgValue::Int64(x) => ArgValue::Int64(*x),
            ArgValue::Float32(x) => ArgValue::Float32(*x),
            ArgValue::Float64(x) => ArgValue::Float64(*x),
            ArgValue::Vector2((x, y)) => ArgValue::Vector2((*x, *y)),
            ArgValue::Vector3((x, y, z)) => ArgValue::Vector3((*x, *y, *z)),
            ArgValue::String(b) => ArgValue::String(copy_bytes(b)),
            ArgValue::UnicodeString(b) => ArgValue::UnicodeString(copy_bytes(b)),
            ArgValue::Blob(b) => ArgValue::Blob(copy_bytes(b)),
            ArgValue::Array(xs) => ArgValue::Array(duplicate_values(xs)),
            ArgValue::FixedDict(d) => ArgValue::FixedDict(duplicate_entries(d)),
            ArgValue::NullableFixedDict(o) => match o {
                Some(d) => ArgValue::NullableFixedDict(Some(duplicate_entries(d))),
                None => ArgValue::NullableFixedDict(None),
            },
            ArgValue::Tuple(xs) => ArgValue::Tuple(duplicate_values(xs)),
        }
    }
}

/// A copy of a byte vector.
pub fn copy_bytes(b: &Vec<u8>) -> (r: Vec<u8>)
    ensures
        r@ == b@,
{
    let mut out: Vec<u8> = Vec::with_capacity(b.len());
    let mut k: usize = 0;
    while k < b.len()
        invariant
            k <= b@.len(),
            out@ == b@.subrange(0, k as int),
        decreases b@.len() - k,
    {
        out.push(b[k]);
        k = k + 1;
    }
    proof {
        assert(b@.subrange(0, b@.len() as int) =~= b@);
    }
    out
}

pub(crate) fn duplicate_values(xs: &Vec<ArgValue>) -> (r: Vec<ArgValue>)
    ensures
        vals_view(r@) == vals_view(xs@),
    decreases xs, 1nat,
{
    let mut out: Vec<ArgValue> = Vec::new();
    let mut k: usize = 0;
    while k < xs.len()
        invariant
            k <= xs@.len(),
            vals_view(out@) == vals_view(xs@.subrange(0, k as int)),
        decreases xs@.len() - k,
    {
        let v = xs[k].duplicate();
        proof {
            lemma_vals_view_push(out@, v);
            lemma_vals_view_push(xs@.subrange(0, k as int), xs@[k as int]);
            assert(xs@.subrange(0, k as int).push(xs@[k as int]) =~= xs@.subrange(0, k + 1));
        }
        out.push(v);
        k = k + 1;
    }
    proof {
        assert(xs@.subrange(0, xs@.len() as int) =~= xs@);
    }
    out
}

pub(crate) fn duplicate_entries(xs: &Vec<(String, ArgValue)>) -> (r: Vec<(String, ArgValue)>)
    ensures
        dict_view(r@) == dict_view(xs@),
    decreases xs, 1nat,
{
    let mut out: Vec<(String, ArgValue)> = Vec::new();
    let mut k: usize = 0;
    while k < xs.len()
        invariant
            k <= xs@.len(),
            dict_view(out@) == dict_view(xs@.subrange(0, k as int)),
        decreases xs@.len() - k,
    {
        let e = (xs[k].0.clone(), xs[k].1.duplicate());
        proof {
            lemma_dict_view_push(out@, e);
            lemma_dict_view_push(xs@.subrange(0, k as int), xs@[k as int]);
            assert(xs@.subrange(0, k as int).push(xs@[k as int]) =~= xs@.subrange(0, k + 1));
        }
        out.push(e);
        k = k + 1;
    }
    proof {
        assert(xs@.subrange(0, xs@.len() as int) =~= xs@);
    }
    out
}

/// A decoded value ends within the input, at or after where it started.
pub proof fn lemma_parse_value_bounds(t: TypeV, s: Seq<u8>, pos: int)
    requires
        0 <= pos <= s.len(),
    ensures
        spec_parse_value(t, s, pos) matches Outcome::Done(_, e) ==> pos <= e <= s.len(),
    decreases t, 0nat,
{
    reveal_with_fuel(le_uint, 3);
    match t {
        TypeV::Array(count, elem) => {
            let (n, start) = match count {
                Some(c) => ((c as u8) as nat, pos),
                None => if fits(s, pos, 1) {
                    (s[pos] as nat, pos + 1)
                } else {
                    (0nat, -1)
                },
            };
            if start >= 0 {
                lemma_parse_array_bounds(*elem, s, start, n);
            }
        },
        TypeV::FixedDict(allow_none, props) => {
            if allow_none {
                if pos + 1 <= s.len() {
                    lemma_parse_props_bounds(props, 0, s, pos + 1);
                }
            } else {
                lemma_parse_props_bounds(props, 0, s, pos);
            }
        },
        _ => {},
    }
}

pub proof fn lemma_parse_array_bounds(elem: TypeV, s: Seq<u8>, pos: int, n: nat)
    requires
        0 <= pos <= s.len(),
    ensures
        spec_parse_array(elem, s, pos, n) matches Outcome::Done(_, e) ==> pos <= e <= s.len(),
    decreases elem, n,
{
    if n > 0 {
        lemma_parse_value_bounds(elem, s, pos);
        match spec_parse_value(elem, s, pos) {
            Outcome::Done(v, p) => {
                lemma_parse_array_bounds(elem, s, p, (n - 1) as nat);
            },
            _ => {},
        }
    }
}

pub proof fn lemma_parse_props_bounds(props: Seq<(Seq<char>, TypeV)>, i: int, s: Seq<u8>, pos: int)
    requires
        0 <= pos <= s.len(),
        0 <= i <= props.len(),
    ensures
        spec_parse_props(props, i, s, pos) matches Outcome::Done(_, e) ==> pos <= e <= s.len(),
    decreases props, props.len() - i,
{
    if i < props.len() {
        lemma_parse_value_bounds(props[i].1, s, pos);
        match spec_parse_value(props[i].1, s, pos) {
            Outcome::Done(v, p) => {
                lemma_parse_props_bounds(props, i + 1, s, p);
            },
            _ => {},
        }
    }
}

/// The view of a sequence of values, element by element.
pub proof fn lemma_vals_view_ext(xs: Seq<ArgValue>)
    ensures
        vals_view(xs) =~= Seq::new(xs.len(), |i: int| val_view(xs[i])),
{
    lemma_vals_view_len(xs);
    assert forall|i: int| 0 <= i < xs.len() implies vals_view(xs)[i] == val_view(xs[i]) by {
        lemma_vals_view_index(xs, i);
    }
}

pub proof fn lemma_dict_view_len(xs: Seq<(String, ArgValue)>)
    ensures
        dict_view(xs).len() == xs.len(),
    decreases xs.len(),
{
    if xs.len() > 0 {
        lemma_dict_view_len(xs.drop_last());
    }
}

pub proof fn lemma_dict_view_index(xs: Seq<(String, ArgValue)>, i: int)
    requires
        0 <= i < xs.len(),
    ensures
        dict_view(xs).len() == xs.len(),
        dict_view(xs)[i] == (xs[i].0@, val_view(xs[i].1)),
    decreases xs.len(),
{
    lemma_dict_view_len(xs);
    if i < xs.len() - 1 {
        lemma_dict_view_index(xs.drop_last(), i);
    }
}

/// The view of a dictionary, entry by entry.
pub proof fn lemma_dict_view_ext(xs: Seq<(String, ArgValue)>)
    ensures
        dict_view(xs) =~= Seq::new(xs.len(), |i: int| (xs[i].0@, val_view(xs[i].1))),
{
    lemma_dict_view_len(xs);
    assert forall|i: int| 0 <= i < xs.len() implies dict_view(xs)[i] == (xs[i].0@, val_view(xs[i].1)) by {
        lemma_dict_view_index(xs, i);
    }
}


/// The value stored under key `k` in dictionary `d`: the last entry with
/// that key wins, as when the entries are inserted into a map in order.
pub open spec fn dict_lookup(d: Seq<(Seq<char>, ArgVal)>, k: Seq<char>) -> Option<ArgVal>
    decreases d.len(),
{
    if d.len() == 0 {
        None
    } else if d.last().0 == k {
        Some(d.last().1)
    } else {
        dict_lookup(d.drop_last(), k)
    }
}

/// The value stored under key `k` in `d`, as [`dict_lookup`] says.
pub fn dict_get<'a>(d: &'a Vec<(String, ArgValue)>, k: &str) -> (r: Option<&'a ArgValue>)
    ensures
        match r {
            Some(v) => dict_lookup(dict_view(d@), k@) == Some(val_view(*v)),
            None => dict_lookup(dict_view(d@), k@) is None,
        },
{
    proof {
        lemma_dict_view_ext(d@);
    }
    let ghost dv = dict_view(d@);
    let mut j: usize = d.len();
    proof {
        assert(dv.subrange(0, j as int) =~= dv);
    }
    while j > 0
        invariant
            j <= d@.len(),
            dv == dict_view(d@),
            dv.len() == d@.len(),
            forall|i: int| 0 <= i < d@.len() ==> #[trigger] dv[i] == (d@[i].0@, val_view(d@[i].1)),
            dict_lookup(dv, k@) == dict_lookup(dv.subrange(0, j as int), k@),
        decreases j,
    {
        let ghost sub = dv.subrange(0, j as int);
        proof {
            assert(sub.drop_last() =~= dv.subrange(0, j - 1));
            assert(sub.last() == dv[j - 1]);
        }
        if crate::text::str_eq(d[j - 1].0.as_str(), k) {
            return Some(&d[j - 1].1);
        }
        j = j - 1;
    }
    None
}


/// Type aliases of the entity definitions: each name with its type. A name
/// given twice means its last type.
pub type TypeAliases = Vec<(String, ArgType)>;

pub open spec fn aliases_view(a: Seq<(String, ArgType)>) -> Seq<(Seq<char>, TypeV)> {
    Seq::new(a.len(), |i: int| (a[i].0@, a[i].1@))
}

/// The type that the alias `k` stands for (its last definition).
pub open spec fn alias_lookup(a: Seq<(Seq<char>, TypeV)>, k: Seq<char>) -> Option<TypeV>
    decreases a.len(),
{
    if a.len() == 0 {
        None
    } else if a.last().0 == k {
        Some(a.last().1)
    } else {
        alias_lookup(a.drop_last(), k)
    }
}

/// The scalar type that a type name denotes. `FLOAT` is a 32-bit float,
/// and the types this parser does not decode (`USER_TYPE`, `MAILBOX`,
/// `PYTHON`) are read as blobs.
pub open spec fn spec_primitive_named(t: Seq<char>) -> Option<PrimitiveType> {
    if t == "UINT8"@ {
        Some(PrimitiveType::Uint8)
    } else if t == "UINT16"@ {
        Some(PrimitiveType::Uint16)
    } else if t == "UINT32"@ {
        Some(PrimitiveType::Uint32)
    } else if t == "UINT64"@ {
        Some(PrimitiveType::Uint64)
    } else if t == "INT8"@ {
        Some(PrimitiveType::Int8)
    } else if t == "INT16"@ {
        Some(PrimitiveType::Int16)
    } else if t == "INT32"@ {
        Some(PrimitiveType::Int32)
    } else if t == "INT64"@ {
        Some(PrimitiveType::Int64)
    } else if t == "FLOAT32"@ {
        Some(PrimitiveType::Float32)
    } else if t == "FLOAT"@ {
        Some(PrimitiveType::Float32)
    } else if t == "STRING"@ {
        Some(PrimitiveType::String)
    } else if t == "UNICODE_STRING"@ {
        Some(PrimitiveType::UnicodeString)
    } else if t == "VECTOR2"@ {
        Some(PrimitiveType::Vector2)
    } else if t == "VECTOR3"@ {
        Some(PrimitiveType::Vector3)
    } else if t == "BLOB"@ {
        Some(PrimitiveType::Blob)
    } else if t == "USER_TYPE"@ {
        Some(PrimitiveType::Blob)
    } else if t == "MAILBOX"@ {
        Some(PrimitiveType::Blob)
    } else if t == "PYTHON"@ {
        Some(PrimitiveType::Blob)
    } else {
        None
    }
}

/// The name by which the definition scripts write primitive `p`, where
/// they have one: `UINTn` for the unsigned and `INTn` for the signed
/// integer of `n` bits, `FLOAT32` for the 32-bit float, and so on. The
/// 64-bit float has no name there.
pub open spec fn primitive_script_name(p: PrimitiveType) -> Option<Seq<char>> {
    match p {
        PrimitiveType::Uint8 => Some("UINT8"@),
        PrimitiveType::Uint16 => Some("UINT16"@),
        PrimitiveType::Uint32 => Some("UINT32"@),
        PrimitiveType::Uint64 => Some("UINT64"@),
        PrimitiveType::Int8 => Some("INT8"@),
        PrimitiveType::Int16 => Some("INT16"@),
        PrimitiveType::Int32 => Some("INT32"@),
        PrimitiveType::Int64 => Some("INT64"@),
        PrimitiveType::Float32 => Some("FLOAT32"@),
        PrimitiveType::Vector2 => Some("VECTOR2"@),
        PrimitiveType::Vector3 => Some("VECTOR3"@),
        PrimitiveType::String => Some("STRING"@),
        PrimitiveType::UnicodeString => Some("UNICODE_STRING"@),
        PrimitiveType::Blob => Some("BLOB"@),
        PrimitiveType::Float64 => None,
    }
}

/// Each named primitive is what its own name denotes; and a name denotes
/// a primitive only as that primitive's own name, or as one of the aliases
/// `FLOAT` (the 32-bit float) and `USER_TYPE`, `MAILBOX`, `PYTHON` (read
/// as blobs).
pub proof fn lemma_primitive_names(t: Seq<char>, p: PrimitiveType)
    ensures
        primitive_script_name(p) matches Some(n) ==> spec_primitive_named(n) == Some(p),
        spec_primitive_named(t) == Some(p) ==> primitive_script_name(p) == Some(t) || (t == "FLOAT"@ && p
            == PrimitiveType::Float32) || ((t == "USER_TYPE"@ || t == "MAILBOX"@ || t == "PYTHON"@) && p
            == PrimitiveType::Blob),
        spec_primitive_named("FLOAT"@) == Some(PrimitiveType::Float32),
        spec_primitive_named("USER_TYPE"@) == Some(PrimitiveType::Blob),
        spec_primitive_named("MAILBOX"@) == Some(PrimitiveType::Blob),
        spec_primitive_named("PYTHON"@) == Some(PrimitiveType::Blob),
{
    reveal_strlit("UINT8");
    reveal_strlit("UINT16");
    reveal_strlit("UINT32");
    reveal_strlit("UINT64");
    reveal_strlit("INT8");
    reveal_strlit("INT16");
    reveal_strlit("INT32");
    reveal_strlit("INT64");
    reveal_strlit("FLOAT32");
    reveal_strlit("VECTOR2");
    reveal_strlit("VECTOR3");
    reveal_strlit("STRING");
    reveal_strlit("UNICODE_STRING");
    reveal_strlit("BLOB");
    reveal_strlit("FLOAT");
    reveal_strlit("USER_TYPE");
    reveal_strlit("MAILBOX");
    reveal_strlit("PYTHON");
    assert("UINT16"@ != "UINT8"@) by { assert("UINT16"@.len() != "UINT8"@.len()); }
    assert("UINT32"@ != "UINT8"@) by { assert("UINT32"@.len() != "UINT8"@.len()); }
    assert("UINT32"@ != "UINT16"@) by { assert("UINT32"@[4] != "UINT16"@[4]); }
    assert("UINT64"@ != "UINT8"@) by { assert("UINT64"@.len() != "UINT8"@.len()); }
    assert("UINT64"@ != "UINT16"@) by { assert("UINT64"@[4] != "UINT16"@[4]); }
    assert("UINT64"@ != "UINT32"@) by { assert("UINT64"@[4] != "UINT32"@[4]); }
    assert("INT8"@ != "UINT8"@) by { assert("INT8"@.len() != "UINT8"@.len()); }
    assert("INT8"@ != "UINT16"@) by { assert("INT8"@.len() != "UINT16"@.len()); }
    assert("INT8"@ != "UINT32"@) by { assert("INT8"@.len() != "UINT32"@.len()); }
    assert("INT8"@ != "UINT64"@) by { assert("INT8"@.len() != "UINT64"@.len()); }
    assert("INT16"@ != "UINT8"@) by { assert("INT16"@[0] != "UINT8"@[0]); }
    assert("INT16"@ != "UINT16"@) by { assert("INT16"@.len() != "UINT16"@.len()); }
    assert("INT16"@ != "UINT32"@) by { assert("INT16"@.len() != "UINT32"@.len()); }
    assert("INT16"@ != "UINT64"@) by { assert("INT16"@.len() != "UINT64"@.len()); }
    assert("INT16"@ != "INT8"@) by { assert("INT16"@.len() != "INT8"@.len()); }
    assert("INT32"@ != "UINT8"@) by { assert("INT32"@[0] != "UINT8"@[0]); }
    assert("INT32"@ != "UINT16"@) by { assert("INT32"@.len() != "UINT16"@.len()); }
    assert("INT32"@ != "UINT32"@) by { assert("INT32"@.len() != "UINT32"@.len()); }
    assert("INT32"@ != "UINT64"@) by { assert("INT32"@.len() != "UINT64"@.len()); }
    assert("INT32"@ != "INT8"@) by { assert("INT32"@.len() != "INT8"@.len()); }
    assert("INT32"@ != "INT16"@) by { assert("INT32"@[3] != "INT16"@[3]); }
    assert("INT64"@ != "UINT8"@) by { assert("INT64"@[0] != "UINT8"@[0]); }
    assert("INT64"@ != "UINT16"@) by { assert("INT64"@.len() != "UINT16"@.len()); }
    assert("INT64"@ != "UINT32"@) by { assert("INT64"@.len() != "UINT32"@.len()); }
    assert("INT64"@ != "UINT64"@) by { assert("INT64"@.len() != "UINT64"@.len()); }
    assert("INT64"@ != "INT8"@) by { assert("INT64"@.len() != "INT8"@.len()); }
    assert("INT64"@ != "INT16"@) by { assert("INT64"@[3] != "INT16"@[3]); }
    assert("INT64"@ != "INT32"@) by { assert("INT64"@[3] != "INT32"@[3]); }
    assert("FLOAT32"@ != "UINT8"@) by { assert("FLOAT32"@.len() != "UINT8"@.len()); }
    assert("FLOAT32"@ != "UINT16"@) by { assert("FLOAT32"@.len() != "UINT16"@.len()); }
    assert("FLOAT32"@ != "UINT32"@) by { assert("FLOAT32"@.len() != "UINT32"@.len()); }
    assert("FLOAT32"@ != "UINT64"@) by { assert("FLOAT32"@.len() != "UINT64"@.len()); }
    assert("FLOAT32"@ != "INT8"@) by { assert("FLOAT32"@.len() != "INT8"@.len()); }
    assert("FLOAT32"@ != "INT16"@) by { assert("FLOAT32"@.len() != "INT16"@.len()); }
    assert("FLOAT32"@ != "INT32"@) by { assert("FLOAT32"@.len() != "INT32"@.len()); }
    assert("FLOAT32"@ != "INT64"@) by { assert("FLOAT32"@.len() != "INT64"@.len()); }
    assert("FLOAT"@ != "UINT8"@) by { assert("FLOAT"@[0] != "UINT8"@[0]); }
    assert("FLOAT"@ != "UINT16"@) by { assert("FLOAT"@.len() != "UINT16"@.len()); }
    assert("FLOAT"@ != "UINT32"@) by { assert("FLOAT"@.len() != "UINT32"@.len()); }
    assert("FLOAT"@ != "UINT64"@) by { assert("FLOAT"@.len() != "UINT64"@.len()); }
    assert("FLOAT"@ != "INT8"@) by { assert("FLOAT"@.len() != "INT8"@.len()); }
    assert("FLOAT"@ != "INT16"@) by { assert("FLOAT"@[0] != "INT16"@[0]); }
    assert("FLOAT"@ != "INT32"@) by { assert("FLOAT"@[0] != "INT32"@[0]); }
    assert("FLOAT"@ != "INT64"@) by { assert("FLOAT"@[0] != "INT64"@[0]); }
    assert("FLOAT"@ != "FLOAT32"@) by { assert("FLOAT"@.len() != "FLOAT32"@.len()); }
    assert("STRING"@ != "UINT8"@) by { assert("STRING"@.len() != "UINT8"@.len()); }
    assert("STRING"@ != "UINT16"@) by { assert("STRING"@[0] != "UINT16"@[0]); }
    assert("STRING"@ != "UINT32"@) by { assert("STRING"@[0] != "UINT32"@[0]); }
    assert("STRING"@ != "UINT64"@) by { assert("STRING"@[0] != "UINT64"@[0]); }
    assert("STRING"@ != "INT8"@) by { assert("STRING"@.len() != "INT8"@.len()); }
    assert("STRING"@ != "INT16"@) by { assert("STRING"@.len() != "INT16"@.len()); }
    assert("STRING"@ != "INT32"@) by { assert("STRING"@.len() != "INT32"@.len()); }
    assert("STRING"@ != "INT64"@) by { assert("STRING"@.len() != "INT64"@.len()); }
    assert("STRING"@ != "FLOAT32"@) by { assert("STRING"@.len() != "FLOAT32"@.len()); }
    assert("STRING"@ != "FLOAT"@) by { assert("STRING"@.len() != "FLOAT"@.len()); }
    assert("UNICODE_STRING"@ != "UINT8"@) by { assert("UNICODE_STRING"@.len() != "UINT8"@.len()); }
    assert("UNICODE_STRING"@ != "UINT16"@) by { assert("UNICODE_STRING"@.len() != "UINT16"@.len()); }
    assert("UNICODE_STRING"@ != "UINT32"@) by { assert("UNICODE_STRING"@.len() != "UINT32"@.len()); }
    assert("UNICODE_STRING"@ != "UINT64"@) by { assert("UNICODE_STRING"@.len() != "UINT64"@.len()); }
    assert("UNICODE_STRING"@ != "INT8"@) by { assert("UNICODE_STRING"@.len() != "INT8"@.len()); }
    assert("UNICODE_STRING"@ != "INT16"@) by { assert("UNICODE_STRING"@.len() != "INT16"@.len()); }
    assert("UNICODE_STRING"@ != "INT32"@) by { assert("UNICODE_STRING"@.len() != "INT32"@.len()); }
    assert("UNICODE_STRING"@ != "INT64"@) by { assert("UNICODE_STRING"@.len() != "INT64"@.len()); }
    assert("UNICODE_STRING"@ != "FLOAT32"@) by { assert("UNICODE_STRING"@.len() != "FLOAT32"@.len()); }
    assert("UNICODE_STRING"@ != "FLOAT"@) by { assert("UNICODE_STRING"@.len() != "FLOAT"@.len()); }
    assert("UNICODE_STRING"@ != "STRING"@) by { assert("UNICODE_STRING"@.len() != "STRING"@.len()); }
    assert("VECTOR2"@ != "UINT8"@) by { assert("VECTOR2"@.len() != "UINT8"@.len()); }
    assert("VECTOR2"@ != "UINT16"@) by { assert("VECTOR2"@.len() != "UINT16"@.len()); }
    assert("VECTOR2"@ != "UINT32"@) by { assert("VECTOR2"@.len() != "UINT32"@.len()); }
    assert("VECTOR2"@ != "UINT64"@) by { assert("VECTOR2"@.len() != "UINT64"@.len()); }
    assert("VECTOR2"@ != "INT8"@) by { assert("VECTOR2"@.len() != "INT8"@.len()); }
    assert("VECTOR2"@ != "INT16"@) by { assert("VECTOR2"@.len() != "INT16"@.len()); }
    assert("VECTOR2"@ != "INT32"@) by { assert("VECTOR2"@.len() != "INT32"@.len()); }
    assert("VECTOR2"@ != "INT64"@) by { assert("VECTOR2"@.len() != "INT64"@.len()); }
    assert("VECTOR2"@ != "FLOAT32"@) by { assert("VECTOR2"@[0] != "FLOAT32"@[0]); }
    assert("VECTOR2"@ != "FLOAT"@) by { assert("VECTOR2"@.len() != "FLOAT"@.len()); }
    assert("VECTOR2"@ != "STRING"@) by { assert("VECTOR2"@.len() != "STRING"@.len()); }
    assert("VECTOR2"@ != "UNICODE_STRING"@) by { assert("VECTOR2"@.len() != "UNICODE_STRING"@.len()); }
    assert("VECTOR3"@ != "UINT8"@) by { assert("VECTOR3"@.len() != "UINT8"@.len()); }
    assert("VECTOR3"@ != "UINT16"@) by { assert("VECTOR3"@.len() != "UINT16"@.len()); }
    assert("VECTOR3"@ != "UINT32"@) by { assert("VECTOR3"@.len() != "UINT32"@.len()); }
    assert("VECTOR3"@ != "UINT64"@) by { assert("VECTOR3"@.len() != "UINT64"@.len()); }
    assert("VECTOR3"@ != "INT8"@) by { assert("VECTOR3"@.len() != "INT8"@.len()); }
    assert("VECTOR3"@ != "INT16"@) by { assert("VECTOR3"@.len() != "INT16"@.len()); }
    assert("VECTOR3"@ != "INT32"@) by { assert("VECTOR3"@.len() != "INT32"@.len()); }
    assert("VECTOR3"@ != "INT64"@) by { assert("VECTOR3"@.len() != "INT64"@.len()); }
    assert("VECTOR3"@ != "FLOAT32"@) by { assert("VECTOR3"@[0] != "FLOAT32"@[0]); }
    assert("VECTOR3"@ != "FLOAT"@) by { assert("VECTOR3"@.len() != "FLOAT"@.len()); }
    assert("VECTOR3"@ != "STRING"@) by { assert("VECTOR3"@.len() != "STRING"@.len()); }
    assert("VECTOR3"@ != "UNICODE_STRING"@) by { assert("VECTOR3"@.len() != "UNICODE_STRING"@.len()); }
    assert("VECTOR3"@ != "VECTOR2"@) by { assert("VECTOR3"@[6] != "VECTOR2"@[6]); }
    assert("BLOB"@ != "UINT8"@) by { assert("BLOB"@.len() != "UINT8"@.len()); }
    assert("BLOB"@ != "UINT16"@) by { assert("BLOB"@.len() != "UINT16"@.len()); }
    assert("BLOB"@ != "UINT32"@) by { assert("BLOB"@.len() != "UINT32"@.len()); }
    assert("BLOB"@ != "UINT64"@) by { assert("BLOB"@.len() != "UINT64"@.len()); }
    assert("BLOB"@ != "INT8"@) by { assert("BLOB"@[0] != "INT8"@[0]); }
    assert("BLOB"@ != "INT16"@) by { assert("BLOB"@.len() != "INT16"@.len()); }
    assert("BLOB"@ != "INT32"@) by { assert("BLOB"@.len() != "INT32"@.len()); }
    assert("BLOB"@ != "INT64"@) by { assert("BLOB"@.len() != "INT64"@.len()); }
    assert("BLOB"@ != "FLOAT32"@) by { assert("BLOB"@.len() != "FLOAT32"@.len()); }
    assert("BLOB"@ != "FLOAT"@) by { assert("BLOB"@.len() != "FLOAT"@.len()); }
    assert("BLOB"@ != "STRING"@) by { assert("BLOB"@.len() != "STRING"@.len()); }
    assert("BLOB"@ != "UNICODE_STRING"@) by { assert("BLOB"@.len() != "UNICODE_STRING"@.len()); }
    assert("BLOB"@ != "VECTOR2"@) by { assert("BLOB"@.len() != "VECTOR2"@.len()); }
    assert("BLOB"@ != "VECTOR3"@) by { assert("BLOB"@.len() != "VECTOR3"@.len()); }
    assert("USER_TYPE"@ != "UINT8"@) by { assert("USER_TYPE"@.len() != "UINT8"@.len()); }
    assert("USER_TYPE"@ != "UINT16"@) by { assert("USER_TYPE"@.len() != "UINT16"@.len()); }
    assert("USER_TYPE"@ != "UINT32"@) by { assert("USER_TYPE"@.len() != "UINT32"@.len()); }
    assert("USER_TYPE"@ != "UINT64"@) by { assert("USER_TYPE"@.len() != "UINT64"@.len()); }
    assert("USER_TYPE"@ != "INT8"@) by { assert("USER_TYPE"@.len() != "INT8"@.len()); }
    assert("USER_TYPE"@ != "INT16"@) by { assert("USER_TYPE"@.len() != "INT16"@.len()); }
    assert("USER_TYPE"@ != "INT32"@) by { assert("USER_TYPE"@.len() != "INT32"@.len()); }
    assert("USER_TYPE"@ != "INT64"@) by { assert("USER_TYPE"@.len() != "INT64"@.len()); }
    assert("USER_TYPE"@ != "FLOAT32"@) by { assert("USER_TYPE"@.len() != "FLOAT32"@.len()); }
    assert("USER_TYPE"@ != "FLOAT"@) by { assert("USER_TYPE"@.len() != "FLOAT"@.len()); }
    assert("USER_TYPE"@ != "STRING"@) by { assert("USER_TYPE"@.len() != "STRING"@.len()); }
    assert("USER_TYPE"@ != "UNICODE_STRING"@) by { assert("USER_TYPE"@.len() != "UNICODE_STRING"@.len()); }
    assert("USER_TYPE"@ != "VECTOR2"@) by { assert("USER_TYPE"@.len() != "VECTOR2"@.len()); }
    assert("USER_TYPE"@ != "VECTOR3"@) by { assert("USER_TYPE"@.len() != "VECTOR3"@.len()); }
    assert("USER_TYPE"@ != "BLOB"@) by { assert("USER_TYPE"@.len() != "BLOB"@.len()); }
    assert("MAILBOX"@ != "UINT8"@) by { assert("MAILBOX"@.len() != "UINT8"@.len()); }
    assert("MAILBOX"@ != "UINT16"@) by { assert("MAILBOX"@.len() != "UINT16"@.len()); }
    assert("MAILBOX"@ != "UINT32"@) by { assert("MAILBOX"@.len() != "UINT32"@.len()); }
    assert("MAILBOX"@ != "UINT64"@) by { assert("MAILBOX"@.len() != "UINT64"@.len()); }
    assert("MAILBOX"@ != "INT8"@) by { assert("MAILBOX"@.len() != "INT8"@.len()); }
    assert("MAILBOX"@ != "INT16"@) by { assert("MAILBOX"@.len() != "INT16"@.len()); }
    assert("MAILBOX"@ != "INT32"@) by { assert("MAILBOX"@.len() != "INT32"@.len()); }
    assert("MAILBOX"@ != "INT64"@) by { assert("MAILBOX"@.len() != "INT64"@.len()); }
    assert("MAILBOX"@ != "FLOAT32"@) by { assert("MAILBOX"@[0] != "FLOAT32"@[0]); }
    assert("MAILBOX"@ != "FLOAT"@) by { assert("MAILBOX"@.len() != "FLOAT"@.len()); }
    assert("MAILBOX"@ != "STRING"@) by { assert("MAILBOX"@.len() != "STRING"@.len()); }
    assert("MAILBOX"@ != "UNICODE_STRING"@) by { assert("MAILBOX"@.len() != "UNICODE_STRING"@.len()); }
    assert("MAILBOX"@ != "VECTOR2"@) by { assert("MAILBOX"@[0] != "VECTOR2"@[0]); }
    assert("MAILBOX"@ != "VECTOR3"@) by { assert("MAILBOX"@[0] != "VECTOR3"@[0]); }
    assert("MAILBOX"@ != "BLOB"@) by { assert("MAILBOX"@.len() != "BLOB"@.len()); }
    assert("MAILBOX"@ != "USER_TYPE"@) by { assert("MAILBOX"@.len() != "USER_TYPE"@.len()); }
    assert("PYTHON"@ != "UINT8"@) by { assert("PYTHON"@.len() != "UINT8"@.len()); }
    assert("PYTHON"@ != "UINT16"@) by { assert("PYTHON"@[0] != "UINT16"@[0]); }
    assert("PYTHON"@ != "UINT32"@) by { assert("PYTHON"@[0] != "UINT32"@[0]); }
    assert("PYTHON"@ != "UINT64"@) by { assert("PYTHON"@[0] != "UINT64"@[0]); }
    assert("PYTHON"@ != "INT8"@) by { assert("PYTHON"@.len() != "INT8"@.len()); }
    assert("PYTHON"@ != "INT16"@) by { assert("PYTHON"@.len() != "INT16"@.len()); }
    assert("PYTHON"@ != "INT32"@) by { assert("PYTHON"@.len() != "INT32"@.len()); }
    assert("PYTHON"@ != "INT64"@) by { assert("PYTHON"@.len() != "INT64"@.len()); }
    assert("PYTHON"@ != "FLOAT32"@) by { assert("PYTHON"@.len() != "FLOAT32"@.len()); }
    assert("PYTHON"@ != "FLOAT"@) by { assert("PYTHON"@.len() != "FLOAT"@.len()); }
    assert("PYTHON"@ != "STRING"@) by { assert("PYTHON"@[0] != "STRING"@[0]); }
    assert("PYTHON"@ != "UNICODE_STRING"@) by { assert("PYTHON"@.len() != "UNICODE_STRING"@.len()); }
    assert("PYTHON"@ != "VECTOR2"@) by { assert("PYTHON"@.len() != "VECTOR2"@.len()); }
    assert("PYTHON"@ != "VECTOR3"@) by { assert("PYTHON"@.len() != "VECTOR3"@.len()); }
    assert("PYTHON"@ != "BLOB"@) by { assert("PYTHON"@.len() != "BLOB"@.len()); }
    assert("PYTHON"@ != "USER_TYPE"@) by { assert("PYTHON"@.len() != "USER_TYPE"@.len()); }
    assert("PYTHON"@ != "MAILBOX"@) by { assert("PYTHON"@.len() != "MAILBOX"@.len()); }
}

fn primitive_named(t: &str) -> (r: Option<PrimitiveType>)
    ensures
        r == spec_primitive_named(t@),
{
    if crate::text::str_eq(t, "UINT8") {
        Some(PrimitiveType::Uint8)
    } else if crate::text::str_eq(t, "UINT16") {
        Some(PrimitiveType::Uint16)
    } else if crate::text::str_eq(t, "UINT32") {
        Some(PrimitiveType::Uint32)
    } else if crate::text::str_eq(t, "UINT64") {
        Some(PrimitiveType::Uint64)
    } else if crate::text::str_eq(t, "INT8") {
        Some(PrimitiveType::Int8)
    } else if crate::text::str_eq(t, "INT16") {
        Some(PrimitiveType::Int16)
    } else if crate::text::str_eq(t, "INT32") {
        Some(PrimitiveType::Int32)
    } else if crate::text::str_eq(t, "INT64") {
        Some(PrimitiveType::Int64)
    } else if crate::text::str_eq(t, "FLOAT32") {
        Some(PrimitiveType::Float32)
    } else if crate::text::str_eq(t, "FLOAT") {
        Some(PrimitiveType::Float32)
    } else if crate::text::str_eq(t, "STRING") {
        Some(PrimitiveType::String)
    } else if crate::text::str_eq(t, "UNICODE_STRING") {
        Some(PrimitiveType::UnicodeString)
    } else if crate::text::str_eq(t, "VECTOR2") {
        Some(PrimitiveType::Vector2)
    } else if crate::text::str_eq(t, "VECTOR3") {
        Some(PrimitiveType::Vector3)
    } else if crate::text::str_eq(t, "BLOB") {
        Some(PrimitiveType::Blob)
    } else if crate::text::str_eq(t, "USER_TYPE") {
        Some(PrimitiveType::Blob)
    } else if crate::text::str_eq(t, "MAILBOX") {
        Some(PrimitiveType::Blob)
    } else if crate::text::str_eq(t, "PYTHON") {
        Some(PrimitiveType::Blob)
    } else {
        None
    }
}

/// The text of node `c`, trimmed of surrounding whitespace.
pub open spec fn trimmed_text(ns: Seq<XmlNodeV>, c: int) -> Option<Seq<char>> {
    match ns[c].text {
        Some(t) => Some(trim(t)),
        None => None,
    }
}

/// The type that the XML element `ns[i]` declares: its first child's text
/// (trimmed) names a scalar type, `ARRAY` (of the type in child `of`, with
/// the count in an optional child `size`), `FIXED_DICT` (with the entries
/// of an optional child `Properties`, each element naming an entry whose
/// child `Type` gives its type, and nullable when a child `AllowNone` is
/// present), `TUPLE` (of child `of`, with child `size`), or an alias.
pub open spec fn spec_parse_type(ns: Seq<XmlNodeV>, i: int, al: Seq<(Seq<char>, TypeV)>) -> Option<TypeV>
    decreases (ns.len() - i) as nat, 1nat, 0nat,
{
    if i < 0 || i >= ns.len() {
        None
    } else {
        let id = ns[i].id;
        match child_from(ns, id, None, 0) {
            None => None,
            Some(c) => match trimmed_text(ns, c) {
                None => None,
                Some(t) => if spec_primitive_named(t) is Some {
                    Some(TypeV::Primitive(spec_primitive_named(t)->0))
                } else if t == "ARRAY"@ {
                    match child_from(ns, id, Some("of"@), 0) {
                        Some(o) => if i < o < ns.len() {
                            match spec_parse_type(ns, o, al) {
                                Some(sub) => match child_from(ns, id, Some("size"@), 0) {
                                    None => Some(TypeV::Array(None, Box::new(sub))),
                                    Some(sz) => match trimmed_text(ns, sz) {
                                        Some(st) => match spec_parse_usize(st) {
                                            Some(n) => Some(TypeV::Array(Some(n), Box::new(sub))),
                                            None => None,
                                        },
                                        None => None,
                                    },
                                },
                                None => None,
                            }
                        } else {
                            None
                        },
                        None => None,
                    }
                } else if t == "FIXED_DICT"@ {
                    let allow_none = child_from(ns, id, Some("AllowNone"@), 0) is Some;
                    match child_from(ns, id, Some("Properties"@), 0) {
                        None => Some(TypeV::FixedDict(allow_none, Seq::empty())),
                        Some(pn) => if i < pn < ns.len() {
                            match spec_parse_entries(ns, pn, element_children(ns, ns[pn].id, 0), 0, al) {
                                Some(props) => Some(TypeV::FixedDict(allow_none, props)),
                                None => None,
                            }
                        } else {
                            None
                        },
                    }
                } else if t == "TUPLE"@ {
                    match (child_from(ns, id, Some("of"@), 0), child_from(ns, id, Some("size"@), 0)) {
                        (Some(o), Some(sz)) => if i < o < ns.len() {
                            match (spec_parse_type(ns, o, al), trimmed_text(ns, sz)) {
                                (Some(sub), Some(st)) => match spec_parse_usize(st) {
                                    Some(n) => Some(TypeV::Tuple(Box::new(sub), n)),
                                    None => None,
                                },
                                _ => None,
                            }
                        } else {
                            None
                        },
                        _ => None,
                    }
                } else {
                    alias_lookup(al, t)
                },
            },
        }
    }
}

/// The entries of a `FIXED_DICT` type, from the element children `ch` of
/// its `Properties` node `p`, from the `k`-th on.
pub open spec fn spec_parse_entries(
    ns: Seq<XmlNodeV>,
    p: int,
    ch: Seq<int>,
    k: int,
    al: Seq<(Seq<char>, TypeV)>,
) -> Option<Seq<(Seq<char>, TypeV)>>
    decreases (ns.len() - p) as nat, 0nat, (ch.len() - k) as nat,
{
    if k < 0 || k >= ch.len() {
        Some(Seq::empty())
    } else {
        let e = ch[k];
        if e <= p || e >= ns.len() {
            None
        } else {
            match child_from(ns, ns[e].id, Some("Type"@), 0) {
                Some(ty) => if e < ty < ns.len() {
                    match spec_parse_type(ns, ty, al) {
                        Some(t) => match spec_parse_entries(ns, p, ch, k + 1, al) {
                            Some(rest) => Some(seq![(ns[e].name, t)] + rest),
                            None => None,
                        },
                        None => None,
                    }
                } else {
                    None
                },
                None => None,
            }
        }
    }
}

fn alias_get(aliases: &TypeAliases, k: &str) -> (r: Option<ArgType>)
    ensures
        match r {
            Some(t) => alias_lookup(aliases_view(aliases@), k@) == Some(t@),
            None => alias_lookup(aliases_view(aliases@), k@) is None,
        },
{
    let ghost av = aliases_view(aliases@);
    let mut j: usize = aliases.len();
    proof {
        assert(av.subrange(0, j as int) =~= av);
    }
    while j > 0
        invariant
            j <= aliases@.len(),
            av == aliases_view(aliases@),
            alias_lookup(av, k@) == alias_lookup(av.subrange(0, j as int), k@),
        decreases j,
    {
        let ghost sub = av.subrange(0, j as int);
        proof {
            assert(sub.drop_last() =~= av.subrange(0, j - 1));
        }
        if crate::text::str_eq(aliases[j - 1].0.as_str(), k) {
            return Some(aliases[j - 1].1.clone());
        }
        j = j - 1;
    }
    None
}

fn node_text(ns: &Vec<XmlNode>, c: usize) -> (r: Option<String>)
    requires
        c < ns@.len(),
    ensures
        match r {
            Some(t) => trimmed_text(nodes_view(ns@), c as int) == Some(t@),
            None => trimmed_text(nodes_view(ns@), c as int) is None,
        },
{
    match &ns[c].text {
        Some(t) => Some(trimmed(t.as_str())),
        None => None,
    }
}

fn type_error() -> (r: ErrorKind)
    ensures
        r matches ErrorKind::ParsingFailure(m) && m@ == "malformed type declaration"@,
{
    ErrorKind::ParsingFailure("malformed type declaration".to_owned())
}

/// The type that the XML element `ns[arg]` declares, as [`spec_parse_type`]
/// says; `aliases` holds the types declared so far.
pub fn parse_type(ns: &Vec<XmlNode>, arg: usize, aliases: &TypeAliases) -> (r: Result<ArgType, ErrorKind>)
    ensures
        match r {
            Ok(t) => spec_parse_type(nodes_view(ns@), arg as int, aliases_view(aliases@)) == Some(t@),
            Err(_) => spec_parse_type(nodes_view(ns@), arg as int, aliases_view(aliases@)) is None,
        },
    decreases (ns@.len() - arg) as nat, 1nat, 0nat,
{
    if arg >= ns.len() {
        return Err(type_error());
    }
    let c = match find_child(ns, arg, None, 0) {
        Some(c) => c,
        None => return Err(type_error()),
    };
    let t = match node_text(ns, c) {
        Some(t) => t,
        None => return Err(type_error()),
    };
    let t = t.as_str();
    if let Some(p) = primitive_named(t) {
        return Ok(ArgType::Primitive(p));
    }
    if crate::text::str_eq(t, "ARRAY") {
        let o = match find_child(ns, arg, Some("of"), 0) {
            Some(o) => o,
            None => return Err(type_error()),
        };
        if o <= arg {
            return Err(type_error());
        }
        let sub = match parse_type(ns, o, aliases) {
            Ok(s) => s,
            Err(e) => return Err(e),
        };
        match find_child(ns, arg, Some("size"), 0) {
            None => Ok(ArgType::Array((None, Box::new(sub)))),
            Some(sz) => match node_text(ns, sz) {
                Some(st) => match parse_usize(st.as_str()) {
                    Some(n) => Ok(ArgType::Array((Some(n), Box::new(sub)))),
                    None => Err(type_error()),
                },
                None => Err(type_error()),
            },
        }
    } else if crate::text::str_eq(t, "FIXED_DICT") {
        let allow_none = find_child(ns, arg, Some("AllowNone"), 0).is_some();
        match find_child(ns, arg, Some("Properties"), 0) {
            None => {
                let props: Vec<FixedDictProperty> = Vec::new();
                proof {
                    assert(props_view(props@) =~= Seq::<(Seq<char>, TypeV)>::empty());
                }
                Ok(ArgType::FixedDict((allow_none, props)))
            },
            Some(pn) => {
                if pn <= arg {
                    return Err(type_error());
                }
                let ch = children_elements(ns, pn);
                match parse_entries(ns, pn, &ch, 0, aliases) {
                    Ok(props) => Ok(ArgType::FixedDict((allow_none, props))),
                    Err(e) => Err(e),
                }
            },
        }
    } else if crate::text::str_eq(t, "TUPLE") {
        let o = match find_child(ns, arg, Some("of"), 0) {
            Some(o) => o,
            None => return Err(type_error()),
        };
        let sz = match find_child(ns, arg, Some("size"), 0) {
            Some(sz) => sz,
            None => return Err(type_error()),
        };
        if o <= arg {
            return Err(type_error());
        }
        let sub = match parse_type(ns, o, aliases) {
            Ok(s) => s,
            Err(e) => return Err(e),
        };
        match node_text(ns, sz) {
            Some(st) => match parse_usize(st.as_str()) {
                Some(n) => Ok(ArgType::Tuple((Box::new(sub), n))),
                None => Err(type_error()),
            },
            None => Err(type_error()),
        }
    } else {
        match alias_get(aliases, t) {
            Some(a) => Ok(a),
            None => Err(ErrorKind::ParsingFailure("unrecognized type".to_owned())),
        }
    }
}

fn parse_entries(ns: &Vec<XmlNode>, p: usize, ch: &Vec<usize>, k: usize, aliases: &TypeAliases) -> (r: Result<
    Vec<FixedDictProperty>,
    ErrorKind,
>)
    requires
        p < ns@.len(),
        k <= ch@.len(),
        forall|t: int| 0 <= t < ch@.len() ==> #[trigger] ch@[t] < ns@.len(),
    ensures
        match r {
            Ok(props) => spec_parse_entries(
                nodes_view(ns@),
                p as int,
                ch@.map_values(|j: usize| j as int),
                k as int,
                aliases_view(aliases@),
            ) == Some(props_view(props@)),
            Err(_) => spec_parse_entries(
                nodes_view(ns@),
                p as int,
                ch@.map_values(|j: usize| j as int),
                k as int,
                aliases_view(aliases@),
            ) is None,
        },
    decreases (ns@.len() - p) as nat, 0nat, (ch@.len() - k) as nat,
{
    let ghost chv = ch@.map_values(|j: usize| j as int);
    if k >= ch.len() {
        let out: Vec<FixedDictProperty> = Vec::new();
        proof {
            assert(props_view(out@) =~= Seq::<(Seq<char>, TypeV)>::empty());
        }
        return Ok(out);
    }
    let e = ch[k];
    proof {
        assert(chv[k as int] == e as int);
    }
    if e <= p {
        return Err(type_error());
    }
    let ty = match find_child(ns, e, Some("Type"), 0) {
        Some(ty) => ty,
        None => return Err(type_error()),
    };
    if ty <= e {
        return Err(type_error());
    }
    let t = match parse_type(ns, ty, aliases) {
        Ok(t) => t,
        Err(err) => return Err(err),
    };
    let rest = match parse_entries(ns, p, ch, k + 1, aliases) {
        Ok(r) => r,
        Err(err) => return Err(err),
    };
    let name = ns[e].name.clone();
    let mut out = rest;
    let ghost before = out@;
    let x = FixedDictProperty { name, prop_type: t };
    out.insert(0, x);
    proof {
        lemma_props_view_ext(before);
        lemma_props_view_ext(out@);
        assert(props_view(out@) =~= seq![(x.name@, type_view(x.prop_type))] + props_view(before));
    }
    Ok(out)
}



/// The aliases declared by the element children `ch` of an alias file,
/// the first `k` of them, each parsed with the aliases declared before it.
pub open spec fn spec_alias_list(ns: Seq<XmlNodeV>, ch: Seq<int>, k: int) -> Option<Seq<(Seq<char>, TypeV)>>
    decreases k,
{
    if k <= 0 {
        Some(Seq::empty())
    } else {
        match spec_alias_list(ns, ch, k - 1) {
            Some(al) => match spec_parse_type(ns, ch[k - 1], al) {
                Some(t) => Some(al.push((ns[ch[k - 1]].name, t))),
                None => None,
            },
            None => None,
        }
    }
}

/// The type aliases of an alias file: UTF-8 text of an XML document whose
/// first node's element children each declare one alias, named by the tag.
pub open spec fn spec_parse_aliases(def: Seq<u8>) -> Option<Seq<(Seq<char>, TypeV)>> {
    if !vstd::utf8::valid_utf8(def) {
        None
    } else {
        match crate::rpc::xml::xml_parse(vstd::utf8::decode_utf8(def)) {
            None => None,
            Some(ns) => if ns.len() == 0 {
                None
            } else {
                match child_from(ns, ns[0].id, None, 0) {
                    None => None,
                    Some(f) => {
                        let ch = element_children(ns, ns[f].id, 0);
                        spec_alias_list(ns, ch, ch.len() as int)
                    },
                }
            },
        }
    }
}

/// Reads the type aliases of an alias file, as [`spec_parse_aliases`] says.
pub fn parse_aliases(def: &[u8]) -> (r: Result<TypeAliases, ErrorKind>)
    ensures
        match r {
            Ok(a) => spec_parse_aliases(def@) == Some(aliases_view(a@)),
            Err(_) => spec_parse_aliases(def@) is None,
        },
{
    let text = match crate::packet2::utf8_string(def) {
        Some(t) => t,
        None => return Err(ErrorKind::Utf8Error),
    };
    let ns = match parse_xml(text.as_str()) {
        Some(ns) => ns,
        None => return Err(ErrorKind::ParsingFailure("malformed XML".to_owned())),
    };
    if ns.len() == 0 {
        return Err(ErrorKind::ParsingFailure("empty XML document".to_owned()));
    }
    let f = match find_child(&ns, 0, None, 0) {
        Some(f) => f,
        None => return Err(ErrorKind::ParsingFailure("alias file has no content".to_owned())),
    };
    let ch = children_elements(&ns, f);
    let ghost nv = nodes_view(ns@);
    let ghost chv = ch@.map_values(|j: usize| j as int);
    let mut aliases: TypeAliases = Vec::new();
    let mut k: usize = 0;
    proof {
        assert(aliases_view(aliases@) =~= Seq::<(Seq<char>, TypeV)>::empty());
        assert(nv[0].id == ns@[0].id as nat);
        assert(nv[f as int].id == ns@[f as int].id as nat);
        assert(spec_parse_aliases(def@) == spec_alias_list(nv, chv, chv.len() as int));
    }
    while k < ch.len()
        invariant
            k <= ch@.len(),
            chv.len() == ch@.len(),
            spec_parse_aliases(def@) == spec_alias_list(nv, chv, chv.len() as int),
            nv == nodes_view(ns@),
            chv == ch@.map_values(|j: usize| j as int),
            forall|t: int| 0 <= t < ch@.len() ==> #[trigger] ch@[t] < ns@.len(),
            spec_alias_list(nv, chv, k as int) == Some(aliases_view(aliases@)),
        decreases ch@.len() - k,
    {
        let j = ch[k];
        proof {
            assert(chv[k as int] == j as int);
        }
        let t = match parse_type(&ns, j, &aliases) {
            Ok(t) => t,
            Err(e) => {
                proof {
                    lemma_alias_list_fail(nv, chv, k as int + 1, chv.len() as int);
                }
                return Err(e);
            },
        };
        let name = ns[j].name.clone();
        proof {
            assert(aliases_view(aliases@.push((name, t))) =~= aliases_view(aliases@).push((name@, t@)));
        }
        aliases.push((name, t));
        k = k + 1;
    }
    Ok(aliases)
}

proof fn lemma_alias_list_fail(ns: Seq<XmlNodeV>, ch: Seq<int>, k: int, n: int)
    requires
        1 <= k <= n,
        spec_alias_list(ns, ch, k) is None,
    ensures
        spec_alias_list(ns, ch, n) is None,
    decreases n - k,
{
    if k < n {
        lemma_alias_list_fail(ns, ch, k + 1, n);
    }
}


/// Whether a type has a fixed shape: no tuple in it, and every array of a
/// fixed count has at most 255 elements (the count is read as a byte).
pub open spec fn fixed_shape(t: TypeV) -> bool
    decreases t, 0nat,
{
    match t {
        TypeV::Primitive(_) => true,
        TypeV::Array(Some(c), elem) => c <= 255 && fixed_shape(*elem),
        TypeV::Array(None, _) => true,
        TypeV::FixedDict(_, props) => fixed_shape_props(props, 0),
        TypeV::Tuple(_, _) => false,
    }
}

pub open spec fn fixed_shape_props(props: Seq<(Seq<char>, TypeV)>, i: int) -> bool
    decreases props, props.len() - i,
    when 0 <= i <= props.len()
{
    if i >= props.len() {
        true
    } else {
        fixed_shape(props[i].1) && fixed_shape_props(props, i + 1)
    }
}

proof fn lemma_fixed_shape_props_index(props: Seq<(Seq<char>, TypeV)>, i: int, k: int)
    requires
        0 <= i <= k < props.len(),
        fixed_shape_props(props, i),
    ensures
        fixed_shape(props[k].1),
    decreases k - i,
{
    if i < k {
        lemma_fixed_shape_props_index(props, i + 1, k);
    }
}

/// Where the sizes of all the properties add up to less than
/// [`SORT_SIZE_INFINITY`], each partial sum is bounded by the whole and
/// grows by the size of the next property.
proof fn lemma_props_sort_size_prefix(props: Seq<(Seq<char>, TypeV)>, m: int)
    requires
        0 <= m <= props.len(),
        props_sort_size(props, m) < SORT_SIZE_INFINITY as int,
    ensures
        forall|k: int|
            0 <= k < m ==> spec_sort_size(#[trigger] props[k].1) < SORT_SIZE_INFINITY as int
                && props_sort_size(props, k + 1) == props_sort_size(props, k) + spec_sort_size(props[k].1)
                && 0 <= props_sort_size(props, k) <= props_sort_size(props, m),
    decreases m,
{
    if m > 0 {
        lemma_props_sort_size_nonneg(props, m - 1);
        lemma_sort_size_nonneg(props[m - 1].1);
        assert(props_sort_size(props, m - 1) != SORT_SIZE_INFINITY as int);
        assert(spec_sort_size(props[m - 1].1) != SORT_SIZE_INFINITY as int);
        lemma_props_sort_size_prefix(props, m - 1);
    }
}

/// A value of a type of fixed shape whose sort size is finite takes
/// exactly its sort size in bytes: reading it where that many bytes are
/// left succeeds and ends that many bytes on.
pub proof fn lemma_fixed_size_consumed(t: TypeV, s: Seq<u8>, pos: int)
    requires
        fixed_shape(t),
        spec_sort_size(t) < SORT_SIZE_INFINITY as int,
        0 <= pos,
        pos + spec_sort_size(t) <= s.len(),
    ensures
        spec_parse_value(t, s, pos) matches Outcome::Done(_, e) && e == pos + spec_sort_size(t),
    decreases t, 0nat,
{
    lemma_sort_size_nonneg(t);
    match t {
        TypeV::Array(Some(c), elem) => {
            let z = spec_sort_size(*elem);
            lemma_sort_size_nonneg(*elem);
            assert(z != SORT_SIZE_INFINITY as int);
            assert((c as u8) as nat == c);
            if c > 0 {
                assert(z <= z * c) by (nonlinear_arith)
                    requires
                        z >= 0,
                        c >= 1,
                ;
                assert(z * c == c * z) by (nonlinear_arith);
                lemma_fixed_size_array(*elem, s, pos, c as nat);
            } else {
                assert(z * c == 0) by (nonlinear_arith)
                    requires
                        c == 0,
                ;
            }
            assert(spec_sort_size(t) == z * c);
            let r = spec_parse_array(*elem, s, pos, c as nat);
            assert(r matches Outcome::Done(_, e) && e == pos + z * c);
        },
        TypeV::FixedDict(allow_none, props) => {
            assert(!allow_none);
            lemma_props_sort_size_prefix(props, props.len() as int);
            lemma_fixed_size_props(props, 0, s, pos);
        },
        _ => {},
    }
}

proof fn lemma_fixed_size_array(elem: TypeV, s: Seq<u8>, pos: int, n: nat)
    requires
        fixed_shape(elem),
        spec_sort_size(elem) < SORT_SIZE_INFINITY as int,
        0 <= pos,
        pos + n * spec_sort_size(elem) <= s.len(),
    ensures
        spec_parse_array(elem, s, pos, n) matches Outcome::Done(_, e) && e == pos + n * spec_sort_size(elem),
    decreases elem, n,
{
    if n > 0 {
        let z = spec_sort_size(elem);
        let m = (n - 1) as nat;
        lemma_sort_size_nonneg(elem);
        assert(n * z == z + m * z) by (nonlinear_arith)
            requires
                m == n - 1,
        ;
        assert(m * z >= 0) by (nonlinear_arith)
            requires
                z >= 0,
        ;
        lemma_fixed_size_consumed(elem, s, pos);
        lemma_fixed_size_array(elem, s, pos + z, m);
        let first = spec_parse_value(elem, s, pos);
        let rest = spec_parse_array(elem, s, pos + z, m);
        assert(first matches Outcome::Done(_, p) && p == pos + z);
        assert(rest matches Outcome::Done(_, e) && e == pos + z + m * z);
        let v = first->Done_0;
        let vs = rest->Done_0;
        assert(spec_parse_array(elem, s, pos, n) == Outcome::Done(seq![v] + vs, pos + z + m * z));
    } else {
        assert(n * spec_sort_size(elem) == 0) by (nonlinear_arith)
            requires
                n == 0,
        ;
    }
}

proof fn lemma_fixed_size_props(props: Seq<(Seq<char>, TypeV)>, i: int, s: Seq<u8>, pos: int)
    requires
        0 <= i <= props.len(),
        fixed_shape_props(props, 0),
        props_sort_size(props, props.len() as int) < SORT_SIZE_INFINITY as int,
        forall|k: int|
            0 <= k < props.len() ==> spec_sort_size(#[trigger] props[k].1) < SORT_SIZE_INFINITY as int
                && props_sort_size(props, k + 1) == props_sort_size(props, k) + spec_sort_size(props[k].1)
                && 0 <= props_sort_size(props, k) <= props_sort_size(props, props.len() as int),
        0 <= pos,
        pos + props_sort_size(props, props.len() as int) - props_sort_size(props, i) <= s.len(),
    ensures
        spec_parse_props(props, i, s, pos) matches Outcome::Done(_, e) && e == pos + props_sort_size(
            props,
            props.len() as int,
        ) - props_sort_size(props, i),
    decreases props, props.len() - i,
{
    if i < props.len() {
        lemma_fixed_shape_props_index(props, 0, i);
        let z = spec_sort_size(props[i].1);
        lemma_sort_size_nonneg(props[i].1);
        assert(props_sort_size(props, i + 1) == props_sort_size(props, i) + z);
        if i + 1 < props.len() {
            assert(spec_sort_size(props[i + 1].1) < SORT_SIZE_INFINITY as int);
            assert(props_sort_size(props, i + 1) <= props_sort_size(props, props.len() as int));
        }
        lemma_fixed_size_consumed(props[i].1, s, pos);
        lemma_fixed_size_props(props, i + 1, s, pos + z);
    }
}

} // verus!
