//! Nested property updates: the path into a property value that an update
//! packet addresses, and the change it makes there.
use vstd::prelude::*;

use crate::error::ErrorKind;
use crate::text::str_eq;
use crate::rpc::typedefs::{
    dict_view, duplicate_entries, duplicate_values, lemma_dict_view_push, lemma_parse_value_bounds, hits_tuple,
    lemma_vals_view_index, lemma_vals_view_len, lemma_vals_view_push, spec_parse_value,
    lemma_vals_view_ext, lemma_dict_view_ext, lemma_dict_view_len,
    val_view, vals_view, ArgType, ArgVal, ArgValue, Outcome, TypeV,
};

verus! {

/// The bounds of the part of a sequence of length `len` that Python's
/// `target[i:j]` selects, for non-negative `i` and `j`.
pub open spec fn python_slice_bounds(len: int, i: int, j: int) -> (int, int) {
    let a = if i < len {
        i
    } else {
        len
    };
    let b = if j < len {
        j
    } else {
        len
    };
    (a, if b < a {
        a
    } else {
        b
    })
}

/// Python's `target[i:j] = source` for non-negative `i` and `j`.
pub open spec fn python_slice_assign<T>(target: Seq<T>, i: int, j: int, source: Seq<T>) -> Seq<T> {
    let (a, b) = python_slice_bounds(target.len() as int, i, j);
    target.subrange(0, a) + source + target.subrange(b, target.len() as int)
}

/// Replaces `target[idx1..idx2]` by `source`, with Python's slice semantics:
/// indices past the end are clamped to the end, and an empty or inverted
/// range inserts `source` at `idx1` without removing anything.
pub fn slice_insert<T>(idx1: usize, idx2: usize, target: &mut Vec<T>, source: Vec<T>)
    ensures
        final(target)@ == python_slice_assign(old(target)@, idx1 as int, idx2 as int, source@),
{
    let ghost orig = target@;
    let ghost len = orig.len() as int;
    // First delete target[idx1..idx2].
    let count: usize = if idx2 > idx1 {
        idx2 - idx1
    } else {
        0
    };
    let mut removed: usize = 0;
    while removed < count && idx1 < target.len()
        invariant
            orig == old(target)@,
            len == orig.len(),
            count == (if idx2 > idx1 {
                idx2 - idx1
            } else {
                0
            }),
            removed <= count,
            idx1 < len ==> removed <= len - idx1,
            idx1 < len ==> target@ == orig.subrange(0, idx1 as int) + orig.subrange(
                idx1 + removed,
                len,
            ),
            idx1 >= len ==> target@ == orig && removed == 0,
        decreases count - removed,
    {
        proof {
            assert(target@.remove(idx1 as int) =~= orig.subrange(0, idx1 as int) + orig.subrange(
                idx1 + removed + 1,
                len,
            ));
        }
        target.remove(idx1);
        removed = removed + 1;
    }
    // Then insert source[..] at idx1 (or at the end, when idx1 is past it).
    let pos: usize = if idx1 < target.len() {
        idx1
    } else {
        target.len()
    };
    let ghost kept = target@;
    let ghost (a, b) = python_slice_bounds(len, idx1 as int, idx2 as int);
    proof {
        if idx1 < len {
            assert(kept =~= orig.subrange(0, a) + orig.subrange(b, len));
        } else {
            assert(kept =~= orig.subrange(0, a) + orig.subrange(b, len));
        }
        assert(pos == a);
        assert(kept.subrange(0, pos as int) =~= orig.subrange(0, a));
        assert(kept.subrange(pos as int, kept.len() as int) =~= orig.subrange(b, len));
    }
    let mut source = source;
    let ghost src = source@;
    while source.len() > 0
        invariant
            pos <= kept.len(),
            source@ == src.subrange(0, source@.len() as int),
            source@.len() <= src.len(),
            target@ == kept.subrange(0, pos as int) + src.subrange(
                source@.len() as int,
                src.len() as int,
            ) + kept.subrange(pos as int, kept.len() as int),
        decreases source@.len(),
    {
        let ghost n = source@.len() as int;
        let elem = source.pop().unwrap();
        proof {
            assert(elem == src[n - 1]);
            assert(target@.insert(pos as int, elem) =~= kept.subrange(0, pos as int) + src.subrange(
                n - 1,
                src.len() as int,
            ) + kept.subrange(pos as int, kept.len() as int));
        }
        target.insert(pos, elem);
    }
    proof {
        assert(src.subrange(0, src.len() as int) =~= src);
    }
}

/// One step of the path from a property to the part of it that an update
/// changes.
#[derive(Debug)]
pub enum PropertyNestLevel {
    ArrayIndex(usize),
    DictKey(String),
}

/// The change an update makes where its path ends.
#[derive(Debug)]
pub enum UpdateAction {
    SetKey { key: String, value: ArgValue },
    SetRange { start: usize, stop: usize, values: Vec<ArgValue> },
    SetElement { index: usize, value: ArgValue },
    RemoveElement { index: usize },
    RemoveRange { start: usize, stop: usize },
}

/// A nested property update: the path, and the change at its end.
#[derive(Debug)]
pub struct PropertyNesting {
    pub levels: Vec<PropertyNestLevel>,
    pub action: UpdateAction,
}

pub enum LevelV {
    ArrayIndex(int),
    DictKey(Seq<char>),
}

pub enum ActionV {
    SetKey(Seq<char>, ArgVal),
    SetRange(int, int, Seq<ArgVal>),
    SetElement(int, ArgVal),
    RemoveElement(int),
    RemoveRange(int, int),
}

pub struct NestingV {
    pub levels: Seq<LevelV>,
    pub action: ActionV,
}

pub open spec fn level_view(l: PropertyNestLevel) -> LevelV {
    match l {
        PropertyNestLevel::ArrayIndex(i) => LevelV::ArrayIndex(i as int),
        PropertyNestLevel::DictKey(k) => LevelV::DictKey(k@),
    }
}

pub open spec fn nesting_view(n: PropertyNesting) -> NestingV {
    NestingV {
        levels: n.levels@.map_values(|l: PropertyNestLevel| level_view(l)),
        action: match n.action {
            UpdateAction::SetKey { key, value } => ActionV::SetKey(key@, val_view(value)),
            UpdateAction::SetRange { start, stop, values } => ActionV::SetRange(
                start as int,
                stop as int,
                vals_view(values@),
            ),
            UpdateAction::SetElement { index, value } => ActionV::SetElement(index as int, val_view(value)),
            UpdateAction::RemoveElement { index } => ActionV::RemoveElement(index as int),
            UpdateAction::RemoveRange { start, stop } => ActionV::RemoveRange(start as int, stop as int),
        },
    }
}

/// Bit `p` of `s`, counting from the most significant bit of the first
/// byte.
pub open spec fn bit_at(s: Seq<u8>, p: int) -> u8 {
    (s[p / 8] >> ((7 - p % 8) as u8)) & 1u8
}

/// The `n` bits of `s` from bit `p` on, most significant first.
pub open spec fn bits_value(s: Seq<u8>, p: int, n: nat) -> nat
    decreases n,
{
    if n == 0 {
        0
    } else {
        bits_value(s, p, (n - 1) as nat) * 2 + bit_at(s, p + n - 1) as nat
    }
}

/// Whether `n` bits can be read from bit `p` (as the bit reader allows:
/// at most 8 at a time).
pub open spec fn bits_readable(s: Seq<u8>, p: int, n: nat) -> bool {
    0 <= p && p + n <= 8 * s.len() && n <= 8
}

/// The number of bits that index a collection of `n` elements: the
/// exponent of the smallest power of two that is at least `n`.
pub open spec fn index_bits(n: nat) -> nat
    decreases n,
{
    if n <= 1 {
        0
    } else {
        1 + index_bits(((n + 1) / 2) as nat)
    }
}

/// The first entry of dictionary `d` with key `k`.
pub open spec fn dict_find(d: Seq<(Seq<char>, ArgVal)>, k: Seq<char>) -> Option<int> {
    if exists|j: int| 0 <= j < d.len() && d[j].0 == k {
        Some(choose|j: int| 0 <= j < d.len() && d[j].0 == k && forall|i: int| 0 <= i < j ==> d[i].0 != k)
    } else {
        None
    }
}

/// `d` with key `k` set to `v` (replacing the first entry with that key, or
/// adding one at the end).
pub open spec fn dict_insert(d: Seq<(Seq<char>, ArgVal)>, k: Seq<char>, v: ArgVal) -> Seq<(Seq<char>, ArgVal)> {
    match dict_find(d, k) {
        Some(j) => d.update(j, (k, v)),
        None => d.push((k, v)),
    }
}

/// The values of type `elem` that fill `s` from `pos` to its end, one after
/// another; each must take at least one byte.
pub open spec fn spec_parse_all(elem: TypeV, s: Seq<u8>, pos: int) -> Option<Seq<ArgVal>>
    decreases s.len() - pos,
{
    if pos >= s.len() {
        Some(Seq::empty())
    } else if pos < 0 || hits_tuple(elem, s, pos) {
        None
    } else {
        match spec_parse_value(elem, s, pos) {
            Outcome::Done(v, e) => if e > pos && e <= s.len() {
                match spec_parse_all(elem, s, e) {
                    Some(vs) => Some(seq![v] + vs),
                    None => None,
                }
            } else {
                None
            },
            _ => None,
        }
    }
}

/// The update command at the end of a nested path, read from bit `bp`:
/// the new value of the addressed part, and the command.
pub open spec fn spec_nested_update_command(is_slice: bool, t: TypeV, v: ArgVal, s: Seq<u8>, bp: int) -> Option<
    (ArgVal, NestingV),
> {
    match t {
        TypeV::FixedDict(_, entries) => {
            let nb = index_bits(entries.len());
            if !bits_readable(s, bp, nb) {
                None
            } else {
                let idx = bits_value(s, bp, nb) as int;
                let start = (bp + nb + 7) / 8;
                if idx >= entries.len() || hits_tuple(entries[idx].1, s, start) {
                    None
                } else {
                    match spec_parse_value(entries[idx].1, s, start) {
                        Outcome::Done(nv, _) => {
                            let action = ActionV::SetKey(entries[idx].0, nv);
                            match v {
                                ArgVal::FixedDict(d) => Some(
                                    (
                                        ArgVal::FixedDict(dict_insert(d, entries[idx].0, nv)),
                                        NestingV { levels: Seq::empty(), action },
                                    ),
                                ),
                                ArgVal::NullableFixedDict(Some(d)) => Some(
                                    (
                                        ArgVal::NullableFixedDict(Some(dict_insert(d, entries[idx].0, nv))),
                                        NestingV { levels: Seq::empty(), action },
                                    ),
                                ),
                                _ => None,
                            }
                        },
                        _ => None,
                    }
                }
            }
        },
        TypeV::Array(_, elem) => match v {
            ArgVal::Array(elements) => {
                let len = elements.len();
                let nb = if is_slice {
                    index_bits(len + 1)
                } else {
                    index_bits(len)
                };
                let n_idx: nat = if is_slice {
                    2
                } else {
                    1
                };
                if !bits_readable(s, bp, nb) || (is_slice && !bits_readable(s, bp + nb, nb)) {
                    None
                } else {
                    let idx1 = bits_value(s, bp, nb) as int;
                    let idx2 = bits_value(s, bp + nb, nb) as int;
                    let start = (bp + n_idx * nb + 7) / 8;
                    if start >= s.len() {
                        if is_slice {
                            Some(
                                (
                                    ArgVal::Array(python_slice_assign(elements, idx1, idx2, Seq::empty())),
                                    NestingV { levels: Seq::empty(), action: ActionV::RemoveRange(idx1, idx2) },
                                ),
                            )
                        } else {
                            None
                        }
                    } else {
                        match spec_parse_all(*elem, s, start) {
                            Some(new) => if is_slice {
                                Some(
                                    (
                                        ArgVal::Array(python_slice_assign(elements, idx1, idx2, new)),
                                        NestingV {
                                            levels: Seq::empty(),
                                            action: ActionV::SetRange(idx1, idx2, new),
                                        },
                                    ),
                                )
                            } else if idx1 < len {
                                Some(
                                    (
                                        ArgVal::Array(elements.update(idx1, new[0])),
                                        NestingV {
                                            levels: Seq::empty(),
                                            action: ActionV::SetElement(idx1, new[0]),
                                        },
                                    ),
                                )
                            } else {
                                None
                            },
                            None => None,
                        }
                    }
                }
            },
            _ => None,
        },
        _ => None,
    }
}

/// A nested property update read from bit `bp`: while the continuation bit
/// is set, descend into the dictionary entry or array element whose index
/// follows; then apply the update command. Gives the new value of `v` and
/// the path and command.
pub open spec fn spec_nested_update(is_slice: bool, t: TypeV, v: ArgVal, s: Seq<u8>, bp: int) -> Option<
    (ArgVal, NestingV),
>
    decreases t,
{
    if !bits_readable(s, bp, 1) {
        None
    } else if bits_value(s, bp, 1) == 0 {
        spec_nested_update_command(is_slice, t, v, s, bp + 1)
    } else {
        match t {
            TypeV::FixedDict(_, props) => {
                let nb = index_bits(props.len());
                if !bits_readable(s, bp + 1, nb) {
                    None
                } else {
                    let idx = bits_value(s, bp + 1, nb) as int;
                    if idx >= props.len() {
                        None
                    } else {
                        let name = props[idx].0;
                        match v {
                            ArgVal::FixedDict(d) => match dict_find(d, name) {
                                Some(j) => match spec_nested_update(is_slice, props[idx].1, d[j].1, s, bp + 1 + nb) {
                                    Some((nv, nest)) => Some(
                                        (
                                            ArgVal::FixedDict(d.update(j, (name, nv))),
                                            NestingV { levels: seq![LevelV::DictKey(name)] + nest.levels, action: nest.action },
                                        ),
                                    ),
                                    None => None,
                                },
                                None => None,
                            },
                            ArgVal::NullableFixedDict(Some(d)) => match dict_find(d, name) {
                                Some(j) => match spec_nested_update(is_slice, props[idx].1, d[j].1, s, bp + 1 + nb) {
                                    Some((nv, nest)) => Some(
                                        (
                                            ArgVal::NullableFixedDict(Some(d.update(j, (name, nv)))),
                                            NestingV {
                                                levels: seq![LevelV::DictKey(name)] + nest.levels,
                                                action: nest.action,
                                            },
                                        ),
                                    ),
                                    None => None,
                                },
                                None => None,
                            },
                            _ => None,
                        }
                    }
                }
            },
            TypeV::Array(_, elem) => match v {
                ArgVal::Array(arr) => {
                    let nb = index_bits(arr.len());
                    if !bits_readable(s, bp + 1, nb) {
                        None
                    } else {
                        let idx = bits_value(s, bp + 1, nb) as int;
                        if idx >= arr.len() {
                            None
                        } else {
                            match spec_nested_update(is_slice, *elem, arr[idx], s, bp + 1 + nb) {
                                Some((nv, nest)) => Some(
                                    (
                                        ArgVal::Array(arr.update(idx, nv)),
                                        NestingV {
                                            levels: seq![LevelV::ArrayIndex(idx)] + nest.levels,
                                            action: nest.action,
                                        },
                                    ),
                                ),
                                None => None,
                            }
                        }
                    }
                },
                _ => None,
            },
            _ => None,
        }
    }
}

/// The number of bits that index a collection of `n` elements.
pub fn index_bits_of(n: usize) -> (r: usize)
    ensures
        r == index_bits(n as nat),
        r <= 64,
{
    let mut m = n;
    let mut k: usize = 0;
    while m > 1
        invariant
            k + index_bits(m as nat) == index_bits(n as nat),
            k <= 64,
            m <= n,
            k > 0 ==> m as int <= usize::MAX / 2 + 1,
            (m as int) * pow2_usize(k as nat) >= n as int,
            (m as int - 1) * pow2_usize(k as nat) < n as int,
        decreases m,
    {
        proof {
            lemma_pow2_step(k as nat);
            assert(index_bits(m as nat) == 1 + index_bits(((m + 1) / 2) as nat));
            assert(((m as int + 1) / 2) * pow2_usize(k as nat + 1) >= n) by (nonlinear_arith)
                requires
                    (m as int) * pow2_usize(k as nat) >= n as int,
                    pow2_usize(k as nat + 1) == 2 * pow2_usize(k as nat),
                    m >= 0,
            ;
            assert(((m as int + 1) / 2 - 1) * pow2_usize(k as nat + 1) < n) by (nonlinear_arith)
                requires
                    (m as int - 1) * pow2_usize(k as nat) < n as int,
                    pow2_usize(k as nat + 1) == 2 * pow2_usize(k as nat),
                    m > 1,
                    pow2_usize(k as nat) > 0,
            ;
            if k >= 64 {
                lemma_pow2_64(k as nat);
                assert((m as int - 1) * pow2_usize(k as nat) >= pow2_usize(k as nat)) by (nonlinear_arith)
                    requires
                        m > 1,
                        pow2_usize(k as nat) > 0,
                ;
                assert(false);
            }
        }
        m = m / 2 + m % 2;
        k = k + 1;
    }
    proof {
        if m == 0 {
            assert(index_bits(0) == 0);
        }
    }
    k
}

pub open spec fn pow2_usize(k: nat) -> int
    decreases k,
{
    if k == 0 {
        1
    } else {
        2 * pow2_usize((k - 1) as nat)
    }
}

proof fn lemma_pow2_step(k: nat)
    ensures
        pow2_usize(k + 1) == 2 * pow2_usize(k),
        pow2_usize(k) > 0,
    decreases k,
{
    if k > 0 {
        lemma_pow2_step((k - 1) as nat);
    }
}

proof fn lemma_pow2_64(k: nat)
    requires
        k >= 64,
    ensures
        pow2_usize(k) > usize::MAX,
    decreases k,
{
    if k == 64 {
        reveal_with_fuel(pow2_usize, 65);
        assert(pow2_usize(64) == 0x1_0000_0000_0000_0000);
    } else {
        lemma_pow2_64((k - 1) as nat);
        lemma_pow2_step((k - 1) as nat);
    }
}

proof fn lemma_bits_value_bound(s: Seq<u8>, p: int, n: nat)
    ensures
        bits_value(s, p, n) < pow2_usize(n),
    decreases n,
{
    if n > 0 {
        lemma_bits_value_bound(s, p, (n - 1) as nat);
        let b = s[(p + n - 1) / 8];
        let sh = (7 - (p + n - 1) % 8) as u8;
        assert((b >> sh) & 1u8 <= 1u8) by (bit_vector);
    }
}

/// Reads `n` bits (at most 8) from bit `bp`, most significant first.
pub fn read_bits(data: &[u8], bp: u64, n: usize) -> (r: Option<u8>)
    requires
        data@.len() < 0x1000_0000_0000_0000,
    ensures
        r is Some <==> bits_readable(data@, bp as int, n as nat),
        r matches Some(v) ==> v as nat == bits_value(data@, bp as int, n as nat),
{
    if n > 8 || bp > 8 * (data.len() as u64) {
        return None;
    }
    let end: u64 = bp + n as u64;
    let bytes_needed: u64 = end / 8 + if end % 8 != 0 {
        1
    } else {
        0
    };
    if bytes_needed > data.len() as u64 {
        return None;
    }
    let mut v: u8 = 0;
    let mut i: usize = 0;
    while i < n
        invariant
            i <= n <= 8,
            end == bp + n,
            end <= 8 * data@.len(),
            v as nat == bits_value(data@, bp as int, i as nat),
        decreases n - i,
    {
        let p: u64 = bp + i as u64;
        let bit = (data[(p / 8) as usize] >> ((7 - p % 8) as u8)) & 1u8;
        proof {
            lemma_bits_value_bound(data@, bp as int, i as nat);
            lemma_pow2_le8(i as nat);
            let byte = data@[(p / 8) as int];
            let sh = ((7 - p % 8) as u8);
            assert(bit == (byte >> sh) & 1u8);
            assert((byte >> sh) & 1u8 <= 1u8) by (bit_vector);
        }
        v = v * 2 + bit;
        i = i + 1;
    }
    Some(v)
}

proof fn lemma_pow2_le8(i: nat)
    requires
        i < 8,
    ensures
        pow2_usize(i) <= 128,
{
    reveal_with_fuel(pow2_usize, 9);
}

proof fn lemma_dict_find_first(d: Seq<(Seq<char>, ArgVal)>, k: Seq<char>, j: int)
    requires
        0 <= j < d.len(),
        d[j].0 == k,
        forall|i: int| 0 <= i < j ==> d[i].0 != k,
    ensures
        dict_find(d, k) == Some(j),
{
    let c = choose|c: int| 0 <= c < d.len() && d[c].0 == k && forall|i: int| 0 <= i < c ==> d[i].0 != k;
    assert(0 <= c < d.len() && d[c].0 == k && forall|i: int| 0 <= i < c ==> d[i].0 != k);
    if c < j {
        assert(d[c].0 != k);
    }
    if j < c {
        assert(d[j].0 != k);
    }
}

/// The kinds of error that reading a nested update can end with: the bytes
/// end early, a nullable dictionary flag is unknown, or the update does not
/// fit the value it addresses.
pub open spec fn update_error(e: ErrorKind) -> bool {
    e is UnexpectedEof || e is UnknownFixedDictFlag || e is ParsingFailure
}

/// The index of the first entry of `d` whose key is `k`.
fn find_entry(d: &Vec<(String, ArgValue)>, k: &str) -> (r: Option<usize>)
    ensures
        r matches Some(j) ==> dict_find(dict_view(d@), k@) == Some(j as int) && j < d@.len(),
        r is None ==> dict_find(dict_view(d@), k@) is None,
{
    proof {
        lemma_dict_view_ext(d@);
    }
    let ghost dv = dict_view(d@);
    let mut j: usize = 0;
    while j < d.len()
        invariant
            j <= d@.len(),
            dv == dict_view(d@),
            dv.len() == d@.len(),
            forall|i: int| 0 <= i < j ==> dv[i].0 != k@,
            forall|i: int| 0 <= i < d@.len() ==> #[trigger] dv[i] == (d@[i].0@, val_view(d@[i].1)),
        decreases d@.len() - j,
    {
        if str_eq(d[j].0.as_str(), k) {
            proof {
                lemma_dict_find_first(dv, k@, j as int);
            }
            return Some(j);
        }
        j = j + 1;
    }
    None
}

/// A copy of `d` with entry `j` replaced.
fn dict_with(d: &Vec<(String, ArgValue)>, j: usize, e: (String, ArgValue)) -> (r: Vec<(String, ArgValue)>)
    requires
        j < d@.len(),
    ensures
        dict_view(r@) == dict_view(d@).update(j as int, (e.0@, val_view(e.1))),
{
    let mut out = duplicate_entries(d);
    proof {
        lemma_dict_view_ext(out@);
        lemma_dict_view_ext(d@);
        lemma_dict_view_len(out@);
        lemma_dict_view_len(d@);
    }
    out.set(j, e);
    proof {
        lemma_dict_view_ext(out@);
        assert(dict_view(out@) =~= dict_view(d@).update(j as int, (e.0@, val_view(e.1))));
    }
    out
}

/// A copy of `d` with key `k` set to `v`, as [`dict_insert`] says.
fn dict_inserted(d: &Vec<(String, ArgValue)>, k: String, v: ArgValue) -> (r: Vec<(String, ArgValue)>)
    ensures
        dict_view(r@) == dict_insert(dict_view(d@), k@, val_view(v)),
{
    match find_entry(d, k.as_str()) {
        Some(j) => dict_with(d, j, (k, v)),
        None => {
            let mut out = duplicate_entries(d);
            proof {
                lemma_dict_view_push(out@, (k, v));
            }
            out.push((k, v));
            out
        },
    }
}

/// A copy of `xs` with element `j` replaced by `v`.
pub(crate) fn vals_with(xs: &Vec<ArgValue>, j: usize, v: ArgValue) -> (r: Vec<ArgValue>)
    requires
        j < xs@.len(),
    ensures
        vals_view(r@) == vals_view(xs@).update(j as int, val_view(v)),
{
    let mut out = duplicate_values(xs);
    proof {
        lemma_vals_view_ext(out@);
        lemma_vals_view_ext(xs@);
        lemma_vals_view_len(out@);
        lemma_vals_view_len(xs@);
    }
    out.set(j, v);
    proof {
        lemma_vals_view_ext(out@);
        assert(vals_view(out@) =~= vals_view(xs@).update(j as int, val_view(v)));
    }
    out
}

proof fn lemma_vals_view_slice_assign(xs: Seq<ArgValue>, i: int, j: int, ys: Seq<ArgValue>)
    requires
        i >= 0,
        j >= 0,
    ensures
        vals_view(python_slice_assign(xs, i, j, ys)) == python_slice_assign(
            vals_view(xs),
            i,
            j,
            vals_view(ys),
        ),
{
    lemma_vals_view_ext(xs);
    lemma_vals_view_ext(ys);
    let zs = python_slice_assign(xs, i, j, ys);
    lemma_vals_view_ext(zs);
    let (a, b) = python_slice_bounds(xs.len() as int, i, j);
    let vx = vals_view(xs);
    let vy = vals_view(ys);
    let w = python_slice_assign(vx, i, j, vy);
    assert(zs.len() == w.len());
    assert forall|k: int| 0 <= k < zs.len() implies vals_view(zs)[k] == w[k] by {
        if k < a {
            assert(zs[k] == xs[k]);
            assert(w[k] == vx[k]);
        } else if k < a + ys.len() {
            assert(zs[k] == ys[k - a]);
            assert(w[k] == vy[k - a]);
        } else {
            assert(zs[k] == xs[k - a - ys.len() + b]);
            assert(w[k] == vx[k - a - ys.len() + b]);
        }
    }
    assert(vals_view(python_slice_assign(xs, i, j, ys)) =~= python_slice_assign(
        vals_view(xs),
        i,
        j,
        vals_view(ys),
    ));
}

/// Decodes values of type `elem` from `pos` to the end of `data`.
fn parse_all(elem: &ArgType, data: &[u8], pos: usize) -> (r: Result<Vec<ArgValue>, ErrorKind>)
    requires
        pos <= data@.len(),
    ensures
        match r {
            Ok(vs) => spec_parse_all(elem@, data@, pos as int) == Some(vals_view(vs@)),
            Err(e) => spec_parse_all(elem@, data@, pos as int) is None && update_error(e),
        },
{
    if pos >= data.len() {
        proof {
            assert(vals_view(Seq::<ArgValue>::empty()) =~= Seq::<ArgVal>::empty());
        }
        return Ok(Vec::new());
    }
    let mut out: Vec<ArgValue> = Vec::new();
    let mut p = pos;
    proof {
        assert(vals_view(out@) + spec_parse_all(elem@, data@, pos as int)->0 =~= spec_parse_all(
            elem@,
            data@,
            pos as int,
        )->0);
    }
    while p < data.len()
        invariant
            pos <= p <= data@.len(),
            spec_parse_all(elem@, data@, pos as int) is Some <==> spec_parse_all(elem@, data@, p as int) is Some,
            spec_parse_all(elem@, data@, pos as int) is Some ==> spec_parse_all(elem@, data@, pos as int)->0
                == vals_view(out@) + spec_parse_all(elem@, data@, p as int)->0,
        decreases data@.len() - p,
    {
        if elem.reaches_tuple(data, p) {
            return Err(ErrorKind::ParsingFailure(String::new()));
        }
        proof {
            lemma_parse_value_bounds(elem@, data@, p as int);
        }
        match elem.parse_value(data, p) {
            Ok((v, e)) => {
                if e <= p {
                    return Err(ErrorKind::ParsingFailure(String::new()));
                }
                proof {
                    lemma_vals_view_push(out@, v);
                    if spec_parse_all(elem@, data@, e as int) is Some {
                        assert(vals_view(out@).push(val_view(v)) + spec_parse_all(elem@, data@, e as int)->0
                            =~= vals_view(out@) + (seq![val_view(v)] + spec_parse_all(elem@, data@, e as int)->0));
                    }
                }
                out.push(v);
                p = e;
            },
            Err(err) => {
                return Err(err);
            },
        }
    }
    proof {
        assert(vals_view(out@) + Seq::<ArgVal>::empty() =~= vals_view(out@));
    }
    Ok(out)
}

/// The byte offset where a bit position rounds up to a byte boundary.
fn align_up(bp: u64, len: usize) -> (r: usize)
    requires
        bp <= 8 * len,
    ensures
        r == (bp + 7) / 8,
        r <= len,
{
    (bp / 8 + if bp % 8 != 0 {
        1
    } else {
        0
    }) as usize
}

/// Applies the update command at the end of a nested path, read from bit
/// `bp`, to `v`.
fn nested_update_command(is_slice: bool, t: &ArgType, v: &ArgValue, data: &[u8], bp: u64) -> (r: Result<
    (ArgValue, PropertyNesting),
    ErrorKind,
>)
    requires
        data@.len() < 0x1000_0000_0000_0000,
        bp <= 8 * data@.len(),
    ensures
        match r {
            Ok((nv, n)) => spec_nested_update_command(is_slice, t@, val_view(*v), data@, bp as int) == Some(
                (val_view(nv), nesting_view(n)),
            ),
            Err(e) => spec_nested_update_command(is_slice, t@, val_view(*v), data@, bp as int) is None && update_error(e),
        },
{
    match t {
        ArgType::FixedDict((_, entries)) => {
            proof {
                crate::rpc::typedefs::lemma_props_view_len(entries@);
            }
            let nb = index_bits_of(entries.len());
            let idx = match read_bits(data, bp, nb) {
                Some(x) => x as usize,
                None => return Err(ErrorKind::ParsingFailure(String::new())),
            };
            let start = align_up(bp + nb as u64, data.len());
            if idx >= entries.len() {
                return Err(ErrorKind::ParsingFailure(String::new()));
            }
            proof {
                crate::rpc::typedefs::lemma_props_view_index(entries@, idx as int);
            }
            let entry = &entries[idx];
            if entry.prop_type.reaches_tuple(data, start) {
                return Err(ErrorKind::ParsingFailure(String::new()));
            }
            let (nv, _e) = match entry.prop_type.parse_value(data, start) {
                Ok(x) => x,
                Err(e) => return Err(e),
            };
            let dup = nv.duplicate();
            let levels: Vec<PropertyNestLevel> = Vec::new();
            proof {
                assert(levels@.map_values(|l: PropertyNestLevel| level_view(l)) =~= Seq::<LevelV>::empty());
            }
            match v {
                ArgValue::FixedDict(d) => {
                    let nd = dict_inserted(d, entry.name.clone(), nv);
                    Ok((ArgValue::FixedDict(nd), PropertyNesting { levels, action: UpdateAction::SetKey { key: entry.name.clone(), value: dup } }))
                },
                ArgValue::NullableFixedDict(Some(d)) => {
                    let nd = dict_inserted(d, entry.name.clone(), nv);
                    Ok((ArgValue::NullableFixedDict(Some(nd)), PropertyNesting { levels, action: UpdateAction::SetKey { key: entry.name.clone(), value: dup } }))
                },
                _ => Err(ErrorKind::ParsingFailure(String::new())),
            }
        },
        ArgType::Array((_, elem)) => {
            let elements = match v {
                ArgValue::Array(e) => e,
                _ => return Err(ErrorKind::ParsingFailure(String::new())),
            };
            proof {
                lemma_vals_view_len(elements@);
            }
            let len = elements.len();
            if is_slice && len >= 256 {
                proof {
                    reveal_with_fuel(pow2_usize, 9);
                    lemma_index_bits_large((len + 1) as nat, 9);
                }
                return Err(ErrorKind::ParsingFailure(String::new()));
            }
            let nb = if is_slice {
                index_bits_of(len + 1)
            } else {
                index_bits_of(len)
            };
            let idx1 = match read_bits(data, bp, nb) {
                Some(x) => x as usize,
                None => return Err(ErrorKind::ParsingFailure(String::new())),
            };
            let idx2 = if is_slice {
                match read_bits(data, bp + nb as u64, nb) {
                    Some(x) => x as usize,
                    None => return Err(ErrorKind::ParsingFailure(String::new())),
                }
            } else {
                0
            };
            let ghost idx2_spec = bits_value(data@, bp + nb, nb as nat) as int;
            proof {
                if !is_slice {
                    lemma_bits_value_bound(data@, bp + nb, nb as nat);
                }
            }
            let start = if is_slice {
                align_up(bp + 2 * (nb as u64), data.len())
            } else {
                align_up(bp + nb as u64, data.len())
            };
            let levels: Vec<PropertyNestLevel> = Vec::new();
            proof {
                assert(levels@.map_values(|l: PropertyNestLevel| level_view(l)) =~= Seq::<LevelV>::empty());
            }
            if start >= data.len() {
                if is_slice {
                    let mut target = duplicate_values(elements);
                    let empty: Vec<ArgValue> = Vec::new();
                    proof {
                        lemma_vals_view_slice_assign(target@, idx1 as int, idx2 as int, empty@);
                        assert(vals_view(empty@) =~= Seq::<ArgVal>::empty());
                    }
                    slice_insert(idx1, idx2, &mut target, empty);
                    return Ok((ArgValue::Array(target), PropertyNesting { levels, action: UpdateAction::RemoveRange { start: idx1, stop: idx2 } }));
                } else {
                    return Err(ErrorKind::ParsingFailure(String::new()));
                }
            }
            let new_elements = match parse_all(elem, data, start) {
                Ok(v) => v,
                Err(e) => return Err(e),
            };
            if is_slice {
                let values = duplicate_values(&new_elements);
                let mut target = duplicate_values(elements);
                proof {
                    lemma_vals_view_slice_assign(target@, idx1 as int, idx2 as int, new_elements@);
                }
                slice_insert(idx1, idx2, &mut target, new_elements);
                Ok((ArgValue::Array(target), PropertyNesting { levels, action: UpdateAction::SetRange { start: idx1, stop: idx2, values } }))
            } else {
                if idx1 >= len {
                    return Err(ErrorKind::ParsingFailure(String::new()));
                }
                proof {
                    lemma_vals_view_len(new_elements@);
                    if new_elements@.len() == 0 {
                        lemma_parse_value_bounds(elem@, data@, start as int);
                        assert(false);
                    }
                    lemma_vals_view_index(new_elements@, 0);
                }
                let first = new_elements[0].duplicate();
                let value = new_elements[0].duplicate();
                let target = vals_with(elements, idx1, first);
                Ok((ArgValue::Array(target), PropertyNesting { levels, action: UpdateAction::SetElement { index: idx1, value } }))
            }
        },
        _ => Err(ErrorKind::ParsingFailure(String::new())),
    }
}

/// The path entries of `n` with `l` added at the front.
fn prepend_level(n: PropertyNesting, l: PropertyNestLevel) -> (r: PropertyNesting)
    ensures
        nesting_view(r) == (NestingV {
            levels: seq![level_view(l)] + nesting_view(n).levels,
            action: nesting_view(n).action,
        }),
{
    let PropertyNesting { mut levels, action } = n;
    let ghost old_levels = levels@;
    levels.insert(0, l);
    proof {
        assert(levels@.map_values(|x: PropertyNestLevel| level_view(x)) =~= seq![level_view(l)]
            + old_levels.map_values(|x: PropertyNestLevel| level_view(x)));
    }
    PropertyNesting { levels, action }
}

/// Reads a nested update from bit `bp` and applies it to a copy of `v`:
/// gives the new value and the path and command.
#[verifier::rlimit(100)]
#[verifier::spinoff_prover]
fn nested_update(is_slice: bool, t: &ArgType, v: &ArgValue, data: &[u8], bp: u64) -> (r: Result<
    (ArgValue, PropertyNesting),
    ErrorKind,
>)
    requires
        data@.len() < 0x1000_0000_0000_0000,
        bp <= 8 * data@.len(),
    ensures
        match r {
            Ok((nv, n)) => spec_nested_update(is_slice, t@, val_view(*v), data@, bp as int) == Some(
                (val_view(nv), nesting_view(n)),
            ),
            Err(e) => spec_nested_update(is_slice, t@, val_view(*v), data@, bp as int) is None && update_error(e),
        },
    decreases t,
{
    let cont = match read_bits(data, bp, 1) {
        Some(c) => c,
        None => return Err(ErrorKind::ParsingFailure(String::new())),
    };
    if cont == 0 {
        return nested_update_command(is_slice, t, v, data, bp + 1);
    }
    match t {
        ArgType::FixedDict((_, props)) => {
            proof {
                crate::rpc::typedefs::lemma_props_view_len(props@);
            }
            let nb = index_bits_of(props.len());
            let idx = match read_bits(data, bp + 1, nb) {
                Some(x) => x as usize,
                None => return Err(ErrorKind::ParsingFailure(String::new())),
            };
            if idx >= props.len() {
                return Err(ErrorKind::ParsingFailure(String::new()));
            }
            proof {
                crate::rpc::typedefs::lemma_props_view_index(props@, idx as int);
            }
            let prop = &props[idx];
            match v {
                ArgValue::FixedDict(d) => {
                    let j = match find_entry(d, prop.name.as_str()) {
                        Some(j) => j,
                        None => return Err(ErrorKind::ParsingFailure(String::new())),
                    };
                    proof {
                        crate::rpc::typedefs::lemma_dict_view_index(d@, j as int);
                        assert(decreases_to!(t => prop.prop_type));
                    }
                    let (nv, nest) = match nested_update(is_slice, &prop.prop_type, &d[j].1, data, bp + 1 + nb as u64) {
                        Ok(x) => x,
                        Err(e) => return Err(e),
                    };
                    let nd = dict_with(d, j, (prop.name.clone(), nv));
                    let nest = prepend_level(nest, PropertyNestLevel::DictKey(prop.name.clone()));
                    Ok((ArgValue::FixedDict(nd), nest))
                },
                ArgValue::NullableFixedDict(Some(d)) => {
                    let j = match find_entry(d, prop.name.as_str()) {
                        Some(j) => j,
                        None => return Err(ErrorKind::ParsingFailure(String::new())),
                    };
                    proof {
                        crate::rpc::typedefs::lemma_dict_view_index(d@, j as int);
                        assert(decreases_to!(t => prop.prop_type));
                    }
                    let (nv, nest) = match nested_update(is_slice, &prop.prop_type, &d[j].1, data, bp + 1 + nb as u64) {
                        Ok(x) => x,
                        Err(e) => return Err(e),
                    };
                    let nd = dict_with(d, j, (prop.name.clone(), nv));
                    let nest = prepend_level(nest, PropertyNestLevel::DictKey(prop.name.clone()));
                    Ok((ArgValue::NullableFixedDict(Some(nd)), nest))
                },
                _ => Err(ErrorKind::ParsingFailure(String::new())),
            }
        },
        ArgType::Array((_, elem)) => {
            let arr = match v {
                ArgValue::Array(a) => a,
                _ => return Err(ErrorKind::ParsingFailure(String::new())),
            };
            proof {
                lemma_vals_view_len(arr@);
            }
            let nb = index_bits_of(arr.len());
            let idx = match read_bits(data, bp + 1, nb) {
                Some(x) => x as usize,
                None => return Err(ErrorKind::ParsingFailure(String::new())),
            };
            if idx >= arr.len() {
                return Err(ErrorKind::ParsingFailure(String::new()));
            }
            proof {
                lemma_vals_view_index(arr@, idx as int);
            }
            let (nv, nest) = match nested_update(is_slice, elem, &arr[idx], data, bp + 1 + nb as u64) {
                Ok(x) => x,
                Err(e) => return Err(e),
            };
            let na = vals_with(arr, idx, nv);
            let nest = prepend_level(nest, PropertyNestLevel::ArrayIndex(idx));
            Ok((ArgValue::Array(na), nest))
        },
        _ => Err(ErrorKind::ParsingFailure(String::new())),
    }
}

/// Reads the nested update that starts at bit `bp` of `data` and applies it
/// to `prop_value`, a value of type `t`. On success the value is changed as
/// [`spec_nested_update`] says and the path and command are returned; on
/// failure the value is left as it was.
pub fn get_nested_prop_path_helper(
    is_slice: bool,
    t: &ArgType,
    prop_value: &mut ArgValue,
    data: &[u8],
    bp: u64,
) -> (r: Result<PropertyNesting, ErrorKind>)
    requires
        data@.len() < 0x1000_0000_0000_0000,
    ensures
        match r {
            Ok(n) => spec_nested_update(is_slice, t@, val_view(*old(prop_value)), data@, bp as int)
                == Some((val_view(*final(prop_value)), nesting_view(n))),
            Err(e) => spec_nested_update(is_slice, t@, val_view(*old(prop_value)), data@, bp as int)
                is None && *final(prop_value) == *old(prop_value) && update_error(e),
        },
{
    if bp > 8 * (data.len() as u64) {
        return Err(ErrorKind::ParsingFailure(String::new()));
    }
    match nested_update(is_slice, t, prop_value, data, bp) {
        Ok((nv, n)) => {
            *prop_value = nv;
            Ok(n)
        },
        Err(e) => Err(e),
    }
}

/// A collection of more than `2^(k-1)` elements takes at least `k` index
/// bits.
proof fn lemma_index_bits_large(n: nat, k: nat)
    requires
        k >= 1,
        n > pow2_usize((k - 1) as nat),
    ensures
        index_bits(n) >= k,
    decreases k,
{
    lemma_pow2_step((k - 1) as nat);
    if k >= 2 {
        lemma_pow2_step((k - 2) as nat);
        lemma_index_bits_large(((n + 1) / 2) as nat, (k - 1) as nat);
    } else {
        reveal_with_fuel(pow2_usize, 1);
    }
}

} // verus!
