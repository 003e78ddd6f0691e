//! The `.idx` index files of the game's resource packages: a header, a
//! tree of named nodes, the records of the files stored in a package, and
//! a trailer with the package's name.
use vstd::prelude::*;
use std::collections::HashMap;

use crate::bytes::{as_signed, le_uint, read_i32, read_i64, read_u64, take};
use crate::error::ErrorKind;
use std::io::Read;

verus! {

broadcast use vstd::std_specs::hash::group_hash_axioms;

/// The fixed part at the start of an index file.
pub struct Header {
    pub num_nodes: i32,
    pub num_files: i32,
    pub third_offset: i64,
    pub trailer_offset: i64,
    pub first_block: Vec<u8>,
    pub unknown1: i64,
    pub unknown2: i64,
}

/// A node of the tree of names: a directory or a file.
pub struct Node {
    pub name: String,
    pub id: u64,
    pub parent: u64,
    pub unknown: Vec<u8>,
}

/// Where a file is stored in its package, as the index records it.
pub struct RawFileRecord {
    pub id: u64,
    pub offset: i64,
    pub length: i32,
    pub uncompressed_length: i64,
    /// The record's bytes.
    pub raw: Vec<u8>,
}

/// The mathematical value of a [`Header`].
pub struct HeaderV {
    pub num_nodes: i32,
    pub num_files: i32,
    pub third_offset: i64,
    pub trailer_offset: i64,
    pub first_block: Seq<u8>,
    pub unknown1: i64,
    pub unknown2: i64,
}

/// The mathematical value of a [`Node`].
pub struct NodeV {
    pub name: Seq<char>,
    pub id: u64,
    pub parent: u64,
    pub unknown: Seq<u8>,
}

/// The mathematical value of a [`RawFileRecord`].
pub struct RawFileRecordV {
    pub id: u64,
    pub offset: i64,
    pub length: i32,
    pub uncompressed_length: i64,
    pub raw: Seq<u8>,
}

impl View for Header {
    type V = HeaderV;

    open spec fn view(&self) -> HeaderV {
        HeaderV {
            num_nodes: self.num_nodes,
            num_files: self.num_files,
            third_offset: self.third_offset,
            trailer_offset: self.trailer_offset,
            first_block: self.first_block@,
            unknown1: self.unknown1,
            unknown2: self.unknown2,
        }
    }
}

impl View for Node {
    type V = NodeV;

    open spec fn view(&self) -> NodeV {
        NodeV { name: self.name@, id: self.id, parent: self.parent, unknown: self.unknown@ }
    }
}

impl View for RawFileRecord {
    type V = RawFileRecordV;

    open spec fn view(&self) -> RawFileRecordV {
        RawFileRecordV {
            id: self.id,
            offset: self.offset,
            length: self.length,
            uncompressed_length: self.uncompressed_length,
            raw: self.raw@,
        }
    }
}

pub open spec fn nodes_v(ns: Seq<Node>) -> Seq<NodeV> {
    Seq::new(ns.len(), |i: int| ns[i]@)
}

pub open spec fn records_v(rs: Seq<RawFileRecord>) -> Seq<RawFileRecordV> {
    Seq::new(rs.len(), |i: int| rs[i]@)
}

/// The little-endian two's complement `i32` at `p`.
pub open spec fn i32_at(s: Seq<u8>, p: int) -> int {
    as_signed(le_uint(s, p, 4), 0x1_0000_0000)
}

/// The little-endian two's complement `i64` at `p`.
pub open spec fn i64_at(s: Seq<u8>, p: int) -> int {
    as_signed(le_uint(s, p, 8), 0x1_0000_0000_0000_0000)
}

/// The magic number that starts an index file, `ISFP`.
pub open spec fn idx_magic() -> Seq<u8> {
    seq![0x49u8, 0x53u8, 0x46u8, 0x50u8]
}

/// The header at the start of `s`: the magic number, a block of 12 bytes,
/// the numbers of nodes and files (`i32`), then four `i64` values: two
/// unknown ones and the offsets of the file records and of the trailer.
/// It takes 56 bytes.
pub open spec fn spec_header(s: Seq<u8>) -> Option<HeaderV> {
    if s.len() < 56 || s.subrange(0, 4) != idx_magic() {
        None
    } else {
        Some(
            HeaderV {
                num_nodes: i32_at(s, 16) as i32,
                num_files: i32_at(s, 20) as i32,
                third_offset: i64_at(s, 40) as i64,
                trailer_offset: i64_at(s, 48) as i64,
                first_block: s.subrange(4, 16),
                unknown1: i64_at(s, 24) as i64,
                unknown2: i64_at(s, 32) as i64,
            },
        )
    }
}

/// Reads the header at the start of `data`; gives it and the offset past
/// it.
pub fn parse_header(data: &[u8]) -> (r: Result<(Header, usize), ErrorKind>)
    ensures
        match r {
            Ok((h, end)) => spec_header(data@) == Some(h@) && end == 56,
            Err(_) => spec_header(data@) is None,
        },
{
    if data.len() < 56 {
        return Err(ErrorKind::UnexpectedEof);
    }
    if !(data[0] == 0x49 && data[1] == 0x53 && data[2] == 0x46 && data[3] == 0x50) {
        proof {
            assert(data@.subrange(0, 4) != idx_magic()) by {
                if data@.subrange(0, 4) == idx_magic() {
                    assert(data@[0] == data@.subrange(0, 4)[0]);
                    assert(data@[1] == data@.subrange(0, 4)[1]);
                    assert(data@[2] == data@.subrange(0, 4)[2]);
                    assert(data@[3] == data@.subrange(0, 4)[3]);
                }
            }
        }
        return Err(ErrorKind::BadTag);
    }
    proof {
        assert(data@.subrange(0, 4) =~= idx_magic());
    }
    let (first_block, _) = take(data, 4, 12).unwrap();
    let (num_nodes, _) = read_i32(data, 16).unwrap();
    let (num_files, _) = read_i32(data, 20).unwrap();
    let (unknown1, _) = read_i64(data, 24).unwrap();
    let (unknown2, _) = read_i64(data, 32).unwrap();
    let (third_offset, _) = read_i64(data, 40).unwrap();
    let (trailer_offset, _) = read_i64(data, 48).unwrap();
    Ok((Header { num_nodes, num_files, third_offset, trailer_offset, first_block, unknown1, unknown2 }, 56))
}

/// The four fields of a node entry at `p`: eight unknown bytes, the offset
/// of the node's name (from the start of the entry), its id and its
/// parent's id. An entry takes 32 bytes.
pub open spec fn spec_node_entry(s: Seq<u8>, p: int) -> Option<(Seq<u8>, int, u64, u64)> {
    if p < 0 || p + 32 > s.len() {
        None
    } else {
        Some((s.subrange(p, p + 8), i64_at(s, p + 8), le_uint(s, p + 16, 8) as u64, le_uint(s, p + 24, 8) as u64))
    }
}

/// Reads the node entry at `pos`; gives its fields and the offset past it.
pub fn parse_node(data: &[u8], pos: usize) -> (r: Option<((Vec<u8>, i64, u64, u64), usize)>)
    ensures
        match r {
            Some(((unknown, ptr, id, parent), end)) => spec_node_entry(data@, pos as int) == Some(
                (unknown@, ptr as int, id, parent),
            ) && end == pos + 32,
            None => spec_node_entry(data@, pos as int) is None,
        },
{
    if pos > data.len() || data.len() - pos < 32 {
        return None;
    }
    let (unknown, _) = take(data, pos, 8).unwrap();
    let (ptr, _) = read_i64(data, pos + 8).unwrap();
    let (id, _) = read_u64(data, pos + 16).unwrap();
    let (parent, _) = read_u64(data, pos + 24).unwrap();
    Some(((unknown, ptr, id, parent), pos + 32))
}

/// The index of the first zero byte of `s` at or after `from`.
pub open spec fn first_zero(s: Seq<u8>, from: int) -> Option<int>
    decreases s.len() - from,
{
    if from < 0 || from >= s.len() {
        None
    } else if s[from] == 0 {
        Some(from)
    } else {
        first_zero(s, from + 1)
    }
}

/// Finds the first zero byte of `data` at or after `from`.
fn find_zero(data: &[u8], from: usize) -> (r: Option<usize>)
    ensures
        match r {
            Some(j) => first_zero(data@, from as int) == Some(j as int),
            None => first_zero(data@, from as int) is None,
        },
    decreases data@.len() - from,
{
    if from >= data.len() {
        None
    } else if data[from] == 0 {
        Some(from)
    } else {
        find_zero(data, from + 1)
    }
}

/// The node whose entry is at `p`: its name is the UTF-8 text that starts
/// `ptr` bytes after the entry and ends before the next zero byte.
pub open spec fn spec_node(s: Seq<u8>, p: int) -> Option<NodeV> {
    match spec_node_entry(s, p) {
        None => None,
        Some((unknown, ptr, id, parent)) => if ptr < 0 {
            None
        } else {
            match first_zero(s, p + ptr) {
                None => None,
                Some(z) => {
                    let bytes = s.subrange(p + ptr, z);
                    if vstd::utf8::valid_utf8(bytes) {
                        Some(NodeV { name: vstd::utf8::decode_utf8(bytes), id, parent, unknown })
                    } else {
                        None
                    }
                },
            }
        },
    }
}

/// The first `n` nodes, whose entries follow each other from `pos` on.
pub open spec fn spec_nodes(s: Seq<u8>, pos: int, n: int) -> Option<Seq<NodeV>>
    decreases n,
{
    if n <= 0 {
        Some(Seq::empty())
    } else {
        match spec_nodes(s, pos, n - 1) {
            None => None,
            Some(ns) => match spec_node(s, pos + 32 * (n - 1)) {
                None => None,
                Some(nd) => Some(ns.push(nd)),
            },
        }
    }
}

/// The file records after the node entries: each takes 48 bytes, of which
/// it keeps all as its raw bytes; its id (`u64`) is at 0, its offset in the
/// package (`i64`) at 16, its stored length (`i32`) at 32 and its length
/// once inflated (`i64`) at 40.
pub open spec fn spec_file_record(s: Seq<u8>, p: int) -> Option<RawFileRecordV> {
    if p < 0 || p + 48 > s.len() {
        None
    } else {
        Some(
            RawFileRecordV {
                id: le_uint(s, p, 8) as u64,
                offset: i64_at(s, p + 16) as i64,
                length: i32_at(s, p + 32) as i32,
                uncompressed_length: i64_at(s, p + 40) as i64,
                raw: s.subrange(p, p + 48),
            },
        )
    }
}

/// The first `n` file records, which follow each other from `pos` on.
pub open spec fn spec_file_records(s: Seq<u8>, pos: int, n: int) -> Option<Seq<RawFileRecordV>>
    decreases n,
{
    if n <= 0 {
        Some(Seq::empty())
    } else {
        match spec_file_records(s, pos, n - 1) {
            None => None,
            Some(rs) => match spec_file_record(s, pos + 48 * (n - 1)) {
                None => None,
                Some(r) => Some(rs.push(r)),
            },
        }
    }
}

/// Reads the file record at `pos`; gives it and the offset past it.
pub fn parse_file_record(data: &[u8], pos: usize) -> (r: Option<(RawFileRecord, usize)>)
    ensures
        match r {
            Some((rec, end)) => spec_file_record(data@, pos as int) == Some(rec@) && end == pos + 48,
            None => spec_file_record(data@, pos as int) is None,
        },
{
    if pos > data.len() || data.len() - pos < 48 {
        return None;
    }
    let (id, _) = read_u64(data, pos).unwrap();
    let (offset, _) = read_i64(data, pos + 16).unwrap();
    let (length, _) = read_i32(data, pos + 32).unwrap();
    let (uncompressed_length, _) = read_i64(data, pos + 40).unwrap();
    let (raw, _) = take(data, pos, 48).unwrap();
    Some((RawFileRecord { id, offset, length, uncompressed_length, raw }, pos + 48))
}

/// The name of the package, in the trailer at `p`: 24 bytes, then UTF-8
/// text up to the next zero byte or the end.
pub open spec fn spec_trailer(s: Seq<u8>, p: int) -> Option<Seq<char>> {
    if p < 0 || p + 24 > s.len() {
        None
    } else {
        let end = match first_zero(s, p + 24) {
            Some(z) => z,
            None => s.len() as int,
        };
        let bytes = s.subrange(p + 24, end);
        if vstd::utf8::valid_utf8(bytes) {
            Some(vstd::utf8::decode_utf8(bytes))
        } else {
            None
        }
    }
}

/// Reads the package name in the trailer at `pos`.
pub fn parse_trailer(data: &[u8], pos: usize) -> (r: Option<String>)
    ensures
        match r {
            Some(name) => spec_trailer(data@, pos as int) == Some(name@),
            None => spec_trailer(data@, pos as int) is None,
        },
{
    if pos > data.len() || data.len() - pos < 24 {
        return None;
    }
    let end = match find_zero(data, pos + 24) {
        Some(z) => z,
        None => data.len(),
    };
    proof {
        if first_zero(data@, pos + 24) is Some {
            lemma_first_zero_bounds(data@, pos + 24);
        }
    }
    let (bytes, _) = take(data, pos + 24, end - (pos + 24)).unwrap();
    crate::packet2::utf8_string(bytes.as_slice())
}

proof fn lemma_first_zero_bounds(s: Seq<u8>, from: int)
    requires
        first_zero(s, from) is Some,
    ensures
        from <= first_zero(s, from)->0 < s.len(),
        s[first_zero(s, from)->0] == 0,
    decreases s.len() - from,
{
    if from >= 0 && from < s.len() && s[from] != 0 {
        lemma_first_zero_bounds(s, from + 1);
    }
}

/// Reads the node at `pos`, as [`spec_node`] says.
fn read_node(data: &[u8], pos: usize) -> (r: Option<Node>)
    ensures
        match r {
            Some(n) => spec_node(data@, pos as int) == Some(n@),
            None => spec_node(data@, pos as int) is None,
        },
{
    let ((unknown, ptr, id, parent), _) = parse_node(data, pos)?;
    if ptr < 0 {
        return None;
    }
    if ptr as u64 > (data.len() - pos) as u64 {
        proof {
            assert(first_zero(data@, pos + ptr) is None);
        }
        return None;
    }
    let start = pos + ptr as usize;
    let z = match find_zero(data, start) {
        Some(z) => z,
        None => return None,
    };
    proof {
        lemma_first_zero_bounds(data@, start as int);
    }
    let (bytes, _) = take(data, start, z - start).unwrap();
    let name = crate::packet2::utf8_string(bytes.as_slice())?;
    Some(Node { name, id, parent, unknown })
}

/// Reads `num_nodes` nodes whose entries follow each other from `pos` on
/// (none when `num_nodes` is not positive); gives them and the offset past
/// the last entry.
pub fn parse_pointers_with_strings(num_nodes: i32, data: &[u8], pos: usize) -> (r: Result<
    (Vec<Node>, usize),
    ErrorKind,
>)
    ensures
        match r {
            Ok((ns, end)) => spec_nodes(data@, pos as int, num_nodes as int) == Some(nodes_v(ns@)) && end == pos
                + 32 * (if num_nodes > 0 {
                num_nodes as int
            } else {
                0
            }),
            Err(_) => spec_nodes(data@, pos as int, num_nodes as int) is None,
        },
{
    let mut nodes: Vec<Node> = Vec::new();
    let mut p: usize = pos;
    let mut k: i32 = 0;
    proof {
        assert(nodes_v(nodes@) =~= Seq::<NodeV>::empty());
    }
    while k < num_nodes
        invariant
            0 <= k,
            num_nodes > 0 ==> k <= num_nodes,
            num_nodes <= 0 ==> k == 0,
            p == pos + 32 * k,
            spec_nodes(data@, pos as int, k as int) == Some(nodes_v(nodes@)),
        decreases num_nodes - k,
    {
        match read_node(data, p) {
            Some(nd) => {
                let ghost before = nodes_v(nodes@);
                proof {
                    assert(spec_node_entry(data@, p as int) is Some);
                    assert(p + 32 <= data.len());
                }
                nodes.push(nd);
                proof {
                    assert(nodes_v(nodes@) =~= before.push(nd@));
                }
                p = p + 32;
                k = k + 1;
            },
            None => {
                proof {
                    lemma_nodes_stop(data@, pos as int, k as int, num_nodes as int);
                }
                return Err(ErrorKind::ParsingFailure("bad node entry".to_owned()));
            },
        }
    }
    Ok((nodes, p))
}

proof fn lemma_nodes_stop(s: Seq<u8>, pos: int, k: int, n: int)
    requires
        0 <= k < n,
        spec_node(s, pos + 32 * k) is None,
    ensures
        spec_nodes(s, pos, n) is None,
    decreases n - k,
{
    if n - 1 > k {
        lemma_nodes_stop(s, pos, k, n - 1);
    }
}

proof fn lemma_records_stop(s: Seq<u8>, pos: int, k: int, n: int)
    requires
        0 <= k < n,
        spec_file_record(s, pos + 48 * k) is None,
    ensures
        spec_file_records(s, pos, n) is None,
    decreases n - k,
{
    if n - 1 > k {
        lemma_records_stop(s, pos, k, n - 1);
    }
}

/// Reads `num_files` file records that follow each other from `pos` on
/// (none when `num_files` is not positive).
pub fn parse_file_records(num_files: i32, data: &[u8], pos: usize) -> (r: Result<Vec<RawFileRecord>, ErrorKind>)
    ensures
        match r {
            Ok(rs) => spec_file_records(data@, pos as int, num_files as int) == Some(records_v(rs@)),
            Err(_) => spec_file_records(data@, pos as int, num_files as int) is None,
        },
{
    let mut records: Vec<RawFileRecord> = Vec::new();
    let mut p: usize = pos;
    let mut k: i32 = 0;
    proof {
        assert(records_v(records@) =~= Seq::<RawFileRecordV>::empty());
    }
    while k < num_files
        invariant
            0 <= k,
            num_files > 0 ==> k <= num_files,
            num_files <= 0 ==> k == 0,
            p == pos + 48 * k,
            spec_file_records(data@, pos as int, k as int) == Some(records_v(records@)),
        decreases num_files - k,
    {
        match parse_file_record(data, p) {
            Some((rec, next)) => {
                let ghost before = records_v(records@);
                records.push(rec);
                proof {
                    assert(records_v(records@) =~= before.push(rec@));
                }
                p = next;
                k = k + 1;
            },
            None => {
                proof {
                    lemma_records_stop(data@, pos as int, k as int, num_files as int);
                }
                return Err(ErrorKind::ParsingFailure("bad file record".to_owned()));
            },
        }
    }
    Ok(records)
}

/// An index file: the name of its package, its nodes and its file records.
pub struct IdxFile {
    pub pkg_name: String,
    pub nodes: Vec<Node>,
    pub files: Vec<RawFileRecord>,
}

/// The mathematical value of an [`IdxFile`].
pub struct IdxFileV {
    pub pkg_name: Seq<char>,
    pub nodes: Seq<NodeV>,
    pub files: Seq<RawFileRecordV>,
}

impl View for IdxFile {
    type V = IdxFileV;

    open spec fn view(&self) -> IdxFileV {
        IdxFileV { pkg_name: self.pkg_name@, nodes: nodes_v(self.nodes@), files: records_v(self.files@) }
    }
}

/// The offset that a header's `i64` offset `o` names: 16 bytes past `o`,
/// when `o` is not negative.
pub open spec fn section_start(o: i64) -> Option<int> {
    if o < 0 {
        None
    } else {
        Some(o + 16)
    }
}

/// The index file that `s` holds: its header, its nodes right after the
/// header, its file records 16 bytes past the header's third offset, and
/// its trailer 16 bytes past the header's trailer offset.
pub open spec fn spec_idx_file(s: Seq<u8>) -> Option<IdxFileV> {
    match spec_header(s) {
        None => None,
        Some(h) => match (spec_nodes(s, 56, h.num_nodes as int), section_start(h.third_offset), section_start(
            h.trailer_offset,
        )) {
            (Some(nodes), Some(rp), Some(tp)) => if rp > s.len() || tp > s.len() {
                None
            } else {
                match (spec_file_records(s, rp, h.num_files as int), spec_trailer(s, tp)) {
                    (Some(files), Some(name)) => Some(IdxFileV { pkg_name: name, nodes, files }),
                    _ => None,
                }
            },
            _ => None,
        },
    }
}

/// Reads an index file; gives the name of its package and the file.
pub fn parse_file(data: &[u8]) -> (r: Result<(String, IdxFile), ErrorKind>)
    ensures
        match r {
            Ok((name, f)) => spec_idx_file(data@) == Some(f@) && name@ == f@.pkg_name,
            Err(_) => spec_idx_file(data@) is None,
        },
{
    let (header, p) = parse_header(data)?;
    let (nodes, _) = parse_pointers_with_strings(header.num_nodes, data, p)?;
    if header.third_offset < 0 || header.trailer_offset < 0 {
        return Err(ErrorKind::ParsingFailure("negative section offset".to_owned()));
    }
    if header.third_offset as u64 > data.len() as u64 - 16 || data.len() < 16 || header.trailer_offset as u64
        > data.len() as u64 - 16 {
        return Err(ErrorKind::UnexpectedEof);
    }
    let rp = header.third_offset as usize + 16;
    let tp = header.trailer_offset as usize + 16;
    let files = parse_file_records(header.num_files, data, rp)?;
    let name = match parse_trailer(data, tp) {
        Some(n) => n,
        None => return Err(ErrorKind::ParsingFailure("bad trailer".to_owned())),
    };
    let pkg_name = name.clone();
    Ok((name, IdxFile { pkg_name, nodes, files }))
}

/// The index of the last node of `ns[..k]` whose id is `id`.
pub open spec fn last_index(ns: Seq<NodeV>, id: u64, k: int) -> Option<int>
    decreases k,
{
    if k <= 0 {
        None
    } else if ns[k - 1].id == id {
        Some(k - 1)
    } else {
        last_index(ns, id, k - 1)
    }
}

proof fn lemma_last_index(ns: Seq<NodeV>, id: u64, k: int)
    requires
        last_index(ns, id, k) is Some,
    ensures
        0 <= last_index(ns, id, k)->0 < k,
        ns[last_index(ns, id, k)->0].id == id,
    decreases k,
{
    if k > 0 && ns[k - 1].id != id {
        lemma_last_index(ns, id, k - 1);
    }
}

/// The names met when walking from the node with id `id` to its parent,
/// its parent's parent and so on, until an id that no node has; `None`
/// when that takes more than `fuel` steps (the ids then form a cycle).
pub open spec fn name_chain(ns: Seq<NodeV>, id: u64, fuel: nat) -> Option<Seq<Seq<char>>>
    decreases fuel,
{
    match last_index(ns, id, ns.len() as int) {
        None => Some(Seq::empty()),
        Some(i) => if fuel == 0 {
            None
        } else {
            match name_chain(ns, ns[i].parent, (fuel - 1) as nat) {
                None => None,
                Some(rest) => Some(seq![ns[i].name] + rest),
            }
        },
    }
}

/// The names `ps` joined by `/`.
pub open spec fn join_slash(ps: Seq<Seq<char>>) -> Seq<char>
    decreases ps.len(),
{
    if ps.len() == 0 {
        Seq::empty()
    } else if ps.len() == 1 {
        ps[0]
    } else {
        join_slash(ps.drop_last()) + seq!['/'] + ps.last()
    }
}

/// The path of the file with id `id`: the names from the root down to it,
/// joined by `/`; `None` when no node has that id or its parents form a
/// cycle.
pub open spec fn file_path(ns: Seq<NodeV>, id: u64) -> Option<Seq<char>> {
    match name_chain(ns, id, ns.len()) {
        Some(parts) => if parts.len() > 0 {
            Some(join_slash(parts.reverse()))
        } else {
            None
        },
        None => None,
    }
}

fn record_copy(r: &RawFileRecord) -> (c: RawFileRecord)
    ensures
        c@ == r@,
{
    let raw = r.raw.clone();
    proof {
        assert(raw@ =~= r.raw@);
    }
    RawFileRecord {
        id: r.id,
        offset: r.offset,
        length: r.length,
        uncompressed_length: r.uncompressed_length,
        raw,
    }
}

impl IdxFile {
    /// Maps each node id to the index of the last node with that id.
    fn node_indices(&self) -> (m: HashMap<u64, usize>)
        ensures
            forall|id: u64| #[trigger] m@.contains_key(id) <==> last_index(self@.nodes, id, self@.nodes.len() as int) is Some,
            forall|id: u64|
                m@.contains_key(id) ==> #[trigger] m@[id] == last_index(self@.nodes, id, self@.nodes.len() as int)->0,
    {
        let ghost nv = self@.nodes;
        let mut m: HashMap<u64, usize> = HashMap::new();
        let mut k: usize = 0;
        while k < self.nodes.len()
            invariant
                k <= self.nodes@.len(),
                nv == self@.nodes,
                nv.len() == self.nodes@.len(),
                forall|id: u64| #[trigger] m@.contains_key(id) <==> last_index(nv, id, k as int) is Some,
                forall|id: u64| m@.contains_key(id) ==> #[trigger] m@[id] == last_index(nv, id, k as int)->0,
            decreases self.nodes@.len() - k,
        {
            let id = self.nodes[k].id;
            m.insert(id, k);
            proof {
                assert(nv[k as int].id == id);
                assert forall|j: u64| #[trigger] m@.contains_key(j) <==> last_index(nv, j, k + 1) is Some by {
                    if j != id {
                        assert(last_index(nv, j, k + 1) == last_index(nv, j, k as int));
                    }
                }
                assert forall|j: u64| m@.contains_key(j) implies #[trigger] m@[j] == last_index(nv, j, k + 1)->0 by {
                    if j != id {
                        assert(last_index(nv, j, k + 1) == last_index(nv, j, k as int));
                    }
                }
            }
            k += 1;
        }
        m
    }

    /// Whether every file's path can be found: its id names a node, and
    /// the chain of parents from there ends.
    pub open spec fn paths_found(&self) -> bool {
        forall|i: int| 0 <= i < self@.files.len() ==> #[trigger] file_path(self@.nodes, self@.files[i].id) is Some
    }

    /// Whether every file's path can be found, as [`IdxFile::paths_found`] says.
    pub fn paths_known(&self) -> (r: bool)
        ensures
            r == self.paths_found(),
    {
        match self.try_paths() {
            Ok(v) => {
                proof {
                    assert forall|i: int| 0 <= i < self@.files.len() implies #[trigger] file_path(
                        self@.nodes,
                        self@.files[i].id,
                    ) is Some by {
                        assert(file_path(self@.nodes, self@.files[i].id) == Some(v@[i].0@));
                    }
                }
                true
            },
            Err(_) => false,
        }
    }

    /// The path of each file, with its record, in the order of the files,
    /// as [`file_path`] says. Every file's path must be found.
    pub fn paths(&self) -> (r: Vec<(String, RawFileRecord)>)
        requires
            self.paths_found(),
        ensures
            r@.len() == self@.files.len(),
            forall|i: int|
                0 <= i < r@.len() ==> file_path(self@.nodes, self@.files[i].id) == Some(#[trigger] r@[i].0@)
                    && r@[i].1@ == self@.files[i],
    {
        match self.try_paths() {
            Ok(v) => v,
            Err(_) => {
                proof {
                    assert(false);
                }
                Vec::new()
            },
        }
    }

    /// The path of each file, with its record, as [`file_path`] says; fails
    /// when a file's id names no node or its parents form a cycle.
    fn try_paths(&self) -> (r: Result<Vec<(String, RawFileRecord)>, ErrorKind>)
        ensures
            match r {
                Ok(v) => v@.len() == self@.files.len() && forall|i: int|
                    0 <= i < v@.len() ==> file_path(self@.nodes, self@.files[i].id) == Some(#[trigger] v@[i].0@)
                        && v@[i].1@ == self@.files[i],
                Err(_) => exists|i: int|
                    0 <= i < self@.files.len() && #[trigger] file_path(self@.nodes, self@.files[i].id) is None,
            },
    {
        let ghost nv = self@.nodes;
        let index = self.node_indices();
        let mut out: Vec<(String, RawFileRecord)> = Vec::new();
        let mut f: usize = 0;
        while f < self.files.len()
            invariant
                f <= self.files@.len(),
                nv == self@.nodes,
                nv.len() == self.nodes@.len(),
                out@.len() == f,
                forall|id: u64| #[trigger] index@.contains_key(id) <==> last_index(nv, id, nv.len() as int) is Some,
                forall|id: u64|
                    index@.contains_key(id) ==> #[trigger] index@[id] == last_index(nv, id, nv.len() as int)->0,
                forall|i: int|
                    0 <= i < f ==> file_path(nv, self@.files[i].id) == Some(#[trigger] out@[i].0@) && out@[i].1@
                        == self@.files[i],
            decreases self.files@.len() - f,
        {
            let file = &self.files[f];
            let mut parts: Vec<String> = Vec::new();
            let mut cur = file.id;
            let mut steps: usize = 0;
            let n = self.nodes.len();
            proof {
                assert(parts@.map_values(|p: String| p@) =~= Seq::<Seq<char>>::empty());
                assert(self@.files[f as int].id == file.id);
            }
            loop
                invariant
                    steps <= n,
                    n == nv.len(),
                    nv == self@.nodes,
                    nv.len() == self.nodes@.len(),
                    forall|id: u64| #[trigger] index@.contains_key(id) <==> last_index(nv, id, nv.len() as int) is Some,
                    forall|id: u64|
                        index@.contains_key(id) ==> #[trigger] index@[id] == last_index(nv, id, nv.len() as int)->0,
                    name_chain(nv, file.id, n as nat) == match name_chain(nv, cur, (n - steps) as nat) {
                        Some(rest) => Some(parts@.map_values(|p: String| p@) + rest),
                        None => None,
                    },
                    parts@.len() == steps,
                    f < self.files@.len(),
                    file.id == self@.files[f as int].id,
                ensures
                    name_chain(nv, file.id, n as nat) == Some(parts@.map_values(|p: String| p@)),
                decreases n - steps,
            {
                match index.get(&cur) {
                    None => {
                        proof {
                            assert(parts@.map_values(|p: String| p@) + Seq::<Seq<char>>::empty() =~= parts@.map_values(
                                |p: String| p@,
                            ));
                        }
                        break;
                    },
                    Some(i) => {
                        let i = *i;
                        proof {
                            assert(index@.contains_key(cur) && index@[cur] == i);
                            lemma_last_index(nv, cur, nv.len() as int);
                        }
                        if steps == n {
                            proof {
                                assert(name_chain(nv, cur, 0) is None);
                                assert(file_path(nv, self@.files[f as int].id) is None);
                            }
                            return Err(ErrorKind::ParsingFailure("cycle among the nodes of an index".to_owned()));
                        }
                        let ghost before = parts@.map_values(|p: String| p@);
                        let name = self.nodes[i].name.clone();
                        parts.push(name);
                        proof {
                            assert(nv[i as int].name == name@);
                            assert(parts@.map_values(|p: String| p@) =~= before.push(name@));
                            let rest_opt = name_chain(nv, nv[i as int].parent, (n - steps - 1) as nat);
                            if let Some(rest) = rest_opt {
                                assert(before + (seq![name@] + rest) =~= before.push(name@) + rest);
                            }
                        }
                        cur = self.nodes[i].parent;
                        steps += 1;
                    },
                }
            }
            if parts.len() == 0 {
                proof {
                    assert(file_path(nv, self@.files[f as int].id) is None);
                }
                return Err(ErrorKind::ParsingFailure("file with no node".to_owned()));
            }
            let ghost pv = parts@.map_values(|p: String| p@);
            let m = parts.len();
            let mut path = parts[m - 1].clone();
            let mut j: usize = 1;
            proof {
                assert(pv.reverse().subrange(0, 1) =~= seq![pv[m - 1]]);
            }
            while j < m
                invariant
                    1 <= j <= m,
                    m == parts@.len(),
                    pv == parts@.map_values(|p: String| p@),
                    path@ == join_slash(pv.reverse().subrange(0, j as int)),
                decreases m - j,
            {
                path.append("/");
                path.append(parts[m - j - 1].as_str());
                proof {
                    reveal_strlit("/");
                    let a = pv.reverse().subrange(0, j + 1);
                    assert(a.drop_last() =~= pv.reverse().subrange(0, j as int));
                    assert(a.last() == pv[m - j - 1]);
                }
                j += 1;
            }
            proof {
                assert(pv.reverse().subrange(0, m as int) =~= pv.reverse());
            }
            out.push((path, record_copy(file)));
            f += 1;
        }
        Ok(out)
    }
}

/// Where a file of a package set is stored: the package, the file's path,
/// its id, its offset in the package, and its stored and inflated lengths.
pub struct FileRecord {
    pub pkg_name: String,
    pub path: String,
    pub id: u64,
    pub offset: usize,
    pub length: usize,
    pub uncompressed_length: usize,
}

/// The mathematical value of a [`FileRecord`].
pub struct FileRecordV {
    pub pkg_name: Seq<char>,
    pub path: Seq<char>,
    pub id: u64,
    pub offset: usize,
    pub length: usize,
    pub uncompressed_length: usize,
}

impl View for FileRecord {
    type V = FileRecordV;

    open spec fn view(&self) -> FileRecordV {
        FileRecordV {
            pkg_name: self.pkg_name@,
            path: self.path@,
            id: self.id,
            offset: self.offset,
            length: self.length,
            uncompressed_length: self.uncompressed_length,
        }
    }
}

/// The files of a set of packages, as their index files list them.
pub struct IdxSet {
    pub files: Vec<FileRecord>,
}

/// The record that a package set keeps of the file `rec`, found at `path`
/// in the package `pkg`; the offset and lengths are taken as `usize` with
/// the same low bits.
pub open spec fn set_record(pkg: Seq<char>, path: Seq<char>, rec: RawFileRecordV) -> FileRecordV {
    FileRecordV {
        pkg_name: pkg,
        path,
        id: rec.id,
        offset: rec.offset as usize,
        length: rec.length as usize,
        uncompressed_length: rec.uncompressed_length as usize,
    }
}

impl IdxSet {
    /// Adds the files of the index `other`, in order, each under its path.
    /// Every file's path in `other` must be found.
    pub fn append(&mut self, other: &IdxFile)
        requires
            other.paths_found(),
        ensures
            final(self).files@.len() == old(self).files@.len() + other@.files.len(),
            forall|i: int|
                0 <= i < old(self).files@.len() ==> #[trigger] final(self).files@[i]@ == old(self).files@[i]@,
            forall|i: int|
                0 <= i < other@.files.len() ==> file_path(other@.nodes, other@.files[i].id) == Some(
                    final(self).files@[old(self).files@.len() + i]@.path,
                ) && #[trigger] final(self).files@[old(self).files@.len() + i]@ == set_record(
                    other@.pkg_name,
                    final(self).files@[old(self).files@.len() + i]@.path,
                    other@.files[i],
                ),
    {
        let paths = other.paths();
        let ghost start = self.files@.len();
        let mut k: usize = 0;
        while k < paths.len()
            invariant
                k <= paths@.len(),
                paths@.len() == other@.files.len(),
                self.files@.len() == start + k,
                start == old(self).files@.len(),
                forall|i: int| 0 <= i < start ==> #[trigger] self.files@[i]@ == old(self).files@[i]@,
                forall|i: int|
                    0 <= i < paths@.len() ==> file_path(other@.nodes, other@.files[i].id) == Some(#[trigger] paths@[i].0@)
                        && paths@[i].1@ == other@.files[i],
                forall|i: int|
                    0 <= i < k ==> file_path(other@.nodes, other@.files[i].id) == Some(self.files@[start + i]@.path)
                        && #[trigger] self.files@[start + i]@ == set_record(
                        other@.pkg_name,
                        self.files@[start + i]@.path,
                        other@.files[i],
                    ),
            decreases paths@.len() - k,
        {
            let (path, file) = (&paths[k].0, &paths[k].1);
            let rec = FileRecord {
                pkg_name: other.pkg_name.clone(),
                path: path.clone(),
                id: file.id,
                offset: file.offset as usize,
                length: file.length as usize,
                uncompressed_length: file.uncompressed_length as usize,
            };
            let ghost before = self.files@;
            proof {
                assert(rec.pkg_name@ == other@.pkg_name);
                assert(rec.path@ == paths@[k as int].0@);
                assert(file@ == other@.files[k as int]);
                assert(rec@ == set_record(other@.pkg_name, paths@[k as int].0@, other@.files[k as int]));
            }
            self.files.push(rec);
            proof {
                assert(self.files@ == before.push(rec));
                assert(self.files@[start + k]@ == set_record(other@.pkg_name, paths@[k as int].0@, other@.files[k as int]));
                assert forall|i: int| 0 <= i < k + 1 implies file_path(other@.nodes, other@.files[i].id) == Some(
                    self.files@[start + i]@.path,
                ) && #[trigger] self.files@[start + i]@ == set_record(
                    other@.pkg_name,
                    self.files@[start + i]@.path,
                    other@.files[i],
                ) by {
                    if i < k {
                        assert(self.files@[start + i] == before[start + i]);
                        assert(self.files@[start + i]@ == before[start + i]@);
                    } else {
                        assert(file_path(other@.nodes, other@.files[k as int].id) == Some(paths@[k as int].0@));
                    }
                }
            }
            k += 1;
        }
    }
}

/// What the `flate2` crate's `DeflateDecoder` over the raw deflate stream
/// `data` gives when exactly `n` bytes are read from it, or `None` when it
/// reports an error (a corrupt stream, or fewer than `n` bytes in it).
pub uninterp spec fn deflate_read_exact(data: Seq<u8>, n: nat) -> Option<Seq<u8>>;

/// Reads exactly `n` inflated bytes from the raw deflate stream `data` with
/// `flate2::read::DeflateDecoder` and `Read::read_exact`. Trusted: the
/// result is the named one for these arguments; on success it holds the `n`
/// bytes that `read_exact` filled.
#[verifier::external_body]
fn inflate_exact(data: &[u8], n: usize) -> (r: Option<Vec<u8>>)
    ensures
        r is Some <==> deflate_read_exact(data@, n as nat) is Some,
        r matches Some(v) ==> v@.len() == n && deflate_read_exact(data@, n as nat) == Some(v@),
{
    let mut contents = vec![0u8; n];
    match flate2::read::DeflateDecoder::new(data).read_exact(&mut contents) {
        Ok(()) => Some(contents),
        Err(_) => None,
    }
}

/// The contents of the file that `record` describes, from the bytes `pkg`
/// of its package: the stored bytes at the record's offset, inflated to the
/// record's inflated length when the two lengths differ. `None` when the
/// stored bytes run past the end of the package or do not inflate.
pub open spec fn spec_extract(pkg: Seq<u8>, record: FileRecordV) -> Option<Seq<u8>> {
    if record.offset + record.length > pkg.len() {
        None
    } else {
        let stored = pkg.subrange(record.offset as int, record.offset + record.length);
        if record.length != record.uncompressed_length {
            deflate_read_exact(stored, record.uncompressed_length as nat)
        } else {
            Some(stored)
        }
    }
}

/// The contents of the file that `record` describes, read from the bytes
/// `pkg` of its package, as [`spec_extract`] says; an error when they are
/// not there or do not inflate.
pub fn extract(pkg: &[u8], record: &FileRecord) -> (r: Result<Vec<u8>, ErrorKind>)
    ensures
        match r {
            Ok(v) => spec_extract(pkg@, record@) == Some(v@),
            Err(_) => spec_extract(pkg@, record@) is None,
        },
{
    let stored = match take(pkg, record.offset, record.length) {
        Some((b, _)) => b,
        None => return Err(ErrorKind::UnexpectedEof),
    };
    if record.length != record.uncompressed_length {
        match inflate_exact(stored.as_slice(), record.uncompressed_length) {
            Some(v) => Ok(v),
            None => Err(ErrorKind::DecompressionFailure),
        }
    } else {
        Ok(stored)
    }
}

} // verus!
