//! Byte dumps written as decimal numbers separated by commas, such as
//! `"12, 0, 255"`, turned back into bytes.
use vstd::prelude::*;

use crate::rpc::xml::trimmed;
use crate::text::{split_char, split_on, trim};
use crate::version::{parse_u32, spec_parse_u32};

verus! {

/// The byte that a field denotes, the way `str::parse::<u8>` reads it: an
/// optional `+`, then decimal digits of a value below 256.
pub open spec fn spec_parse_u8(f: Seq<char>) -> Option<u8> {
    match spec_parse_u32(f) {
        Some(v) => if v <= 255 {
            Some(v as u8)
        } else {
            None
        },
        None => None,
    }
}

/// The bytes of the fields `fs`, each trimmed of whitespace; a field that
/// is no byte is skipped.
pub open spec fn field_bytes(fs: Seq<Seq<char>>) -> Seq<u8>
    decreases fs.len(),
{
    if fs.len() == 0 {
        Seq::empty()
    } else {
        match spec_parse_u8(trim(fs.last())) {
            Some(b) => field_bytes(fs.drop_last()).push(b),
            None => field_bytes(fs.drop_last()),
        }
    }
}

/// The bytes that `text` lists, separated by commas, as [`field_bytes`]
/// says; what is not a byte is skipped.
pub fn decode_decimal_bytes(text: &str) -> (r: Vec<u8>)
    ensures
        r@ == field_bytes(split_on(text@, ',')),
{
    let fields = split_char(text, ',');
    let ghost fs = split_on(text@, ',');
    let mut out: Vec<u8> = Vec::new();
    let mut k: usize = 0;
    while k < fields.len()
        invariant
            k <= fields@.len(),
            fields@.map_values(|p: String| p@) == fs,
            out@ == field_bytes(fs.subrange(0, k as int)),
        decreases fields@.len() - k,
    {
        proof {
            let sub = fs.subrange(0, k + 1);
            assert(sub.drop_last() =~= fs.subrange(0, k as int));
            assert(sub.last() == fields@[k as int]@);
        }
        let field = trimmed(fields[k].as_str());
        match parse_u32(field.as_str()) {
            Some(v) => {
                if v <= 255 {
                    out.push(v as u8);
                }
            },
            None => {},
        }
        k = k + 1;
    }
    proof {
        assert(fs.subrange(0, fs.len() as int) =~= fs);
    }
    out
}

} // verus!
