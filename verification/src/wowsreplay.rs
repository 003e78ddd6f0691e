//! The `.wowsreplay` container: a header, JSON metadata, extra blocks, and
//! an encrypted, compressed packet stream.
use vstd::prelude::*;

use crate::bytes::{le_uint, read_u32, take};
use crate::error::ErrorKind;
use crypto::symmetriccipher::BlockDecryptor;
use std::io::Read;

verus! {

/// One vehicle listed in the replay metadata.
#[allow(non_snake_case)]
pub struct VehicleInfoMeta {
    pub shipId: u64,
    pub relation: u32,
    pub id: i64,
    pub name: String,
}

/// The JSON metadata at the start of a replay.
#[allow(non_snake_case)]
pub struct ReplayMeta {
    pub matchGroup: String,
    pub gameMode: u32,
    pub clientVersionFromExe: String,
    pub scenarioUiCategoryId: u32,
    pub mapDisplayName: String,
    pub mapId: u32,
    pub clientVersionFromXml: String,
    pub weatherParams: Vec<(String, Vec<String>)>,
    pub duration: u32,
    pub gameLogic: Option<String>,
    pub name: String,
    pub scenario: String,
    pub playerID: u32,
    pub vehicles: Vec<VehicleInfoMeta>,
    pub playersPerTeam: u32,
    pub dateTime: String,
    pub mapName: String,
    pub playerName: String,
    pub scenarioConfigId: u32,
    pub teamsCount: u32,
    pub logic: Option<String>,
    pub playerVehicle: String,
    pub battleDuration: u32,
}

/// A replay: its metadata and its decrypted, decompressed packet stream.
pub struct ReplayFile {
    pub meta: ReplayMeta,
    pub packet_data: Vec<u8>,
}

/// The parts of a replay file before the packet stream.
pub struct ReplayContainer {
    pub magic: u32,
    /// The metadata, as the JSON text's bytes.
    pub meta: Vec<u8>,
    /// The blocks that follow the metadata.
    pub extra_data: Vec<Vec<u8>>,
}

/// A `u32` length followed by that many bytes.
pub open spec fn spec_block(s: Seq<u8>, pos: int) -> Option<(Seq<u8>, int)> {
    if 0 <= pos && pos + 4 <= s.len() {
        let n = le_uint(s, pos, 4) as int;
        if pos + 4 + n <= s.len() {
            Some((s.subrange(pos + 4, pos + 4 + n), pos + 4 + n))
        } else {
            None
        }
    } else {
        None
    }
}

/// `n` consecutive blocks.
pub open spec fn spec_blocks(s: Seq<u8>, pos: int, n: nat) -> Option<(Seq<Seq<u8>>, int)>
    decreases n,
{
    if n == 0 {
        Some((Seq::empty(), pos))
    } else {
        match spec_blocks(s, pos, (n - 1) as nat) {
            Some((bs, p)) => match spec_block(s, p) {
                Some((b, e)) => Some((bs.push(b), e)),
                None => None,
            },
            None => None,
        }
    }
}

/// The container header: magic, block count, the metadata block and the
/// `block count - 1` blocks after it, and the offset where the encrypted
/// packet stream starts.
pub open spec fn spec_replay_container(s: Seq<u8>) -> Option<(u32, Seq<u8>, Seq<Seq<u8>>, int)> {
    if s.len() < 8 {
        None
    } else {
        let magic = le_uint(s, 0, 4) as u32;
        let count = le_uint(s, 4, 4);
        if count == 0 {
            None
        } else {
            match spec_block(s, 8) {
                Some((meta, p)) => match spec_blocks(s, p, (count - 1) as nat) {
                    Some((blocks, e)) => Some((magic, meta, blocks, e)),
                    None => None,
                },
                None => None,
            }
        }
    }
}

fn parse_block(data: &[u8], pos: usize) -> (r: Option<(Vec<u8>, usize)>)
    ensures
        match r {
            Some((b, e)) => spec_block(data@, pos as int) == Some((b@, e as int)),
            None => spec_block(data@, pos as int) is None,
        },
{
    let (n, p) = match read_u32(data, pos) {
        Some(x) => x,
        None => return None,
    };
    take(data, p, n as usize)
}

/// Reads the container header of a replay file; the encrypted packet
/// stream starts at the returned offset.
pub fn parse_replay_container(data: &[u8]) -> (r: Result<(ReplayContainer, usize), ErrorKind>)
    ensures
        match r {
            Ok((c, e)) => {
                &&& spec_replay_container(data@) is Some
                &&& spec_replay_container(data@)->0 == (
                    c.magic,
                    c.meta@,
                    c.extra_data@.map_values(|b: Vec<u8>| b@),
                    e as int,
                )
            },
            Err(err) => spec_replay_container(data@) is None && err is ParsingFailure,
        },
{
    let magic = match read_u32(data, 0) {
        Some((v, _)) => v,
        None => return Err(ErrorKind::ParsingFailure(String::new())),
    };
    let count = match read_u32(data, 4) {
        Some((v, _)) => v,
        None => return Err(ErrorKind::ParsingFailure(String::new())),
    };
    if count == 0 {
        return Err(ErrorKind::ParsingFailure(String::new()));
    }
    let (meta, mut p) = match parse_block(data, 8) {
        Some(x) => x,
        None => return Err(ErrorKind::ParsingFailure(String::new())),
    };
    let ghost p0 = p;
    let mut blocks: Vec<Vec<u8>> = Vec::new();
    let mut k: u32 = 0;
    while k < count - 1
        invariant
            k <= count - 1,
            data@.len() >= 8,
            count as nat == le_uint(data@, 4, 4),
            magic as nat == le_uint(data@, 0, 4),
            spec_block(data@, 8) == Some((meta@, p0 as int)),
            spec_blocks(data@, p0 as int, k as nat) == Some(
                (blocks@.map_values(|b: Vec<u8>| b@), p as int),
            ),
        decreases count - 1 - k,
    {
        match parse_block(data, p) {
            Some((b, e)) => {
                proof {
                    assert(blocks@.push(b).map_values(|b: Vec<u8>| b@) =~= blocks@.map_values(
                        |b: Vec<u8>| b@,
                    ).push(b@));
                }
                blocks.push(b);
                p = e;
                k = k + 1;
            },
            None => {
                proof {
                    lemma_blocks_fail(data@, p0 as int, k as nat, (count - 1) as nat);
                }
                return Err(ErrorKind::ParsingFailure(String::new()));
            },
        }
    }
    Ok((ReplayContainer { magic, meta, extra_data: blocks }, p))
}

proof fn lemma_blocks_fail(s: Seq<u8>, pos: int, k: nat, n: nat)
    requires
        k < n,
        spec_blocks(s, pos, k) is Some,
        spec_block(s, (spec_blocks(s, pos, k)->0).1) is None,
    ensures
        spec_blocks(s, pos, n) is None,
    decreases n - k,
{
    if k + 1 < n {
        lemma_blocks_fail(s, pos, k, (n - 1) as nat);
    }
}

/// The key with which the packet stream of every replay is encrypted.
pub const REPLAY_KEY: [u8; 16] = [
    0x29,
    0xB7,
    0xC9,
    0x09,
    0x38,
    0x3F,
    0x84,
    0x88,
    0xFA,
    0x98,
    0xEC,
    0x4E,
    0x13,
    0x19,
    0x79,
    0xFB,
];

/// The Blowfish cipher of the `rust-crypto` crate, carried opaquely.
#[verifier::external_type_specification]
#[verifier::external_body]
pub struct ExBlowfish(crypto::blowfish::Blowfish);

/// A Blowfish cipher together with the key it was made from.
struct BlowfishCipher {
    key: Vec<u8>,
    cipher: crypto::blowfish::Blowfish,
}

impl View for BlowfishCipher {
    type V = Seq<u8>;

    /// The key the cipher was made from.
    closed spec fn view(&self) -> Seq<u8> {
        self.key@
    }
}

/// Makes the cipher for `key` with `crypto::blowfish::Blowfish::new`,
/// keeping a copy of the key beside it. Trusted: the cipher is the one made
/// from this key, which is the value's view. `Blowfish::new` asserts that
/// the key has 4 to 56 bytes; that is required here.
#[verifier::external_body]
fn blowfish_cipher(key: &[u8]) -> (r: BlowfishCipher)
    requires
        4 <= key@.len() <= 56,
    ensures
        r@ == key@,
{
    BlowfishCipher { key: key.to_vec(), cipher: crypto::blowfish::Blowfish::new(key) }
}

/// What the `rust-crypto` crate's Blowfish cipher, keyed with `key`, gives
/// when it decrypts the 8-byte block `block`.
pub uninterp spec fn blowfish_block_decrypt(key: Seq<u8>, block: Seq<u8>) -> Seq<u8>;

/// Decrypts one 8-byte block with `BlockDecryptor::decrypt_block` of the
/// cipher. Trusted: the output is the 8 bytes that the call writes into an
/// 8-byte buffer, and equals the named result for the cipher's key and the
/// block. `decrypt_block` asserts that both input and output have 8 bytes;
/// the input's length is required here.
#[verifier::external_body]
fn blowfish_decrypt_block(c: &BlowfishCipher, block: &[u8]) -> (r: Vec<u8>)
    requires
        block@.len() == 8,
    ensures
        r@.len() == 8,
        r@ == blowfish_block_decrypt(c@, block@),
{
    let mut out = vec![0u8; 8];
    c.cipher.decrypt_block(block, &mut out);
    out
}

/// `data` decrypted under `key` block by block (ECB): byte `j` is byte
/// `j % 8` of the decryption of the 8-byte block that holds it.
pub open spec fn blowfish_ecb_decrypt(key: Seq<u8>, data: Seq<u8>) -> Seq<u8> {
    Seq::new(
        data.len(),
        |j: int| blowfish_block_decrypt(key, data.subrange(8 * (j / 8), 8 * (j / 8) + 8))[j % 8],
    )
}

/// Decrypts `data`, whole 8-byte blocks, under `key`, block by block.
fn decrypt_blocks(key: &[u8], data: &[u8]) -> (r: Vec<u8>)
    requires
        4 <= key@.len() <= 56,
        data@.len() % 8 == 0,
    ensures
        r@ == blowfish_ecb_decrypt(key@, data@),
{
    let cipher = blowfish_cipher(key);
    let total = data.len();
    let n = total / 8;
    let mut out: Vec<u8> = Vec::with_capacity(data.len());
    let mut i: usize = 0;
    while i < n
        invariant
            total == data@.len(),
            n == total / 8,
            8 * n == total,
            i <= n,
            cipher@ == key@,
            out@.len() == 8 * i,
            forall|j: int|
                0 <= j < 8 * i ==> #[trigger] out@[j] == blowfish_block_decrypt(
                    key@,
                    data@.subrange(8 * (j / 8), 8 * (j / 8) + 8),
                )[j % 8],
        decreases n - i,
    {
        let block = match take(data, 8 * i, 8) {
            Some((b, _)) => b,
            None => {
                proof {
                    assert(false);
                }
                Vec::new()
            },
        };
        let dec = blowfish_decrypt_block(&cipher, block.as_slice());
        let ghost before = out@;
        let mut k: usize = 0;
        while k < 8
            invariant
                i < n,
                k <= 8,
                dec@.len() == 8,
                out@.len() == 8 * i + k,
                out@.subrange(0, 8 * i as int) == before,
                forall|m: int| 0 <= m < k ==> #[trigger] out@[8 * i + m] == dec@[m],
            decreases 8 - k,
        {
            out.push(dec[k]);
            k = k + 1;
            proof {
                assert(out@.subrange(0, 8 * i as int) =~= before);
            }
        }
        proof {
            assert forall|j: int| 0 <= j < 8 * (i + 1) implies #[trigger] out@[j] == blowfish_block_decrypt(
                key@,
                data@.subrange(8 * (j / 8), 8 * (j / 8) + 8),
            )[j % 8] by {
                if j < 8 * i {
                    assert(out@[j] == before[j]);
                } else {
                    assert(j / 8 == i);
                    assert(out@[8 * i + (j - 8 * i)] == dec@[j - 8 * i]);
                    assert(j % 8 == j - 8 * i);
                }
            }
        }
        i = i + 1;
    }
    proof {
        assert(out@ =~= blowfish_ecb_decrypt(key@, data@));
    }
    out
}

/// Byte `k` of output block `i` of the stream's chaining: block 0 is zero,
/// and block `i` is the decrypted block `i` XOR output block `i - 1`.
pub open spec fn chained_byte(d: Seq<u8>, i: nat, k: int) -> u8
    decreases i,
{
    if i == 0 {
        0
    } else {
        d[8 * i + k] ^ chained_byte(d, (i - 1) as nat, k)
    }
}

/// The decrypted packet stream: `encrypted` cut to whole 8-byte blocks is
/// decrypted block by block, chained as [`chained_byte`] says, and any
/// trailing partial block stays zero.
pub open spec fn spec_decrypt_stream(key: Seq<u8>, encrypted: Seq<u8>) -> Seq<u8> {
    let whole = (encrypted.len() / 8) * 8;
    let d = blowfish_ecb_decrypt(key, encrypted.subrange(0, whole as int));
    Seq::new(
        encrypted.len(),
        |j: int|
            if j < whole {
                chained_byte(d, (j / 8) as nat, j % 8)
            } else {
                0u8
            },
    )
}

/// Decrypts the packet stream of a replay.
pub fn decrypt_stream(key: &[u8], encrypted: &[u8]) -> (r: Vec<u8>)
    requires
        4 <= key@.len() <= 56,
    ensures
        r@ == spec_decrypt_stream(key@, encrypted@),
{
    let num_blocks = encrypted.len() / 8;
    let whole = num_blocks * 8;
    let cut = match take(encrypted, 0, whole) {
        Some((v, _)) => v,
        None => {
            proof {
                assert(false);
            }
            Vec::new()
        },
    };
    let d = decrypt_blocks(key, cut.as_slice());
    let mut out: Vec<u8> = vec![0u8; encrypted.len()];
    let ghost dd = d@;
    let mut i: usize = 1;
    while i < num_blocks
        invariant
            num_blocks == encrypted@.len() / 8,
            whole == num_blocks * 8,
            d@ == dd,
            dd.len() == whole,
            1 <= i <= num_blocks || num_blocks == 0,
            out@.len() == encrypted@.len(),
            forall|j: int|
                0 <= j < out@.len() ==> #[trigger] out@[j] == (if j < 8 * i && j < whole {
                    chained_byte(dd, (j / 8) as nat, j % 8)
                } else {
                    0u8
                }),
        decreases num_blocks - i,
    {
        let mut k: usize = 0;
        while k < 8
            invariant
                num_blocks == encrypted@.len() / 8,
                whole == num_blocks * 8,
                d@ == dd,
                dd.len() == whole,
                1 <= i < num_blocks,
                k <= 8,
                out@.len() == encrypted@.len(),
                forall|j: int|
                    0 <= j < out@.len() ==> #[trigger] out@[j] == (if (j < 8 * i || (8 * i <= j < 8
                        * i + k)) && j < whole {
                        chained_byte(dd, (j / 8) as nat, j % 8)
                    } else {
                        0u8
                    }),
            decreases 8 - k,
        {
            let off = 8 * i + k;
            let prev = out[off - 8];
            proof {
                assert((off - 8) / 8 == i - 1);
                assert((off - 8) % 8 == k);
                assert(off / 8 == i);
                assert(off % 8 == k);
            }
            out.set(off, d[off] ^ prev);
            k = k + 1;
        }
        i = i + 1;
    }
    proof {
        assert forall|j: int| 0 <= j < out@.len() implies out@[j] == spec_decrypt_stream(
            key@,
            encrypted@,
        )[j] by {
            assert(cut@ == encrypted@.subrange(0, whole as int));
        }
        assert(out@ =~= spec_decrypt_stream(key@, encrypted@));
    }
    out
}

/// What the `flate2` crate's `ZlibDecoder` reads to the end of `data`, or
/// `None` when it reports an error.
pub uninterp spec fn zlib_inflate(data: Seq<u8>) -> Option<Seq<u8>>;

/// Inflates zlib-compressed `data` with `flate2::read::ZlibDecoder` and
/// `Read::read_to_end`. Trusted: the result is the named one for `data`;
/// a read error gives `None`.
#[verifier::external_body]
fn zlib_decompress(data: &[u8]) -> (r: Option<Vec<u8>>)
    ensures
        r is Some <==> zlib_inflate(data@) is Some,
        r matches Some(v) ==> zlib_inflate(data@) == Some(v@),
{
    let mut decoder = flate2::read::ZlibDecoder::new(data);
    let mut contents = Vec::new();
    match decoder.read_to_end(&mut contents) {
        Ok(_) => Some(contents),
        Err(_) => None,
    }
}

/// The packet stream that an encrypted stream holds: decrypted, then the
/// bytes after the first block inflated.
pub open spec fn spec_packet_stream(encrypted: Seq<u8>) -> Option<Seq<u8>> {
    let d = spec_decrypt_stream(REPLAY_KEY@, encrypted);
    if d.len() < 8 {
        None
    } else {
        zlib_inflate(d.subrange(8, d.len() as int))
    }
}

/// Decrypts and decompresses the packet stream of a replay.
pub fn decode_packet_stream(encrypted: &[u8]) -> (r: Result<Vec<u8>, ErrorKind>)
    ensures
        match r {
            Ok(v) => spec_packet_stream(encrypted@) == Some(v@),
            Err(e) => spec_packet_stream(encrypted@) is None && e is DecompressionFailure,
        },
{
    let key: [u8; 16] = REPLAY_KEY;
    let decrypted = decrypt_stream(key.as_slice(), encrypted);
    if decrypted.len() < 8 {
        return Err(ErrorKind::DecompressionFailure);
    }
    let rest = match take(decrypted.as_slice(), 8, decrypted.len() - 8) {
        Some((v, _)) => v,
        None => return Err(ErrorKind::DecompressionFailure),
    };
    match zlib_decompress(rest.as_slice()) {
        Some(v) => Ok(v),
        None => Err(ErrorKind::DecompressionFailure),
    }
}

/// Splits a replay file into its metadata (JSON bytes) and its decoded
/// packet stream.
pub fn read_replay(data: &[u8]) -> (r: Result<(Vec<u8>, Vec<u8>), ErrorKind>)
    ensures
        match r {
            Ok((meta, packets)) => spec_replay_container(data@) matches Some((_, m, _, end)) && meta@
                == m && spec_packet_stream(data@.subrange(end, data@.len() as int)) == Some(packets@),
            Err(e) => match spec_replay_container(data@) {
                Some((_, _, _, end)) => spec_packet_stream(data@.subrange(end, data@.len() as int)) is None,
                None => true,
            },
        },
{
    let (container, end) = parse_replay_container(data)?;
    let encrypted = match take(data, end, data.len() - end) {
        Some((v, _)) => v,
        None => return Err(ErrorKind::ParsingFailure(String::new())),
    };
    let packets = decode_packet_stream(encrypted.as_slice())?;
    Ok((container.meta, packets))
}

} // verus!
