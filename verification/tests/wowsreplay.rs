use crypto::blowfish::Blowfish;
use crypto::symmetriccipher::BlockEncryptor;
use std::io::Write;
use wows_replays::wowsreplay::{decode_packet_stream, decrypt_stream, parse_replay_container, read_replay, REPLAY_KEY};

/// Encrypts `plain` (whole 8-byte blocks) so that the replay chaining
/// gives it back after an 8-byte block of zeros.
fn encrypt_chained(key: &[u8], plain: &[u8]) -> Vec<u8> {
    assert_eq!(plain.len() % 8, 0);
    let cipher = Blowfish::new(key);
    let mut out = vec![0x55u8; 8];
    let mut prev = [0u8; 8];
    for block in plain.chunks(8) {
        let mut x = [0u8; 8];
        for k in 0..8 {
            x[k] = block[k] ^ prev[k];
        }
        let mut enc = [0u8; 8];
        cipher.encrypt_block(&x, &mut enc);
        out.extend_from_slice(&enc);
        prev.copy_from_slice(block);
    }
    out
}

fn zlib(data: &[u8]) -> Vec<u8> {
    let mut e = flate2::write::ZlibEncoder::new(Vec::new(), flate2::Compression::default());
    e.write_all(data).unwrap();
    e.finish().unwrap()
}

#[test]
fn decrypted_stream_undoes_the_chaining() {
    let key = b"0123456789abcdef";
    let plain: Vec<u8> = (0u8..24).collect();
    let enc = encrypt_chained(key, &plain);
    let out = decrypt_stream(key, &enc);
    assert_eq!(out.len(), 32);
    assert_eq!(&out[..8], &[0u8; 8]);
    assert_eq!(&out[8..], &plain[..]);
}

#[test]
fn trailing_partial_block_decrypts_to_zeros() {
    let key = b"0123456789abcdef";
    let plain: Vec<u8> = vec![9u8; 8];
    let mut enc = encrypt_chained(key, &plain);
    enc.extend_from_slice(&[1, 2, 3]);
    let out = decrypt_stream(key, &enc);
    assert_eq!(out.len(), 19);
    assert_eq!(&out[8..16], &plain[..]);
    assert_eq!(&out[16..], &[0u8; 3]);
}

fn padded(mut v: Vec<u8>) -> Vec<u8> {
    while v.len() % 8 != 0 {
        v.push(0);
    }
    v
}

#[test]
fn packet_stream_is_decrypted_and_inflated() {
    let packets = b"some packet bytes, repeated, repeated, repeated".to_vec();
    let enc = encrypt_chained(&REPLAY_KEY, &padded(zlib(&packets)));
    assert_eq!(decode_packet_stream(&enc).unwrap(), packets);
}

#[test]
fn stream_that_does_not_inflate_is_an_error() {
    let enc = encrypt_chained(&REPLAY_KEY, &[0xffu8; 16]);
    assert!(decode_packet_stream(&enc).is_err());
    assert!(decode_packet_stream(&[1, 2, 3]).is_err());
}

fn container(meta: &[u8], extra: &[&[u8]]) -> Vec<u8> {
    let mut d = 0x11343212u32.to_le_bytes().to_vec();
    d.extend_from_slice(&(1 + extra.len() as u32).to_le_bytes());
    d.extend_from_slice(&(meta.len() as u32).to_le_bytes());
    d.extend_from_slice(meta);
    for b in extra {
        d.extend_from_slice(&(b.len() as u32).to_le_bytes());
        d.extend_from_slice(b);
    }
    d
}

#[test]
fn container_blocks_are_read() {
    let d = container(b"{\"a\":1}", &[b"xy", b""]);
    let (c, end) = parse_replay_container(&d).unwrap();
    assert_eq!(c.magic, 0x11343212);
    assert_eq!(c.meta, b"{\"a\":1}".to_vec());
    assert_eq!(c.extra_data, vec![b"xy".to_vec(), vec![]]);
    assert_eq!(end, d.len());
}

#[test]
fn container_with_no_blocks_or_short_block_is_an_error() {
    let mut d = 0x11343212u32.to_le_bytes().to_vec();
    d.extend_from_slice(&0u32.to_le_bytes());
    assert!(parse_replay_container(&d).is_err());
    let mut short = container(b"meta", &[]);
    short.truncate(10);
    assert!(parse_replay_container(&short).is_err());
    assert!(parse_replay_container(&[1, 2]).is_err());
}

#[test]
fn replay_gives_metadata_and_packets() {
    let packets = b"\x01\x02\x03\x04 packets".to_vec();
    let mut d = container(b"{\"meta\":true}", &[]);
    d.extend(encrypt_chained(&REPLAY_KEY, &padded(zlib(&packets))));
    let (meta, stream) = read_replay(&d).unwrap();
    assert_eq!(meta, b"{\"meta\":true}".to_vec());
    assert_eq!(stream, packets);
}
