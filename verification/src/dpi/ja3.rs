//! TLS ClientHello / ServerHello parsing and JA3 / JA3S fingerprints.

use crate::common::text::{decimal, hex_digits, hex_lower, hex_string, lemma_hex_lower_shape, push_decimal};
use md5::{Digest, Md5};
use vstd::prelude::*;
use vstd::string::*;
use vstd::utf8::encode_utf8;

verus! {

/// A JA3 fingerprint of a TLS ClientHello.
#[derive(Debug)]
pub struct Ja3Fingerprint {
    /// The JA3 text: version, cipher suites and extensions.
    pub ja3_raw: String,
    /// Lower-case hexadecimal MD5 digest of the JA3 text.
    pub ja3_hash: String,
}

/// A JA3S fingerprint of a TLS ServerHello.
#[derive(Debug)]
pub struct Ja3sFingerprint {
    /// The JA3S text: version, chosen cipher suite and extensions.
    pub ja3s_raw: String,
    /// Lower-case hexadecimal MD5 digest of the JA3S text.
    pub ja3s_hash: String,
}

/// The MD5 digest (RFC 1321) of a byte sequence.
pub uninterp spec fn md5_digest_of(data: Seq<u8>) -> Seq<u8>;

/// Calls `md5::Md5::digest` (the `Digest` trait of the md-5 crate) and copies
/// the 16 digest bytes into a vector. The contract claims only that the bytes
/// are the MD5 digest of `data`, a function of `data` alone.
#[verifier::external_body]
fn md5_digest(data: &[u8]) -> (res: Vec<u8>)
    ensures
        res@ == md5_digest_of(data@),
        res@.len() == 16,
{
    Md5::digest(data).to_vec()
}

/// The name of a TLS protocol version (`3.3` for TLS 1.2's 0x0303).
pub open spec fn tls_version_name(version: u16) -> Seq<char> {
    if version == 0x0300 {
        seq!['3', '.', '0']
    } else if version == 0x0301 {
        seq!['3', '.', '1']
    } else if version == 0x0302 {
        seq!['3', '.', '2']
    } else if version == 0x0303 {
        seq!['3', '.', '3']
    } else if version == 0x0304 {
        seq!['1', '.', '3']
    } else {
        seq!['u', 'n', 'k', 'n', 'o', 'w', 'n']
    }
}

/// The big-endian 16-bit number stored at `i` and `i + 1`.
pub open spec fn be_u16(d: Seq<u8>, i: int) -> u16 {
    (d[i] as int * 256 + d[i + 1] as int) as u16
}

/// Up to `count` consecutive big-endian 16-bit numbers from `pos`, stopping
/// early where fewer than two bytes remain.
pub open spec fn u16_run(d: Seq<u8>, pos: int, count: nat) -> Seq<u16>
    decreases count,
{
    if count == 0 || pos + 2 > d.len() {
        Seq::empty()
    } else {
        seq![be_u16(d, pos)] + u16_run(d, pos + 2, (count - 1) as nat)
    }
}

/// The types of the TLS extensions found between `pos` and `end`: each entry
/// is a 16-bit type, a 16-bit length and that many bytes of body.
pub open spec fn ext_types(d: Seq<u8>, pos: int, end: int) -> Seq<u16>
    decreases if pos <= end { end - pos } else { 0 },
{
    if pos + 4 <= end {
        seq![be_u16(d, pos)] + ext_types(d, pos + 4 + be_u16(d, pos + 2) as int, end)
    } else {
        Seq::empty()
    }
}

/// The extension types of an extensions block whose 16-bit length field
/// stands at `pos`; empty where that field does not fit in `d`. The block is
/// cut at the end of `d`.
pub open spec fn ext_block(d: Seq<u8>, pos: int) -> Seq<u16> {
    if pos + 2 <= d.len() {
        let start = pos + 2;
        let end = if start + be_u16(d, pos) as int <= d.len() {
            start + be_u16(d, pos) as int
        } else {
            d.len() as int
        };
        ext_types(d, start, end)
    } else {
        Seq::empty()
    }
}

/// Decimal numbers joined by `-`.
pub open spec fn dash_joined(nums: Seq<u16>) -> Seq<char>
    decreases nums.len(),
{
    if nums.len() == 0 {
        Seq::empty()
    } else if nums.len() == 1 {
        decimal(nums[0] as nat)
    } else {
        dash_joined(nums.drop_last()) + seq!['-'] + decimal(nums.last() as nat)
    }
}

/// Version, cipher suites and extension types of a TLS record that starts
/// with a ClientHello handshake, as the fingerprint reads them; `None` where
/// the record is too short, is no handshake or holds no ClientHello.
pub open spec fn client_hello_fields(d: Seq<u8>) -> Option<(u16, Seq<u16>, Seq<u16>)> {
    if d.len() < 43 || d[0] != 0x16 || d[5] != 0x01 || d.len() <= 43 {
        None
    } else {
        let p2 = 44 + d[43] as int;
        if p2 + 2 > d.len() {
            None
        } else {
            let ciphers = u16_run(d, p2 + 2, (be_u16(d, p2) / 2) as nat);
            let p3 = p2 + 2 + 2 * ciphers.len();
            if p3 >= d.len() {
                None
            } else {
                Some((be_u16(d, 9), ciphers, ext_block(d, p3 + 1 + d[p3] as int)))
            }
        }
    }
}

/// Version, chosen cipher suite and extension types of a TLS record that
/// starts with a ServerHello handshake; `None` where the record is too short,
/// is no handshake or holds no ServerHello.
pub open spec fn server_hello_fields(d: Seq<u8>) -> Option<(u16, u16, Seq<u16>)> {
    if d.len() < 43 || d[0] != 0x16 || d[5] != 0x02 || d.len() <= 43 {
        None
    } else {
        let p2 = 44 + d[43] as int;
        if p2 + 2 > d.len() {
            None
        } else {
            Some((be_u16(d, 9), be_u16(d, p2), ext_block(d, p2 + 3)))
        }
    }
}

/// The JA3 text of a ClientHello: the five fields
/// `version,ciphers,extensions,curves,point_formats`, numbers in decimal,
/// lists joined by `-`; the curve and point format fields are left empty.
pub open spec fn ja3_text(d: Seq<u8>) -> Option<Seq<char>> {
    match client_hello_fields(d) {
        None => None,
        Some((v, ciphers, exts)) => Some(
            decimal(v as nat) + seq![','] + dash_joined(ciphers) + seq![','] + dash_joined(exts)
                + seq![','] + seq![','],
        ),
    }
}

/// The JA3S text of a ServerHello: `version,cipher,extensions`, numbers in
/// decimal, extensions joined by `-`.
pub open spec fn ja3s_text(d: Seq<u8>) -> Option<Seq<char>> {
    match server_hello_fields(d) {
        None => None,
        Some((v, cipher, exts)) => Some(
            decimal(v as nat) + seq![','] + decimal(cipher as nat) + seq![','] + dash_joined(exts),
        ),
    }
}

/// Lower-case hexadecimal text: every character is a hexadecimal digit.
pub open spec fn is_lower_hex(s: Seq<char>) -> bool {
    forall|i: int| 0 <= i < s.len() ==> hex_digits().contains(#[trigger] s[i])
}

/// The digest text of a fingerprint text: lower-case hex MD5 of its UTF-8 bytes.
pub open spec fn fingerprint_hash(text: Seq<char>) -> Seq<char> {
    hex_lower(md5_digest_of(encode_utf8(text)))
}

fn comma() -> (s: &'static str)
    ensures
        s@ == seq![','],
{
    proof {
        reveal_strlit(",");
    }
    ","
}

fn dash() -> (s: &'static str)
    ensures
        s@ == seq!['-'],
{
    proof {
        reveal_strlit("-");
    }
    "-"
}

/// The name of a TLS protocol version (`3.3` for TLS 1.2's 0x0303).
pub fn tls_version_to_string(version: u16) -> (s: String)
    ensures
        s@ == tls_version_name(version),
{
    let text = if version == 0x0300 {
        proof { reveal_strlit("3.0"); }
        "3.0"
    } else if version == 0x0301 {
        proof { reveal_strlit("3.1"); }
        "3.1"
    } else if version == 0x0302 {
        proof { reveal_strlit("3.2"); }
        "3.2"
    } else if version == 0x0303 {
        proof { reveal_strlit("3.3"); }
        "3.3"
    } else if version == 0x0304 {
        proof { reveal_strlit("1.3"); }
        "1.3"
    } else {
        proof { reveal_strlit("unknown"); }
        "unknown"
    };
    String::from_str(text)
}

fn read_be_u16(data: &[u8], pos: usize) -> (v: u16)
    requires
        pos + 2 <= data@.len(),
    ensures
        v == be_u16(data@, pos as int),
{
    (data[pos] as u16) * 256 + (data[pos + 1] as u16)
}

/// Reads up to `count` big-endian numbers from `start`; returns them and the
/// position after the last one read.
fn read_u16_run(data: &[u8], start: usize, count: usize) -> (res: (Vec<u16>, usize))
    requires
        start <= data@.len(),
    ensures
        res.0@ == u16_run(data@, start as int, count as nat),
        res.1 == start + 2 * res.0@.len(),
{
    let mut out: Vec<u16> = Vec::new();
    let mut pos = start;
    let mut k: usize = 0;
    while k < count && data.len() - pos >= 2
        invariant
            pos <= data@.len(),
            k <= count,
            k == out@.len(),
            pos == start + 2 * k,
            out@ + u16_run(data@, pos as int, (count - k) as nat) == u16_run(
                data@,
                start as int,
                count as nat,
            ),
        decreases count - k,
    {
        let v = read_be_u16(data, pos);
        proof {
            assert(u16_run(data@, pos as int, (count - k) as nat) == seq![v] + u16_run(
                data@,
                pos + 2,
                (count - k - 1) as nat,
            ));
            assert(out@.push(v) + u16_run(data@, pos + 2, (count - k - 1) as nat) =~= out@ + (
            seq![v] + u16_run(data@, pos + 2, (count - k - 1) as nat)));
        }
        out.push(v);
        pos = pos + 2;
        k = k + 1;
    }
    proof {
        assert(u16_run(data@, pos as int, (count - k) as nat) =~= Seq::<u16>::empty());
        assert(out@ + Seq::<u16>::empty() =~= out@);
    }
    (out, pos)
}

/// Reads the extension types found between `start` and `end`.
fn read_ext_types(data: &[u8], start: usize, end: usize) -> (res: Vec<u16>)
    requires
        start <= end,
        end <= data@.len(),
    ensures
        res@ == ext_types(data@, start as int, end as int),
{
    let mut out: Vec<u16> = Vec::new();
    let mut pos = start;
    let mut done = false;
    while !done && end - pos >= 4
        invariant
            pos <= end,
            end <= data@.len(),
            out@ + (if done {
                Seq::empty()
            } else {
                ext_types(data@, pos as int, end as int)
            }) == ext_types(data@, start as int, end as int),
        decreases (end - pos) + (if done { 0int } else { 1int }),
    {
        let t = read_be_u16(data, pos);
        let l = read_be_u16(data, pos + 2);
        let step = 4 + l as usize;
        proof {
            assert(ext_types(data@, pos as int, end as int) == seq![t] + ext_types(
                data@,
                pos + step,
                end as int,
            ));
        }
        let ghost before = out@;
        out.push(t);
        if step > end - pos {
            proof {
                assert(ext_types(data@, pos + step, end as int) =~= Seq::<u16>::empty());
                assert(out@ + Seq::<u16>::empty() =~= before + (seq![t] + ext_types(
                    data@,
                    pos + step,
                    end as int,
                )));
            }
            done = true;
        } else {
            proof {
                assert(out@ + ext_types(data@, pos + step, end as int) =~= before + (seq![t]
                    + ext_types(data@, pos + step, end as int)));
            }
            pos = pos + step;
        }
    }
    proof {
        if !done {
            assert(ext_types(data@, pos as int, end as int) =~= Seq::<u16>::empty());
        }
        assert(out@ + Seq::<u16>::empty() =~= out@);
    }
    out
}

/// Reads the extensions block whose length field stands at `pos`.
fn read_ext_block(data: &[u8], pos: usize) -> (res: Vec<u16>)
    requires
        pos <= data@.len(),
    ensures
        res@ == ext_block(data@, pos as int),
{
    if data.len() - pos >= 2 {
        let total = read_be_u16(data, pos) as usize;
        let start = pos + 2;
        let end = if total <= data.len() - start {
            start + total
        } else {
            data.len()
        };
        read_ext_types(data, start, end)
    } else {
        Vec::new()
    }
}

/// Appends the numbers of `nums` in decimal, joined by `-`.
fn push_dash_joined(out: &mut String, nums: &Vec<u16>)
    ensures
        final(out)@ == old(out)@ + dash_joined(nums@),
{
    let mut i: usize = 0;
    while i < nums.len()
        invariant
            i <= nums@.len(),
            out@ == old(out)@ + dash_joined(nums@.subrange(0, i as int)),
        decreases nums@.len() - i,
    {
        let ghost pre = out@;
        if i > 0 {
            out.append(dash());
        }
        push_decimal(out, nums[i] as u64);
        proof {
            let s = nums@.subrange(0, i as int + 1);
            assert(s.drop_last() =~= nums@.subrange(0, i as int));
            assert(s.last() == nums@[i as int]);
            if i == 0 {
                assert(dash_joined(nums@.subrange(0, 0)) =~= Seq::<char>::empty());
                assert(dash_joined(s) == decimal(s[0] as nat));
            }
            assert(out@ =~= old(out)@ + dash_joined(s));
        }
        i = i + 1;
    }
    assert(nums@.subrange(0, nums@.len() as int) =~= nums@);
}

/// The lower-case hex MD5 digest of the UTF-8 bytes of `text`.
fn fingerprint_digest(text: &String) -> (h: String)
    ensures
        h@ == fingerprint_hash(text@),
        h@.len() == 32,
        is_lower_hex(h@),
{
    let digest = md5_digest(text.as_str().as_bytes());
    let h = hex_string(digest.as_slice());
    proof {
        lemma_hex_lower_shape(digest@);
    }
    h
}

/// Parses a TLS record holding a ClientHello and computes its JA3
/// fingerprint; `None` where the data is no ClientHello that the parser can
/// read.
pub fn extract_ja3(data: &[u8]) -> (res: Option<Ja3Fingerprint>)
    ensures
        match ja3_text(data@) {
            None => res is None,
            Some(text) => res matches Some(fp) && fp.ja3_raw@ == text && fp.ja3_hash@
                == fingerprint_hash(text) && fp.ja3_hash@.len() == 32 && is_lower_hex(
                fp.ja3_hash@,
            ),
        },
{
    if data.len() < 43 || data[0] != 0x16 || data[5] != 0x01 || data.len() <= 43 {
        return None;
    }
    let version = read_be_u16(data, 9);
    let p2 = 44 + data[43] as usize;
    if p2 + 2 > data.len() {
        return None;
    }
    let cipher_len = read_be_u16(data, p2);
    let (ciphers, p3) = read_u16_run(data, p2 + 2, (cipher_len / 2) as usize);
    if p3 >= data.len() {
        return None;
    }
    let skip = 1 + data[p3] as usize;
    let exts = if skip <= data.len() - p3 {
        read_ext_block(data, p3 + skip)
    } else {
        proof {
            assert(ext_block(data@, p3 + skip) =~= Seq::<u16>::empty());
        }
        Vec::new()
    };
    let mut raw = String::new();
    push_decimal(&mut raw, version as u64);
    raw.append(comma());
    push_dash_joined(&mut raw, &ciphers);
    raw.append(comma());
    push_dash_joined(&mut raw, &exts);
    raw.append(comma());
    raw.append(comma());
    let hash = fingerprint_digest(&raw);
    Some(Ja3Fingerprint { ja3_raw: raw, ja3_hash: hash })
}

/// Parses a TLS record holding a ServerHello and computes its JA3S
/// fingerprint; `None` where the data is no ServerHello that the parser can
/// read.
pub fn extract_ja3s(data: &[u8]) -> (res: Option<Ja3sFingerprint>)
    ensures
        match ja3s_text(data@) {
            None => res is None,
            Some(text) => res matches Some(fp) && fp.ja3s_raw@ == text && fp.ja3s_hash@
                == fingerprint_hash(text) && fp.ja3s_hash@.len() == 32 && is_lower_hex(
                fp.ja3s_hash@,
            ),
        },
{
    if data.len() < 43 || data[0] != 0x16 || data[5] != 0x02 || data.len() <= 43 {
        return None;
    }
    let version = read_be_u16(data, 9);
    let p2 = 44 + data[43] as usize;
    if p2 + 2 > data.len() {
        return None;
    }
    let cipher = read_be_u16(data, p2);
    let exts = if p2 + 3 <= data.len() {
        read_ext_block(data, p2 + 3)
    } else {
        proof {
            assert(ext_block(data@, p2 + 3) =~= Seq::<u16>::empty());
        }
        Vec::new()
    };
    let mut raw = String::new();
    push_decimal(&mut raw, version as u64);
    raw.append(comma());
    push_decimal(&mut raw, cipher as u64);
    raw.append(comma());
    push_dash_joined(&mut raw, &exts);
    let hash = fingerprint_digest(&raw);
    Some(Ja3sFingerprint { ja3s_raw: raw, ja3s_hash: hash })
}

/// `a` holds the bytes of `b` from `lo` on, `k` places further along.
pub open spec fn shifted_copy(a: Seq<u8>, b: Seq<u8>, k: int, lo: int) -> bool {
    &&& a.len() == b.len() + k
    &&& forall|i: int| lo <= i < b.len() ==> a[i + k] == #[trigger] b[i]
}

proof fn lemma_u16_run_shift(a: Seq<u8>, b: Seq<u8>, k: int, lo: int, pos: int, count: nat)
    requires
        shifted_copy(a, b, k, lo),
        lo <= pos,
    ensures
        u16_run(a, pos + k, count) == u16_run(b, pos, count),
    decreases count,
{
    if count > 0 && pos + 2 <= b.len() {
        assert(a[pos + k] == b[pos]);
        assert(a[pos + 1 + k] == b[pos + 1]);
        lemma_u16_run_shift(a, b, k, lo, pos + 2, (count - 1) as nat);
    }
}

proof fn lemma_ext_types_shift(a: Seq<u8>, b: Seq<u8>, k: int, lo: int, pos: int, end: int)
    requires
        shifted_copy(a, b, k, lo),
        lo <= pos,
        end <= b.len(),
    ensures
        ext_types(a, pos + k, end + k) == ext_types(b, pos, end),
    decreases if pos <= end { end - pos } else { 0 },
{
    if pos + 4 <= end {
        assert(a[pos + k] == b[pos]);
        assert(a[pos + 1 + k] == b[pos + 1]);
        assert(a[pos + 2 + k] == b[pos + 2]);
        assert(a[pos + 3 + k] == b[pos + 3]);
        assert(be_u16(a, pos + k) == be_u16(b, pos));
        assert(be_u16(a, pos + k + 2) == be_u16(b, pos + 2));
        let next = pos + 4 + be_u16(b, pos + 2) as int;
        lemma_ext_types_shift(a, b, k, lo, next, end);
        assert(pos + k + 4 + be_u16(a, pos + k + 2) as int == next + k);
    }
}

proof fn lemma_ext_block_shift(a: Seq<u8>, b: Seq<u8>, k: int, lo: int, pos: int)
    requires
        shifted_copy(a, b, k, lo),
        lo <= pos,
    ensures
        ext_block(a, pos + k) == ext_block(b, pos),
{
    if pos + 2 <= b.len() {
        assert(a[pos + k] == b[pos]);
        assert(a[pos + 1 + k] == b[pos + 1]);
        let start = pos + 2;
        let end = if start + be_u16(b, pos) as int <= b.len() {
            start + be_u16(b, pos) as int
        } else {
            b.len() as int
        };
        lemma_ext_types_shift(a, b, k, lo, start, end);
    }
}

/// The session ID does not enter the JA3 fingerprint: a ClientHello record
/// whose 43-byte prefix is followed by a session ID of any length and
/// content has the JA3 text of the same record with an empty session ID.
/// (Byte 43 holds the session ID's length; the cipher suites follow it.)
pub proof fn lemma_ja3_skips_session_id(head: Seq<u8>, sid: Seq<u8>, rest: Seq<u8>)
    requires
        head.len() == 43,
        sid.len() < 256,
    ensures
        ja3_text(head + seq![sid.len() as u8] + sid + rest) == ja3_text(head + seq![0u8] + rest),
{
    let n = sid.len() as int;
    let a = head + seq![sid.len() as u8] + sid + rest;
    let b = head + seq![0u8] + rest;
    assert(shifted_copy(a, b, n, 44)) by {
        assert forall|i: int| 44 <= i < b.len() implies a[i + n] == #[trigger] b[i] by {
            assert(b[i] == rest[i - 44]);
            assert(a[i + n] == rest[i - 44]);
        }
    }
    assert(a[0] == b[0] && a[5] == b[5] && a[9] == b[9] && a[10] == b[10]);
    assert(a[43] == sid.len() as u8 && b[43] == 0u8);
    if a.len() > 44 + n + 1 {
        assert(a[44 + n] == b[44] && a[45 + n] == b[45]);
    }
    let p2 = 44int;
    if p2 + 2 <= b.len() {
        assert(be_u16(a, p2 + n) == be_u16(b, p2));
        let count = (be_u16(b, p2) / 2) as nat;
        lemma_u16_run_shift(a, b, n, 44, p2 + 2, count);
        let ciphers = u16_run(b, p2 + 2, count);
        let p3 = p2 + 2 + 2 * ciphers.len();
        if p3 < b.len() {
            assert(a[p3 + n] == b[p3]);
            lemma_ext_block_shift(a, b, n, 44, p3 + 1 + b[p3] as int);
        }
    }
}

/// The session ID does not enter the JA3S fingerprint: a ServerHello
/// record with a session ID of any length and content has the JA3S text of
/// the same record with an empty session ID.
pub proof fn lemma_ja3s_skips_session_id(head: Seq<u8>, sid: Seq<u8>, rest: Seq<u8>)
    requires
        head.len() == 43,
        sid.len() < 256,
    ensures
        ja3s_text(head + seq![sid.len() as u8] + sid + rest) == ja3s_text(head + seq![0u8] + rest),
{
    let n = sid.len() as int;
    let a = head + seq![sid.len() as u8] + sid + rest;
    let b = head + seq![0u8] + rest;
    assert(shifted_copy(a, b, n, 44)) by {
        assert forall|i: int| 44 <= i < b.len() implies a[i + n] == #[trigger] b[i] by {
            assert(b[i] == rest[i - 44]);
            assert(a[i + n] == rest[i - 44]);
        }
    }
    assert(a[0] == b[0] && a[5] == b[5] && a[9] == b[9] && a[10] == b[10]);
    assert(a[43] == sid.len() as u8 && b[43] == 0u8);
    if 46 <= b.len() {
        assert(a[44 + n] == b[44] && a[45 + n] == b[45]);
        lemma_ext_block_shift(a, b, n, 44, 47);
    }
}

/// The 32 random bytes of a hello (bytes 11 to 42) do not enter its
/// fingerprints: two records that differ only there have the same JA3 and
/// JA3S texts.
pub proof fn lemma_fingerprints_ignore_random(a: Seq<u8>, b: Seq<u8>)
    requires
        a.len() == b.len(),
        forall|i: int| 0 <= i < a.len() && !(11 <= i < 43) ==> a[i] == #[trigger] b[i],
    ensures
        ja3_text(a) == ja3_text(b),
        ja3s_text(a) == ja3s_text(b),
{
    assert(shifted_copy(a, b, 0, 44)) by {
        assert forall|i: int| 44 <= i < b.len() implies a[i + 0] == #[trigger] b[i] by {
            assert(a[i] == b[i]);
        }
    }
    if a.len() > 43 {
        assert(a[0] == b[0] && a[5] == b[5] && a[9] == b[9] && a[10] == b[10] && a[43] == b[43]);
        let p2 = 44 + b[43] as int;
        if p2 + 2 <= b.len() {
            assert(a[p2] == b[p2] && a[p2 + 1] == b[p2 + 1]);
            let count = (be_u16(b, p2) / 2) as nat;
            lemma_u16_run_shift(a, b, 0, 44, p2 + 2, count);
            let ciphers = u16_run(b, p2 + 2, count);
            let p3 = p2 + 2 + 2 * ciphers.len();
            if p3 < b.len() {
                assert(a[p3] == b[p3]);
                lemma_ext_block_shift(a, b, 0, 44, p3 + 1 + b[p3] as int);
            }
            lemma_ext_block_shift(a, b, 0, 44, p2 + 3);
        }
    }
}

} // verus!
