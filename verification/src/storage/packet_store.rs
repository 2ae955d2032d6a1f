//! The PCAPNG encoding of stored packets: the section header block, the
//! interface description block and one enhanced packet block per packet.
//! Writing the blocks to files happens outside the library.

use vstd::prelude::*;
use vstd::string::*;
use crate::common::text::str_eq;

verus! {

/// Block type of the section header block.
pub const SHB_TYPE: u32 = 0x0A0D0D0A;

/// Block type of the interface description block.
pub const IDB_TYPE: u32 = 0x00000001;

/// Block type of the enhanced packet block.
pub const EPB_TYPE: u32 = 0x00000006;

/// The byte-order magic of a section.
pub const BYTE_ORDER_MAGIC: u32 = 0x1A2B3C4D;

/// The UTC calendar date of a Unix time, as chrono writes it with the
/// format `%Y-%m-%d`; none where chrono cannot represent that time.
pub uninterp spec fn utc_date_text(secs: i64) -> Option<Seq<char>>;

/// Calls `chrono::DateTime::<Utc>::from_timestamp(secs, 0)` and formats the
/// date with `%Y-%m-%d`. Claimed: the text is a function of `secs` alone,
/// and times from 1970 to the end of year 9999 are representable (chrono
/// refuses only times out of its range of dates, about 262 000 years).
#[verifier::external_body]
fn utc_date(secs: i64) -> (r: Option<String>)
    ensures
        match r {
            Some(t) => utc_date_text(secs) == Some(t@),
            None => utc_date_text(secs) is None,
        },
        0 <= secs <= 253_402_300_799 ==> r is Some,
{
    chrono::DateTime::from_timestamp(secs, 0).map(|t| t.format("%Y-%m-%d").to_string())
}

/// The name of the capture file of a day: the date, then `.pcapng`.
pub open spec fn daily_name(date: Seq<char>) -> Seq<char> {
    date + ".pcapng"@
}

/// The capture file that packets stored at `now_secs` (Unix seconds) go to:
/// one file per UTC day, named after the date.
pub fn daily_file_name(now_secs: i64) -> (r: Option<String>)
    ensures
        match utc_date_text(now_secs) {
            Some(d) => r matches Some(n) && n@ == daily_name(d),
            None => r is None,
        },
        0 <= now_secs <= 253_402_300_799 ==> r is Some,
{
    match utc_date(now_secs) {
        Some(date) => {
            let mut name = date;
            name.append(".pcapng");
            Some(name)
        },
        None => None,
    }
}

/// Whether storing a packet into the file `wanted` first opens that file:
/// when no file is open, or another day's file is.
pub fn must_open_file(current: Option<&str>, wanted: &str) -> (b: bool)
    ensures
        b == !(current matches Some(c) && c@ == wanted@),
{
    match current {
        Some(c) => !str_eq(c, wanted),
        None => true,
    }
}

/// Little-endian bytes of a 16-bit number.
pub open spec fn le16(x: int) -> Seq<u8> {
    seq![(x % 256) as u8, ((x / 256) % 256) as u8]
}

/// Little-endian bytes of a 32-bit number.
pub open spec fn le32(x: int) -> Seq<u8> {
    seq![
        (x % 256) as u8,
        ((x / 256) % 256) as u8,
        ((x / 65536) % 256) as u8,
        ((x / 16777216) % 256) as u8,
    ]
}

/// `n` zero bytes.
pub open spec fn zeros(n: nat) -> Seq<u8> {
    Seq::new(n, |i: int| 0u8)
}

/// The section header block: byte-order magic, version 1.0, section length
/// unspecified (-1), total length 28 at both ends.
pub open spec fn section_header_block() -> Seq<u8> {
    le32(SHB_TYPE as int) + le32(28) + le32(BYTE_ORDER_MAGIC as int) + le16(1) + le16(0) + Seq::new(
        8,
        |i: int| 0xffu8,
    ) + le32(28)
}

/// The interface description block: link type Ethernet, snap length 65535,
/// total length 20 at both ends.
pub open spec fn interface_description_block() -> Seq<u8> {
    le32(IDB_TYPE as int) + le32(20) + le16(1) + le16(0) + le32(65535) + le32(20)
}

/// `n` rounded up to a multiple of four.
pub open spec fn padded(n: nat) -> nat {
    ((n + 3) / 4 * 4) as nat
}

/// The 64-bit pattern of a timestamp in microseconds, in two's complement.
pub open spec fn timestamp_bits(timestamp_ms: i64) -> nat {
    let us = timestamp_ms * 1000;
    if us >= 0 {
        us as nat
    } else {
        (us + 0x1_0000_0000_0000_0000) as nat
    }
}

/// The enhanced packet block of a packet captured at `timestamp_ms`
/// (recorded in microseconds) on interface 0: the data padded to four bytes,
/// total length at both ends.
pub open spec fn enhanced_packet_block(timestamp_ms: i64, data: Seq<u8>) -> Seq<u8> {
    let total = 32 + padded(data.len()) as int;
    let ts = timestamp_bits(timestamp_ms) as int;
    le32(EPB_TYPE as int) + le32(total) + le32(0) + le32(ts / 0x1_0000_0000) + le32(
        ts % 0x1_0000_0000,
    ) + le32(data.len() as int) + le32(data.len() as int) + data + zeros(
        (padded(data.len()) - data.len()) as nat,
    ) + le32(total)
}

fn push_le16(out: &mut Vec<u8>, x: u16)
    ensures
        final(out)@ == old(out)@ + le16(x as int),
{
    out.push((x % 256) as u8);
    out.push(((x / 256) % 256) as u8);
    assert(final(out)@ =~= old(out)@ + le16(x as int));
}

fn push_le32(out: &mut Vec<u8>, x: u32)
    ensures
        final(out)@ == old(out)@ + le32(x as int),
{
    out.push((x % 256) as u8);
    out.push(((x / 256) % 256) as u8);
    out.push(((x / 65536) % 256) as u8);
    out.push(((x / 16777216) % 256) as u8);
    assert(final(out)@ =~= old(out)@ + le32(x as int));
}

/// The section header block.
pub fn encode_shb() -> (b: Vec<u8>)
    ensures
        b@ == section_header_block(),
{
    let mut b: Vec<u8> = Vec::new();
    push_le32(&mut b, SHB_TYPE);
    push_le32(&mut b, 28);
    push_le32(&mut b, BYTE_ORDER_MAGIC);
    push_le16(&mut b, 1);
    push_le16(&mut b, 0);
    let ghost before = b@;
    let mut i: usize = 0;
    while i < 8
        invariant
            i <= 8,
            b@ == before + Seq::new(i as nat, |j: int| 0xffu8),
        decreases 8 - i,
    {
        b.push(0xff);
        i = i + 1;
        assert(b@ =~= before + Seq::new(i as nat, |j: int| 0xffu8));
    }
    push_le32(&mut b, 28);
    b
}

/// The interface description block.
pub fn encode_idb() -> (b: Vec<u8>)
    ensures
        b@ == interface_description_block(),
{
    let mut b: Vec<u8> = Vec::new();
    push_le32(&mut b, IDB_TYPE);
    push_le32(&mut b, 20);
    push_le16(&mut b, 1);
    push_le16(&mut b, 0);
    push_le32(&mut b, 65535);
    push_le32(&mut b, 20);
    b
}

/// The enhanced packet block of `data` captured at `timestamp_ms`.
pub fn encode_epb(timestamp_ms: i64, data: &[u8]) -> (b: Vec<u8>)
    requires
        -9_223_372_036_854_775 <= timestamp_ms <= 9_223_372_036_854_775,
        data@.len() + 35 <= u32::MAX,
    ensures
        b@ == enhanced_packet_block(timestamp_ms, data@),
{
    let len = data.len();
    let padded_len = (len + 3) / 4 * 4;
    let total = (32 + padded_len) as u32;
    let us = timestamp_ms * 1000;
    let bits: u64 = if us >= 0 {
        us as u64
    } else {
        ((us + i64::MAX) + 1) as u64 + 0x8000_0000_0000_0000u64
    };
    assert(bits == timestamp_bits(timestamp_ms));
    let mut b: Vec<u8> = Vec::new();
    push_le32(&mut b, EPB_TYPE);
    push_le32(&mut b, total);
    push_le32(&mut b, 0);
    push_le32(&mut b, (bits / 0x1_0000_0000) as u32);
    push_le32(&mut b, (bits % 0x1_0000_0000) as u32);
    push_le32(&mut b, len as u32);
    push_le32(&mut b, len as u32);
    let ghost before = b@;
    let mut i: usize = 0;
    while i < len
        invariant
            i <= len,
            len == data@.len(),
            b@ == before + data@.subrange(0, i as int),
        decreases len - i,
    {
        b.push(data[i]);
        i = i + 1;
        assert(b@ =~= before + data@.subrange(0, i as int));
    }
    assert(data@.subrange(0, len as int) =~= data@);
    let ghost with_data = b@;
    let mut k: usize = len;
    while k < padded_len
        invariant
            len <= k <= padded_len,
            padded_len == (len + 3) / 4 * 4,
            b@ == with_data + Seq::new((k - len) as nat, |j: int| 0u8),
        decreases padded_len - k,
    {
        b.push(0);
        k = k + 1;
        assert(b@ =~= with_data + Seq::new((k - len) as nat, |j: int| 0u8));
    }
    push_le32(&mut b, total);
    proof {
        assert(zeros((padded(len as nat) - len) as nat) =~= Seq::new(
            (k - len) as nat,
            |j: int| 0u8,
        ));
    }
    b
}

/// Block lengths are consistent: an enhanced packet block is a multiple of
/// four bytes long, both of its length fields hold that length, and the
/// packet bytes stand unchanged at offset 28.
pub proof fn lemma_epb_layout(timestamp_ms: i64, data: Seq<u8>)
    ensures
        ({
            let b = enhanced_packet_block(timestamp_ms, data);
            &&& b.len() == 32 + padded(data.len())
            &&& b.len() % 4 == 0
            &&& b.subrange(4, 8) == le32(b.len() as int)
            &&& b.subrange(b.len() - 4, b.len() as int) == le32(b.len() as int)
            &&& b.subrange(28, 28 + data.len() as int) == data
        }),
{
    let b = enhanced_packet_block(timestamp_ms, data);
    let total = 32 + padded(data.len()) as int;
    assert(padded(data.len()) >= data.len());
    assert(b.subrange(4, 8) =~= le32(total));
    assert(b.subrange(b.len() - 4, b.len() as int) =~= le32(total));
    assert(b.subrange(28, 28 + data.len() as int) =~= data);
}

/// The fixed blocks hold their own lengths at both ends.
pub proof fn lemma_fixed_blocks_layout()
    ensures
        section_header_block().len() == 28,
        section_header_block().subrange(4, 8) == le32(28),
        section_header_block().subrange(24, 28) == le32(28),
        interface_description_block().len() == 20,
        interface_description_block().subrange(4, 8) == le32(20),
        interface_description_block().subrange(16, 20) == le32(20),
{
    assert(section_header_block().subrange(4, 8) =~= le32(28));
    assert(section_header_block().subrange(24, 28) =~= le32(28));
    assert(interface_description_block().subrange(4, 8) =~= le32(20));
    assert(interface_description_block().subrange(16, 20) =~= le32(20));
}

/// The number that four little-endian bytes stand for.
pub open spec fn le32_value(s: Seq<u8>) -> int {
    s[0] as int + 256 * s[1] as int + 65536 * s[2] as int + 16777216 * s[3] as int
}

proof fn lemma_le32_roundtrip(x: int)
    requires
        0 <= x < 0x1_0000_0000,
    ensures
        le32_value(le32(x)) == x,
{
    let v = x as u32;
    assert(v as int == (v % 256) as int + 256 * ((v / 256) % 256) as int + 65536 * ((v / 65536)
        % 256) as int + 16777216 * ((v / 16777216) % 256) as int) by (bit_vector);
}

/// The capture time survives the block: the high and low timestamp words
/// of an enhanced packet block recombine to the capture time in
/// microseconds, `high * 2^32 + low == timestamp_ms * 1000`, taken as a
/// 64-bit two's complement number when negative.
pub proof fn lemma_epb_timestamp_recombines(timestamp_ms: i64, data: Seq<u8>)
    requires
        -9_223_372_036_854_775 <= timestamp_ms <= 9_223_372_036_854_775,
    ensures
        ({
            let b = enhanced_packet_block(timestamp_ms, data);
            let high = le32_value(b.subrange(12, 16));
            let low = le32_value(b.subrange(16, 20));
            &&& 0 <= high < 0x1_0000_0000
            &&& 0 <= low < 0x1_0000_0000
            &&& high * 0x1_0000_0000 + low == (if timestamp_ms >= 0 {
                timestamp_ms * 1000
            } else {
                timestamp_ms * 1000 + 0x1_0000_0000_0000_0000
            })
        }),
{
    let b = enhanced_packet_block(timestamp_ms, data);
    let ts = timestamp_bits(timestamp_ms) as int;
    assert(0 <= ts < 0x1_0000_0000_0000_0000);
    let hi = ts / 0x1_0000_0000;
    let lo = ts % 0x1_0000_0000;
    assert(0 <= hi < 0x1_0000_0000) by (nonlinear_arith)
        requires
            0 <= ts < 0x1_0000_0000_0000_0000,
            hi == ts / 0x1_0000_0000,
    ;
    assert(hi * 0x1_0000_0000 + lo == ts) by (nonlinear_arith)
        requires
            hi == ts / 0x1_0000_0000,
            lo == ts % 0x1_0000_0000,
    ;
    assert(b.subrange(12, 16) =~= le32(hi));
    assert(b.subrange(16, 20) =~= le32(lo));
    lemma_le32_roundtrip(hi);
    lemma_le32_roundtrip(lo);
}

} // verus!
