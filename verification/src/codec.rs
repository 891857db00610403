//! Wire codec: fixed-layout packet encoding and decoding, pure and stateless.

use vstd::prelude::*;
use vstd::arithmetic::div_mod::{lemma_fundamental_div_mod, lemma_div_is_ordered};

verus! {

// ---------------------------------------------------------------------------
// Big-endian integer fields
// ---------------------------------------------------------------------------

/// The two big-endian bytes of a 16-bit integer.
pub open spec fn u16_be(n: u16) -> Seq<u8> {
    let m1 = n as int / 256;
    seq![(m1 % 256) as u8, (n as int % 256) as u8]
}

/// The 16-bit integer read from two big-endian bytes.
pub open spec fn u16_from_be(s: Seq<u8>) -> u16
    recommends
        s.len() == 2,
{
    (s[0] as int * 256 + s[1] as int) as u16
}

pub proof fn lemma_u16_roundtrip(n: u16)
    ensures
        u16_from_be(u16_be(n)) == n,
{
    lemma_fundamental_div_mod(n as int, 256);
    lemma_div_is_ordered(n as int, 65535, 256);
}

/// The four big-endian bytes of a 32-bit integer.
pub open spec fn u32_be(n: u32) -> Seq<u8> {
    let m1 = n as int / 256;
    let m2 = m1 / 256;
    let m3 = m2 / 256;
    seq![(m3 % 256) as u8, (m2 % 256) as u8, (m1 % 256) as u8, (n as int % 256) as u8]
}

/// The 32-bit integer read from four big-endian bytes.
pub open spec fn u32_from_be(s: Seq<u8>) -> u32
    recommends
        s.len() == 4,
{
    ((((s[0] as int * 256) + s[1] as int) * 256 + s[2] as int) * 256 + s[3] as int) as u32
}

pub proof fn lemma_u32_roundtrip(n: u32)
    ensures
        u32_from_be(u32_be(n)) == n,
{
    let m1 = n as int / 256;
    let m2 = m1 / 256;
    let m3 = m2 / 256;
    lemma_fundamental_div_mod(n as int, 256);
    lemma_fundamental_div_mod(m1, 256);
    lemma_fundamental_div_mod(m2, 256);
    lemma_div_is_ordered(n as int, 0xFFFFFFFF, 256);
    lemma_div_is_ordered(m1, 0xFFFFFF, 256);
    lemma_div_is_ordered(m2, 0xFFFF, 256);
}

/// The eight big-endian bytes of a 64-bit integer.
pub open spec fn u64_be(n: u64) -> Seq<u8> {
    let m1 = n as int / 256;
    let m2 = m1 / 256;
    let m3 = m2 / 256;
    let m4 = m3 / 256;
    let m5 = m4 / 256;
    let m6 = m5 / 256;
    let m7 = m6 / 256;
    seq![
        (m7 % 256) as u8,
        (m6 % 256) as u8,
        (m5 % 256) as u8,
        (m4 % 256) as u8,
        (m3 % 256) as u8,
        (m2 % 256) as u8,
        (m1 % 256) as u8,
        (n as int % 256) as u8,
    ]
}

/// The 64-bit integer read from eight big-endian bytes.
pub open spec fn u64_from_be(s: Seq<u8>) -> u64
    recommends
        s.len() == 8,
{
    (((((((((((((s[0] as int * 256) + s[1] as int) * 256 + s[2] as int) * 256 + s[3] as int)
        * 256 + s[4] as int) * 256 + s[5] as int) * 256 + s[6] as int) * 256
        + s[7] as int)))))) as u64
}

pub proof fn lemma_u64_roundtrip(n: u64)
    ensures
        u64_from_be(u64_be(n)) == n,
{
    let m1 = n as int / 256;
    let m2 = m1 / 256;
    let m3 = m2 / 256;
    let m4 = m3 / 256;
    let m5 = m4 / 256;
    let m6 = m5 / 256;
    lemma_fundamental_div_mod(n as int, 256);
    lemma_fundamental_div_mod(m1, 256);
    lemma_fundamental_div_mod(m2, 256);
    lemma_fundamental_div_mod(m3, 256);
    lemma_fundamental_div_mod(m4, 256);
    lemma_fundamental_div_mod(m5, 256);
    lemma_fundamental_div_mod(m6, 256);
    lemma_div_is_ordered(n as int, 0xFFFFFFFFFFFFFFFF, 256);
    lemma_div_is_ordered(m1, 0xFFFFFFFFFFFFFF, 256);
    lemma_div_is_ordered(m2, 0xFFFFFFFFFFFF, 256);
    lemma_div_is_ordered(m3, 0xFFFFFFFFFF, 256);
    lemma_div_is_ordered(m4, 0xFFFFFFFF, 256);
    lemma_div_is_ordered(m5, 0xFFFFFF, 256);
    lemma_div_is_ordered(m6, 0xFFFF, 256);
}

/// Appends the two big-endian bytes of `n`.
pub fn push_u16_be(out: &mut Vec<u8>, n: u16)
    ensures
        final(out)@ == old(out)@ + u16_be(n),
{
    out.push((n / 256) as u8);
    out.push((n % 256) as u8);
    proof {
        assert(out@ =~= old(out)@ + u16_be(n));
    }
}

/// Appends the four big-endian bytes of `n`.
pub fn push_u32_be(out: &mut Vec<u8>, n: u32)
    ensures
        final(out)@ == old(out)@ + u32_be(n),
{
    let m1 = n / 256;
    let m2 = m1 / 256;
    let m3 = m2 / 256;
    out.push((m3 % 256) as u8);
    out.push((m2 % 256) as u8);
    out.push((m1 % 256) as u8);
    out.push((n % 256) as u8);
    proof {
        assert(out@ =~= old(out)@ + u32_be(n));
    }
}

/// Appends the eight big-endian bytes of `n`.
pub fn push_u64_be(out: &mut Vec<u8>, n: u64)
    ensures
        final(out)@ == old(out)@ + u64_be(n),
{
    let m1 = n / 256;
    let m2 = m1 / 256;
    let m3 = m2 / 256;
    let m4 = m3 / 256;
    let m5 = m4 / 256;
    let m6 = m5 / 256;
    let m7 = m6 / 256;
    out.push((m7 % 256) as u8);
    out.push((m6 % 256) as u8);
    out.push((m5 % 256) as u8);
    out.push((m4 % 256) as u8);
    out.push((m3 % 256) as u8);
    out.push((m2 % 256) as u8);
    out.push((m1 % 256) as u8);
    out.push((n % 256) as u8);
    proof {
        assert(out@ =~= old(out)@ + u64_be(n));
    }
}

/// Reads a big-endian 16-bit integer at `off`.
pub fn read_u16_be(buf: &[u8], off: usize) -> (r: u16)
    requires
        off + 2 <= buf@.len(),
    ensures
        r == u16_from_be(buf@.subrange(off as int, off as int + 2)),
{
    let hi = buf[off] as u16;
    let lo = buf[off + 1] as u16;
    proof {
        let s = buf@.subrange(off as int, off as int + 2);
        assert(s[0] == buf@[off as int]);
        assert(s[1] == buf@[off as int + 1]);
    }
    hi * 256 + lo
}

/// Reads a big-endian 32-bit integer at `off`.
pub fn read_u32_be(buf: &[u8], off: usize) -> (r: u32)
    requires
        off + 4 <= buf@.len(),
    ensures
        r == u32_from_be(buf@.subrange(off as int, off as int + 4)),
{
    let mut acc: u32 = buf[off] as u32;
    acc = acc * 256 + buf[off + 1] as u32;
    acc = acc * 256 + buf[off + 2] as u32;
    acc = acc * 256 + buf[off + 3] as u32;
    proof {
        let s = buf@.subrange(off as int, off as int + 4);
        assert(s[0] == buf@[off as int]);
        assert(s[1] == buf@[off as int + 1]);
        assert(s[2] == buf@[off as int + 2]);
        assert(s[3] == buf@[off as int + 3]);
    }
    acc
}

/// Reads a big-endian 64-bit integer at `off`.
pub fn read_u64_be(buf: &[u8], off: usize) -> (r: u64)
    requires
        off + 8 <= buf@.len(),
    ensures
        r == u64_from_be(buf@.subrange(off as int, off as int + 8)),
{
    let mut acc: u64 = buf[off] as u64;
    acc = acc * 256 + buf[off + 1] as u64;
    acc = acc * 256 + buf[off + 2] as u64;
    acc = acc * 256 + buf[off + 3] as u64;
    acc = acc * 256 + buf[off + 4] as u64;
    acc = acc * 256 + buf[off + 5] as u64;
    acc = acc * 256 + buf[off + 6] as u64;
    acc = acc * 256 + buf[off + 7] as u64;
    proof {
        let s = buf@.subrange(off as int, off as int + 8);
        assert(s[0] == buf@[off as int]);
        assert(s[1] == buf@[off as int + 1]);
        assert(s[2] == buf@[off as int + 2]);
        assert(s[3] == buf@[off as int + 3]);
        assert(s[4] == buf@[off as int + 4]);
        assert(s[5] == buf@[off as int + 5]);
        assert(s[6] == buf@[off as int + 6]);
        assert(s[7] == buf@[off as int + 7]);
    }
    acc
}

// ---------------------------------------------------------------------------
// Zero-terminator scan
// ---------------------------------------------------------------------------

/// Index of the first zero byte in `s`, or -1 when there is none.
pub open spec fn find_zero(s: Seq<u8>) -> int
    decreases s.len(),
{
    if s.len() == 0 {
        -1
    } else if s[0] == 0 {
        0
    } else {
        let r = find_zero(s.skip(1));
        if r < 0 {
            -1
        } else {
            r + 1
        }
    }
}

pub proof fn lemma_find_zero_props(s: Seq<u8>)
    ensures
        find_zero(s) >= 0 ==> 0 <= find_zero(s) < s.len() && s[find_zero(s)] == 0
            && (forall|i: int| 0 <= i < find_zero(s) ==> s[i] != 0),
        find_zero(s) < 0 ==> forall|i: int| 0 <= i < s.len() ==> s[i] != 0,
    decreases s.len(),
{
    if s.len() == 0 {
    } else if s[0] == 0 {
    } else {
        lemma_find_zero_props(s.skip(1));
        let fs = find_zero(s.skip(1));
        if fs >= 0 {
            assert(s[fs + 1] == s.skip(1)[fs]);
            assert forall|i: int| 0 <= i < fs + 1 implies s[i] != 0 by {
                if i >= 1 {
                    assert(s[i] == s.skip(1)[i - 1]);
                }
            }
        } else {
            assert forall|i: int| 0 <= i < s.len() implies s[i] != 0 by {
                if i >= 1 {
                    assert(s[i] == s.skip(1)[i - 1]);
                }
            }
        }
    }
}

/// A zero at `k`, preceded by no zero, is what the scan finds.
pub proof fn lemma_find_zero_at(s: Seq<u8>, k: int)
    requires
        0 <= k < s.len(),
        s[k] == 0,
        forall|i: int| 0 <= i < k ==> s[i] != 0,
    ensures
        find_zero(s) == k,
    decreases k,
{
    if k == 0 {
    } else {
        assert(s.skip(1)[k - 1] == s[k]);
        assert(forall|i: int| 0 <= i < k - 1 ==> s.skip(1)[i] == s[i + 1]);
        lemma_find_zero_at(s.skip(1), k - 1);
    }
}


// ---------------------------------------------------------------------------
// Flattened sequence-number lists
// ---------------------------------------------------------------------------

/// The concatenation of the big-endian encodings of a list of 64-bit integers.
pub open spec fn u64s_be(xs: Seq<u64>) -> Seq<u8>
    decreases xs.len(),
{
    if xs.len() == 0 {
        Seq::empty()
    } else {
        u64_be(xs[0]) + u64s_be(xs.skip(1))
    }
}

pub proof fn lemma_u64s_be_len(xs: Seq<u64>)
    ensures
        u64s_be(xs).len() == 8 * xs.len(),
    decreases xs.len(),
{
    if xs.len() > 0 {
        lemma_u64s_be_len(xs.skip(1));
    }
}

pub proof fn lemma_u64s_be_index(xs: Seq<u64>, i: int)
    requires
        0 <= i < xs.len(),
    ensures
        u64s_be(xs).subrange(8 * i, 8 * i + 8) == u64_be(xs[i]),
    decreases xs.len(),
{
    lemma_u64s_be_len(xs);
    lemma_u64s_be_len(xs.skip(1));
    if i == 0 {
        assert(u64s_be(xs).subrange(0, 8) =~= u64_be(xs[0]));
    } else {
        lemma_u64s_be_index(xs.skip(1), i - 1);
        assert(u64s_be(xs).subrange(8 * i, 8 * i + 8)
            =~= u64s_be(xs.skip(1)).subrange(8 * (i - 1), 8 * (i - 1) + 8));
        assert(xs.skip(1)[i - 1] == xs[i]);
    }
}

pub proof fn lemma_u64s_be_push(xs: Seq<u64>, x: u64)
    ensures
        u64s_be(xs.push(x)) == u64s_be(xs) + u64_be(x),
    decreases xs.len(),
{
    if xs.len() == 0 {
        assert(xs.push(x)[0] == x);
        assert(xs.push(x).skip(1) =~= Seq::<u64>::empty());
        assert(u64s_be(Seq::<u64>::empty()) == Seq::<u8>::empty());
        assert(u64s_be(xs.push(x)) == u64_be(x) + Seq::<u8>::empty());
        assert(u64_be(x) + Seq::<u8>::empty() =~= u64_be(x));
        assert(u64s_be(xs) + u64_be(x) =~= u64_be(x));
    } else {
        assert(xs.push(x)[0] == xs[0]);
        assert(xs.push(x).skip(1) =~= xs.skip(1).push(x));
        lemma_u64s_be_push(xs.skip(1), x);
        assert(u64s_be(xs.push(x)) == u64_be(xs[0]) + u64s_be(xs.skip(1).push(x)));
        assert(u64s_be(xs.push(x)) == u64_be(xs[0]) + (u64s_be(xs.skip(1)) + u64_be(x)));
        assert(u64_be(xs[0]) + (u64s_be(xs.skip(1)) + u64_be(x))
            =~= (u64_be(xs[0]) + u64s_be(xs.skip(1))) + u64_be(x));
        assert(u64s_be(xs.push(x)) =~= u64s_be(xs) + u64_be(x));
    }
}

// ---------------------------------------------------------------------------
// Logical packets
// ---------------------------------------------------------------------------

/// The mathematical value of a wire packet.
#[verifier::ext_equal]
pub enum PacketSpec {
    FileRequest { name: Seq<u8> },
    FileMeta { name: Seq<u8>, total_blocks: u64, final_block_size: u16 },
    MetaReceived { digest: Seq<u8> },
    FileData { seq_no: u64, payload: Seq<u8> },
    FileComplete { seq_no: u64, payload: Seq<u8> },
    BlockRequest { missing: Seq<u64> },
    FileReceived,
    HashValid { digest: Seq<u8> },
    ErrorPacket { code: u32 },
    UnknownStatus { status: u8 },
}

impl PacketSpec {
    /// A packet that the encoder accepts; `UnknownStatus` is a decode-side
    /// artifact and is never encoded.
    pub open spec fn wf(self) -> bool {
        match self {
            PacketSpec::FileRequest { name } => crate::protocol::valid_name(name),
            PacketSpec::FileMeta { name, total_blocks, final_block_size } => {
                &&& crate::protocol::valid_name(name)
                &&& total_blocks >= 1
                &&& 1 <= final_block_size <= crate::protocol::UFT_DATA_SIZE
            },
            PacketSpec::MetaReceived { digest } => digest.len() == 32,
            PacketSpec::FileData { seq_no, payload } =>
                payload.len() == crate::protocol::UFT_DATA_SIZE,
            PacketSpec::FileComplete { seq_no, payload } =>
                1 <= payload.len() <= crate::protocol::UFT_DATA_SIZE,
            PacketSpec::BlockRequest { missing } => missing.len() <= 511,
            PacketSpec::FileReceived => true,
            PacketSpec::HashValid { digest } => digest.len() == 32,
            PacketSpec::ErrorPacket { code } => true,
            PacketSpec::UnknownStatus { status } => false,
        }
    }
}

/// A logical wire packet, as executable data.
pub enum Packet {
    FileRequest { name: Vec<u8> },
    FileMeta { name: Vec<u8>, total_blocks: u64, final_block_size: u16 },
    MetaReceived { digest: Vec<u8> },
    FileData { seq_no: u64, payload: Vec<u8> },
    FileComplete { seq_no: u64, payload: Vec<u8> },
    BlockRequest { missing: Vec<u64> },
    FileReceived,
    HashValid { digest: Vec<u8> },
    ErrorPacket { code: u32 },
    UnknownStatus { status: u8 },
}

impl View for Packet {
    type V = PacketSpec;

    open spec fn view(&self) -> PacketSpec {
        match self {
            Packet::FileRequest { name } => PacketSpec::FileRequest { name: name@ },
            Packet::FileMeta { name, total_blocks, final_block_size } => PacketSpec::FileMeta {
                name: name@,
                total_blocks: *total_blocks,
                final_block_size: *final_block_size,
            },
            Packet::MetaReceived { digest } => PacketSpec::MetaReceived { digest: digest@ },
            Packet::FileData { seq_no, payload } => PacketSpec::FileData {
                seq_no: *seq_no,
                payload: payload@,
            },
            Packet::FileComplete { seq_no, payload } => PacketSpec::FileComplete {
                seq_no: *seq_no,
                payload: payload@,
            },
            Packet::BlockRequest { missing } => PacketSpec::BlockRequest { missing: missing@ },
            Packet::FileReceived => PacketSpec::FileReceived,
            Packet::HashValid { digest } => PacketSpec::HashValid { digest: digest@ },
            Packet::ErrorPacket { code } => PacketSpec::ErrorPacket { code: *code },
            Packet::UnknownStatus { status } => PacketSpec::UnknownStatus { status: *status },
        }
    }
}

/// A datagram that no packet layout matches.
#[derive(Clone, Copy, PartialEq, Eq, Structural, Debug)]
pub struct MalformedError;

// ---------------------------------------------------------------------------
// Specification of the wire layout
// ---------------------------------------------------------------------------

/// The bytes of a well-formed packet on the wire.
pub open spec fn spec_encode(p: PacketSpec) -> Seq<u8>
    recommends
        p.wf(),
{
    match p {
        PacketSpec::FileRequest { name } => seq![0x00u8] + name + seq![0x00u8],
        PacketSpec::FileMeta { name, total_blocks, final_block_size } => seq![0x10u8] + name
            + Seq::new((128 - name.len()) as nat, |i: int| 0u8) + u64_be(total_blocks)
            + u16_be(final_block_size) + Seq::new(22, |i: int| 0u8),
        PacketSpec::MetaReceived { digest } => seq![0x01u8] + digest,
        PacketSpec::FileData { seq_no, payload } => seq![0x11u8] + u64_be(seq_no) + payload,
        PacketSpec::FileComplete { seq_no, payload } => seq![0x12u8] + u64_be(seq_no) + payload,
        PacketSpec::BlockRequest { missing } => seq![0x02u8] + u16_be(missing.len() as u16)
            + u64s_be(missing),
        PacketSpec::FileReceived => seq![0x03u8],
        PacketSpec::HashValid { digest } => seq![0x04u8] + digest,
        PacketSpec::ErrorPacket { code } => seq![0x0Fu8] + u32_be(code),
        PacketSpec::UnknownStatus { status } => seq![status],
    }
}

/// The packet a datagram decodes to, or `None` when it is malformed: too
/// short for its status byte, or carrying an over-long name. A status byte
/// that matches no known layout decodes to `UnknownStatus`, never to `None`.
pub open spec fn spec_decode(s: Seq<u8>) -> Option<PacketSpec> {
    if s.len() < 1 {
        None
    } else {
        let st = s[0];
        if st == 0x00 {
            let k = find_zero(s.skip(1));
            if k < 0 || k > 127 {
                None
            } else {
                Some(PacketSpec::FileRequest { name: s.skip(1).take(k) })
            }
        } else if st == 0x01 {
            if s.len() < 33 {
                None
            } else {
                Some(PacketSpec::MetaReceived { digest: s.subrange(1, 33) })
            }
        } else if st == 0x02 {
            if s.len() < 3 {
                None
            } else {
                let cnt = u16_from_be(s.subrange(1, 3)) as int;
                if s.len() < 3 + 8 * cnt {
                    None
                } else {
                    Some(PacketSpec::BlockRequest {
                        missing: Seq::new(cnt as nat, |i: int|
                            u64_from_be(s.subrange(3 + 8 * i, 3 + 8 * i + 8))),
                    })
                }
            }
        } else if st == 0x03 {
            Some(PacketSpec::FileReceived)
        } else if st == 0x04 {
            if s.len() < 33 {
                None
            } else {
                Some(PacketSpec::HashValid { digest: s.subrange(1, 33) })
            }
        } else if st == 0x0F {
            if s.len() < 5 {
                None
            } else {
                Some(PacketSpec::ErrorPacket { code: u32_from_be(s.subrange(1, 5)) })
            }
        } else if st == 0x10 {
            if s.len() < 161 {
                None
            } else {
                let region = s.subrange(1, 129);
                let k = find_zero(region);
                if k < 0 {
                    None
                } else {
                    Some(PacketSpec::FileMeta {
                        name: region.take(k),
                        total_blocks: u64_from_be(s.subrange(129, 137)),
                        final_block_size: u16_from_be(s.subrange(137, 139)),
                    })
                }
            }
        } else if st == 0x11 {
            if s.len() < 4096 {
                None
            } else {
                Some(PacketSpec::FileData {
                    seq_no: u64_from_be(s.subrange(1, 9)),
                    payload: s.subrange(9, 4096),
                })
            }
        } else if st == 0x12 {
            if s.len() < 10 || s.len() > 4096 {
                None
            } else {
                Some(PacketSpec::FileComplete {
                    seq_no: u64_from_be(s.subrange(1, 9)),
                    payload: s.subrange(9, s.len() as int),
                })
            }
        } else {
            Some(PacketSpec::UnknownStatus { status: st })
        }
    }
}

/// Wire round-trip: decoding the encoding of any well-formed packet gives
/// back exactly that packet.
pub proof fn lemma_round_trip(p: PacketSpec)
    requires
        p.wf(),
    ensures
        spec_decode(spec_encode(p)) == Some(p),
{
    let e = spec_encode(p);
    match p {
        PacketSpec::FileRequest { name } => {
            let region = e.skip(1);
            assert(region =~= name + seq![0x00u8]);
            assert(region[name.len() as int] == 0);
            lemma_find_zero_at(region, name.len() as int);
            assert(region.take(name.len() as int) =~= name);
        },
        PacketSpec::FileMeta { name, total_blocks, final_block_size } => {
            let pad = Seq::new((128 - name.len()) as nat, |i: int| 0u8);
            assert(e.len() == 161);
            let region = e.subrange(1, 129);
            assert(region =~= name + pad);
            assert(region[name.len() as int] == 0);
            lemma_find_zero_at(region, name.len() as int);
            assert(region.take(name.len() as int) =~= name);
            assert(e.subrange(129, 137) =~= u64_be(total_blocks));
            lemma_u64_roundtrip(total_blocks);
            assert(e.subrange(137, 139) =~= u16_be(final_block_size));
            lemma_u16_roundtrip(final_block_size);
        },
        PacketSpec::MetaReceived { digest } => {
            assert(e.len() == 33);
            assert(e.subrange(1, 33) =~= digest);
        },
        PacketSpec::FileData { seq_no, payload } => {
            assert(e.len() == 4096);
            assert(e.subrange(1, 9) =~= u64_be(seq_no));
            lemma_u64_roundtrip(seq_no);
            assert(e.subrange(9, 4096) =~= payload);
        },
        PacketSpec::FileComplete { seq_no, payload } => {
            assert(e.len() == 9 + payload.len());
            assert(e.subrange(1, 9) =~= u64_be(seq_no));
            lemma_u64_roundtrip(seq_no);
            assert(e.subrange(9, e.len() as int) =~= payload);
        },
        PacketSpec::BlockRequest { missing } => {
            lemma_u64s_be_len(missing);
            assert(e.len() == 3 + 8 * missing.len());
            assert(e.subrange(1, 3) =~= u16_be(missing.len() as u16));
            lemma_u16_roundtrip(missing.len() as u16);
            let cnt = missing.len() as int;
            let dec = Seq::new(cnt as nat, |i: int|
                u64_from_be(e.subrange(3 + 8 * i, 3 + 8 * i + 8)));
            assert forall|i: int| 0 <= i < cnt implies dec[i] == missing[i] by {
                lemma_u64s_be_index(missing, i);
                assert(e.subrange(3 + 8 * i, 3 + 8 * i + 8)
                    =~= u64s_be(missing).subrange(8 * i, 8 * i + 8));
                lemma_u64_roundtrip(missing[i]);
            }
            assert(dec =~= missing);
        },
        PacketSpec::FileReceived => {},
        PacketSpec::HashValid { digest } => {
            assert(e.len() == 33);
            assert(e.subrange(1, 33) =~= digest);
        },
        PacketSpec::ErrorPacket { code } => {
            assert(e.subrange(1, 5) =~= u32_be(code));
            lemma_u32_roundtrip(code);
        },
        PacketSpec::UnknownStatus { status } => {},
    }
}


// ---------------------------------------------------------------------------
// Executable encoder
// ---------------------------------------------------------------------------

/// Appends all of `bytes`.
fn push_bytes(out: &mut Vec<u8>, bytes: &Vec<u8>)
    ensures
        final(out)@ == old(out)@ + bytes@,
{
    let mut i: usize = 0;
    while i < bytes.len()
        invariant
            i <= bytes@.len(),
            out@ == old(out)@ + bytes@.take(i as int),
        decreases bytes@.len() - i,
    {
        let b = bytes[i];
        out.push(b);
        proof {
            assert((old(out)@ + bytes@.take(i as int)).push(bytes@[i as int])
                =~= old(out)@ + bytes@.take(i as int + 1));
        }
        i = i + 1;
    }
    proof {
        assert(bytes@.take(bytes@.len() as int) =~= bytes@);
    }
}

/// Appends `n` zero bytes.
fn push_zeros(out: &mut Vec<u8>, n: usize)
    ensures
        final(out)@ == old(out)@ + Seq::new(n as nat, |i: int| 0u8),
{
    let mut i: usize = 0;
    while i < n
        invariant
            i <= n,
            out@ == old(out)@ + Seq::new(i as nat, |t: int| 0u8),
        decreases n - i,
    {
        out.push(0u8);
        proof {
            assert((old(out)@ + Seq::new(i as nat, |t: int| 0u8)).push(0u8)
                =~= old(out)@ + Seq::new((i + 1) as nat, |t: int| 0u8));
        }
        i = i + 1;
    }
}

/// Every well-formed packet encodes into the fixed datagram budget.
pub proof fn lemma_encode_len(p: PacketSpec)
    requires
        p.wf(),
    ensures
        1 <= spec_encode(p).len() <= crate::protocol::UFT_BUFFER_SIZE,
{
    match p {
        PacketSpec::BlockRequest { missing } => {
            lemma_u64s_be_len(missing);
        },
        _ => {},
    }
}

/// Encodes a well-formed packet into its wire bytes.
pub fn encode(p: &Packet) -> (r: Vec<u8>)
    requires
        p@.wf(),
    ensures
        r@ == spec_encode(p@),
        1 <= r@.len() <= crate::protocol::UFT_BUFFER_SIZE,
{
    proof {
        lemma_encode_len(p@);
    }
    let mut out: Vec<u8> = Vec::new();
    match p {
        Packet::FileRequest { name } => {
            out.push(0x00u8);
            push_bytes(&mut out, name);
            out.push(0x00u8);
            proof {
                assert(out@ =~= spec_encode(p@));
            }
        },
        Packet::FileMeta { name, total_blocks, final_block_size } => {
            out.push(0x10u8);
            push_bytes(&mut out, name);
            push_zeros(&mut out, 128 - name.len());
            push_u64_be(&mut out, *total_blocks);
            push_u16_be(&mut out, *final_block_size);
            push_zeros(&mut out, 22);
            proof {
                assert(out@ =~= spec_encode(p@));
            }
        },
        Packet::MetaReceived { digest } => {
            out.push(0x01u8);
            push_bytes(&mut out, digest);
            proof {
                assert(out@ =~= spec_encode(p@));
            }
        },
        Packet::FileData { seq_no, payload } => {
            out.push(0x11u8);
            push_u64_be(&mut out, *seq_no);
            push_bytes(&mut out, payload);
            proof {
                assert(out@ =~= spec_encode(p@));
            }
        },
        Packet::FileComplete { seq_no, payload } => {
            out.push(0x12u8);
            push_u64_be(&mut out, *seq_no);
            push_bytes(&mut out, payload);
            proof {
                assert(out@ =~= spec_encode(p@));
            }
        },
        Packet::BlockRequest { missing } => {
            out.push(0x02u8);
            push_u16_be(&mut out, missing.len() as u16);
            let mut i: usize = 0;
            while i < missing.len()
                invariant
                    i <= missing@.len(),
                    missing@.len() <= 511,
                    out@ == seq![0x02u8] + u16_be(missing@.len() as u16)
                        + u64s_be(missing@.take(i as int)),
                decreases missing@.len() - i,
            {
                let x = missing[i];
                push_u64_be(&mut out, x);
                proof {
                    lemma_u64s_be_push(missing@.take(i as int), missing@[i as int]);
                    assert(missing@.take(i as int).push(missing@[i as int])
                        =~= missing@.take(i as int + 1));
                    assert(seq![0x02u8] + u16_be(missing@.len() as u16)
                        + u64s_be(missing@.take(i as int)) + u64_be(missing@[i as int])
                        =~= seq![0x02u8] + u16_be(missing@.len() as u16)
                            + (u64s_be(missing@.take(i as int)) + u64_be(missing@[i as int])));
                }
                i = i + 1;
            }
            proof {
                assert(missing@.take(missing@.len() as int) =~= missing@);
                assert(out@ =~= spec_encode(p@));
            }
        },
        Packet::FileReceived => {
            out.push(0x03u8);
            proof {
                assert(out@ =~= spec_encode(p@));
            }
        },
        Packet::HashValid { digest } => {
            out.push(0x04u8);
            push_bytes(&mut out, digest);
            proof {
                assert(out@ =~= spec_encode(p@));
            }
        },
        Packet::ErrorPacket { code } => {
            out.push(0x0Fu8);
            push_u32_be(&mut out, *code);
            proof {
                assert(out@ =~= spec_encode(p@));
            }
        },
        Packet::UnknownStatus { status } => {
            proof {
                assert(false);
            }
        },
    }
    out
}

// ---------------------------------------------------------------------------
// Executable decoder
// ---------------------------------------------------------------------------

/// Copies `buf[from..to]` into a fresh vector.
fn copy_range(buf: &[u8], from: usize, to: usize) -> (r: Vec<u8>)
    requires
        from <= to <= buf@.len(),
    ensures
        r@ == buf@.subrange(from as int, to as int),
{
    vstd::slice::slice_to_vec(vstd::slice::slice_subrange(buf, from, to))
}

/// Decodes a datagram: the packet it carries, or `MalformedError` when it is
/// too short for its status byte or carries an over-long name. An unmatched
/// status byte decodes to `Packet::UnknownStatus`, never to an error.
pub fn decode(buf: &[u8]) -> (r: Result<Packet, MalformedError>)
    ensures
        r matches Ok(p) ==> spec_decode(buf@) == Some(p@),
        r is Err <==> spec_decode(buf@) is None,
{
    let n = buf.len();
    if n < 1 {
        return Err(MalformedError);
    }
    let st = buf[0];
    if st == 0x00 {
        let mut j: usize = 1;
        while j < n && buf[j] != 0
            invariant
                1 <= j <= n,
                n == buf@.len(),
                forall|i: int| 1 <= i < j ==> buf@[i] != 0,
            decreases n - j,
        {
            j = j + 1;
        }
        proof {
            assert(forall|i: int| 0 <= i < j - 1 ==> buf@.skip(1)[i] == buf@[i + 1]);
        }
        if j == n {
            proof {
                lemma_find_zero_props(buf@.skip(1));
                let k = find_zero(buf@.skip(1));
                if k >= 0 {
                    assert(buf@.skip(1)[k] == 0);
                    assert(buf@[k + 1] == 0);
                }
            }
            return Err(MalformedError);
        }
        proof {
            assert(buf@.skip(1)[j - 1] == buf@[j as int]);
            lemma_find_zero_at(buf@.skip(1), j as int - 1);
        }
        if j - 1 > 127 {
            return Err(MalformedError);
        }
        let name = copy_range(buf, 1, j);
        proof {
            assert(buf@.subrange(1, j as int) =~= buf@.skip(1).take(j as int - 1));
        }
        Ok(Packet::FileRequest { name })
    } else if st == 0x01 {
        if n < 33 {
            return Err(MalformedError);
        }
        let digest = copy_range(buf, 1, 33);
        Ok(Packet::MetaReceived { digest })
    } else if st == 0x02 {
        if n < 3 {
            return Err(MalformedError);
        }
        let cnt = read_u16_be(buf, 1) as usize;
        if n < 3 + 8 * cnt {
            return Err(MalformedError);
        }
        let mut missing: Vec<u64> = Vec::new();
        let mut i: usize = 0;
        while i < cnt
            invariant
                i <= cnt,
                n == buf@.len(),
                n >= 3 + 8 * cnt,
                missing@.len() == i,
                forall|t: int| 0 <= t < i ==> missing@[t] == u64_from_be(
                    buf@.subrange(3 + 8 * t, 3 + 8 * t + 8)),
            decreases cnt - i,
        {
            let x = read_u64_be(buf, 3 + 8 * i);
            missing.push(x);
            i = i + 1;
        }
        proof {
            assert(missing@ =~= Seq::new(cnt as nat, |t: int| u64_from_be(
                buf@.subrange(3 + 8 * t, 3 + 8 * t + 8))));
        }
        Ok(Packet::BlockRequest { missing })
    } else if st == 0x03 {
        Ok(Packet::FileReceived)
    } else if st == 0x04 {
        if n < 33 {
            return Err(MalformedError);
        }
        let digest = copy_range(buf, 1, 33);
        Ok(Packet::HashValid { digest })
    } else if st == 0x0F {
        if n < 5 {
            return Err(MalformedError);
        }
        let code = read_u32_be(buf, 1);
        Ok(Packet::ErrorPacket { code })
    } else if st == 0x10 {
        if n < 161 {
            return Err(MalformedError);
        }
        let ghost region = buf@.subrange(1, 129);
        let mut j: usize = 1;
        while j < 129 && buf[j] != 0
            invariant
                1 <= j <= 129,
                n == buf@.len(),
                n >= 161,
                forall|i: int| 1 <= i < j ==> buf@[i] != 0,
            decreases 129 - j,
        {
            j = j + 1;
        }
        proof {
            assert(forall|i: int| 0 <= i < 128 ==> region[i] == buf@[i + 1]);
        }
        if j == 129 {
            proof {
                lemma_find_zero_props(region);
                let k = find_zero(region);
                if k >= 0 {
                    assert(region[k] == 0);
                    assert(buf@[k + 1] == 0);
                }
            }
            return Err(MalformedError);
        }
        proof {
            assert(region[j - 1] == buf@[j as int]);
            lemma_find_zero_at(region, j as int - 1);
        }
        let name = copy_range(buf, 1, j);
        let total_blocks = read_u64_be(buf, 129);
        let final_block_size = read_u16_be(buf, 137);
        proof {
            assert(buf@.subrange(1, j as int) =~= region.take(j as int - 1));
        }
        Ok(Packet::FileMeta { name, total_blocks, final_block_size })
    } else if st == 0x11 {
        if n < 4096 {
            return Err(MalformedError);
        }
        let seq_no = read_u64_be(buf, 1);
        let payload = copy_range(buf, 9, 4096);
        Ok(Packet::FileData { seq_no, payload })
    } else if st == 0x12 {
        if n < 10 || n > 4096 {
            return Err(MalformedError);
        }
        let seq_no = read_u64_be(buf, 1);
        let payload = copy_range(buf, 9, n);
        Ok(Packet::FileComplete { seq_no, payload })
    } else {
        Ok(Packet::UnknownStatus { status: st })
    }
}

// ---------------------------------------------------------------------------
// Digest and name extraction
// ---------------------------------------------------------------------------

/// The SHA-256 digest of a byte sequence: a fixed function of the input
/// alone, computed by an outside library.
pub uninterp spec fn sha256_of(data: Seq<u8>) -> Seq<u8>;

/// Relies on crypto_hash::digest with the SHA-256 algorithm: the digest
/// depends on the input bytes alone and is 256 bits (32 bytes) long.
#[verifier::external_body]
fn sha256_call(data: &[u8]) -> (r: Vec<u8>)
    ensures
        r@ == sha256_of(data@),
        r@.len() == 32,
{
    crypto_hash::digest(crypto_hash::Algorithm::SHA256, data)
}

/// The SHA-256 digest of `data`, as the protocol's 32-byte content hash.
pub fn sha256_digest(data: &[u8]) -> (r: Vec<u8>)
    ensures
        r@ == sha256_of(data@),
        r@.len() == 32,
{
    sha256_call(data)
}

/// The characters that a byte sequence yields under lossy UTF-8 conversion:
/// a fixed function of the bytes alone.
pub uninterp spec fn lossy_utf8_of(bytes: Seq<u8>) -> Seq<char>;

/// Relies on String::from_utf8_lossy: the result depends on the bytes alone.
#[verifier::external_body]
fn lossy_utf8(bytes: &[u8]) -> (r: String)
    ensures
        r@ == lossy_utf8_of(bytes@),
{
    String::from_utf8_lossy(bytes).into_owned()
}

/// The text before the first zero byte of `buf`, read as UTF-8 with lossy
/// conversion; how a received buffer yields the requested file name.
pub fn string_from_buffer(buf: &[u8]) -> (r: String)
    requires
        find_zero(buf@) >= 0,
    ensures
        r@ == lossy_utf8_of(buf@.take(find_zero(buf@))),
{
    let n = buf.len();
    let mut j: usize = 0;
    proof {
        lemma_find_zero_props(buf@);
    }
    while buf[j] != 0
        invariant
            0 <= j <= find_zero(buf@) < buf@.len(),
            buf@[find_zero(buf@)] == 0,
            n == buf@.len(),
            forall|i: int| 0 <= i < j ==> buf@[i] != 0,
        decreases n - j,
    {
        j = j + 1;
    }
    proof {
        lemma_find_zero_at(buf@, j as int);
    }
    lossy_utf8(vstd::slice::slice_subrange(buf, 0, j))
}


/// Whether a byte name fits the wire format: at most 127 bytes, none zero.
pub fn name_ok(name: &Vec<u8>) -> (r: bool)
    ensures
        r == crate::protocol::valid_name(name@),
{
    if name.len() > 127 {
        return false;
    }
    let mut i: usize = 0;
    while i < name.len()
        invariant
            i <= name@.len(),
            forall|t: int| 0 <= t < i ==> name@[t] != 0,
        decreases name@.len() - i,
    {
        if name[i] == 0 {
            proof {
                assert(name@[i as int] == 0);
            }
            return false;
        }
        i = i + 1;
    }
    true
}

/// Runtime check of the encoder's well-formedness condition, for callers
/// outside the proof.
pub fn packet_wf(p: &Packet) -> (r: bool)
    ensures
        r == p@.wf(),
{
    match p {
        Packet::FileRequest { name } => name_ok(name),
        Packet::FileMeta { name, total_blocks, final_block_size } => name_ok(name)
            && *total_blocks >= 1 && *final_block_size >= 1
            && (*final_block_size as usize) <= crate::protocol::UFT_DATA_SIZE,
        Packet::MetaReceived { digest } => digest.len() == 32,
        Packet::FileData { payload, .. } => payload.len() == crate::protocol::UFT_DATA_SIZE,
        Packet::FileComplete { payload, .. } => 1 <= payload.len()
            && payload.len() <= crate::protocol::UFT_DATA_SIZE,
        Packet::BlockRequest { missing } => missing.len() <= 511,
        Packet::FileReceived => true,
        Packet::HashValid { digest } => digest.len() == 32,
        Packet::ErrorPacket { .. } => true,
        Packet::UnknownStatus { .. } => false,
    }
}

} // verus!
