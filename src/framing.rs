//! Host/guest back-channel framing: an unsigned 64-bit big-endian length
//! followed by that many bytes, and the fixed `ready` handshake.
use vstd::prelude::*;
use vstd::arithmetic::div_mod::lemma_mod_breakdown;
use vstd::utf8::encode_utf8;

verus! {

/// Number of bytes of a frame's length header.
pub const HEADER_LEN: usize = 8;

/// Number of bytes of the guest's handshake.
pub const HANDSHAKE_LEN: usize = 5;

/// `256` raised to `k`.
pub open spec fn pow256(k: nat) -> nat
    decreases k,
{
    if k == 0 {
        1
    } else {
        256 * pow256((k - 1) as nat)
    }
}

/// The number that the bytes `b` spell in big-endian order.
pub open spec fn be_to_nat(b: Seq<u8>) -> nat
    decreases b.len(),
{
    if b.len() == 0 {
        0
    } else {
        be_to_nat(b.drop_last()) * 256 + b.last() as nat
    }
}

/// The `k` low-order bytes of `n`, most significant first.
pub open spec fn be_bytes(n: nat, k: nat) -> Seq<u8>
    decreases k,
{
    if k == 0 {
        Seq::empty()
    } else {
        be_bytes(n / 256, (k - 1) as nat).push((n % 256) as u8)
    }
}

/// A frame carrying `p`: its length in eight big-endian bytes, then `p`.
pub open spec fn frame(p: Seq<u8>) -> Seq<u8> {
    be_bytes(p.len(), 8) + p
}

/// The payload of the frame `b`, if `b` is one frame exactly.
pub open spec fn unframe(b: Seq<u8>) -> Option<Seq<u8>> {
    if b.len() >= 8 && be_to_nat(b.subrange(0, 8)) == b.len() - 8 {
        Some(b.subrange(8, b.len() as int))
    } else {
        None
    }
}

/// The UTF-8 bytes of the characters `s`.
pub open spec fn utf8_of(s: Seq<char>) -> Seq<u8> {
    encode_utf8(s)
}

/// The bytes the guest sends once it is up: ASCII `ready`.
pub open spec fn ready_bytes() -> Seq<u8> {
    seq![114u8, 101u8, 97u8, 100u8, 121u8]
}

proof fn lemma_pow256_positive(k: nat)
    ensures
        pow256(k) >= 1,
    decreases k,
{
    if k > 0 {
        lemma_pow256_positive((k - 1) as nat);
    }
}

proof fn lemma_pow256_8()
    ensures
        pow256(8) == 0x1_0000_0000_0000_0000,
{
    reveal_with_fuel(pow256, 9);
}

proof fn lemma_be_bytes_len(n: nat, k: nat)
    ensures
        be_bytes(n, k).len() == k,
    decreases k,
{
    if k > 0 {
        lemma_be_bytes_len(n / 256, (k - 1) as nat);
    }
}

/// Reading back `k` bytes written from `n` gives `n` modulo `256^k`.
proof fn lemma_be_round_trip(n: nat, k: nat)
    ensures
        be_to_nat(be_bytes(n, k)) == n % pow256(k),
    decreases k,
{
    if k == 0 {
        assert(n % 1 == 0);
    } else {
        let rest = be_bytes(n / 256, (k - 1) as nat);
        lemma_be_round_trip(n / 256, (k - 1) as nat);
        assert(be_bytes(n, k).drop_last() == rest);
        lemma_pow256_positive((k - 1) as nat);
        lemma_mod_breakdown(n as int, 256, pow256((k - 1) as nat) as int);
    }
}

/// A big-endian number of `b.len()` bytes is below `256^len`.
proof fn lemma_be_bound(b: Seq<u8>)
    ensures
        be_to_nat(b) < pow256(b.len()),
    decreases b.len(),
{
    if b.len() > 0 {
        lemma_be_bound(b.drop_last());
        let x = be_to_nat(b.drop_last());
        let p = pow256((b.len() - 1) as nat);
        assert(x * 256 + b.last() < p * 256) by (nonlinear_arith)
            requires
                x < p,
                b.last() < 256,
        ;
    }
}

/// For every payload whose length fits the header, unframing a frame gives
/// the payload back.
pub proof fn lemma_frame_round_trip(p: Seq<u8>)
    requires
        p.len() <= u64::MAX,
    ensures
        unframe(frame(p)) == Some(p),
{
    let f = frame(p);
    lemma_be_bytes_len(p.len(), 8);
    assert(f.subrange(0, 8) == be_bytes(p.len(), 8));
    assert(f.subrange(8, f.len() as int) == p);
    lemma_be_round_trip(p.len(), 8);
    lemma_pow256_8();
    assert(p.len() % pow256(8) == p.len());
}

/// The eight big-endian bytes of `n`.
pub fn u64_to_be(n: u64) -> (r: Vec<u8>)
    ensures
        r@ == be_bytes(n as nat, 8),
{
    be_prefix(n, 8)
}

fn be_prefix(n: u64, k: usize) -> (r: Vec<u8>)
    requires
        k <= 8,
    ensures
        r@ == be_bytes(n as nat, k as nat),
    decreases k,
{
    if k == 0 {
        Vec::new()
    } else {
        let mut v = be_prefix(n / 256, k - 1);
        v.push((n % 256) as u8);
        v
    }
}

/// The number spelled by the eight big-endian bytes of `header`.
pub fn be_to_u64(header: &[u8]) -> (r: u64)
    requires
        header@.len() == 8,
    ensures
        r == be_to_nat(header@),
{
    let mut acc: u64 = 0;
    let mut i: usize = 0;
    while i < 8
        invariant
            0 <= i <= 8,
            header@.len() == 8,
            acc == be_to_nat(header@.subrange(0, i as int)),
        decreases 8 - i,
    {
        let ghost prefix = header@.subrange(0, i as int);
        let ghost next = header@.subrange(0, i + 1);
        assert(next.drop_last() == prefix);
        proof {
            lemma_be_bound(prefix);
            lemma_pow_mono(i as nat);
            let p = pow256(i as nat);
            assert(prefix.len() == i);
            assert(acc < p);
            assert(acc * 256 + 255 < p * 256) by (nonlinear_arith)
                requires
                    acc < p,
            ;
            lemma_pow256_8();
            assert(acc * 256 + 255 < 0x1_0000_0000_0000_0000);
        }
        acc = acc * 256 + header[i] as u64;
        i = i + 1;
    }
    assert(header@.subrange(0, 8) == header@);
    acc
}

proof fn lemma_pow_mono(i: nat)
    requires
        i < 8,
    ensures
        pow256(i) * 256 <= pow256(8),
    decreases 8 - i,
{
    lemma_pow256_8();
    if i < 7 {
        lemma_pow_mono(i + 1);
        lemma_pow256_positive(i);
        assert(pow256(i + 1) == 256 * pow256(i));
        assert(pow256(i) * 256 <= pow256(i + 1) * 256) by (nonlinear_arith)
            requires
                pow256(i + 1) == 256 * pow256(i),
                pow256(i) >= 1,
        ;
    } else {
        assert(pow256(8) == 256 * pow256(7));
    }
}

/// One frame carrying `payload`: its length as eight big-endian bytes, then the bytes.
pub fn encode_frame(payload: &[u8]) -> (r: Vec<u8>)
    requires
        payload@.len() <= u64::MAX,
    ensures
        r@ == frame(payload@),
{
    let mut out = u64_to_be(payload.len() as u64);
    let mut i: usize = 0;
    while i < payload.len()
        invariant
            0 <= i <= payload@.len(),
            out@ == be_bytes(payload@.len(), 8) + payload@.subrange(0, i as int),
        decreases payload@.len() - i,
    {
        out.push(payload[i]);
        i = i + 1;
        assert(out@ == be_bytes(payload@.len(), 8) + payload@.subrange(0, i as int));
    }
    assert(payload@.subrange(0, payload@.len() as int) == payload@);
    out
}

/// The payload of `bytes` if they are exactly one frame, `None` otherwise.
pub fn decode_frame(bytes: &[u8]) -> (r: Option<Vec<u8>>)
    ensures
        r matches Some(p) ==> unframe(bytes@) == Some(p@),
        r is None ==> unframe(bytes@) is None,
{
    if bytes.len() < 8 {
        return None;
    }
    let mut header: Vec<u8> = Vec::new();
    let mut i: usize = 0;
    while i < 8
        invariant
            0 <= i <= 8,
            bytes@.len() >= 8,
            header@ == bytes@.subrange(0, i as int),
        decreases 8 - i,
    {
        header.push(bytes[i]);
        i = i + 1;
    }
    let len = be_to_u64(header.as_slice());
    if len != (bytes.len() - 8) as u64 {
        return None;
    }
    let mut body: Vec<u8> = Vec::new();
    let mut j: usize = 8;
    while j < bytes.len()
        invariant
            8 <= j <= bytes@.len(),
            body@ == bytes@.subrange(8, j as int),
        decreases bytes@.len() - j,
    {
        body.push(bytes[j]);
        j = j + 1;
    }
    Some(body)
}

/// The frame the host writes to a freshly started guest: the payload's bytes,
/// or, without a payload, a zero length and nothing else.
pub fn payload_frame(payload: &Option<String>) -> (r: Vec<u8>)
    requires
        payload matches Some(s) ==> utf8_of(s@).len() <= u64::MAX,
    ensures
        payload matches Some(s) ==> r@ == frame(utf8_of(s@)),
        payload is None ==> r@ == frame(Seq::empty()),
{
    match payload {
        Some(s) => encode_frame(s.as_str().as_bytes()),
        None => {
            let empty: Vec<u8> = Vec::new();
            encode_frame(empty.as_slice())
        },
    }
}

/// Whether the guest's first five bytes are exactly the handshake.
pub fn is_ready(buf: &[u8]) -> (r: bool)
    ensures
        r == (buf@ == ready_bytes()),
{
    let expected: [u8; 5] = [114u8, 101u8, 97u8, 100u8, 121u8];
    if buf.len() != 5 {
        return false;
    }
    let mut i: usize = 0;
    while i < 5
        invariant
            0 <= i <= 5,
            buf@.len() == 5,
            expected@ == ready_bytes(),
            forall|k: int| 0 <= k < i ==> buf@[k] == ready_bytes()[k],
        decreases 5 - i,
    {
        if buf[i] != expected[i] {
            return false;
        }
        i = i + 1;
    }
    assert(buf@ == ready_bytes());
    true
}

} // verus!
