//! Big-endian byte encoding of unsigned integers, as used on the wire.
use vstd::prelude::*;

verus! {

/// `256^n`.
pub open spec fn pow256(n: nat) -> nat
    decreases n,
{
    if n == 0 {
        1
    } else {
        256 * pow256((n - 1) as nat)
    }
}

/// The `n` low-order bytes of `v`, most significant first.
pub open spec fn be_encode(v: nat, n: nat) -> Seq<u8>
    decreases n,
{
    if n == 0 {
        Seq::empty()
    } else {
        be_encode(v / 256, (n - 1) as nat).push((v % 256) as u8)
    }
}

/// The number that the bytes `s` denote, most significant first.
pub open spec fn be_decode(s: Seq<u8>) -> nat
    decreases s.len(),
{
    if s.len() == 0 {
        0
    } else {
        be_decode(s.drop_last()) * 256 + s.last() as nat
    }
}

pub proof fn lemma_pow256_pos(n: nat)
    ensures
        pow256(n) >= 1,
    decreases n,
{
    if n > 0 {
        lemma_pow256_pos((n - 1) as nat);
    }
}

pub proof fn lemma_be_encode_len(v: nat, n: nat)
    ensures
        be_encode(v, n).len() == n,
    decreases n,
{
    if n > 0 {
        lemma_be_encode_len(v / 256, (n - 1) as nat);
    }
}

pub proof fn lemma_be_decode_bound(s: Seq<u8>)
    ensures
        be_decode(s) < pow256(s.len()),
    decreases s.len(),
{
    if s.len() > 0 {
        let d = be_decode(s.drop_last());
        let p = pow256((s.len() - 1) as nat);
        lemma_be_decode_bound(s.drop_last());
        let l = s.last() as nat;
        assert(d * 256 + l < 256 * p) by (nonlinear_arith)
            requires
                d < p,
                l < 256,
        ;
    }
}

/// Decoding the encoding of `v` in `n` bytes gives `v` modulo `256^n`.
pub proof fn lemma_decode_encode(v: nat, n: nat)
    ensures
        be_decode(be_encode(v, n)) == v % pow256(n),
    decreases n,
{
    if n == 0 {
    } else {
        let m = pow256((n - 1) as nat);
        lemma_pow256_pos((n - 1) as nat);
        lemma_decode_encode(v / 256, (n - 1) as nat);
        let s = be_encode(v, n);
        assert(s.drop_last() =~= be_encode(v / 256, (n - 1) as nat));
        assert(((v / 256) % m) * 256 + v % 256 == v % (256 * m)) by (nonlinear_arith)
            requires
                m >= 1,
        {
            vstd::arithmetic::div_mod::lemma_mod_breakdown(v as int, 256, m as int);
        }
    }
}

/// Encoding the number that `s` denotes, in as many bytes as `s` has, gives `s` back.
/// Writing `v` in `n + m` bytes writes its high part in the first `n` bytes
/// and its low `m` bytes after them.
pub proof fn lemma_be_encode_split(v: nat, n: nat, m: nat)
    ensures
        be_encode(v, n + m) == be_encode(v / pow256(m), n) + be_encode(v % pow256(m), m),
    decreases m,
{
    if m == 0 {
        assert(pow256(0) == 1);
        assert(v / 1 == v) by (nonlinear_arith);
        assert(be_encode(v % pow256(m), m) =~= Seq::<u8>::empty());
        assert(be_encode(v, n + m) =~= be_encode(v / pow256(m), n) + be_encode(v % pow256(m), m));
    } else {
        let p = pow256((m - 1) as nat);
        lemma_pow256_pos((m - 1) as nat);
        lemma_be_encode_split(v / 256, n, (m - 1) as nat);
        let q = v / 256;
        let r = v % 256;
        let a = q / p;
        let b = q % p;
        assert(v == 256 * q + r && r < 256) by (nonlinear_arith)
            requires
                q == v / 256,
                r == v % 256,
        ;
        assert(q == p * a + b && b < p) by (nonlinear_arith)
            requires
                p >= 1,
                a == q / p,
                b == q % p,
        ;
        assert(v == (256 * p) * a + (256 * b + r)) by (nonlinear_arith)
            requires
                v == 256 * q + r,
                q == p * a + b,
        ;
        assert(256 * b + r < 256 * p) by (nonlinear_arith)
            requires
                b < p,
                r < 256,
        ;
        assert(v / (256 * p) == a && v % (256 * p) == 256 * b + r) by (nonlinear_arith)
            requires
                v == (256 * p) * a + (256 * b + r),
                256 * b + r < 256 * p,
                p >= 1,
                0 <= 256 * b + r,
        ;
        assert((256 * b + r) / 256 == b && (256 * b + r) % 256 == r) by (nonlinear_arith)
            requires
                r < 256,
        ;
        assert(pow256(m) == 256 * p);
        assert(be_encode(v % pow256(m), m) =~= be_encode(b, (m - 1) as nat).push(r as u8));
        assert(be_encode(v, n + m) =~= be_encode(q, (n + m - 1) as nat).push(r as u8));
        assert((n + m - 1) as nat == n + (m - 1) as nat);
        assert(be_encode(v, n + m) =~= be_encode(v / pow256(m), n) + be_encode(v % pow256(m), m));
    }
}

/// A number below `256^8` written in sixteen bytes is eight zero bytes and
/// then its eight-byte encoding.
pub proof fn lemma_be_encode_wide(v: nat)
    requires
        v < pow256(8),
    ensures
        be_encode(v, 16) == Seq::new(8, |i: int| 0u8) + be_encode(v, 8),
{
    lemma_be_encode_split(v, 8, 8);
    lemma_pow256_pos(8);
    assert(v / pow256(8) == 0 && v % pow256(8) == v) by (nonlinear_arith)
        requires
            v < pow256(8),
    ;
    lemma_be_encode_zero(8);
}

/// Zero written in `n` bytes is `n` zero bytes.
pub proof fn lemma_be_encode_zero(n: nat)
    ensures
        be_encode(0, n) == Seq::new(n, |i: int| 0u8),
    decreases n,
{
    if n > 0 {
        lemma_be_encode_zero((n - 1) as nat);
        assert(be_encode(0, n) =~= Seq::new(n, |i: int| 0u8));
    }
}

pub proof fn lemma_encode_decode(s: Seq<u8>)
    ensures
        be_encode(be_decode(s), s.len()) == s,
    decreases s.len(),
{
    if s.len() > 0 {
        let d = be_decode(s.drop_last());
        let l = s.last() as nat;
        lemma_encode_decode(s.drop_last());
        assert((d * 256 + l) / 256 == d && (d * 256 + l) % 256 == l) by (nonlinear_arith)
            requires
                l < 256,
        ;
        assert(be_encode(be_decode(s), s.len()) =~= s.drop_last().push(s.last()));
        assert(s.drop_last().push(s.last()) =~= s);
    }
}

pub proof fn lemma_pow256_values()
    ensures
        pow256(1) == 0x100,
        pow256(2) == 0x1_0000,
        pow256(3) == 0x100_0000,
        pow256(4) == 0x1_0000_0000,
        pow256(7) == 0x100_0000_0000_0000,
        pow256(8) == 0x1_0000_0000_0000_0000,
{
    reveal_with_fuel(pow256, 9);
}

/// Writes the `n` low-order bytes of `value`, most significant first, at `offset`.
pub fn write_be(buf: &mut [u8], offset: usize, value: u64, n: usize)
    requires
        offset + n <= old(buf)@.len(),
    ensures
        final(buf)@.len() == old(buf)@.len(),
        final(buf)@ =~= old(buf)@.subrange(0, offset as int) + be_encode(value as nat, n as nat)
            + old(buf)@.subrange((offset + n) as int, old(buf)@.len() as int),
{
    let len = buf.len();
    let ghost full = be_encode(value as nat, n as nat);
    let ghost suffix: Seq<u8> = Seq::empty();
    let mut cur: u64 = value;
    let mut k: usize = n;
    while k > 0
        invariant
            k <= n,
            offset + n <= len,
            len == buf@.len(),
            buf@.len() == old(buf)@.len(),
            full == be_encode(cur as nat, k as nat) + suffix,
            suffix.len() == n - k,
            forall|i: int| 0 <= i < offset + k ==> buf@[i] == old(buf)@[i],
            forall|i: int| offset + n <= i < buf@.len() ==> buf@[i] == old(buf)@[i],
            forall|i: int| 0 <= i < n - k ==> buf@[offset + k + i] == suffix[i],
        decreases k,
    {
        let b: u8 = (cur % 256) as u8;
        k = k - 1;
        buf[offset + k] = b;
        proof {
            let kk = (k + 1) as nat;
            assert(be_encode(cur as nat, kk) == be_encode((cur / 256) as nat, k as nat).push(b));
            assert(be_encode(cur as nat, kk) + suffix =~= be_encode((cur / 256) as nat, k as nat)
                + (seq![b] + suffix));
            suffix = seq![b] + suffix;
        }
        cur = cur / 256;
    }
    proof {
        assert(be_encode(cur as nat, 0) =~= Seq::<u8>::empty());
        assert(full =~= suffix);
        lemma_be_encode_len(value as nat, n as nat);
    }
}

/// Reads `n` bytes at `offset` as a big-endian number.
pub fn read_be(buf: &[u8], offset: usize, n: usize) -> (r: u64)
    requires
        offset + n <= buf@.len(),
        n <= 8,
    ensures
        r as nat == be_decode(buf@.subrange(offset as int, (offset + n) as int)),
{
    let len = buf.len();
    let mut acc: u64 = 0;
    let mut i: usize = 0;
    proof {
        lemma_pow256_values();
    }
    while i < n
        invariant
            i <= n,
            n <= 8,
            offset + n <= len,
            len == buf@.len(),
            acc as nat == be_decode(buf@.subrange(offset as int, (offset + i) as int)),
            pow256(8) == 0x1_0000_0000_0000_0000,
        decreases n - i,
    {
        let ghost prefix = buf@.subrange(offset as int, (offset + i) as int);
        let ghost next = buf@.subrange(offset as int, (offset + i + 1) as int);
        proof {
            assert(next.drop_last() =~= prefix);
            lemma_be_decode_bound(next);
            lemma_pow256_mono(next.len(), 8);
        }
        acc = acc * 256 + buf[offset + i] as u64;
        i = i + 1;
    }
    acc
}

pub proof fn lemma_pow256_mono(a: nat, b: nat)
    requires
        a <= b,
    ensures
        pow256(a) <= pow256(b),
    decreases b,
{
    if a < b {
        lemma_pow256_mono(a, (b - 1) as nat);
        lemma_pow256_pos((b - 1) as nat);
    }
}

/// Copies all of `src` into `buf` at `offset`.
pub fn copy_into(buf: &mut [u8], offset: usize, src: &[u8])
    requires
        offset + src@.len() <= old(buf)@.len(),
    ensures
        final(buf)@.len() == old(buf)@.len(),
        final(buf)@ =~= old(buf)@.subrange(0, offset as int) + src@
            + old(buf)@.subrange((offset + src@.len()) as int, old(buf)@.len() as int),
{
    let len = buf.len();
    let n = src.len();
    let mut i: usize = 0;
    while i < n
        invariant
            i <= n,
            n == src@.len(),
            offset + n <= len,
            len == buf@.len(),
            buf@.len() == old(buf)@.len(),
            forall|j: int| 0 <= j < offset ==> buf@[j] == old(buf)@[j],
            forall|j: int| offset + n <= j < len ==> buf@[j] == old(buf)@[j],
            forall|j: int| 0 <= j < i ==> buf@[offset + j] == src@[j],
        decreases n - i,
    {
        buf[offset + i] = src[i];
        i = i + 1;
    }
}

/// Writes `count` zero bytes at `offset`.
pub fn fill_zero(buf: &mut [u8], offset: usize, count: usize)
    requires
        offset + count <= old(buf)@.len(),
    ensures
        final(buf)@.len() == old(buf)@.len(),
        final(buf)@ =~= old(buf)@.subrange(0, offset as int) + Seq::new(count as nat, |i: int| 0u8)
            + old(buf)@.subrange((offset + count) as int, old(buf)@.len() as int),
{
    let len = buf.len();
    let mut i: usize = 0;
    while i < count
        invariant
            i <= count,
            offset + count <= len,
            len == buf@.len(),
            buf@.len() == old(buf)@.len(),
            forall|j: int| 0 <= j < offset ==> buf@[j] == old(buf)@[j],
            forall|j: int| offset + count <= j < len ==> buf@[j] == old(buf)@[j],
            forall|j: int| offset <= j < offset + i ==> #[trigger] buf@[j] == 0u8,
        decreases count - i,
    {
        buf[offset + i] = 0;
        i = i + 1;
    }
}

/// The `n` bytes of `buf` at `offset`, as a new vector.
pub fn read_bytes(buf: &[u8], offset: usize, n: usize) -> (r: Vec<u8>)
    requires
        offset + n <= buf@.len(),
    ensures
        r@ =~= buf@.subrange(offset as int, (offset + n) as int),
{
    let len = buf.len();
    let mut r: Vec<u8> = Vec::with_capacity(n);
    let mut i: usize = 0;
    while i < n
        invariant
            i <= n,
            offset + n <= len,
            len == buf@.len(),
            r@ =~= buf@.subrange(offset as int, (offset + i) as int),
        decreases n - i,
    {
        r.push(buf[offset + i]);
        i = i + 1;
    }
    r
}

/// The `n` low-order bytes of `value`, most significant first.
pub fn encode_be(value: u64, n: usize) -> (r: Vec<u8>)
    ensures
        r@ == be_encode(value as nat, n as nat),
{
    let mut v: Vec<u8> = vec![0u8; n];
    write_be(v.as_mut_slice(), 0, value, n);
    proof {
        lemma_be_encode_len(value as nat, n as nat);
    }
    v
}

/// Appends the `n` low-order bytes of `value`, most significant first.
pub fn push_be(out: &mut Vec<u8>, value: u64, n: usize)
    ensures
        final(out)@ == old(out)@ + be_encode(value as nat, n as nat),
        final(out)@.len() == old(out)@.len() + n,
{
    proof {
        lemma_be_encode_len(value as nat, n as nat);
    }
    let mut e = encode_be(value, n);
    out.append(&mut e);
}

/// The 64 bytes of `buf` at `offset`.
pub fn read_array64(buf: &[u8], offset: usize) -> (r: [u8; 64])
    requires
        offset + 64 <= buf@.len(),
    ensures
        r@ =~= buf@.subrange(offset as int, offset + 64),
{
    let len = buf.len();
    let mut a = [0u8; 64];
    let mut i: usize = 0;
    while i < 64
        invariant
            i <= 64,
            offset + 64 <= len,
            len == buf@.len(),
            a@.len() == 64,
            forall|j: int| 0 <= j < i ==> a@[j] == buf@[offset + j],
        decreases 64 - i,
    {
        a[i] = buf[offset + i];
        i = i + 1;
    }
    a
}

/// The 32 bytes of `buf` at `offset`.
pub fn read_array32(buf: &[u8], offset: usize) -> (r: [u8; 32])
    requires
        offset + 32 <= buf@.len(),
    ensures
        r@ =~= buf@.subrange(offset as int, offset + 32),
{
    let len = buf.len();
    let mut a = [0u8; 32];
    let mut i: usize = 0;
    while i < 32
        invariant
            i <= 32,
            offset + 32 <= len,
            len == buf@.len(),
            a@.len() == 32,
            forall|j: int| 0 <= j < i ==> a@[j] == buf@[offset + j],
        decreases 32 - i,
    {
        a[i] = buf[offset + i];
        i = i + 1;
    }
    a
}

/// Appends all of `src`.
pub fn push_slice(out: &mut Vec<u8>, src: &[u8])
    ensures
        final(out)@ == old(out)@ + src@,
{
    let n = src.len();
    let mut i: usize = 0;
    let ghost start = out@;
    while i < n
        invariant
            i <= n,
            n == src@.len(),
            out@ =~= start + src@.subrange(0, i as int),
        decreases n - i,
    {
        out.push(src[i]);
        i = i + 1;
    }
    proof {
        assert(src@.subrange(0, n as int) =~= src@);
    }
}


/// `n` zero bytes.
pub open spec fn zeros(n: nat) -> Seq<u8> {
    Seq::new(n, |i: int| 0u8)
}

/// Appends `n` zero bytes.
pub fn push_zeros(out: &mut Vec<u8>, n: usize)
    ensures
        final(out)@ == old(out)@ + zeros(n as nat),
{
    let mut i: usize = 0;
    let ghost start = out@;
    while i < n
        invariant
            i <= n,
            out@ =~= start + zeros(i as nat),
        decreases n - i,
    {
        out.push(0u8);
        i = i + 1;
    }
}


/// The 16 bytes of `buf` at `offset`.
pub fn read_array16(buf: &[u8], offset: usize) -> (r: [u8; 16])
    requires
        offset + 16 <= buf@.len(),
    ensures
        r@ =~= buf@.subrange(offset as int, offset + 16),
{
    let len = buf.len();
    let mut a = [0u8; 16];
    let mut i: usize = 0;
    while i < 16
        invariant
            i <= 16,
            offset + 16 <= len,
            len == buf@.len(),
            a@.len() == 16,
            forall|j: int| 0 <= j < i ==> a@[j] == buf@[offset + j],
        decreases 16 - i,
    {
        a[i] = buf[offset + i];
        i = i + 1;
    }
    a
}

/// The `n` bytes of `buf` at `offset`, followed by zeros up to 16 bytes.
pub fn padded16(buf: &[u8], offset: usize, n: usize) -> (r: [u8; 16])
    requires
        n <= 16,
        offset + n <= buf@.len(),
    ensures
        r@ =~= buf@.subrange(offset as int, offset + n) + zeros((16 - n) as nat),
{
    let len = buf.len();
    let mut a = [0u8; 16];
    let mut i: usize = 0;
    while i < n
        invariant
            i <= n,
            n <= 16,
            offset + n <= len,
            len == buf@.len(),
            a@.len() == 16,
            forall|j: int| 0 <= j < i ==> a@[j] == buf@[offset + j],
            forall|j: int| n <= j < 16 ==> a@[j] == 0u8,
        decreases n - i,
    {
        a[i] = buf[offset + i];
        i = i + 1;
    }
    a
}

/// The `n` bytes of `buf` at `offset`, followed by zeros up to 32 bytes.
pub fn padded32(buf: &[u8], offset: usize, n: usize) -> (r: [u8; 32])
    requires
        n <= 32,
        offset + n <= buf@.len(),
    ensures
        r@ =~= buf@.subrange(offset as int, offset + n) + zeros((32 - n) as nat),
{
    let len = buf.len();
    let mut a = [0u8; 32];
    let mut i: usize = 0;
    while i < n
        invariant
            i <= n,
            n <= 32,
            offset + n <= len,
            len == buf@.len(),
            a@.len() == 32,
            forall|j: int| 0 <= j < i ==> a@[j] == buf@[offset + j],
            forall|j: int| n <= j < 32 ==> a@[j] == 0u8,
        decreases n - i,
    {
        a[i] = buf[offset + i];
        i = i + 1;
    }
    a
}

} // verus!
