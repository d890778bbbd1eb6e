//! The data unit: a byte buffer with bounds-checked access to bit fields,
//! byte spans and big-endian unsigned integers, whatever owns the bytes.
use crate::exception::{raise, ErrorKind, Exception};
use crate::text::{hex2, hex4, hex_char, push_char, push_hex2};
use vstd::arithmetic::div_mod::{lemma_div_denominator, lemma_fundamental_div_mod};
use vstd::prelude::*;

verus! {

// ---------------------------------------------------------------------------
// the mathematical model
// ---------------------------------------------------------------------------

/// 256 to the power of `n`.
pub open spec fn pow256(n: nat) -> nat
    decreases n,
{
    if n == 0 {
        1
    } else {
        256 * pow256((n - 1) as nat)
    }
}

/// The unsigned number that a byte sequence holds, most significant byte first.
pub open spec fn be_value(s: Seq<u8>) -> nat
    decreases s.len(),
{
    if s.len() == 0 {
        0
    } else {
        be_value(s.drop_last()) * 256 + s.last() as nat
    }
}

/// Byte number `k` of `v`, counted from the least significant byte.
pub open spec fn byte_of(v: nat, k: nat) -> u8 {
    ((v / pow256(k)) % 256) as u8
}

/// The `n` low bytes of `v`, most significant byte first.
pub open spec fn be_bytes(v: nat, n: nat) -> Seq<u8> {
    Seq::new(n, |i: int| byte_of(v, (n - 1 - i) as nat))
}

/// `data` with the bytes from `pos` on replaced by `bytes`.
pub open spec fn splice(data: Seq<u8>, pos: int, bytes: Seq<u8>) -> Seq<u8> {
    data.take(pos) + bytes + data.skip(pos + bytes.len())
}

/// `data` cut to `n` bytes, or extended to `n` bytes with zeros.
pub open spec fn resized(data: Seq<u8>, n: nat) -> Seq<u8> {
    if n <= data.len() {
        data.take(n as int)
    } else {
        data + Seq::new((n - data.len()) as nat, |i: int| 0u8)
    }
}

/// Index of the byte that holds bit `pos` (bit 0 is the most significant bit of byte 0).
pub open spec fn first_byte(pos: int) -> int {
    pos / 8
}

/// Index of the byte that holds the last bit of the field.
pub open spec fn last_byte(pos: int, len: int) -> int {
    (pos + len - 1) / 8
}

/// Number of bytes that the field touches.
pub open spec fn window_len(pos: int, len: int) -> nat {
    (last_byte(pos, len) - first_byte(pos) + 1) as nat
}

/// Number of bits that follow the field in its last byte.
pub open spec fn tail_bits(pos: int, len: int) -> u64 {
    (7 - (pos + len - 1) % 8) as u64
}

/// The `len` lowest bits set.
pub open spec fn low_mask(len: u64) -> u64 {
    ((1u64 << len) - 1) as u64
}

/// The bytes that the field touches, read as one big-endian number.
pub open spec fn window_value(data: Seq<u8>, pos: int, len: int) -> u64 {
    be_value(data.subrange(first_byte(pos), last_byte(pos, len) + 1)) as u64
}

/// The `len` bits of `w` that lie `shift` bits above its least significant bit.
pub open spec fn field_of(w: u64, shift: u64, len: u64) -> u64 {
    (w >> shift) & low_mask(len)
}

/// `w` with the `len` bits that lie `shift` bits above its least significant bit replaced by `v`.
pub open spec fn with_field(w: u64, shift: u64, len: u64, v: u64) -> u64 {
    (w & !(low_mask(len) << shift)) | (v << shift)
}

/// The value of the `len` bits that start at bit `pos`, most significant bit first.
pub open spec fn bit_field(data: Seq<u8>, pos: int, len: int) -> u64 {
    field_of(window_value(data, pos, len), tail_bits(pos, len), len as u64)
}

/// `data` with the `len` bits that start at bit `pos` replaced by `v`.
pub open spec fn set_bit_field(data: Seq<u8>, pos: int, len: int, v: u64) -> Seq<u8> {
    splice(
        data,
        first_byte(pos),
        be_bytes(
            with_field(window_value(data, pos, len), tail_bits(pos, len), len as u64, v) as nat,
            window_len(pos, len),
        ),
    )
}

/// A bit field of 1 to 32 bits that lies inside a buffer of `size` bytes.
pub open spec fn bit_span_ok(size: int, pos: int, len: int) -> bool {
    1 <= len <= 32 && pos + len <= size * 8
}


/// The number of bytes that a dump shows.
pub const DUMP_LIMIT: usize = 65536;

/// How a byte shows in the character column of a dump.
pub open spec fn dump_char(b: u8) -> char {
    if b < 32 || b > 127 {
        '.'
    } else {
        b as char
    }
}

/// The hexadecimal cells of `n` bytes from `start` on, each followed by a space.
pub open spec fn hex_cells(data: Seq<u8>, start: int, n: nat) -> Seq<char>
    decreases n,
{
    if n == 0 {
        Seq::empty()
    } else {
        hex_cells(data, start, (n - 1) as nat) + hex2(data[start + n - 1]) + seq![' ']
    }
}

/// The characters of `n` bytes from `start` on.
pub open spec fn char_cells(data: Seq<u8>, start: int, n: nat) -> Seq<char>
    decreases n,
{
    if n == 0 {
        Seq::empty()
    } else {
        char_cells(data, start, (n - 1) as nat).push(dump_char(data[start + n - 1]))
    }
}

/// Three spaces for each of `n` missing cells.
pub open spec fn padding(n: nat) -> Seq<char>
    decreases n,
{
    if n == 0 {
        Seq::empty()
    } else {
        padding((n - 1) as nat) + seq![' ', ' ', ' ']
    }
}

/// One line of a dump: a line break, the offset, the hexadecimal cells of up to
/// 16 bytes, padding for missing cells, and the characters.
pub open spec fn dump_line(data: Seq<u8>, start: int, n: nat) -> Seq<char> {
    seq!['\n'] + hex4(start) + seq![' '] + hex_cells(data, start, n) + padding((16 - n) as nat)
        + char_cells(data, start, n)
}

/// The first `k` lines of a dump of the first `len` bytes.
pub open spec fn dump_lines(data: Seq<u8>, len: int, k: nat) -> Seq<char>
    decreases k,
{
    if k == 0 {
        Seq::empty()
    } else {
        let start = 16 * (k - 1);
        dump_lines(data, len, (k - 1) as nat) + dump_line(
            data,
            start,
            (if len - start < 16 { len - start } else { 16 }) as nat,
        )
    }
}

/// The dump of a buffer: `EMPTY`, or one line for every 16 of its first 65536 bytes.
pub open spec fn dump_text(data: Seq<u8>) -> Seq<char> {
    if data.len() == 0 {
        seq!['E', 'M', 'P', 'T', 'Y']
    } else {
        let len = if data.len() > DUMP_LIMIT { DUMP_LIMIT as int } else { data.len() as int };
        dump_lines(data, len, ((len + 15) / 16) as nat)
    }
}

/// Appends the line of `n` bytes from `start` on.
fn push_dump_line(ret: &mut String, data: &[u8], start: usize, n: usize)
    requires
        1 <= n <= 16,
        start + n <= data@.len(),
        start < DUMP_LIMIT,
    ensures
        final(ret)@ == old(ret)@ + dump_line(data@, start as int, n as nat),
{
    let ghost before = ret@;
    push_char(ret, '\n');
    let offset = start as u32;
    push_char(ret, hex_char((offset / 4096 % 16) as u8));
    push_char(ret, hex_char((offset / 256 % 16) as u8));
    push_char(ret, hex_char((offset / 16 % 16) as u8));
    push_char(ret, hex_char((offset % 16) as u8));
    push_char(ret, ' ');
    let ghost head = before + seq!['\n'] + hex4(start as int) + seq![' '];
    assert(ret@ =~= head);
    let mut j: usize = 0;
    while j < n
        invariant
            j <= n <= 16,
            start < DUMP_LIMIT,
            start + n <= data@.len(),
            ret@ == head + hex_cells(data@, start as int, j as nat),
        decreases n - j,
    {
        push_hex2(ret, data[start + j]);
        push_char(ret, ' ');
        j += 1;
        proof {
            assert(ret@ =~= head + hex_cells(data@, start as int, j as nat));
        }
    }
    let ghost cells = head + hex_cells(data@, start as int, n as nat);
    while j < 16
        invariant
            n <= j <= 16,
            ret@ == cells + padding((j - n) as nat),
        decreases 16 - j,
    {
        push_char(ret, ' ');
        push_char(ret, ' ');
        push_char(ret, ' ');
        j += 1;
        proof {
            assert(ret@ =~= cells + padding((j - n) as nat));
        }
    }
    let ghost padded = cells + padding((16 - n) as nat);
    let mut k: usize = 0;
    while k < n
        invariant
            k <= n <= 16,
            start < DUMP_LIMIT,
            start + n <= data@.len(),
            ret@ == padded + char_cells(data@, start as int, k as nat),
        decreases n - k,
    {
        let b = data[start + k];
        let c = if b < 32 || b > 127 {
            '.'
        } else {
            b as char
        };
        push_char(ret, c);
        k += 1;
        proof {
            assert(ret@ =~= padded + char_cells(data@, start as int, k as nat));
        }
    }
    assert(ret@ =~= before + dump_line(data@, start as int, n as nat));
}

/// What a read of the bit field at `pos`, `len` returns on `data`.
pub open spec fn bits_read(data: Seq<u8>, pos: int, len: int, r: Result<u32, Exception>) -> bool {
    match r {
        Ok(v) => bit_span_ok(data.len() as int, pos, len) && v as u64 == bit_field(data, pos, len),
        Err(e) => if len == 0 || len > 32 {
            e.kind == ErrorKind::InvalidLength
        } else {
            pos + len > data.len() * 8 && e.kind == ErrorKind::RangeError
        },
    }
}

/// What a write of `value` to the bit field at `pos`, `len` does to `before`.
pub open spec fn bits_written(
    before: Seq<u8>,
    after: Seq<u8>,
    pos: int,
    len: int,
    value: u32,
    r: Result<(), Exception>,
) -> bool {
    match r {
        Ok(_) => bit_span_ok(before.len() as int, pos, len) && value <= low_mask(len as u64)
            && after == set_bit_field(before, pos, len, value as u64),
        Err(e) => after == before && if len == 0 || len > 32 {
            e.kind == ErrorKind::InvalidLength
        } else if value > low_mask(len as u64) {
            e.kind == ErrorKind::ValueOverflow
        } else {
            pos + len > before.len() * 8 && e.kind == ErrorKind::RangeError
        },
    }
}

/// What a read of an unsigned integer of `len` (1 to `max_len`) bytes at `pos` returns on `data`.
pub open spec fn unsigned_read(data: Seq<u8>, pos: int, len: int, max_len: int, r: Result<u32, Exception>) -> bool {
    match r {
        Ok(v) => 1 <= len <= max_len && pos + len <= data.len() && v == be_value(data.subrange(pos, pos + len)),
        Err(e) => if len == 0 || len > max_len {
            e.kind == ErrorKind::InvalidLength
        } else {
            pos + len > data.len() && e.kind == ErrorKind::RangeError
        },
    }
}

/// What a write of `value` as an unsigned integer of `len` (1 to 4) bytes at `pos` does to `before`.
pub open spec fn unsigned_written(
    before: Seq<u8>,
    after: Seq<u8>,
    pos: int,
    len: int,
    value: nat,
    r: Result<(), Exception>,
) -> bool {
    match r {
        Ok(_) => 1 <= len <= 4 && pos + len <= before.len() && value < pow256(len as nat)
            && after == splice(before, pos, be_bytes(value, len as nat)),
        Err(e) => after == before && if len == 0 || len > 4 {
            e.kind == ErrorKind::InvalidLength
        } else if value >= pow256(len as nat) {
            e.kind == ErrorKind::ValueOverflow
        } else {
            pos + len > before.len() && e.kind == ErrorKind::RangeError
        },
    }
}

// ---------------------------------------------------------------------------
// lemmas
// ---------------------------------------------------------------------------

pub(crate) proof fn lemma_pow256_pos(n: nat)
    ensures
        pow256(n) > 0,
    decreases n,
{
    if n > 0 {
        lemma_pow256_pos((n - 1) as nat);
    }
}

pub(crate) proof fn lemma_pow256_small(n: nat)
    requires
        n <= 8,
    ensures
        n == 0 ==> pow256(n) == 1,
        n == 1 ==> pow256(n) == 0x100,
        n == 2 ==> pow256(n) == 0x10000,
        n == 3 ==> pow256(n) == 0x1000000,
        n == 4 ==> pow256(n) == 0x100000000,
        n == 5 ==> pow256(n) == 0x10000000000,
        n == 6 ==> pow256(n) == 0x1000000000000,
        n == 7 ==> pow256(n) == 0x100000000000000,
        n == 8 ==> pow256(n) == 0x10000000000000000,
{
    reveal_with_fuel(pow256, 9);
}

/// A byte sequence holds a number below 256 to the power of its length.
pub(crate) proof fn lemma_be_value_bound(s: Seq<u8>)
    ensures
        be_value(s) < pow256(s.len()),
    decreases s.len(),
{
    if s.len() > 0 {
        lemma_be_value_bound(s.drop_last());
        let p = pow256((s.len() - 1) as nat);
        assert(be_value(s.drop_last()) + 1 <= p);
        assert((be_value(s.drop_last()) + 1) * 256 <= p * 256) by (nonlinear_arith)
            requires
                be_value(s.drop_last()) + 1 <= p,
        ;
    }
}

/// Reading back the bytes of `v` gives `v`.
pub proof fn lemma_be_round_trip(v: nat, n: nat)
    requires
        v < pow256(n),
    ensures
        be_value(be_bytes(v, n)) == v,
    decreases n,
{
    let b = be_bytes(v, n);
    if n == 0 {
        assert(v == 0);
    } else {
        let m = (n - 1) as nat;
        lemma_pow256_pos(m);
        assert(b.drop_last() =~= be_bytes(v / 256, m)) by {
            assert forall|i: int| 0 <= i < m implies #[trigger] b.drop_last()[i] == be_bytes(
                v / 256,
                m,
            )[i] by {
                let k = (m - 1 - i) as nat;
                lemma_pow256_pos(k);
                lemma_div_denominator(v as int, 256, pow256(k) as int);
                assert(pow256((n - 1 - i) as nat) == 256 * pow256(k));
            }
        }
        assert(v / 256 < pow256(m)) by {
            lemma_fundamental_div_mod(v as int, 256);
            assert(256 * (v / 256) <= v);
            assert(v < 256 * pow256(m));
        }
        lemma_be_round_trip(v / 256, m);
        assert(pow256(0) == 1);
        assert(b.last() == b[n - 1]);
        assert(b[n - 1] == byte_of(v, 0));
        assert(v / 1 == v);
        assert(b.last() == (v % 256) as u8);
        lemma_fundamental_div_mod(v as int, 256);
    }
}

/// Extending a big-endian prefix by one byte.
proof fn lemma_be_value_extend(data: Seq<u8>, lo: int, hi: int)
    requires
        0 <= lo <= hi < data.len(),
    ensures
        be_value(data.subrange(lo, hi + 1)) == be_value(data.subrange(lo, hi)) * 256 + data[hi] as nat,
{
    assert(data.subrange(lo, hi + 1).drop_last() =~= data.subrange(lo, hi));
}

/// Dividing by one more power of 256.
pub(crate) proof fn lemma_div_pow256_step(v: nat, k: nat)
    ensures
        v / pow256(k) / 256 == v / pow256(k + 1),
{
    lemma_pow256_pos(k);
    lemma_div_denominator(v as int, pow256(k) as int, 256);
    assert(pow256(k) * 256 == pow256(k + 1));
}

// ---------------------------------------------------------------------------
// field descriptors
// ---------------------------------------------------------------------------

/// A bit field: `bit_length` bits (1 to 32) from bit `bit_pos` on.
#[derive(Clone, Copy, Debug)]
pub struct BitAccessor {
    pub bit_pos: usize,
    pub bit_length: usize,
}

/// A byte span: `byte_length` bytes from byte `byte_pos` on.
#[derive(Clone, Copy, Debug)]
pub struct ByteAccessor {
    pub byte_pos: usize,
    pub byte_length: usize,
}

/// A big-endian unsigned integer of 1 to 4 bytes at byte `byte_pos`.
#[derive(Clone, Copy, Debug)]
pub struct UnsignedAccessor {
    pub byte_pos: usize,
    pub byte_length: usize,
}

/// A big-endian unsigned integer of 1 to 8 bytes at byte `byte_pos`.
#[derive(Clone, Copy, Debug)]
pub struct BigUnsignedAccessor {
    pub byte_pos: usize,
    pub byte_length: usize,
}

// ---------------------------------------------------------------------------
// big-endian helpers on slices
// ---------------------------------------------------------------------------

/// Reads `len` bytes from `pos` on as a big-endian number.
fn read_be(buffer: &[u8], pos: usize, len: usize) -> (r: u64)
    requires
        len <= 8,
        pos + len <= buffer@.len(),
    ensures
        r as nat == be_value(buffer@.subrange(pos as int, pos + len)),
        r < pow256(len as nat),
{
    let size = buffer.len();
    assert(pos + len <= size);
    let end = pos + len;
    let mut value: u64 = 0;
    let mut next = pos;
    while next < end
        invariant
            pos <= next <= end <= buffer@.len(),
            end == pos + len,
            len <= 8,
            value as nat == be_value(buffer@.subrange(pos as int, next as int)),
        decreases end - next,
    {
        proof {
            lemma_be_value_bound(buffer@.subrange(pos as int, next as int));
            lemma_pow256_small((next - pos) as nat);
            lemma_be_value_extend(buffer@, pos as int, next as int);
        }
        value = value * 256 + buffer[next] as u64;
        next += 1;
    }
    proof {
        lemma_be_value_bound(buffer@.subrange(pos as int, end as int));
    }
    value
}

/// Writes the `len` low bytes of `value` from `pos` on, most significant byte first.
fn write_be(buffer: &mut [u8], pos: usize, len: usize, value: u64)
    requires
        len <= 8,
        pos + len <= old(buffer)@.len(),
        value < pow256(len as nat),
    ensures
        final(buffer)@ == splice(old(buffer)@, pos as int, be_bytes(value as nat, len as nat)),
{
    let size = buffer.len();
    let ghost bytes = be_bytes(value as nat, len as nat);
    let mut k: usize = 0;
    let mut rest = value;
    proof {
        assert(pow256(0) == 1);
    }
    while k < len
        invariant
            k <= len <= 8,
            pos + len <= buffer@.len(),
            buffer@.len() == old(buffer)@.len(),
            size == buffer@.len(),
            bytes == be_bytes(value as nat, len as nat),
            rest as nat == value as nat / pow256(k as nat),
            forall|j: int|
                0 <= j < buffer@.len() ==> #[trigger] buffer@[j] == (if pos + len - k <= j < pos
                    + len {
                    bytes[j - pos]
                } else {
                    old(buffer)@[j]
                }),
        decreases len - k,
    {
        let at = pos + len - 1 - k;
        buffer[at] = (rest % 256) as u8;
        proof {
            lemma_div_pow256_step(value as nat, k as nat);
            assert(bytes[at - pos] == byte_of(value as nat, k as nat));
        }
        rest = rest / 256;
        k += 1;
    }
    assert(buffer@ =~= splice(old(buffer)@, pos as int, bytes));
}

/// Whether a span of `len` bytes from `pos` on fits into a buffer of `size` bytes.
pub(crate) fn span_fits(size: usize, pos: usize, len: usize) -> (r: bool)
    ensures
        r == (pos + len <= size),
{
    pos <= size && len <= size - pos
}

proof fn lemma_fits_width(v: u64, n: u64)
    requires
        1 <= n <= 8,
        n < 8 ==> v >> (8 * n) == 0,
    ensures
        v < pow256(n as nat),
{
    lemma_pow256_small(n as nat);
    assert(v >> 8u64 == 0 ==> v < 0x100) by (bit_vector);
    assert(v >> 16u64 == 0 ==> v < 0x10000) by (bit_vector);
    assert(v >> 24u64 == 0 ==> v < 0x1000000) by (bit_vector);
    assert(v >> 32u64 == 0 ==> v < 0x100000000) by (bit_vector);
    assert(v >> 40u64 == 0 ==> v < 0x10000000000) by (bit_vector);
    assert(v >> 48u64 == 0 ==> v < 0x1000000000000) by (bit_vector);
    assert(v >> 56u64 == 0 ==> v < 0x100000000000000) by (bit_vector);
}

proof fn lemma_width_test(v: u64, n: u64)
    requires
        1 <= n < 8,
    ensures
        (v >> (8 * n) != 0) == (v >= pow256(n as nat)),
{
    lemma_pow256_small(n as nat);
    assert(v >> 8u64 != 0 <==> v >= 0x100) by (bit_vector);
    assert(v >> 16u64 != 0 <==> v >= 0x10000) by (bit_vector);
    assert(v >> 24u64 != 0 <==> v >= 0x1000000) by (bit_vector);
    assert(v >> 32u64 != 0 <==> v >= 0x100000000) by (bit_vector);
    assert(v >> 40u64 != 0 <==> v >= 0x10000000000) by (bit_vector);
    assert(v >> 48u64 != 0 <==> v >= 0x1000000000000) by (bit_vector);
    assert(v >> 56u64 != 0 <==> v >= 0x100000000000000) by (bit_vector);
}

proof fn lemma_low_mask_fits(len: u64)
    requires
        1 <= len <= 32,
    ensures
        (1u64 << len) >= 2,
        (1u64 << len) - 1 <= 0xffff_ffff,
{
    assert(1 <= len <= 32 ==> (1u64 << len) >= 2 && (1u64 << len) - 1 <= 0xffff_ffff) by (bit_vector);
}

proof fn lemma_field_fits(w: u64, shift: u64, len: u64)
    requires
        1 <= len <= 32,
    ensures
        (w >> shift) & (((1u64 << len) - 1) as u64) <= 0xffff_ffff,
{
    assert(1 <= len <= 32 ==> (w >> shift) & (((1u64 << len) - 1) as u64) <= 0xffff_ffff)
        by (bit_vector);
}

proof fn lemma_pow256_is_shift(nb: u64)
    requires
        1 <= nb <= 5,
    ensures
        pow256(nb as nat) == (1u64 << (8 * nb)) as nat,
{
    lemma_pow256_small(nb as nat);
    assert(1u64 << 8u64 == 0x100) by (bit_vector);
    assert(1u64 << 16u64 == 0x10000) by (bit_vector);
    assert(1u64 << 24u64 == 0x1000000) by (bit_vector);
    assert(1u64 << 32u64 == 0x100000000) by (bit_vector);
    assert(1u64 << 40u64 == 0x10000000000) by (bit_vector);
}

proof fn lemma_with_field_bound(w: u64, shift: u64, len: u64, v: u64, nbits: u64)
    requires
        8 <= nbits <= 40,
        w < (1u64 << nbits),
        1 <= len <= 32,
        v <= ((1u64 << len) - 1) as u64,
        shift + len <= nbits,
    ensures
        (w & !((((1u64 << len) - 1) as u64) << shift)) | (v << shift) < (1u64 << nbits),
{
    assert(8 <= nbits <= 40 && w < (1u64 << nbits) && 1 <= len <= 32 && v <= ((1u64 << len) - 1)
        as u64 && shift + len <= nbits ==> (w & !((((1u64 << len) - 1) as u64) << shift)) | (v
        << shift) < (1u64 << nbits)) by (bit_vector);
}

proof fn lemma_field_of_with_field(w: u64, shift: u64, len: u64, v: u64)
    requires
        1 <= len <= 32,
        shift < 8,
        v <= ((1u64 << len) - 1) as u64,
    ensures
        (((w & !((((1u64 << len) - 1) as u64) << shift)) | (v << shift)) >> shift) & (((1u64
            << len) - 1) as u64) == v,
{
    assert(1 <= len <= 32 && shift < 8 && v <= ((1u64 << len) - 1) as u64 ==> (((w & !((((1u64
        << len) - 1) as u64) << shift)) | (v << shift)) >> shift) & (((1u64 << len) - 1) as u64)
        == v) by (bit_vector);
}

// ---------------------------------------------------------------------------
// storage with three kinds of ownership
// ---------------------------------------------------------------------------

/// The bytes of a data unit: owned and growable, or borrowed from the caller
/// for reading and writing, or for reading only.
pub enum HybridVector<'a> {
    Owner(Vec<u8>),
    ReadWrite(&'a mut [u8]),
    ReadOnly(&'a [u8]),
}

impl<'a> HybridVector<'a> {
    /// The bytes held.
    pub open spec fn bytes(&self) -> Seq<u8> {
        match self {
            HybridVector::Owner(v) => v@,
            HybridVector::ReadWrite(s) => s@,
            HybridVector::ReadOnly(s) => s@,
        }
    }

    /// Owned or borrowed for writing.
    pub open spec fn is_writable(&self) -> bool {
        !(self is ReadOnly)
    }

    /// Owned, so that the size can change.
    pub open spec fn is_owner(&self) -> bool {
        self is Owner
    }

    /// An empty owned buffer.
    pub fn new() -> (r: HybridVector<'a>)
        ensures
            r.bytes() == Seq::<u8>::empty(),
            r.is_owner(),
    {
        HybridVector::Owner(Vec::new())
    }

    /// An owned copy of `value`.
    pub fn new_clone(value: &Vec<u8>) -> (r: HybridVector<'a>)
        ensures
            r.bytes() == value@,
            r.is_owner(),
    {
        HybridVector::Owner(vstd::slice::slice_to_vec(value.as_slice()))
    }

    /// An owned buffer of `size` zero bytes.
    pub fn new_alloc(size: usize) -> (r: HybridVector<'a>)
        ensures
            r.bytes() == Seq::new(size as nat, |i: int| 0u8),
            r.is_owner(),
    {
        let mut v: Vec<u8> = Vec::new();
        let mut i: usize = 0;
        while i < size
            invariant
                i <= size,
                v@ == Seq::new(i as nat, |j: int| 0u8),
            decreases size - i,
        {
            v.push(0);
            i += 1;
            proof {
                assert(v@ =~= Seq::new(i as nat, |j: int| 0u8));
            }
        }
        HybridVector::Owner(v)
    }

    /// Takes ownership of `value`.
    pub fn new_owner(value: Vec<u8>) -> (r: HybridVector<'a>)
        ensures
            r.bytes() == value@,
            r.is_owner(),
    {
        HybridVector::Owner(value)
    }

    /// Borrows `reference` for reading.
    pub fn new_read_only(reference: &'a [u8]) -> (r: HybridVector<'a>)
        ensures
            r.bytes() == reference@,
            !r.is_writable(),
            !r.is_owner(),
    {
        HybridVector::ReadOnly(reference)
    }

    /// Borrows `reference` for reading and writing.
    pub fn new_read_write(reference: &'a mut [u8]) -> (r: HybridVector<'a>)
        ensures
            r.bytes() == old(reference)@,
            r.is_writable(),
            !r.is_owner(),
    {
        HybridVector::ReadWrite(reference)
    }

    /// The bytes, for reading.
    pub fn read_only(&self) -> (r: &[u8])
        ensures
            r@ == self.bytes(),
    {
        match self {
            HybridVector::Owner(v) => v.as_slice(),
            HybridVector::ReadWrite(s) => s,
            HybridVector::ReadOnly(s) => s,
        }
    }

    /// The bytes, for writing; not available on a read-only borrow.
    pub fn read_write(&mut self) -> (r: &mut [u8])
        requires
            old(self).is_writable(),
        ensures
            r@ == old(self).bytes(),
            final(self).bytes() == final(r)@,
            final(self).is_writable(),
            final(self).is_owner() == old(self).is_owner(),
    {
        match self {
            HybridVector::Owner(v) => v.as_mut_slice(),
            HybridVector::ReadWrite(s) => s,
            HybridVector::ReadOnly(_) => vstd::pervasive::unreached(),
        }
    }

    /// The owned vector; only available on an owned buffer.
    pub fn mut_vec(&mut self) -> (r: &mut Vec<u8>)
        requires
            old(self).is_owner(),
        ensures
            r@ == old(self).bytes(),
            final(self).bytes() == final(r)@,
            final(self).is_owner(),
    {
        match self {
            HybridVector::Owner(v) => v,
            _ => vstd::pervasive::unreached(),
        }
    }

    /// Cuts the owned buffer to `new_size` bytes or extends it with zeros.
    pub fn resize(&mut self, new_size: usize)
        requires
            old(self).is_owner(),
        ensures
            final(self).bytes() == resized(old(self).bytes(), new_size as nat),
            final(self).is_owner(),
    {
        let v = self.mut_vec();
        let old_size = v.len();
        if old_size < new_size {
            let ghost start = v@;
            let mut i: usize = old_size;
            while i < new_size
                invariant
                    old_size <= i <= new_size,
                    v@ == start + Seq::new((i - old_size) as nat, |j: int| 0u8),
                decreases new_size - i,
            {
                v.push(0);
                i += 1;
                proof {
                    assert(v@ =~= start + Seq::new((i - old_size) as nat, |j: int| 0u8));
                }
            }
        } else {
            v.truncate(new_size);
            proof {
                assert(v@ =~= resized(old(self).bytes(), new_size as nat));
            }
        }
    }
}

// ---------------------------------------------------------------------------
// the data unit interface
// ---------------------------------------------------------------------------

/// Field access over a byte buffer. An implementation provides the bytes; the
/// accessors are shared.
pub trait DUintf {
    /// The bytes of the buffer.
    spec fn data(&self) -> Seq<u8>;

    /// The bytes may be changed.
    spec fn writable(&self) -> bool;

    /// The buffer owns its bytes and may change its size.
    spec fn resizable(&self) -> bool;

    /// The bytes, for reading.
    fn buffer_read_only(&self) -> (r: &[u8])
        ensures
            r@ == self.data(),
    ;

    /// The bytes, for writing.
    fn buffer_read_write(&mut self) -> (r: &mut [u8])
        requires
            old(self).writable(),
        ensures
            r@ == old(self).data(),
            final(self).data() == final(r)@,
            final(self).writable(),
            final(self).resizable() == old(self).resizable(),
    ;

    /// Cuts the buffer to `new_size` bytes or extends it with zero bytes.
    fn resize(&mut self, new_size: usize)
        requires
            old(self).resizable(),
        ensures
            final(self).data() == resized(old(self).data(), new_size as nat),
            final(self).writable(),
            final(self).resizable(),
    ;

    /// The number of bytes.
    fn size(&self) -> (r: usize)
        ensures
            r == self.data().len(),
    {
        self.buffer_read_only().len()
    }

    /// A listing of the first 65536 bytes: for every 16 bytes a line with the
    /// offset, the bytes in hexadecimal, and the bytes as characters (`.` for
    /// bytes below 32 or above 127); `EMPTY` for an empty buffer.
    fn dump_str(&self) -> (r: String)
        ensures
            r@ == dump_text(self.data()),
    {
        let data = self.buffer_read_only();
        let size = data.len();
        if size == 0 {
            let r = "EMPTY".to_owned();
            proof {
                reveal_strlit("EMPTY");
            }
            return r;
        }
        let length = if size > DUMP_LIMIT {
            DUMP_LIMIT
        } else {
            size
        };
        let mut ret = String::new();
        let mut i: usize = 0;
        while i < length
            invariant
                length <= DUMP_LIMIT,
                length <= data@.len(),
                i % 16 == 0,
                i <= length + 15,
                ret@ == dump_lines(data@, length as int, (i / 16) as nat),
            decreases length + 16 - i,
        {
            let n = if length - i < 16 {
                length - i
            } else {
                16
            };
            push_dump_line(&mut ret, data, i, n);
            proof {
                assert((i + 16) / 16 == i / 16 + 1);
            }
            i += 16;
        }
        proof {
            assert(i / 16 == (length + 15) / 16);
        }
        ret
    }

    /// The byte at `pos`.
    fn at(&self, pos: usize) -> (r: &u8)
        requires
            pos < self.data().len(),
        ensures
            *r == self.data()[pos as int],
    {
        &self.buffer_read_only()[pos]
    }

    /// The byte at `pos`, for writing.
    fn at_mut(&mut self, pos: usize) -> (r: &mut u8)
        requires
            old(self).writable(),
            pos < old(self).data().len(),
        ensures
            *r == old(self).data()[pos as int],
            final(self).data() == old(self).data().update(pos as int, *final(r)),
            final(self).writable(),
            final(self).resizable() == old(self).resizable(),
    {
        &mut self.buffer_read_write()[pos]
    }

    /// Reads the `bit_length` bits that start at bit `bit_pos`.
    fn get_bits(&self, bit_pos: usize, bit_length: usize) -> (r: Result<u32, Exception>)
        ensures
            match r {
                Ok(v) => bit_span_ok(self.data().len() as int, bit_pos as int, bit_length as int)
                    && v as u64 == bit_field(self.data(), bit_pos as int, bit_length as int),
                Err(e) => if bit_length == 0 || bit_length > 32 {
                    e.kind == ErrorKind::InvalidLength
                } else {
                    bit_pos + bit_length > self.data().len() * 8 && e.kind == ErrorKind::RangeError
                },
            },
    {
        if bit_length == 0 || bit_length > 32 {
            return Err(raise(ErrorKind::InvalidLength, "invalid bit_length"));
        }
        let buffer = self.buffer_read_only();
        let first_byte_pos = bit_pos / 8;
        let last_bit_in_window = bit_pos % 8 + bit_length - 1;
        let last_byte_pos = first_byte_pos + last_bit_in_window / 8;
        if last_byte_pos >= buffer.len() {
            return Err(raise(ErrorKind::RangeError, "bit_pos/bit_length out of buffer"));
        }
        let window = read_be(buffer, first_byte_pos, last_byte_pos - first_byte_pos + 1);
        let shift = (7 - last_bit_in_window % 8) as u64;
        let len = bit_length as u64;
        proof {
            lemma_low_mask_fits(len);
            lemma_field_fits(window, shift, len);
        }
        let value = (window >> shift) & ((1u64 << len) - 1);
        Ok(value as u32)
    }

    /// Writes `value` into the `bit_length` bits that start at bit `bit_pos`;
    /// the other bits of the bytes touched stay as they are.
    fn set_bits(&mut self, bit_pos: usize, bit_length: usize, value: u32) -> (r: Result<(), Exception>)
        requires
            old(self).writable(),
        ensures
            match r {
                Ok(_) => bit_span_ok(old(self).data().len() as int, bit_pos as int, bit_length as int)
                    && value <= low_mask(bit_length as u64)
                    && final(self).data() == set_bit_field(old(self).data(), bit_pos as int, bit_length as int, value as u64),
                Err(e) => final(self).data() == old(self).data() && if bit_length == 0 || bit_length > 32 {
                    e.kind == ErrorKind::InvalidLength
                } else if value > low_mask(bit_length as u64) {
                    e.kind == ErrorKind::ValueOverflow
                } else {
                    bit_pos + bit_length > old(self).data().len() * 8 && e.kind == ErrorKind::RangeError
                },
            },
            final(self).writable(),
            final(self).resizable() == old(self).resizable(),
    {
        if bit_length == 0 || bit_length > 32 {
            return Err(raise(ErrorKind::InvalidLength, "invalid bit_length"));
        }
        let len = bit_length as u64;
        proof {
            lemma_low_mask_fits(len);
        }
        let max_value = (1u64 << len) - 1;
        if (value as u64) > max_value {
            return Err(raise(ErrorKind::ValueOverflow, "value out of range"));
        }
        let first_byte_pos = bit_pos / 8;
        let last_bit_in_window = bit_pos % 8 + bit_length - 1;
        let last_byte_pos = first_byte_pos + last_bit_in_window / 8;
        if last_byte_pos >= self.size() {
            return Err(raise(ErrorKind::RangeError, "bit_pos/bit_length out of buffer"));
        }
        let window_bytes = last_byte_pos - first_byte_pos + 1;
        let window = read_be(self.buffer_read_only(), first_byte_pos, window_bytes);
        let shift = (7 - last_bit_in_window % 8) as u64;
        // clear the bits of the field in the window, then merge the aligned value in
        let field_mask = max_value << shift;
        let merged = (window & !field_mask) | ((value as u64) << shift);
        proof {
            lemma_pow256_is_shift(window_bytes as u64);
            lemma_with_field_bound(window, shift, len, value as u64, (8 * window_bytes) as u64);
        }
        let buffer = self.buffer_read_write();
        write_be(buffer, first_byte_pos, window_bytes, merged);
        Ok(())
    }

    /// Reads the bit field that `acc` describes.
    fn get_bits_acc(&self, acc: BitAccessor) -> (r: Result<u32, Exception>)
        ensures
            match r {
                Ok(v) => bit_span_ok(self.data().len() as int, acc.bit_pos as int, acc.bit_length as int)
                    && v as u64 == bit_field(self.data(), acc.bit_pos as int, acc.bit_length as int),
                Err(e) => if acc.bit_length == 0 || acc.bit_length > 32 {
                    e.kind == ErrorKind::InvalidLength
                } else {
                    acc.bit_pos + acc.bit_length > self.data().len() * 8 && e.kind == ErrorKind::RangeError
                },
            },
    {
        self.get_bits(acc.bit_pos, acc.bit_length)
    }

    /// Writes `value` into the bit field that `acc` describes.
    fn set_bits_acc(&mut self, acc: BitAccessor, value: u32) -> (r: Result<(), Exception>)
        requires
            old(self).writable(),
        ensures
            match r {
                Ok(_) => bit_span_ok(old(self).data().len() as int, acc.bit_pos as int, acc.bit_length as int)
                    && value <= low_mask(acc.bit_length as u64)
                    && final(self).data() == set_bit_field(old(self).data(), acc.bit_pos as int, acc.bit_length as int, value as u64),
                Err(e) => final(self).data() == old(self).data() && if acc.bit_length == 0 || acc.bit_length > 32 {
                    e.kind == ErrorKind::InvalidLength
                } else if value > low_mask(acc.bit_length as u64) {
                    e.kind == ErrorKind::ValueOverflow
                } else {
                    acc.bit_pos + acc.bit_length > old(self).data().len() * 8 && e.kind == ErrorKind::RangeError
                },
            },
            final(self).writable(),
            final(self).resizable() == old(self).resizable(),
    {
        self.set_bits(acc.bit_pos, acc.bit_length, value)
    }

    /// The `byte_length` bytes at `byte_pos`.
    fn get_bytes(&self, byte_pos: usize, byte_length: usize) -> (r: Result<&[u8], Exception>)
        ensures
            match r {
                Ok(b) => byte_length >= 1 && byte_pos + byte_length <= self.data().len()
                    && b@ == self.data().subrange(byte_pos as int, byte_pos + byte_length),
                Err(e) => if byte_length == 0 {
                    e.kind == ErrorKind::InvalidLength
                } else {
                    byte_pos + byte_length > self.data().len() && e.kind == ErrorKind::RangeError
                },
            },
    {
        if byte_length == 0 {
            return Err(raise(ErrorKind::InvalidLength, "invalid byte_length"));
        }
        let buffer = self.buffer_read_only();
        if !span_fits(buffer.len(), byte_pos, byte_length) {
            return Err(raise(ErrorKind::RangeError, "byte_pos/byte_length out of buffer"));
        }
        Ok(vstd::slice::slice_subrange(buffer, byte_pos, byte_pos + byte_length))
    }

    /// Copies the first `min(byte_length, bytes.len())` bytes of `bytes` to
    /// `byte_pos`; bytes of the span beyond that stay as they are.
    fn set_bytes(&mut self, byte_pos: usize, byte_length: usize, bytes: &[u8]) -> (r: Result<(), Exception>)
        requires
            old(self).writable(),
        ensures
            match r {
                Ok(_) => byte_length >= 1 && byte_pos + byte_length <= old(self).data().len()
                    && final(self).data() == splice(old(self).data(), byte_pos as int,
                        bytes@.take(if byte_length < bytes@.len() { byte_length as int } else { bytes@.len() as int })),
                Err(e) => final(self).data() == old(self).data() && if byte_length == 0 {
                    e.kind == ErrorKind::InvalidLength
                } else {
                    byte_pos + byte_length > old(self).data().len() && e.kind == ErrorKind::RangeError
                },
            },
            final(self).writable(),
            final(self).resizable() == old(self).resizable(),
    {
        if byte_length == 0 {
            return Err(raise(ErrorKind::InvalidLength, "invalid byte_length"));
        }
        if !span_fits(self.size(), byte_pos, byte_length) {
            return Err(raise(ErrorKind::RangeError, "byte_pos/byte_length out of buffer"));
        }
        let num_bytes = if byte_length < bytes.len() { byte_length } else { bytes.len() };
        let buffer = self.buffer_read_write();
        let ghost start = buffer@;
        let size = buffer.len();
        let mut i: usize = 0;
        while i < num_bytes
            invariant
                size == start.len(),
                i <= num_bytes <= bytes@.len(),
                num_bytes <= byte_length,
                byte_pos + byte_length <= start.len(),
                buffer@ == splice(start, byte_pos as int, bytes@.take(i as int)),
            decreases num_bytes - i,
        {
            buffer[byte_pos + i] = bytes[i];
            i += 1;
            proof {
                assert(buffer@ =~= splice(start, byte_pos as int, bytes@.take(i as int)));
            }
        }
        Ok(())
    }

    /// The byte span that `acc` describes.
    fn get_bytes_acc(&self, acc: ByteAccessor) -> (r: Result<&[u8], Exception>)
        ensures
            match r {
                Ok(b) => acc.byte_length >= 1 && acc.byte_pos + acc.byte_length <= self.data().len()
                    && b@ == self.data().subrange(acc.byte_pos as int, acc.byte_pos + acc.byte_length),
                Err(e) => if acc.byte_length == 0 {
                    e.kind == ErrorKind::InvalidLength
                } else {
                    acc.byte_pos + acc.byte_length > self.data().len() && e.kind == ErrorKind::RangeError
                },
            },
    {
        self.get_bytes(acc.byte_pos, acc.byte_length)
    }

    /// Copies `bytes` into the byte span that `acc` describes, as `set_bytes` does.
    fn set_bytes_acc(&mut self, acc: ByteAccessor, bytes: &[u8]) -> (r: Result<(), Exception>)
        requires
            old(self).writable(),
        ensures
            match r {
                Ok(_) => acc.byte_length >= 1 && acc.byte_pos + acc.byte_length <= old(self).data().len()
                    && final(self).data() == splice(old(self).data(), acc.byte_pos as int,
                        bytes@.take(if acc.byte_length < bytes@.len() { acc.byte_length as int } else { bytes@.len() as int })),
                Err(e) => final(self).data() == old(self).data() && if acc.byte_length == 0 {
                    e.kind == ErrorKind::InvalidLength
                } else {
                    acc.byte_pos + acc.byte_length > old(self).data().len() && e.kind == ErrorKind::RangeError
                },
            },
            final(self).writable(),
            final(self).resizable() == old(self).resizable(),
    {
        self.set_bytes(acc.byte_pos, acc.byte_length, bytes)
    }

    /// Reads the big-endian unsigned integer of `byte_length` (1 to 4) bytes at `byte_pos`.
    fn get_unsigned(&self, byte_pos: usize, byte_length: usize) -> (r: Result<u32, Exception>)
        ensures
            match r {
                Ok(v) => 1 <= byte_length <= 4 && byte_pos + byte_length <= self.data().len()
                    && v == be_value(self.data().subrange(byte_pos as int, byte_pos + byte_length)),
                Err(e) => if byte_length == 0 || byte_length > 4 {
                    e.kind == ErrorKind::InvalidLength
                } else {
                    byte_pos + byte_length > self.data().len() && e.kind == ErrorKind::RangeError
                },
            },
    {
        if byte_length == 0 || byte_length > 4 {
            return Err(raise(ErrorKind::InvalidLength, "invalid byte_length"));
        }
        let buffer = self.buffer_read_only();
        if !span_fits(buffer.len(), byte_pos, byte_length) {
            return Err(raise(ErrorKind::RangeError, "byte_pos/byte_length out of buffer"));
        }
        let value = read_be(buffer, byte_pos, byte_length);
        proof {
            lemma_pow256_small(byte_length as nat);
        }
        Ok(value as u32)
    }

    /// Writes `value` as a big-endian unsigned integer of `byte_length` (1 to 4)
    /// bytes at `byte_pos`; a value too large for the width is refused.
    fn set_unsigned(&mut self, byte_pos: usize, byte_length: usize, value: u32) -> (r: Result<(), Exception>)
        requires
            old(self).writable(),
        ensures
            match r {
                Ok(_) => 1 <= byte_length <= 4 && byte_pos + byte_length <= old(self).data().len()
                    && value < pow256(byte_length as nat)
                    && final(self).data() == splice(old(self).data(), byte_pos as int, be_bytes(value as nat, byte_length as nat)),
                Err(e) => final(self).data() == old(self).data() && if byte_length == 0 || byte_length > 4 {
                    e.kind == ErrorKind::InvalidLength
                } else if value >= pow256(byte_length as nat) {
                    e.kind == ErrorKind::ValueOverflow
                } else {
                    byte_pos + byte_length > old(self).data().len() && e.kind == ErrorKind::RangeError
                },
            },
            final(self).writable(),
            final(self).resizable() == old(self).resizable(),
    {
        if byte_length == 0 || byte_length > 4 {
            return Err(raise(ErrorKind::InvalidLength, "invalid byte_length"));
        }
        proof {
            lemma_pow256_small(byte_length as nat);
        }
        proof {
            if byte_length < 4 {
                lemma_width_test(value as u64, byte_length as u64);
            }
        }
        if byte_length < 4 && (value as u64) >> (8 * byte_length as u64) != 0 {
            return Err(raise(ErrorKind::ValueOverflow, "value out of range"));
        }
        if !span_fits(self.size(), byte_pos, byte_length) {
            return Err(raise(ErrorKind::RangeError, "byte_pos/byte_length out of buffer"));
        }
        proof {
            if byte_length < 4 {
                lemma_fits_width(value as u64, byte_length as u64);
            }
        }
        let buffer = self.buffer_read_write();
        write_be(buffer, byte_pos, byte_length, value as u64);
        Ok(())
    }

    /// Reads the integer that `acc` describes.
    fn get_unsigned_acc(&self, acc: UnsignedAccessor) -> (r: Result<u32, Exception>)
        ensures
            match r {
                Ok(v) => 1 <= acc.byte_length <= 4 && acc.byte_pos + acc.byte_length <= self.data().len()
                    && v == be_value(self.data().subrange(acc.byte_pos as int, acc.byte_pos + acc.byte_length)),
                Err(e) => if acc.byte_length == 0 || acc.byte_length > 4 {
                    e.kind == ErrorKind::InvalidLength
                } else {
                    acc.byte_pos + acc.byte_length > self.data().len() && e.kind == ErrorKind::RangeError
                },
            },
    {
        self.get_unsigned(acc.byte_pos, acc.byte_length)
    }

    /// Writes `value` into the integer that `acc` describes.
    fn set_unsigned_acc(&mut self, acc: UnsignedAccessor, value: u32) -> (r: Result<(), Exception>)
        requires
            old(self).writable(),
        ensures
            match r {
                Ok(_) => 1 <= acc.byte_length <= 4 && acc.byte_pos + acc.byte_length <= old(self).data().len()
                    && value < pow256(acc.byte_length as nat)
                    && final(self).data() == splice(old(self).data(), acc.byte_pos as int, be_bytes(value as nat, acc.byte_length as nat)),
                Err(e) => final(self).data() == old(self).data() && if acc.byte_length == 0 || acc.byte_length > 4 {
                    e.kind == ErrorKind::InvalidLength
                } else if value >= pow256(acc.byte_length as nat) {
                    e.kind == ErrorKind::ValueOverflow
                } else {
                    acc.byte_pos + acc.byte_length > old(self).data().len() && e.kind == ErrorKind::RangeError
                },
            },
            final(self).writable(),
            final(self).resizable() == old(self).resizable(),
    {
        self.set_unsigned(acc.byte_pos, acc.byte_length, value)
    }

    /// Reads the big-endian unsigned integer of `byte_length` (1 to 8) bytes at `byte_pos`.
    fn get_big_unsigned(&self, byte_pos: usize, byte_length: usize) -> (r: Result<u64, Exception>)
        ensures
            match r {
                Ok(v) => 1 <= byte_length <= 8 && byte_pos + byte_length <= self.data().len()
                    && v == be_value(self.data().subrange(byte_pos as int, byte_pos + byte_length)),
                Err(e) => if byte_length == 0 || byte_length > 8 {
                    e.kind == ErrorKind::InvalidLength
                } else {
                    byte_pos + byte_length > self.data().len() && e.kind == ErrorKind::RangeError
                },
            },
    {
        if byte_length == 0 || byte_length > 8 {
            return Err(raise(ErrorKind::InvalidLength, "invalid byte_length"));
        }
        let buffer = self.buffer_read_only();
        if !span_fits(buffer.len(), byte_pos, byte_length) {
            return Err(raise(ErrorKind::RangeError, "byte_pos/byte_length out of buffer"));
        }
        let value = read_be(buffer, byte_pos, byte_length);
        proof {
            lemma_pow256_small(byte_length as nat);
        }
        Ok(value as u64)
    }

    /// Writes `value` as a big-endian unsigned integer of `byte_length` (1 to 8)
    /// bytes at `byte_pos`; a value too large for the width is refused.
    fn set_big_unsigned(&mut self, byte_pos: usize, byte_length: usize, value: u64) -> (r: Result<(), Exception>)
        requires
            old(self).writable(),
        ensures
            match r {
                Ok(_) => 1 <= byte_length <= 8 && byte_pos + byte_length <= old(self).data().len()
                    && value < pow256(byte_length as nat)
                    && final(self).data() == splice(old(self).data(), byte_pos as int, be_bytes(value as nat, byte_length as nat)),
                Err(e) => final(self).data() == old(self).data() && if byte_length == 0 || byte_length > 8 {
                    e.kind == ErrorKind::InvalidLength
                } else if value >= pow256(byte_length as nat) {
                    e.kind == ErrorKind::ValueOverflow
                } else {
                    byte_pos + byte_length > old(self).data().len() && e.kind == ErrorKind::RangeError
                },
            },
            final(self).writable(),
            final(self).resizable() == old(self).resizable(),
    {
        if byte_length == 0 || byte_length > 8 {
            return Err(raise(ErrorKind::InvalidLength, "invalid byte_length"));
        }
        proof {
            lemma_pow256_small(byte_length as nat);
        }
        proof {
            if byte_length < 8 {
                lemma_width_test(value as u64, byte_length as u64);
            }
        }
        if byte_length < 8 && (value as u64) >> (8 * byte_length as u64) != 0 {
            return Err(raise(ErrorKind::ValueOverflow, "value out of range"));
        }
        if !span_fits(self.size(), byte_pos, byte_length) {
            return Err(raise(ErrorKind::RangeError, "byte_pos/byte_length out of buffer"));
        }
        proof {
            lemma_fits_width(value as u64, byte_length as u64);
        }
        let buffer = self.buffer_read_write();
        write_be(buffer, byte_pos, byte_length, value as u64);
        Ok(())
    }

    /// Reads the integer that `acc` describes.
    fn get_big_unsigned_acc(&self, acc: BigUnsignedAccessor) -> (r: Result<u64, Exception>)
        ensures
            match r {
                Ok(v) => 1 <= acc.byte_length <= 8 && acc.byte_pos + acc.byte_length <= self.data().len()
                    && v == be_value(self.data().subrange(acc.byte_pos as int, acc.byte_pos + acc.byte_length)),
                Err(e) => if acc.byte_length == 0 || acc.byte_length > 8 {
                    e.kind == ErrorKind::InvalidLength
                } else {
                    acc.byte_pos + acc.byte_length > self.data().len() && e.kind == ErrorKind::RangeError
                },
            },
    {
        self.get_big_unsigned(acc.byte_pos, acc.byte_length)
    }

    /// Writes `value` into the integer that `acc` describes.
    fn set_big_unsigned_acc(&mut self, acc: BigUnsignedAccessor, value: u64) -> (r: Result<(), Exception>)
        requires
            old(self).writable(),
        ensures
            match r {
                Ok(_) => 1 <= acc.byte_length <= 8 && acc.byte_pos + acc.byte_length <= old(self).data().len()
                    && value < pow256(acc.byte_length as nat)
                    && final(self).data() == splice(old(self).data(), acc.byte_pos as int, be_bytes(value as nat, acc.byte_length as nat)),
                Err(e) => final(self).data() == old(self).data() && if acc.byte_length == 0 || acc.byte_length > 8 {
                    e.kind == ErrorKind::InvalidLength
                } else if value >= pow256(acc.byte_length as nat) {
                    e.kind == ErrorKind::ValueOverflow
                } else {
                    acc.byte_pos + acc.byte_length > old(self).data().len() && e.kind == ErrorKind::RangeError
                },
            },
            final(self).writable(),
            final(self).resizable() == old(self).resizable(),
    {
        self.set_big_unsigned(acc.byte_pos, acc.byte_length, value)
    }
}

// ---------------------------------------------------------------------------
// laws
// ---------------------------------------------------------------------------

/// Writing a bit field of 1 to 32 bits that lies inside the buffer and reading
/// it back gives the value written, for every value that fits the field.
pub proof fn lemma_bit_field_round_trip(data: Seq<u8>, pos: int, len: int, v: u64)
    requires
        pos >= 0,
        bit_span_ok(data.len() as int, pos, len),
        v <= low_mask(len as u64),
    ensures
        bit_field(set_bit_field(data, pos, len, v), pos, len) == v,
        set_bit_field(data, pos, len, v).len() == data.len(),
{
    let fb = first_byte(pos);
    let nb = window_len(pos, len);
    let window = data.subrange(fb, last_byte(pos, len) + 1);
    let w = window_value(data, pos, len);
    let shift = tail_bits(pos, len);
    let merged = with_field(w, shift, len as u64, v);
    lemma_be_value_bound(window);
    lemma_pow256_small(nb);
    lemma_pow256_is_shift(nb as u64);
    lemma_with_field_bound(w, shift, len as u64, v, (8 * nb) as u64);
    lemma_be_round_trip(merged as nat, nb);
    let out = set_bit_field(data, pos, len, v);
    assert(out.subrange(fb, last_byte(pos, len) + 1) =~= be_bytes(merged as nat, nb));
    lemma_field_of_with_field(w, shift, len as u64, v);
}

/// Writing an unsigned integer of `len` bytes that lies inside the buffer and
/// reading it back gives the value written, for every value below 256 to the
/// power of `len`.
pub proof fn lemma_unsigned_round_trip(data: Seq<u8>, pos: int, len: nat, v: nat)
    requires
        pos >= 0,
        pos + len <= data.len(),
        v < pow256(len),
    ensures
        be_value(splice(data, pos, be_bytes(v, len)).subrange(pos, pos + len)) == v,
        splice(data, pos, be_bytes(v, len)).len() == data.len(),
{
    assert(splice(data, pos, be_bytes(v, len)).subrange(pos, pos + len) =~= be_bytes(v, len));
    lemma_be_round_trip(v, len);
}

// ---------------------------------------------------------------------------
// the data unit
// ---------------------------------------------------------------------------

/// A data unit: a byte buffer with field accessors.
pub struct DU<'a> {
    buffer: HybridVector<'a>,
}

impl<'a> DUintf for DU<'a> {
    closed spec fn data(&self) -> Seq<u8> {
        self.buffer.bytes()
    }

    closed spec fn writable(&self) -> bool {
        self.buffer.is_writable()
    }

    closed spec fn resizable(&self) -> bool {
        self.buffer.is_owner()
    }

    fn buffer_read_only(&self) -> (r: &[u8]) {
        self.buffer.read_only()
    }

    fn buffer_read_write(&mut self) -> (r: &mut [u8]) {
        self.buffer.read_write()
    }

    fn resize(&mut self, new_size: usize) {
        self.buffer.resize(new_size);
    }
}

impl<'a> DU<'a> {
    /// An empty owned buffer.
    pub fn new() -> (r: DU<'a>)
        ensures
            r.data() == Seq::<u8>::empty(),
            r.writable(),
            r.resizable(),
    {
        DU { buffer: HybridVector::new() }
    }

    /// An owned copy of `value`.
    pub fn new_clone(value: &Vec<u8>) -> (r: DU<'a>)
        ensures
            r.data() == value@,
            r.writable(),
            r.resizable(),
    {
        DU { buffer: HybridVector::new_clone(value) }
    }

    /// An owned buffer of `size` zero bytes.
    pub fn new_alloc(size: usize) -> (r: DU<'a>)
        ensures
            r.data() == Seq::new(size as nat, |i: int| 0u8),
            r.writable(),
            r.resizable(),
    {
        DU { buffer: HybridVector::new_alloc(size) }
    }

    /// Takes ownership of `value`.
    pub fn new_owner(value: Vec<u8>) -> (r: DU<'a>)
        ensures
            r.data() == value@,
            r.writable(),
            r.resizable(),
    {
        DU { buffer: HybridVector::new_owner(value) }
    }

    /// Borrows `reference` for reading only.
    pub fn new_read_only(reference: &'a [u8]) -> (r: DU<'a>)
        ensures
            r.data() == reference@,
            !r.writable(),
            !r.resizable(),
    {
        DU { buffer: HybridVector::new_read_only(reference) }
    }

    /// Borrows `reference` for reading and writing; its size is fixed.
    pub fn new_read_write(reference: &'a mut [u8]) -> (r: DU<'a>)
        ensures
            r.data() == old(reference)@,
            r.writable(),
            !r.resizable(),
    {
        DU { buffer: HybridVector::new_read_write(reference) }
    }
}

impl<'a> core::ops::Index<usize> for DU<'a> {
    type Output = u8;

    fn index(&self, pos: usize) -> (r: &u8) {
        self.at(pos)
    }
}

impl<'a> vstd::std_specs::core::IndexSpecImpl<usize> for DU<'a> {
    open spec fn index_req(&self, pos: &usize) -> bool {
        *pos < self.data().len()
    }
}

} // verus!
