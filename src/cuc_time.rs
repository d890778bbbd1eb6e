//! CCSDS unsegmented time code (CUC): four bytes of seconds and zero to three
//! bytes of binary second fractions, optionally led by a format selector byte.
use crate::du::{be_bytes, be_value, byte_of, lemma_be_value_bound, lemma_pow256_small, pow256, splice};
use crate::exception::{raise, ErrorKind, Exception};
use crate::text::{push_char, push_str, tuple_string, tuple_text};
use crate::xtime::Timespec;
use vstd::prelude::*;

verus! {

// time codes with an embedded format selector byte (p-field)
/// Epoch 1958-01-01, no fine byte.
pub const L1_TIME_4_0: u8 = 0x1c;
/// Epoch 1958-01-01, one fine byte.
pub const L1_TIME_4_1: u8 = 0x1d;
/// Epoch 1958-01-01, two fine bytes.
pub const L1_TIME_4_2: u8 = 0x1e;
/// Epoch 1958-01-01, three fine bytes.
pub const L1_TIME_4_3: u8 = 0x1f;
/// Agency-defined epoch, no fine byte.
pub const L2_TIME_4_0: u8 = 0x2c;
/// Agency-defined epoch, one fine byte.
pub const L2_TIME_4_1: u8 = 0x2d;
/// Agency-defined epoch, two fine bytes.
pub const L2_TIME_4_2: u8 = 0x2e;
/// Agency-defined epoch, three fine bytes.
pub const L2_TIME_4_3: u8 = 0x2f;
// time codes whose format is known from the context
/// Epoch 1958-01-01, no fine byte, no selector byte.
pub const T1_TIME_4_0: u8 = 0x9c;
/// Epoch 1958-01-01, one fine byte, no selector byte.
pub const T1_TIME_4_1: u8 = 0x9d;
/// Epoch 1958-01-01, two fine bytes, no selector byte.
pub const T1_TIME_4_2: u8 = 0x9e;
/// Epoch 1958-01-01, three fine bytes, no selector byte.
pub const T1_TIME_4_3: u8 = 0x9f;
/// Agency-defined epoch, no fine byte, no selector byte.
pub const T2_TIME_4_0: u8 = 0xac;
/// Agency-defined epoch, one fine byte, no selector byte.
pub const T2_TIME_4_1: u8 = 0xad;
/// Agency-defined epoch, two fine bytes, no selector byte.
pub const T2_TIME_4_2: u8 = 0xae;
/// Agency-defined epoch, three fine bytes, no selector byte.
pub const T2_TIME_4_3: u8 = 0xaf;

/// Nanoseconds in a second.
pub const NSEC_PER_SEC: u64 = 1_000_000_000;

/// The largest number of seconds that the coarse time holds.
pub const MAX_COARSE_SEC: i64 = 0xffff_ffff;

/// One of the sixteen recognised time codes.
pub open spec fn is_time_code(p: u8) -> bool {
    p == L1_TIME_4_0 || p == L1_TIME_4_1 || p == L1_TIME_4_2 || p == L1_TIME_4_3
        || p == L2_TIME_4_0 || p == L2_TIME_4_1 || p == L2_TIME_4_2 || p == L2_TIME_4_3
        || p == T1_TIME_4_0 || p == T1_TIME_4_1 || p == T1_TIME_4_2 || p == T1_TIME_4_3
        || p == T2_TIME_4_0 || p == T2_TIME_4_1 || p == T2_TIME_4_2 || p == T2_TIME_4_3
}

/// A recognised time code whose encoding starts with the selector byte.
pub open spec fn embeds_p_field(p: u8) -> bool {
    is_time_code(p) && p < 0x80
}

/// The number of fine-time bytes of a time code.
pub open spec fn fine_width(p: u8) -> nat {
    (p % 4) as nat
}

/// The bytes of coarse and fine time.
pub open spec fn data_size(p: u8) -> nat {
    4 + fine_width(p)
}

/// The bytes of an encoding, the selector byte included where there is one.
pub open spec fn full_data_size(p: u8) -> nat {
    data_size(p) + if embeds_p_field(p) {
        1nat
    } else {
        0nat
    }
}

/// The fine time for `nsec` nanoseconds at `w` fine bytes, rounded down
/// (before it is cut to `w` bytes).
pub open spec fn fine_of(nsec: nat, w: nat) -> nat {
    nsec * pow256(w) / (NSEC_PER_SEC as nat)
}

/// The nanoseconds that a fine time of `w` bytes stands for, rounded down.
pub open spec fn nsec_of(fine: nat, w: nat) -> nat {
    fine * (NSEC_PER_SEC as nat) / pow256(w)
}

/// `n` zero bytes.
pub open spec fn zeros(n: nat) -> Seq<u8> {
    Seq::new(n, |i: int| 0u8)
}

proof fn lemma_be_small(s: Seq<u8>)
    requires
        s.len() <= 4,
    ensures
        s.len() == 0 ==> be_value(s) == 0,
        s.len() == 1 ==> be_value(s) == s[0],
        s.len() == 2 ==> be_value(s) == s[0] * 0x100 + s[1],
        s.len() == 3 ==> be_value(s) == s[0] * 0x10000 + s[1] * 0x100 + s[2],
        s.len() == 4 ==> be_value(s) == s[0] * 0x1000000 + s[1] * 0x10000 + s[2] * 0x100 + s[3],
{
    reveal_with_fuel(be_value, 5);
    if s.len() >= 1 {
        let a = s.drop_last();
        if a.len() >= 1 {
            let b = a.drop_last();
            if b.len() >= 1 {
                let c = b.drop_last();
                if c.len() >= 1 {
                    assert(c.drop_last().len() == 0);
                }
            }
        }
    }
}

proof fn lemma_nsec_bound(fine: nat, p: nat)
    requires
        fine < p,
        p > 0,
    ensures
        fine * (NSEC_PER_SEC as nat) / p < NSEC_PER_SEC as nat,
{
    assert(fine * 1_000_000_000 < p * 1_000_000_000) by (nonlinear_arith)
        requires
            fine < p,
    ;
    assert(fine * 1_000_000_000 / p < 1_000_000_000) by (nonlinear_arith)
        requires
            fine * 1_000_000_000 < p * 1_000_000_000,
            p > 0,
    ;
}

// ---------------------------------------------------------------------------
// coarse time
// ---------------------------------------------------------------------------

/// Coarse time: seconds as four big-endian bytes.
#[derive(Clone, Copy, Debug)]
pub struct CoarseTime {
    pub t_coarse0: u8,
    pub t_coarse1: u8,
    pub t_coarse2: u8,
    pub t_coarse3: u8,
}

impl CoarseTime {
    /// The four bytes, most significant first.
    pub open spec fn bytes(&self) -> Seq<u8> {
        seq![self.t_coarse0, self.t_coarse1, self.t_coarse2, self.t_coarse3]
    }

    /// Zero seconds.
    pub fn new() -> (r: CoarseTime)
        ensures
            r.bytes() == zeros(4),
    {
        let r = CoarseTime { t_coarse0: 0, t_coarse1: 0, t_coarse2: 0, t_coarse3: 0 };
        assert(r.bytes() =~= zeros(4));
        r
    }

    /// The coarse time with the given bytes.
    pub fn new_init(t_coarse0: u8, t_coarse1: u8, t_coarse2: u8, t_coarse3: u8) -> (r: CoarseTime)
        ensures
            r.bytes() == seq![t_coarse0, t_coarse1, t_coarse2, t_coarse3],
    {
        CoarseTime { t_coarse0, t_coarse1, t_coarse2, t_coarse3 }
    }

    /// Sets the seconds; negative seconds and seconds above 2^32 - 1 are refused.
    pub fn init_from_sec(&mut self, sec: i64) -> (r: Result<(), Exception>)
        ensures
            match r {
                Ok(_) => 0 <= sec <= MAX_COARSE_SEC && final(self).bytes() == be_bytes(sec as nat, 4),
                Err(e) => final(self).bytes() == old(self).bytes() && if sec < 0 {
                    e.kind == ErrorKind::NegativeTime
                } else {
                    sec > MAX_COARSE_SEC && e.kind == ErrorKind::OutOfRange
                },
            },
    {
        if sec < 0 {
            return Err(raise(ErrorKind::NegativeTime, "CUC time supports only positive seconds"));
        }
        if sec > MAX_COARSE_SEC {
            return Err(raise(ErrorKind::OutOfRange, "CUC time supports seconds up to 2^32 - 1"));
        }
        let s = sec as u64;
        self.t_coarse3 = (s % 256) as u8;
        self.t_coarse2 = (s / 0x100 % 256) as u8;
        self.t_coarse1 = (s / 0x10000 % 256) as u8;
        self.t_coarse0 = (s / 0x1000000 % 256) as u8;
        proof {
            let v = sec as nat;
            lemma_pow256_small(0);
            lemma_pow256_small(1);
            lemma_pow256_small(2);
            lemma_pow256_small(3);
            assert(be_bytes(v, 4)[0] == byte_of(v, 3));
            assert(be_bytes(v, 4)[1] == byte_of(v, 2));
            assert(be_bytes(v, 4)[2] == byte_of(v, 1));
            assert(be_bytes(v, 4)[3] == byte_of(v, 0));
            assert(self.bytes() =~= be_bytes(v, 4));
        }
        Ok(())
    }

    /// The seconds.
    pub fn to_sec(&self) -> (r: i64)
        ensures
            r == be_value(self.bytes()),
    {
        proof {
            lemma_be_small(self.bytes());
        }
        ((self.t_coarse0 as i64) * 0x01000000) + ((self.t_coarse1 as i64) * 0x00010000) + ((
        self.t_coarse2 as i64) * 0x00000100) + (self.t_coarse3 as i64)
    }

    /// The coarse time held in the four bytes at `pos`.
    pub fn read_at(bytes: &[u8], pos: usize) -> (r: CoarseTime)
        requires
            pos + 4 <= bytes@.len(),
        ensures
            r.bytes() == bytes@.subrange(pos as int, pos + 4),
    {
        let r = CoarseTime {
            t_coarse0: bytes[pos],
            t_coarse1: bytes[pos + 1],
            t_coarse2: bytes[pos + 2],
            t_coarse3: bytes[pos + 3],
        };
        assert(r.bytes() =~= bytes@.subrange(pos as int, pos + 4));
        r
    }

    /// Writes the four bytes at `pos`.
    pub fn write_at(&self, bytes: &mut [u8], pos: usize)
        requires
            pos + 4 <= old(bytes)@.len(),
        ensures
            final(bytes)@ == splice(old(bytes)@, pos as int, self.bytes()),
    {
        bytes[pos] = self.t_coarse0;
        bytes[pos + 1] = self.t_coarse1;
        bytes[pos + 2] = self.t_coarse2;
        bytes[pos + 3] = self.t_coarse3;
        assert(bytes@ =~= splice(old(bytes)@, pos as int, self.bytes()));
    }

    /// Takes the first four bytes of `bytes`.
    pub fn init_from_bytes(&mut self, bytes: &[u8])
        requires
            bytes@.len() >= 4,
        ensures
            final(self).bytes() == bytes@.subrange(0, 4),
    {
        *self = CoarseTime::read_at(bytes, 0);
    }

    /// Writes the four bytes to the start of `bytes`.
    pub fn update_to_bytes(&self, bytes: &mut [u8])
        requires
            old(bytes)@.len() >= 4,
        ensures
            final(bytes)@ == splice(old(bytes)@, 0, self.bytes()),
    {
        self.write_at(bytes, 0);
    }

    /// The bytes in decimal, as `(b0,b1,b2,b3)`.
    pub fn dump_str(&self) -> (r: String)
        ensures
            r@ == tuple_text(self.bytes()),
    {
        let items: [u8; 4] = [self.t_coarse0, self.t_coarse1, self.t_coarse2, self.t_coarse3];
        assert(items@ =~= self.bytes());
        tuple_string(&items)
    }
}

// ---------------------------------------------------------------------------
// fine time
// ---------------------------------------------------------------------------

/// Fine time without bytes: the time code carries whole seconds only.
#[derive(Clone, Copy, Debug)]
pub struct FineTime0 {}

impl FineTime0 {
    /// No bytes.
    pub open spec fn bytes(&self) -> Seq<u8> {
        Seq::empty()
    }

    /// The empty fine time.
    pub fn new() -> (r: FineTime0)
        ensures
            r.bytes() == zeros(0),
    {
        assert(zeros(0) =~= Seq::<u8>::empty());
        FineTime0 {  }
    }

    /// The empty fine time.
    pub fn new_init() -> (r: FineTime0)
        ensures
            r.bytes() == zeros(0),
    {
        FineTime0::new()
    }

    /// Accepts any non-negative nanoseconds and keeps nothing of them.
    pub fn init_from_nsec(&mut self, nsec: i32) -> (r: Result<(), Exception>)
        ensures
            match r {
                Ok(_) => nsec >= 0 && final(self).bytes() == be_bytes(fine_of(nsec as nat, 0), 0),
                Err(e) => nsec < 0 && e.kind == ErrorKind::NegativeTime,
            },
    {
        if nsec < 0 {
            return Err(raise(ErrorKind::NegativeTime, "CUC time supports only positive second fractions"));
        }
        assert(be_bytes(fine_of(nsec as nat, 0), 0) =~= Seq::<u8>::empty());
        Ok(())
    }

    /// Always zero nanoseconds.
    pub fn to_nsec(&self) -> (r: i32)
        ensures
            r == nsec_of(be_value(self.bytes()), 0),
    {
        proof {
            lemma_be_small(self.bytes());
            assert(pow256(0) == 1);
        }
        0
    }

    /// The empty fine time, whatever `bytes` holds.
    pub fn read_at(bytes: &[u8], pos: usize) -> (r: FineTime0)
        requires
            pos <= bytes@.len(),
        ensures
            r.bytes() == bytes@.subrange(pos as int, pos as int),
    {
        assert(bytes@.subrange(pos as int, pos as int) =~= Seq::<u8>::empty());
        FineTime0 {  }
    }

    /// Writes nothing.
    pub fn write_at(&self, bytes: &mut [u8], pos: usize)
        requires
            pos <= old(bytes)@.len(),
        ensures
            final(bytes)@ == splice(old(bytes)@, pos as int, self.bytes()),
    {
        assert(bytes@ =~= splice(bytes@, pos as int, self.bytes()));
    }

    /// Takes nothing from `bytes`.
    pub fn init_from_bytes(&mut self, bytes: &[u8])
        ensures
            final(self).bytes() == bytes@.subrange(0, 0),
    {
        assert(bytes@.subrange(0, 0) =~= Seq::<u8>::empty());
    }

    /// Writes nothing to `bytes`.
    pub fn update_to_bytes(&self, bytes: &mut [u8])
        ensures
            final(bytes)@ == splice(old(bytes)@, 0, self.bytes()),
    {
        self.write_at(bytes, 0);
    }

    /// `()`.
    pub fn dump_str(&self) -> (r: String)
        ensures
            r@ == tuple_text(self.bytes()),
    {
        let items: [u8; 0] = [];
        assert(items@ =~= self.bytes());
        tuple_string(&items)
    }
}

/// Fine time of one byte: a binary fraction of a second, 0x100 units per second.
#[derive(Clone, Copy, Debug)]
pub struct FineTime1 {
    pub t_fine0: u8,
}

impl FineTime1 {
    /// The bytes, most significant first.
    pub open spec fn bytes(&self) -> Seq<u8> {
        seq![self.t_fine0]
    }

    /// Zero second fractions.
    pub fn new() -> (r: FineTime1)
        ensures
            r.bytes() == zeros(1),
    {
        let r = FineTime1 { t_fine0: 0 };
        assert(r.bytes() =~= zeros(1));
        r
    }

    /// The fine time with the given bytes.
    pub fn new_init(t_fine0: u8) -> (r: FineTime1)
        ensures
            r.bytes() == seq![t_fine0],
    {
        FineTime1 { t_fine0 }
    }

    /// Sets the fraction to the nanoseconds, rounded down to whole units and cut
    /// to one byte; negative nanoseconds are refused.
    pub fn init_from_nsec(&mut self, nsec: i32) -> (r: Result<(), Exception>)
        ensures
            match r {
                Ok(_) => nsec >= 0 && final(self).bytes() == be_bytes(fine_of(nsec as nat, 1), 1),
                Err(e) => nsec < 0 && e.kind == ErrorKind::NegativeTime && final(self).bytes() == old(self).bytes(),
            },
    {
        if nsec < 0 {
            return Err(raise(ErrorKind::NegativeTime, "CUC time supports only positive second fractions"));
        }
        let fine = (nsec as u64) * 0x100 / NSEC_PER_SEC;
        self.t_fine0 = (fine % 256) as u8;
        proof {
            let v = fine_of(nsec as nat, 1);
            lemma_pow256_small(0);
            lemma_pow256_small(1);
            lemma_pow256_small(2);
            lemma_pow256_small(3);
            assert(fine == v);
            assert(be_bytes(v, 1)[0] == byte_of(v, 0));
            assert(self.bytes() =~= be_bytes(v, 1));
        }
        Ok(())
    }

    /// The nanoseconds that the fraction stands for, rounded down.
    pub fn to_nsec(&self) -> (r: i32)
        ensures
            r == nsec_of(be_value(self.bytes()), 1),
    {
        proof {
            lemma_be_small(self.bytes());
            lemma_pow256_small(1);
            lemma_be_value_bound(self.bytes());
            lemma_nsec_bound(be_value(self.bytes()), pow256(1));
        }
        let fine = (self.t_fine0 as u64);
        (fine * NSEC_PER_SEC / 0x100) as i32
    }

    /// The fine time held in the one byte at `pos`.
    pub fn read_at(bytes: &[u8], pos: usize) -> (r: FineTime1)
        requires
            pos + 1 <= bytes@.len(),
        ensures
            r.bytes() == bytes@.subrange(pos as int, pos + 1),
    {
        let r = FineTime1 {
            t_fine0: bytes[pos],
        };
        assert(r.bytes() =~= bytes@.subrange(pos as int, pos + 1));
        r
    }

    /// Writes the one byte at `pos`.
    pub fn write_at(&self, bytes: &mut [u8], pos: usize)
        requires
            pos + 1 <= old(bytes)@.len(),
        ensures
            final(bytes)@ == splice(old(bytes)@, pos as int, self.bytes()),
    {
        bytes[pos] = self.t_fine0;
        assert(bytes@ =~= splice(old(bytes)@, pos as int, self.bytes()));
    }

    /// Takes the first one byte of `bytes`.
    pub fn init_from_bytes(&mut self, bytes: &[u8])
        requires
            bytes@.len() >= 1,
        ensures
            final(self).bytes() == bytes@.subrange(0, 1),
    {
        *self = FineTime1::read_at(bytes, 0);
    }

    /// Writes the one byte to the start of `bytes`.
    pub fn update_to_bytes(&self, bytes: &mut [u8])
        requires
            old(bytes)@.len() >= 1,
        ensures
            final(bytes)@ == splice(old(bytes)@, 0, self.bytes()),
    {
        self.write_at(bytes, 0);
    }

    /// The bytes in decimal, as `(b0)`.
    pub fn dump_str(&self) -> (r: String)
        ensures
            r@ == tuple_text(self.bytes()),
    {
        let items: [u8; 1] = [self.t_fine0];
        assert(items@ =~= self.bytes());
        tuple_string(&items)
    }
}

/// Fine time of two bytes: a binary fraction of a second, 0x10000 units per second.
#[derive(Clone, Copy, Debug)]
pub struct FineTime2 {
    pub t_fine0: u8,
    pub t_fine1: u8,
}

impl FineTime2 {
    /// The bytes, most significant first.
    pub open spec fn bytes(&self) -> Seq<u8> {
        seq![self.t_fine0, self.t_fine1]
    }

    /// Zero second fractions.
    pub fn new() -> (r: FineTime2)
        ensures
            r.bytes() == zeros(2),
    {
        let r = FineTime2 { t_fine0: 0, t_fine1: 0 };
        assert(r.bytes() =~= zeros(2));
        r
    }

    /// The fine time with the given bytes.
    pub fn new_init(t_fine0: u8, t_fine1: u8) -> (r: FineTime2)
        ensures
            r.bytes() == seq![t_fine0, t_fine1],
    {
        FineTime2 { t_fine0, t_fine1 }
    }

    /// Sets the fraction to the nanoseconds, rounded down to whole units and cut
    /// to two bytes; negative nanoseconds are refused.
    pub fn init_from_nsec(&mut self, nsec: i32) -> (r: Result<(), Exception>)
        ensures
            match r {
                Ok(_) => nsec >= 0 && final(self).bytes() == be_bytes(fine_of(nsec as nat, 2), 2),
                Err(e) => nsec < 0 && e.kind == ErrorKind::NegativeTime && final(self).bytes() == old(self).bytes(),
            },
    {
        if nsec < 0 {
            return Err(raise(ErrorKind::NegativeTime, "CUC time supports only positive second fractions"));
        }
        let fine = (nsec as u64) * 0x10000 / NSEC_PER_SEC;
        self.t_fine0 = (fine / 0x100 % 256) as u8;
        self.t_fine1 = (fine % 256) as u8;
        proof {
            let v = fine_of(nsec as nat, 2);
            lemma_pow256_small(0);
            lemma_pow256_small(1);
            lemma_pow256_small(2);
            lemma_pow256_small(3);
            assert(fine == v);
            assert(be_bytes(v, 2)[0] == byte_of(v, 1));
            assert(be_bytes(v, 2)[1] == byte_of(v, 0));
            assert(self.bytes() =~= be_bytes(v, 2));
        }
        Ok(())
    }

    /// The nanoseconds that the fraction stands for, rounded down.
    pub fn to_nsec(&self) -> (r: i32)
        ensures
            r == nsec_of(be_value(self.bytes()), 2),
    {
        proof {
            lemma_be_small(self.bytes());
            lemma_pow256_small(2);
            lemma_be_value_bound(self.bytes());
            lemma_nsec_bound(be_value(self.bytes()), pow256(2));
        }
        let fine = (self.t_fine0 as u64) * 0x100 + (self.t_fine1 as u64);
        (fine * NSEC_PER_SEC / 0x10000) as i32
    }

    /// The fine time held in the two bytes at `pos`.
    pub fn read_at(bytes: &[u8], pos: usize) -> (r: FineTime2)
        requires
            pos + 2 <= bytes@.len(),
        ensures
            r.bytes() == bytes@.subrange(pos as int, pos + 2),
    {
        let r = FineTime2 {
            t_fine0: bytes[pos],
            t_fine1: bytes[pos + 1],
        };
        assert(r.bytes() =~= bytes@.subrange(pos as int, pos + 2));
        r
    }

    /// Writes the two bytes at `pos`.
    pub fn write_at(&self, bytes: &mut [u8], pos: usize)
        requires
            pos + 2 <= old(bytes)@.len(),
        ensures
            final(bytes)@ == splice(old(bytes)@, pos as int, self.bytes()),
    {
        bytes[pos] = self.t_fine0;
        bytes[pos + 1] = self.t_fine1;
        assert(bytes@ =~= splice(old(bytes)@, pos as int, self.bytes()));
    }

    /// Takes the first two bytes of `bytes`.
    pub fn init_from_bytes(&mut self, bytes: &[u8])
        requires
            bytes@.len() >= 2,
        ensures
            final(self).bytes() == bytes@.subrange(0, 2),
    {
        *self = FineTime2::read_at(bytes, 0);
    }

    /// Writes the two bytes to the start of `bytes`.
    pub fn update_to_bytes(&self, bytes: &mut [u8])
        requires
            old(bytes)@.len() >= 2,
        ensures
            final(bytes)@ == splice(old(bytes)@, 0, self.bytes()),
    {
        self.write_at(bytes, 0);
    }

    /// The bytes in decimal, as `(b0,b1)`.
    pub fn dump_str(&self) -> (r: String)
        ensures
            r@ == tuple_text(self.bytes()),
    {
        let items: [u8; 2] = [self.t_fine0, self.t_fine1];
        assert(items@ =~= self.bytes());
        tuple_string(&items)
    }
}

/// Fine time of three bytes: a binary fraction of a second, 0x1000000 units per second.
#[derive(Clone, Copy, Debug)]
pub struct FineTime3 {
    pub t_fine0: u8,
    pub t_fine1: u8,
    pub t_fine2: u8,
}

impl FineTime3 {
    /// The bytes, most significant first.
    pub open spec fn bytes(&self) -> Seq<u8> {
        seq![self.t_fine0, self.t_fine1, self.t_fine2]
    }

    /// Zero second fractions.
    pub fn new() -> (r: FineTime3)
        ensures
            r.bytes() == zeros(3),
    {
        let r = FineTime3 { t_fine0: 0, t_fine1: 0, t_fine2: 0 };
        assert(r.bytes() =~= zeros(3));
        r
    }

    /// The fine time with the given bytes.
    pub fn new_init(t_fine0: u8, t_fine1: u8, t_fine2: u8) -> (r: FineTime3)
        ensures
            r.bytes() == seq![t_fine0, t_fine1, t_fine2],
    {
        FineTime3 { t_fine0, t_fine1, t_fine2 }
    }

    /// Sets the fraction to the nanoseconds, rounded down to whole units and cut
    /// to three bytes; negative nanoseconds are refused.
    pub fn init_from_nsec(&mut self, nsec: i32) -> (r: Result<(), Exception>)
        ensures
            match r {
                Ok(_) => nsec >= 0 && final(self).bytes() == be_bytes(fine_of(nsec as nat, 3), 3),
                Err(e) => nsec < 0 && e.kind == ErrorKind::NegativeTime && final(self).bytes() == old(self).bytes(),
            },
    {
        if nsec < 0 {
            return Err(raise(ErrorKind::NegativeTime, "CUC time supports only positive second fractions"));
        }
        let fine = (nsec as u64) * 0x1000000 / NSEC_PER_SEC;
        self.t_fine0 = (fine / 0x10000 % 256) as u8;
        self.t_fine1 = (fine / 0x100 % 256) as u8;
        self.t_fine2 = (fine % 256) as u8;
        proof {
            let v = fine_of(nsec as nat, 3);
            lemma_pow256_small(0);
            lemma_pow256_small(1);
            lemma_pow256_small(2);
            lemma_pow256_small(3);
            assert(fine == v);
            assert(be_bytes(v, 3)[0] == byte_of(v, 2));
            assert(be_bytes(v, 3)[1] == byte_of(v, 1));
            assert(be_bytes(v, 3)[2] == byte_of(v, 0));
            assert(self.bytes() =~= be_bytes(v, 3));
        }
        Ok(())
    }

    /// The nanoseconds that the fraction stands for, rounded down.
    pub fn to_nsec(&self) -> (r: i32)
        ensures
            r == nsec_of(be_value(self.bytes()), 3),
    {
        proof {
            lemma_be_small(self.bytes());
            lemma_pow256_small(3);
            lemma_be_value_bound(self.bytes());
            lemma_nsec_bound(be_value(self.bytes()), pow256(3));
        }
        let fine = (self.t_fine0 as u64) * 0x10000 + (self.t_fine1 as u64) * 0x100 + (self.t_fine2 as u64);
        (fine * NSEC_PER_SEC / 0x1000000) as i32
    }

    /// The fine time held in the three bytes at `pos`.
    pub fn read_at(bytes: &[u8], pos: usize) -> (r: FineTime3)
        requires
            pos + 3 <= bytes@.len(),
        ensures
            r.bytes() == bytes@.subrange(pos as int, pos + 3),
    {
        let r = FineTime3 {
            t_fine0: bytes[pos],
            t_fine1: bytes[pos + 1],
            t_fine2: bytes[pos + 2],
        };
        assert(r.bytes() =~= bytes@.subrange(pos as int, pos + 3));
        r
    }

    /// Writes the three bytes at `pos`.
    pub fn write_at(&self, bytes: &mut [u8], pos: usize)
        requires
            pos + 3 <= old(bytes)@.len(),
        ensures
            final(bytes)@ == splice(old(bytes)@, pos as int, self.bytes()),
    {
        bytes[pos] = self.t_fine0;
        bytes[pos + 1] = self.t_fine1;
        bytes[pos + 2] = self.t_fine2;
        assert(bytes@ =~= splice(old(bytes)@, pos as int, self.bytes()));
    }

    /// Takes the first three bytes of `bytes`.
    pub fn init_from_bytes(&mut self, bytes: &[u8])
        requires
            bytes@.len() >= 3,
        ensures
            final(self).bytes() == bytes@.subrange(0, 3),
    {
        *self = FineTime3::read_at(bytes, 0);
    }

    /// Writes the three bytes to the start of `bytes`.
    pub fn update_to_bytes(&self, bytes: &mut [u8])
        requires
            old(bytes)@.len() >= 3,
        ensures
            final(bytes)@ == splice(old(bytes)@, 0, self.bytes()),
    {
        self.write_at(bytes, 0);
    }

    /// The bytes in decimal, as `(b0,b1,b2)`.
    pub fn dump_str(&self) -> (r: String)
        ensures
            r@ == tuple_text(self.bytes()),
    {
        let items: [u8; 3] = [self.t_fine0, self.t_fine1, self.t_fine2];
        assert(items@ =~= self.bytes());
        tuple_string(&items)
    }
}

// ---------------------------------------------------------------------------
// the time code
// ---------------------------------------------------------------------------

/// A CUC time value in one of the sixteen recognised formats.
#[derive(Clone, Copy, Debug)]
#[allow(inconsistent_fields)]
pub enum Time {
    /// Epoch 1958-01-01, selector byte embedded, 0 fine bytes.
    L1Time40 { coarse_time: CoarseTime, fine_time: FineTime0 },
    /// Epoch 1958-01-01, selector byte embedded, 1 fine byte.
    L1Time41 { coarse_time: CoarseTime, fine_time: FineTime1 },
    /// Epoch 1958-01-01, selector byte embedded, 2 fine bytes.
    L1Time42 { coarse_time: CoarseTime, fine_time: FineTime2 },
    /// Epoch 1958-01-01, selector byte embedded, 3 fine bytes.
    L1Time43 { coarse_time: CoarseTime, fine_time: FineTime3 },
    /// Agency-defined epoch, selector byte embedded, 0 fine bytes.
    L2Time40 { coarse_time: CoarseTime, fine_time: FineTime0 },
    /// Agency-defined epoch, selector byte embedded, 1 fine byte.
    L2Time41 { coarse_time: CoarseTime, fine_time: FineTime1 },
    /// Agency-defined epoch, selector byte embedded, 2 fine bytes.
    L2Time42 { coarse_time: CoarseTime, fine_time: FineTime2 },
    /// Agency-defined epoch, selector byte embedded, 3 fine bytes.
    L2Time43 { coarse_time: CoarseTime, fine_time: FineTime3 },
    /// Epoch 1958-01-01, no selector byte, 0 fine bytes.
    T1Time40 { coarse_time: CoarseTime, fine_time: FineTime0 },
    /// Epoch 1958-01-01, no selector byte, 1 fine byte.
    T1Time41 { coarse_time: CoarseTime, fine_time: FineTime1 },
    /// Epoch 1958-01-01, no selector byte, 2 fine bytes.
    T1Time42 { coarse_time: CoarseTime, fine_time: FineTime2 },
    /// Epoch 1958-01-01, no selector byte, 3 fine bytes.
    T1Time43 { coarse_time: CoarseTime, fine_time: FineTime3 },
    /// Agency-defined epoch, no selector byte, 0 fine bytes.
    T2Time40 { coarse_time: CoarseTime, fine_time: FineTime0 },
    /// Agency-defined epoch, no selector byte, 1 fine byte.
    T2Time41 { coarse_time: CoarseTime, fine_time: FineTime1 },
    /// Agency-defined epoch, no selector byte, 2 fine bytes.
    T2Time42 { coarse_time: CoarseTime, fine_time: FineTime2 },
    /// Agency-defined epoch, no selector byte, 3 fine bytes.
    T2Time43 { coarse_time: CoarseTime, fine_time: FineTime3 },
}

/// Whether the time code embeds its selector byte in the encoding.
pub fn has_p_field(p_field: u8) -> (r: bool)
    ensures
        r == embeds_p_field(p_field),
{
    match p_field {
        L1_TIME_4_0 | L1_TIME_4_1 | L1_TIME_4_2 | L1_TIME_4_3 | L2_TIME_4_0 | L2_TIME_4_1
        | L2_TIME_4_2 | L2_TIME_4_3 => true,
        _ => false,
    }
}

/// Whether `p_field` is one of the sixteen recognised time codes.
pub fn is_valid_p_field(p_field: u8) -> (r: bool)
    ensures
        r == is_time_code(p_field),
{
    match p_field {
        L1_TIME_4_0 | L1_TIME_4_1 | L1_TIME_4_2 | L1_TIME_4_3 | L2_TIME_4_0 | L2_TIME_4_1
        | L2_TIME_4_2 | L2_TIME_4_3 | T1_TIME_4_0 | T1_TIME_4_1 | T1_TIME_4_2 | T1_TIME_4_3
        | T2_TIME_4_0 | T2_TIME_4_1 | T2_TIME_4_2 | T2_TIME_4_3 => true,
        _ => false,
    }
}

/// The bytes of coarse and fine time for a time code, without the selector byte.
pub fn get_data_size(p_field: u8) -> (r: Result<usize, Exception>)
    ensures
        match r {
            Ok(n) => is_time_code(p_field) && n == data_size(p_field),
            Err(e) => !is_time_code(p_field) && e.kind == ErrorKind::InvalidFormatCode,
        },
{
    if !is_valid_p_field(p_field) {
        return Err(raise(ErrorKind::InvalidFormatCode, "invalid p-field for CUC time"));
    }
    Ok(4 + (p_field % 4) as usize)
}

/// The bytes of an encoding for a time code, the selector byte included where
/// the code embeds it.
pub fn get_full_data_size(p_field: u8) -> (r: Result<usize, Exception>)
    ensures
        match r {
            Ok(n) => is_time_code(p_field) && n == full_data_size(p_field),
            Err(e) => !is_time_code(p_field) && e.kind == ErrorKind::InvalidFormatCode,
        },
{
    if !is_valid_p_field(p_field) {
        return Err(raise(ErrorKind::InvalidFormatCode, "invalid p-field for CUC time"));
    }
    if has_p_field(p_field) {
        Ok(5 + (p_field % 4) as usize)
    } else {
        Ok(4 + (p_field % 4) as usize)
    }
}

/// The time code's payload holds the calendar time `sec`, `nsec`: the seconds
/// in the coarse bytes, the nanoseconds rounded down to fine units and cut to
/// the fine width.
pub open spec fn calendar_matches(t: Time, sec: int, nsec: int) -> bool {
    &&& t.coarse().bytes() == be_bytes(sec as nat, 4)
    &&& t.fine_bytes() == be_bytes(fine_of(nsec as nat, fine_width(t.code())), fine_width(t.code()))
}

impl Time {
    /// The time code (selector byte) of the format.
    pub open spec fn code(&self) -> u8 {
        match self {
            Time::L1Time40 { .. } => L1_TIME_4_0,
            Time::L1Time41 { .. } => L1_TIME_4_1,
            Time::L1Time42 { .. } => L1_TIME_4_2,
            Time::L1Time43 { .. } => L1_TIME_4_3,
            Time::L2Time40 { .. } => L2_TIME_4_0,
            Time::L2Time41 { .. } => L2_TIME_4_1,
            Time::L2Time42 { .. } => L2_TIME_4_2,
            Time::L2Time43 { .. } => L2_TIME_4_3,
            Time::T1Time40 { .. } => T1_TIME_4_0,
            Time::T1Time41 { .. } => T1_TIME_4_1,
            Time::T1Time42 { .. } => T1_TIME_4_2,
            Time::T1Time43 { .. } => T1_TIME_4_3,
            Time::T2Time40 { .. } => T2_TIME_4_0,
            Time::T2Time41 { .. } => T2_TIME_4_1,
            Time::T2Time42 { .. } => T2_TIME_4_2,
            Time::T2Time43 { .. } => T2_TIME_4_3,
        }
    }

    /// The coarse time.
    pub open spec fn coarse(&self) -> CoarseTime {
        match self {
            Time::L1Time40 { coarse_time, .. } => *coarse_time,
            Time::L1Time41 { coarse_time, .. } => *coarse_time,
            Time::L1Time42 { coarse_time, .. } => *coarse_time,
            Time::L1Time43 { coarse_time, .. } => *coarse_time,
            Time::L2Time40 { coarse_time, .. } => *coarse_time,
            Time::L2Time41 { coarse_time, .. } => *coarse_time,
            Time::L2Time42 { coarse_time, .. } => *coarse_time,
            Time::L2Time43 { coarse_time, .. } => *coarse_time,
            Time::T1Time40 { coarse_time, .. } => *coarse_time,
            Time::T1Time41 { coarse_time, .. } => *coarse_time,
            Time::T1Time42 { coarse_time, .. } => *coarse_time,
            Time::T1Time43 { coarse_time, .. } => *coarse_time,
            Time::T2Time40 { coarse_time, .. } => *coarse_time,
            Time::T2Time41 { coarse_time, .. } => *coarse_time,
            Time::T2Time42 { coarse_time, .. } => *coarse_time,
            Time::T2Time43 { coarse_time, .. } => *coarse_time,
        }
    }

    /// The fine-time bytes, most significant first.
    pub open spec fn fine_bytes(&self) -> Seq<u8> {
        match self {
            Time::L1Time40 { fine_time, .. } => fine_time.bytes(),
            Time::L1Time41 { fine_time, .. } => fine_time.bytes(),
            Time::L1Time42 { fine_time, .. } => fine_time.bytes(),
            Time::L1Time43 { fine_time, .. } => fine_time.bytes(),
            Time::L2Time40 { fine_time, .. } => fine_time.bytes(),
            Time::L2Time41 { fine_time, .. } => fine_time.bytes(),
            Time::L2Time42 { fine_time, .. } => fine_time.bytes(),
            Time::L2Time43 { fine_time, .. } => fine_time.bytes(),
            Time::T1Time40 { fine_time, .. } => fine_time.bytes(),
            Time::T1Time41 { fine_time, .. } => fine_time.bytes(),
            Time::T1Time42 { fine_time, .. } => fine_time.bytes(),
            Time::T1Time43 { fine_time, .. } => fine_time.bytes(),
            Time::T2Time40 { fine_time, .. } => fine_time.bytes(),
            Time::T2Time41 { fine_time, .. } => fine_time.bytes(),
            Time::T2Time42 { fine_time, .. } => fine_time.bytes(),
            Time::T2Time43 { fine_time, .. } => fine_time.bytes(),
        }
    }

    /// The name of the format.
    pub open spec fn name(&self) -> Seq<char> {
        match self {
            Time::L1Time40 { .. } => seq!['L', '1', 'T', 'i', 'm', 'e', '4', '0'],
            Time::L1Time41 { .. } => seq!['L', '1', 'T', 'i', 'm', 'e', '4', '1'],
            Time::L1Time42 { .. } => seq!['L', '1', 'T', 'i', 'm', 'e', '4', '2'],
            Time::L1Time43 { .. } => seq!['L', '1', 'T', 'i', 'm', 'e', '4', '3'],
            Time::L2Time40 { .. } => seq!['L', '2', 'T', 'i', 'm', 'e', '4', '0'],
            Time::L2Time41 { .. } => seq!['L', '2', 'T', 'i', 'm', 'e', '4', '1'],
            Time::L2Time42 { .. } => seq!['L', '2', 'T', 'i', 'm', 'e', '4', '2'],
            Time::L2Time43 { .. } => seq!['L', '2', 'T', 'i', 'm', 'e', '4', '3'],
            Time::T1Time40 { .. } => seq!['T', '1', 'T', 'i', 'm', 'e', '4', '0'],
            Time::T1Time41 { .. } => seq!['T', '1', 'T', 'i', 'm', 'e', '4', '1'],
            Time::T1Time42 { .. } => seq!['T', '1', 'T', 'i', 'm', 'e', '4', '2'],
            Time::T1Time43 { .. } => seq!['T', '1', 'T', 'i', 'm', 'e', '4', '3'],
            Time::T2Time40 { .. } => seq!['T', '2', 'T', 'i', 'm', 'e', '4', '0'],
            Time::T2Time41 { .. } => seq!['T', '2', 'T', 'i', 'm', 'e', '4', '1'],
            Time::T2Time42 { .. } => seq!['T', '2', 'T', 'i', 'm', 'e', '4', '2'],
            Time::T2Time43 { .. } => seq!['T', '2', 'T', 'i', 'm', 'e', '4', '3'],
        }
    }

    /// The encoding: the selector byte where the format embeds it, then the
    /// coarse bytes, then the fine bytes.
    pub open spec fn encoding(&self) -> Seq<u8> {
        (if embeds_p_field(self.code()) {
            seq![self.code()]
        } else {
            Seq::empty()
        }) + self.coarse().bytes() + self.fine_bytes()
    }

    /// The seconds of the calendar time.
    pub open spec fn seconds(&self) -> nat {
        be_value(self.coarse().bytes())
    }

    /// The nanoseconds of the calendar time, rounded down.
    pub open spec fn nanoseconds(&self) -> nat {
        nsec_of(be_value(self.fine_bytes()), fine_width(self.code()))
    }

    /// Every value has a recognised code and as many fine bytes as its code says.
    pub proof fn lemma_well_formed(&self)
        ensures
            is_time_code(self.code()),
            self.fine_bytes().len() == fine_width(self.code()),
            self.encoding().len() == full_data_size(self.code()),
    {
    }

    /// The zero time in format L1Time40.
    pub fn new_l1_time_4_0() -> (r: Time)
        ensures
            r.code() == L1_TIME_4_0,
            r.coarse().bytes() == zeros(4),
            r.fine_bytes() == zeros(0),
    {
        Time::L1Time40 { coarse_time: CoarseTime::new(), fine_time: FineTime0::new() }
    }

    /// The zero time in format L1Time41.
    pub fn new_l1_time_4_1() -> (r: Time)
        ensures
            r.code() == L1_TIME_4_1,
            r.coarse().bytes() == zeros(4),
            r.fine_bytes() == zeros(1),
    {
        Time::L1Time41 { coarse_time: CoarseTime::new(), fine_time: FineTime1::new() }
    }

    /// The zero time in format L1Time42.
    pub fn new_l1_time_4_2() -> (r: Time)
        ensures
            r.code() == L1_TIME_4_2,
            r.coarse().bytes() == zeros(4),
            r.fine_bytes() == zeros(2),
    {
        Time::L1Time42 { coarse_time: CoarseTime::new(), fine_time: FineTime2::new() }
    }

    /// The zero time in format L1Time43.
    pub fn new_l1_time_4_3() -> (r: Time)
        ensures
            r.code() == L1_TIME_4_3,
            r.coarse().bytes() == zeros(4),
            r.fine_bytes() == zeros(3),
    {
        Time::L1Time43 { coarse_time: CoarseTime::new(), fine_time: FineTime3::new() }
    }

    /// The zero time in format L2Time40.
    pub fn new_l2_time_4_0() -> (r: Time)
        ensures
            r.code() == L2_TIME_4_0,
            r.coarse().bytes() == zeros(4),
            r.fine_bytes() == zeros(0),
    {
        Time::L2Time40 { coarse_time: CoarseTime::new(), fine_time: FineTime0::new() }
    }

    /// The zero time in format L2Time41.
    pub fn new_l2_time_4_1() -> (r: Time)
        ensures
            r.code() == L2_TIME_4_1,
            r.coarse().bytes() == zeros(4),
            r.fine_bytes() == zeros(1),
    {
        Time::L2Time41 { coarse_time: CoarseTime::new(), fine_time: FineTime1::new() }
    }

    /// The zero time in format L2Time42.
    pub fn new_l2_time_4_2() -> (r: Time)
        ensures
            r.code() == L2_TIME_4_2,
            r.coarse().bytes() == zeros(4),
            r.fine_bytes() == zeros(2),
    {
        Time::L2Time42 { coarse_time: CoarseTime::new(), fine_time: FineTime2::new() }
    }

    /// The zero time in format L2Time43.
    pub fn new_l2_time_4_3() -> (r: Time)
        ensures
            r.code() == L2_TIME_4_3,
            r.coarse().bytes() == zeros(4),
            r.fine_bytes() == zeros(3),
    {
        Time::L2Time43 { coarse_time: CoarseTime::new(), fine_time: FineTime3::new() }
    }

    /// The zero time in format T1Time40.
    pub fn new_t1_time_4_0() -> (r: Time)
        ensures
            r.code() == T1_TIME_4_0,
            r.coarse().bytes() == zeros(4),
            r.fine_bytes() == zeros(0),
    {
        Time::T1Time40 { coarse_time: CoarseTime::new(), fine_time: FineTime0::new() }
    }

    /// The zero time in format T1Time41.
    pub fn new_t1_time_4_1() -> (r: Time)
        ensures
            r.code() == T1_TIME_4_1,
            r.coarse().bytes() == zeros(4),
            r.fine_bytes() == zeros(1),
    {
        Time::T1Time41 { coarse_time: CoarseTime::new(), fine_time: FineTime1::new() }
    }

    /// The zero time in format T1Time42.
    pub fn new_t1_time_4_2() -> (r: Time)
        ensures
            r.code() == T1_TIME_4_2,
            r.coarse().bytes() == zeros(4),
            r.fine_bytes() == zeros(2),
    {
        Time::T1Time42 { coarse_time: CoarseTime::new(), fine_time: FineTime2::new() }
    }

    /// The zero time in format T1Time43.
    pub fn new_t1_time_4_3() -> (r: Time)
        ensures
            r.code() == T1_TIME_4_3,
            r.coarse().bytes() == zeros(4),
            r.fine_bytes() == zeros(3),
    {
        Time::T1Time43 { coarse_time: CoarseTime::new(), fine_time: FineTime3::new() }
    }

    /// The zero time in format T2Time40.
    pub fn new_t2_time_4_0() -> (r: Time)
        ensures
            r.code() == T2_TIME_4_0,
            r.coarse().bytes() == zeros(4),
            r.fine_bytes() == zeros(0),
    {
        Time::T2Time40 { coarse_time: CoarseTime::new(), fine_time: FineTime0::new() }
    }

    /// The zero time in format T2Time41.
    pub fn new_t2_time_4_1() -> (r: Time)
        ensures
            r.code() == T2_TIME_4_1,
            r.coarse().bytes() == zeros(4),
            r.fine_bytes() == zeros(1),
    {
        Time::T2Time41 { coarse_time: CoarseTime::new(), fine_time: FineTime1::new() }
    }

    /// The zero time in format T2Time42.
    pub fn new_t2_time_4_2() -> (r: Time)
        ensures
            r.code() == T2_TIME_4_2,
            r.coarse().bytes() == zeros(4),
            r.fine_bytes() == zeros(2),
    {
        Time::T2Time42 { coarse_time: CoarseTime::new(), fine_time: FineTime2::new() }
    }

    /// The zero time in format T2Time43.
    pub fn new_t2_time_4_3() -> (r: Time)
        ensures
            r.code() == T2_TIME_4_3,
            r.coarse().bytes() == zeros(4),
            r.fine_bytes() == zeros(3),
    {
        Time::T2Time43 { coarse_time: CoarseTime::new(), fine_time: FineTime3::new() }
    }

    /// The time in format L1Time40 with the given coarse and fine bytes.
    pub fn new_l1_time_4_0_init(
        t_coarse0: u8,
        t_coarse1: u8,
        t_coarse2: u8,
        t_coarse3: u8,
    ) -> (r: Time)
        ensures
            r.code() == L1_TIME_4_0,
            r.coarse().bytes() == seq![t_coarse0, t_coarse1, t_coarse2, t_coarse3],
            r.fine_bytes() == Seq::<u8>::empty(),
    {
        Time::L1Time40 {
            coarse_time: CoarseTime::new_init(t_coarse0, t_coarse1, t_coarse2, t_coarse3),
            fine_time: FineTime0::new_init(),
        }
    }

    /// The time in format L1Time41 with the given coarse and fine bytes.
    pub fn new_l1_time_4_1_init(
        t_coarse0: u8,
        t_coarse1: u8,
        t_coarse2: u8,
        t_coarse3: u8,
        t_fine0: u8,
    ) -> (r: Time)
        ensures
            r.code() == L1_TIME_4_1,
            r.coarse().bytes() == seq![t_coarse0, t_coarse1, t_coarse2, t_coarse3],
            r.fine_bytes() == seq![t_fine0],
    {
        Time::L1Time41 {
            coarse_time: CoarseTime::new_init(t_coarse0, t_coarse1, t_coarse2, t_coarse3),
            fine_time: FineTime1::new_init(t_fine0),
        }
    }

    /// The time in format L1Time42 with the given coarse and fine bytes.
    pub fn new_l1_time_4_2_init(
        t_coarse0: u8,
        t_coarse1: u8,
        t_coarse2: u8,
        t_coarse3: u8,
        t_fine0: u8,
        t_fine1: u8,
    ) -> (r: Time)
        ensures
            r.code() == L1_TIME_4_2,
            r.coarse().bytes() == seq![t_coarse0, t_coarse1, t_coarse2, t_coarse3],
            r.fine_bytes() == seq![t_fine0, t_fine1],
    {
        Time::L1Time42 {
            coarse_time: CoarseTime::new_init(t_coarse0, t_coarse1, t_coarse2, t_coarse3),
            fine_time: FineTime2::new_init(t_fine0, t_fine1),
        }
    }

    /// The time in format L1Time43 with the given coarse and fine bytes.
    pub fn new_l1_time_4_3_init(
        t_coarse0: u8,
        t_coarse1: u8,
        t_coarse2: u8,
        t_coarse3: u8,
        t_fine0: u8,
        t_fine1: u8,
        t_fine2: u8,
    ) -> (r: Time)
        ensures
            r.code() == L1_TIME_4_3,
            r.coarse().bytes() == seq![t_coarse0, t_coarse1, t_coarse2, t_coarse3],
            r.fine_bytes() == seq![t_fine0, t_fine1, t_fine2],
    {
        Time::L1Time43 {
            coarse_time: CoarseTime::new_init(t_coarse0, t_coarse1, t_coarse2, t_coarse3),
            fine_time: FineTime3::new_init(t_fine0, t_fine1, t_fine2),
        }
    }

    /// The time in format L2Time40 with the given coarse and fine bytes.
    pub fn new_l2_time_4_0_init(
        t_coarse0: u8,
        t_coarse1: u8,
        t_coarse2: u8,
        t_coarse3: u8,
    ) -> (r: Time)
        ensures
            r.code() == L2_TIME_4_0,
            r.coarse().bytes() == seq![t_coarse0, t_coarse1, t_coarse2, t_coarse3],
            r.fine_bytes() == Seq::<u8>::empty(),
    {
        Time::L2Time40 {
            coarse_time: CoarseTime::new_init(t_coarse0, t_coarse1, t_coarse2, t_coarse3),
            fine_time: FineTime0::new_init(),
        }
    }

    /// The time in format L2Time41 with the given coarse and fine bytes.
    pub fn new_l2_time_4_1_init(
        t_coarse0: u8,
        t_coarse1: u8,
        t_coarse2: u8,
        t_coarse3: u8,
        t_fine0: u8,
    ) -> (r: Time)
        ensures
            r.code() == L2_TIME_4_1,
            r.coarse().bytes() == seq![t_coarse0, t_coarse1, t_coarse2, t_coarse3],
            r.fine_bytes() == seq![t_fine0],
    {
        Time::L2Time41 {
            coarse_time: CoarseTime::new_init(t_coarse0, t_coarse1, t_coarse2, t_coarse3),
            fine_time: FineTime1::new_init(t_fine0),
        }
    }

    /// The time in format L2Time42 with the given coarse and fine bytes.
    pub fn new_l2_time_4_2_init(
        t_coarse0: u8,
        t_coarse1: u8,
        t_coarse2: u8,
        t_coarse3: u8,
        t_fine0: u8,
        t_fine1: u8,
    ) -> (r: Time)
        ensures
            r.code() == L2_TIME_4_2,
            r.coarse().bytes() == seq![t_coarse0, t_coarse1, t_coarse2, t_coarse3],
            r.fine_bytes() == seq![t_fine0, t_fine1],
    {
        Time::L2Time42 {
            coarse_time: CoarseTime::new_init(t_coarse0, t_coarse1, t_coarse2, t_coarse3),
            fine_time: FineTime2::new_init(t_fine0, t_fine1),
        }
    }

    /// The time in format L2Time43 with the given coarse and fine bytes.
    pub fn new_l2_time_4_3_init(
        t_coarse0: u8,
        t_coarse1: u8,
        t_coarse2: u8,
        t_coarse3: u8,
        t_fine0: u8,
        t_fine1: u8,
        t_fine2: u8,
    ) -> (r: Time)
        ensures
            r.code() == L2_TIME_4_3,
            r.coarse().bytes() == seq![t_coarse0, t_coarse1, t_coarse2, t_coarse3],
            r.fine_bytes() == seq![t_fine0, t_fine1, t_fine2],
    {
        Time::L2Time43 {
            coarse_time: CoarseTime::new_init(t_coarse0, t_coarse1, t_coarse2, t_coarse3),
            fine_time: FineTime3::new_init(t_fine0, t_fine1, t_fine2),
        }
    }

    /// The time in format T1Time40 with the given coarse and fine bytes.
    pub fn new_t1_time_4_0_init(
        t_coarse0: u8,
        t_coarse1: u8,
        t_coarse2: u8,
        t_coarse3: u8,
    ) -> (r: Time)
        ensures
            r.code() == T1_TIME_4_0,
            r.coarse().bytes() == seq![t_coarse0, t_coarse1, t_coarse2, t_coarse3],
            r.fine_bytes() == Seq::<u8>::empty(),
    {
        Time::T1Time40 {
            coarse_time: CoarseTime::new_init(t_coarse0, t_coarse1, t_coarse2, t_coarse3),
            fine_time: FineTime0::new_init(),
        }
    }

    /// The time in format T1Time41 with the given coarse and fine bytes.
    pub fn new_t1_time_4_1_init(
        t_coarse0: u8,
        t_coarse1: u8,
        t_coarse2: u8,
        t_coarse3: u8,
        t_fine0: u8,
    ) -> (r: Time)
        ensures
            r.code() == T1_TIME_4_1,
            r.coarse().bytes() == seq![t_coarse0, t_coarse1, t_coarse2, t_coarse3],
            r.fine_bytes() == seq![t_fine0],
    {
        Time::T1Time41 {
            coarse_time: CoarseTime::new_init(t_coarse0, t_coarse1, t_coarse2, t_coarse3),
            fine_time: FineTime1::new_init(t_fine0),
        }
    }

    /// The time in format T1Time42 with the given coarse and fine bytes.
    pub fn new_t1_time_4_2_init(
        t_coarse0: u8,
        t_coarse1: u8,
        t_coarse2: u8,
        t_coarse3: u8,
        t_fine0: u8,
        t_fine1: u8,
    ) -> (r: Time)
        ensures
            r.code() == T1_TIME_4_2,
            r.coarse().bytes() == seq![t_coarse0, t_coarse1, t_coarse2, t_coarse3],
            r.fine_bytes() == seq![t_fine0, t_fine1],
    {
        Time::T1Time42 {
            coarse_time: CoarseTime::new_init(t_coarse0, t_coarse1, t_coarse2, t_coarse3),
            fine_time: FineTime2::new_init(t_fine0, t_fine1),
        }
    }

    /// The time in format T1Time43 with the given coarse and fine bytes.
    pub fn new_t1_time_4_3_init(
        t_coarse0: u8,
        t_coarse1: u8,
        t_coarse2: u8,
        t_coarse3: u8,
        t_fine0: u8,
        t_fine1: u8,
        t_fine2: u8,
    ) -> (r: Time)
        ensures
            r.code() == T1_TIME_4_3,
            r.coarse().bytes() == seq![t_coarse0, t_coarse1, t_coarse2, t_coarse3],
            r.fine_bytes() == seq![t_fine0, t_fine1, t_fine2],
    {
        Time::T1Time43 {
            coarse_time: CoarseTime::new_init(t_coarse0, t_coarse1, t_coarse2, t_coarse3),
            fine_time: FineTime3::new_init(t_fine0, t_fine1, t_fine2),
        }
    }

    /// The time in format T2Time40 with the given coarse and fine bytes.
    pub fn new_t2_time_4_0_init(
        t_coarse0: u8,
        t_coarse1: u8,
        t_coarse2: u8,
        t_coarse3: u8,
    ) -> (r: Time)
        ensures
            r.code() == T2_TIME_4_0,
            r.coarse().bytes() == seq![t_coarse0, t_coarse1, t_coarse2, t_coarse3],
            r.fine_bytes() == Seq::<u8>::empty(),
    {
        Time::T2Time40 {
            coarse_time: CoarseTime::new_init(t_coarse0, t_coarse1, t_coarse2, t_coarse3),
            fine_time: FineTime0::new_init(),
        }
    }

    /// The time in format T2Time41 with the given coarse and fine bytes.
    pub fn new_t2_time_4_1_init(
        t_coarse0: u8,
        t_coarse1: u8,
        t_coarse2: u8,
        t_coarse3: u8,
        t_fine0: u8,
    ) -> (r: Time)
        ensures
            r.code() == T2_TIME_4_1,
            r.coarse().bytes() == seq![t_coarse0, t_coarse1, t_coarse2, t_coarse3],
            r.fine_bytes() == seq![t_fine0],
    {
        Time::T2Time41 {
            coarse_time: CoarseTime::new_init(t_coarse0, t_coarse1, t_coarse2, t_coarse3),
            fine_time: FineTime1::new_init(t_fine0),
        }
    }

    /// The time in format T2Time42 with the given coarse and fine bytes.
    pub fn new_t2_time_4_2_init(
        t_coarse0: u8,
        t_coarse1: u8,
        t_coarse2: u8,
        t_coarse3: u8,
        t_fine0: u8,
        t_fine1: u8,
    ) -> (r: Time)
        ensures
            r.code() == T2_TIME_4_2,
            r.coarse().bytes() == seq![t_coarse0, t_coarse1, t_coarse2, t_coarse3],
            r.fine_bytes() == seq![t_fine0, t_fine1],
    {
        Time::T2Time42 {
            coarse_time: CoarseTime::new_init(t_coarse0, t_coarse1, t_coarse2, t_coarse3),
            fine_time: FineTime2::new_init(t_fine0, t_fine1),
        }
    }

    /// The time in format T2Time43 with the given coarse and fine bytes.
    pub fn new_t2_time_4_3_init(
        t_coarse0: u8,
        t_coarse1: u8,
        t_coarse2: u8,
        t_coarse3: u8,
        t_fine0: u8,
        t_fine1: u8,
        t_fine2: u8,
    ) -> (r: Time)
        ensures
            r.code() == T2_TIME_4_3,
            r.coarse().bytes() == seq![t_coarse0, t_coarse1, t_coarse2, t_coarse3],
            r.fine_bytes() == seq![t_fine0, t_fine1, t_fine2],
    {
        Time::T2Time43 {
            coarse_time: CoarseTime::new_init(t_coarse0, t_coarse1, t_coarse2, t_coarse3),
            fine_time: FineTime3::new_init(t_fine0, t_fine1, t_fine2),
        }
    }

    /// The time in format `p_field` with the given coarse time and the first
    /// fine bytes of `f0`, `f1`, `f2` that the format has.
    fn assemble(p_field: u8, coarse_time: CoarseTime, f0: u8, f1: u8, f2: u8) -> (r: Time)
        requires
            is_time_code(p_field),
        ensures
            r.code() == p_field,
            r.coarse() == coarse_time,
            r.fine_bytes() == seq![f0, f1, f2].take(fine_width(p_field) as int),
    {
        let r = match p_field {
            L1_TIME_4_0 => Time::L1Time40 { coarse_time, fine_time: FineTime0::new_init() },
            L1_TIME_4_1 => Time::L1Time41 { coarse_time, fine_time: FineTime1::new_init(f0) },
            L1_TIME_4_2 => Time::L1Time42 { coarse_time, fine_time: FineTime2::new_init(f0, f1) },
            L1_TIME_4_3 => Time::L1Time43 { coarse_time, fine_time: FineTime3::new_init(f0, f1, f2) },
            L2_TIME_4_0 => Time::L2Time40 { coarse_time, fine_time: FineTime0::new_init() },
            L2_TIME_4_1 => Time::L2Time41 { coarse_time, fine_time: FineTime1::new_init(f0) },
            L2_TIME_4_2 => Time::L2Time42 { coarse_time, fine_time: FineTime2::new_init(f0, f1) },
            L2_TIME_4_3 => Time::L2Time43 { coarse_time, fine_time: FineTime3::new_init(f0, f1, f2) },
            T1_TIME_4_0 => Time::T1Time40 { coarse_time, fine_time: FineTime0::new_init() },
            T1_TIME_4_1 => Time::T1Time41 { coarse_time, fine_time: FineTime1::new_init(f0) },
            T1_TIME_4_2 => Time::T1Time42 { coarse_time, fine_time: FineTime2::new_init(f0, f1) },
            T1_TIME_4_3 => Time::T1Time43 { coarse_time, fine_time: FineTime3::new_init(f0, f1, f2) },
            T2_TIME_4_0 => Time::T2Time40 { coarse_time, fine_time: FineTime0::new_init() },
            T2_TIME_4_1 => Time::T2Time41 { coarse_time, fine_time: FineTime1::new_init(f0) },
            T2_TIME_4_2 => Time::T2Time42 { coarse_time, fine_time: FineTime2::new_init(f0, f1) },
            T2_TIME_4_3 => Time::T2Time43 { coarse_time, fine_time: FineTime3::new_init(f0, f1, f2) },
            _ => vstd::pervasive::unreached(),
        };
        assert(r.fine_bytes() =~= seq![f0, f1, f2].take(fine_width(p_field) as int));
        r
    }

    /// The zero time in the format of a recognised time code.
    pub fn new_from_p_field(p_field: u8) -> (r: Result<Time, Exception>)
        ensures
            match r {
                Ok(t) => is_time_code(p_field) && t.code() == p_field && t.coarse().bytes() == zeros(4)
                    && t.fine_bytes() == zeros(fine_width(p_field)),
                Err(e) => !is_time_code(p_field) && e.kind == ErrorKind::InvalidFormatCode,
            },
    {
        match p_field {
            L1_TIME_4_0 => Ok(Time::new_l1_time_4_0()),
            L1_TIME_4_1 => Ok(Time::new_l1_time_4_1()),
            L1_TIME_4_2 => Ok(Time::new_l1_time_4_2()),
            L1_TIME_4_3 => Ok(Time::new_l1_time_4_3()),
            L2_TIME_4_0 => Ok(Time::new_l2_time_4_0()),
            L2_TIME_4_1 => Ok(Time::new_l2_time_4_1()),
            L2_TIME_4_2 => Ok(Time::new_l2_time_4_2()),
            L2_TIME_4_3 => Ok(Time::new_l2_time_4_3()),
            T1_TIME_4_0 => Ok(Time::new_t1_time_4_0()),
            T1_TIME_4_1 => Ok(Time::new_t1_time_4_1()),
            T1_TIME_4_2 => Ok(Time::new_t1_time_4_2()),
            T1_TIME_4_3 => Ok(Time::new_t1_time_4_3()),
            T2_TIME_4_0 => Ok(Time::new_t2_time_4_0()),
            T2_TIME_4_1 => Ok(Time::new_t2_time_4_1()),
            T2_TIME_4_2 => Ok(Time::new_t2_time_4_2()),
            T2_TIME_4_3 => Ok(Time::new_t2_time_4_3()),
            _ => Err(raise(ErrorKind::InvalidFormatCode, "invalid p-field for CUC time creation")),
        }
    }

    /// The calendar time `timespec` in the format of `p_field`: the seconds as
    /// coarse time, the nanoseconds rounded down to fine units.
    pub fn new_from_timespec(p_field: u8, timespec: Timespec) -> (r: Result<Time, Exception>)
        ensures
            match r {
                Ok(t) => is_time_code(p_field) && 0 <= timespec.sec <= MAX_COARSE_SEC && timespec.nsec >= 0
                    && t.code() == p_field && calendar_matches(t, timespec.sec as int, timespec.nsec as int),
                Err(e) => if !is_time_code(p_field) {
                    e.kind == ErrorKind::InvalidFormatCode
                } else if timespec.sec < 0 {
                    e.kind == ErrorKind::NegativeTime
                } else if timespec.sec > MAX_COARSE_SEC {
                    e.kind == ErrorKind::OutOfRange
                } else {
                    timespec.nsec < 0 && e.kind == ErrorKind::NegativeTime
                },
            },
    {
        let mut time = match Time::new_from_p_field(p_field) {
            Err(err) => return Err(err),
            Ok(time) => time,
        };
        if let Err(err) = time.init_from_timespec(timespec) {
            return Err(err);
        }
        Ok(time)
    }

    /// The time code of the format.
    pub fn get_p_field(self) -> (r: u8)
        ensures
            r == self.code(),
    {
        match self {
            Time::L1Time40 { .. } => L1_TIME_4_0,
            Time::L1Time41 { .. } => L1_TIME_4_1,
            Time::L1Time42 { .. } => L1_TIME_4_2,
            Time::L1Time43 { .. } => L1_TIME_4_3,
            Time::L2Time40 { .. } => L2_TIME_4_0,
            Time::L2Time41 { .. } => L2_TIME_4_1,
            Time::L2Time42 { .. } => L2_TIME_4_2,
            Time::L2Time43 { .. } => L2_TIME_4_3,
            Time::T1Time40 { .. } => T1_TIME_4_0,
            Time::T1Time41 { .. } => T1_TIME_4_1,
            Time::T1Time42 { .. } => T1_TIME_4_2,
            Time::T1Time43 { .. } => T1_TIME_4_3,
            Time::T2Time40 { .. } => T2_TIME_4_0,
            Time::T2Time41 { .. } => T2_TIME_4_1,
            Time::T2Time42 { .. } => T2_TIME_4_2,
            Time::T2Time43 { .. } => T2_TIME_4_3,
        }
    }

    /// The coarse time.
    pub fn coarse_time(&self) -> (r: CoarseTime)
        ensures
            r == self.coarse(),
    {
        match self {
            Time::L1Time40 { coarse_time, .. } => *coarse_time,
            Time::L1Time41 { coarse_time, .. } => *coarse_time,
            Time::L1Time42 { coarse_time, .. } => *coarse_time,
            Time::L1Time43 { coarse_time, .. } => *coarse_time,
            Time::L2Time40 { coarse_time, .. } => *coarse_time,
            Time::L2Time41 { coarse_time, .. } => *coarse_time,
            Time::L2Time42 { coarse_time, .. } => *coarse_time,
            Time::L2Time43 { coarse_time, .. } => *coarse_time,
            Time::T1Time40 { coarse_time, .. } => *coarse_time,
            Time::T1Time41 { coarse_time, .. } => *coarse_time,
            Time::T1Time42 { coarse_time, .. } => *coarse_time,
            Time::T1Time43 { coarse_time, .. } => *coarse_time,
            Time::T2Time40 { coarse_time, .. } => *coarse_time,
            Time::T2Time41 { coarse_time, .. } => *coarse_time,
            Time::T2Time42 { coarse_time, .. } => *coarse_time,
            Time::T2Time43 { coarse_time, .. } => *coarse_time,
        }
    }

    /// The fine bytes, padded with zeros to three.
    fn fine_parts(&self) -> (r: (u8, u8, u8))
        ensures
            seq![r.0, r.1, r.2].take(fine_width(self.code()) as int) == self.fine_bytes(),
    {
        let r = match self {
            Time::L1Time40 { .. } => (0, 0, 0),
            Time::L1Time41 { fine_time, .. } => (fine_time.t_fine0, 0, 0),
            Time::L1Time42 { fine_time, .. } => (fine_time.t_fine0, fine_time.t_fine1, 0),
            Time::L1Time43 { fine_time, .. } => (fine_time.t_fine0, fine_time.t_fine1, fine_time.t_fine2),
            Time::L2Time40 { .. } => (0, 0, 0),
            Time::L2Time41 { fine_time, .. } => (fine_time.t_fine0, 0, 0),
            Time::L2Time42 { fine_time, .. } => (fine_time.t_fine0, fine_time.t_fine1, 0),
            Time::L2Time43 { fine_time, .. } => (fine_time.t_fine0, fine_time.t_fine1, fine_time.t_fine2),
            Time::T1Time40 { .. } => (0, 0, 0),
            Time::T1Time41 { fine_time, .. } => (fine_time.t_fine0, 0, 0),
            Time::T1Time42 { fine_time, .. } => (fine_time.t_fine0, fine_time.t_fine1, 0),
            Time::T1Time43 { fine_time, .. } => (fine_time.t_fine0, fine_time.t_fine1, fine_time.t_fine2),
            Time::T2Time40 { .. } => (0, 0, 0),
            Time::T2Time41 { fine_time, .. } => (fine_time.t_fine0, 0, 0),
            Time::T2Time42 { fine_time, .. } => (fine_time.t_fine0, fine_time.t_fine1, 0),
            Time::T2Time43 { fine_time, .. } => (fine_time.t_fine0, fine_time.t_fine1, fine_time.t_fine2),
        };
        assert(seq![r.0, r.1, r.2].take(fine_width(self.code()) as int) =~= self.fine_bytes());
        r
    }

    /// Sets the time to the calendar time `timespec`, keeping the format;
    /// on failure the value stays as it was.
    pub fn init_from_timespec(&mut self, timespec: Timespec) -> (r: Result<(), Exception>)
        ensures
            match r {
                Ok(_) => 0 <= timespec.sec <= MAX_COARSE_SEC && timespec.nsec >= 0
                    && final(self).code() == old(self).code()
                    && calendar_matches(*final(self), timespec.sec as int, timespec.nsec as int),
                Err(e) => *final(self) == *old(self) && if timespec.sec < 0 {
                    e.kind == ErrorKind::NegativeTime
                } else if timespec.sec > MAX_COARSE_SEC {
                    e.kind == ErrorKind::OutOfRange
                } else {
                    timespec.nsec < 0 && e.kind == ErrorKind::NegativeTime
                },
            },
    {
        let mut coarse_time = CoarseTime::new();
        if let Err(err) = coarse_time.init_from_sec(timespec.sec) {
            return Err(err);
        }
        let p_field = self.get_p_field();
        proof {
            self.lemma_well_formed();
        }
        let nsec = timespec.nsec;
        let (f0, f1, f2) = match p_field % 4 {
            0 => {
                let mut fine_time = FineTime0::new();
                if let Err(err) = fine_time.init_from_nsec(nsec) {
                    return Err(err);
                }
                (0u8, 0u8, 0u8)
            },
            1 => {
                let mut fine_time = FineTime1::new();
                if let Err(err) = fine_time.init_from_nsec(nsec) {
                    return Err(err);
                }
                (fine_time.t_fine0, 0u8, 0u8)
            },
            2 => {
                let mut fine_time = FineTime2::new();
                if let Err(err) = fine_time.init_from_nsec(nsec) {
                    return Err(err);
                }
                (fine_time.t_fine0, fine_time.t_fine1, 0u8)
            },
            _ => {
                let mut fine_time = FineTime3::new();
                if let Err(err) = fine_time.init_from_nsec(nsec) {
                    return Err(err);
                }
                (fine_time.t_fine0, fine_time.t_fine1, fine_time.t_fine2)
            },
        };
        let time = Time::assemble(p_field, coarse_time, f0, f1, f2);
        proof {
            let w = fine_width(p_field);
            assert(time.fine_bytes() =~= be_bytes(fine_of(nsec as nat, w), w));
        }
        *self = time;
        Ok(())
    }

    /// The calendar time: the coarse time as seconds, the fine time as
    /// nanoseconds rounded down.
    pub fn to_timespec(&self) -> (r: Timespec)
        ensures
            r.sec == self.seconds(),
            r.nsec == self.nanoseconds(),
    {
        let sec = self.coarse_time().to_sec();
        let nsec = match self {
            Time::L1Time40 { fine_time, .. } => fine_time.to_nsec(),
            Time::L1Time41 { fine_time, .. } => fine_time.to_nsec(),
            Time::L1Time42 { fine_time, .. } => fine_time.to_nsec(),
            Time::L1Time43 { fine_time, .. } => fine_time.to_nsec(),
            Time::L2Time40 { fine_time, .. } => fine_time.to_nsec(),
            Time::L2Time41 { fine_time, .. } => fine_time.to_nsec(),
            Time::L2Time42 { fine_time, .. } => fine_time.to_nsec(),
            Time::L2Time43 { fine_time, .. } => fine_time.to_nsec(),
            Time::T1Time40 { fine_time, .. } => fine_time.to_nsec(),
            Time::T1Time41 { fine_time, .. } => fine_time.to_nsec(),
            Time::T1Time42 { fine_time, .. } => fine_time.to_nsec(),
            Time::T1Time43 { fine_time, .. } => fine_time.to_nsec(),
            Time::T2Time40 { fine_time, .. } => fine_time.to_nsec(),
            Time::T2Time41 { fine_time, .. } => fine_time.to_nsec(),
            Time::T2Time42 { fine_time, .. } => fine_time.to_nsec(),
            Time::T2Time43 { fine_time, .. } => fine_time.to_nsec(),
        };
        Timespec::new(sec, nsec)
    }

    /// Takes coarse and fine time from `bytes`, keeping the format; where the
    /// format embeds its selector byte, the first byte is skipped unread.
    pub fn init_from_bytes(&mut self, bytes: &[u8])
        requires
            bytes@.len() >= full_data_size(old(self).code()),
        ensures
            final(self).code() == old(self).code(),
            final(self).coarse().bytes() == bytes@.subrange(
                full_data_size(old(self).code()) - data_size(old(self).code()),
                full_data_size(old(self).code()) - data_size(old(self).code()) + 4,
            ),
            final(self).fine_bytes() == bytes@.subrange(
                full_data_size(old(self).code()) - fine_width(old(self).code()),
                full_data_size(old(self).code()) as int,
            ),
    {
        let p_field = self.get_p_field();
        let offset: usize = if has_p_field(p_field) {
            1
        } else {
            0
        };
        let width = (p_field % 4) as usize;
        let coarse_time = CoarseTime::read_at(bytes, offset);
        let f0 = if width >= 1 {
            bytes[offset + 4]
        } else {
            0
        };
        let f1 = if width >= 2 {
            bytes[offset + 5]
        } else {
            0
        };
        let f2 = if width >= 3 {
            bytes[offset + 6]
        } else {
            0
        };
        let time = Time::assemble(p_field, coarse_time, f0, f1, f2);
        proof {
            assert(time.fine_bytes() =~= bytes@.subrange(offset + 4, offset + 4 + width));
        }
        *self = time;
    }

    /// Writes the encoding at `pos`: the selector byte where the format embeds
    /// it, then coarse and fine time.
    pub fn encode(&self, bytes: &mut [u8], pos: usize)
        requires
            pos + full_data_size(self.code()) <= old(bytes)@.len(),
        ensures
            final(bytes)@ == splice(old(bytes)@, pos as int, self.encoding()),
    {
        let size = bytes.len();
        let p_field = self.get_p_field();
        proof {
            self.lemma_well_formed();
        }
        let offset: usize = if has_p_field(p_field) {
            bytes[pos] = p_field;
            pos + 1
        } else {
            pos
        };
        self.coarse_time().write_at(bytes, offset);
        let (f0, f1, f2) = self.fine_parts();
        let width = (p_field % 4) as usize;
        if width >= 1 {
            bytes[offset + 4] = f0;
        }
        if width >= 2 {
            bytes[offset + 5] = f1;
        }
        if width >= 3 {
            bytes[offset + 6] = f2;
        }
        assert(bytes@ =~= splice(old(bytes)@, pos as int, self.encoding()));
    }

    /// Writes the encoding to the start of `bytes`.
    pub fn update_to_bytes(&self, bytes: &mut [u8])
        requires
            old(bytes)@.len() >= full_data_size(self.code()),
        ensures
            final(bytes)@ == splice(old(bytes)@, 0, self.encoding()),
    {
        self.encode(bytes, 0);
    }

    /// The time held in `bytes`. Where `p_field` is a format that embeds its
    /// selector byte, the format is the one that the first byte selects, which
    /// must be such a format too; otherwise the format is `p_field`.
    pub fn decode(bytes: &[u8], p_field: u8) -> (r: Result<Time, Exception>)
        ensures
            match r {
                Ok(t) => is_time_code(p_field) && bytes@.len() >= 1 && t.code() == (if embeds_p_field(
                    p_field,
                ) {
                    bytes@[0]
                } else {
                    p_field
                }) && embeds_p_field(t.code()) == embeds_p_field(p_field)
                    && full_data_size(t.code()) <= bytes@.len()
                    && t.encoding() == bytes@.take(full_data_size(t.code()) as int),
                Err(e) => if !is_time_code(p_field) {
                    e.kind == ErrorKind::InvalidFormatCode
                } else if embeds_p_field(p_field) && bytes@.len() == 0 {
                    e.kind == ErrorKind::RangeError
                } else if embeds_p_field(p_field) && !embeds_p_field(bytes@[0]) {
                    e.kind == ErrorKind::InvalidFormatCode
                } else {
                    bytes@.len() < full_data_size(
                        if embeds_p_field(p_field) {
                            bytes@[0]
                        } else {
                            p_field
                        },
                    ) && e.kind == ErrorKind::RangeError
                },
            },
    {
        if !is_valid_p_field(p_field) {
            return Err(raise(ErrorKind::InvalidFormatCode, "invalid p-field for CUC time"));
        }
        let code = if has_p_field(p_field) {
            if bytes.len() == 0 {
                return Err(raise(ErrorKind::RangeError, "CUC time out of buffer"));
            }
            if !has_p_field(bytes[0]) {
                return Err(raise(ErrorKind::InvalidFormatCode, "invalid p-field for CUC time"));
            }
            bytes[0]
        } else {
            p_field
        };
        let size = if has_p_field(code) {
            5 + (code % 4) as usize
        } else {
            4 + (code % 4) as usize
        };
        if bytes.len() < size {
            return Err(raise(ErrorKind::RangeError, "CUC time out of buffer"));
        }
        let mut time = match Time::new_from_p_field(code) {
            Ok(t) => t,
            Err(err) => return Err(err),
        };
        time.init_from_bytes(bytes);
        proof {
            time.lemma_well_formed();
            assert(time.encoding() =~= bytes@.take(full_data_size(code) as int));
        }
        Ok(time)
    }

    /// The name of the format followed by its coarse and fine bytes in
    /// decimal, as in `L2Time43((1,2,3,4),(5,6,7))`.
    pub fn dump_str(&self) -> (r: String)
        ensures
            r@ == self.name() + seq!['('] + tuple_text(self.coarse().bytes()) + seq![',']
                + tuple_text(self.fine_bytes()) + seq![')'],
    {
        let mut r = String::new();
        let (coarse, fine) = match self {
            Time::L1Time40 { coarse_time, fine_time } => {
                push_str(&mut r, "L1Time40");
                proof {
                    reveal_strlit("L1Time40");
                }
                (coarse_time.dump_str(), fine_time.dump_str())
            },
            Time::L1Time41 { coarse_time, fine_time } => {
                push_str(&mut r, "L1Time41");
                proof {
                    reveal_strlit("L1Time41");
                }
                (coarse_time.dump_str(), fine_time.dump_str())
            },
            Time::L1Time42 { coarse_time, fine_time } => {
                push_str(&mut r, "L1Time42");
                proof {
                    reveal_strlit("L1Time42");
                }
                (coarse_time.dump_str(), fine_time.dump_str())
            },
            Time::L1Time43 { coarse_time, fine_time } => {
                push_str(&mut r, "L1Time43");
                proof {
                    reveal_strlit("L1Time43");
                }
                (coarse_time.dump_str(), fine_time.dump_str())
            },
            Time::L2Time40 { coarse_time, fine_time } => {
                push_str(&mut r, "L2Time40");
                proof {
                    reveal_strlit("L2Time40");
                }
                (coarse_time.dump_str(), fine_time.dump_str())
            },
            Time::L2Time41 { coarse_time, fine_time } => {
                push_str(&mut r, "L2Time41");
                proof {
                    reveal_strlit("L2Time41");
                }
                (coarse_time.dump_str(), fine_time.dump_str())
            },
            Time::L2Time42 { coarse_time, fine_time } => {
                push_str(&mut r, "L2Time42");
                proof {
                    reveal_strlit("L2Time42");
                }
                (coarse_time.dump_str(), fine_time.dump_str())
            },
            Time::L2Time43 { coarse_time, fine_time } => {
                push_str(&mut r, "L2Time43");
                proof {
                    reveal_strlit("L2Time43");
                }
                (coarse_time.dump_str(), fine_time.dump_str())
            },
            Time::T1Time40 { coarse_time, fine_time } => {
                push_str(&mut r, "T1Time40");
                proof {
                    reveal_strlit("T1Time40");
                }
                (coarse_time.dump_str(), fine_time.dump_str())
            },
            Time::T1Time41 { coarse_time, fine_time } => {
                push_str(&mut r, "T1Time41");
                proof {
                    reveal_strlit("T1Time41");
                }
                (coarse_time.dump_str(), fine_time.dump_str())
            },
            Time::T1Time42 { coarse_time, fine_time } => {
                push_str(&mut r, "T1Time42");
                proof {
                    reveal_strlit("T1Time42");
                }
                (coarse_time.dump_str(), fine_time.dump_str())
            },
            Time::T1Time43 { coarse_time, fine_time } => {
                push_str(&mut r, "T1Time43");
                proof {
                    reveal_strlit("T1Time43");
                }
                (coarse_time.dump_str(), fine_time.dump_str())
            },
            Time::T2Time40 { coarse_time, fine_time } => {
                push_str(&mut r, "T2Time40");
                proof {
                    reveal_strlit("T2Time40");
                }
                (coarse_time.dump_str(), fine_time.dump_str())
            },
            Time::T2Time41 { coarse_time, fine_time } => {
                push_str(&mut r, "T2Time41");
                proof {
                    reveal_strlit("T2Time41");
                }
                (coarse_time.dump_str(), fine_time.dump_str())
            },
            Time::T2Time42 { coarse_time, fine_time } => {
                push_str(&mut r, "T2Time42");
                proof {
                    reveal_strlit("T2Time42");
                }
                (coarse_time.dump_str(), fine_time.dump_str())
            },
            Time::T2Time43 { coarse_time, fine_time } => {
                push_str(&mut r, "T2Time43");
                proof {
                    reveal_strlit("T2Time43");
                }
                (coarse_time.dump_str(), fine_time.dump_str())
            },
        };
        let ghost named = r@;
        assert(named =~= self.name());
        push_char(&mut r, '(');
        push_str(&mut r, coarse.as_str());
        push_char(&mut r, ',');
        push_str(&mut r, fine.as_str());
        push_char(&mut r, ')');
        assert(r@ =~= self.name() + seq!['('] + tuple_text(self.coarse().bytes()) + seq![',']
            + tuple_text(self.fine_bytes()) + seq![')']);
        r
    }
}

// ---------------------------------------------------------------------------
// laws
// ---------------------------------------------------------------------------

/// A time made from a calendar time with zero nanoseconds gives back those
/// seconds and zero nanoseconds, in every format, for seconds that fit 32 bits.
pub proof fn lemma_calendar_round_trip(t: Time, sec: int)
    requires
        0 <= sec <= MAX_COARSE_SEC,
        calendar_matches(t, sec, 0),
    ensures
        t.seconds() == sec,
        t.nanoseconds() == 0,
{
    lemma_pow256_small(4);
    crate::du::lemma_be_round_trip(sec as nat, 4);
    let w = fine_width(t.code());
    t.lemma_well_formed();
    lemma_pow256_small(w);
    assert(fine_of(0, w) == 0);
    crate::du::lemma_pow256_pos(w);
    crate::du::lemma_be_round_trip(0, w);
}

/// Nanoseconds turned into fine time and back are rounded down: the result is
/// never above the input and lies less than two fine units
/// (10^9 / 256^w nanoseconds each) below it.
pub proof fn lemma_fine_round_trip_floor(nsec: nat, w: nat)
    requires
        1 <= w <= 3,
        nsec < NSEC_PER_SEC,
    ensures
        nsec_of(fine_of(nsec, w), w) <= nsec,
        nsec <= nsec_of(fine_of(nsec, w), w) + (NSEC_PER_SEC as nat) / pow256(w) + 1,
{
    lemma_pow256_small(w);
    let p = pow256(w);
    let n = NSEC_PER_SEC as nat;
    let f = nsec * p / n;
    let a = f * n / p;
    let b = n / p;
    assert(f * n <= nsec * p) by (nonlinear_arith)
        requires
            f == nsec * p / n,
            n > 0,
    ;
    assert(a <= nsec) by (nonlinear_arith)
        requires
            f * n <= nsec * p,
            a == f * n / p,
            p > 0,
    ;
    assert(nsec * p < (f + 1) * n) by (nonlinear_arith)
        requires
            f == nsec * p / n,
            n > 0,
    ;
    assert(f * n < p * (a + 1)) by (nonlinear_arith)
        requires
            a == f * n / p,
            p > 0,
    ;
    assert(n < p * (b + 1)) by (nonlinear_arith)
        requires
            b == n / p,
            p > 0,
    ;
    assert(nsec < a + b + 2) by (nonlinear_arith)
        requires
            nsec * p < (f + 1) * n,
            f * n < p * (a + 1),
            n < p * (b + 1),
            p > 0,
    ;
}

} // verus!
