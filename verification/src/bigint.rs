//! Arbitrary-precision signed integers, stored as their shortest big-endian
//! two's-complement byte string.
use crate::wire;
use vstd::prelude::*;

verus! {

/// A signed integer of unbounded width.  The mathematical value is the
/// view; the stored bytes are always the shortest two's-complement form.
#[derive(Debug, PartialEq, Eq, Hash)]
pub struct BigInt {
    bytes: Vec<u8>,
}

#[verifier::type_invariant]
pub closed spec fn bigint_inv(b: BigInt) -> bool {
    wire::min_form(b.bytes@)
}

impl View for BigInt {
    type V = int;

    closed spec fn view(&self) -> int {
        wire::sbe(self.bytes@)
    }
}

/// Relies on `i64::to_be_bytes`: the eight bytes of the value, big-endian
/// two's complement.
#[verifier::external_body]
fn i64_be_bytes(v: i64) -> (r: Vec<u8>)
    ensures
        r@.len() == 8,
        wire::sbe(r@) == v as int,
{
    v.to_be_bytes().to_vec()
}

impl BigInt {
    /// The value read from a big-endian two's-complement byte string; an
    /// empty string reads as zero.
    pub fn from_signed_bytes_be(bytes: &[u8]) -> (r: BigInt)
        ensures
            r@ == wire::sbe(bytes@),
    {
        let n = bytes.len();
        let mut i: usize = 0;
        proof {
            assert(bytes@.skip(0) =~= bytes@);
        }
        while i + 1 < n && ((bytes[i] == 0 && bytes[i + 1] < 128) || (bytes[i] == 255 && bytes[i
            + 1] >= 128))
            invariant
                0 <= i,
                n == bytes@.len(),
                i < n || i == 0,
                wire::sbe(bytes@.skip(i as int)) == wire::sbe(bytes@),
            decreases n - i,
        {
            proof {
                wire::lemma_sbe_head_drop(bytes@.skip(i as int));
                wire::lemma_skip_skip(bytes@, i as int, 1);
            }
            i = i + 1;
        }
        if i >= n {
            // only possible for an empty input
            let mut v: Vec<u8> = Vec::new();
            v.push(0);
            let r = BigInt { bytes: v };
            proof {
                assert(v@ =~= seq![0u8]);
                wire::lemma_sbe_single(0);
                assert(bytes@.skip(i as int) =~= bytes@);
            }
            r
        } else {
            let v = vstd::slice::slice_to_vec(&bytes[i..n]);
            proof {
                assert(v@ =~= bytes@.skip(i as int));
            }
            BigInt { bytes: v }
        }
    }

    /// The shortest big-endian two's-complement form of this value.
    pub fn to_signed_bytes_be(&self) -> (r: Vec<u8>)
        ensures
            r@ == wire::sbe_min(self@),
    {
        proof {
            use_type_invariant(self);
            wire::lemma_sbe_min_of_min_form(self.bytes@);
        }
        vstd::slice::slice_to_vec(self.bytes.as_slice())
    }

    /// The stored shortest form, borrowed.
    pub fn as_bytes(&self) -> (r: &[u8])
        ensures
            r@ == wire::sbe_min(self@),
            wire::min_form(r@),
            wire::sbe(r@) == self@,
    {
        proof {
            use_type_invariant(self);
            wire::lemma_sbe_min_of_min_form(self.bytes@);
        }
        self.bytes.as_slice()
    }

    /// The value `v`.
    pub fn from_i64(v: i64) -> (r: BigInt)
        ensures
            r@ == v as int,
    {
        let b = i64_be_bytes(v);
        BigInt::from_signed_bytes_be(b.as_slice())
    }

    /// The value `v`.
    pub fn from_u64(v: u64) -> (r: BigInt)
        ensures
            r@ == v as int,
    {
        let mut out: Vec<u8> = Vec::new();
        push_sbe_min_u64(v, &mut out);
        proof {
            wire::lemma_sbe_min_correct(v as int);
            assert(out@ =~= wire::sbe_min(v as int));
        }
        BigInt { bytes: out }
    }

    /// The value `v`.
    pub fn from_usize(v: usize) -> (r: BigInt)
        ensures
            r@ == v as int,
    {
        BigInt::from_u64(v as u64)
    }

    /// This value as a machine word, when it fits.
    pub fn to_usize(&self) -> (r: Option<usize>)
        ensures
            match r {
                Some(v) => self@ == v as int,
                None => !wire::ufit(self@),
            },
    {
        proof {
            use_type_invariant(self);
            wire::lemma_pow256_values();
        }
        let n = self.bytes.len();
        if self.bytes[0] >= 128 {
            // negative
            proof {
                wire::lemma_ube_bounds(self.bytes@);
            }
            return None;
        }
        if n > 9 {
            // at least ten shortest-form bytes name a value beyond 2^71
            proof {
                wire::lemma_sbe_min_of_min_form(self.bytes@);
                if wire::ufit(self@) {
                    wire::lemma_sbe_min_len_le(self@, 9);
                }
            }
            return None;
        }
        let start: usize = if n == 9 {
            if self.bytes[0] != 0 {
                // nine bytes with a non-zero first byte reach 2^64
                proof {
                    wire::lemma_ube_head(self.bytes@);
                    wire::lemma_ube_bounds(self.bytes@.skip(1));
                    assert(self.bytes@[0] * wire::pow256(8) >= 1 * wire::pow256(8))
                        by (nonlinear_arith)
                        requires
                            self.bytes@[0] >= 1,
                            wire::pow256(8) >= 1,
                    ;
                }
                return None;
            }
            1
        } else {
            0
        };
        proof {
            if start == 1 {
                wire::lemma_ube_head(self.bytes@);
            }
            assert(self.bytes@.subrange(start as int, start as int) =~= Seq::<u8>::empty());
        }
        let mut acc: u64 = 0;
        let mut i: usize = start;
        while i < n
            invariant
                start <= i <= n,
                n == self.bytes@.len(),
                1 <= n <= 9,
                n - start <= 8,
                acc == wire::ube(self.bytes@.subrange(start as int, i as int)),
            decreases n - i,
        {
            proof {
                wire::lemma_ube_bounds(self.bytes@.subrange(start as int, i as int));
                wire::lemma_pow256_mono((i - start) as nat, 7);
                wire::lemma_pow256_values();
                assert(acc * 256 + self.bytes@[i as int] < 0x1_0000_0000_0000_0000)
                    by (nonlinear_arith)
                    requires
                        acc < 0x100_0000_0000_0000,
                        self.bytes@[i as int] < 256,
                ;
                assert(self.bytes@.subrange(start as int, i + 1).drop_last() =~= self.bytes@
                    .subrange(start as int, i as int));
                assert(self.bytes@.subrange(start as int, i + 1).last() == self.bytes@[i as int]);
            }
            acc = acc * 256 + (self.bytes[i] as u64);
            i = i + 1;
        }
        proof {
            assert(self.bytes@.subrange(start as int, n as int) =~= if start == 1 {
                self.bytes@.skip(1)
            } else {
                self.bytes@
            });
        }
        if acc > usize::MAX as u64 {
            proof {
                assert(self@ == acc as int);
            }
            return None;
        }
        proof {
            assert(self@ == acc as int);
        }
        Some(acc as usize)
    }
}

impl BigInt {
    /// Append the canonical encoding of this value with kind bits `tag`.
    pub fn encode_int(&self, tag: u8, out: &mut Vec<u8>)
        requires
            tag < 8,
        ensures
            final(out)@ == old(out)@ + wire::enc_int(tag, self@),
        decreases wire::sbe_min2(self@).len(), 1int,
    {
        proof {
            use_type_invariant(self);
            wire::lemma_sbe_min_of_min_form(self.bytes@);
        }
        let ghost v = self@;
        let n = self.bytes.len();
        let b0 = self.bytes[0];
        if n == 1 && b0 < 16 {
            proof {
                assert(self.bytes@ =~= seq![b0]);
                wire::lemma_sbe_single(b0);
            }
            out.push(b0 * 16 + tag);
            proof {
                assert(wire::enc_int(tag, v) =~= seq![(v * 16 + tag) as u8]);
                assert(final(out)@ =~= old(out)@ + wire::enc_int(tag, v));
            }
        } else if n == 1 && b0 < 128 {
            proof {
                assert(self.bytes@ =~= seq![b0]);
                wire::lemma_sbe_single(b0);
            }
            out.push(8 + tag);
            out.push(b0);
            proof {
                assert(v / 256 == 0 && v % 256 == b0);
                assert(wire::enc_int(tag, v) =~= seq![(8 + tag) as u8, b0]);
                assert(final(out)@ =~= old(out)@ + wire::enc_int(tag, v));
            }
        } else if n == 2 && b0 < 8 {
            let b1 = self.bytes[1];
            proof {
                assert(self.bytes@ =~= seq![b0, b1]);
                assert(self.bytes@.drop_last() =~= seq![b0]);
                wire::lemma_sbe_drop_last(self.bytes@);
                wire::lemma_sbe_single(b0);
                assert(v == b0 * 256 + b1);
                assert(v >= 128) by {
                    if b0 == 0 {
                        assert(b1 >= 128);
                    } else {
                        assert(b0 * 256 >= 256) by (nonlinear_arith)
                            requires
                                b0 >= 1,
                        ;
                    }
                }
                assert(v / 256 == b0 && v % 256 == b1) by (nonlinear_arith)
                    requires
                        v == b0 * 256 + b1,
                        0 <= b1 < 256,
                ;
            }
            out.push(b0 * 32 + 8 + tag);
            out.push(b1);
            proof {
                assert(wire::enc_int(tag, v) =~= seq![
                    ((v / 256) * 32 + 8 + tag) as u8,
                    (v % 256) as u8,
                ]);
                assert(final(out)@ =~= old(out)@ + wire::enc_int(tag, v));
            }
        } else {
            proof {
                assert(!(0 <= v < 2048)) by {
                    if n == 1 {
                        assert(self.bytes@ =~= seq![b0]);
                        wire::lemma_sbe_single(b0);
                        assert(b0 >= 128);
                    } else {
                        wire::lemma_out_of_one_byte(self.bytes@);
                        if n == 2 && 0 <= v < 2048 {
                            assert(self.bytes@.drop_last() =~= seq![b0]);
                            wire::lemma_sbe_drop_last(self.bytes@);
                            wire::lemma_sbe_single(b0);
                            assert(v == b0 * 256 + self.bytes@[1]);
                            assert(b0 < 128);
                            assert(b0 * 256 < 2048 ==> b0 < 8) by (nonlinear_arith);
                            assert(b0 * 256 <= v) by (nonlinear_arith)
                                requires
                                    v == b0 * 256 + self.bytes@[1],
                                    self.bytes@[1] >= 0,
                            ;
                        } else if n > 2 && 0 <= v < 2048 {
                            wire::lemma_pow256_values();
                            wire::lemma_sbe_min_len_le(v, 2);
                        }
                    }
                }
            }
            self.encode_big(tag, out);
        }
    }

    /// Append the big (fixed-width or length-prefixed) form of this value
    /// with kind bits `tag`.
    pub fn encode_big(&self, tag: u8, out: &mut Vec<u8>)
        requires
            tag < 8,
        ensures
            final(out)@ == old(out)@ + wire::enc_big(tag, self@),
        decreases wire::sbe_min2(self@).len(), 0int,
    {
        proof {
            use_type_invariant(self);
            wire::lemma_sbe_min_of_min_form(self.bytes@);
        }
        let ghost v = self@;
        let n = self.bytes.len();
        if n == 1 {
            let b0 = self.bytes[0];
            proof {
                assert(self.bytes@ =~= seq![b0]);
                wire::lemma_sbe_single(b0);
            }
            out.push(24 + tag);
            if b0 >= 128 {
                out.push(255);
            } else {
                out.push(0);
            }
            out.push(b0);
            proof {
                assert(wire::sbe_min2(v) =~= seq![
                    (if v < 0 {
                        255u8
                    } else {
                        0u8
                    }),
                    (v % 256) as u8,
                ]);
                assert(v % 256 == b0);
                assert(wire::enc_big(tag, v) =~= seq![(24 + tag) as u8] + wire::sbe_min2(v));
                assert(final(out)@ =~= old(out)@ + wire::enc_big(tag, v));
            }
        } else {
            proof {
                wire::lemma_out_of_one_byte(self.bytes@);
                assert(wire::sbe_min2(v) == self.bytes@);
            }
            if n <= 8 {
                out.push(((n - 2) as u8) * 32 + 24 + tag);
                push_all(&self.bytes, out);
                proof {
                    assert(wire::enc_big(tag, v) =~= seq![((n - 2) * 32 + 24 + tag) as u8]
                        + self.bytes@);
                    assert(final(out)@ =~= old(out)@ + wire::enc_big(tag, v));
                }
            } else {
                proof {
                    wire::lemma_sbe_min2_len_shrinks(v);
                }
                out.push(248 + tag);
                crate::term::encode_usize(0, n - 9, out);
                push_all(&self.bytes, out);
                proof {
                    assert(wire::enc_big(tag, v) =~= seq![(248 + tag) as u8] + wire::enc_int(
                        0,
                        n - 9,
                    ) + self.bytes@);
                    assert(final(out)@ =~= old(out)@ + wire::enc_big(tag, v));
                }
            }
        }
    }
}

/// Append every byte of `bytes`.
pub fn push_all(bytes: &Vec<u8>, out: &mut Vec<u8>)
    ensures
        final(out)@ == old(out)@ + bytes@,
{
    let mut i: usize = 0;
    proof {
        assert(out@ =~= old(out)@ + bytes@.take(0));
    }
    while i < bytes.len()
        invariant
            0 <= i <= bytes@.len(),
            out@ == old(out)@ + bytes@.take(i as int),
        decreases bytes@.len() - i,
    {
        out.push(bytes[i]);
        proof {
            assert(old(out)@ + bytes@.take(i + 1) =~= (old(out)@ + bytes@.take(i as int)).push(
                bytes@[i as int],
            ));
        }
        i = i + 1;
    }
    proof {
        assert(bytes@.take(bytes@.len() as int) =~= bytes@);
    }
}

/// Append the shortest two's-complement form of a non-negative value.
fn push_sbe_min_u64(v: u64, out: &mut Vec<u8>)
    ensures
        final(out)@ == old(out)@ + wire::sbe_min(v as int),
    decreases v,
{
    if v < 128 {
        out.push(v as u8);
        proof {
            assert(final(out)@ =~= old(out)@ + wire::sbe_min(v as int));
        }
    } else {
        push_sbe_min_u64(v / 256, out);
        out.push((v % 256) as u8);
        proof {
            assert(v as int / 256 == (v / 256) as int);
            assert(v as int % 256 == (v % 256) as int);
            assert(final(out)@ =~= old(out)@ + wire::sbe_min(v as int));
        }
    }
}

} // verus!
