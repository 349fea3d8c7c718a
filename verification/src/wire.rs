//! The wire format, stated as mathematics.
//!
//! A compact term starts with a tag byte.  Its low three bits name the term
//! kind; for kind 7 the high nibble names an extended kind.  For the integer
//! bearing kinds the high five bits of the tag byte begin a variable-length
//! integer sub-encoding:
//!
//! * bit 3 clear: the value is the high four bits of the tag byte;
//! * bit 3 set, bit 4 clear: an 11-bit value, high three bits in the tag
//!   byte, low eight in the next byte;
//! * otherwise, with the high three bits `w < 7`: `w + 2` following bytes,
//!   big-endian two's complement;
//! * with the high three bits equal to 7: a length `n` follows as its own
//!   small-natural term, then `n + 9` bytes, big-endian two's complement.
//!
//! The functions here define both directions: `enc_int` is the canonical
//! (shortest) encoding an encoder must produce, the `dec_*` functions give
//! the meaning of every byte string, canonical or not, together with the
//! exact error a decoder must report.
use crate::error::DecodeErrorV;
use crate::term::TermKind;
use vstd::prelude::*;

verus! {

/// 256 to the power `n`.
pub open spec fn pow256(n: nat) -> int
    decreases n,
{
    if n == 0 {
        1
    } else {
        256 * pow256((n - 1) as nat)
    }
}

/// Unsigned big-endian value of a byte string.
pub open spec fn ube(s: Seq<u8>) -> int
    decreases s.len(),
{
    if s.len() == 0 {
        0
    } else {
        ube(s.drop_last()) * 256 + s.last()
    }
}

/// Two's-complement big-endian value of a byte string: the high bit of the
/// first byte is the sign.
pub open spec fn sbe(s: Seq<u8>) -> int {
    if s.len() == 0 {
        0
    } else if s[0] >= 128 {
        ube(s) - pow256(s.len())
    } else {
        ube(s)
    }
}

/// Shortest two's-complement big-endian form of `v`: at least one byte, and
/// the first byte carries information beyond the sign.
pub open spec fn sbe_min(v: int) -> Seq<u8>
    decreases (if v < 0 { -v } else { v }),
{
    if -128 <= v < 128 {
        seq![(v % 256) as u8]
    } else {
        sbe_min(v / 256).push((v % 256) as u8)
    }
}

/// `s` is a shortest two's-complement form: no leading byte is redundant.
pub open spec fn min_form(s: Seq<u8>) -> bool {
    &&& s.len() >= 1
    &&& (s.len() == 1 || !((s[0] == 0 && s[1] < 128) || (s[0] == 255 && s[1] >= 128)))
}

/// Shortest two's-complement form of at least two bytes: the payload shape
/// of the fixed-width integer forms.
pub open spec fn sbe_min2(v: int) -> Seq<u8> {
    if -128 <= v < 128 {
        seq![(if v < 0 { 255u8 } else { 0u8 }), (v % 256) as u8]
    } else {
        sbe_min(v)
    }
}

/// The canonical (shortest legal) encoding of value `v` with kind bits `k`.
pub open spec fn enc_int(k: u8, v: int) -> Seq<u8>
    decreases sbe_min2(v).len(),
    via enc_int_decreases
{
    if 0 <= v < 16 {
        seq![(v * 16 + k) as u8]
    } else if 0 <= v < 2048 {
        seq![((v / 256) * 32 + 8 + k) as u8, (v % 256) as u8]
    } else {
        let b = sbe_min2(v);
        if b.len() <= 8 {
            seq![((b.len() - 2) * 32 + 24 + k) as u8] + b
        } else {
            seq![(248 + k) as u8] + enc_int(0, b.len() - 9) + b
        }
    }
}

#[via_fn]
proof fn enc_int_decreases(k: u8, v: int) {
    if !(0 <= v < 2048) {
        let b = sbe_min2(v);
        if b.len() > 8 {
            lemma_sbe_min2_len_shrinks(v);
        }
    }
}

/// The big-form byte string for `v` with kind bits `k`: what the encoder
/// emits once the one and two byte forms are ruled out.
pub open spec fn enc_big(k: u8, v: int) -> Seq<u8> {
    let b = sbe_min2(v);
    if b.len() <= 8 {
        seq![((b.len() - 2) * 32 + 24 + k) as u8] + b
    } else {
        seq![(248 + k) as u8] + enc_int(0, b.len() - 9) + b
    }
}

/// Term kind named by a tag byte.
pub open spec fn kind_from_tag(t: u8) -> TermKind {
    let k = t % 8;
    if k == 0 {
        TermKind::Usize
    } else if k == 1 {
        TermKind::Integer
    } else if k == 2 {
        TermKind::Atom
    } else if k == 3 {
        TermKind::XRegister
    } else if k == 4 {
        TermKind::YRegister
    } else if k == 5 {
        TermKind::Label
    } else if k == 6 {
        TermKind::Character
    } else {
        let sub = t / 16;
        if sub == 1 {
            TermKind::List
        } else if sub == 2 {
            TermKind::FloatingPointRegister
        } else if sub == 3 {
            TermKind::AllocationList
        } else if sub == 4 {
            TermKind::Literal
        } else if sub == 5 {
            TermKind::TypedRegister
        } else {
            TermKind::Unknown(t)
        }
    }
}

/// Canonical tag byte of each term kind.
pub open spec fn tag_of_kind(k: TermKind) -> u8 {
    match k {
        TermKind::Usize => 0,
        TermKind::Integer => 1,
        TermKind::Atom => 2,
        TermKind::XRegister => 3,
        TermKind::YRegister => 4,
        TermKind::Label => 5,
        TermKind::Character => 6,
        TermKind::List => 0x17,
        TermKind::FloatingPointRegister => 0x27,
        TermKind::AllocationList => 0x37,
        TermKind::Literal => 0x47,
        TermKind::TypedRegister => 0x57,
        TermKind::Unknown(t) => t,
    }
}

/// Number of payload bytes of the fixed-width integer form named by `t`.
pub open spec fn fixed_width(t: u8) -> nat {
    (t / 32 + 2) as nat
}

/// `v` is representable at a position that semantically carries a machine
/// word.
pub open spec fn ufit(v: int) -> bool {
    0 <= v <= usize::MAX as int
}

/// Decode a value at a machine-word position (tag byte `s[0]` included).
/// The value keeps the signed reading of the payload, but a negative value
/// or one wider than a machine word is an error.
pub open spec fn dec_unat(s: Seq<u8>) -> Result<(int, nat), DecodeErrorV>
    decreases s.len(), 0int, 0int,
{
    if s.len() == 0 {
        Err(DecodeErrorV::IoError)
    } else if s[0] % 8 != 0 {
        Err(DecodeErrorV::UnexpectedTerm {
            expected: seq![TermKind::Usize],
            actual: kind_from_tag(s[0]),
        })
    } else {
        match dec_unat_with(s[0], s.skip(1)) {
            Ok((v, n)) => Ok((v, (n + 1) as nat)),
            Err(e) => Err(e),
        }
    }
}

/// Decode a machine-word value whose tag byte `t` was already read; `s`
/// holds the bytes after the tag.  The kind bits of `t` are not examined.
pub open spec fn dec_unat_with(t: u8, s: Seq<u8>) -> Result<(int, nat), DecodeErrorV>
    decreases s.len(), 0int, 2int,
{
    if t % 16 < 8 {
        Ok(((t / 16) as int, 0))
    } else if t % 32 < 16 {
        if s.len() >= 1 {
            Ok(((t / 32) as int * 256 + s[0], 1))
        } else {
            Err(DecodeErrorV::IoError)
        }
    } else if t / 32 != 7 {
        let w = fixed_width(t);
        if s.len() >= w {
            let v = sbe(s.take(w as int));
            if ufit(v) {
                Ok((v, w))
            } else {
                Err(DecodeErrorV::TooLargeUsizeValue { byte_size: w as int })
            }
        } else {
            Err(DecodeErrorV::IoError)
        }
    } else {
        // The length-prefixed form is always wider than a machine word.
        match dec_unat(s) {
            Ok((n, _c)) => Err(DecodeErrorV::TooLargeUsizeValue {
                byte_size: if n + 9 <= usize::MAX as int {
                    n + 9
                } else {
                    usize::MAX as int
                },
            }),
            Err(e) => Err(e),
        }
    }
}

/// Decode a full-range integer whose tag byte `t` was already read; `s`
/// holds the bytes after the tag.  Yields the value and the payload bytes
/// consumed.
pub open spec fn dec_int(t: u8, s: Seq<u8>) -> Result<(int, nat), DecodeErrorV>
    decreases s.len(), 0int, 1int,
{
    if t % 16 < 8 {
        Ok(((t / 16) as int, 0))
    } else if t % 32 < 16 {
        if s.len() >= 1 {
            Ok(((t / 32) as int * 256 + s[0], 1))
        } else {
            Err(DecodeErrorV::IoError)
        }
    } else if t / 32 != 7 {
        let w = fixed_width(t);
        if s.len() >= w {
            Ok((sbe(s.take(w as int)), w))
        } else {
            Err(DecodeErrorV::IoError)
        }
    } else {
        match dec_unat(s) {
            Ok((n, c)) => {
                if 0 <= n && c + n + 9 <= s.len() {
                    Ok((sbe(s.skip(c as int).take(n + 9)), (c + n + 9) as nat))
                } else {
                    Err(DecodeErrorV::IoError)
                }
            },
            Err(e) => Err(e),
        }
    }
}

/// `v` is a Unicode scalar value.
pub open spec fn is_scalar(v: int) -> bool {
    0 <= v < 0xD800 || 0xE000 <= v <= 0x10FFFF
}

/// Mathematical mirror of a decoded term.
pub enum TermV {
    Usize(int),
    Integer(int),
    Atom(int),
    XRegister { value: int, ty: Option<int> },
    YRegister { value: int, ty: Option<int> },
    Label(int),
    Character(char),
    List(Seq<TermV>),
    FloatingPointRegister(int),
    AllocationList(Seq<AllocItemV>),
    Literal(int),
    TypedX { reg: int, reg_ty: Option<int>, ty: int },
    TypedY { reg: int, reg_ty: Option<int>, ty: int },
}

/// Mathematical mirror of an allocation list item.
pub enum AllocItemV {
    Words(int),
    Floats(int),
    Funs(int),
}

/// Term kind of a decoded term.
pub open spec fn termv_kind(t: TermV) -> TermKind {
    match t {
        TermV::Usize(_) => TermKind::Usize,
        TermV::Integer(_) => TermKind::Integer,
        TermV::Atom(_) => TermKind::Atom,
        TermV::XRegister { .. } => TermKind::XRegister,
        TermV::YRegister { .. } => TermKind::YRegister,
        TermV::Label(_) => TermKind::Label,
        TermV::Character(_) => TermKind::Character,
        TermV::List(_) => TermKind::List,
        TermV::FloatingPointRegister(_) => TermKind::FloatingPointRegister,
        TermV::AllocationList(_) => TermKind::AllocationList,
        TermV::Literal(_) => TermKind::Literal,
        TermV::TypedX { .. } => TermKind::TypedRegister,
        TermV::TypedY { .. } => TermKind::TypedRegister,
    }
}

/// Decode one term from the front of `s` (tag byte included).
pub open spec fn dec_term(s: Seq<u8>) -> Result<(TermV, nat), DecodeErrorV>
    decreases s.len(), 0int, 4int,
{
    if s.len() == 0 {
        Err(DecodeErrorV::IoError)
    } else {
        match dec_term_with(s[0], s.skip(1)) {
            Ok((t, n)) => Ok((t, (n + 1) as nat)),
            Err(e) => Err(e),
        }
    }
}

/// Decode one term whose tag byte `t` was already read; `s` holds the bytes
/// after the tag.  Yields the term and the payload bytes consumed.
pub open spec fn dec_term_with(t: u8, s: Seq<u8>) -> Result<(TermV, nat), DecodeErrorV>
    decreases s.len(), 0int, 3int,
{
    let k = t % 8;
    if k == 0 {
        match dec_unat_with(t, s) {
            Ok((v, n)) => Ok((TermV::Usize(v), n)),
            Err(e) => Err(e),
        }
    } else if k == 1 {
        match dec_int(t, s) {
            Ok((v, n)) => Ok((TermV::Integer(v), n)),
            Err(e) => Err(e),
        }
    } else if k == 2 {
        match dec_unat_with(t, s) {
            Ok((v, n)) => Ok((TermV::Atom(v), n)),
            Err(e) => Err(e),
        }
    } else if k == 3 {
        match dec_unat_with(t, s) {
            Ok((v, n)) => Ok((TermV::XRegister { value: v, ty: None }, n)),
            Err(e) => Err(e),
        }
    } else if k == 4 {
        match dec_unat_with(t, s) {
            Ok((v, n)) => Ok((TermV::YRegister { value: v, ty: None }, n)),
            Err(e) => Err(e),
        }
    } else if k == 5 {
        match dec_unat_with(t, s) {
            Ok((v, n)) => Ok((TermV::Label(v), n)),
            Err(e) => Err(e),
        }
    } else if k == 6 {
        match dec_int(t, s) {
            Ok((v, n)) => {
                if !(0 <= v <= u32::MAX as int) {
                    Err(DecodeErrorV::TooLargeUsizeValue { byte_size: n as int })
                } else if !is_scalar(v) {
                    Err(DecodeErrorV::InvalidUnicodeCodepoint { value: v as u32 })
                } else {
                    Ok((TermV::Character(v as char), n))
                }
            },
            Err(e) => Err(e),
        }
    } else {
        let sub = t / 16;
        if sub == 1 {
            match dec_unat(s) {
                Ok((len, c)) => {
                    if 1 <= c <= s.len() {
                        match dec_terms(s.skip(c as int), len) {
                            Ok((items, m)) => Ok((TermV::List(items), (c + m) as nat)),
                            Err(e) => Err(e),
                        }
                    } else {
                        Err(DecodeErrorV::IoError)
                    }
                },
                Err(e) => Err(e),
            }
        } else if sub == 2 {
            match dec_unat(s) {
                Ok((v, c)) => Ok((TermV::FloatingPointRegister(v), c)),
                Err(e) => Err(e),
            }
        } else if sub == 3 {
            match dec_unat(s) {
                Ok((len, c)) => {
                    if 1 <= c <= s.len() {
                        match dec_alloc_items(s.skip(c as int), len) {
                            Ok((items, m)) => Ok((TermV::AllocationList(items), (c + m) as nat)),
                            Err(e) => Err(e),
                        }
                    } else {
                        Err(DecodeErrorV::IoError)
                    }
                },
                Err(e) => Err(e),
            }
        } else if sub == 4 {
            match dec_unat(s) {
                Ok((v, c)) => Ok((TermV::Literal(v), c)),
                Err(e) => Err(e),
            }
        } else if sub == 5 {
            if s.len() == 0 {
                Err(DecodeErrorV::IoError)
            } else {
                let t2 = s[0];
                if t2 % 8 == 3 || t2 % 8 == 4 {
                    match dec_unat_with(t2, s.skip(1)) {
                        Ok((v, n2)) => {
                            if 1 + n2 <= s.len() {
                                match dec_unat(s.skip(1 + n2 as int)) {
                                    Ok((ty, c2)) => {
                                        let tr = if t2 % 8 == 3 {
                                            TermV::TypedX { reg: v, reg_ty: None, ty }
                                        } else {
                                            TermV::TypedY { reg: v, reg_ty: None, ty }
                                        };
                                        Ok((tr, (1 + n2 + c2) as nat))
                                    },
                                    Err(e) => Err(e),
                                }
                            } else {
                                Err(DecodeErrorV::IoError)
                            }
                        },
                        Err(e) => Err(e),
                    }
                } else {
                    Err(DecodeErrorV::UnexpectedTerm {
                        expected: seq![TermKind::XRegister, TermKind::YRegister],
                        actual: kind_from_tag(t2),
                    })
                }
            }
        } else {
            Err(DecodeErrorV::UnknownTermTag { tag: t })
        }
    }
}

/// Decode `n` consecutive terms.
pub open spec fn dec_terms(s: Seq<u8>, n: int) -> Result<(Seq<TermV>, nat), DecodeErrorV>
    decreases s.len(), n, 5int,
{
    if n <= 0 {
        Ok((Seq::empty(), 0))
    } else {
        match dec_term(s) {
            Ok((t, c)) => {
                if c <= s.len() {
                    match dec_terms(s.skip(c as int), n - 1) {
                        Ok((rest, m)) => Ok((seq![t] + rest, (c + m) as nat)),
                        Err(e) => Err(e),
                    }
                } else {
                    Err(DecodeErrorV::IoError)
                }
            },
            Err(e) => Err(e),
        }
    }
}

/// Decode one allocation list item: a machine-word kind followed by a
/// machine-word count.
pub open spec fn dec_alloc_item(s: Seq<u8>) -> Result<(AllocItemV, nat), DecodeErrorV>
    decreases s.len(), 0int, 1int,
{
    match dec_unat(s) {
        Ok((k, c1)) => {
            if k == 0 || k == 1 || k == 2 {
                if c1 <= s.len() {
                    match dec_unat(s.skip(c1 as int)) {
                        Ok((v, c2)) => Ok((alloc_item(k, v), (c1 + c2) as nat)),
                        Err(e) => Err(e),
                    }
                } else {
                    Err(DecodeErrorV::IoError)
                }
            } else {
                Err(DecodeErrorV::UnknownAllocationListItemTag { tag: k })
            }
        },
        Err(e) => Err(e),
    }
}

/// Decode `n` consecutive allocation list items.
pub open spec fn dec_alloc_items(s: Seq<u8>, n: int) -> Result<
    (Seq<AllocItemV>, nat),
    DecodeErrorV,
>
    decreases s.len(), n, 5int,
{
    if n <= 0 {
        Ok((Seq::empty(), 0))
    } else {
        match dec_alloc_item(s) {
            Ok((it, c)) => {
                if 1 <= c <= s.len() {
                    match dec_alloc_items(s.skip(c as int), n - 1) {
                        Ok((rest, m)) => Ok((seq![it] + rest, (c + m) as nat)),
                        Err(e) => Err(e),
                    }
                } else {
                    Err(DecodeErrorV::IoError)
                }
            },
            Err(e) => Err(e),
        }
    }
}

/// The allocation list item with kind index `k` and count `v`.
pub open spec fn alloc_item(k: int, v: int) -> AllocItemV {
    if k == 0 {
        AllocItemV::Words(v)
    } else if k == 1 {
        AllocItemV::Floats(v)
    } else {
        AllocItemV::Funs(v)
    }
}

/// Decode one Y register term.
pub open spec fn dec_yreg(s: Seq<u8>) -> Result<(TermV, nat), DecodeErrorV>
    decreases s.len(), 0int, 1int,
{
    if s.len() == 0 {
        Err(DecodeErrorV::IoError)
    } else if s[0] % 8 != 4 {
        Err(DecodeErrorV::UnexpectedTerm {
            expected: seq![TermKind::YRegister],
            actual: kind_from_tag(s[0]),
        })
    } else {
        match dec_unat_with(s[0], s.skip(1)) {
            Ok((v, c)) => Ok((TermV::YRegister { value: v, ty: None }, (1 + c) as nat)),
            Err(e) => Err(e),
        }
    }
}

/// Decode `n` consecutive Y registers (as list elements).
pub open spec fn dec_yregs(s: Seq<u8>, n: int) -> Result<(Seq<TermV>, nat), DecodeErrorV>
    decreases s.len(), n, 5int,
{
    if n <= 0 {
        Ok((Seq::empty(), 0))
    } else {
        match dec_yreg(s) {
            Ok((y, c)) => {
                if 1 <= c <= s.len() {
                    match dec_yregs(s.skip(c as int), n - 1) {
                        Ok((rest, m)) => Ok((seq![y] + rest, (c + m) as nat)),
                        Err(e) => Err(e),
                    }
                } else {
                    Err(DecodeErrorV::IoError)
                }
            },
            Err(e) => Err(e),
        }
    }
}

/// Prepend already decoded items and already consumed bytes to the outcome
/// of decoding the remaining items.
pub open spec fn prepend_items<T>(
    done: Seq<T>,
    c: nat,
    rest: Result<(Seq<T>, nat), DecodeErrorV>,
) -> Result<(Seq<T>, nat), DecodeErrorV> {
    match rest {
        Ok((ts, m)) => Ok((done + ts, (c + m) as nat)),
        Err(e) => Err(e),
    }
}

/// Prepending one more decoded item.
pub proof fn lemma_prepend_step<T>(
    done: Seq<T>,
    c0: nat,
    x: T,
    c: nat,
    rest: Result<(Seq<T>, nat), DecodeErrorV>,
)
    ensures
        prepend_items(done, c0, prepend_items(seq![x], c, rest)) == prepend_items(
            done.push(x),
            (c0 + c) as nat,
            rest,
        ),
{
    match rest {
        Ok((ts, m)) => {
            assert(done + (seq![x] + ts) =~= done.push(x) + ts);
        },
        Err(e) => {},
    }
}

/// One step of decoding a run of terms.
pub proof fn lemma_dec_terms_step(s: Seq<u8>, n: int)
    requires
        n >= 1,
    ensures
        dec_terms(s, n) == (match dec_term(s) {
            Ok((t, c)) => {
                if 1 <= c <= s.len() {
                    prepend_items(seq![t], c, dec_terms(s.skip(c as int), n - 1))
                } else {
                    Err(DecodeErrorV::IoError)
                }
            },
            Err(e) => Err(e),
        }),
{
}

/// One step of decoding a run of allocation list items.
pub proof fn lemma_dec_alloc_items_step(s: Seq<u8>, n: int)
    requires
        n >= 1,
    ensures
        dec_alloc_items(s, n) == (match dec_alloc_item(s) {
            Ok((it, c)) => {
                if 1 <= c <= s.len() {
                    prepend_items(seq![it], c, dec_alloc_items(s.skip(c as int), n - 1))
                } else {
                    Err(DecodeErrorV::IoError)
                }
            },
            Err(e) => Err(e),
        }),
{
}

/// One step of decoding a run of Y registers.
pub proof fn lemma_dec_yregs_step(s: Seq<u8>, n: int)
    requires
        n >= 1,
    ensures
        dec_yregs(s, n) == (match dec_yreg(s) {
            Ok((t, c)) => {
                if 1 <= c <= s.len() {
                    prepend_items(seq![t], c, dec_yregs(s.skip(c as int), n - 1))
                } else {
                    Err(DecodeErrorV::IoError)
                }
            },
            Err(e) => Err(e),
        }),
{
}

/// One full step of the loop that decodes a run of terms: consuming one
/// more term moves it from the tail to the done side of the split.
pub proof fn lemma_dec_terms_loop(
    s1: Seq<u8>,
    cur: Seq<u8>,
    size: int,
    j: int,
    done: Seq<TermV>,
    tv: TermV,
    c: nat,
    new_rem: Seq<u8>,
)
    requires
        0 <= j < size,
        cur.len() <= s1.len(),
        cur == s1.skip((s1.len() - cur.len()) as int),
        dec_terms(s1, size) == prepend_items(
            done,
            (s1.len() - cur.len()) as nat,
            dec_terms(cur, size - j),
        ),
        dec_term(cur) == Ok::<_, DecodeErrorV>((tv, c)),
        1 <= c <= cur.len(),
        new_rem == cur.skip(c as int),
    ensures
        new_rem.len() <= s1.len(),
        dec_terms(s1, size) == prepend_items(
            done.push(tv),
            (s1.len() - new_rem.len()) as nat,
            dec_terms(new_rem, size - j - 1),
        ),
        new_rem == s1.skip((s1.len() - new_rem.len()) as int),
{
    lemma_dec_terms_step(cur, size - j);
    lemma_prepend_step(done, (s1.len() - cur.len()) as nat, tv, c, dec_terms(new_rem, size - j - 1));
    let off = (s1.len() - cur.len()) as int;
    lemma_skip_skip(s1, off, c as int);
    assert(new_rem.len() == cur.len() - c);
}

/// Operand kinds an instruction schema entry may declare.
pub enum ArgKind {
    /// A machine-word count or index.
    U,
    /// Any term.
    Any,
    /// An atom index.
    Atm,
    /// A label index.
    Lbl,
    /// An X, Y or typed register.
    Reg,
    /// A word count or an allocation list.
    Alloc,
    /// A list of arbitrary terms.
    Lst,
    /// A list of Y registers.
    Ys,
}

/// Term kinds accepted at a position of kind `k` (empty means all).
pub open spec fn expected_kinds(k: ArgKind) -> Seq<TermKind> {
    match k {
        ArgKind::U => seq![TermKind::Usize],
        ArgKind::Any => Seq::empty(),
        ArgKind::Atm => seq![TermKind::Atom],
        ArgKind::Lbl => seq![TermKind::Label],
        ArgKind::Reg => seq![
            TermKind::XRegister,
            TermKind::YRegister,
            TermKind::TypedRegister,
        ],
        ArgKind::Alloc => seq![TermKind::Usize, TermKind::AllocationList],
        ArgKind::Lst => seq![TermKind::List],
        ArgKind::Ys => seq![TermKind::List],
    }
}

/// Does a term of kind `tk` satisfy a position of kind `k`?
pub open spec fn kind_allowed(k: ArgKind, tk: TermKind) -> bool {
    match k {
        ArgKind::Any => !(tk is Unknown),
        _ => expected_kinds(k).contains(tk),
    }
}

/// Decode one operand of declared kind `k` from the front of `s`.
pub open spec fn dec_arg(k: ArgKind, s: Seq<u8>) -> Result<(TermV, nat), DecodeErrorV>
    decreases s.len(), 1int, 6int,
{
    if s.len() == 0 {
        Err(DecodeErrorV::IoError)
    } else if !(k is Any) && !kind_allowed(k, kind_from_tag(s[0])) {
        Err(DecodeErrorV::UnexpectedTerm {
            expected: expected_kinds(k),
            actual: kind_from_tag(s[0]),
        })
    } else if k is Ys {
        let r = s.skip(1);
        match dec_unat(r) {
            Ok((len, c)) => {
                if c <= r.len() {
                    match dec_yregs(r.skip(c as int), len) {
                        Ok((items, m)) => Ok((TermV::List(items), (1 + c + m) as nat)),
                        Err(e) => Err(e),
                    }
                } else {
                    Err(DecodeErrorV::IoError)
                }
            },
            Err(e) => Err(e),
        }
    } else {
        dec_term(s)
    }
}

/// An unconstrained operand position decodes like a bare term.
pub proof fn lemma_dec_arg_any(s: Seq<u8>)
    ensures
        dec_arg(ArgKind::Any, s) == dec_term(s),
{
}

/// One operand at a position, guarded so that the consumed count never
/// exceeds what is there.  Opaque: the instruction layer reasons through
/// the operand decoders' contracts, not through this definition.
#[verifier::opaque]
pub open spec fn dec_arg_at(k: ArgKind, s: Seq<u8>) -> Result<(TermV, nat), DecodeErrorV> {
    match dec_arg(k, s) {
        Ok((t, n)) => {
            if n <= s.len() {
                Ok((t, n))
            } else {
                Err(DecodeErrorV::IoError)
            }
        },
        Err(e) => Err(e),
    }
}

/// The canonical byte string of a decoded term.
pub open spec fn enc_termv(t: TermV) -> Seq<u8>
    decreases t,
{
    match t {
        TermV::Usize(v) => enc_int(0, v),
        TermV::Integer(v) => enc_int(1, v),
        TermV::Atom(v) => enc_int(2, v),
        TermV::XRegister { value, .. } => enc_int(3, value),
        TermV::YRegister { value, .. } => enc_int(4, value),
        TermV::Label(v) => enc_int(5, v),
        TermV::Character(c) => enc_int(6, c as int),
        TermV::List(items) => seq![0x17u8] + enc_int(0, items.len() as int) + enc_termvs(items),
        TermV::FloatingPointRegister(v) => seq![0x27u8] + enc_int(0, v),
        TermV::AllocationList(items) => seq![0x37u8] + enc_int(0, items.len() as int)
            + enc_alloc_itemvs(items),
        TermV::Literal(v) => seq![0x47u8] + enc_int(0, v),
        TermV::TypedX { reg, ty, .. } => seq![0x57u8] + enc_int(3, reg) + enc_int(0, ty),
        TermV::TypedY { reg, ty, .. } => seq![0x57u8] + enc_int(4, reg) + enc_int(0, ty),
    }
}

/// The canonical byte string of a sequence of terms, back to back.
pub open spec fn enc_termvs(ts: Seq<TermV>) -> Seq<u8>
    decreases ts,
{
    if ts.len() == 0 {
        Seq::empty()
    } else {
        enc_termv(ts[0]) + enc_termvs(ts.subrange(1, ts.len() as int))
    }
}

/// The canonical byte string of one allocation list item.
pub open spec fn enc_alloc_itemv(it: AllocItemV) -> Seq<u8> {
    match it {
        AllocItemV::Words(v) => enc_int(0, 0) + enc_int(0, v),
        AllocItemV::Floats(v) => enc_int(0, 1) + enc_int(0, v),
        AllocItemV::Funs(v) => enc_int(0, 2) + enc_int(0, v),
    }
}

/// The canonical byte string of a sequence of allocation list items.
pub open spec fn enc_alloc_itemvs(items: Seq<AllocItemV>) -> Seq<u8>
    decreases items,
{
    if items.len() == 0 {
        Seq::empty()
    } else {
        enc_alloc_itemv(items[0]) + enc_alloc_itemvs(items.subrange(1, items.len() as int))
    }
}

/// Values that can round-trip: every machine-word position holds a value an
/// encoder of this format can place there, and register type annotations
/// travel only in typed registers.
pub open spec fn wf_termv(t: TermV) -> bool
    decreases t,
{
    match t {
        TermV::Usize(v) => uenc(v),
        TermV::Integer(v) => sbe_min2(v).len() <= 8 || uenc(sbe_min2(v).len() - 9),
        TermV::Atom(v) => uenc(v),
        TermV::XRegister { value, ty } => uenc(value) && ty is None,
        TermV::YRegister { value, ty } => uenc(value) && ty is None,
        TermV::Label(v) => uenc(v),
        TermV::Character(_) => true,
        TermV::List(items) => uenc(items.len() as int) && wf_termvs(items),
        TermV::FloatingPointRegister(v) => uenc(v),
        TermV::AllocationList(items) => uenc(items.len() as int) && wf_alloc_itemvs(items),
        TermV::Literal(v) => uenc(v),
        TermV::TypedX { reg, reg_ty, ty } => uenc(reg) && uenc(ty) && reg_ty is None,
        TermV::TypedY { reg, reg_ty, ty } => uenc(reg) && uenc(ty) && reg_ty is None,
    }
}

/// A machine-word value whose canonical encoding stays within eight payload
/// bytes, so that a machine-word position can read it back.
pub open spec fn uenc(v: int) -> bool {
    0 <= v <= usize::MAX as int && v < 0x8000_0000_0000_0000
}

pub open spec fn wf_termvs(ts: Seq<TermV>) -> bool
    decreases ts,
{
    forall|i: int| 0 <= i < ts.len() ==> wf_termv(#[trigger] ts[i])
}

pub open spec fn wf_alloc_itemv(it: AllocItemV) -> bool {
    match it {
        AllocItemV::Words(v) => uenc(v),
        AllocItemV::Floats(v) => uenc(v),
        AllocItemV::Funs(v) => uenc(v),
    }
}

pub open spec fn wf_alloc_itemvs(items: Seq<AllocItemV>) -> bool {
    forall|i: int| 0 <= i < items.len() ==> wf_alloc_itemv(#[trigger] items[i])
}

/// Splitting a double skip.
pub broadcast proof fn lemma_skip_skip(s: Seq<u8>, a: int, b: int)
    requires
        0 <= a,
        0 <= b,
        a + b <= s.len(),
    ensures
        #[trigger] s.skip(a).skip(b) == s.skip(a + b),
{
    assert(s.skip(a).skip(b) =~= s.skip(a + b));
}

/// Shortest-form byte strings are never longer than one byte plus what is
/// needed for the next smaller magnitude; in particular the length prefix of
/// the escape form always names a shorter byte string than the value's own.
pub proof fn lemma_sbe_min2_len_shrinks(v: int)
    requires
        sbe_min2(v).len() > 8,
    ensures
        sbe_min2(sbe_min2(v).len() - 9).len() < sbe_min2(v).len(),
{
    let l = sbe_min2(v).len() as int;
    if l - 9 < 128 {
        assert(sbe_min2(l - 9).len() == 2);
    } else {
        lemma_len_lt_pow(l);
        lemma_sbe_min_len_le(l - 9, l - 1);
    }
}

/// Any value within `[-128 * 256^(m-1), 128 * 256^(m-1))` has a shortest
/// form of at most `m` bytes.
pub proof fn lemma_sbe_min_len_le(v: int, m: int)
    requires
        1 <= m,
        -128 * pow256((m - 1) as nat) <= v < 128 * pow256((m - 1) as nat),
    ensures
        sbe_min(v).len() <= m,
    decreases m,
{
    if -128 <= v < 128 {
    } else {
        lemma_pow256_pos((m - 2) as nat);
        assert(pow256((m - 1) as nat) == 256 * pow256((m - 2) as nat));
        lemma_sbe_min_len_le(v / 256, m - 1);
    }
}

pub proof fn lemma_pow256_pos(n: nat)
    ensures
        pow256(n) >= 1,
    decreases n,
{
    if n > 0 {
        lemma_pow256_pos((n - 1) as nat);
    }
}

pub proof fn lemma_pow256_values()
    ensures
        pow256(0) == 1,
        pow256(1) == 0x100,
        pow256(2) == 0x1_0000,
        pow256(3) == 0x100_0000,
        pow256(4) == 0x1_0000_0000,
        pow256(5) == 0x100_0000_0000,
        pow256(6) == 0x1_0000_0000_0000,
        pow256(7) == 0x100_0000_0000_0000,
        pow256(8) == 0x1_0000_0000_0000_0000,
{
    reveal_with_fuel(pow256, 10);
}

pub proof fn lemma_pow256_mono(a: nat, b: nat)
    requires
        a <= b,
    ensures
        pow256(a) <= pow256(b),
    decreases b,
{
    if a < b {
        lemma_pow256_mono(a, (b - 1) as nat);
        lemma_pow256_pos((b - 1) as nat);
    }
}

/// The unsigned reading of a single byte is that byte.
pub proof fn lemma_ube_single(b: u8)
    ensures
        ube(seq![b]) == b,
{
    reveal_with_fuel(ube, 3);
    assert(seq![b].drop_last() =~= Seq::<u8>::empty());
    assert(seq![b].last() == b);
}

/// The signed reading of a single byte.
pub proof fn lemma_sbe_single(b: u8)
    ensures
        sbe(seq![b]) == if b >= 128 { b - 256 } else { b as int },
{
    lemma_ube_single(b);
    lemma_pow256_values();
}

/// The shortest form always has at least one byte.
pub proof fn lemma_sbe_min_len1(v: int)
    ensures
        sbe_min(v).len() >= 1,
    decreases (if v < 0 { -v } else { v }),
{
    if !(-128 <= v < 128) {
        lemma_sbe_min_len1(v / 256);
    }
}

/// The unsigned reading of a byte string is a non-negative number below
/// 256 to its length.
pub proof fn lemma_ube_bounds(s: Seq<u8>)
    ensures
        0 <= ube(s) < pow256(s.len()),
    decreases s.len(),
{
    if s.len() == 0 {
    } else {
        lemma_ube_bounds(s.drop_last());
        assert(pow256(s.len()) == 256 * pow256((s.len() - 1) as nat));
        assert(ube(s.drop_last()) * 256 + s.last() < 256 * pow256((s.len() - 1) as nat))
            by (nonlinear_arith)
            requires
                ube(s.drop_last()) <= pow256((s.len() - 1) as nat) - 1,
                s.last() < 256,
        ;
    }
}

/// Unsigned reading, split at the first byte.
pub proof fn lemma_ube_head(s: Seq<u8>)
    requires
        s.len() >= 1,
    ensures
        ube(s) == s[0] * pow256((s.len() - 1) as nat) + ube(s.skip(1)),
    decreases s.len(),
{
    if s.len() == 1 {
        reveal_with_fuel(ube, 3);
        assert(s.drop_last().len() == 0);
        assert(s.skip(1).len() == 0);
        assert(pow256(0) == 1);
        assert(s.last() == s[0]);
    } else {
        lemma_ube_head(s.drop_last());
        assert(s.drop_last()[0] == s[0]);
        assert(s.drop_last().skip(1) =~= s.skip(1).drop_last());
        assert(s.skip(1).last() == s.last());
        let m = (s.len() - 2) as nat;
        assert(ube(s) == ube(s.drop_last()) * 256 + s.last());
        assert(ube(s.drop_last()) == s[0] * pow256(m) + ube(s.skip(1).drop_last()));
        assert((s[0] * pow256(m) + ube(s.skip(1).drop_last())) * 256 == s[0] * (256 * pow256(m))
            + ube(s.skip(1).drop_last()) * 256) by (nonlinear_arith);
        assert(pow256((s.len() - 1) as nat) == 256 * pow256(m));
        assert(ube(s.skip(1)) == ube(s.skip(1).drop_last()) * 256 + s.last());
    }
}

/// Signed reading, split at the last byte.
pub proof fn lemma_sbe_drop_last(s: Seq<u8>)
    requires
        s.len() >= 2,
    ensures
        sbe(s) == sbe(s.drop_last()) * 256 + s.last(),
{
    assert(s.drop_last()[0] == s[0]);
    assert(ube(s) == ube(s.drop_last()) * 256 + s.last());
    if s[0] >= 128 {
        assert(pow256(s.len()) == 256 * pow256((s.len() - 1) as nat));
        assert((ube(s.drop_last()) - pow256((s.len() - 1) as nat)) * 256 == ube(s.drop_last())
            * 256 - 256 * pow256((s.len() - 1) as nat)) by (nonlinear_arith);
    }
}

/// The signed reading of a non-empty byte string lies within the two's
/// complement range of its length.
pub proof fn lemma_sbe_bounds(s: Seq<u8>)
    requires
        s.len() >= 1,
    ensures
        -128 * pow256((s.len() - 1) as nat) <= sbe(s) < 128 * pow256((s.len() - 1) as nat),
{
    lemma_ube_head(s);
    lemma_ube_bounds(s.skip(1));
    let p = pow256((s.len() - 1) as nat);
    lemma_pow256_pos((s.len() - 1) as nat);
    if s[0] >= 128 {
        assert(pow256(s.len()) == 256 * p);
        assert(s[0] * p <= 255 * p) by (nonlinear_arith)
            requires
                s[0] <= 255,
                p >= 1,
        ;
        assert(s[0] * p >= 128 * p) by (nonlinear_arith)
            requires
                s[0] >= 128,
                p >= 1,
        ;
    } else {
        assert(s[0] * p <= 127 * p) by (nonlinear_arith)
            requires
                s[0] <= 127,
                p >= 1,
        ;
        assert(s[0] * p >= 0) by (nonlinear_arith)
            requires
                s[0] >= 0,
                p >= 1,
        ;
    }
}

/// Dropping a redundant leading byte keeps the signed value.
pub proof fn lemma_sbe_head_drop(s: Seq<u8>)
    requires
        s.len() >= 2,
        (s[0] == 0 && s[1] < 128) || (s[0] == 255 && s[1] >= 128),
    ensures
        sbe(s.skip(1)) == sbe(s),
{
    lemma_ube_head(s);
    let r = s.skip(1);
    assert(r[0] == s[1]);
    let p = pow256((s.len() - 1) as nat);
    if s[0] == 0 {
        assert(sbe(s) == ube(s) - if s[0] >= 128 { pow256(s.len()) } else { 0 });
        assert(ube(s) == ube(r));
    } else {
        assert(pow256(s.len()) == 256 * p);
        assert(ube(s) == 255 * p + ube(r));
        assert(sbe(s) == ube(r) - p);
        assert(sbe(r) == ube(r) - p);
    }
}

/// The shortest form reads back to the value it was built from, and is in
/// shortest form.
pub proof fn lemma_sbe_min_correct(v: int)
    ensures
        sbe(sbe_min(v)) == v,
        min_form(sbe_min(v)),
    decreases (if v < 0 { -v } else { v }),
{
    if -128 <= v < 128 {
        let b = (v % 256) as u8;
        lemma_ube_single(b);
        lemma_pow256_values();
        if v < 0 {
            assert(v % 256 == v + 256);
            assert(b >= 128);
        } else {
            assert(v % 256 == v);
        }
    } else {
        lemma_sbe_min_correct(v / 256);
        let hi = sbe_min(v / 256);
        let b = (v % 256) as u8;
        let s = hi.push(b);
        assert(s.drop_last() =~= hi);
        assert(s.last() == b);
        assert(s.len() >= 2);
        assert(s[0] == hi[0]);
        lemma_sbe_drop_last(s);
        assert(sbe(s) == sbe(hi) * 256 + b);
        assert((v / 256) * 256 + v % 256 == v);
        // the first byte of `hi` is not redundant for `s`
        if hi.len() == 1 {
            assert(s[1] == b);
            if -32768 <= v / 256 * 256 {
            }
            assert(!((s[0] == 0 && s[1] < 128) || (s[0] == 255 && s[1] >= 128))) by {
                if s[0] == 0 {
                    assert(hi[0] == 0);
                    assert(hi =~= seq![0u8]);
                    lemma_sbe_single(0);
                    assert(sbe(hi) == 0);
                    assert(v == b);
                    assert(v >= 128);
                    assert(b >= 128);
                } else if s[0] == 255 {
                    assert(hi[0] == 255);
                    assert(hi =~= seq![255u8]);
                    lemma_sbe_single(255);
                    assert(sbe(hi) == -1);
                    assert(v == -256 + b);
                    assert(v < -128);
                    assert(b < 128);
                }
            }
        } else {
            assert(s[1] == hi[1]);
            assert(min_form(hi));
        }
    }
}

/// A byte string in shortest form is the shortest form of its value.
pub proof fn lemma_sbe_min_of_min_form(s: Seq<u8>)
    requires
        min_form(s),
    ensures
        sbe_min(sbe(s)) == s,
    decreases s.len(),
{
    let v = sbe(s);
    if s.len() == 1 {
        assert(s =~= seq![s[0]]);
        lemma_sbe_single(s[0]);
        if s[0] >= 128 {
            assert(v == s[0] - 256);
            assert(v % 256 == s[0]);
        } else {
            assert(v == s[0]);
            assert(v % 256 == s[0]);
        }
        assert(sbe_min(v) =~= s);
    } else {
        // the value does not fit one byte
        lemma_sbe_drop_last(s);
        let hi = s.drop_last();
        assert(min_form(hi)) by {
            if hi.len() >= 2 {
                assert(hi[0] == s[0]);
                assert(hi[1] == s[1]);
            }
        }
        lemma_sbe_min_of_min_form(hi);
        assert(v == sbe(hi) * 256 + s.last());
        assert(v / 256 == sbe(hi) && v % 256 == s.last()) by (nonlinear_arith)
            requires
                v == sbe(hi) * 256 + s.last(),
                0 <= s.last() < 256,
        ;
        assert(!(-128 <= v < 128)) by {
            lemma_out_of_one_byte(s);
        }
        assert(sbe_min(v) == sbe_min(sbe(hi)).push(s.last() as u8));
        assert(sbe_min(v) =~= s);
    }
}

/// A byte string in shortest form of two or more bytes holds a value that
/// does not fit one byte.
pub proof fn lemma_out_of_one_byte(s: Seq<u8>)
    requires
        min_form(s),
        s.len() >= 2,
    ensures
        !(-128 <= sbe(s) < 128),
{
    lemma_ube_head(s);
    lemma_ube_bounds(s.skip(1));
    let p = pow256((s.len() - 1) as nat);
    let r = s.skip(1);
    lemma_pow256_pos((s.len() - 2) as nat);
    assert(p == 256 * pow256((s.len() - 2) as nat));
    let q = pow256((s.len() - 2) as nat);
    lemma_ube_head(r);
    lemma_ube_bounds(r.skip(1));
    assert(r[0] == s[1]);
    if s[0] == 0 {
        // then s[1] >= 128
        assert(ube(s) == ube(r));
        assert(sbe(s) == ube(r));
        assert(ube(r) >= s[1] * q) by {
            assert(ube(r.skip(1)) >= 0);
        }
        assert(s[1] * q >= 128 * q) by (nonlinear_arith)
            requires
                s[1] >= 128,
                q >= 1,
        ;
        assert(128 * q >= 128) by (nonlinear_arith)
            requires
                q >= 1,
        ;
    } else if s[0] < 128 {
        assert(sbe(s) == ube(s));
        assert(s[0] * p >= p) by (nonlinear_arith)
            requires
                s[0] >= 1,
                p >= 1,
        ;
        assert(p >= 256);
        assert(ube(r) >= 0);
    } else if s[0] == 255 {
        // then s[1] < 128
        assert(pow256(s.len()) == 256 * p);
        assert(sbe(s) == 255 * p + ube(r) - 256 * p);
        assert(ube(r) == s[1] * q + ube(r.skip(1)));
        assert(ube(r.skip(1)) < q);
        assert(s[1] * q + q <= 128 * q) by (nonlinear_arith)
            requires
                s[1] <= 127,
                q >= 1,
        ;
        assert(128 * q * 2 == p * 1) by (nonlinear_arith)
            requires
                p == 256 * q,
        ;
        assert(sbe(s) < 128 * q - p);
        assert(128 * q >= 128) by (nonlinear_arith)
            requires
                q >= 1,
        ;
    } else {
        assert(pow256(s.len()) == 256 * p);
        assert(sbe(s) == (s[0] - 256) * p + ube(r)) by (nonlinear_arith)
            requires
                sbe(s) == s[0] * p + ube(r) - 256 * p,
        ;
        assert((s[0] - 256) * p <= -2 * p) by (nonlinear_arith)
            requires
                s[0] <= 254,
                p >= 1,
        ;
        assert(ube(r) < p);
        assert(p >= 256);
        assert(sbe(s) <= -2 * p + p - 1);
    }
}

/// The two-byte-or-more shortest form reads back to its value and has at
/// least two bytes.
pub proof fn lemma_sbe_min2_correct(v: int)
    ensures
        sbe(sbe_min2(v)) == v,
        sbe_min2(v).len() >= 2,
{
    if -128 <= v < 128 {
        let s = sbe_min2(v);
        assert(s.len() == 2);
        assert(s.skip(1) =~= seq![(v % 256) as u8]);
        lemma_sbe_min_correct(v);
        assert(sbe(seq![(v % 256) as u8]) == v) by {
            assert(sbe_min(v) =~= seq![(v % 256) as u8]);
        }
        if v < 0 {
            assert(v % 256 == v + 256);
        } else {
            assert(v % 256 == v);
        }
        lemma_sbe_head_drop(s);
        assert(sbe(s.skip(1)) == sbe(s));
    } else {
        lemma_sbe_min_correct(v);
        lemma_sbe_min_len2(v);
    }
}

/// Outside one byte's range the shortest form has at least two bytes.
proof fn lemma_sbe_min_len2(v: int)
    requires
        !(-128 <= v < 128),
    ensures
        sbe_min(v).len() >= 2,
{
    lemma_sbe_min_len1(v / 256);
}

/// Values below `2^63` in magnitude have shortest forms of at most eight
/// bytes.
pub proof fn lemma_sbe_min_len_le8(v: int)
    requires
        -0x8000_0000_0000_0000 <= v < 0x8000_0000_0000_0000,
    ensures
        sbe_min(v).len() <= 8,
        sbe_min2(v).len() <= 8,
{
    lemma_pow256_values();
    lemma_sbe_min_len_le(v, 8);
    if -128 <= v < 128 {
    }
}

/// Linear growth stays below exponential growth.
proof fn lemma_len_lt_pow(l: int)
    requires
        2 <= l,
    ensures
        l - 9 < 128 * pow256((l - 2) as nat),
    decreases l,
{
    if l == 2 {
    } else {
        lemma_len_lt_pow(l - 1);
        lemma_pow256_pos((l - 3) as nat);
    }
}

/// Extending an encoded prefix of a term sequence by one element.
pub proof fn lemma_enc_termvs_take(ts: Seq<TermV>, j: int)
    requires
        0 <= j < ts.len(),
    ensures
        enc_termvs(ts.take(j + 1)) == enc_termvs(ts.take(j)) + enc_termv(ts[j]),
    decreases j,
{
    if j == 0 {
        assert(ts.take(1) =~= seq![ts[0]]);
        assert(ts.take(1).subrange(1, 1) =~= Seq::<TermV>::empty());
        assert(ts.take(0) =~= Seq::<TermV>::empty());
        assert(enc_termvs(ts.take(1)) =~= enc_termvs(ts.take(0)) + enc_termv(ts[0]));
    } else {
        let sub = ts.subrange(1, ts.len() as int);
        lemma_enc_termvs_take(sub, j - 1);
        assert(ts.take(j + 1)[0] == ts[0]);
        assert(ts.take(j)[0] == ts[0]);
        assert(ts.take(j + 1).subrange(1, j + 1) =~= sub.take(j));
        assert(ts.take(j).subrange(1, j) =~= sub.take(j - 1));
        assert(sub[j - 1] == ts[j]);
        assert(enc_termvs(ts.take(j + 1)) == enc_termv(ts[0]) + (enc_termvs(sub.take(j - 1))
            + enc_termv(ts[j])));
        assert(enc_termvs(ts.take(j + 1)) =~= enc_termvs(ts.take(j)) + enc_termv(ts[j]));
    }
}

/// Extending an encoded prefix of an allocation list by one item.
pub proof fn lemma_enc_allocs_take(items: Seq<AllocItemV>, j: int)
    requires
        0 <= j < items.len(),
    ensures
        enc_alloc_itemvs(items.take(j + 1)) == enc_alloc_itemvs(items.take(j)) + enc_alloc_itemv(
            items[j],
        ),
    decreases j,
{
    if j == 0 {
        assert(items.take(1) =~= seq![items[0]]);
        assert(items.take(1).subrange(1, 1) =~= Seq::<AllocItemV>::empty());
        assert(items.take(0) =~= Seq::<AllocItemV>::empty());
        assert(enc_alloc_itemvs(items.take(1)) =~= enc_alloc_itemvs(items.take(0))
            + enc_alloc_itemv(items[0]));
    } else {
        let sub = items.subrange(1, items.len() as int);
        lemma_enc_allocs_take(sub, j - 1);
        assert(items.take(j + 1)[0] == items[0]);
        assert(items.take(j)[0] == items[0]);
        assert(items.take(j + 1).subrange(1, j + 1) =~= sub.take(j));
        assert(items.take(j).subrange(1, j) =~= sub.take(j - 1));
        assert(sub[j - 1] == items[j]);
        assert(enc_alloc_itemvs(items.take(j + 1)) == enc_alloc_itemv(items[0])
            + (enc_alloc_itemvs(sub.take(j - 1)) + enc_alloc_itemv(items[j])));
        assert(enc_alloc_itemvs(items.take(j + 1)) =~= enc_alloc_itemvs(items.take(j))
            + enc_alloc_itemv(items[j]));
    }
}

} // verus!
