//! The schema-level laws: every instruction's canonical bytes decode back
//! to the instruction's wire form, and the bytes factor through that form.
use crate::error::DecodeErrorV;
use crate::instruction;
use crate::instruction::Instruction;
use crate::laws;
use crate::wire;
use crate::wire::ArgKind;
use crate::wire::TermV;
use vstd::prelude::*;

verus! {

broadcast use crate::wire::lemma_skip_skip;

/// An instruction whose operand views can all travel the wire and come
/// back: machine-word positions hold encodable values, and register type
/// annotations sit only in typed registers.
pub open spec fn wf_instruction(i: Instruction) -> bool {
    wire::wf_termvs(instruction::args_of(i))
}

/// Dropping a concatenation's first part.
proof fn lemma_seq_peel(x: Seq<u8>, y: Seq<u8>)
    ensures
        (x + y).skip(x.len() as int) == y,
{
    assert((x + y).skip(x.len() as int) =~= y);
}

/// A chain of 1 canonically encoded operands decodes back to them.
#[verifier::rlimit(100)]
proof fn lemma_chain1(k1: ArgKind, a1: TermV, rest: Seq<u8>)
    requires
        wire::wf_termv(a1),
        laws::arg_kind_ok(k1, a1),
    ensures
        instruction::chain1(k1, wire::enc_termv(a1) + rest) == Ok::<_, DecodeErrorV>((
            seq![a1],
            (wire::enc_termv(a1)).len(),
        )),
{
    let e1 = wire::enc_termv(a1);
    let s = e1 + rest;
    let r2 = rest;
    let r1 = e1 + r2;
    laws::lemma_dec_enc_arg(k1, a1, r2);
    assert((wire::enc_termv(a1)).len() == e1.len());
}

/// Right-nesting a row of 2 encoded operands.
proof fn lemma_chain2_shape(x1: Seq<u8>, x2: Seq<u8>, rest: Seq<u8>)
    ensures
        x1 + x2 + rest == x1 + (x2 + rest),
{
    assert(x1 + x2 + rest =~= x1 + (x2 + rest));
}

/// A chain of 2 canonically encoded operands decodes back to them.
#[verifier::rlimit(100)]
proof fn lemma_chain2(k1: ArgKind, k2: ArgKind, a1: TermV, a2: TermV, rest: Seq<u8>)
    requires
        wire::wf_termv(a1),
        laws::arg_kind_ok(k1, a1),
        wire::wf_termv(a2),
        laws::arg_kind_ok(k2, a2),
    ensures
        instruction::chain2(k1, k2, wire::enc_termv(a1) + wire::enc_termv(a2) + rest) == Ok::<_, DecodeErrorV>((
            seq![a1, a2],
            (wire::enc_termv(a1) + wire::enc_termv(a2)).len(),
        )),
{
    let e1 = wire::enc_termv(a1);
    let e2 = wire::enc_termv(a2);
    let s = e1 + e2 + rest;
    let r3 = rest;
    let r2 = e2 + r3;
    let r1 = e1 + r2;
    lemma_chain2_shape(e1, e2, rest);
    assert(s == r1);
    laws::lemma_dec_enc_arg(k1, a1, r2);
    lemma_seq_peel(e1, r2);
    laws::lemma_dec_enc_arg(k2, a2, r3);
    assert((wire::enc_termv(a1) + wire::enc_termv(a2)).len() == e1.len() + e2.len());
}

/// Right-nesting a row of 3 encoded operands.
proof fn lemma_chain3_shape(x1: Seq<u8>, x2: Seq<u8>, x3: Seq<u8>, rest: Seq<u8>)
    ensures
        x1 + x2 + x3 + rest == x1 + (x2 + (x3 + rest)),
{
    assert(x1 + x2 + x3 + rest =~= x1 + (x2 + (x3 + rest)));
}

/// A chain of 3 canonically encoded operands decodes back to them.
#[verifier::rlimit(100)]
proof fn lemma_chain3(k1: ArgKind, k2: ArgKind, k3: ArgKind, a1: TermV, a2: TermV, a3: TermV, rest: Seq<u8>)
    requires
        wire::wf_termv(a1),
        laws::arg_kind_ok(k1, a1),
        wire::wf_termv(a2),
        laws::arg_kind_ok(k2, a2),
        wire::wf_termv(a3),
        laws::arg_kind_ok(k3, a3),
    ensures
        instruction::chain3(k1, k2, k3, wire::enc_termv(a1) + wire::enc_termv(a2) + wire::enc_termv(a3) + rest) == Ok::<_, DecodeErrorV>((
            seq![a1, a2, a3],
            (wire::enc_termv(a1) + wire::enc_termv(a2) + wire::enc_termv(a3)).len(),
        )),
{
    let e1 = wire::enc_termv(a1);
    let e2 = wire::enc_termv(a2);
    let e3 = wire::enc_termv(a3);
    let s = e1 + e2 + e3 + rest;
    let r4 = rest;
    let r3 = e3 + r4;
    let r2 = e2 + r3;
    let r1 = e1 + r2;
    lemma_chain3_shape(e1, e2, e3, rest);
    assert(s == r1);
    laws::lemma_dec_enc_arg(k1, a1, r2);
    lemma_seq_peel(e1, r2);
    laws::lemma_dec_enc_arg(k2, a2, r3);
    lemma_seq_peel(e2, r3);
    laws::lemma_dec_enc_arg(k3, a3, r4);
    assert((wire::enc_termv(a1) + wire::enc_termv(a2) + wire::enc_termv(a3)).len() == e1.len() + e2.len() + e3.len());
}

/// Right-nesting a row of 4 encoded operands.
proof fn lemma_chain4_shape(x1: Seq<u8>, x2: Seq<u8>, x3: Seq<u8>, x4: Seq<u8>, rest: Seq<u8>)
    ensures
        x1 + x2 + x3 + x4 + rest == x1 + (x2 + (x3 + (x4 + rest))),
{
    assert(x1 + x2 + x3 + x4 + rest =~= x1 + (x2 + (x3 + (x4 + rest))));
}

/// A chain of 4 canonically encoded operands decodes back to them.
#[verifier::rlimit(100)]
proof fn lemma_chain4(k1: ArgKind, k2: ArgKind, k3: ArgKind, k4: ArgKind, a1: TermV, a2: TermV, a3: TermV, a4: TermV, rest: Seq<u8>)
    requires
        wire::wf_termv(a1),
        laws::arg_kind_ok(k1, a1),
        wire::wf_termv(a2),
        laws::arg_kind_ok(k2, a2),
        wire::wf_termv(a3),
        laws::arg_kind_ok(k3, a3),
        wire::wf_termv(a4),
        laws::arg_kind_ok(k4, a4),
    ensures
        instruction::chain4(k1, k2, k3, k4, wire::enc_termv(a1) + wire::enc_termv(a2) + wire::enc_termv(a3) + wire::enc_termv(a4) + rest) == Ok::<_, DecodeErrorV>((
            seq![a1, a2, a3, a4],
            (wire::enc_termv(a1) + wire::enc_termv(a2) + wire::enc_termv(a3) + wire::enc_termv(a4)).len(),
        )),
{
    let e1 = wire::enc_termv(a1);
    let e2 = wire::enc_termv(a2);
    let e3 = wire::enc_termv(a3);
    let e4 = wire::enc_termv(a4);
    let s = e1 + e2 + e3 + e4 + rest;
    let r5 = rest;
    let r4 = e4 + r5;
    let r3 = e3 + r4;
    let r2 = e2 + r3;
    let r1 = e1 + r2;
    lemma_chain4_shape(e1, e2, e3, e4, rest);
    assert(s == r1);
    laws::lemma_dec_enc_arg(k1, a1, r2);
    lemma_seq_peel(e1, r2);
    laws::lemma_dec_enc_arg(k2, a2, r3);
    lemma_seq_peel(e2, r3);
    laws::lemma_dec_enc_arg(k3, a3, r4);
    lemma_seq_peel(e3, r4);
    laws::lemma_dec_enc_arg(k4, a4, r5);
    assert((wire::enc_termv(a1) + wire::enc_termv(a2) + wire::enc_termv(a3) + wire::enc_termv(a4)).len() == e1.len() + e2.len() + e3.len() + e4.len());
}

/// Right-nesting a row of 5 encoded operands.
proof fn lemma_chain5_shape(x1: Seq<u8>, x2: Seq<u8>, x3: Seq<u8>, x4: Seq<u8>, x5: Seq<u8>, rest: Seq<u8>)
    ensures
        x1 + x2 + x3 + x4 + x5 + rest == x1 + (x2 + (x3 + (x4 + (x5 + rest)))),
{
    assert(x1 + x2 + x3 + x4 + x5 + rest =~= x1 + (x2 + (x3 + (x4 + (x5 + rest)))));
}

/// A chain of 5 canonically encoded operands decodes back to them.
#[verifier::rlimit(100)]
proof fn lemma_chain5(k1: ArgKind, k2: ArgKind, k3: ArgKind, k4: ArgKind, k5: ArgKind, a1: TermV, a2: TermV, a3: TermV, a4: TermV, a5: TermV, rest: Seq<u8>)
    requires
        wire::wf_termv(a1),
        laws::arg_kind_ok(k1, a1),
        wire::wf_termv(a2),
        laws::arg_kind_ok(k2, a2),
        wire::wf_termv(a3),
        laws::arg_kind_ok(k3, a3),
        wire::wf_termv(a4),
        laws::arg_kind_ok(k4, a4),
        wire::wf_termv(a5),
        laws::arg_kind_ok(k5, a5),
    ensures
        instruction::chain5(k1, k2, k3, k4, k5, wire::enc_termv(a1) + wire::enc_termv(a2) + wire::enc_termv(a3) + wire::enc_termv(a4) + wire::enc_termv(a5) + rest) == Ok::<_, DecodeErrorV>((
            seq![a1, a2, a3, a4, a5],
            (wire::enc_termv(a1) + wire::enc_termv(a2) + wire::enc_termv(a3) + wire::enc_termv(a4) + wire::enc_termv(a5)).len(),
        )),
{
    let e1 = wire::enc_termv(a1);
    let e2 = wire::enc_termv(a2);
    let e3 = wire::enc_termv(a3);
    let e4 = wire::enc_termv(a4);
    let e5 = wire::enc_termv(a5);
    let s = e1 + e2 + e3 + e4 + e5 + rest;
    let r6 = rest;
    let r5 = e5 + r6;
    let r4 = e4 + r5;
    let r3 = e3 + r4;
    let r2 = e2 + r3;
    let r1 = e1 + r2;
    lemma_chain5_shape(e1, e2, e3, e4, e5, rest);
    assert(s == r1);
    laws::lemma_dec_enc_arg(k1, a1, r2);
    lemma_seq_peel(e1, r2);
    laws::lemma_dec_enc_arg(k2, a2, r3);
    lemma_seq_peel(e2, r3);
    laws::lemma_dec_enc_arg(k3, a3, r4);
    lemma_seq_peel(e3, r4);
    laws::lemma_dec_enc_arg(k4, a4, r5);
    lemma_seq_peel(e4, r5);
    laws::lemma_dec_enc_arg(k5, a5, r6);
    assert((wire::enc_termv(a1) + wire::enc_termv(a2) + wire::enc_termv(a3) + wire::enc_termv(a4) + wire::enc_termv(a5)).len() == e1.len() + e2.len() + e3.len() + e4.len() + e5.len());
}

/// Right-nesting a row of 6 encoded operands.
proof fn lemma_chain6_shape(x1: Seq<u8>, x2: Seq<u8>, x3: Seq<u8>, x4: Seq<u8>, x5: Seq<u8>, x6: Seq<u8>, rest: Seq<u8>)
    ensures
        x1 + x2 + x3 + x4 + x5 + x6 + rest == x1 + (x2 + (x3 + (x4 + (x5 + (x6 + rest))))),
{
    assert(x1 + x2 + x3 + x4 + x5 + x6 + rest =~= x1 + (x2 + (x3 + (x4 + (x5 + (x6 + rest))))));
}

/// A chain of 6 canonically encoded operands decodes back to them.
#[verifier::rlimit(100)]
proof fn lemma_chain6(k1: ArgKind, k2: ArgKind, k3: ArgKind, k4: ArgKind, k5: ArgKind, k6: ArgKind, a1: TermV, a2: TermV, a3: TermV, a4: TermV, a5: TermV, a6: TermV, rest: Seq<u8>)
    requires
        wire::wf_termv(a1),
        laws::arg_kind_ok(k1, a1),
        wire::wf_termv(a2),
        laws::arg_kind_ok(k2, a2),
        wire::wf_termv(a3),
        laws::arg_kind_ok(k3, a3),
        wire::wf_termv(a4),
        laws::arg_kind_ok(k4, a4),
        wire::wf_termv(a5),
        laws::arg_kind_ok(k5, a5),
        wire::wf_termv(a6),
        laws::arg_kind_ok(k6, a6),
    ensures
        instruction::chain6(k1, k2, k3, k4, k5, k6, wire::enc_termv(a1) + wire::enc_termv(a2) + wire::enc_termv(a3) + wire::enc_termv(a4) + wire::enc_termv(a5) + wire::enc_termv(a6) + rest) == Ok::<_, DecodeErrorV>((
            seq![a1, a2, a3, a4, a5, a6],
            (wire::enc_termv(a1) + wire::enc_termv(a2) + wire::enc_termv(a3) + wire::enc_termv(a4) + wire::enc_termv(a5) + wire::enc_termv(a6)).len(),
        )),
{
    let e1 = wire::enc_termv(a1);
    let e2 = wire::enc_termv(a2);
    let e3 = wire::enc_termv(a3);
    let e4 = wire::enc_termv(a4);
    let e5 = wire::enc_termv(a5);
    let e6 = wire::enc_termv(a6);
    let s = e1 + e2 + e3 + e4 + e5 + e6 + rest;
    let r7 = rest;
    let r6 = e6 + r7;
    let r5 = e5 + r6;
    let r4 = e4 + r5;
    let r3 = e3 + r4;
    let r2 = e2 + r3;
    let r1 = e1 + r2;
    lemma_chain6_shape(e1, e2, e3, e4, e5, e6, rest);
    assert(s == r1);
    laws::lemma_dec_enc_arg(k1, a1, r2);
    lemma_seq_peel(e1, r2);
    laws::lemma_dec_enc_arg(k2, a2, r3);
    lemma_seq_peel(e2, r3);
    laws::lemma_dec_enc_arg(k3, a3, r4);
    lemma_seq_peel(e3, r4);
    laws::lemma_dec_enc_arg(k4, a4, r5);
    lemma_seq_peel(e4, r5);
    laws::lemma_dec_enc_arg(k5, a5, r6);
    lemma_seq_peel(e5, r6);
    laws::lemma_dec_enc_arg(k6, a6, r7);
    assert((wire::enc_termv(a1) + wire::enc_termv(a2) + wire::enc_termv(a3) + wire::enc_termv(a4) + wire::enc_termv(a5) + wire::enc_termv(a6)).len() == e1.len() + e2.len() + e3.len() + e4.len() + e5.len() + e6.len());
}

/// Right-nesting a row of 7 encoded operands.
proof fn lemma_chain7_shape(x1: Seq<u8>, x2: Seq<u8>, x3: Seq<u8>, x4: Seq<u8>, x5: Seq<u8>, x6: Seq<u8>, x7: Seq<u8>, rest: Seq<u8>)
    ensures
        x1 + x2 + x3 + x4 + x5 + x6 + x7 + rest == x1 + (x2 + (x3 + (x4 + (x5 + (x6 + (x7 + rest)))))),
{
    assert(x1 + x2 + x3 + x4 + x5 + x6 + x7 + rest =~= x1 + (x2 + (x3 + (x4 + (x5 + (x6 + (x7 + rest)))))));
}

/// A chain of 7 canonically encoded operands decodes back to them.
#[verifier::rlimit(100)]
proof fn lemma_chain7(k1: ArgKind, k2: ArgKind, k3: ArgKind, k4: ArgKind, k5: ArgKind, k6: ArgKind, k7: ArgKind, a1: TermV, a2: TermV, a3: TermV, a4: TermV, a5: TermV, a6: TermV, a7: TermV, rest: Seq<u8>)
    requires
        wire::wf_termv(a1),
        laws::arg_kind_ok(k1, a1),
        wire::wf_termv(a2),
        laws::arg_kind_ok(k2, a2),
        wire::wf_termv(a3),
        laws::arg_kind_ok(k3, a3),
        wire::wf_termv(a4),
        laws::arg_kind_ok(k4, a4),
        wire::wf_termv(a5),
        laws::arg_kind_ok(k5, a5),
        wire::wf_termv(a6),
        laws::arg_kind_ok(k6, a6),
        wire::wf_termv(a7),
        laws::arg_kind_ok(k7, a7),
    ensures
        instruction::chain7(k1, k2, k3, k4, k5, k6, k7, wire::enc_termv(a1) + wire::enc_termv(a2) + wire::enc_termv(a3) + wire::enc_termv(a4) + wire::enc_termv(a5) + wire::enc_termv(a6) + wire::enc_termv(a7) + rest) == Ok::<_, DecodeErrorV>((
            seq![a1, a2, a3, a4, a5, a6, a7],
            (wire::enc_termv(a1) + wire::enc_termv(a2) + wire::enc_termv(a3) + wire::enc_termv(a4) + wire::enc_termv(a5) + wire::enc_termv(a6) + wire::enc_termv(a7)).len(),
        )),
{
    let e1 = wire::enc_termv(a1);
    let e2 = wire::enc_termv(a2);
    let e3 = wire::enc_termv(a3);
    let e4 = wire::enc_termv(a4);
    let e5 = wire::enc_termv(a5);
    let e6 = wire::enc_termv(a6);
    let e7 = wire::enc_termv(a7);
    let s = e1 + e2 + e3 + e4 + e5 + e6 + e7 + rest;
    let r8 = rest;
    let r7 = e7 + r8;
    let r6 = e6 + r7;
    let r5 = e5 + r6;
    let r4 = e4 + r5;
    let r3 = e3 + r4;
    let r2 = e2 + r3;
    let r1 = e1 + r2;
    lemma_chain7_shape(e1, e2, e3, e4, e5, e6, e7, rest);
    assert(s == r1);
    laws::lemma_dec_enc_arg(k1, a1, r2);
    lemma_seq_peel(e1, r2);
    laws::lemma_dec_enc_arg(k2, a2, r3);
    lemma_seq_peel(e2, r3);
    laws::lemma_dec_enc_arg(k3, a3, r4);
    lemma_seq_peel(e3, r4);
    laws::lemma_dec_enc_arg(k4, a4, r5);
    lemma_seq_peel(e4, r5);
    laws::lemma_dec_enc_arg(k5, a5, r6);
    lemma_seq_peel(e5, r6);
    laws::lemma_dec_enc_arg(k6, a6, r7);
    lemma_seq_peel(e6, r7);
    laws::lemma_dec_enc_arg(k7, a7, r8);
    assert((wire::enc_termv(a1) + wire::enc_termv(a2) + wire::enc_termv(a3) + wire::enc_termv(a4) + wire::enc_termv(a5) + wire::enc_termv(a6) + wire::enc_termv(a7)).len() == e1.len() + e2.len() + e3.len() + e4.len() + e5.len() + e6.len() + e7.len());
}

/// Right-nesting a row of 8 encoded operands.
proof fn lemma_chain8_shape(x1: Seq<u8>, x2: Seq<u8>, x3: Seq<u8>, x4: Seq<u8>, x5: Seq<u8>, x6: Seq<u8>, x7: Seq<u8>, x8: Seq<u8>, rest: Seq<u8>)
    ensures
        x1 + x2 + x3 + x4 + x5 + x6 + x7 + x8 + rest == x1 + (x2 + (x3 + (x4 + (x5 + (x6 + (x7 + (x8 + rest))))))),
{
    assert(x1 + x2 + x3 + x4 + x5 + x6 + x7 + x8 + rest =~= x1 + (x2 + (x3 + (x4 + (x5 + (x6 + (x7 + (x8 + rest))))))));
}

/// A chain of 8 canonically encoded operands decodes back to them.
#[verifier::rlimit(100)]
proof fn lemma_chain8(k1: ArgKind, k2: ArgKind, k3: ArgKind, k4: ArgKind, k5: ArgKind, k6: ArgKind, k7: ArgKind, k8: ArgKind, a1: TermV, a2: TermV, a3: TermV, a4: TermV, a5: TermV, a6: TermV, a7: TermV, a8: TermV, rest: Seq<u8>)
    requires
        wire::wf_termv(a1),
        laws::arg_kind_ok(k1, a1),
        wire::wf_termv(a2),
        laws::arg_kind_ok(k2, a2),
        wire::wf_termv(a3),
        laws::arg_kind_ok(k3, a3),
        wire::wf_termv(a4),
        laws::arg_kind_ok(k4, a4),
        wire::wf_termv(a5),
        laws::arg_kind_ok(k5, a5),
        wire::wf_termv(a6),
        laws::arg_kind_ok(k6, a6),
        wire::wf_termv(a7),
        laws::arg_kind_ok(k7, a7),
        wire::wf_termv(a8),
        laws::arg_kind_ok(k8, a8),
    ensures
        instruction::chain8(k1, k2, k3, k4, k5, k6, k7, k8, wire::enc_termv(a1) + wire::enc_termv(a2) + wire::enc_termv(a3) + wire::enc_termv(a4) + wire::enc_termv(a5) + wire::enc_termv(a6) + wire::enc_termv(a7) + wire::enc_termv(a8) + rest) == Ok::<_, DecodeErrorV>((
            seq![a1, a2, a3, a4, a5, a6, a7, a8],
            (wire::enc_termv(a1) + wire::enc_termv(a2) + wire::enc_termv(a3) + wire::enc_termv(a4) + wire::enc_termv(a5) + wire::enc_termv(a6) + wire::enc_termv(a7) + wire::enc_termv(a8)).len(),
        )),
{
    let e1 = wire::enc_termv(a1);
    let e2 = wire::enc_termv(a2);
    let e3 = wire::enc_termv(a3);
    let e4 = wire::enc_termv(a4);
    let e5 = wire::enc_termv(a5);
    let e6 = wire::enc_termv(a6);
    let e7 = wire::enc_termv(a7);
    let e8 = wire::enc_termv(a8);
    let s = e1 + e2 + e3 + e4 + e5 + e6 + e7 + e8 + rest;
    let r9 = rest;
    let r8 = e8 + r9;
    let r7 = e7 + r8;
    let r6 = e6 + r7;
    let r5 = e5 + r6;
    let r4 = e4 + r5;
    let r3 = e3 + r4;
    let r2 = e2 + r3;
    let r1 = e1 + r2;
    lemma_chain8_shape(e1, e2, e3, e4, e5, e6, e7, e8, rest);
    assert(s == r1);
    laws::lemma_dec_enc_arg(k1, a1, r2);
    lemma_seq_peel(e1, r2);
    laws::lemma_dec_enc_arg(k2, a2, r3);
    lemma_seq_peel(e2, r3);
    laws::lemma_dec_enc_arg(k3, a3, r4);
    lemma_seq_peel(e3, r4);
    laws::lemma_dec_enc_arg(k4, a4, r5);
    lemma_seq_peel(e4, r5);
    laws::lemma_dec_enc_arg(k5, a5, r6);
    lemma_seq_peel(e5, r6);
    laws::lemma_dec_enc_arg(k6, a6, r7);
    lemma_seq_peel(e6, r7);
    laws::lemma_dec_enc_arg(k7, a7, r8);
    lemma_seq_peel(e7, r8);
    laws::lemma_dec_enc_arg(k8, a8, r9);
    assert((wire::enc_termv(a1) + wire::enc_termv(a2) + wire::enc_termv(a3) + wire::enc_termv(a4) + wire::enc_termv(a5) + wire::enc_termv(a6) + wire::enc_termv(a7) + wire::enc_termv(a8)).len() == e1.len() + e2.len() + e3.len() + e4.len() + e5.len() + e6.len() + e7.len() + e8.len());
}

/// The opcode byte in front of no operands.
proof fn lemma_instr_shape_0(c: u8, rest: Seq<u8>)
    ensures
        (seq![c] + rest)[0] == c,
        (seq![c] + rest).skip(1) == rest,
{
    assert((seq![c] + rest).skip(1) =~= rest);
}

/// The opcode byte in front of a row of 1 encoded operands.
proof fn lemma_instr_shape_1(c: u8, x1: Seq<u8>, rest: Seq<u8>)
    ensures
        ((seq![c] + x1) + rest)[0] == c,
        ((seq![c] + x1) + rest).skip(1) == x1 + rest,
        seq![c] + x1 == seq![c] + (x1),
{
    assert(((seq![c] + x1) + rest).skip(1) =~= x1 + rest);
    assert(seq![c] + x1 =~= seq![c] + (x1));
}

/// The opcode byte in front of a row of 2 encoded operands.
proof fn lemma_instr_shape_2(c: u8, x1: Seq<u8>, x2: Seq<u8>, rest: Seq<u8>)
    ensures
        ((seq![c] + x1 + x2) + rest)[0] == c,
        ((seq![c] + x1 + x2) + rest).skip(1) == x1 + x2 + rest,
        seq![c] + x1 + x2 == seq![c] + (x1 + x2),
{
    assert(((seq![c] + x1 + x2) + rest).skip(1) =~= x1 + x2 + rest);
    assert(seq![c] + x1 + x2 =~= seq![c] + (x1 + x2));
}

/// The opcode byte in front of a row of 3 encoded operands.
proof fn lemma_instr_shape_3(c: u8, x1: Seq<u8>, x2: Seq<u8>, x3: Seq<u8>, rest: Seq<u8>)
    ensures
        ((seq![c] + x1 + x2 + x3) + rest)[0] == c,
        ((seq![c] + x1 + x2 + x3) + rest).skip(1) == x1 + x2 + x3 + rest,
        seq![c] + x1 + x2 + x3 == seq![c] + (x1 + x2 + x3),
{
    assert(((seq![c] + x1 + x2 + x3) + rest).skip(1) =~= x1 + x2 + x3 + rest);
    assert(seq![c] + x1 + x2 + x3 =~= seq![c] + (x1 + x2 + x3));
}

/// The opcode byte in front of a row of 4 encoded operands.
proof fn lemma_instr_shape_4(c: u8, x1: Seq<u8>, x2: Seq<u8>, x3: Seq<u8>, x4: Seq<u8>, rest: Seq<u8>)
    ensures
        ((seq![c] + x1 + x2 + x3 + x4) + rest)[0] == c,
        ((seq![c] + x1 + x2 + x3 + x4) + rest).skip(1) == x1 + x2 + x3 + x4 + rest,
        seq![c] + x1 + x2 + x3 + x4 == seq![c] + (x1 + x2 + x3 + x4),
{
    assert(((seq![c] + x1 + x2 + x3 + x4) + rest).skip(1) =~= x1 + x2 + x3 + x4 + rest);
    assert(seq![c] + x1 + x2 + x3 + x4 =~= seq![c] + (x1 + x2 + x3 + x4));
}

/// The opcode byte in front of a row of 5 encoded operands.
proof fn lemma_instr_shape_5(c: u8, x1: Seq<u8>, x2: Seq<u8>, x3: Seq<u8>, x4: Seq<u8>, x5: Seq<u8>, rest: Seq<u8>)
    ensures
        ((seq![c] + x1 + x2 + x3 + x4 + x5) + rest)[0] == c,
        ((seq![c] + x1 + x2 + x3 + x4 + x5) + rest).skip(1) == x1 + x2 + x3 + x4 + x5 + rest,
        seq![c] + x1 + x2 + x3 + x4 + x5 == seq![c] + (x1 + x2 + x3 + x4 + x5),
{
    assert(((seq![c] + x1 + x2 + x3 + x4 + x5) + rest).skip(1) =~= x1 + x2 + x3 + x4 + x5 + rest);
    assert(seq![c] + x1 + x2 + x3 + x4 + x5 =~= seq![c] + (x1 + x2 + x3 + x4 + x5));
}

/// The opcode byte in front of a row of 6 encoded operands.
proof fn lemma_instr_shape_6(c: u8, x1: Seq<u8>, x2: Seq<u8>, x3: Seq<u8>, x4: Seq<u8>, x5: Seq<u8>, x6: Seq<u8>, rest: Seq<u8>)
    ensures
        ((seq![c] + x1 + x2 + x3 + x4 + x5 + x6) + rest)[0] == c,
        ((seq![c] + x1 + x2 + x3 + x4 + x5 + x6) + rest).skip(1) == x1 + x2 + x3 + x4 + x5 + x6 + rest,
        seq![c] + x1 + x2 + x3 + x4 + x5 + x6 == seq![c] + (x1 + x2 + x3 + x4 + x5 + x6),
{
    assert(((seq![c] + x1 + x2 + x3 + x4 + x5 + x6) + rest).skip(1) =~= x1 + x2 + x3 + x4 + x5 + x6 + rest);
    assert(seq![c] + x1 + x2 + x3 + x4 + x5 + x6 =~= seq![c] + (x1 + x2 + x3 + x4 + x5 + x6));
}

/// The opcode byte in front of a row of 7 encoded operands.
proof fn lemma_instr_shape_7(c: u8, x1: Seq<u8>, x2: Seq<u8>, x3: Seq<u8>, x4: Seq<u8>, x5: Seq<u8>, x6: Seq<u8>, x7: Seq<u8>, rest: Seq<u8>)
    ensures
        ((seq![c] + x1 + x2 + x3 + x4 + x5 + x6 + x7) + rest)[0] == c,
        ((seq![c] + x1 + x2 + x3 + x4 + x5 + x6 + x7) + rest).skip(1) == x1 + x2 + x3 + x4 + x5 + x6 + x7 + rest,
        seq![c] + x1 + x2 + x3 + x4 + x5 + x6 + x7 == seq![c] + (x1 + x2 + x3 + x4 + x5 + x6 + x7),
{
    assert(((seq![c] + x1 + x2 + x3 + x4 + x5 + x6 + x7) + rest).skip(1) =~= x1 + x2 + x3 + x4 + x5 + x6 + x7 + rest);
    assert(seq![c] + x1 + x2 + x3 + x4 + x5 + x6 + x7 =~= seq![c] + (x1 + x2 + x3 + x4 + x5 + x6 + x7));
}

/// The opcode byte in front of a row of 8 encoded operands.
proof fn lemma_instr_shape_8(c: u8, x1: Seq<u8>, x2: Seq<u8>, x3: Seq<u8>, x4: Seq<u8>, x5: Seq<u8>, x6: Seq<u8>, x7: Seq<u8>, x8: Seq<u8>, rest: Seq<u8>)
    ensures
        ((seq![c] + x1 + x2 + x3 + x4 + x5 + x6 + x7 + x8) + rest)[0] == c,
        ((seq![c] + x1 + x2 + x3 + x4 + x5 + x6 + x7 + x8) + rest).skip(1) == x1 + x2 + x3 + x4 + x5 + x6 + x7 + x8 + rest,
        seq![c] + x1 + x2 + x3 + x4 + x5 + x6 + x7 + x8 == seq![c] + (x1 + x2 + x3 + x4 + x5 + x6 + x7 + x8),
{
    assert(((seq![c] + x1 + x2 + x3 + x4 + x5 + x6 + x7 + x8) + rest).skip(1) =~= x1 + x2 + x3 + x4 + x5 + x6 + x7 + x8 + rest);
    assert(seq![c] + x1 + x2 + x3 + x4 + x5 + x6 + x7 + x8 =~= seq![c] + (x1 + x2 + x3 + x4 + x5 + x6 + x7 + x8));
}

/// The encoded bytes of a literal sequence of 0 operands.
proof fn lemma_enc_termvs_0()
    ensures
        wire::enc_termvs(Seq::<TermV>::empty()) == Seq::<u8>::empty(),
{
}

/// The encoded bytes of a literal sequence of 1 operand.
proof fn lemma_enc_termvs_1(a1: TermV)
    ensures
        wire::enc_termvs(seq![a1]) == wire::enc_termv(a1),
{
    reveal_with_fuel(wire::enc_termvs, 3);
    assert(seq![a1].subrange(1, 1) =~= Seq::<TermV>::empty());
    assert(wire::enc_termvs(seq![a1]) =~= wire::enc_termv(a1));
}

/// The encoded bytes of a literal sequence of 2 operands.
proof fn lemma_enc_termvs_2(a1: TermV, a2: TermV)
    ensures
        wire::enc_termvs(seq![a1, a2]) == wire::enc_termv(a1) + wire::enc_termv(a2),
{
    reveal_with_fuel(wire::enc_termvs, 3);
    assert(seq![a1, a2].subrange(1, 2) =~= seq![a2]);
    lemma_enc_termvs_1(a2);
    assert(wire::enc_termvs(seq![a1, a2]) =~= wire::enc_termv(a1) + wire::enc_termv(a2));
}

/// The encoded bytes of a literal sequence of 3 operands.
proof fn lemma_enc_termvs_3(a1: TermV, a2: TermV, a3: TermV)
    ensures
        wire::enc_termvs(seq![a1, a2, a3]) == wire::enc_termv(a1) + wire::enc_termv(a2) + wire::enc_termv(a3),
{
    reveal_with_fuel(wire::enc_termvs, 3);
    assert(seq![a1, a2, a3].subrange(1, 3) =~= seq![a2, a3]);
    lemma_enc_termvs_2(a2, a3);
    assert(wire::enc_termvs(seq![a1, a2, a3]) =~= wire::enc_termv(a1) + wire::enc_termv(a2) + wire::enc_termv(a3));
}

/// The encoded bytes of a literal sequence of 4 operands.
proof fn lemma_enc_termvs_4(a1: TermV, a2: TermV, a3: TermV, a4: TermV)
    ensures
        wire::enc_termvs(seq![a1, a2, a3, a4]) == wire::enc_termv(a1) + wire::enc_termv(a2) + wire::enc_termv(a3) + wire::enc_termv(a4),
{
    reveal_with_fuel(wire::enc_termvs, 3);
    assert(seq![a1, a2, a3, a4].subrange(1, 4) =~= seq![a2, a3, a4]);
    lemma_enc_termvs_3(a2, a3, a4);
    assert(wire::enc_termvs(seq![a1, a2, a3, a4]) =~= wire::enc_termv(a1) + wire::enc_termv(a2) + wire::enc_termv(a3) + wire::enc_termv(a4));
}

/// The encoded bytes of a literal sequence of 5 operands.
proof fn lemma_enc_termvs_5(a1: TermV, a2: TermV, a3: TermV, a4: TermV, a5: TermV)
    ensures
        wire::enc_termvs(seq![a1, a2, a3, a4, a5]) == wire::enc_termv(a1) + wire::enc_termv(a2) + wire::enc_termv(a3) + wire::enc_termv(a4) + wire::enc_termv(a5),
{
    reveal_with_fuel(wire::enc_termvs, 3);
    assert(seq![a1, a2, a3, a4, a5].subrange(1, 5) =~= seq![a2, a3, a4, a5]);
    lemma_enc_termvs_4(a2, a3, a4, a5);
    assert(wire::enc_termvs(seq![a1, a2, a3, a4, a5]) =~= wire::enc_termv(a1) + wire::enc_termv(a2) + wire::enc_termv(a3) + wire::enc_termv(a4) + wire::enc_termv(a5));
}

/// The encoded bytes of a literal sequence of 6 operands.
proof fn lemma_enc_termvs_6(a1: TermV, a2: TermV, a3: TermV, a4: TermV, a5: TermV, a6: TermV)
    ensures
        wire::enc_termvs(seq![a1, a2, a3, a4, a5, a6]) == wire::enc_termv(a1) + wire::enc_termv(a2) + wire::enc_termv(a3) + wire::enc_termv(a4) + wire::enc_termv(a5) + wire::enc_termv(a6),
{
    reveal_with_fuel(wire::enc_termvs, 3);
    assert(seq![a1, a2, a3, a4, a5, a6].subrange(1, 6) =~= seq![a2, a3, a4, a5, a6]);
    lemma_enc_termvs_5(a2, a3, a4, a5, a6);
    assert(wire::enc_termvs(seq![a1, a2, a3, a4, a5, a6]) =~= wire::enc_termv(a1) + wire::enc_termv(a2) + wire::enc_termv(a3) + wire::enc_termv(a4) + wire::enc_termv(a5) + wire::enc_termv(a6));
}

/// The encoded bytes of a literal sequence of 7 operands.
proof fn lemma_enc_termvs_7(a1: TermV, a2: TermV, a3: TermV, a4: TermV, a5: TermV, a6: TermV, a7: TermV)
    ensures
        wire::enc_termvs(seq![a1, a2, a3, a4, a5, a6, a7]) == wire::enc_termv(a1) + wire::enc_termv(a2) + wire::enc_termv(a3) + wire::enc_termv(a4) + wire::enc_termv(a5) + wire::enc_termv(a6) + wire::enc_termv(a7),
{
    reveal_with_fuel(wire::enc_termvs, 3);
    assert(seq![a1, a2, a3, a4, a5, a6, a7].subrange(1, 7) =~= seq![a2, a3, a4, a5, a6, a7]);
    lemma_enc_termvs_6(a2, a3, a4, a5, a6, a7);
    assert(wire::enc_termvs(seq![a1, a2, a3, a4, a5, a6, a7]) =~= wire::enc_termv(a1) + wire::enc_termv(a2) + wire::enc_termv(a3) + wire::enc_termv(a4) + wire::enc_termv(a5) + wire::enc_termv(a6) + wire::enc_termv(a7));
}

/// The encoded bytes of a literal sequence of 8 operands.
proof fn lemma_enc_termvs_8(a1: TermV, a2: TermV, a3: TermV, a4: TermV, a5: TermV, a6: TermV, a7: TermV, a8: TermV)
    ensures
        wire::enc_termvs(seq![a1, a2, a3, a4, a5, a6, a7, a8]) == wire::enc_termv(a1) + wire::enc_termv(a2) + wire::enc_termv(a3) + wire::enc_termv(a4) + wire::enc_termv(a5) + wire::enc_termv(a6) + wire::enc_termv(a7) + wire::enc_termv(a8),
{
    reveal_with_fuel(wire::enc_termvs, 3);
    assert(seq![a1, a2, a3, a4, a5, a6, a7, a8].subrange(1, 8) =~= seq![a2, a3, a4, a5, a6, a7, a8]);
    lemma_enc_termvs_7(a2, a3, a4, a5, a6, a7, a8);
    assert(wire::enc_termvs(seq![a1, a2, a3, a4, a5, a6, a7, a8]) =~= wire::enc_termv(a1) + wire::enc_termv(a2) + wire::enc_termv(a3) + wire::enc_termv(a4) + wire::enc_termv(a5) + wire::enc_termv(a6) + wire::enc_termv(a7) + wire::enc_termv(a8));
}

/// The canonical bytes of this instruction type decode back to it.
#[verifier::rlimit(100)]
proof fn lemma_instr_1(x: instruction::Label, rest: Seq<u8>)
    requires
        wf_instruction(Instruction::Label(x)),
    ensures
        instruction::enc_instr(Instruction::Label(x)).len() >= 1,
        instruction::enc_instr(Instruction::Label(x)) == seq![
            instruction::opcode_of(Instruction::Label(x)),
        ] + wire::enc_termvs(instruction::args_of(Instruction::Label(x))),
        instruction::dec_instr(instruction::enc_instr(Instruction::Label(x)) + rest) == Ok::<
            _,
            DecodeErrorV,
        >((
            instruction::opcode_of(Instruction::Label(x)),
            instruction::args_of(Instruction::Label(x)),
            instruction::enc_instr(Instruction::Label(x)).len(),
        )),
{
    let i = Instruction::Label(x);
    let args = instruction::args_of(i);
    let a1 = TermV::Usize(x.literal as int);
    assert(args =~= seq![a1]);
    assert(wire::wf_termv(a1)) by {
        assert(args[0] == a1);
    }
    lemma_chain1(ArgKind::U, a1, rest);
    let e1 = wire::enc_termv(a1);
    assert(instruction::enc_instr(i) == seq![1u8] + e1);
    let s = instruction::enc_instr(i) + rest;
    lemma_instr_shape_1(1, e1, rest);
    assert(s[0] == 1);
    assert(s.skip(1) == e1 + rest);
    lemma_enc_termvs_1(a1);
    assert(instruction::enc_instr(i).len() == 1 + (e1).len());
    assert(instruction::enc_instr(i) == seq![instruction::opcode_of(i)] + wire::enc_termvs(args));
}

/// The canonical bytes of this instruction type decode back to it.
#[verifier::rlimit(100)]
proof fn lemma_instr_2(x: instruction::FuncInfo, rest: Seq<u8>)
    requires
        wf_instruction(Instruction::FuncInfo(x)),
    ensures
        instruction::enc_instr(Instruction::FuncInfo(x)).len() >= 1,
        instruction::enc_instr(Instruction::FuncInfo(x)) == seq![
            instruction::opcode_of(Instruction::FuncInfo(x)),
        ] + wire::enc_termvs(instruction::args_of(Instruction::FuncInfo(x))),
        instruction::dec_instr(instruction::enc_instr(Instruction::FuncInfo(x)) + rest) == Ok::<
            _,
            DecodeErrorV,
        >((
            instruction::opcode_of(Instruction::FuncInfo(x)),
            instruction::args_of(Instruction::FuncInfo(x)),
            instruction::enc_instr(Instruction::FuncInfo(x)).len(),
        )),
{
    let i = Instruction::FuncInfo(x);
    let args = instruction::args_of(i);
    let a1 = TermV::Atom(x.module.value as int);
    let a2 = TermV::Atom(x.function.value as int);
    let a3 = TermV::Usize(x.arity as int);
    assert(args =~= seq![a1, a2, a3]);
    assert(wire::wf_termv(a1)) by {
        assert(args[0] == a1);
    }
    assert(wire::wf_termv(a2)) by {
        assert(args[1] == a2);
    }
    assert(wire::wf_termv(a3)) by {
        assert(args[2] == a3);
    }
    lemma_chain3(ArgKind::Atm, ArgKind::Atm, ArgKind::U, a1, a2, a3, rest);
    let e1 = wire::enc_termv(a1);
    let e2 = wire::enc_termv(a2);
    let e3 = wire::enc_termv(a3);
    assert(instruction::enc_instr(i) == seq![2u8] + e1 + e2 + e3);
    let s = instruction::enc_instr(i) + rest;
    lemma_instr_shape_3(2, e1, e2, e3, rest);
    assert(s[0] == 2);
    assert(s.skip(1) == e1 + e2 + e3 + rest);
    lemma_enc_termvs_3(a1, a2, a3);
    assert(instruction::enc_instr(i).len() == 1 + (e1 + e2 + e3).len());
    assert(instruction::enc_instr(i) == seq![instruction::opcode_of(i)] + wire::enc_termvs(args));
}

/// The canonical bytes of this instruction type decode back to it.
#[verifier::rlimit(100)]
proof fn lemma_instr_3(x: instruction::IntCodeEnd, rest: Seq<u8>)
    requires
        wf_instruction(Instruction::IntCodeEnd(x)),
    ensures
        instruction::enc_instr(Instruction::IntCodeEnd(x)).len() >= 1,
        instruction::enc_instr(Instruction::IntCodeEnd(x)) == seq![
            instruction::opcode_of(Instruction::IntCodeEnd(x)),
        ] + wire::enc_termvs(instruction::args_of(Instruction::IntCodeEnd(x))),
        instruction::dec_instr(instruction::enc_instr(Instruction::IntCodeEnd(x)) + rest) == Ok::<
            _,
            DecodeErrorV,
        >((
            instruction::opcode_of(Instruction::IntCodeEnd(x)),
            instruction::args_of(Instruction::IntCodeEnd(x)),
            instruction::enc_instr(Instruction::IntCodeEnd(x)).len(),
        )),
{
    let i = Instruction::IntCodeEnd(x);
    let args = instruction::args_of(i);
    assert(args =~= Seq::<TermV>::empty());
    assert(instruction::enc_instr(i) == seq![3u8]);
    let s = instruction::enc_instr(i) + rest;
    lemma_instr_shape_0(3, rest);
    assert(s[0] == 3);
    assert(s.skip(1) == rest);
    lemma_enc_termvs_0();
    assert(seq![3u8] + Seq::<u8>::empty() =~= seq![3u8]);
    assert(instruction::enc_instr(i) == seq![instruction::opcode_of(i)] + wire::enc_termvs(args));
}

/// The canonical bytes of this instruction type decode back to it.
#[verifier::rlimit(100)]
proof fn lemma_instr_4(x: instruction::Call, rest: Seq<u8>)
    requires
        wf_instruction(Instruction::Call(x)),
    ensures
        instruction::enc_instr(Instruction::Call(x)).len() >= 1,
        instruction::enc_instr(Instruction::Call(x)) == seq![
            instruction::opcode_of(Instruction::Call(x)),
        ] + wire::enc_termvs(instruction::args_of(Instruction::Call(x))),
        instruction::dec_instr(instruction::enc_instr(Instruction::Call(x)) + rest) == Ok::<
            _,
            DecodeErrorV,
        >((
            instruction::opcode_of(Instruction::Call(x)),
            instruction::args_of(Instruction::Call(x)),
            instruction::enc_instr(Instruction::Call(x)).len(),
        )),
{
    let i = Instruction::Call(x);
    let args = instruction::args_of(i);
    let a1 = TermV::Usize(x.arity as int);
    let a2 = TermV::Label(x.label.value as int);
    assert(args =~= seq![a1, a2]);
    assert(wire::wf_termv(a1)) by {
        assert(args[0] == a1);
    }
    assert(wire::wf_termv(a2)) by {
        assert(args[1] == a2);
    }
    lemma_chain2(ArgKind::U, ArgKind::Lbl, a1, a2, rest);
    let e1 = wire::enc_termv(a1);
    let e2 = wire::enc_termv(a2);
    assert(instruction::enc_instr(i) == seq![4u8] + e1 + e2);
    let s = instruction::enc_instr(i) + rest;
    lemma_instr_shape_2(4, e1, e2, rest);
    assert(s[0] == 4);
    assert(s.skip(1) == e1 + e2 + rest);
    lemma_enc_termvs_2(a1, a2);
    assert(instruction::enc_instr(i).len() == 1 + (e1 + e2).len());
    assert(instruction::enc_instr(i) == seq![instruction::opcode_of(i)] + wire::enc_termvs(args));
}

/// The canonical bytes of this instruction type decode back to it.
#[verifier::rlimit(100)]
proof fn lemma_instr_5(x: instruction::CallLast, rest: Seq<u8>)
    requires
        wf_instruction(Instruction::CallLast(x)),
    ensures
        instruction::enc_instr(Instruction::CallLast(x)).len() >= 1,
        instruction::enc_instr(Instruction::CallLast(x)) == seq![
            instruction::opcode_of(Instruction::CallLast(x)),
        ] + wire::enc_termvs(instruction::args_of(Instruction::CallLast(x))),
        instruction::dec_instr(instruction::enc_instr(Instruction::CallLast(x)) + rest) == Ok::<
            _,
            DecodeErrorV,
        >((
            instruction::opcode_of(Instruction::CallLast(x)),
            instruction::args_of(Instruction::CallLast(x)),
            instruction::enc_instr(Instruction::CallLast(x)).len(),
        )),
{
    let i = Instruction::CallLast(x);
    let args = instruction::args_of(i);
    let a1 = x.arg1@;
    let a2 = x.arg2@;
    let a3 = x.arg3@;
    assert(args =~= seq![a1, a2, a3]);
    assert(wire::wf_termv(a1)) by {
        assert(args[0] == a1);
    }
    assert(wire::wf_termv(a2)) by {
        assert(args[1] == a2);
    }
    assert(wire::wf_termv(a3)) by {
        assert(args[2] == a3);
    }
    lemma_chain3(ArgKind::Any, ArgKind::Any, ArgKind::Any, a1, a2, a3, rest);
    let e1 = wire::enc_termv(a1);
    let e2 = wire::enc_termv(a2);
    let e3 = wire::enc_termv(a3);
    assert(instruction::enc_instr(i) == seq![5u8] + e1 + e2 + e3);
    let s = instruction::enc_instr(i) + rest;
    lemma_instr_shape_3(5, e1, e2, e3, rest);
    assert(s[0] == 5);
    assert(s.skip(1) == e1 + e2 + e3 + rest);
    lemma_enc_termvs_3(a1, a2, a3);
    assert(instruction::enc_instr(i).len() == 1 + (e1 + e2 + e3).len());
    assert(instruction::enc_instr(i) == seq![instruction::opcode_of(i)] + wire::enc_termvs(args));
}

/// The canonical bytes of this instruction type decode back to it.
#[verifier::rlimit(100)]
proof fn lemma_instr_6(x: instruction::CallOnly, rest: Seq<u8>)
    requires
        wf_instruction(Instruction::CallOnly(x)),
    ensures
        instruction::enc_instr(Instruction::CallOnly(x)).len() >= 1,
        instruction::enc_instr(Instruction::CallOnly(x)) == seq![
            instruction::opcode_of(Instruction::CallOnly(x)),
        ] + wire::enc_termvs(instruction::args_of(Instruction::CallOnly(x))),
        instruction::dec_instr(instruction::enc_instr(Instruction::CallOnly(x)) + rest) == Ok::<
            _,
            DecodeErrorV,
        >((
            instruction::opcode_of(Instruction::CallOnly(x)),
            instruction::args_of(Instruction::CallOnly(x)),
            instruction::enc_instr(Instruction::CallOnly(x)).len(),
        )),
{
    let i = Instruction::CallOnly(x);
    let args = instruction::args_of(i);
    let a1 = TermV::Usize(x.arity as int);
    let a2 = TermV::Label(x.label.value as int);
    assert(args =~= seq![a1, a2]);
    assert(wire::wf_termv(a1)) by {
        assert(args[0] == a1);
    }
    assert(wire::wf_termv(a2)) by {
        assert(args[1] == a2);
    }
    lemma_chain2(ArgKind::U, ArgKind::Lbl, a1, a2, rest);
    let e1 = wire::enc_termv(a1);
    let e2 = wire::enc_termv(a2);
    assert(instruction::enc_instr(i) == seq![6u8] + e1 + e2);
    let s = instruction::enc_instr(i) + rest;
    lemma_instr_shape_2(6, e1, e2, rest);
    assert(s[0] == 6);
    assert(s.skip(1) == e1 + e2 + rest);
    lemma_enc_termvs_2(a1, a2);
    assert(instruction::enc_instr(i).len() == 1 + (e1 + e2).len());
    assert(instruction::enc_instr(i) == seq![instruction::opcode_of(i)] + wire::enc_termvs(args));
}

/// The canonical bytes of this instruction type decode back to it.
#[verifier::rlimit(100)]
proof fn lemma_instr_7(x: instruction::CallExt, rest: Seq<u8>)
    requires
        wf_instruction(Instruction::CallExt(x)),
    ensures
        instruction::enc_instr(Instruction::CallExt(x)).len() >= 1,
        instruction::enc_instr(Instruction::CallExt(x)) == seq![
            instruction::opcode_of(Instruction::CallExt(x)),
        ] + wire::enc_termvs(instruction::args_of(Instruction::CallExt(x))),
        instruction::dec_instr(instruction::enc_instr(Instruction::CallExt(x)) + rest) == Ok::<
            _,
            DecodeErrorV,
        >((
            instruction::opcode_of(Instruction::CallExt(x)),
            instruction::args_of(Instruction::CallExt(x)),
            instruction::enc_instr(Instruction::CallExt(x)).len(),
        )),
{
    let i = Instruction::CallExt(x);
    let args = instruction::args_of(i);
    let a1 = TermV::Usize(x.arity as int);
    let a2 = TermV::Usize(x.destination as int);
    assert(args =~= seq![a1, a2]);
    assert(wire::wf_termv(a1)) by {
        assert(args[0] == a1);
    }
    assert(wire::wf_termv(a2)) by {
        assert(args[1] == a2);
    }
    lemma_chain2(ArgKind::U, ArgKind::U, a1, a2, rest);
    let e1 = wire::enc_termv(a1);
    let e2 = wire::enc_termv(a2);
    assert(instruction::enc_instr(i) == seq![7u8] + e1 + e2);
    let s = instruction::enc_instr(i) + rest;
    lemma_instr_shape_2(7, e1, e2, rest);
    assert(s[0] == 7);
    assert(s.skip(1) == e1 + e2 + rest);
    lemma_enc_termvs_2(a1, a2);
    assert(instruction::enc_instr(i).len() == 1 + (e1 + e2).len());
    assert(instruction::enc_instr(i) == seq![instruction::opcode_of(i)] + wire::enc_termvs(args));
}

/// The canonical bytes of this instruction type decode back to it.
#[verifier::rlimit(100)]
proof fn lemma_instr_8(x: instruction::CallExtLast, rest: Seq<u8>)
    requires
        wf_instruction(Instruction::CallExtLast(x)),
    ensures
        instruction::enc_instr(Instruction::CallExtLast(x)).len() >= 1,
        instruction::enc_instr(Instruction::CallExtLast(x)) == seq![
            instruction::opcode_of(Instruction::CallExtLast(x)),
        ] + wire::enc_termvs(instruction::args_of(Instruction::CallExtLast(x))),
        instruction::dec_instr(instruction::enc_instr(Instruction::CallExtLast(x)) + rest) == Ok::<
            _,
            DecodeErrorV,
        >((
            instruction::opcode_of(Instruction::CallExtLast(x)),
            instruction::args_of(Instruction::CallExtLast(x)),
            instruction::enc_instr(Instruction::CallExtLast(x)).len(),
        )),
{
    let i = Instruction::CallExtLast(x);
    let args = instruction::args_of(i);
    let a1 = TermV::Usize(x.arity as int);
    let a2 = TermV::Usize(x.destination as int);
    let a3 = TermV::Usize(x.deallocate as int);
    assert(args =~= seq![a1, a2, a3]);
    assert(wire::wf_termv(a1)) by {
        assert(args[0] == a1);
    }
    assert(wire::wf_termv(a2)) by {
        assert(args[1] == a2);
    }
    assert(wire::wf_termv(a3)) by {
        assert(args[2] == a3);
    }
    lemma_chain3(ArgKind::U, ArgKind::U, ArgKind::U, a1, a2, a3, rest);
    let e1 = wire::enc_termv(a1);
    let e2 = wire::enc_termv(a2);
    let e3 = wire::enc_termv(a3);
    assert(instruction::enc_instr(i) == seq![8u8] + e1 + e2 + e3);
    let s = instruction::enc_instr(i) + rest;
    lemma_instr_shape_3(8, e1, e2, e3, rest);
    assert(s[0] == 8);
    assert(s.skip(1) == e1 + e2 + e3 + rest);
    lemma_enc_termvs_3(a1, a2, a3);
    assert(instruction::enc_instr(i).len() == 1 + (e1 + e2 + e3).len());
    assert(instruction::enc_instr(i) == seq![instruction::opcode_of(i)] + wire::enc_termvs(args));
}

/// The canonical bytes of this instruction type decode back to it.
#[verifier::rlimit(100)]
proof fn lemma_instr_9(x: instruction::Bif0, rest: Seq<u8>)
    requires
        wf_instruction(Instruction::Bif0(x)),
    ensures
        instruction::enc_instr(Instruction::Bif0(x)).len() >= 1,
        instruction::enc_instr(Instruction::Bif0(x)) == seq![
            instruction::opcode_of(Instruction::Bif0(x)),
        ] + wire::enc_termvs(instruction::args_of(Instruction::Bif0(x))),
        instruction::dec_instr(instruction::enc_instr(Instruction::Bif0(x)) + rest) == Ok::<
            _,
            DecodeErrorV,
        >((
            instruction::opcode_of(Instruction::Bif0(x)),
            instruction::args_of(Instruction::Bif0(x)),
            instruction::enc_instr(Instruction::Bif0(x)).len(),
        )),
{
    let i = Instruction::Bif0(x);
    let args = instruction::args_of(i);
    let a1 = x.arg1@;
    let a2 = x.arg2@;
    assert(args =~= seq![a1, a2]);
    assert(wire::wf_termv(a1)) by {
        assert(args[0] == a1);
    }
    assert(wire::wf_termv(a2)) by {
        assert(args[1] == a2);
    }
    lemma_chain2(ArgKind::Any, ArgKind::Any, a1, a2, rest);
    let e1 = wire::enc_termv(a1);
    let e2 = wire::enc_termv(a2);
    assert(instruction::enc_instr(i) == seq![9u8] + e1 + e2);
    let s = instruction::enc_instr(i) + rest;
    lemma_instr_shape_2(9, e1, e2, rest);
    assert(s[0] == 9);
    assert(s.skip(1) == e1 + e2 + rest);
    lemma_enc_termvs_2(a1, a2);
    assert(instruction::enc_instr(i).len() == 1 + (e1 + e2).len());
    assert(instruction::enc_instr(i) == seq![instruction::opcode_of(i)] + wire::enc_termvs(args));
}

/// The canonical bytes of this instruction type decode back to it.
#[verifier::rlimit(100)]
proof fn lemma_instr_10(x: instruction::Bif1, rest: Seq<u8>)
    requires
        wf_instruction(Instruction::Bif1(x)),
    ensures
        instruction::enc_instr(Instruction::Bif1(x)).len() >= 1,
        instruction::enc_instr(Instruction::Bif1(x)) == seq![
            instruction::opcode_of(Instruction::Bif1(x)),
        ] + wire::enc_termvs(instruction::args_of(Instruction::Bif1(x))),
        instruction::dec_instr(instruction::enc_instr(Instruction::Bif1(x)) + rest) == Ok::<
            _,
            DecodeErrorV,
        >((
            instruction::opcode_of(Instruction::Bif1(x)),
            instruction::args_of(Instruction::Bif1(x)),
            instruction::enc_instr(Instruction::Bif1(x)).len(),
        )),
{
    let i = Instruction::Bif1(x);
    let args = instruction::args_of(i);
    let a1 = x.arg1@;
    let a2 = x.arg2@;
    let a3 = x.arg3@;
    let a4 = x.arg4@;
    assert(args =~= seq![a1, a2, a3, a4]);
    assert(wire::wf_termv(a1)) by {
        assert(args[0] == a1);
    }
    assert(wire::wf_termv(a2)) by {
        assert(args[1] == a2);
    }
    assert(wire::wf_termv(a3)) by {
        assert(args[2] == a3);
    }
    assert(wire::wf_termv(a4)) by {
        assert(args[3] == a4);
    }
    lemma_chain4(ArgKind::Any, ArgKind::Any, ArgKind::Any, ArgKind::Any, a1, a2, a3, a4, rest);
    let e1 = wire::enc_termv(a1);
    let e2 = wire::enc_termv(a2);
    let e3 = wire::enc_termv(a3);
    let e4 = wire::enc_termv(a4);
    assert(instruction::enc_instr(i) == seq![10u8] + e1 + e2 + e3 + e4);
    let s = instruction::enc_instr(i) + rest;
    lemma_instr_shape_4(10, e1, e2, e3, e4, rest);
    assert(s[0] == 10);
    assert(s.skip(1) == e1 + e2 + e3 + e4 + rest);
    lemma_enc_termvs_4(a1, a2, a3, a4);
    assert(instruction::enc_instr(i).len() == 1 + (e1 + e2 + e3 + e4).len());
    assert(instruction::enc_instr(i) == seq![instruction::opcode_of(i)] + wire::enc_termvs(args));
}

/// The canonical bytes of this instruction type decode back to it.
#[verifier::rlimit(100)]
proof fn lemma_instr_11(x: instruction::Bif2, rest: Seq<u8>)
    requires
        wf_instruction(Instruction::Bif2(x)),
    ensures
        instruction::enc_instr(Instruction::Bif2(x)).len() >= 1,
        instruction::enc_instr(Instruction::Bif2(x)) == seq![
            instruction::opcode_of(Instruction::Bif2(x)),
        ] + wire::enc_termvs(instruction::args_of(Instruction::Bif2(x))),
        instruction::dec_instr(instruction::enc_instr(Instruction::Bif2(x)) + rest) == Ok::<
            _,
            DecodeErrorV,
        >((
            instruction::opcode_of(Instruction::Bif2(x)),
            instruction::args_of(Instruction::Bif2(x)),
            instruction::enc_instr(Instruction::Bif2(x)).len(),
        )),
{
    let i = Instruction::Bif2(x);
    let args = instruction::args_of(i);
    let a1 = x.arg1@;
    let a2 = x.arg2@;
    let a3 = x.arg3@;
    let a4 = x.arg4@;
    let a5 = x.arg5@;
    assert(args =~= seq![a1, a2, a3, a4, a5]);
    assert(wire::wf_termv(a1)) by {
        assert(args[0] == a1);
    }
    assert(wire::wf_termv(a2)) by {
        assert(args[1] == a2);
    }
    assert(wire::wf_termv(a3)) by {
        assert(args[2] == a3);
    }
    assert(wire::wf_termv(a4)) by {
        assert(args[3] == a4);
    }
    assert(wire::wf_termv(a5)) by {
        assert(args[4] == a5);
    }
    lemma_chain5(ArgKind::Any, ArgKind::Any, ArgKind::Any, ArgKind::Any, ArgKind::Any, a1, a2, a3, a4, a5, rest);
    let e1 = wire::enc_termv(a1);
    let e2 = wire::enc_termv(a2);
    let e3 = wire::enc_termv(a3);
    let e4 = wire::enc_termv(a4);
    let e5 = wire::enc_termv(a5);
    assert(instruction::enc_instr(i) == seq![11u8] + e1 + e2 + e3 + e4 + e5);
    let s = instruction::enc_instr(i) + rest;
    lemma_instr_shape_5(11, e1, e2, e3, e4, e5, rest);
    assert(s[0] == 11);
    assert(s.skip(1) == e1 + e2 + e3 + e4 + e5 + rest);
    lemma_enc_termvs_5(a1, a2, a3, a4, a5);
    assert(instruction::enc_instr(i).len() == 1 + (e1 + e2 + e3 + e4 + e5).len());
    assert(instruction::enc_instr(i) == seq![instruction::opcode_of(i)] + wire::enc_termvs(args));
}

/// The canonical bytes of this instruction type decode back to it.
#[verifier::rlimit(100)]
proof fn lemma_instr_12(x: instruction::Allocate, rest: Seq<u8>)
    requires
        wf_instruction(Instruction::Allocate(x)),
    ensures
        instruction::enc_instr(Instruction::Allocate(x)).len() >= 1,
        instruction::enc_instr(Instruction::Allocate(x)) == seq![
            instruction::opcode_of(Instruction::Allocate(x)),
        ] + wire::enc_termvs(instruction::args_of(Instruction::Allocate(x))),
        instruction::dec_instr(instruction::enc_instr(Instruction::Allocate(x)) + rest) == Ok::<
            _,
            DecodeErrorV,
        >((
            instruction::opcode_of(Instruction::Allocate(x)),
            instruction::args_of(Instruction::Allocate(x)),
            instruction::enc_instr(Instruction::Allocate(x)).len(),
        )),
{
    let i = Instruction::Allocate(x);
    let args = instruction::args_of(i);
    let a1 = x.stack_need@;
    let a2 = TermV::Usize(x.live as int);
    assert(args =~= seq![a1, a2]);
    assert(wire::wf_termv(a1)) by {
        assert(args[0] == a1);
    }
    assert(wire::wf_termv(a2)) by {
        assert(args[1] == a2);
    }
    lemma_chain2(ArgKind::Alloc, ArgKind::U, a1, a2, rest);
    let e1 = wire::enc_termv(a1);
    let e2 = wire::enc_termv(a2);
    assert(instruction::enc_instr(i) == seq![12u8] + e1 + e2);
    let s = instruction::enc_instr(i) + rest;
    lemma_instr_shape_2(12, e1, e2, rest);
    assert(s[0] == 12);
    assert(s.skip(1) == e1 + e2 + rest);
    lemma_enc_termvs_2(a1, a2);
    assert(instruction::enc_instr(i).len() == 1 + (e1 + e2).len());
    assert(instruction::enc_instr(i) == seq![instruction::opcode_of(i)] + wire::enc_termvs(args));
}

/// The canonical bytes of this instruction type decode back to it.
#[verifier::rlimit(100)]
proof fn lemma_instr_13(x: instruction::AllocateHeap, rest: Seq<u8>)
    requires
        wf_instruction(Instruction::AllocateHeap(x)),
    ensures
        instruction::enc_instr(Instruction::AllocateHeap(x)).len() >= 1,
        instruction::enc_instr(Instruction::AllocateHeap(x)) == seq![
            instruction::opcode_of(Instruction::AllocateHeap(x)),
        ] + wire::enc_termvs(instruction::args_of(Instruction::AllocateHeap(x))),
        instruction::dec_instr(instruction::enc_instr(Instruction::AllocateHeap(x)) + rest) == Ok::<
            _,
            DecodeErrorV,
        >((
            instruction::opcode_of(Instruction::AllocateHeap(x)),
            instruction::args_of(Instruction::AllocateHeap(x)),
            instruction::enc_instr(Instruction::AllocateHeap(x)).len(),
        )),
{
    let i = Instruction::AllocateHeap(x);
    let args = instruction::args_of(i);
    let a1 = x.stack_need@;
    let a2 = x.heap_need@;
    let a3 = TermV::Usize(x.live as int);
    assert(args =~= seq![a1, a2, a3]);
    assert(wire::wf_termv(a1)) by {
        assert(args[0] == a1);
    }
    assert(wire::wf_termv(a2)) by {
        assert(args[1] == a2);
    }
    assert(wire::wf_termv(a3)) by {
        assert(args[2] == a3);
    }
    lemma_chain3(ArgKind::Alloc, ArgKind::Alloc, ArgKind::U, a1, a2, a3, rest);
    let e1 = wire::enc_termv(a1);
    let e2 = wire::enc_termv(a2);
    let e3 = wire::enc_termv(a3);
    assert(instruction::enc_instr(i) == seq![13u8] + e1 + e2 + e3);
    let s = instruction::enc_instr(i) + rest;
    lemma_instr_shape_3(13, e1, e2, e3, rest);
    assert(s[0] == 13);
    assert(s.skip(1) == e1 + e2 + e3 + rest);
    lemma_enc_termvs_3(a1, a2, a3);
    assert(instruction::enc_instr(i).len() == 1 + (e1 + e2 + e3).len());
    assert(instruction::enc_instr(i) == seq![instruction::opcode_of(i)] + wire::enc_termvs(args));
}

/// The canonical bytes of this instruction type decode back to it.
#[verifier::rlimit(100)]
proof fn lemma_instr_14(x: instruction::AllocateZero, rest: Seq<u8>)
    requires
        wf_instruction(Instruction::AllocateZero(x)),
    ensures
        instruction::enc_instr(Instruction::AllocateZero(x)).len() >= 1,
        instruction::enc_instr(Instruction::AllocateZero(x)) == seq![
            instruction::opcode_of(Instruction::AllocateZero(x)),
        ] + wire::enc_termvs(instruction::args_of(Instruction::AllocateZero(x))),
        instruction::dec_instr(instruction::enc_instr(Instruction::AllocateZero(x)) + rest) == Ok::<
            _,
            DecodeErrorV,
        >((
            instruction::opcode_of(Instruction::AllocateZero(x)),
            instruction::args_of(Instruction::AllocateZero(x)),
            instruction::enc_instr(Instruction::AllocateZero(x)).len(),
        )),
{
    let i = Instruction::AllocateZero(x);
    let args = instruction::args_of(i);
    let a1 = x.arg1@;
    let a2 = x.arg2@;
    assert(args =~= seq![a1, a2]);
    assert(wire::wf_termv(a1)) by {
        assert(args[0] == a1);
    }
    assert(wire::wf_termv(a2)) by {
        assert(args[1] == a2);
    }
    lemma_chain2(ArgKind::Any, ArgKind::Any, a1, a2, rest);
    let e1 = wire::enc_termv(a1);
    let e2 = wire::enc_termv(a2);
    assert(instruction::enc_instr(i) == seq![14u8] + e1 + e2);
    let s = instruction::enc_instr(i) + rest;
    lemma_instr_shape_2(14, e1, e2, rest);
    assert(s[0] == 14);
    assert(s.skip(1) == e1 + e2 + rest);
    lemma_enc_termvs_2(a1, a2);
    assert(instruction::enc_instr(i).len() == 1 + (e1 + e2).len());
    assert(instruction::enc_instr(i) == seq![instruction::opcode_of(i)] + wire::enc_termvs(args));
}

/// The canonical bytes of this instruction type decode back to it.
#[verifier::rlimit(100)]
proof fn lemma_instr_15(x: instruction::AllocateHeapZero, rest: Seq<u8>)
    requires
        wf_instruction(Instruction::AllocateHeapZero(x)),
    ensures
        instruction::enc_instr(Instruction::AllocateHeapZero(x)).len() >= 1,
        instruction::enc_instr(Instruction::AllocateHeapZero(x)) == seq![
            instruction::opcode_of(Instruction::AllocateHeapZero(x)),
        ] + wire::enc_termvs(instruction::args_of(Instruction::AllocateHeapZero(x))),
        instruction::dec_instr(instruction::enc_instr(Instruction::AllocateHeapZero(x)) + rest) == Ok::<
            _,
            DecodeErrorV,
        >((
            instruction::opcode_of(Instruction::AllocateHeapZero(x)),
            instruction::args_of(Instruction::AllocateHeapZero(x)),
            instruction::enc_instr(Instruction::AllocateHeapZero(x)).len(),
        )),
{
    let i = Instruction::AllocateHeapZero(x);
    let args = instruction::args_of(i);
    let a1 = x.stack_need@;
    let a2 = x.heap_need@;
    let a3 = TermV::Usize(x.live as int);
    assert(args =~= seq![a1, a2, a3]);
    assert(wire::wf_termv(a1)) by {
        assert(args[0] == a1);
    }
    assert(wire::wf_termv(a2)) by {
        assert(args[1] == a2);
    }
    assert(wire::wf_termv(a3)) by {
        assert(args[2] == a3);
    }
    lemma_chain3(ArgKind::Alloc, ArgKind::Alloc, ArgKind::U, a1, a2, a3, rest);
    let e1 = wire::enc_termv(a1);
    let e2 = wire::enc_termv(a2);
    let e3 = wire::enc_termv(a3);
    assert(instruction::enc_instr(i) == seq![15u8] + e1 + e2 + e3);
    let s = instruction::enc_instr(i) + rest;
    lemma_instr_shape_3(15, e1, e2, e3, rest);
    assert(s[0] == 15);
    assert(s.skip(1) == e1 + e2 + e3 + rest);
    lemma_enc_termvs_3(a1, a2, a3);
    assert(instruction::enc_instr(i).len() == 1 + (e1 + e2 + e3).len());
    assert(instruction::enc_instr(i) == seq![instruction::opcode_of(i)] + wire::enc_termvs(args));
}

/// The canonical bytes of this instruction type decode back to it.
#[verifier::rlimit(100)]
proof fn lemma_instr_16(x: instruction::TestHeap, rest: Seq<u8>)
    requires
        wf_instruction(Instruction::TestHeap(x)),
    ensures
        instruction::enc_instr(Instruction::TestHeap(x)).len() >= 1,
        instruction::enc_instr(Instruction::TestHeap(x)) == seq![
            instruction::opcode_of(Instruction::TestHeap(x)),
        ] + wire::enc_termvs(instruction::args_of(Instruction::TestHeap(x))),
        instruction::dec_instr(instruction::enc_instr(Instruction::TestHeap(x)) + rest) == Ok::<
            _,
            DecodeErrorV,
        >((
            instruction::opcode_of(Instruction::TestHeap(x)),
            instruction::args_of(Instruction::TestHeap(x)),
            instruction::enc_instr(Instruction::TestHeap(x)).len(),
        )),
{
    let i = Instruction::TestHeap(x);
    let args = instruction::args_of(i);
    let a1 = x.heap_need@;
    let a2 = TermV::Usize(x.live as int);
    assert(args =~= seq![a1, a2]);
    assert(wire::wf_termv(a1)) by {
        assert(args[0] == a1);
    }
    assert(wire::wf_termv(a2)) by {
        assert(args[1] == a2);
    }
    lemma_chain2(ArgKind::Alloc, ArgKind::U, a1, a2, rest);
    let e1 = wire::enc_termv(a1);
    let e2 = wire::enc_termv(a2);
    assert(instruction::enc_instr(i) == seq![16u8] + e1 + e2);
    let s = instruction::enc_instr(i) + rest;
    lemma_instr_shape_2(16, e1, e2, rest);
    assert(s[0] == 16);
    assert(s.skip(1) == e1 + e2 + rest);
    lemma_enc_termvs_2(a1, a2);
    assert(instruction::enc_instr(i).len() == 1 + (e1 + e2).len());
    assert(instruction::enc_instr(i) == seq![instruction::opcode_of(i)] + wire::enc_termvs(args));
}

/// The canonical bytes of this instruction type decode back to it.
#[verifier::rlimit(100)]
proof fn lemma_instr_17(x: instruction::Init, rest: Seq<u8>)
    requires
        wf_instruction(Instruction::Init(x)),
    ensures
        instruction::enc_instr(Instruction::Init(x)).len() >= 1,
        instruction::enc_instr(Instruction::Init(x)) == seq![
            instruction::opcode_of(Instruction::Init(x)),
        ] + wire::enc_termvs(instruction::args_of(Instruction::Init(x))),
        instruction::dec_instr(instruction::enc_instr(Instruction::Init(x)) + rest) == Ok::<
            _,
            DecodeErrorV,
        >((
            instruction::opcode_of(Instruction::Init(x)),
            instruction::args_of(Instruction::Init(x)),
            instruction::enc_instr(Instruction::Init(x)).len(),
        )),
{
    let i = Instruction::Init(x);
    let args = instruction::args_of(i);
    let a1 = x.arg1@;
    assert(args =~= seq![a1]);
    assert(wire::wf_termv(a1)) by {
        assert(args[0] == a1);
    }
    lemma_chain1(ArgKind::Any, a1, rest);
    let e1 = wire::enc_termv(a1);
    assert(instruction::enc_instr(i) == seq![17u8] + e1);
    let s = instruction::enc_instr(i) + rest;
    lemma_instr_shape_1(17, e1, rest);
    assert(s[0] == 17);
    assert(s.skip(1) == e1 + rest);
    lemma_enc_termvs_1(a1);
    assert(instruction::enc_instr(i).len() == 1 + (e1).len());
    assert(instruction::enc_instr(i) == seq![instruction::opcode_of(i)] + wire::enc_termvs(args));
}

/// The canonical bytes of this instruction type decode back to it.
#[verifier::rlimit(100)]
proof fn lemma_instr_18(x: instruction::Deallocate, rest: Seq<u8>)
    requires
        wf_instruction(Instruction::Deallocate(x)),
    ensures
        instruction::enc_instr(Instruction::Deallocate(x)).len() >= 1,
        instruction::enc_instr(Instruction::Deallocate(x)) == seq![
            instruction::opcode_of(Instruction::Deallocate(x)),
        ] + wire::enc_termvs(instruction::args_of(Instruction::Deallocate(x))),
        instruction::dec_instr(instruction::enc_instr(Instruction::Deallocate(x)) + rest) == Ok::<
            _,
            DecodeErrorV,
        >((
            instruction::opcode_of(Instruction::Deallocate(x)),
            instruction::args_of(Instruction::Deallocate(x)),
            instruction::enc_instr(Instruction::Deallocate(x)).len(),
        )),
{
    let i = Instruction::Deallocate(x);
    let args = instruction::args_of(i);
    let a1 = TermV::Usize(x.n as int);
    assert(args =~= seq![a1]);
    assert(wire::wf_termv(a1)) by {
        assert(args[0] == a1);
    }
    lemma_chain1(ArgKind::U, a1, rest);
    let e1 = wire::enc_termv(a1);
    assert(instruction::enc_instr(i) == seq![18u8] + e1);
    let s = instruction::enc_instr(i) + rest;
    lemma_instr_shape_1(18, e1, rest);
    assert(s[0] == 18);
    assert(s.skip(1) == e1 + rest);
    lemma_enc_termvs_1(a1);
    assert(instruction::enc_instr(i).len() == 1 + (e1).len());
    assert(instruction::enc_instr(i) == seq![instruction::opcode_of(i)] + wire::enc_termvs(args));
}

/// The canonical bytes of this instruction type decode back to it.
#[verifier::rlimit(100)]
proof fn lemma_instr_19(x: instruction::Return, rest: Seq<u8>)
    requires
        wf_instruction(Instruction::Return(x)),
    ensures
        instruction::enc_instr(Instruction::Return(x)).len() >= 1,
        instruction::enc_instr(Instruction::Return(x)) == seq![
            instruction::opcode_of(Instruction::Return(x)),
        ] + wire::enc_termvs(instruction::args_of(Instruction::Return(x))),
        instruction::dec_instr(instruction::enc_instr(Instruction::Return(x)) + rest) == Ok::<
            _,
            DecodeErrorV,
        >((
            instruction::opcode_of(Instruction::Return(x)),
            instruction::args_of(Instruction::Return(x)),
            instruction::enc_instr(Instruction::Return(x)).len(),
        )),
{
    let i = Instruction::Return(x);
    let args = instruction::args_of(i);
    assert(args =~= Seq::<TermV>::empty());
    assert(instruction::enc_instr(i) == seq![19u8]);
    let s = instruction::enc_instr(i) + rest;
    lemma_instr_shape_0(19, rest);
    assert(s[0] == 19);
    assert(s.skip(1) == rest);
    lemma_enc_termvs_0();
    assert(seq![19u8] + Seq::<u8>::empty() =~= seq![19u8]);
    assert(instruction::enc_instr(i) == seq![instruction::opcode_of(i)] + wire::enc_termvs(args));
}

/// The canonical bytes of this instruction type decode back to it.
#[verifier::rlimit(100)]
proof fn lemma_instr_20(x: instruction::Send, rest: Seq<u8>)
    requires
        wf_instruction(Instruction::Send(x)),
    ensures
        instruction::enc_instr(Instruction::Send(x)).len() >= 1,
        instruction::enc_instr(Instruction::Send(x)) == seq![
            instruction::opcode_of(Instruction::Send(x)),
        ] + wire::enc_termvs(instruction::args_of(Instruction::Send(x))),
        instruction::dec_instr(instruction::enc_instr(Instruction::Send(x)) + rest) == Ok::<
            _,
            DecodeErrorV,
        >((
            instruction::opcode_of(Instruction::Send(x)),
            instruction::args_of(Instruction::Send(x)),
            instruction::enc_instr(Instruction::Send(x)).len(),
        )),
{
    let i = Instruction::Send(x);
    let args = instruction::args_of(i);
    assert(args =~= Seq::<TermV>::empty());
    assert(instruction::enc_instr(i) == seq![20u8]);
    let s = instruction::enc_instr(i) + rest;
    lemma_instr_shape_0(20, rest);
    assert(s[0] == 20);
    assert(s.skip(1) == rest);
    lemma_enc_termvs_0();
    assert(seq![20u8] + Seq::<u8>::empty() =~= seq![20u8]);
    assert(instruction::enc_instr(i) == seq![instruction::opcode_of(i)] + wire::enc_termvs(args));
}

/// The canonical bytes of this instruction type decode back to it.
#[verifier::rlimit(100)]
proof fn lemma_instr_21(x: instruction::RemoveMessage, rest: Seq<u8>)
    requires
        wf_instruction(Instruction::RemoveMessage(x)),
    ensures
        instruction::enc_instr(Instruction::RemoveMessage(x)).len() >= 1,
        instruction::enc_instr(Instruction::RemoveMessage(x)) == seq![
            instruction::opcode_of(Instruction::RemoveMessage(x)),
        ] + wire::enc_termvs(instruction::args_of(Instruction::RemoveMessage(x))),
        instruction::dec_instr(instruction::enc_instr(Instruction::RemoveMessage(x)) + rest) == Ok::<
            _,
            DecodeErrorV,
        >((
            instruction::opcode_of(Instruction::RemoveMessage(x)),
            instruction::args_of(Instruction::RemoveMessage(x)),
            instruction::enc_instr(Instruction::RemoveMessage(x)).len(),
        )),
{
    let i = Instruction::RemoveMessage(x);
    let args = instruction::args_of(i);
    assert(args =~= Seq::<TermV>::empty());
    assert(instruction::enc_instr(i) == seq![21u8]);
    let s = instruction::enc_instr(i) + rest;
    lemma_instr_shape_0(21, rest);
    assert(s[0] == 21);
    assert(s.skip(1) == rest);
    lemma_enc_termvs_0();
    assert(seq![21u8] + Seq::<u8>::empty() =~= seq![21u8]);
    assert(instruction::enc_instr(i) == seq![instruction::opcode_of(i)] + wire::enc_termvs(args));
}

/// The canonical bytes of this instruction type decode back to it.
#[verifier::rlimit(100)]
proof fn lemma_instr_22(x: instruction::Timeout, rest: Seq<u8>)
    requires
        wf_instruction(Instruction::Timeout(x)),
    ensures
        instruction::enc_instr(Instruction::Timeout(x)).len() >= 1,
        instruction::enc_instr(Instruction::Timeout(x)) == seq![
            instruction::opcode_of(Instruction::Timeout(x)),
        ] + wire::enc_termvs(instruction::args_of(Instruction::Timeout(x))),
        instruction::dec_instr(instruction::enc_instr(Instruction::Timeout(x)) + rest) == Ok::<
            _,
            DecodeErrorV,
        >((
            instruction::opcode_of(Instruction::Timeout(x)),
            instruction::args_of(Instruction::Timeout(x)),
            instruction::enc_instr(Instruction::Timeout(x)).len(),
        )),
{
    let i = Instruction::Timeout(x);
    let args = instruction::args_of(i);
    assert(args =~= Seq::<TermV>::empty());
    assert(instruction::enc_instr(i) == seq![22u8]);
    let s = instruction::enc_instr(i) + rest;
    lemma_instr_shape_0(22, rest);
    assert(s[0] == 22);
    assert(s.skip(1) == rest);
    lemma_enc_termvs_0();
    assert(seq![22u8] + Seq::<u8>::empty() =~= seq![22u8]);
    assert(instruction::enc_instr(i) == seq![instruction::opcode_of(i)] + wire::enc_termvs(args));
}

/// The canonical bytes of this instruction type decode back to it.
#[verifier::rlimit(100)]
proof fn lemma_instr_23(x: instruction::LoopRec, rest: Seq<u8>)
    requires
        wf_instruction(Instruction::LoopRec(x)),
    ensures
        instruction::enc_instr(Instruction::LoopRec(x)).len() >= 1,
        instruction::enc_instr(Instruction::LoopRec(x)) == seq![
            instruction::opcode_of(Instruction::LoopRec(x)),
        ] + wire::enc_termvs(instruction::args_of(Instruction::LoopRec(x))),
        instruction::dec_instr(instruction::enc_instr(Instruction::LoopRec(x)) + rest) == Ok::<
            _,
            DecodeErrorV,
        >((
            instruction::opcode_of(Instruction::LoopRec(x)),
            instruction::args_of(Instruction::LoopRec(x)),
            instruction::enc_instr(Instruction::LoopRec(x)).len(),
        )),
{
    let i = Instruction::LoopRec(x);
    let args = instruction::args_of(i);
    let a1 = x.arg1@;
    let a2 = x.arg2@;
    assert(args =~= seq![a1, a2]);
    assert(wire::wf_termv(a1)) by {
        assert(args[0] == a1);
    }
    assert(wire::wf_termv(a2)) by {
        assert(args[1] == a2);
    }
    lemma_chain2(ArgKind::Any, ArgKind::Any, a1, a2, rest);
    let e1 = wire::enc_termv(a1);
    let e2 = wire::enc_termv(a2);
    assert(instruction::enc_instr(i) == seq![23u8] + e1 + e2);
    let s = instruction::enc_instr(i) + rest;
    lemma_instr_shape_2(23, e1, e2, rest);
    assert(s[0] == 23);
    assert(s.skip(1) == e1 + e2 + rest);
    lemma_enc_termvs_2(a1, a2);
    assert(instruction::enc_instr(i).len() == 1 + (e1 + e2).len());
    assert(instruction::enc_instr(i) == seq![instruction::opcode_of(i)] + wire::enc_termvs(args));
}

/// The canonical bytes of this instruction type decode back to it.
#[verifier::rlimit(100)]
proof fn lemma_instr_24(x: instruction::LoopRecEnd, rest: Seq<u8>)
    requires
        wf_instruction(Instruction::LoopRecEnd(x)),
    ensures
        instruction::enc_instr(Instruction::LoopRecEnd(x)).len() >= 1,
        instruction::enc_instr(Instruction::LoopRecEnd(x)) == seq![
            instruction::opcode_of(Instruction::LoopRecEnd(x)),
        ] + wire::enc_termvs(instruction::args_of(Instruction::LoopRecEnd(x))),
        instruction::dec_instr(instruction::enc_instr(Instruction::LoopRecEnd(x)) + rest) == Ok::<
            _,
            DecodeErrorV,
        >((
            instruction::opcode_of(Instruction::LoopRecEnd(x)),
            instruction::args_of(Instruction::LoopRecEnd(x)),
            instruction::enc_instr(Instruction::LoopRecEnd(x)).len(),
        )),
{
    let i = Instruction::LoopRecEnd(x);
    let args = instruction::args_of(i);
    let a1 = x.arg1@;
    assert(args =~= seq![a1]);
    assert(wire::wf_termv(a1)) by {
        assert(args[0] == a1);
    }
    lemma_chain1(ArgKind::Any, a1, rest);
    let e1 = wire::enc_termv(a1);
    assert(instruction::enc_instr(i) == seq![24u8] + e1);
    let s = instruction::enc_instr(i) + rest;
    lemma_instr_shape_1(24, e1, rest);
    assert(s[0] == 24);
    assert(s.skip(1) == e1 + rest);
    lemma_enc_termvs_1(a1);
    assert(instruction::enc_instr(i).len() == 1 + (e1).len());
    assert(instruction::enc_instr(i) == seq![instruction::opcode_of(i)] + wire::enc_termvs(args));
}

/// The canonical bytes of this instruction type decode back to it.
#[verifier::rlimit(100)]
proof fn lemma_instr_25(x: instruction::Wait, rest: Seq<u8>)
    requires
        wf_instruction(Instruction::Wait(x)),
    ensures
        instruction::enc_instr(Instruction::Wait(x)).len() >= 1,
        instruction::enc_instr(Instruction::Wait(x)) == seq![
            instruction::opcode_of(Instruction::Wait(x)),
        ] + wire::enc_termvs(instruction::args_of(Instruction::Wait(x))),
        instruction::dec_instr(instruction::enc_instr(Instruction::Wait(x)) + rest) == Ok::<
            _,
            DecodeErrorV,
        >((
            instruction::opcode_of(Instruction::Wait(x)),
            instruction::args_of(Instruction::Wait(x)),
            instruction::enc_instr(Instruction::Wait(x)).len(),
        )),
{
    let i = Instruction::Wait(x);
    let args = instruction::args_of(i);
    let a1 = x.arg1@;
    assert(args =~= seq![a1]);
    assert(wire::wf_termv(a1)) by {
        assert(args[0] == a1);
    }
    lemma_chain1(ArgKind::Any, a1, rest);
    let e1 = wire::enc_termv(a1);
    assert(instruction::enc_instr(i) == seq![25u8] + e1);
    let s = instruction::enc_instr(i) + rest;
    lemma_instr_shape_1(25, e1, rest);
    assert(s[0] == 25);
    assert(s.skip(1) == e1 + rest);
    lemma_enc_termvs_1(a1);
    assert(instruction::enc_instr(i).len() == 1 + (e1).len());
    assert(instruction::enc_instr(i) == seq![instruction::opcode_of(i)] + wire::enc_termvs(args));
}

/// The canonical bytes of this instruction type decode back to it.
#[verifier::rlimit(100)]
proof fn lemma_instr_26(x: instruction::WaitTimeout, rest: Seq<u8>)
    requires
        wf_instruction(Instruction::WaitTimeout(x)),
    ensures
        instruction::enc_instr(Instruction::WaitTimeout(x)).len() >= 1,
        instruction::enc_instr(Instruction::WaitTimeout(x)) == seq![
            instruction::opcode_of(Instruction::WaitTimeout(x)),
        ] + wire::enc_termvs(instruction::args_of(Instruction::WaitTimeout(x))),
        instruction::dec_instr(instruction::enc_instr(Instruction::WaitTimeout(x)) + rest) == Ok::<
            _,
            DecodeErrorV,
        >((
            instruction::opcode_of(Instruction::WaitTimeout(x)),
            instruction::args_of(Instruction::WaitTimeout(x)),
            instruction::enc_instr(Instruction::WaitTimeout(x)).len(),
        )),
{
    let i = Instruction::WaitTimeout(x);
    let args = instruction::args_of(i);
    let a1 = x.arg1@;
    let a2 = x.arg2@;
    assert(args =~= seq![a1, a2]);
    assert(wire::wf_termv(a1)) by {
        assert(args[0] == a1);
    }
    assert(wire::wf_termv(a2)) by {
        assert(args[1] == a2);
    }
    lemma_chain2(ArgKind::Any, ArgKind::Any, a1, a2, rest);
    let e1 = wire::enc_termv(a1);
    let e2 = wire::enc_termv(a2);
    assert(instruction::enc_instr(i) == seq![26u8] + e1 + e2);
    let s = instruction::enc_instr(i) + rest;
    lemma_instr_shape_2(26, e1, e2, rest);
    assert(s[0] == 26);
    assert(s.skip(1) == e1 + e2 + rest);
    lemma_enc_termvs_2(a1, a2);
    assert(instruction::enc_instr(i).len() == 1 + (e1 + e2).len());
    assert(instruction::enc_instr(i) == seq![instruction::opcode_of(i)] + wire::enc_termvs(args));
}

/// The canonical bytes of this instruction type decode back to it.
#[verifier::rlimit(100)]
proof fn lemma_instr_27(x: instruction::MPlus, rest: Seq<u8>)
    requires
        wf_instruction(Instruction::MPlus(x)),
    ensures
        instruction::enc_instr(Instruction::MPlus(x)).len() >= 1,
        instruction::enc_instr(Instruction::MPlus(x)) == seq![
            instruction::opcode_of(Instruction::MPlus(x)),
        ] + wire::enc_termvs(instruction::args_of(Instruction::MPlus(x))),
        instruction::dec_instr(instruction::enc_instr(Instruction::MPlus(x)) + rest) == Ok::<
            _,
            DecodeErrorV,
        >((
            instruction::opcode_of(Instruction::MPlus(x)),
            instruction::args_of(Instruction::MPlus(x)),
            instruction::enc_instr(Instruction::MPlus(x)).len(),
        )),
{
    let i = Instruction::MPlus(x);
    let args = instruction::args_of(i);
    let a1 = x.arg1@;
    let a2 = x.arg2@;
    let a3 = x.arg3@;
    let a4 = x.arg4@;
    assert(args =~= seq![a1, a2, a3, a4]);
    assert(wire::wf_termv(a1)) by {
        assert(args[0] == a1);
    }
    assert(wire::wf_termv(a2)) by {
        assert(args[1] == a2);
    }
    assert(wire::wf_termv(a3)) by {
        assert(args[2] == a3);
    }
    assert(wire::wf_termv(a4)) by {
        assert(args[3] == a4);
    }
    lemma_chain4(ArgKind::Any, ArgKind::Any, ArgKind::Any, ArgKind::Any, a1, a2, a3, a4, rest);
    let e1 = wire::enc_termv(a1);
    let e2 = wire::enc_termv(a2);
    let e3 = wire::enc_termv(a3);
    let e4 = wire::enc_termv(a4);
    assert(instruction::enc_instr(i) == seq![27u8] + e1 + e2 + e3 + e4);
    let s = instruction::enc_instr(i) + rest;
    lemma_instr_shape_4(27, e1, e2, e3, e4, rest);
    assert(s[0] == 27);
    assert(s.skip(1) == e1 + e2 + e3 + e4 + rest);
    lemma_enc_termvs_4(a1, a2, a3, a4);
    assert(instruction::enc_instr(i).len() == 1 + (e1 + e2 + e3 + e4).len());
    assert(instruction::enc_instr(i) == seq![instruction::opcode_of(i)] + wire::enc_termvs(args));
}

/// The canonical bytes of this instruction type decode back to it.
#[verifier::rlimit(100)]
proof fn lemma_instr_28(x: instruction::MMinus, rest: Seq<u8>)
    requires
        wf_instruction(Instruction::MMinus(x)),
    ensures
        instruction::enc_instr(Instruction::MMinus(x)).len() >= 1,
        instruction::enc_instr(Instruction::MMinus(x)) == seq![
            instruction::opcode_of(Instruction::MMinus(x)),
        ] + wire::enc_termvs(instruction::args_of(Instruction::MMinus(x))),
        instruction::dec_instr(instruction::enc_instr(Instruction::MMinus(x)) + rest) == Ok::<
            _,
            DecodeErrorV,
        >((
            instruction::opcode_of(Instruction::MMinus(x)),
            instruction::args_of(Instruction::MMinus(x)),
            instruction::enc_instr(Instruction::MMinus(x)).len(),
        )),
{
    let i = Instruction::MMinus(x);
    let args = instruction::args_of(i);
    let a1 = x.arg1@;
    let a2 = x.arg2@;
    let a3 = x.arg3@;
    let a4 = x.arg4@;
    assert(args =~= seq![a1, a2, a3, a4]);
    assert(wire::wf_termv(a1)) by {
        assert(args[0] == a1);
    }
    assert(wire::wf_termv(a2)) by {
        assert(args[1] == a2);
    }
    assert(wire::wf_termv(a3)) by {
        assert(args[2] == a3);
    }
    assert(wire::wf_termv(a4)) by {
        assert(args[3] == a4);
    }
    lemma_chain4(ArgKind::Any, ArgKind::Any, ArgKind::Any, ArgKind::Any, a1, a2, a3, a4, rest);
    let e1 = wire::enc_termv(a1);
    let e2 = wire::enc_termv(a2);
    let e3 = wire::enc_termv(a3);
    let e4 = wire::enc_termv(a4);
    assert(instruction::enc_instr(i) == seq![28u8] + e1 + e2 + e3 + e4);
    let s = instruction::enc_instr(i) + rest;
    lemma_instr_shape_4(28, e1, e2, e3, e4, rest);
    assert(s[0] == 28);
    assert(s.skip(1) == e1 + e2 + e3 + e4 + rest);
    lemma_enc_termvs_4(a1, a2, a3, a4);
    assert(instruction::enc_instr(i).len() == 1 + (e1 + e2 + e3 + e4).len());
    assert(instruction::enc_instr(i) == seq![instruction::opcode_of(i)] + wire::enc_termvs(args));
}

/// The canonical bytes of this instruction type decode back to it.
#[verifier::rlimit(100)]
proof fn lemma_instr_29(x: instruction::MTimes, rest: Seq<u8>)
    requires
        wf_instruction(Instruction::MTimes(x)),
    ensures
        instruction::enc_instr(Instruction::MTimes(x)).len() >= 1,
        instruction::enc_instr(Instruction::MTimes(x)) == seq![
            instruction::opcode_of(Instruction::MTimes(x)),
        ] + wire::enc_termvs(instruction::args_of(Instruction::MTimes(x))),
        instruction::dec_instr(instruction::enc_instr(Instruction::MTimes(x)) + rest) == Ok::<
            _,
            DecodeErrorV,
        >((
            instruction::opcode_of(Instruction::MTimes(x)),
            instruction::args_of(Instruction::MTimes(x)),
            instruction::enc_instr(Instruction::MTimes(x)).len(),
        )),
{
    let i = Instruction::MTimes(x);
    let args = instruction::args_of(i);
    let a1 = x.arg1@;
    let a2 = x.arg2@;
    let a3 = x.arg3@;
    let a4 = x.arg4@;
    assert(args =~= seq![a1, a2, a3, a4]);
    assert(wire::wf_termv(a1)) by {
        assert(args[0] == a1);
    }
    assert(wire::wf_termv(a2)) by {
        assert(args[1] == a2);
    }
    assert(wire::wf_termv(a3)) by {
        assert(args[2] == a3);
    }
    assert(wire::wf_termv(a4)) by {
        assert(args[3] == a4);
    }
    lemma_chain4(ArgKind::Any, ArgKind::Any, ArgKind::Any, ArgKind::Any, a1, a2, a3, a4, rest);
    let e1 = wire::enc_termv(a1);
    let e2 = wire::enc_termv(a2);
    let e3 = wire::enc_termv(a3);
    let e4 = wire::enc_termv(a4);
    assert(instruction::enc_instr(i) == seq![29u8] + e1 + e2 + e3 + e4);
    let s = instruction::enc_instr(i) + rest;
    lemma_instr_shape_4(29, e1, e2, e3, e4, rest);
    assert(s[0] == 29);
    assert(s.skip(1) == e1 + e2 + e3 + e4 + rest);
    lemma_enc_termvs_4(a1, a2, a3, a4);
    assert(instruction::enc_instr(i).len() == 1 + (e1 + e2 + e3 + e4).len());
    assert(instruction::enc_instr(i) == seq![instruction::opcode_of(i)] + wire::enc_termvs(args));
}

/// The canonical bytes of this instruction type decode back to it.
#[verifier::rlimit(100)]
proof fn lemma_instr_30(x: instruction::MDiv, rest: Seq<u8>)
    requires
        wf_instruction(Instruction::MDiv(x)),
    ensures
        instruction::enc_instr(Instruction::MDiv(x)).len() >= 1,
        instruction::enc_instr(Instruction::MDiv(x)) == seq![
            instruction::opcode_of(Instruction::MDiv(x)),
        ] + wire::enc_termvs(instruction::args_of(Instruction::MDiv(x))),
        instruction::dec_instr(instruction::enc_instr(Instruction::MDiv(x)) + rest) == Ok::<
            _,
            DecodeErrorV,
        >((
            instruction::opcode_of(Instruction::MDiv(x)),
            instruction::args_of(Instruction::MDiv(x)),
            instruction::enc_instr(Instruction::MDiv(x)).len(),
        )),
{
    let i = Instruction::MDiv(x);
    let args = instruction::args_of(i);
    let a1 = x.arg1@;
    let a2 = x.arg2@;
    let a3 = x.arg3@;
    let a4 = x.arg4@;
    assert(args =~= seq![a1, a2, a3, a4]);
    assert(wire::wf_termv(a1)) by {
        assert(args[0] == a1);
    }
    assert(wire::wf_termv(a2)) by {
        assert(args[1] == a2);
    }
    assert(wire::wf_termv(a3)) by {
        assert(args[2] == a3);
    }
    assert(wire::wf_termv(a4)) by {
        assert(args[3] == a4);
    }
    lemma_chain4(ArgKind::Any, ArgKind::Any, ArgKind::Any, ArgKind::Any, a1, a2, a3, a4, rest);
    let e1 = wire::enc_termv(a1);
    let e2 = wire::enc_termv(a2);
    let e3 = wire::enc_termv(a3);
    let e4 = wire::enc_termv(a4);
    assert(instruction::enc_instr(i) == seq![30u8] + e1 + e2 + e3 + e4);
    let s = instruction::enc_instr(i) + rest;
    lemma_instr_shape_4(30, e1, e2, e3, e4, rest);
    assert(s[0] == 30);
    assert(s.skip(1) == e1 + e2 + e3 + e4 + rest);
    lemma_enc_termvs_4(a1, a2, a3, a4);
    assert(instruction::enc_instr(i).len() == 1 + (e1 + e2 + e3 + e4).len());
    assert(instruction::enc_instr(i) == seq![instruction::opcode_of(i)] + wire::enc_termvs(args));
}

/// The canonical bytes of this instruction type decode back to it.
#[verifier::rlimit(100)]
proof fn lemma_instr_31(x: instruction::IntDiv, rest: Seq<u8>)
    requires
        wf_instruction(Instruction::IntDiv(x)),
    ensures
        instruction::enc_instr(Instruction::IntDiv(x)).len() >= 1,
        instruction::enc_instr(Instruction::IntDiv(x)) == seq![
            instruction::opcode_of(Instruction::IntDiv(x)),
        ] + wire::enc_termvs(instruction::args_of(Instruction::IntDiv(x))),
        instruction::dec_instr(instruction::enc_instr(Instruction::IntDiv(x)) + rest) == Ok::<
            _,
            DecodeErrorV,
        >((
            instruction::opcode_of(Instruction::IntDiv(x)),
            instruction::args_of(Instruction::IntDiv(x)),
            instruction::enc_instr(Instruction::IntDiv(x)).len(),
        )),
{
    let i = Instruction::IntDiv(x);
    let args = instruction::args_of(i);
    let a1 = x.arg1@;
    let a2 = x.arg2@;
    let a3 = x.arg3@;
    let a4 = x.arg4@;
    assert(args =~= seq![a1, a2, a3, a4]);
    assert(wire::wf_termv(a1)) by {
        assert(args[0] == a1);
    }
    assert(wire::wf_termv(a2)) by {
        assert(args[1] == a2);
    }
    assert(wire::wf_termv(a3)) by {
        assert(args[2] == a3);
    }
    assert(wire::wf_termv(a4)) by {
        assert(args[3] == a4);
    }
    lemma_chain4(ArgKind::Any, ArgKind::Any, ArgKind::Any, ArgKind::Any, a1, a2, a3, a4, rest);
    let e1 = wire::enc_termv(a1);
    let e2 = wire::enc_termv(a2);
    let e3 = wire::enc_termv(a3);
    let e4 = wire::enc_termv(a4);
    assert(instruction::enc_instr(i) == seq![31u8] + e1 + e2 + e3 + e4);
    let s = instruction::enc_instr(i) + rest;
    lemma_instr_shape_4(31, e1, e2, e3, e4, rest);
    assert(s[0] == 31);
    assert(s.skip(1) == e1 + e2 + e3 + e4 + rest);
    lemma_enc_termvs_4(a1, a2, a3, a4);
    assert(instruction::enc_instr(i).len() == 1 + (e1 + e2 + e3 + e4).len());
    assert(instruction::enc_instr(i) == seq![instruction::opcode_of(i)] + wire::enc_termvs(args));
}

/// The canonical bytes of this instruction type decode back to it.
#[verifier::rlimit(100)]
proof fn lemma_instr_32(x: instruction::IntRem, rest: Seq<u8>)
    requires
        wf_instruction(Instruction::IntRem(x)),
    ensures
        instruction::enc_instr(Instruction::IntRem(x)).len() >= 1,
        instruction::enc_instr(Instruction::IntRem(x)) == seq![
            instruction::opcode_of(Instruction::IntRem(x)),
        ] + wire::enc_termvs(instruction::args_of(Instruction::IntRem(x))),
        instruction::dec_instr(instruction::enc_instr(Instruction::IntRem(x)) + rest) == Ok::<
            _,
            DecodeErrorV,
        >((
            instruction::opcode_of(Instruction::IntRem(x)),
            instruction::args_of(Instruction::IntRem(x)),
            instruction::enc_instr(Instruction::IntRem(x)).len(),
        )),
{
    let i = Instruction::IntRem(x);
    let args = instruction::args_of(i);
    let a1 = x.arg1@;
    let a2 = x.arg2@;
    let a3 = x.arg3@;
    let a4 = x.arg4@;
    assert(args =~= seq![a1, a2, a3, a4]);
    assert(wire::wf_termv(a1)) by {
        assert(args[0] == a1);
    }
    assert(wire::wf_termv(a2)) by {
        assert(args[1] == a2);
    }
    assert(wire::wf_termv(a3)) by {
        assert(args[2] == a3);
    }
    assert(wire::wf_termv(a4)) by {
        assert(args[3] == a4);
    }
    lemma_chain4(ArgKind::Any, ArgKind::Any, ArgKind::Any, ArgKind::Any, a1, a2, a3, a4, rest);
    let e1 = wire::enc_termv(a1);
    let e2 = wire::enc_termv(a2);
    let e3 = wire::enc_termv(a3);
    let e4 = wire::enc_termv(a4);
    assert(instruction::enc_instr(i) == seq![32u8] + e1 + e2 + e3 + e4);
    let s = instruction::enc_instr(i) + rest;
    lemma_instr_shape_4(32, e1, e2, e3, e4, rest);
    assert(s[0] == 32);
    assert(s.skip(1) == e1 + e2 + e3 + e4 + rest);
    lemma_enc_termvs_4(a1, a2, a3, a4);
    assert(instruction::enc_instr(i).len() == 1 + (e1 + e2 + e3 + e4).len());
    assert(instruction::enc_instr(i) == seq![instruction::opcode_of(i)] + wire::enc_termvs(args));
}

/// The canonical bytes of this instruction type decode back to it.
#[verifier::rlimit(100)]
proof fn lemma_instr_33(x: instruction::IntBand, rest: Seq<u8>)
    requires
        wf_instruction(Instruction::IntBand(x)),
    ensures
        instruction::enc_instr(Instruction::IntBand(x)).len() >= 1,
        instruction::enc_instr(Instruction::IntBand(x)) == seq![
            instruction::opcode_of(Instruction::IntBand(x)),
        ] + wire::enc_termvs(instruction::args_of(Instruction::IntBand(x))),
        instruction::dec_instr(instruction::enc_instr(Instruction::IntBand(x)) + rest) == Ok::<
            _,
            DecodeErrorV,
        >((
            instruction::opcode_of(Instruction::IntBand(x)),
            instruction::args_of(Instruction::IntBand(x)),
            instruction::enc_instr(Instruction::IntBand(x)).len(),
        )),
{
    let i = Instruction::IntBand(x);
    let args = instruction::args_of(i);
    let a1 = x.arg1@;
    let a2 = x.arg2@;
    let a3 = x.arg3@;
    let a4 = x.arg4@;
    assert(args =~= seq![a1, a2, a3, a4]);
    assert(wire::wf_termv(a1)) by {
        assert(args[0] == a1);
    }
    assert(wire::wf_termv(a2)) by {
        assert(args[1] == a2);
    }
    assert(wire::wf_termv(a3)) by {
        assert(args[2] == a3);
    }
    assert(wire::wf_termv(a4)) by {
        assert(args[3] == a4);
    }
    lemma_chain4(ArgKind::Any, ArgKind::Any, ArgKind::Any, ArgKind::Any, a1, a2, a3, a4, rest);
    let e1 = wire::enc_termv(a1);
    let e2 = wire::enc_termv(a2);
    let e3 = wire::enc_termv(a3);
    let e4 = wire::enc_termv(a4);
    assert(instruction::enc_instr(i) == seq![33u8] + e1 + e2 + e3 + e4);
    let s = instruction::enc_instr(i) + rest;
    lemma_instr_shape_4(33, e1, e2, e3, e4, rest);
    assert(s[0] == 33);
    assert(s.skip(1) == e1 + e2 + e3 + e4 + rest);
    lemma_enc_termvs_4(a1, a2, a3, a4);
    assert(instruction::enc_instr(i).len() == 1 + (e1 + e2 + e3 + e4).len());
    assert(instruction::enc_instr(i) == seq![instruction::opcode_of(i)] + wire::enc_termvs(args));
}

/// The canonical bytes of this instruction type decode back to it.
#[verifier::rlimit(100)]
proof fn lemma_instr_34(x: instruction::IntBor, rest: Seq<u8>)
    requires
        wf_instruction(Instruction::IntBor(x)),
    ensures
        instruction::enc_instr(Instruction::IntBor(x)).len() >= 1,
        instruction::enc_instr(Instruction::IntBor(x)) == seq![
            instruction::opcode_of(Instruction::IntBor(x)),
        ] + wire::enc_termvs(instruction::args_of(Instruction::IntBor(x))),
        instruction::dec_instr(instruction::enc_instr(Instruction::IntBor(x)) + rest) == Ok::<
            _,
            DecodeErrorV,
        >((
            instruction::opcode_of(Instruction::IntBor(x)),
            instruction::args_of(Instruction::IntBor(x)),
            instruction::enc_instr(Instruction::IntBor(x)).len(),
        )),
{
    let i = Instruction::IntBor(x);
    let args = instruction::args_of(i);
    let a1 = x.arg1@;
    let a2 = x.arg2@;
    let a3 = x.arg3@;
    let a4 = x.arg4@;
    assert(args =~= seq![a1, a2, a3, a4]);
    assert(wire::wf_termv(a1)) by {
        assert(args[0] == a1);
    }
    assert(wire::wf_termv(a2)) by {
        assert(args[1] == a2);
    }
    assert(wire::wf_termv(a3)) by {
        assert(args[2] == a3);
    }
    assert(wire::wf_termv(a4)) by {
        assert(args[3] == a4);
    }
    lemma_chain4(ArgKind::Any, ArgKind::Any, ArgKind::Any, ArgKind::Any, a1, a2, a3, a4, rest);
    let e1 = wire::enc_termv(a1);
    let e2 = wire::enc_termv(a2);
    let e3 = wire::enc_termv(a3);
    let e4 = wire::enc_termv(a4);
    assert(instruction::enc_instr(i) == seq![34u8] + e1 + e2 + e3 + e4);
    let s = instruction::enc_instr(i) + rest;
    lemma_instr_shape_4(34, e1, e2, e3, e4, rest);
    assert(s[0] == 34);
    assert(s.skip(1) == e1 + e2 + e3 + e4 + rest);
    lemma_enc_termvs_4(a1, a2, a3, a4);
    assert(instruction::enc_instr(i).len() == 1 + (e1 + e2 + e3 + e4).len());
    assert(instruction::enc_instr(i) == seq![instruction::opcode_of(i)] + wire::enc_termvs(args));
}

/// The canonical bytes of this instruction type decode back to it.
#[verifier::rlimit(100)]
proof fn lemma_instr_35(x: instruction::IntBxor, rest: Seq<u8>)
    requires
        wf_instruction(Instruction::IntBxor(x)),
    ensures
        instruction::enc_instr(Instruction::IntBxor(x)).len() >= 1,
        instruction::enc_instr(Instruction::IntBxor(x)) == seq![
            instruction::opcode_of(Instruction::IntBxor(x)),
        ] + wire::enc_termvs(instruction::args_of(Instruction::IntBxor(x))),
        instruction::dec_instr(instruction::enc_instr(Instruction::IntBxor(x)) + rest) == Ok::<
            _,
            DecodeErrorV,
        >((
            instruction::opcode_of(Instruction::IntBxor(x)),
            instruction::args_of(Instruction::IntBxor(x)),
            instruction::enc_instr(Instruction::IntBxor(x)).len(),
        )),
{
    let i = Instruction::IntBxor(x);
    let args = instruction::args_of(i);
    let a1 = x.arg1@;
    let a2 = x.arg2@;
    let a3 = x.arg3@;
    let a4 = x.arg4@;
    assert(args =~= seq![a1, a2, a3, a4]);
    assert(wire::wf_termv(a1)) by {
        assert(args[0] == a1);
    }
    assert(wire::wf_termv(a2)) by {
        assert(args[1] == a2);
    }
    assert(wire::wf_termv(a3)) by {
        assert(args[2] == a3);
    }
    assert(wire::wf_termv(a4)) by {
        assert(args[3] == a4);
    }
    lemma_chain4(ArgKind::Any, ArgKind::Any, ArgKind::Any, ArgKind::Any, a1, a2, a3, a4, rest);
    let e1 = wire::enc_termv(a1);
    let e2 = wire::enc_termv(a2);
    let e3 = wire::enc_termv(a3);
    let e4 = wire::enc_termv(a4);
    assert(instruction::enc_instr(i) == seq![35u8] + e1 + e2 + e3 + e4);
    let s = instruction::enc_instr(i) + rest;
    lemma_instr_shape_4(35, e1, e2, e3, e4, rest);
    assert(s[0] == 35);
    assert(s.skip(1) == e1 + e2 + e3 + e4 + rest);
    lemma_enc_termvs_4(a1, a2, a3, a4);
    assert(instruction::enc_instr(i).len() == 1 + (e1 + e2 + e3 + e4).len());
    assert(instruction::enc_instr(i) == seq![instruction::opcode_of(i)] + wire::enc_termvs(args));
}

/// The canonical bytes of this instruction type decode back to it.
#[verifier::rlimit(100)]
proof fn lemma_instr_36(x: instruction::IntBsl, rest: Seq<u8>)
    requires
        wf_instruction(Instruction::IntBsl(x)),
    ensures
        instruction::enc_instr(Instruction::IntBsl(x)).len() >= 1,
        instruction::enc_instr(Instruction::IntBsl(x)) == seq![
            instruction::opcode_of(Instruction::IntBsl(x)),
        ] + wire::enc_termvs(instruction::args_of(Instruction::IntBsl(x))),
        instruction::dec_instr(instruction::enc_instr(Instruction::IntBsl(x)) + rest) == Ok::<
            _,
            DecodeErrorV,
        >((
            instruction::opcode_of(Instruction::IntBsl(x)),
            instruction::args_of(Instruction::IntBsl(x)),
            instruction::enc_instr(Instruction::IntBsl(x)).len(),
        )),
{
    let i = Instruction::IntBsl(x);
    let args = instruction::args_of(i);
    let a1 = x.arg1@;
    let a2 = x.arg2@;
    let a3 = x.arg3@;
    let a4 = x.arg4@;
    assert(args =~= seq![a1, a2, a3, a4]);
    assert(wire::wf_termv(a1)) by {
        assert(args[0] == a1);
    }
    assert(wire::wf_termv(a2)) by {
        assert(args[1] == a2);
    }
    assert(wire::wf_termv(a3)) by {
        assert(args[2] == a3);
    }
    assert(wire::wf_termv(a4)) by {
        assert(args[3] == a4);
    }
    lemma_chain4(ArgKind::Any, ArgKind::Any, ArgKind::Any, ArgKind::Any, a1, a2, a3, a4, rest);
    let e1 = wire::enc_termv(a1);
    let e2 = wire::enc_termv(a2);
    let e3 = wire::enc_termv(a3);
    let e4 = wire::enc_termv(a4);
    assert(instruction::enc_instr(i) == seq![36u8] + e1 + e2 + e3 + e4);
    let s = instruction::enc_instr(i) + rest;
    lemma_instr_shape_4(36, e1, e2, e3, e4, rest);
    assert(s[0] == 36);
    assert(s.skip(1) == e1 + e2 + e3 + e4 + rest);
    lemma_enc_termvs_4(a1, a2, a3, a4);
    assert(instruction::enc_instr(i).len() == 1 + (e1 + e2 + e3 + e4).len());
    assert(instruction::enc_instr(i) == seq![instruction::opcode_of(i)] + wire::enc_termvs(args));
}

/// The canonical bytes of this instruction type decode back to it.
#[verifier::rlimit(100)]
proof fn lemma_instr_37(x: instruction::IntBsr, rest: Seq<u8>)
    requires
        wf_instruction(Instruction::IntBsr(x)),
    ensures
        instruction::enc_instr(Instruction::IntBsr(x)).len() >= 1,
        instruction::enc_instr(Instruction::IntBsr(x)) == seq![
            instruction::opcode_of(Instruction::IntBsr(x)),
        ] + wire::enc_termvs(instruction::args_of(Instruction::IntBsr(x))),
        instruction::dec_instr(instruction::enc_instr(Instruction::IntBsr(x)) + rest) == Ok::<
            _,
            DecodeErrorV,
        >((
            instruction::opcode_of(Instruction::IntBsr(x)),
            instruction::args_of(Instruction::IntBsr(x)),
            instruction::enc_instr(Instruction::IntBsr(x)).len(),
        )),
{
    let i = Instruction::IntBsr(x);
    let args = instruction::args_of(i);
    let a1 = x.arg1@;
    let a2 = x.arg2@;
    let a3 = x.arg3@;
    let a4 = x.arg4@;
    assert(args =~= seq![a1, a2, a3, a4]);
    assert(wire::wf_termv(a1)) by {
        assert(args[0] == a1);
    }
    assert(wire::wf_termv(a2)) by {
        assert(args[1] == a2);
    }
    assert(wire::wf_termv(a3)) by {
        assert(args[2] == a3);
    }
    assert(wire::wf_termv(a4)) by {
        assert(args[3] == a4);
    }
    lemma_chain4(ArgKind::Any, ArgKind::Any, ArgKind::Any, ArgKind::Any, a1, a2, a3, a4, rest);
    let e1 = wire::enc_termv(a1);
    let e2 = wire::enc_termv(a2);
    let e3 = wire::enc_termv(a3);
    let e4 = wire::enc_termv(a4);
    assert(instruction::enc_instr(i) == seq![37u8] + e1 + e2 + e3 + e4);
    let s = instruction::enc_instr(i) + rest;
    lemma_instr_shape_4(37, e1, e2, e3, e4, rest);
    assert(s[0] == 37);
    assert(s.skip(1) == e1 + e2 + e3 + e4 + rest);
    lemma_enc_termvs_4(a1, a2, a3, a4);
    assert(instruction::enc_instr(i).len() == 1 + (e1 + e2 + e3 + e4).len());
    assert(instruction::enc_instr(i) == seq![instruction::opcode_of(i)] + wire::enc_termvs(args));
}

/// The canonical bytes of this instruction type decode back to it.
#[verifier::rlimit(100)]
proof fn lemma_instr_38(x: instruction::IntBnot, rest: Seq<u8>)
    requires
        wf_instruction(Instruction::IntBnot(x)),
    ensures
        instruction::enc_instr(Instruction::IntBnot(x)).len() >= 1,
        instruction::enc_instr(Instruction::IntBnot(x)) == seq![
            instruction::opcode_of(Instruction::IntBnot(x)),
        ] + wire::enc_termvs(instruction::args_of(Instruction::IntBnot(x))),
        instruction::dec_instr(instruction::enc_instr(Instruction::IntBnot(x)) + rest) == Ok::<
            _,
            DecodeErrorV,
        >((
            instruction::opcode_of(Instruction::IntBnot(x)),
            instruction::args_of(Instruction::IntBnot(x)),
            instruction::enc_instr(Instruction::IntBnot(x)).len(),
        )),
{
    let i = Instruction::IntBnot(x);
    let args = instruction::args_of(i);
    let a1 = x.arg1@;
    let a2 = x.arg2@;
    let a3 = x.arg3@;
    assert(args =~= seq![a1, a2, a3]);
    assert(wire::wf_termv(a1)) by {
        assert(args[0] == a1);
    }
    assert(wire::wf_termv(a2)) by {
        assert(args[1] == a2);
    }
    assert(wire::wf_termv(a3)) by {
        assert(args[2] == a3);
    }
    lemma_chain3(ArgKind::Any, ArgKind::Any, ArgKind::Any, a1, a2, a3, rest);
    let e1 = wire::enc_termv(a1);
    let e2 = wire::enc_termv(a2);
    let e3 = wire::enc_termv(a3);
    assert(instruction::enc_instr(i) == seq![38u8] + e1 + e2 + e3);
    let s = instruction::enc_instr(i) + rest;
    lemma_instr_shape_3(38, e1, e2, e3, rest);
    assert(s[0] == 38);
    assert(s.skip(1) == e1 + e2 + e3 + rest);
    lemma_enc_termvs_3(a1, a2, a3);
    assert(instruction::enc_instr(i).len() == 1 + (e1 + e2 + e3).len());
    assert(instruction::enc_instr(i) == seq![instruction::opcode_of(i)] + wire::enc_termvs(args));
}

/// The canonical bytes of this instruction type decode back to it.
#[verifier::rlimit(100)]
proof fn lemma_instr_39(x: instruction::IsLt, rest: Seq<u8>)
    requires
        wf_instruction(Instruction::IsLt(x)),
    ensures
        instruction::enc_instr(Instruction::IsLt(x)).len() >= 1,
        instruction::enc_instr(Instruction::IsLt(x)) == seq![
            instruction::opcode_of(Instruction::IsLt(x)),
        ] + wire::enc_termvs(instruction::args_of(Instruction::IsLt(x))),
        instruction::dec_instr(instruction::enc_instr(Instruction::IsLt(x)) + rest) == Ok::<
            _,
            DecodeErrorV,
        >((
            instruction::opcode_of(Instruction::IsLt(x)),
            instruction::args_of(Instruction::IsLt(x)),
            instruction::enc_instr(Instruction::IsLt(x)).len(),
        )),
{
    let i = Instruction::IsLt(x);
    let args = instruction::args_of(i);
    let a1 = x.arg1@;
    let a2 = x.arg2@;
    let a3 = x.arg3@;
    assert(args =~= seq![a1, a2, a3]);
    assert(wire::wf_termv(a1)) by {
        assert(args[0] == a1);
    }
    assert(wire::wf_termv(a2)) by {
        assert(args[1] == a2);
    }
    assert(wire::wf_termv(a3)) by {
        assert(args[2] == a3);
    }
    lemma_chain3(ArgKind::Any, ArgKind::Any, ArgKind::Any, a1, a2, a3, rest);
    let e1 = wire::enc_termv(a1);
    let e2 = wire::enc_termv(a2);
    let e3 = wire::enc_termv(a3);
    assert(instruction::enc_instr(i) == seq![39u8] + e1 + e2 + e3);
    let s = instruction::enc_instr(i) + rest;
    lemma_instr_shape_3(39, e1, e2, e3, rest);
    assert(s[0] == 39);
    assert(s.skip(1) == e1 + e2 + e3 + rest);
    lemma_enc_termvs_3(a1, a2, a3);
    assert(instruction::enc_instr(i).len() == 1 + (e1 + e2 + e3).len());
    assert(instruction::enc_instr(i) == seq![instruction::opcode_of(i)] + wire::enc_termvs(args));
}

/// The canonical bytes of this instruction type decode back to it.
#[verifier::rlimit(100)]
proof fn lemma_instr_40(x: instruction::IsGe, rest: Seq<u8>)
    requires
        wf_instruction(Instruction::IsGe(x)),
    ensures
        instruction::enc_instr(Instruction::IsGe(x)).len() >= 1,
        instruction::enc_instr(Instruction::IsGe(x)) == seq![
            instruction::opcode_of(Instruction::IsGe(x)),
        ] + wire::enc_termvs(instruction::args_of(Instruction::IsGe(x))),
        instruction::dec_instr(instruction::enc_instr(Instruction::IsGe(x)) + rest) == Ok::<
            _,
            DecodeErrorV,
        >((
            instruction::opcode_of(Instruction::IsGe(x)),
            instruction::args_of(Instruction::IsGe(x)),
            instruction::enc_instr(Instruction::IsGe(x)).len(),
        )),
{
    let i = Instruction::IsGe(x);
    let args = instruction::args_of(i);
    let a1 = x.arg1@;
    let a2 = x.arg2@;
    let a3 = x.arg3@;
    assert(args =~= seq![a1, a2, a3]);
    assert(wire::wf_termv(a1)) by {
        assert(args[0] == a1);
    }
    assert(wire::wf_termv(a2)) by {
        assert(args[1] == a2);
    }
    assert(wire::wf_termv(a3)) by {
        assert(args[2] == a3);
    }
    lemma_chain3(ArgKind::Any, ArgKind::Any, ArgKind::Any, a1, a2, a3, rest);
    let e1 = wire::enc_termv(a1);
    let e2 = wire::enc_termv(a2);
    let e3 = wire::enc_termv(a3);
    assert(instruction::enc_instr(i) == seq![40u8] + e1 + e2 + e3);
    let s = instruction::enc_instr(i) + rest;
    lemma_instr_shape_3(40, e1, e2, e3, rest);
    assert(s[0] == 40);
    assert(s.skip(1) == e1 + e2 + e3 + rest);
    lemma_enc_termvs_3(a1, a2, a3);
    assert(instruction::enc_instr(i).len() == 1 + (e1 + e2 + e3).len());
    assert(instruction::enc_instr(i) == seq![instruction::opcode_of(i)] + wire::enc_termvs(args));
}

/// The canonical bytes of this instruction type decode back to it.
#[verifier::rlimit(100)]
proof fn lemma_instr_41(x: instruction::IsEq, rest: Seq<u8>)
    requires
        wf_instruction(Instruction::IsEq(x)),
    ensures
        instruction::enc_instr(Instruction::IsEq(x)).len() >= 1,
        instruction::enc_instr(Instruction::IsEq(x)) == seq![
            instruction::opcode_of(Instruction::IsEq(x)),
        ] + wire::enc_termvs(instruction::args_of(Instruction::IsEq(x))),
        instruction::dec_instr(instruction::enc_instr(Instruction::IsEq(x)) + rest) == Ok::<
            _,
            DecodeErrorV,
        >((
            instruction::opcode_of(Instruction::IsEq(x)),
            instruction::args_of(Instruction::IsEq(x)),
            instruction::enc_instr(Instruction::IsEq(x)).len(),
        )),
{
    let i = Instruction::IsEq(x);
    let args = instruction::args_of(i);
    let a1 = x.arg1@;
    let a2 = x.arg2@;
    let a3 = x.arg3@;
    assert(args =~= seq![a1, a2, a3]);
    assert(wire::wf_termv(a1)) by {
        assert(args[0] == a1);
    }
    assert(wire::wf_termv(a2)) by {
        assert(args[1] == a2);
    }
    assert(wire::wf_termv(a3)) by {
        assert(args[2] == a3);
    }
    lemma_chain3(ArgKind::Any, ArgKind::Any, ArgKind::Any, a1, a2, a3, rest);
    let e1 = wire::enc_termv(a1);
    let e2 = wire::enc_termv(a2);
    let e3 = wire::enc_termv(a3);
    assert(instruction::enc_instr(i) == seq![41u8] + e1 + e2 + e3);
    let s = instruction::enc_instr(i) + rest;
    lemma_instr_shape_3(41, e1, e2, e3, rest);
    assert(s[0] == 41);
    assert(s.skip(1) == e1 + e2 + e3 + rest);
    lemma_enc_termvs_3(a1, a2, a3);
    assert(instruction::enc_instr(i).len() == 1 + (e1 + e2 + e3).len());
    assert(instruction::enc_instr(i) == seq![instruction::opcode_of(i)] + wire::enc_termvs(args));
}

/// The canonical bytes of this instruction type decode back to it.
#[verifier::rlimit(100)]
proof fn lemma_instr_42(x: instruction::IsNe, rest: Seq<u8>)
    requires
        wf_instruction(Instruction::IsNe(x)),
    ensures
        instruction::enc_instr(Instruction::IsNe(x)).len() >= 1,
        instruction::enc_instr(Instruction::IsNe(x)) == seq![
            instruction::opcode_of(Instruction::IsNe(x)),
        ] + wire::enc_termvs(instruction::args_of(Instruction::IsNe(x))),
        instruction::dec_instr(instruction::enc_instr(Instruction::IsNe(x)) + rest) == Ok::<
            _,
            DecodeErrorV,
        >((
            instruction::opcode_of(Instruction::IsNe(x)),
            instruction::args_of(Instruction::IsNe(x)),
            instruction::enc_instr(Instruction::IsNe(x)).len(),
        )),
{
    let i = Instruction::IsNe(x);
    let args = instruction::args_of(i);
    let a1 = x.arg1@;
    let a2 = x.arg2@;
    let a3 = x.arg3@;
    assert(args =~= seq![a1, a2, a3]);
    assert(wire::wf_termv(a1)) by {
        assert(args[0] == a1);
    }
    assert(wire::wf_termv(a2)) by {
        assert(args[1] == a2);
    }
    assert(wire::wf_termv(a3)) by {
        assert(args[2] == a3);
    }
    lemma_chain3(ArgKind::Any, ArgKind::Any, ArgKind::Any, a1, a2, a3, rest);
    let e1 = wire::enc_termv(a1);
    let e2 = wire::enc_termv(a2);
    let e3 = wire::enc_termv(a3);
    assert(instruction::enc_instr(i) == seq![42u8] + e1 + e2 + e3);
    let s = instruction::enc_instr(i) + rest;
    lemma_instr_shape_3(42, e1, e2, e3, rest);
    assert(s[0] == 42);
    assert(s.skip(1) == e1 + e2 + e3 + rest);
    lemma_enc_termvs_3(a1, a2, a3);
    assert(instruction::enc_instr(i).len() == 1 + (e1 + e2 + e3).len());
    assert(instruction::enc_instr(i) == seq![instruction::opcode_of(i)] + wire::enc_termvs(args));
}

/// The canonical bytes of this instruction type decode back to it.
#[verifier::rlimit(100)]
proof fn lemma_instr_43(x: instruction::IsEqExact, rest: Seq<u8>)
    requires
        wf_instruction(Instruction::IsEqExact(x)),
    ensures
        instruction::enc_instr(Instruction::IsEqExact(x)).len() >= 1,
        instruction::enc_instr(Instruction::IsEqExact(x)) == seq![
            instruction::opcode_of(Instruction::IsEqExact(x)),
        ] + wire::enc_termvs(instruction::args_of(Instruction::IsEqExact(x))),
        instruction::dec_instr(instruction::enc_instr(Instruction::IsEqExact(x)) + rest) == Ok::<
            _,
            DecodeErrorV,
        >((
            instruction::opcode_of(Instruction::IsEqExact(x)),
            instruction::args_of(Instruction::IsEqExact(x)),
            instruction::enc_instr(Instruction::IsEqExact(x)).len(),
        )),
{
    let i = Instruction::IsEqExact(x);
    let args = instruction::args_of(i);
    let a1 = TermV::Label(x.label.value as int);
    let a2 = x.arg1@;
    let a3 = x.arg2@;
    assert(args =~= seq![a1, a2, a3]);
    assert(wire::wf_termv(a1)) by {
        assert(args[0] == a1);
    }
    assert(wire::wf_termv(a2)) by {
        assert(args[1] == a2);
    }
    assert(wire::wf_termv(a3)) by {
        assert(args[2] == a3);
    }
    lemma_chain3(ArgKind::Lbl, ArgKind::Any, ArgKind::Any, a1, a2, a3, rest);
    let e1 = wire::enc_termv(a1);
    let e2 = wire::enc_termv(a2);
    let e3 = wire::enc_termv(a3);
    assert(instruction::enc_instr(i) == seq![43u8] + e1 + e2 + e3);
    let s = instruction::enc_instr(i) + rest;
    lemma_instr_shape_3(43, e1, e2, e3, rest);
    assert(s[0] == 43);
    assert(s.skip(1) == e1 + e2 + e3 + rest);
    lemma_enc_termvs_3(a1, a2, a3);
    assert(instruction::enc_instr(i).len() == 1 + (e1 + e2 + e3).len());
    assert(instruction::enc_instr(i) == seq![instruction::opcode_of(i)] + wire::enc_termvs(args));
}

/// The canonical bytes of this instruction type decode back to it.
#[verifier::rlimit(100)]
proof fn lemma_instr_44(x: instruction::IsNeExact, rest: Seq<u8>)
    requires
        wf_instruction(Instruction::IsNeExact(x)),
    ensures
        instruction::enc_instr(Instruction::IsNeExact(x)).len() >= 1,
        instruction::enc_instr(Instruction::IsNeExact(x)) == seq![
            instruction::opcode_of(Instruction::IsNeExact(x)),
        ] + wire::enc_termvs(instruction::args_of(Instruction::IsNeExact(x))),
        instruction::dec_instr(instruction::enc_instr(Instruction::IsNeExact(x)) + rest) == Ok::<
            _,
            DecodeErrorV,
        >((
            instruction::opcode_of(Instruction::IsNeExact(x)),
            instruction::args_of(Instruction::IsNeExact(x)),
            instruction::enc_instr(Instruction::IsNeExact(x)).len(),
        )),
{
    let i = Instruction::IsNeExact(x);
    let args = instruction::args_of(i);
    let a1 = TermV::Label(x.label.value as int);
    let a2 = x.arg1@;
    let a3 = x.arg2@;
    assert(args =~= seq![a1, a2, a3]);
    assert(wire::wf_termv(a1)) by {
        assert(args[0] == a1);
    }
    assert(wire::wf_termv(a2)) by {
        assert(args[1] == a2);
    }
    assert(wire::wf_termv(a3)) by {
        assert(args[2] == a3);
    }
    lemma_chain3(ArgKind::Lbl, ArgKind::Any, ArgKind::Any, a1, a2, a3, rest);
    let e1 = wire::enc_termv(a1);
    let e2 = wire::enc_termv(a2);
    let e3 = wire::enc_termv(a3);
    assert(instruction::enc_instr(i) == seq![44u8] + e1 + e2 + e3);
    let s = instruction::enc_instr(i) + rest;
    lemma_instr_shape_3(44, e1, e2, e3, rest);
    assert(s[0] == 44);
    assert(s.skip(1) == e1 + e2 + e3 + rest);
    lemma_enc_termvs_3(a1, a2, a3);
    assert(instruction::enc_instr(i).len() == 1 + (e1 + e2 + e3).len());
    assert(instruction::enc_instr(i) == seq![instruction::opcode_of(i)] + wire::enc_termvs(args));
}

/// The canonical bytes of this instruction type decode back to it.
#[verifier::rlimit(100)]
proof fn lemma_instr_45(x: instruction::IsInteger, rest: Seq<u8>)
    requires
        wf_instruction(Instruction::IsInteger(x)),
    ensures
        instruction::enc_instr(Instruction::IsInteger(x)).len() >= 1,
        instruction::enc_instr(Instruction::IsInteger(x)) == seq![
            instruction::opcode_of(Instruction::IsInteger(x)),
        ] + wire::enc_termvs(instruction::args_of(Instruction::IsInteger(x))),
        instruction::dec_instr(instruction::enc_instr(Instruction::IsInteger(x)) + rest) == Ok::<
            _,
            DecodeErrorV,
        >((
            instruction::opcode_of(Instruction::IsInteger(x)),
            instruction::args_of(Instruction::IsInteger(x)),
            instruction::enc_instr(Instruction::IsInteger(x)).len(),
        )),
{
    let i = Instruction::IsInteger(x);
    let args = instruction::args_of(i);
    let a1 = TermV::Label(x.label.value as int);
    let a2 = x.arg1@;
    assert(args =~= seq![a1, a2]);
    assert(wire::wf_termv(a1)) by {
        assert(args[0] == a1);
    }
    assert(wire::wf_termv(a2)) by {
        assert(args[1] == a2);
    }
    lemma_chain2(ArgKind::Lbl, ArgKind::Any, a1, a2, rest);
    let e1 = wire::enc_termv(a1);
    let e2 = wire::enc_termv(a2);
    assert(instruction::enc_instr(i) == seq![45u8] + e1 + e2);
    let s = instruction::enc_instr(i) + rest;
    lemma_instr_shape_2(45, e1, e2, rest);
    assert(s[0] == 45);
    assert(s.skip(1) == e1 + e2 + rest);
    lemma_enc_termvs_2(a1, a2);
    assert(instruction::enc_instr(i).len() == 1 + (e1 + e2).len());
    assert(instruction::enc_instr(i) == seq![instruction::opcode_of(i)] + wire::enc_termvs(args));
}

/// The canonical bytes of this instruction type decode back to it.
#[verifier::rlimit(100)]
proof fn lemma_instr_46(x: instruction::IsFloat, rest: Seq<u8>)
    requires
        wf_instruction(Instruction::IsFloat(x)),
    ensures
        instruction::enc_instr(Instruction::IsFloat(x)).len() >= 1,
        instruction::enc_instr(Instruction::IsFloat(x)) == seq![
            instruction::opcode_of(Instruction::IsFloat(x)),
        ] + wire::enc_termvs(instruction::args_of(Instruction::IsFloat(x))),
        instruction::dec_instr(instruction::enc_instr(Instruction::IsFloat(x)) + rest) == Ok::<
            _,
            DecodeErrorV,
        >((
            instruction::opcode_of(Instruction::IsFloat(x)),
            instruction::args_of(Instruction::IsFloat(x)),
            instruction::enc_instr(Instruction::IsFloat(x)).len(),
        )),
{
    let i = Instruction::IsFloat(x);
    let args = instruction::args_of(i);
    let a1 = TermV::Label(x.label.value as int);
    let a2 = x.arg1@;
    assert(args =~= seq![a1, a2]);
    assert(wire::wf_termv(a1)) by {
        assert(args[0] == a1);
    }
    assert(wire::wf_termv(a2)) by {
        assert(args[1] == a2);
    }
    lemma_chain2(ArgKind::Lbl, ArgKind::Any, a1, a2, rest);
    let e1 = wire::enc_termv(a1);
    let e2 = wire::enc_termv(a2);
    assert(instruction::enc_instr(i) == seq![46u8] + e1 + e2);
    let s = instruction::enc_instr(i) + rest;
    lemma_instr_shape_2(46, e1, e2, rest);
    assert(s[0] == 46);
    assert(s.skip(1) == e1 + e2 + rest);
    lemma_enc_termvs_2(a1, a2);
    assert(instruction::enc_instr(i).len() == 1 + (e1 + e2).len());
    assert(instruction::enc_instr(i) == seq![instruction::opcode_of(i)] + wire::enc_termvs(args));
}

/// The canonical bytes of this instruction type decode back to it.
#[verifier::rlimit(100)]
proof fn lemma_instr_47(x: instruction::IsNumber, rest: Seq<u8>)
    requires
        wf_instruction(Instruction::IsNumber(x)),
    ensures
        instruction::enc_instr(Instruction::IsNumber(x)).len() >= 1,
        instruction::enc_instr(Instruction::IsNumber(x)) == seq![
            instruction::opcode_of(Instruction::IsNumber(x)),
        ] + wire::enc_termvs(instruction::args_of(Instruction::IsNumber(x))),
        instruction::dec_instr(instruction::enc_instr(Instruction::IsNumber(x)) + rest) == Ok::<
            _,
            DecodeErrorV,
        >((
            instruction::opcode_of(Instruction::IsNumber(x)),
            instruction::args_of(Instruction::IsNumber(x)),
            instruction::enc_instr(Instruction::IsNumber(x)).len(),
        )),
{
    let i = Instruction::IsNumber(x);
    let args = instruction::args_of(i);
    let a1 = TermV::Label(x.label.value as int);
    let a2 = x.arg1@;
    assert(args =~= seq![a1, a2]);
    assert(wire::wf_termv(a1)) by {
        assert(args[0] == a1);
    }
    assert(wire::wf_termv(a2)) by {
        assert(args[1] == a2);
    }
    lemma_chain2(ArgKind::Lbl, ArgKind::Any, a1, a2, rest);
    let e1 = wire::enc_termv(a1);
    let e2 = wire::enc_termv(a2);
    assert(instruction::enc_instr(i) == seq![47u8] + e1 + e2);
    let s = instruction::enc_instr(i) + rest;
    lemma_instr_shape_2(47, e1, e2, rest);
    assert(s[0] == 47);
    assert(s.skip(1) == e1 + e2 + rest);
    lemma_enc_termvs_2(a1, a2);
    assert(instruction::enc_instr(i).len() == 1 + (e1 + e2).len());
    assert(instruction::enc_instr(i) == seq![instruction::opcode_of(i)] + wire::enc_termvs(args));
}

/// The canonical bytes of this instruction type decode back to it.
#[verifier::rlimit(100)]
proof fn lemma_instr_48(x: instruction::IsAtom, rest: Seq<u8>)
    requires
        wf_instruction(Instruction::IsAtom(x)),
    ensures
        instruction::enc_instr(Instruction::IsAtom(x)).len() >= 1,
        instruction::enc_instr(Instruction::IsAtom(x)) == seq![
            instruction::opcode_of(Instruction::IsAtom(x)),
        ] + wire::enc_termvs(instruction::args_of(Instruction::IsAtom(x))),
        instruction::dec_instr(instruction::enc_instr(Instruction::IsAtom(x)) + rest) == Ok::<
            _,
            DecodeErrorV,
        >((
            instruction::opcode_of(Instruction::IsAtom(x)),
            instruction::args_of(Instruction::IsAtom(x)),
            instruction::enc_instr(Instruction::IsAtom(x)).len(),
        )),
{
    let i = Instruction::IsAtom(x);
    let args = instruction::args_of(i);
    let a1 = TermV::Label(x.label.value as int);
    let a2 = x.arg1@;
    assert(args =~= seq![a1, a2]);
    assert(wire::wf_termv(a1)) by {
        assert(args[0] == a1);
    }
    assert(wire::wf_termv(a2)) by {
        assert(args[1] == a2);
    }
    lemma_chain2(ArgKind::Lbl, ArgKind::Any, a1, a2, rest);
    let e1 = wire::enc_termv(a1);
    let e2 = wire::enc_termv(a2);
    assert(instruction::enc_instr(i) == seq![48u8] + e1 + e2);
    let s = instruction::enc_instr(i) + rest;
    lemma_instr_shape_2(48, e1, e2, rest);
    assert(s[0] == 48);
    assert(s.skip(1) == e1 + e2 + rest);
    lemma_enc_termvs_2(a1, a2);
    assert(instruction::enc_instr(i).len() == 1 + (e1 + e2).len());
    assert(instruction::enc_instr(i) == seq![instruction::opcode_of(i)] + wire::enc_termvs(args));
}

/// The canonical bytes of this instruction type decode back to it.
#[verifier::rlimit(100)]
proof fn lemma_instr_49(x: instruction::IsPid, rest: Seq<u8>)
    requires
        wf_instruction(Instruction::IsPid(x)),
    ensures
        instruction::enc_instr(Instruction::IsPid(x)).len() >= 1,
        instruction::enc_instr(Instruction::IsPid(x)) == seq![
            instruction::opcode_of(Instruction::IsPid(x)),
        ] + wire::enc_termvs(instruction::args_of(Instruction::IsPid(x))),
        instruction::dec_instr(instruction::enc_instr(Instruction::IsPid(x)) + rest) == Ok::<
            _,
            DecodeErrorV,
        >((
            instruction::opcode_of(Instruction::IsPid(x)),
            instruction::args_of(Instruction::IsPid(x)),
            instruction::enc_instr(Instruction::IsPid(x)).len(),
        )),
{
    let i = Instruction::IsPid(x);
    let args = instruction::args_of(i);
    let a1 = TermV::Label(x.label.value as int);
    let a2 = x.arg1@;
    assert(args =~= seq![a1, a2]);
    assert(wire::wf_termv(a1)) by {
        assert(args[0] == a1);
    }
    assert(wire::wf_termv(a2)) by {
        assert(args[1] == a2);
    }
    lemma_chain2(ArgKind::Lbl, ArgKind::Any, a1, a2, rest);
    let e1 = wire::enc_termv(a1);
    let e2 = wire::enc_termv(a2);
    assert(instruction::enc_instr(i) == seq![49u8] + e1 + e2);
    let s = instruction::enc_instr(i) + rest;
    lemma_instr_shape_2(49, e1, e2, rest);
    assert(s[0] == 49);
    assert(s.skip(1) == e1 + e2 + rest);
    lemma_enc_termvs_2(a1, a2);
    assert(instruction::enc_instr(i).len() == 1 + (e1 + e2).len());
    assert(instruction::enc_instr(i) == seq![instruction::opcode_of(i)] + wire::enc_termvs(args));
}

/// The canonical bytes of this instruction type decode back to it.
#[verifier::rlimit(100)]
proof fn lemma_instr_50(x: instruction::IsReference, rest: Seq<u8>)
    requires
        wf_instruction(Instruction::IsReference(x)),
    ensures
        instruction::enc_instr(Instruction::IsReference(x)).len() >= 1,
        instruction::enc_instr(Instruction::IsReference(x)) == seq![
            instruction::opcode_of(Instruction::IsReference(x)),
        ] + wire::enc_termvs(instruction::args_of(Instruction::IsReference(x))),
        instruction::dec_instr(instruction::enc_instr(Instruction::IsReference(x)) + rest) == Ok::<
            _,
            DecodeErrorV,
        >((
            instruction::opcode_of(Instruction::IsReference(x)),
            instruction::args_of(Instruction::IsReference(x)),
            instruction::enc_instr(Instruction::IsReference(x)).len(),
        )),
{
    let i = Instruction::IsReference(x);
    let args = instruction::args_of(i);
    let a1 = TermV::Label(x.label.value as int);
    let a2 = x.arg1@;
    assert(args =~= seq![a1, a2]);
    assert(wire::wf_termv(a1)) by {
        assert(args[0] == a1);
    }
    assert(wire::wf_termv(a2)) by {
        assert(args[1] == a2);
    }
    lemma_chain2(ArgKind::Lbl, ArgKind::Any, a1, a2, rest);
    let e1 = wire::enc_termv(a1);
    let e2 = wire::enc_termv(a2);
    assert(instruction::enc_instr(i) == seq![50u8] + e1 + e2);
    let s = instruction::enc_instr(i) + rest;
    lemma_instr_shape_2(50, e1, e2, rest);
    assert(s[0] == 50);
    assert(s.skip(1) == e1 + e2 + rest);
    lemma_enc_termvs_2(a1, a2);
    assert(instruction::enc_instr(i).len() == 1 + (e1 + e2).len());
    assert(instruction::enc_instr(i) == seq![instruction::opcode_of(i)] + wire::enc_termvs(args));
}

/// The canonical bytes of this instruction type decode back to it.
#[verifier::rlimit(100)]
proof fn lemma_instr_51(x: instruction::IsPort, rest: Seq<u8>)
    requires
        wf_instruction(Instruction::IsPort(x)),
    ensures
        instruction::enc_instr(Instruction::IsPort(x)).len() >= 1,
        instruction::enc_instr(Instruction::IsPort(x)) == seq![
            instruction::opcode_of(Instruction::IsPort(x)),
        ] + wire::enc_termvs(instruction::args_of(Instruction::IsPort(x))),
        instruction::dec_instr(instruction::enc_instr(Instruction::IsPort(x)) + rest) == Ok::<
            _,
            DecodeErrorV,
        >((
            instruction::opcode_of(Instruction::IsPort(x)),
            instruction::args_of(Instruction::IsPort(x)),
            instruction::enc_instr(Instruction::IsPort(x)).len(),
        )),
{
    let i = Instruction::IsPort(x);
    let args = instruction::args_of(i);
    let a1 = TermV::Label(x.label.value as int);
    let a2 = x.arg1@;
    assert(args =~= seq![a1, a2]);
    assert(wire::wf_termv(a1)) by {
        assert(args[0] == a1);
    }
    assert(wire::wf_termv(a2)) by {
        assert(args[1] == a2);
    }
    lemma_chain2(ArgKind::Lbl, ArgKind::Any, a1, a2, rest);
    let e1 = wire::enc_termv(a1);
    let e2 = wire::enc_termv(a2);
    assert(instruction::enc_instr(i) == seq![51u8] + e1 + e2);
    let s = instruction::enc_instr(i) + rest;
    lemma_instr_shape_2(51, e1, e2, rest);
    assert(s[0] == 51);
    assert(s.skip(1) == e1 + e2 + rest);
    lemma_enc_termvs_2(a1, a2);
    assert(instruction::enc_instr(i).len() == 1 + (e1 + e2).len());
    assert(instruction::enc_instr(i) == seq![instruction::opcode_of(i)] + wire::enc_termvs(args));
}

/// The canonical bytes of this instruction type decode back to it.
#[verifier::rlimit(100)]
proof fn lemma_instr_52(x: instruction::IsNil, rest: Seq<u8>)
    requires
        wf_instruction(Instruction::IsNil(x)),
    ensures
        instruction::enc_instr(Instruction::IsNil(x)).len() >= 1,
        instruction::enc_instr(Instruction::IsNil(x)) == seq![
            instruction::opcode_of(Instruction::IsNil(x)),
        ] + wire::enc_termvs(instruction::args_of(Instruction::IsNil(x))),
        instruction::dec_instr(instruction::enc_instr(Instruction::IsNil(x)) + rest) == Ok::<
            _,
            DecodeErrorV,
        >((
            instruction::opcode_of(Instruction::IsNil(x)),
            instruction::args_of(Instruction::IsNil(x)),
            instruction::enc_instr(Instruction::IsNil(x)).len(),
        )),
{
    let i = Instruction::IsNil(x);
    let args = instruction::args_of(i);
    let a1 = TermV::Label(x.label.value as int);
    let a2 = x.arg1@;
    assert(args =~= seq![a1, a2]);
    assert(wire::wf_termv(a1)) by {
        assert(args[0] == a1);
    }
    assert(wire::wf_termv(a2)) by {
        assert(args[1] == a2);
    }
    lemma_chain2(ArgKind::Lbl, ArgKind::Any, a1, a2, rest);
    let e1 = wire::enc_termv(a1);
    let e2 = wire::enc_termv(a2);
    assert(instruction::enc_instr(i) == seq![52u8] + e1 + e2);
    let s = instruction::enc_instr(i) + rest;
    lemma_instr_shape_2(52, e1, e2, rest);
    assert(s[0] == 52);
    assert(s.skip(1) == e1 + e2 + rest);
    lemma_enc_termvs_2(a1, a2);
    assert(instruction::enc_instr(i).len() == 1 + (e1 + e2).len());
    assert(instruction::enc_instr(i) == seq![instruction::opcode_of(i)] + wire::enc_termvs(args));
}

/// The canonical bytes of this instruction type decode back to it.
#[verifier::rlimit(100)]
proof fn lemma_instr_53(x: instruction::IsBinary, rest: Seq<u8>)
    requires
        wf_instruction(Instruction::IsBinary(x)),
    ensures
        instruction::enc_instr(Instruction::IsBinary(x)).len() >= 1,
        instruction::enc_instr(Instruction::IsBinary(x)) == seq![
            instruction::opcode_of(Instruction::IsBinary(x)),
        ] + wire::enc_termvs(instruction::args_of(Instruction::IsBinary(x))),
        instruction::dec_instr(instruction::enc_instr(Instruction::IsBinary(x)) + rest) == Ok::<
            _,
            DecodeErrorV,
        >((
            instruction::opcode_of(Instruction::IsBinary(x)),
            instruction::args_of(Instruction::IsBinary(x)),
            instruction::enc_instr(Instruction::IsBinary(x)).len(),
        )),
{
    let i = Instruction::IsBinary(x);
    let args = instruction::args_of(i);
    let a1 = TermV::Label(x.label.value as int);
    let a2 = x.arg1@;
    assert(args =~= seq![a1, a2]);
    assert(wire::wf_termv(a1)) by {
        assert(args[0] == a1);
    }
    assert(wire::wf_termv(a2)) by {
        assert(args[1] == a2);
    }
    lemma_chain2(ArgKind::Lbl, ArgKind::Any, a1, a2, rest);
    let e1 = wire::enc_termv(a1);
    let e2 = wire::enc_termv(a2);
    assert(instruction::enc_instr(i) == seq![53u8] + e1 + e2);
    let s = instruction::enc_instr(i) + rest;
    lemma_instr_shape_2(53, e1, e2, rest);
    assert(s[0] == 53);
    assert(s.skip(1) == e1 + e2 + rest);
    lemma_enc_termvs_2(a1, a2);
    assert(instruction::enc_instr(i).len() == 1 + (e1 + e2).len());
    assert(instruction::enc_instr(i) == seq![instruction::opcode_of(i)] + wire::enc_termvs(args));
}

/// The canonical bytes of this instruction type decode back to it.
#[verifier::rlimit(100)]
proof fn lemma_instr_54(x: instruction::IsConstant, rest: Seq<u8>)
    requires
        wf_instruction(Instruction::IsConstant(x)),
    ensures
        instruction::enc_instr(Instruction::IsConstant(x)).len() >= 1,
        instruction::enc_instr(Instruction::IsConstant(x)) == seq![
            instruction::opcode_of(Instruction::IsConstant(x)),
        ] + wire::enc_termvs(instruction::args_of(Instruction::IsConstant(x))),
        instruction::dec_instr(instruction::enc_instr(Instruction::IsConstant(x)) + rest) == Ok::<
            _,
            DecodeErrorV,
        >((
            instruction::opcode_of(Instruction::IsConstant(x)),
            instruction::args_of(Instruction::IsConstant(x)),
            instruction::enc_instr(Instruction::IsConstant(x)).len(),
        )),
{
    let i = Instruction::IsConstant(x);
    let args = instruction::args_of(i);
    let a1 = TermV::Label(x.label.value as int);
    let a2 = x.arg1@;
    assert(args =~= seq![a1, a2]);
    assert(wire::wf_termv(a1)) by {
        assert(args[0] == a1);
    }
    assert(wire::wf_termv(a2)) by {
        assert(args[1] == a2);
    }
    lemma_chain2(ArgKind::Lbl, ArgKind::Any, a1, a2, rest);
    let e1 = wire::enc_termv(a1);
    let e2 = wire::enc_termv(a2);
    assert(instruction::enc_instr(i) == seq![54u8] + e1 + e2);
    let s = instruction::enc_instr(i) + rest;
    lemma_instr_shape_2(54, e1, e2, rest);
    assert(s[0] == 54);
    assert(s.skip(1) == e1 + e2 + rest);
    lemma_enc_termvs_2(a1, a2);
    assert(instruction::enc_instr(i).len() == 1 + (e1 + e2).len());
    assert(instruction::enc_instr(i) == seq![instruction::opcode_of(i)] + wire::enc_termvs(args));
}

/// The canonical bytes of this instruction type decode back to it.
#[verifier::rlimit(100)]
proof fn lemma_instr_55(x: instruction::IsList, rest: Seq<u8>)
    requires
        wf_instruction(Instruction::IsList(x)),
    ensures
        instruction::enc_instr(Instruction::IsList(x)).len() >= 1,
        instruction::enc_instr(Instruction::IsList(x)) == seq![
            instruction::opcode_of(Instruction::IsList(x)),
        ] + wire::enc_termvs(instruction::args_of(Instruction::IsList(x))),
        instruction::dec_instr(instruction::enc_instr(Instruction::IsList(x)) + rest) == Ok::<
            _,
            DecodeErrorV,
        >((
            instruction::opcode_of(Instruction::IsList(x)),
            instruction::args_of(Instruction::IsList(x)),
            instruction::enc_instr(Instruction::IsList(x)).len(),
        )),
{
    let i = Instruction::IsList(x);
    let args = instruction::args_of(i);
    let a1 = TermV::Label(x.label.value as int);
    let a2 = x.arg1@;
    assert(args =~= seq![a1, a2]);
    assert(wire::wf_termv(a1)) by {
        assert(args[0] == a1);
    }
    assert(wire::wf_termv(a2)) by {
        assert(args[1] == a2);
    }
    lemma_chain2(ArgKind::Lbl, ArgKind::Any, a1, a2, rest);
    let e1 = wire::enc_termv(a1);
    let e2 = wire::enc_termv(a2);
    assert(instruction::enc_instr(i) == seq![55u8] + e1 + e2);
    let s = instruction::enc_instr(i) + rest;
    lemma_instr_shape_2(55, e1, e2, rest);
    assert(s[0] == 55);
    assert(s.skip(1) == e1 + e2 + rest);
    lemma_enc_termvs_2(a1, a2);
    assert(instruction::enc_instr(i).len() == 1 + (e1 + e2).len());
    assert(instruction::enc_instr(i) == seq![instruction::opcode_of(i)] + wire::enc_termvs(args));
}

/// The canonical bytes of this instruction type decode back to it.
#[verifier::rlimit(100)]
proof fn lemma_instr_56(x: instruction::IsNonemptyList, rest: Seq<u8>)
    requires
        wf_instruction(Instruction::IsNonemptyList(x)),
    ensures
        instruction::enc_instr(Instruction::IsNonemptyList(x)).len() >= 1,
        instruction::enc_instr(Instruction::IsNonemptyList(x)) == seq![
            instruction::opcode_of(Instruction::IsNonemptyList(x)),
        ] + wire::enc_termvs(instruction::args_of(Instruction::IsNonemptyList(x))),
        instruction::dec_instr(instruction::enc_instr(Instruction::IsNonemptyList(x)) + rest) == Ok::<
            _,
            DecodeErrorV,
        >((
            instruction::opcode_of(Instruction::IsNonemptyList(x)),
            instruction::args_of(Instruction::IsNonemptyList(x)),
            instruction::enc_instr(Instruction::IsNonemptyList(x)).len(),
        )),
{
    let i = Instruction::IsNonemptyList(x);
    let args = instruction::args_of(i);
    let a1 = TermV::Label(x.label.value as int);
    let a2 = x.arg1@;
    assert(args =~= seq![a1, a2]);
    assert(wire::wf_termv(a1)) by {
        assert(args[0] == a1);
    }
    assert(wire::wf_termv(a2)) by {
        assert(args[1] == a2);
    }
    lemma_chain2(ArgKind::Lbl, ArgKind::Any, a1, a2, rest);
    let e1 = wire::enc_termv(a1);
    let e2 = wire::enc_termv(a2);
    assert(instruction::enc_instr(i) == seq![56u8] + e1 + e2);
    let s = instruction::enc_instr(i) + rest;
    lemma_instr_shape_2(56, e1, e2, rest);
    assert(s[0] == 56);
    assert(s.skip(1) == e1 + e2 + rest);
    lemma_enc_termvs_2(a1, a2);
    assert(instruction::enc_instr(i).len() == 1 + (e1 + e2).len());
    assert(instruction::enc_instr(i) == seq![instruction::opcode_of(i)] + wire::enc_termvs(args));
}

/// The canonical bytes of this instruction type decode back to it.
#[verifier::rlimit(100)]
proof fn lemma_instr_57(x: instruction::IsTuple, rest: Seq<u8>)
    requires
        wf_instruction(Instruction::IsTuple(x)),
    ensures
        instruction::enc_instr(Instruction::IsTuple(x)).len() >= 1,
        instruction::enc_instr(Instruction::IsTuple(x)) == seq![
            instruction::opcode_of(Instruction::IsTuple(x)),
        ] + wire::enc_termvs(instruction::args_of(Instruction::IsTuple(x))),
        instruction::dec_instr(instruction::enc_instr(Instruction::IsTuple(x)) + rest) == Ok::<
            _,
            DecodeErrorV,
        >((
            instruction::opcode_of(Instruction::IsTuple(x)),
            instruction::args_of(Instruction::IsTuple(x)),
            instruction::enc_instr(Instruction::IsTuple(x)).len(),
        )),
{
    let i = Instruction::IsTuple(x);
    let args = instruction::args_of(i);
    let a1 = TermV::Label(x.label.value as int);
    let a2 = x.arg1@;
    assert(args =~= seq![a1, a2]);
    assert(wire::wf_termv(a1)) by {
        assert(args[0] == a1);
    }
    assert(wire::wf_termv(a2)) by {
        assert(args[1] == a2);
    }
    lemma_chain2(ArgKind::Lbl, ArgKind::Any, a1, a2, rest);
    let e1 = wire::enc_termv(a1);
    let e2 = wire::enc_termv(a2);
    assert(instruction::enc_instr(i) == seq![57u8] + e1 + e2);
    let s = instruction::enc_instr(i) + rest;
    lemma_instr_shape_2(57, e1, e2, rest);
    assert(s[0] == 57);
    assert(s.skip(1) == e1 + e2 + rest);
    lemma_enc_termvs_2(a1, a2);
    assert(instruction::enc_instr(i).len() == 1 + (e1 + e2).len());
    assert(instruction::enc_instr(i) == seq![instruction::opcode_of(i)] + wire::enc_termvs(args));
}

/// The canonical bytes of this instruction type decode back to it.
#[verifier::rlimit(100)]
proof fn lemma_instr_58(x: instruction::TestArity, rest: Seq<u8>)
    requires
        wf_instruction(Instruction::TestArity(x)),
    ensures
        instruction::enc_instr(Instruction::TestArity(x)).len() >= 1,
        instruction::enc_instr(Instruction::TestArity(x)) == seq![
            instruction::opcode_of(Instruction::TestArity(x)),
        ] + wire::enc_termvs(instruction::args_of(Instruction::TestArity(x))),
        instruction::dec_instr(instruction::enc_instr(Instruction::TestArity(x)) + rest) == Ok::<
            _,
            DecodeErrorV,
        >((
            instruction::opcode_of(Instruction::TestArity(x)),
            instruction::args_of(Instruction::TestArity(x)),
            instruction::enc_instr(Instruction::TestArity(x)).len(),
        )),
{
    let i = Instruction::TestArity(x);
    let args = instruction::args_of(i);
    let a1 = TermV::Label(x.label.value as int);
    let a2 = x.arg1@;
    let a3 = TermV::Usize(x.arity as int);
    assert(args =~= seq![a1, a2, a3]);
    assert(wire::wf_termv(a1)) by {
        assert(args[0] == a1);
    }
    assert(wire::wf_termv(a2)) by {
        assert(args[1] == a2);
    }
    assert(wire::wf_termv(a3)) by {
        assert(args[2] == a3);
    }
    lemma_chain3(ArgKind::Lbl, ArgKind::Any, ArgKind::U, a1, a2, a3, rest);
    let e1 = wire::enc_termv(a1);
    let e2 = wire::enc_termv(a2);
    let e3 = wire::enc_termv(a3);
    assert(instruction::enc_instr(i) == seq![58u8] + e1 + e2 + e3);
    let s = instruction::enc_instr(i) + rest;
    lemma_instr_shape_3(58, e1, e2, e3, rest);
    assert(s[0] == 58);
    assert(s.skip(1) == e1 + e2 + e3 + rest);
    lemma_enc_termvs_3(a1, a2, a3);
    assert(instruction::enc_instr(i).len() == 1 + (e1 + e2 + e3).len());
    assert(instruction::enc_instr(i) == seq![instruction::opcode_of(i)] + wire::enc_termvs(args));
}

/// The canonical bytes of this instruction type decode back to it.
#[verifier::rlimit(100)]
proof fn lemma_instr_59(x: instruction::SelectVal, rest: Seq<u8>)
    requires
        wf_instruction(Instruction::SelectVal(x)),
    ensures
        instruction::enc_instr(Instruction::SelectVal(x)).len() >= 1,
        instruction::enc_instr(Instruction::SelectVal(x)) == seq![
            instruction::opcode_of(Instruction::SelectVal(x)),
        ] + wire::enc_termvs(instruction::args_of(Instruction::SelectVal(x))),
        instruction::dec_instr(instruction::enc_instr(Instruction::SelectVal(x)) + rest) == Ok::<
            _,
            DecodeErrorV,
        >((
            instruction::opcode_of(Instruction::SelectVal(x)),
            instruction::args_of(Instruction::SelectVal(x)),
            instruction::enc_instr(Instruction::SelectVal(x)).len(),
        )),
{
    let i = Instruction::SelectVal(x);
    let args = instruction::args_of(i);
    let a1 = x.arg@;
    let a2 = TermV::Label(x.fail_label.value as int);
    let a3 = TermV::List(x.destinations@);
    assert(args =~= seq![a1, a2, a3]);
    assert(wire::wf_termv(a1)) by {
        assert(args[0] == a1);
    }
    assert(wire::wf_termv(a2)) by {
        assert(args[1] == a2);
    }
    assert(wire::wf_termv(a3)) by {
        assert(args[2] == a3);
    }
    lemma_chain3(ArgKind::Any, ArgKind::Lbl, ArgKind::Lst, a1, a2, a3, rest);
    let e1 = wire::enc_termv(a1);
    let e2 = wire::enc_termv(a2);
    let e3 = wire::enc_termv(a3);
    assert(instruction::enc_instr(i) == seq![59u8] + e1 + e2 + e3);
    let s = instruction::enc_instr(i) + rest;
    lemma_instr_shape_3(59, e1, e2, e3, rest);
    assert(s[0] == 59);
    assert(s.skip(1) == e1 + e2 + e3 + rest);
    lemma_enc_termvs_3(a1, a2, a3);
    assert(instruction::enc_instr(i).len() == 1 + (e1 + e2 + e3).len());
    assert(instruction::enc_instr(i) == seq![instruction::opcode_of(i)] + wire::enc_termvs(args));
}

/// The canonical bytes of this instruction type decode back to it.
#[verifier::rlimit(100)]
proof fn lemma_instr_60(x: instruction::SelectTupleArity, rest: Seq<u8>)
    requires
        wf_instruction(Instruction::SelectTupleArity(x)),
    ensures
        instruction::enc_instr(Instruction::SelectTupleArity(x)).len() >= 1,
        instruction::enc_instr(Instruction::SelectTupleArity(x)) == seq![
            instruction::opcode_of(Instruction::SelectTupleArity(x)),
        ] + wire::enc_termvs(instruction::args_of(Instruction::SelectTupleArity(x))),
        instruction::dec_instr(instruction::enc_instr(Instruction::SelectTupleArity(x)) + rest) == Ok::<
            _,
            DecodeErrorV,
        >((
            instruction::opcode_of(Instruction::SelectTupleArity(x)),
            instruction::args_of(Instruction::SelectTupleArity(x)),
            instruction::enc_instr(Instruction::SelectTupleArity(x)).len(),
        )),
{
    let i = Instruction::SelectTupleArity(x);
    let args = instruction::args_of(i);
    let a1 = x.arg1@;
    let a2 = x.arg2@;
    let a3 = x.arg3@;
    assert(args =~= seq![a1, a2, a3]);
    assert(wire::wf_termv(a1)) by {
        assert(args[0] == a1);
    }
    assert(wire::wf_termv(a2)) by {
        assert(args[1] == a2);
    }
    assert(wire::wf_termv(a3)) by {
        assert(args[2] == a3);
    }
    lemma_chain3(ArgKind::Any, ArgKind::Any, ArgKind::Any, a1, a2, a3, rest);
    let e1 = wire::enc_termv(a1);
    let e2 = wire::enc_termv(a2);
    let e3 = wire::enc_termv(a3);
    assert(instruction::enc_instr(i) == seq![60u8] + e1 + e2 + e3);
    let s = instruction::enc_instr(i) + rest;
    lemma_instr_shape_3(60, e1, e2, e3, rest);
    assert(s[0] == 60);
    assert(s.skip(1) == e1 + e2 + e3 + rest);
    lemma_enc_termvs_3(a1, a2, a3);
    assert(instruction::enc_instr(i).len() == 1 + (e1 + e2 + e3).len());
    assert(instruction::enc_instr(i) == seq![instruction::opcode_of(i)] + wire::enc_termvs(args));
}

/// The canonical bytes of this instruction type decode back to it.
#[verifier::rlimit(100)]
proof fn lemma_instr_61(x: instruction::Jump, rest: Seq<u8>)
    requires
        wf_instruction(Instruction::Jump(x)),
    ensures
        instruction::enc_instr(Instruction::Jump(x)).len() >= 1,
        instruction::enc_instr(Instruction::Jump(x)) == seq![
            instruction::opcode_of(Instruction::Jump(x)),
        ] + wire::enc_termvs(instruction::args_of(Instruction::Jump(x))),
        instruction::dec_instr(instruction::enc_instr(Instruction::Jump(x)) + rest) == Ok::<
            _,
            DecodeErrorV,
        >((
            instruction::opcode_of(Instruction::Jump(x)),
            instruction::args_of(Instruction::Jump(x)),
            instruction::enc_instr(Instruction::Jump(x)).len(),
        )),
{
    let i = Instruction::Jump(x);
    let args = instruction::args_of(i);
    let a1 = TermV::Label(x.label.value as int);
    assert(args =~= seq![a1]);
    assert(wire::wf_termv(a1)) by {
        assert(args[0] == a1);
    }
    lemma_chain1(ArgKind::Lbl, a1, rest);
    let e1 = wire::enc_termv(a1);
    assert(instruction::enc_instr(i) == seq![61u8] + e1);
    let s = instruction::enc_instr(i) + rest;
    lemma_instr_shape_1(61, e1, rest);
    assert(s[0] == 61);
    assert(s.skip(1) == e1 + rest);
    lemma_enc_termvs_1(a1);
    assert(instruction::enc_instr(i).len() == 1 + (e1).len());
    assert(instruction::enc_instr(i) == seq![instruction::opcode_of(i)] + wire::enc_termvs(args));
}

/// The canonical bytes of this instruction type decode back to it.
#[verifier::rlimit(100)]
proof fn lemma_instr_62(x: instruction::Catch, rest: Seq<u8>)
    requires
        wf_instruction(Instruction::Catch(x)),
    ensures
        instruction::enc_instr(Instruction::Catch(x)).len() >= 1,
        instruction::enc_instr(Instruction::Catch(x)) == seq![
            instruction::opcode_of(Instruction::Catch(x)),
        ] + wire::enc_termvs(instruction::args_of(Instruction::Catch(x))),
        instruction::dec_instr(instruction::enc_instr(Instruction::Catch(x)) + rest) == Ok::<
            _,
            DecodeErrorV,
        >((
            instruction::opcode_of(Instruction::Catch(x)),
            instruction::args_of(Instruction::Catch(x)),
            instruction::enc_instr(Instruction::Catch(x)).len(),
        )),
{
    let i = Instruction::Catch(x);
    let args = instruction::args_of(i);
    let a1 = x.arg1@;
    let a2 = x.arg2@;
    assert(args =~= seq![a1, a2]);
    assert(wire::wf_termv(a1)) by {
        assert(args[0] == a1);
    }
    assert(wire::wf_termv(a2)) by {
        assert(args[1] == a2);
    }
    lemma_chain2(ArgKind::Any, ArgKind::Any, a1, a2, rest);
    let e1 = wire::enc_termv(a1);
    let e2 = wire::enc_termv(a2);
    assert(instruction::enc_instr(i) == seq![62u8] + e1 + e2);
    let s = instruction::enc_instr(i) + rest;
    lemma_instr_shape_2(62, e1, e2, rest);
    assert(s[0] == 62);
    assert(s.skip(1) == e1 + e2 + rest);
    lemma_enc_termvs_2(a1, a2);
    assert(instruction::enc_instr(i).len() == 1 + (e1 + e2).len());
    assert(instruction::enc_instr(i) == seq![instruction::opcode_of(i)] + wire::enc_termvs(args));
}

/// The canonical bytes of this instruction type decode back to it.
#[verifier::rlimit(100)]
proof fn lemma_instr_63(x: instruction::CatchEnd, rest: Seq<u8>)
    requires
        wf_instruction(Instruction::CatchEnd(x)),
    ensures
        instruction::enc_instr(Instruction::CatchEnd(x)).len() >= 1,
        instruction::enc_instr(Instruction::CatchEnd(x)) == seq![
            instruction::opcode_of(Instruction::CatchEnd(x)),
        ] + wire::enc_termvs(instruction::args_of(Instruction::CatchEnd(x))),
        instruction::dec_instr(instruction::enc_instr(Instruction::CatchEnd(x)) + rest) == Ok::<
            _,
            DecodeErrorV,
        >((
            instruction::opcode_of(Instruction::CatchEnd(x)),
            instruction::args_of(Instruction::CatchEnd(x)),
            instruction::enc_instr(Instruction::CatchEnd(x)).len(),
        )),
{
    let i = Instruction::CatchEnd(x);
    let args = instruction::args_of(i);
    let a1 = x.arg1@;
    assert(args =~= seq![a1]);
    assert(wire::wf_termv(a1)) by {
        assert(args[0] == a1);
    }
    lemma_chain1(ArgKind::Any, a1, rest);
    let e1 = wire::enc_termv(a1);
    assert(instruction::enc_instr(i) == seq![63u8] + e1);
    let s = instruction::enc_instr(i) + rest;
    lemma_instr_shape_1(63, e1, rest);
    assert(s[0] == 63);
    assert(s.skip(1) == e1 + rest);
    lemma_enc_termvs_1(a1);
    assert(instruction::enc_instr(i).len() == 1 + (e1).len());
    assert(instruction::enc_instr(i) == seq![instruction::opcode_of(i)] + wire::enc_termvs(args));
}

/// The canonical bytes of this instruction type decode back to it.
#[verifier::rlimit(100)]
proof fn lemma_instr_64(x: instruction::Move, rest: Seq<u8>)
    requires
        wf_instruction(Instruction::Move(x)),
    ensures
        instruction::enc_instr(Instruction::Move(x)).len() >= 1,
        instruction::enc_instr(Instruction::Move(x)) == seq![
            instruction::opcode_of(Instruction::Move(x)),
        ] + wire::enc_termvs(instruction::args_of(Instruction::Move(x))),
        instruction::dec_instr(instruction::enc_instr(Instruction::Move(x)) + rest) == Ok::<
            _,
            DecodeErrorV,
        >((
            instruction::opcode_of(Instruction::Move(x)),
            instruction::args_of(Instruction::Move(x)),
            instruction::enc_instr(Instruction::Move(x)).len(),
        )),
{
    let i = Instruction::Move(x);
    let args = instruction::args_of(i);
    let a1 = x.src@;
    let a2 = x.dst@;
    assert(args =~= seq![a1, a2]);
    assert(wire::wf_termv(a1)) by {
        assert(args[0] == a1);
    }
    assert(wire::wf_termv(a2)) by {
        assert(args[1] == a2);
    }
    lemma_chain2(ArgKind::Any, ArgKind::Reg, a1, a2, rest);
    let e1 = wire::enc_termv(a1);
    let e2 = wire::enc_termv(a2);
    assert(instruction::enc_instr(i) == seq![64u8] + e1 + e2);
    let s = instruction::enc_instr(i) + rest;
    lemma_instr_shape_2(64, e1, e2, rest);
    assert(s[0] == 64);
    assert(s.skip(1) == e1 + e2 + rest);
    lemma_enc_termvs_2(a1, a2);
    assert(instruction::enc_instr(i).len() == 1 + (e1 + e2).len());
    assert(instruction::enc_instr(i) == seq![instruction::opcode_of(i)] + wire::enc_termvs(args));
}

/// The canonical bytes of this instruction type decode back to it.
#[verifier::rlimit(100)]
proof fn lemma_instr_65(x: instruction::GetList, rest: Seq<u8>)
    requires
        wf_instruction(Instruction::GetList(x)),
    ensures
        instruction::enc_instr(Instruction::GetList(x)).len() >= 1,
        instruction::enc_instr(Instruction::GetList(x)) == seq![
            instruction::opcode_of(Instruction::GetList(x)),
        ] + wire::enc_termvs(instruction::args_of(Instruction::GetList(x))),
        instruction::dec_instr(instruction::enc_instr(Instruction::GetList(x)) + rest) == Ok::<
            _,
            DecodeErrorV,
        >((
            instruction::opcode_of(Instruction::GetList(x)),
            instruction::args_of(Instruction::GetList(x)),
            instruction::enc_instr(Instruction::GetList(x)).len(),
        )),
{
    let i = Instruction::GetList(x);
    let args = instruction::args_of(i);
    let a1 = x.source@;
    let a2 = x.head@;
    let a3 = x.tail@;
    assert(args =~= seq![a1, a2, a3]);
    assert(wire::wf_termv(a1)) by {
        assert(args[0] == a1);
    }
    assert(wire::wf_termv(a2)) by {
        assert(args[1] == a2);
    }
    assert(wire::wf_termv(a3)) by {
        assert(args[2] == a3);
    }
    lemma_chain3(ArgKind::Any, ArgKind::Reg, ArgKind::Reg, a1, a2, a3, rest);
    let e1 = wire::enc_termv(a1);
    let e2 = wire::enc_termv(a2);
    let e3 = wire::enc_termv(a3);
    assert(instruction::enc_instr(i) == seq![65u8] + e1 + e2 + e3);
    let s = instruction::enc_instr(i) + rest;
    lemma_instr_shape_3(65, e1, e2, e3, rest);
    assert(s[0] == 65);
    assert(s.skip(1) == e1 + e2 + e3 + rest);
    lemma_enc_termvs_3(a1, a2, a3);
    assert(instruction::enc_instr(i).len() == 1 + (e1 + e2 + e3).len());
    assert(instruction::enc_instr(i) == seq![instruction::opcode_of(i)] + wire::enc_termvs(args));
}

/// The canonical bytes of this instruction type decode back to it.
#[verifier::rlimit(100)]
proof fn lemma_instr_66(x: instruction::GetTupleElement, rest: Seq<u8>)
    requires
        wf_instruction(Instruction::GetTupleElement(x)),
    ensures
        instruction::enc_instr(Instruction::GetTupleElement(x)).len() >= 1,
        instruction::enc_instr(Instruction::GetTupleElement(x)) == seq![
            instruction::opcode_of(Instruction::GetTupleElement(x)),
        ] + wire::enc_termvs(instruction::args_of(Instruction::GetTupleElement(x))),
        instruction::dec_instr(instruction::enc_instr(Instruction::GetTupleElement(x)) + rest) == Ok::<
            _,
            DecodeErrorV,
        >((
            instruction::opcode_of(Instruction::GetTupleElement(x)),
            instruction::args_of(Instruction::GetTupleElement(x)),
            instruction::enc_instr(Instruction::GetTupleElement(x)).len(),
        )),
{
    let i = Instruction::GetTupleElement(x);
    let args = instruction::args_of(i);
    let a1 = x.source@;
    let a2 = TermV::Usize(x.element as int);
    let a3 = x.destination@;
    assert(args =~= seq![a1, a2, a3]);
    assert(wire::wf_termv(a1)) by {
        assert(args[0] == a1);
    }
    assert(wire::wf_termv(a2)) by {
        assert(args[1] == a2);
    }
    assert(wire::wf_termv(a3)) by {
        assert(args[2] == a3);
    }
    lemma_chain3(ArgKind::Reg, ArgKind::U, ArgKind::Reg, a1, a2, a3, rest);
    let e1 = wire::enc_termv(a1);
    let e2 = wire::enc_termv(a2);
    let e3 = wire::enc_termv(a3);
    assert(instruction::enc_instr(i) == seq![66u8] + e1 + e2 + e3);
    let s = instruction::enc_instr(i) + rest;
    lemma_instr_shape_3(66, e1, e2, e3, rest);
    assert(s[0] == 66);
    assert(s.skip(1) == e1 + e2 + e3 + rest);
    lemma_enc_termvs_3(a1, a2, a3);
    assert(instruction::enc_instr(i).len() == 1 + (e1 + e2 + e3).len());
    assert(instruction::enc_instr(i) == seq![instruction::opcode_of(i)] + wire::enc_termvs(args));
}

/// The canonical bytes of this instruction type decode back to it.
#[verifier::rlimit(100)]
proof fn lemma_instr_67(x: instruction::SetTupleElement, rest: Seq<u8>)
    requires
        wf_instruction(Instruction::SetTupleElement(x)),
    ensures
        instruction::enc_instr(Instruction::SetTupleElement(x)).len() >= 1,
        instruction::enc_instr(Instruction::SetTupleElement(x)) == seq![
            instruction::opcode_of(Instruction::SetTupleElement(x)),
        ] + wire::enc_termvs(instruction::args_of(Instruction::SetTupleElement(x))),
        instruction::dec_instr(instruction::enc_instr(Instruction::SetTupleElement(x)) + rest) == Ok::<
            _,
            DecodeErrorV,
        >((
            instruction::opcode_of(Instruction::SetTupleElement(x)),
            instruction::args_of(Instruction::SetTupleElement(x)),
            instruction::enc_instr(Instruction::SetTupleElement(x)).len(),
        )),
{
    let i = Instruction::SetTupleElement(x);
    let args = instruction::args_of(i);
    let a1 = x.arg1@;
    let a2 = x.arg2@;
    let a3 = x.arg3@;
    assert(args =~= seq![a1, a2, a3]);
    assert(wire::wf_termv(a1)) by {
        assert(args[0] == a1);
    }
    assert(wire::wf_termv(a2)) by {
        assert(args[1] == a2);
    }
    assert(wire::wf_termv(a3)) by {
        assert(args[2] == a3);
    }
    lemma_chain3(ArgKind::Any, ArgKind::Any, ArgKind::Any, a1, a2, a3, rest);
    let e1 = wire::enc_termv(a1);
    let e2 = wire::enc_termv(a2);
    let e3 = wire::enc_termv(a3);
    assert(instruction::enc_instr(i) == seq![67u8] + e1 + e2 + e3);
    let s = instruction::enc_instr(i) + rest;
    lemma_instr_shape_3(67, e1, e2, e3, rest);
    assert(s[0] == 67);
    assert(s.skip(1) == e1 + e2 + e3 + rest);
    lemma_enc_termvs_3(a1, a2, a3);
    assert(instruction::enc_instr(i).len() == 1 + (e1 + e2 + e3).len());
    assert(instruction::enc_instr(i) == seq![instruction::opcode_of(i)] + wire::enc_termvs(args));
}

/// The canonical bytes of this instruction type decode back to it.
#[verifier::rlimit(100)]
proof fn lemma_instr_68(x: instruction::PutString, rest: Seq<u8>)
    requires
        wf_instruction(Instruction::PutString(x)),
    ensures
        instruction::enc_instr(Instruction::PutString(x)).len() >= 1,
        instruction::enc_instr(Instruction::PutString(x)) == seq![
            instruction::opcode_of(Instruction::PutString(x)),
        ] + wire::enc_termvs(instruction::args_of(Instruction::PutString(x))),
        instruction::dec_instr(instruction::enc_instr(Instruction::PutString(x)) + rest) == Ok::<
            _,
            DecodeErrorV,
        >((
            instruction::opcode_of(Instruction::PutString(x)),
            instruction::args_of(Instruction::PutString(x)),
            instruction::enc_instr(Instruction::PutString(x)).len(),
        )),
{
    let i = Instruction::PutString(x);
    let args = instruction::args_of(i);
    let a1 = x.arg1@;
    let a2 = x.arg2@;
    let a3 = x.arg3@;
    assert(args =~= seq![a1, a2, a3]);
    assert(wire::wf_termv(a1)) by {
        assert(args[0] == a1);
    }
    assert(wire::wf_termv(a2)) by {
        assert(args[1] == a2);
    }
    assert(wire::wf_termv(a3)) by {
        assert(args[2] == a3);
    }
    lemma_chain3(ArgKind::Any, ArgKind::Any, ArgKind::Any, a1, a2, a3, rest);
    let e1 = wire::enc_termv(a1);
    let e2 = wire::enc_termv(a2);
    let e3 = wire::enc_termv(a3);
    assert(instruction::enc_instr(i) == seq![68u8] + e1 + e2 + e3);
    let s = instruction::enc_instr(i) + rest;
    lemma_instr_shape_3(68, e1, e2, e3, rest);
    assert(s[0] == 68);
    assert(s.skip(1) == e1 + e2 + e3 + rest);
    lemma_enc_termvs_3(a1, a2, a3);
    assert(instruction::enc_instr(i).len() == 1 + (e1 + e2 + e3).len());
    assert(instruction::enc_instr(i) == seq![instruction::opcode_of(i)] + wire::enc_termvs(args));
}

/// The canonical bytes of this instruction type decode back to it.
#[verifier::rlimit(100)]
proof fn lemma_instr_69(x: instruction::PutList, rest: Seq<u8>)
    requires
        wf_instruction(Instruction::PutList(x)),
    ensures
        instruction::enc_instr(Instruction::PutList(x)).len() >= 1,
        instruction::enc_instr(Instruction::PutList(x)) == seq![
            instruction::opcode_of(Instruction::PutList(x)),
        ] + wire::enc_termvs(instruction::args_of(Instruction::PutList(x))),
        instruction::dec_instr(instruction::enc_instr(Instruction::PutList(x)) + rest) == Ok::<
            _,
            DecodeErrorV,
        >((
            instruction::opcode_of(Instruction::PutList(x)),
            instruction::args_of(Instruction::PutList(x)),
            instruction::enc_instr(Instruction::PutList(x)).len(),
        )),
{
    let i = Instruction::PutList(x);
    let args = instruction::args_of(i);
    let a1 = x.head@;
    let a2 = x.tail@;
    let a3 = x.destination@;
    assert(args =~= seq![a1, a2, a3]);
    assert(wire::wf_termv(a1)) by {
        assert(args[0] == a1);
    }
    assert(wire::wf_termv(a2)) by {
        assert(args[1] == a2);
    }
    assert(wire::wf_termv(a3)) by {
        assert(args[2] == a3);
    }
    lemma_chain3(ArgKind::Any, ArgKind::Any, ArgKind::Reg, a1, a2, a3, rest);
    let e1 = wire::enc_termv(a1);
    let e2 = wire::enc_termv(a2);
    let e3 = wire::enc_termv(a3);
    assert(instruction::enc_instr(i) == seq![69u8] + e1 + e2 + e3);
    let s = instruction::enc_instr(i) + rest;
    lemma_instr_shape_3(69, e1, e2, e3, rest);
    assert(s[0] == 69);
    assert(s.skip(1) == e1 + e2 + e3 + rest);
    lemma_enc_termvs_3(a1, a2, a3);
    assert(instruction::enc_instr(i).len() == 1 + (e1 + e2 + e3).len());
    assert(instruction::enc_instr(i) == seq![instruction::opcode_of(i)] + wire::enc_termvs(args));
}

/// The canonical bytes of this instruction type decode back to it.
#[verifier::rlimit(100)]
proof fn lemma_instr_70(x: instruction::PutTuple, rest: Seq<u8>)
    requires
        wf_instruction(Instruction::PutTuple(x)),
    ensures
        instruction::enc_instr(Instruction::PutTuple(x)).len() >= 1,
        instruction::enc_instr(Instruction::PutTuple(x)) == seq![
            instruction::opcode_of(Instruction::PutTuple(x)),
        ] + wire::enc_termvs(instruction::args_of(Instruction::PutTuple(x))),
        instruction::dec_instr(instruction::enc_instr(Instruction::PutTuple(x)) + rest) == Ok::<
            _,
            DecodeErrorV,
        >((
            instruction::opcode_of(Instruction::PutTuple(x)),
            instruction::args_of(Instruction::PutTuple(x)),
            instruction::enc_instr(Instruction::PutTuple(x)).len(),
        )),
{
    let i = Instruction::PutTuple(x);
    let args = instruction::args_of(i);
    let a1 = x.arg1@;
    let a2 = x.arg2@;
    assert(args =~= seq![a1, a2]);
    assert(wire::wf_termv(a1)) by {
        assert(args[0] == a1);
    }
    assert(wire::wf_termv(a2)) by {
        assert(args[1] == a2);
    }
    lemma_chain2(ArgKind::Any, ArgKind::Any, a1, a2, rest);
    let e1 = wire::enc_termv(a1);
    let e2 = wire::enc_termv(a2);
    assert(instruction::enc_instr(i) == seq![70u8] + e1 + e2);
    let s = instruction::enc_instr(i) + rest;
    lemma_instr_shape_2(70, e1, e2, rest);
    assert(s[0] == 70);
    assert(s.skip(1) == e1 + e2 + rest);
    lemma_enc_termvs_2(a1, a2);
    assert(instruction::enc_instr(i).len() == 1 + (e1 + e2).len());
    assert(instruction::enc_instr(i) == seq![instruction::opcode_of(i)] + wire::enc_termvs(args));
}

/// The canonical bytes of this instruction type decode back to it.
#[verifier::rlimit(100)]
proof fn lemma_instr_71(x: instruction::Put, rest: Seq<u8>)
    requires
        wf_instruction(Instruction::Put(x)),
    ensures
        instruction::enc_instr(Instruction::Put(x)).len() >= 1,
        instruction::enc_instr(Instruction::Put(x)) == seq![
            instruction::opcode_of(Instruction::Put(x)),
        ] + wire::enc_termvs(instruction::args_of(Instruction::Put(x))),
        instruction::dec_instr(instruction::enc_instr(Instruction::Put(x)) + rest) == Ok::<
            _,
            DecodeErrorV,
        >((
            instruction::opcode_of(Instruction::Put(x)),
            instruction::args_of(Instruction::Put(x)),
            instruction::enc_instr(Instruction::Put(x)).len(),
        )),
{
    let i = Instruction::Put(x);
    let args = instruction::args_of(i);
    let a1 = x.arg1@;
    assert(args =~= seq![a1]);
    assert(wire::wf_termv(a1)) by {
        assert(args[0] == a1);
    }
    lemma_chain1(ArgKind::Any, a1, rest);
    let e1 = wire::enc_termv(a1);
    assert(instruction::enc_instr(i) == seq![71u8] + e1);
    let s = instruction::enc_instr(i) + rest;
    lemma_instr_shape_1(71, e1, rest);
    assert(s[0] == 71);
    assert(s.skip(1) == e1 + rest);
    lemma_enc_termvs_1(a1);
    assert(instruction::enc_instr(i).len() == 1 + (e1).len());
    assert(instruction::enc_instr(i) == seq![instruction::opcode_of(i)] + wire::enc_termvs(args));
}

/// The canonical bytes of this instruction type decode back to it.
#[verifier::rlimit(100)]
proof fn lemma_instr_72(x: instruction::Badmatch, rest: Seq<u8>)
    requires
        wf_instruction(Instruction::Badmatch(x)),
    ensures
        instruction::enc_instr(Instruction::Badmatch(x)).len() >= 1,
        instruction::enc_instr(Instruction::Badmatch(x)) == seq![
            instruction::opcode_of(Instruction::Badmatch(x)),
        ] + wire::enc_termvs(instruction::args_of(Instruction::Badmatch(x))),
        instruction::dec_instr(instruction::enc_instr(Instruction::Badmatch(x)) + rest) == Ok::<
            _,
            DecodeErrorV,
        >((
            instruction::opcode_of(Instruction::Badmatch(x)),
            instruction::args_of(Instruction::Badmatch(x)),
            instruction::enc_instr(Instruction::Badmatch(x)).len(),
        )),
{
    let i = Instruction::Badmatch(x);
    let args = instruction::args_of(i);
    let a1 = x.arg1@;
    assert(args =~= seq![a1]);
    assert(wire::wf_termv(a1)) by {
        assert(args[0] == a1);
    }
    lemma_chain1(ArgKind::Any, a1, rest);
    let e1 = wire::enc_termv(a1);
    assert(instruction::enc_instr(i) == seq![72u8] + e1);
    let s = instruction::enc_instr(i) + rest;
    lemma_instr_shape_1(72, e1, rest);
    assert(s[0] == 72);
    assert(s.skip(1) == e1 + rest);
    lemma_enc_termvs_1(a1);
    assert(instruction::enc_instr(i).len() == 1 + (e1).len());
    assert(instruction::enc_instr(i) == seq![instruction::opcode_of(i)] + wire::enc_termvs(args));
}

/// The canonical bytes of this instruction type decode back to it.
#[verifier::rlimit(100)]
proof fn lemma_instr_73(x: instruction::IfEnd, rest: Seq<u8>)
    requires
        wf_instruction(Instruction::IfEnd(x)),
    ensures
        instruction::enc_instr(Instruction::IfEnd(x)).len() >= 1,
        instruction::enc_instr(Instruction::IfEnd(x)) == seq![
            instruction::opcode_of(Instruction::IfEnd(x)),
        ] + wire::enc_termvs(instruction::args_of(Instruction::IfEnd(x))),
        instruction::dec_instr(instruction::enc_instr(Instruction::IfEnd(x)) + rest) == Ok::<
            _,
            DecodeErrorV,
        >((
            instruction::opcode_of(Instruction::IfEnd(x)),
            instruction::args_of(Instruction::IfEnd(x)),
            instruction::enc_instr(Instruction::IfEnd(x)).len(),
        )),
{
    let i = Instruction::IfEnd(x);
    let args = instruction::args_of(i);
    assert(args =~= Seq::<TermV>::empty());
    assert(instruction::enc_instr(i) == seq![73u8]);
    let s = instruction::enc_instr(i) + rest;
    lemma_instr_shape_0(73, rest);
    assert(s[0] == 73);
    assert(s.skip(1) == rest);
    lemma_enc_termvs_0();
    assert(seq![73u8] + Seq::<u8>::empty() =~= seq![73u8]);
    assert(instruction::enc_instr(i) == seq![instruction::opcode_of(i)] + wire::enc_termvs(args));
}

/// The canonical bytes of this instruction type decode back to it.
#[verifier::rlimit(100)]
proof fn lemma_instr_74(x: instruction::CaseEnd, rest: Seq<u8>)
    requires
        wf_instruction(Instruction::CaseEnd(x)),
    ensures
        instruction::enc_instr(Instruction::CaseEnd(x)).len() >= 1,
        instruction::enc_instr(Instruction::CaseEnd(x)) == seq![
            instruction::opcode_of(Instruction::CaseEnd(x)),
        ] + wire::enc_termvs(instruction::args_of(Instruction::CaseEnd(x))),
        instruction::dec_instr(instruction::enc_instr(Instruction::CaseEnd(x)) + rest) == Ok::<
            _,
            DecodeErrorV,
        >((
            instruction::opcode_of(Instruction::CaseEnd(x)),
            instruction::args_of(Instruction::CaseEnd(x)),
            instruction::enc_instr(Instruction::CaseEnd(x)).len(),
        )),
{
    let i = Instruction::CaseEnd(x);
    let args = instruction::args_of(i);
    let a1 = x.arg1@;
    assert(args =~= seq![a1]);
    assert(wire::wf_termv(a1)) by {
        assert(args[0] == a1);
    }
    lemma_chain1(ArgKind::Any, a1, rest);
    let e1 = wire::enc_termv(a1);
    assert(instruction::enc_instr(i) == seq![74u8] + e1);
    let s = instruction::enc_instr(i) + rest;
    lemma_instr_shape_1(74, e1, rest);
    assert(s[0] == 74);
    assert(s.skip(1) == e1 + rest);
    lemma_enc_termvs_1(a1);
    assert(instruction::enc_instr(i).len() == 1 + (e1).len());
    assert(instruction::enc_instr(i) == seq![instruction::opcode_of(i)] + wire::enc_termvs(args));
}

/// The canonical bytes of this instruction type decode back to it.
#[verifier::rlimit(100)]
proof fn lemma_instr_75(x: instruction::CallFun, rest: Seq<u8>)
    requires
        wf_instruction(Instruction::CallFun(x)),
    ensures
        instruction::enc_instr(Instruction::CallFun(x)).len() >= 1,
        instruction::enc_instr(Instruction::CallFun(x)) == seq![
            instruction::opcode_of(Instruction::CallFun(x)),
        ] + wire::enc_termvs(instruction::args_of(Instruction::CallFun(x))),
        instruction::dec_instr(instruction::enc_instr(Instruction::CallFun(x)) + rest) == Ok::<
            _,
            DecodeErrorV,
        >((
            instruction::opcode_of(Instruction::CallFun(x)),
            instruction::args_of(Instruction::CallFun(x)),
            instruction::enc_instr(Instruction::CallFun(x)).len(),
        )),
{
    let i = Instruction::CallFun(x);
    let args = instruction::args_of(i);
    let a1 = x.arg1@;
    assert(args =~= seq![a1]);
    assert(wire::wf_termv(a1)) by {
        assert(args[0] == a1);
    }
    lemma_chain1(ArgKind::Any, a1, rest);
    let e1 = wire::enc_termv(a1);
    assert(instruction::enc_instr(i) == seq![75u8] + e1);
    let s = instruction::enc_instr(i) + rest;
    lemma_instr_shape_1(75, e1, rest);
    assert(s[0] == 75);
    assert(s.skip(1) == e1 + rest);
    lemma_enc_termvs_1(a1);
    assert(instruction::enc_instr(i).len() == 1 + (e1).len());
    assert(instruction::enc_instr(i) == seq![instruction::opcode_of(i)] + wire::enc_termvs(args));
}

/// The canonical bytes of this instruction type decode back to it.
#[verifier::rlimit(100)]
proof fn lemma_instr_76(x: instruction::MakeFun, rest: Seq<u8>)
    requires
        wf_instruction(Instruction::MakeFun(x)),
    ensures
        instruction::enc_instr(Instruction::MakeFun(x)).len() >= 1,
        instruction::enc_instr(Instruction::MakeFun(x)) == seq![
            instruction::opcode_of(Instruction::MakeFun(x)),
        ] + wire::enc_termvs(instruction::args_of(Instruction::MakeFun(x))),
        instruction::dec_instr(instruction::enc_instr(Instruction::MakeFun(x)) + rest) == Ok::<
            _,
            DecodeErrorV,
        >((
            instruction::opcode_of(Instruction::MakeFun(x)),
            instruction::args_of(Instruction::MakeFun(x)),
            instruction::enc_instr(Instruction::MakeFun(x)).len(),
        )),
{
    let i = Instruction::MakeFun(x);
    let args = instruction::args_of(i);
    let a1 = x.arg1@;
    let a2 = x.arg2@;
    let a3 = x.arg3@;
    assert(args =~= seq![a1, a2, a3]);
    assert(wire::wf_termv(a1)) by {
        assert(args[0] == a1);
    }
    assert(wire::wf_termv(a2)) by {
        assert(args[1] == a2);
    }
    assert(wire::wf_termv(a3)) by {
        assert(args[2] == a3);
    }
    lemma_chain3(ArgKind::Any, ArgKind::Any, ArgKind::Any, a1, a2, a3, rest);
    let e1 = wire::enc_termv(a1);
    let e2 = wire::enc_termv(a2);
    let e3 = wire::enc_termv(a3);
    assert(instruction::enc_instr(i) == seq![76u8] + e1 + e2 + e3);
    let s = instruction::enc_instr(i) + rest;
    lemma_instr_shape_3(76, e1, e2, e3, rest);
    assert(s[0] == 76);
    assert(s.skip(1) == e1 + e2 + e3 + rest);
    lemma_enc_termvs_3(a1, a2, a3);
    assert(instruction::enc_instr(i).len() == 1 + (e1 + e2 + e3).len());
    assert(instruction::enc_instr(i) == seq![instruction::opcode_of(i)] + wire::enc_termvs(args));
}

/// The canonical bytes of this instruction type decode back to it.
#[verifier::rlimit(100)]
proof fn lemma_instr_77(x: instruction::IsFunction, rest: Seq<u8>)
    requires
        wf_instruction(Instruction::IsFunction(x)),
    ensures
        instruction::enc_instr(Instruction::IsFunction(x)).len() >= 1,
        instruction::enc_instr(Instruction::IsFunction(x)) == seq![
            instruction::opcode_of(Instruction::IsFunction(x)),
        ] + wire::enc_termvs(instruction::args_of(Instruction::IsFunction(x))),
        instruction::dec_instr(instruction::enc_instr(Instruction::IsFunction(x)) + rest) == Ok::<
            _,
            DecodeErrorV,
        >((
            instruction::opcode_of(Instruction::IsFunction(x)),
            instruction::args_of(Instruction::IsFunction(x)),
            instruction::enc_instr(Instruction::IsFunction(x)).len(),
        )),
{
    let i = Instruction::IsFunction(x);
    let args = instruction::args_of(i);
    let a1 = x.arg1@;
    let a2 = x.arg2@;
    assert(args =~= seq![a1, a2]);
    assert(wire::wf_termv(a1)) by {
        assert(args[0] == a1);
    }
    assert(wire::wf_termv(a2)) by {
        assert(args[1] == a2);
    }
    lemma_chain2(ArgKind::Any, ArgKind::Any, a1, a2, rest);
    let e1 = wire::enc_termv(a1);
    let e2 = wire::enc_termv(a2);
    assert(instruction::enc_instr(i) == seq![77u8] + e1 + e2);
    let s = instruction::enc_instr(i) + rest;
    lemma_instr_shape_2(77, e1, e2, rest);
    assert(s[0] == 77);
    assert(s.skip(1) == e1 + e2 + rest);
    lemma_enc_termvs_2(a1, a2);
    assert(instruction::enc_instr(i).len() == 1 + (e1 + e2).len());
    assert(instruction::enc_instr(i) == seq![instruction::opcode_of(i)] + wire::enc_termvs(args));
}

/// The canonical bytes of this instruction type decode back to it.
#[verifier::rlimit(100)]
proof fn lemma_instr_78(x: instruction::CallExtOnly, rest: Seq<u8>)
    requires
        wf_instruction(Instruction::CallExtOnly(x)),
    ensures
        instruction::enc_instr(Instruction::CallExtOnly(x)).len() >= 1,
        instruction::enc_instr(Instruction::CallExtOnly(x)) == seq![
            instruction::opcode_of(Instruction::CallExtOnly(x)),
        ] + wire::enc_termvs(instruction::args_of(Instruction::CallExtOnly(x))),
        instruction::dec_instr(instruction::enc_instr(Instruction::CallExtOnly(x)) + rest) == Ok::<
            _,
            DecodeErrorV,
        >((
            instruction::opcode_of(Instruction::CallExtOnly(x)),
            instruction::args_of(Instruction::CallExtOnly(x)),
            instruction::enc_instr(Instruction::CallExtOnly(x)).len(),
        )),
{
    let i = Instruction::CallExtOnly(x);
    let args = instruction::args_of(i);
    let a1 = TermV::Usize(x.arity as int);
    let a2 = TermV::Usize(x.destination as int);
    assert(args =~= seq![a1, a2]);
    assert(wire::wf_termv(a1)) by {
        assert(args[0] == a1);
    }
    assert(wire::wf_termv(a2)) by {
        assert(args[1] == a2);
    }
    lemma_chain2(ArgKind::U, ArgKind::U, a1, a2, rest);
    let e1 = wire::enc_termv(a1);
    let e2 = wire::enc_termv(a2);
    assert(instruction::enc_instr(i) == seq![78u8] + e1 + e2);
    let s = instruction::enc_instr(i) + rest;
    lemma_instr_shape_2(78, e1, e2, rest);
    assert(s[0] == 78);
    assert(s.skip(1) == e1 + e2 + rest);
    lemma_enc_termvs_2(a1, a2);
    assert(instruction::enc_instr(i).len() == 1 + (e1 + e2).len());
    assert(instruction::enc_instr(i) == seq![instruction::opcode_of(i)] + wire::enc_termvs(args));
}

/// The canonical bytes of this instruction type decode back to it.
#[verifier::rlimit(100)]
proof fn lemma_instr_79(x: instruction::BsStartMatch, rest: Seq<u8>)
    requires
        wf_instruction(Instruction::BsStartMatch(x)),
    ensures
        instruction::enc_instr(Instruction::BsStartMatch(x)).len() >= 1,
        instruction::enc_instr(Instruction::BsStartMatch(x)) == seq![
            instruction::opcode_of(Instruction::BsStartMatch(x)),
        ] + wire::enc_termvs(instruction::args_of(Instruction::BsStartMatch(x))),
        instruction::dec_instr(instruction::enc_instr(Instruction::BsStartMatch(x)) + rest) == Ok::<
            _,
            DecodeErrorV,
        >((
            instruction::opcode_of(Instruction::BsStartMatch(x)),
            instruction::args_of(Instruction::BsStartMatch(x)),
            instruction::enc_instr(Instruction::BsStartMatch(x)).len(),
        )),
{
    let i = Instruction::BsStartMatch(x);
    let args = instruction::args_of(i);
    let a1 = x.arg1@;
    let a2 = x.arg2@;
    assert(args =~= seq![a1, a2]);
    assert(wire::wf_termv(a1)) by {
        assert(args[0] == a1);
    }
    assert(wire::wf_termv(a2)) by {
        assert(args[1] == a2);
    }
    lemma_chain2(ArgKind::Any, ArgKind::Any, a1, a2, rest);
    let e1 = wire::enc_termv(a1);
    let e2 = wire::enc_termv(a2);
    assert(instruction::enc_instr(i) == seq![79u8] + e1 + e2);
    let s = instruction::enc_instr(i) + rest;
    lemma_instr_shape_2(79, e1, e2, rest);
    assert(s[0] == 79);
    assert(s.skip(1) == e1 + e2 + rest);
    lemma_enc_termvs_2(a1, a2);
    assert(instruction::enc_instr(i).len() == 1 + (e1 + e2).len());
    assert(instruction::enc_instr(i) == seq![instruction::opcode_of(i)] + wire::enc_termvs(args));
}

/// The canonical bytes of this instruction type decode back to it.
#[verifier::rlimit(100)]
proof fn lemma_instr_80(x: instruction::BsGetInteger, rest: Seq<u8>)
    requires
        wf_instruction(Instruction::BsGetInteger(x)),
    ensures
        instruction::enc_instr(Instruction::BsGetInteger(x)).len() >= 1,
        instruction::enc_instr(Instruction::BsGetInteger(x)) == seq![
            instruction::opcode_of(Instruction::BsGetInteger(x)),
        ] + wire::enc_termvs(instruction::args_of(Instruction::BsGetInteger(x))),
        instruction::dec_instr(instruction::enc_instr(Instruction::BsGetInteger(x)) + rest) == Ok::<
            _,
            DecodeErrorV,
        >((
            instruction::opcode_of(Instruction::BsGetInteger(x)),
            instruction::args_of(Instruction::BsGetInteger(x)),
            instruction::enc_instr(Instruction::BsGetInteger(x)).len(),
        )),
{
    let i = Instruction::BsGetInteger(x);
    let args = instruction::args_of(i);
    let a1 = x.arg1@;
    let a2 = x.arg2@;
    let a3 = x.arg3@;
    let a4 = x.arg4@;
    let a5 = x.arg5@;
    assert(args =~= seq![a1, a2, a3, a4, a5]);
    assert(wire::wf_termv(a1)) by {
        assert(args[0] == a1);
    }
    assert(wire::wf_termv(a2)) by {
        assert(args[1] == a2);
    }
    assert(wire::wf_termv(a3)) by {
        assert(args[2] == a3);
    }
    assert(wire::wf_termv(a4)) by {
        assert(args[3] == a4);
    }
    assert(wire::wf_termv(a5)) by {
        assert(args[4] == a5);
    }
    lemma_chain5(ArgKind::Any, ArgKind::Any, ArgKind::Any, ArgKind::Any, ArgKind::Any, a1, a2, a3, a4, a5, rest);
    let e1 = wire::enc_termv(a1);
    let e2 = wire::enc_termv(a2);
    let e3 = wire::enc_termv(a3);
    let e4 = wire::enc_termv(a4);
    let e5 = wire::enc_termv(a5);
    assert(instruction::enc_instr(i) == seq![80u8] + e1 + e2 + e3 + e4 + e5);
    let s = instruction::enc_instr(i) + rest;
    lemma_instr_shape_5(80, e1, e2, e3, e4, e5, rest);
    assert(s[0] == 80);
    assert(s.skip(1) == e1 + e2 + e3 + e4 + e5 + rest);
    lemma_enc_termvs_5(a1, a2, a3, a4, a5);
    assert(instruction::enc_instr(i).len() == 1 + (e1 + e2 + e3 + e4 + e5).len());
    assert(instruction::enc_instr(i) == seq![instruction::opcode_of(i)] + wire::enc_termvs(args));
}

/// The canonical bytes of this instruction type decode back to it.
#[verifier::rlimit(100)]
proof fn lemma_instr_81(x: instruction::BsGetFloat, rest: Seq<u8>)
    requires
        wf_instruction(Instruction::BsGetFloat(x)),
    ensures
        instruction::enc_instr(Instruction::BsGetFloat(x)).len() >= 1,
        instruction::enc_instr(Instruction::BsGetFloat(x)) == seq![
            instruction::opcode_of(Instruction::BsGetFloat(x)),
        ] + wire::enc_termvs(instruction::args_of(Instruction::BsGetFloat(x))),
        instruction::dec_instr(instruction::enc_instr(Instruction::BsGetFloat(x)) + rest) == Ok::<
            _,
            DecodeErrorV,
        >((
            instruction::opcode_of(Instruction::BsGetFloat(x)),
            instruction::args_of(Instruction::BsGetFloat(x)),
            instruction::enc_instr(Instruction::BsGetFloat(x)).len(),
        )),
{
    let i = Instruction::BsGetFloat(x);
    let args = instruction::args_of(i);
    let a1 = x.arg1@;
    let a2 = x.arg2@;
    let a3 = x.arg3@;
    let a4 = x.arg4@;
    let a5 = x.arg5@;
    assert(args =~= seq![a1, a2, a3, a4, a5]);
    assert(wire::wf_termv(a1)) by {
        assert(args[0] == a1);
    }
    assert(wire::wf_termv(a2)) by {
        assert(args[1] == a2);
    }
    assert(wire::wf_termv(a3)) by {
        assert(args[2] == a3);
    }
    assert(wire::wf_termv(a4)) by {
        assert(args[3] == a4);
    }
    assert(wire::wf_termv(a5)) by {
        assert(args[4] == a5);
    }
    lemma_chain5(ArgKind::Any, ArgKind::Any, ArgKind::Any, ArgKind::Any, ArgKind::Any, a1, a2, a3, a4, a5, rest);
    let e1 = wire::enc_termv(a1);
    let e2 = wire::enc_termv(a2);
    let e3 = wire::enc_termv(a3);
    let e4 = wire::enc_termv(a4);
    let e5 = wire::enc_termv(a5);
    assert(instruction::enc_instr(i) == seq![81u8] + e1 + e2 + e3 + e4 + e5);
    let s = instruction::enc_instr(i) + rest;
    lemma_instr_shape_5(81, e1, e2, e3, e4, e5, rest);
    assert(s[0] == 81);
    assert(s.skip(1) == e1 + e2 + e3 + e4 + e5 + rest);
    lemma_enc_termvs_5(a1, a2, a3, a4, a5);
    assert(instruction::enc_instr(i).len() == 1 + (e1 + e2 + e3 + e4 + e5).len());
    assert(instruction::enc_instr(i) == seq![instruction::opcode_of(i)] + wire::enc_termvs(args));
}

/// The canonical bytes of this instruction type decode back to it.
#[verifier::rlimit(100)]
proof fn lemma_instr_82(x: instruction::BsGetBinary, rest: Seq<u8>)
    requires
        wf_instruction(Instruction::BsGetBinary(x)),
    ensures
        instruction::enc_instr(Instruction::BsGetBinary(x)).len() >= 1,
        instruction::enc_instr(Instruction::BsGetBinary(x)) == seq![
            instruction::opcode_of(Instruction::BsGetBinary(x)),
        ] + wire::enc_termvs(instruction::args_of(Instruction::BsGetBinary(x))),
        instruction::dec_instr(instruction::enc_instr(Instruction::BsGetBinary(x)) + rest) == Ok::<
            _,
            DecodeErrorV,
        >((
            instruction::opcode_of(Instruction::BsGetBinary(x)),
            instruction::args_of(Instruction::BsGetBinary(x)),
            instruction::enc_instr(Instruction::BsGetBinary(x)).len(),
        )),
{
    let i = Instruction::BsGetBinary(x);
    let args = instruction::args_of(i);
    let a1 = x.arg1@;
    let a2 = x.arg2@;
    let a3 = x.arg3@;
    let a4 = x.arg4@;
    let a5 = x.arg5@;
    assert(args =~= seq![a1, a2, a3, a4, a5]);
    assert(wire::wf_termv(a1)) by {
        assert(args[0] == a1);
    }
    assert(wire::wf_termv(a2)) by {
        assert(args[1] == a2);
    }
    assert(wire::wf_termv(a3)) by {
        assert(args[2] == a3);
    }
    assert(wire::wf_termv(a4)) by {
        assert(args[3] == a4);
    }
    assert(wire::wf_termv(a5)) by {
        assert(args[4] == a5);
    }
    lemma_chain5(ArgKind::Any, ArgKind::Any, ArgKind::Any, ArgKind::Any, ArgKind::Any, a1, a2, a3, a4, a5, rest);
    let e1 = wire::enc_termv(a1);
    let e2 = wire::enc_termv(a2);
    let e3 = wire::enc_termv(a3);
    let e4 = wire::enc_termv(a4);
    let e5 = wire::enc_termv(a5);
    assert(instruction::enc_instr(i) == seq![82u8] + e1 + e2 + e3 + e4 + e5);
    let s = instruction::enc_instr(i) + rest;
    lemma_instr_shape_5(82, e1, e2, e3, e4, e5, rest);
    assert(s[0] == 82);
    assert(s.skip(1) == e1 + e2 + e3 + e4 + e5 + rest);
    lemma_enc_termvs_5(a1, a2, a3, a4, a5);
    assert(instruction::enc_instr(i).len() == 1 + (e1 + e2 + e3 + e4 + e5).len());
    assert(instruction::enc_instr(i) == seq![instruction::opcode_of(i)] + wire::enc_termvs(args));
}

/// The canonical bytes of this instruction type decode back to it.
#[verifier::rlimit(100)]
proof fn lemma_instr_83(x: instruction::BsSkipBits, rest: Seq<u8>)
    requires
        wf_instruction(Instruction::BsSkipBits(x)),
    ensures
        instruction::enc_instr(Instruction::BsSkipBits(x)).len() >= 1,
        instruction::enc_instr(Instruction::BsSkipBits(x)) == seq![
            instruction::opcode_of(Instruction::BsSkipBits(x)),
        ] + wire::enc_termvs(instruction::args_of(Instruction::BsSkipBits(x))),
        instruction::dec_instr(instruction::enc_instr(Instruction::BsSkipBits(x)) + rest) == Ok::<
            _,
            DecodeErrorV,
        >((
            instruction::opcode_of(Instruction::BsSkipBits(x)),
            instruction::args_of(Instruction::BsSkipBits(x)),
            instruction::enc_instr(Instruction::BsSkipBits(x)).len(),
        )),
{
    let i = Instruction::BsSkipBits(x);
    let args = instruction::args_of(i);
    let a1 = x.arg1@;
    let a2 = x.arg2@;
    let a3 = x.arg3@;
    let a4 = x.arg4@;
    assert(args =~= seq![a1, a2, a3, a4]);
    assert(wire::wf_termv(a1)) by {
        assert(args[0] == a1);
    }
    assert(wire::wf_termv(a2)) by {
        assert(args[1] == a2);
    }
    assert(wire::wf_termv(a3)) by {
        assert(args[2] == a3);
    }
    assert(wire::wf_termv(a4)) by {
        assert(args[3] == a4);
    }
    lemma_chain4(ArgKind::Any, ArgKind::Any, ArgKind::Any, ArgKind::Any, a1, a2, a3, a4, rest);
    let e1 = wire::enc_termv(a1);
    let e2 = wire::enc_termv(a2);
    let e3 = wire::enc_termv(a3);
    let e4 = wire::enc_termv(a4);
    assert(instruction::enc_instr(i) == seq![83u8] + e1 + e2 + e3 + e4);
    let s = instruction::enc_instr(i) + rest;
    lemma_instr_shape_4(83, e1, e2, e3, e4, rest);
    assert(s[0] == 83);
    assert(s.skip(1) == e1 + e2 + e3 + e4 + rest);
    lemma_enc_termvs_4(a1, a2, a3, a4);
    assert(instruction::enc_instr(i).len() == 1 + (e1 + e2 + e3 + e4).len());
    assert(instruction::enc_instr(i) == seq![instruction::opcode_of(i)] + wire::enc_termvs(args));
}

/// The canonical bytes of this instruction type decode back to it.
#[verifier::rlimit(100)]
proof fn lemma_instr_84(x: instruction::BsTestTail, rest: Seq<u8>)
    requires
        wf_instruction(Instruction::BsTestTail(x)),
    ensures
        instruction::enc_instr(Instruction::BsTestTail(x)).len() >= 1,
        instruction::enc_instr(Instruction::BsTestTail(x)) == seq![
            instruction::opcode_of(Instruction::BsTestTail(x)),
        ] + wire::enc_termvs(instruction::args_of(Instruction::BsTestTail(x))),
        instruction::dec_instr(instruction::enc_instr(Instruction::BsTestTail(x)) + rest) == Ok::<
            _,
            DecodeErrorV,
        >((
            instruction::opcode_of(Instruction::BsTestTail(x)),
            instruction::args_of(Instruction::BsTestTail(x)),
            instruction::enc_instr(Instruction::BsTestTail(x)).len(),
        )),
{
    let i = Instruction::BsTestTail(x);
    let args = instruction::args_of(i);
    let a1 = x.arg1@;
    let a2 = x.arg2@;
    assert(args =~= seq![a1, a2]);
    assert(wire::wf_termv(a1)) by {
        assert(args[0] == a1);
    }
    assert(wire::wf_termv(a2)) by {
        assert(args[1] == a2);
    }
    lemma_chain2(ArgKind::Any, ArgKind::Any, a1, a2, rest);
    let e1 = wire::enc_termv(a1);
    let e2 = wire::enc_termv(a2);
    assert(instruction::enc_instr(i) == seq![84u8] + e1 + e2);
    let s = instruction::enc_instr(i) + rest;
    lemma_instr_shape_2(84, e1, e2, rest);
    assert(s[0] == 84);
    assert(s.skip(1) == e1 + e2 + rest);
    lemma_enc_termvs_2(a1, a2);
    assert(instruction::enc_instr(i).len() == 1 + (e1 + e2).len());
    assert(instruction::enc_instr(i) == seq![instruction::opcode_of(i)] + wire::enc_termvs(args));
}

/// The canonical bytes of this instruction type decode back to it.
#[verifier::rlimit(100)]
proof fn lemma_instr_85(x: instruction::BsSave, rest: Seq<u8>)
    requires
        wf_instruction(Instruction::BsSave(x)),
    ensures
        instruction::enc_instr(Instruction::BsSave(x)).len() >= 1,
        instruction::enc_instr(Instruction::BsSave(x)) == seq![
            instruction::opcode_of(Instruction::BsSave(x)),
        ] + wire::enc_termvs(instruction::args_of(Instruction::BsSave(x))),
        instruction::dec_instr(instruction::enc_instr(Instruction::BsSave(x)) + rest) == Ok::<
            _,
            DecodeErrorV,
        >((
            instruction::opcode_of(Instruction::BsSave(x)),
            instruction::args_of(Instruction::BsSave(x)),
            instruction::enc_instr(Instruction::BsSave(x)).len(),
        )),
{
    let i = Instruction::BsSave(x);
    let args = instruction::args_of(i);
    let a1 = x.arg1@;
    assert(args =~= seq![a1]);
    assert(wire::wf_termv(a1)) by {
        assert(args[0] == a1);
    }
    lemma_chain1(ArgKind::Any, a1, rest);
    let e1 = wire::enc_termv(a1);
    assert(instruction::enc_instr(i) == seq![85u8] + e1);
    let s = instruction::enc_instr(i) + rest;
    lemma_instr_shape_1(85, e1, rest);
    assert(s[0] == 85);
    assert(s.skip(1) == e1 + rest);
    lemma_enc_termvs_1(a1);
    assert(instruction::enc_instr(i).len() == 1 + (e1).len());
    assert(instruction::enc_instr(i) == seq![instruction::opcode_of(i)] + wire::enc_termvs(args));
}

/// The canonical bytes of this instruction type decode back to it.
#[verifier::rlimit(100)]
proof fn lemma_instr_86(x: instruction::BsRestore, rest: Seq<u8>)
    requires
        wf_instruction(Instruction::BsRestore(x)),
    ensures
        instruction::enc_instr(Instruction::BsRestore(x)).len() >= 1,
        instruction::enc_instr(Instruction::BsRestore(x)) == seq![
            instruction::opcode_of(Instruction::BsRestore(x)),
        ] + wire::enc_termvs(instruction::args_of(Instruction::BsRestore(x))),
        instruction::dec_instr(instruction::enc_instr(Instruction::BsRestore(x)) + rest) == Ok::<
            _,
            DecodeErrorV,
        >((
            instruction::opcode_of(Instruction::BsRestore(x)),
            instruction::args_of(Instruction::BsRestore(x)),
            instruction::enc_instr(Instruction::BsRestore(x)).len(),
        )),
{
    let i = Instruction::BsRestore(x);
    let args = instruction::args_of(i);
    let a1 = x.arg1@;
    assert(args =~= seq![a1]);
    assert(wire::wf_termv(a1)) by {
        assert(args[0] == a1);
    }
    lemma_chain1(ArgKind::Any, a1, rest);
    let e1 = wire::enc_termv(a1);
    assert(instruction::enc_instr(i) == seq![86u8] + e1);
    let s = instruction::enc_instr(i) + rest;
    lemma_instr_shape_1(86, e1, rest);
    assert(s[0] == 86);
    assert(s.skip(1) == e1 + rest);
    lemma_enc_termvs_1(a1);
    assert(instruction::enc_instr(i).len() == 1 + (e1).len());
    assert(instruction::enc_instr(i) == seq![instruction::opcode_of(i)] + wire::enc_termvs(args));
}

/// The canonical bytes of this instruction type decode back to it.
#[verifier::rlimit(100)]
proof fn lemma_instr_87(x: instruction::BsInit, rest: Seq<u8>)
    requires
        wf_instruction(Instruction::BsInit(x)),
    ensures
        instruction::enc_instr(Instruction::BsInit(x)).len() >= 1,
        instruction::enc_instr(Instruction::BsInit(x)) == seq![
            instruction::opcode_of(Instruction::BsInit(x)),
        ] + wire::enc_termvs(instruction::args_of(Instruction::BsInit(x))),
        instruction::dec_instr(instruction::enc_instr(Instruction::BsInit(x)) + rest) == Ok::<
            _,
            DecodeErrorV,
        >((
            instruction::opcode_of(Instruction::BsInit(x)),
            instruction::args_of(Instruction::BsInit(x)),
            instruction::enc_instr(Instruction::BsInit(x)).len(),
        )),
{
    let i = Instruction::BsInit(x);
    let args = instruction::args_of(i);
    let a1 = x.arg1@;
    let a2 = x.arg2@;
    assert(args =~= seq![a1, a2]);
    assert(wire::wf_termv(a1)) by {
        assert(args[0] == a1);
    }
    assert(wire::wf_termv(a2)) by {
        assert(args[1] == a2);
    }
    lemma_chain2(ArgKind::Any, ArgKind::Any, a1, a2, rest);
    let e1 = wire::enc_termv(a1);
    let e2 = wire::enc_termv(a2);
    assert(instruction::enc_instr(i) == seq![87u8] + e1 + e2);
    let s = instruction::enc_instr(i) + rest;
    lemma_instr_shape_2(87, e1, e2, rest);
    assert(s[0] == 87);
    assert(s.skip(1) == e1 + e2 + rest);
    lemma_enc_termvs_2(a1, a2);
    assert(instruction::enc_instr(i).len() == 1 + (e1 + e2).len());
    assert(instruction::enc_instr(i) == seq![instruction::opcode_of(i)] + wire::enc_termvs(args));
}

/// The canonical bytes of this instruction type decode back to it.
#[verifier::rlimit(100)]
proof fn lemma_instr_88(x: instruction::BsFinal, rest: Seq<u8>)
    requires
        wf_instruction(Instruction::BsFinal(x)),
    ensures
        instruction::enc_instr(Instruction::BsFinal(x)).len() >= 1,
        instruction::enc_instr(Instruction::BsFinal(x)) == seq![
            instruction::opcode_of(Instruction::BsFinal(x)),
        ] + wire::enc_termvs(instruction::args_of(Instruction::BsFinal(x))),
        instruction::dec_instr(instruction::enc_instr(Instruction::BsFinal(x)) + rest) == Ok::<
            _,
            DecodeErrorV,
        >((
            instruction::opcode_of(Instruction::BsFinal(x)),
            instruction::args_of(Instruction::BsFinal(x)),
            instruction::enc_instr(Instruction::BsFinal(x)).len(),
        )),
{
    let i = Instruction::BsFinal(x);
    let args = instruction::args_of(i);
    let a1 = x.arg1@;
    let a2 = x.arg2@;
    assert(args =~= seq![a1, a2]);
    assert(wire::wf_termv(a1)) by {
        assert(args[0] == a1);
    }
    assert(wire::wf_termv(a2)) by {
        assert(args[1] == a2);
    }
    lemma_chain2(ArgKind::Any, ArgKind::Any, a1, a2, rest);
    let e1 = wire::enc_termv(a1);
    let e2 = wire::enc_termv(a2);
    assert(instruction::enc_instr(i) == seq![88u8] + e1 + e2);
    let s = instruction::enc_instr(i) + rest;
    lemma_instr_shape_2(88, e1, e2, rest);
    assert(s[0] == 88);
    assert(s.skip(1) == e1 + e2 + rest);
    lemma_enc_termvs_2(a1, a2);
    assert(instruction::enc_instr(i).len() == 1 + (e1 + e2).len());
    assert(instruction::enc_instr(i) == seq![instruction::opcode_of(i)] + wire::enc_termvs(args));
}

/// The canonical bytes of this instruction type decode back to it.
#[verifier::rlimit(100)]
proof fn lemma_instr_89(x: instruction::BsPutInteger, rest: Seq<u8>)
    requires
        wf_instruction(Instruction::BsPutInteger(x)),
    ensures
        instruction::enc_instr(Instruction::BsPutInteger(x)).len() >= 1,
        instruction::enc_instr(Instruction::BsPutInteger(x)) == seq![
            instruction::opcode_of(Instruction::BsPutInteger(x)),
        ] + wire::enc_termvs(instruction::args_of(Instruction::BsPutInteger(x))),
        instruction::dec_instr(instruction::enc_instr(Instruction::BsPutInteger(x)) + rest) == Ok::<
            _,
            DecodeErrorV,
        >((
            instruction::opcode_of(Instruction::BsPutInteger(x)),
            instruction::args_of(Instruction::BsPutInteger(x)),
            instruction::enc_instr(Instruction::BsPutInteger(x)).len(),
        )),
{
    let i = Instruction::BsPutInteger(x);
    let args = instruction::args_of(i);
    let a1 = x.arg1@;
    let a2 = x.arg2@;
    let a3 = x.arg3@;
    let a4 = x.arg4@;
    let a5 = x.arg5@;
    assert(args =~= seq![a1, a2, a3, a4, a5]);
    assert(wire::wf_termv(a1)) by {
        assert(args[0] == a1);
    }
    assert(wire::wf_termv(a2)) by {
        assert(args[1] == a2);
    }
    assert(wire::wf_termv(a3)) by {
        assert(args[2] == a3);
    }
    assert(wire::wf_termv(a4)) by {
        assert(args[3] == a4);
    }
    assert(wire::wf_termv(a5)) by {
        assert(args[4] == a5);
    }
    lemma_chain5(ArgKind::Any, ArgKind::Any, ArgKind::Any, ArgKind::Any, ArgKind::Any, a1, a2, a3, a4, a5, rest);
    let e1 = wire::enc_termv(a1);
    let e2 = wire::enc_termv(a2);
    let e3 = wire::enc_termv(a3);
    let e4 = wire::enc_termv(a4);
    let e5 = wire::enc_termv(a5);
    assert(instruction::enc_instr(i) == seq![89u8] + e1 + e2 + e3 + e4 + e5);
    let s = instruction::enc_instr(i) + rest;
    lemma_instr_shape_5(89, e1, e2, e3, e4, e5, rest);
    assert(s[0] == 89);
    assert(s.skip(1) == e1 + e2 + e3 + e4 + e5 + rest);
    lemma_enc_termvs_5(a1, a2, a3, a4, a5);
    assert(instruction::enc_instr(i).len() == 1 + (e1 + e2 + e3 + e4 + e5).len());
    assert(instruction::enc_instr(i) == seq![instruction::opcode_of(i)] + wire::enc_termvs(args));
}

/// The canonical bytes of this instruction type decode back to it.
#[verifier::rlimit(100)]
proof fn lemma_instr_90(x: instruction::BsPutBinary, rest: Seq<u8>)
    requires
        wf_instruction(Instruction::BsPutBinary(x)),
    ensures
        instruction::enc_instr(Instruction::BsPutBinary(x)).len() >= 1,
        instruction::enc_instr(Instruction::BsPutBinary(x)) == seq![
            instruction::opcode_of(Instruction::BsPutBinary(x)),
        ] + wire::enc_termvs(instruction::args_of(Instruction::BsPutBinary(x))),
        instruction::dec_instr(instruction::enc_instr(Instruction::BsPutBinary(x)) + rest) == Ok::<
            _,
            DecodeErrorV,
        >((
            instruction::opcode_of(Instruction::BsPutBinary(x)),
            instruction::args_of(Instruction::BsPutBinary(x)),
            instruction::enc_instr(Instruction::BsPutBinary(x)).len(),
        )),
{
    let i = Instruction::BsPutBinary(x);
    let args = instruction::args_of(i);
    let a1 = x.arg1@;
    let a2 = x.arg2@;
    let a3 = x.arg3@;
    let a4 = x.arg4@;
    let a5 = x.arg5@;
    assert(args =~= seq![a1, a2, a3, a4, a5]);
    assert(wire::wf_termv(a1)) by {
        assert(args[0] == a1);
    }
    assert(wire::wf_termv(a2)) by {
        assert(args[1] == a2);
    }
    assert(wire::wf_termv(a3)) by {
        assert(args[2] == a3);
    }
    assert(wire::wf_termv(a4)) by {
        assert(args[3] == a4);
    }
    assert(wire::wf_termv(a5)) by {
        assert(args[4] == a5);
    }
    lemma_chain5(ArgKind::Any, ArgKind::Any, ArgKind::Any, ArgKind::Any, ArgKind::Any, a1, a2, a3, a4, a5, rest);
    let e1 = wire::enc_termv(a1);
    let e2 = wire::enc_termv(a2);
    let e3 = wire::enc_termv(a3);
    let e4 = wire::enc_termv(a4);
    let e5 = wire::enc_termv(a5);
    assert(instruction::enc_instr(i) == seq![90u8] + e1 + e2 + e3 + e4 + e5);
    let s = instruction::enc_instr(i) + rest;
    lemma_instr_shape_5(90, e1, e2, e3, e4, e5, rest);
    assert(s[0] == 90);
    assert(s.skip(1) == e1 + e2 + e3 + e4 + e5 + rest);
    lemma_enc_termvs_5(a1, a2, a3, a4, a5);
    assert(instruction::enc_instr(i).len() == 1 + (e1 + e2 + e3 + e4 + e5).len());
    assert(instruction::enc_instr(i) == seq![instruction::opcode_of(i)] + wire::enc_termvs(args));
}

/// The canonical bytes of this instruction type decode back to it.
#[verifier::rlimit(100)]
proof fn lemma_instr_91(x: instruction::BsPutFloat, rest: Seq<u8>)
    requires
        wf_instruction(Instruction::BsPutFloat(x)),
    ensures
        instruction::enc_instr(Instruction::BsPutFloat(x)).len() >= 1,
        instruction::enc_instr(Instruction::BsPutFloat(x)) == seq![
            instruction::opcode_of(Instruction::BsPutFloat(x)),
        ] + wire::enc_termvs(instruction::args_of(Instruction::BsPutFloat(x))),
        instruction::dec_instr(instruction::enc_instr(Instruction::BsPutFloat(x)) + rest) == Ok::<
            _,
            DecodeErrorV,
        >((
            instruction::opcode_of(Instruction::BsPutFloat(x)),
            instruction::args_of(Instruction::BsPutFloat(x)),
            instruction::enc_instr(Instruction::BsPutFloat(x)).len(),
        )),
{
    let i = Instruction::BsPutFloat(x);
    let args = instruction::args_of(i);
    let a1 = x.arg1@;
    let a2 = x.arg2@;
    let a3 = x.arg3@;
    let a4 = x.arg4@;
    let a5 = x.arg5@;
    assert(args =~= seq![a1, a2, a3, a4, a5]);
    assert(wire::wf_termv(a1)) by {
        assert(args[0] == a1);
    }
    assert(wire::wf_termv(a2)) by {
        assert(args[1] == a2);
    }
    assert(wire::wf_termv(a3)) by {
        assert(args[2] == a3);
    }
    assert(wire::wf_termv(a4)) by {
        assert(args[3] == a4);
    }
    assert(wire::wf_termv(a5)) by {
        assert(args[4] == a5);
    }
    lemma_chain5(ArgKind::Any, ArgKind::Any, ArgKind::Any, ArgKind::Any, ArgKind::Any, a1, a2, a3, a4, a5, rest);
    let e1 = wire::enc_termv(a1);
    let e2 = wire::enc_termv(a2);
    let e3 = wire::enc_termv(a3);
    let e4 = wire::enc_termv(a4);
    let e5 = wire::enc_termv(a5);
    assert(instruction::enc_instr(i) == seq![91u8] + e1 + e2 + e3 + e4 + e5);
    let s = instruction::enc_instr(i) + rest;
    lemma_instr_shape_5(91, e1, e2, e3, e4, e5, rest);
    assert(s[0] == 91);
    assert(s.skip(1) == e1 + e2 + e3 + e4 + e5 + rest);
    lemma_enc_termvs_5(a1, a2, a3, a4, a5);
    assert(instruction::enc_instr(i).len() == 1 + (e1 + e2 + e3 + e4 + e5).len());
    assert(instruction::enc_instr(i) == seq![instruction::opcode_of(i)] + wire::enc_termvs(args));
}

/// The canonical bytes of this instruction type decode back to it.
#[verifier::rlimit(100)]
proof fn lemma_instr_92(x: instruction::BsPutString, rest: Seq<u8>)
    requires
        wf_instruction(Instruction::BsPutString(x)),
    ensures
        instruction::enc_instr(Instruction::BsPutString(x)).len() >= 1,
        instruction::enc_instr(Instruction::BsPutString(x)) == seq![
            instruction::opcode_of(Instruction::BsPutString(x)),
        ] + wire::enc_termvs(instruction::args_of(Instruction::BsPutString(x))),
        instruction::dec_instr(instruction::enc_instr(Instruction::BsPutString(x)) + rest) == Ok::<
            _,
            DecodeErrorV,
        >((
            instruction::opcode_of(Instruction::BsPutString(x)),
            instruction::args_of(Instruction::BsPutString(x)),
            instruction::enc_instr(Instruction::BsPutString(x)).len(),
        )),
{
    let i = Instruction::BsPutString(x);
    let args = instruction::args_of(i);
    let a1 = x.arg1@;
    let a2 = x.arg2@;
    assert(args =~= seq![a1, a2]);
    assert(wire::wf_termv(a1)) by {
        assert(args[0] == a1);
    }
    assert(wire::wf_termv(a2)) by {
        assert(args[1] == a2);
    }
    lemma_chain2(ArgKind::Any, ArgKind::Any, a1, a2, rest);
    let e1 = wire::enc_termv(a1);
    let e2 = wire::enc_termv(a2);
    assert(instruction::enc_instr(i) == seq![92u8] + e1 + e2);
    let s = instruction::enc_instr(i) + rest;
    lemma_instr_shape_2(92, e1, e2, rest);
    assert(s[0] == 92);
    assert(s.skip(1) == e1 + e2 + rest);
    lemma_enc_termvs_2(a1, a2);
    assert(instruction::enc_instr(i).len() == 1 + (e1 + e2).len());
    assert(instruction::enc_instr(i) == seq![instruction::opcode_of(i)] + wire::enc_termvs(args));
}

/// The canonical bytes of this instruction type decode back to it.
#[verifier::rlimit(100)]
proof fn lemma_instr_93(x: instruction::BsNeedBuf, rest: Seq<u8>)
    requires
        wf_instruction(Instruction::BsNeedBuf(x)),
    ensures
        instruction::enc_instr(Instruction::BsNeedBuf(x)).len() >= 1,
        instruction::enc_instr(Instruction::BsNeedBuf(x)) == seq![
            instruction::opcode_of(Instruction::BsNeedBuf(x)),
        ] + wire::enc_termvs(instruction::args_of(Instruction::BsNeedBuf(x))),
        instruction::dec_instr(instruction::enc_instr(Instruction::BsNeedBuf(x)) + rest) == Ok::<
            _,
            DecodeErrorV,
        >((
            instruction::opcode_of(Instruction::BsNeedBuf(x)),
            instruction::args_of(Instruction::BsNeedBuf(x)),
            instruction::enc_instr(Instruction::BsNeedBuf(x)).len(),
        )),
{
    let i = Instruction::BsNeedBuf(x);
    let args = instruction::args_of(i);
    let a1 = x.arg1@;
    assert(args =~= seq![a1]);
    assert(wire::wf_termv(a1)) by {
        assert(args[0] == a1);
    }
    lemma_chain1(ArgKind::Any, a1, rest);
    let e1 = wire::enc_termv(a1);
    assert(instruction::enc_instr(i) == seq![93u8] + e1);
    let s = instruction::enc_instr(i) + rest;
    lemma_instr_shape_1(93, e1, rest);
    assert(s[0] == 93);
    assert(s.skip(1) == e1 + rest);
    lemma_enc_termvs_1(a1);
    assert(instruction::enc_instr(i).len() == 1 + (e1).len());
    assert(instruction::enc_instr(i) == seq![instruction::opcode_of(i)] + wire::enc_termvs(args));
}

/// The canonical bytes of this instruction type decode back to it.
#[verifier::rlimit(100)]
proof fn lemma_instr_94(x: instruction::Fclearerror, rest: Seq<u8>)
    requires
        wf_instruction(Instruction::Fclearerror(x)),
    ensures
        instruction::enc_instr(Instruction::Fclearerror(x)).len() >= 1,
        instruction::enc_instr(Instruction::Fclearerror(x)) == seq![
            instruction::opcode_of(Instruction::Fclearerror(x)),
        ] + wire::enc_termvs(instruction::args_of(Instruction::Fclearerror(x))),
        instruction::dec_instr(instruction::enc_instr(Instruction::Fclearerror(x)) + rest) == Ok::<
            _,
            DecodeErrorV,
        >((
            instruction::opcode_of(Instruction::Fclearerror(x)),
            instruction::args_of(Instruction::Fclearerror(x)),
            instruction::enc_instr(Instruction::Fclearerror(x)).len(),
        )),
{
    let i = Instruction::Fclearerror(x);
    let args = instruction::args_of(i);
    assert(args =~= Seq::<TermV>::empty());
    assert(instruction::enc_instr(i) == seq![94u8]);
    let s = instruction::enc_instr(i) + rest;
    lemma_instr_shape_0(94, rest);
    assert(s[0] == 94);
    assert(s.skip(1) == rest);
    lemma_enc_termvs_0();
    assert(seq![94u8] + Seq::<u8>::empty() =~= seq![94u8]);
    assert(instruction::enc_instr(i) == seq![instruction::opcode_of(i)] + wire::enc_termvs(args));
}

/// The canonical bytes of this instruction type decode back to it.
#[verifier::rlimit(100)]
proof fn lemma_instr_95(x: instruction::Fcheckerror, rest: Seq<u8>)
    requires
        wf_instruction(Instruction::Fcheckerror(x)),
    ensures
        instruction::enc_instr(Instruction::Fcheckerror(x)).len() >= 1,
        instruction::enc_instr(Instruction::Fcheckerror(x)) == seq![
            instruction::opcode_of(Instruction::Fcheckerror(x)),
        ] + wire::enc_termvs(instruction::args_of(Instruction::Fcheckerror(x))),
        instruction::dec_instr(instruction::enc_instr(Instruction::Fcheckerror(x)) + rest) == Ok::<
            _,
            DecodeErrorV,
        >((
            instruction::opcode_of(Instruction::Fcheckerror(x)),
            instruction::args_of(Instruction::Fcheckerror(x)),
            instruction::enc_instr(Instruction::Fcheckerror(x)).len(),
        )),
{
    let i = Instruction::Fcheckerror(x);
    let args = instruction::args_of(i);
    let a1 = x.arg1@;
    assert(args =~= seq![a1]);
    assert(wire::wf_termv(a1)) by {
        assert(args[0] == a1);
    }
    lemma_chain1(ArgKind::Any, a1, rest);
    let e1 = wire::enc_termv(a1);
    assert(instruction::enc_instr(i) == seq![95u8] + e1);
    let s = instruction::enc_instr(i) + rest;
    lemma_instr_shape_1(95, e1, rest);
    assert(s[0] == 95);
    assert(s.skip(1) == e1 + rest);
    lemma_enc_termvs_1(a1);
    assert(instruction::enc_instr(i).len() == 1 + (e1).len());
    assert(instruction::enc_instr(i) == seq![instruction::opcode_of(i)] + wire::enc_termvs(args));
}

/// The canonical bytes of this instruction type decode back to it.
#[verifier::rlimit(100)]
proof fn lemma_instr_96(x: instruction::Fmove, rest: Seq<u8>)
    requires
        wf_instruction(Instruction::Fmove(x)),
    ensures
        instruction::enc_instr(Instruction::Fmove(x)).len() >= 1,
        instruction::enc_instr(Instruction::Fmove(x)) == seq![
            instruction::opcode_of(Instruction::Fmove(x)),
        ] + wire::enc_termvs(instruction::args_of(Instruction::Fmove(x))),
        instruction::dec_instr(instruction::enc_instr(Instruction::Fmove(x)) + rest) == Ok::<
            _,
            DecodeErrorV,
        >((
            instruction::opcode_of(Instruction::Fmove(x)),
            instruction::args_of(Instruction::Fmove(x)),
            instruction::enc_instr(Instruction::Fmove(x)).len(),
        )),
{
    let i = Instruction::Fmove(x);
    let args = instruction::args_of(i);
    let a1 = x.arg1@;
    let a2 = x.arg2@;
    assert(args =~= seq![a1, a2]);
    assert(wire::wf_termv(a1)) by {
        assert(args[0] == a1);
    }
    assert(wire::wf_termv(a2)) by {
        assert(args[1] == a2);
    }
    lemma_chain2(ArgKind::Any, ArgKind::Any, a1, a2, rest);
    let e1 = wire::enc_termv(a1);
    let e2 = wire::enc_termv(a2);
    assert(instruction::enc_instr(i) == seq![96u8] + e1 + e2);
    let s = instruction::enc_instr(i) + rest;
    lemma_instr_shape_2(96, e1, e2, rest);
    assert(s[0] == 96);
    assert(s.skip(1) == e1 + e2 + rest);
    lemma_enc_termvs_2(a1, a2);
    assert(instruction::enc_instr(i).len() == 1 + (e1 + e2).len());
    assert(instruction::enc_instr(i) == seq![instruction::opcode_of(i)] + wire::enc_termvs(args));
}

/// The canonical bytes of this instruction type decode back to it.
#[verifier::rlimit(100)]
proof fn lemma_instr_97(x: instruction::Fconv, rest: Seq<u8>)
    requires
        wf_instruction(Instruction::Fconv(x)),
    ensures
        instruction::enc_instr(Instruction::Fconv(x)).len() >= 1,
        instruction::enc_instr(Instruction::Fconv(x)) == seq![
            instruction::opcode_of(Instruction::Fconv(x)),
        ] + wire::enc_termvs(instruction::args_of(Instruction::Fconv(x))),
        instruction::dec_instr(instruction::enc_instr(Instruction::Fconv(x)) + rest) == Ok::<
            _,
            DecodeErrorV,
        >((
            instruction::opcode_of(Instruction::Fconv(x)),
            instruction::args_of(Instruction::Fconv(x)),
            instruction::enc_instr(Instruction::Fconv(x)).len(),
        )),
{
    let i = Instruction::Fconv(x);
    let args = instruction::args_of(i);
    let a1 = x.arg1@;
    let a2 = x.arg2@;
    assert(args =~= seq![a1, a2]);
    assert(wire::wf_termv(a1)) by {
        assert(args[0] == a1);
    }
    assert(wire::wf_termv(a2)) by {
        assert(args[1] == a2);
    }
    lemma_chain2(ArgKind::Any, ArgKind::Any, a1, a2, rest);
    let e1 = wire::enc_termv(a1);
    let e2 = wire::enc_termv(a2);
    assert(instruction::enc_instr(i) == seq![97u8] + e1 + e2);
    let s = instruction::enc_instr(i) + rest;
    lemma_instr_shape_2(97, e1, e2, rest);
    assert(s[0] == 97);
    assert(s.skip(1) == e1 + e2 + rest);
    lemma_enc_termvs_2(a1, a2);
    assert(instruction::enc_instr(i).len() == 1 + (e1 + e2).len());
    assert(instruction::enc_instr(i) == seq![instruction::opcode_of(i)] + wire::enc_termvs(args));
}

/// The canonical bytes of this instruction type decode back to it.
#[verifier::rlimit(100)]
proof fn lemma_instr_98(x: instruction::Fadd, rest: Seq<u8>)
    requires
        wf_instruction(Instruction::Fadd(x)),
    ensures
        instruction::enc_instr(Instruction::Fadd(x)).len() >= 1,
        instruction::enc_instr(Instruction::Fadd(x)) == seq![
            instruction::opcode_of(Instruction::Fadd(x)),
        ] + wire::enc_termvs(instruction::args_of(Instruction::Fadd(x))),
        instruction::dec_instr(instruction::enc_instr(Instruction::Fadd(x)) + rest) == Ok::<
            _,
            DecodeErrorV,
        >((
            instruction::opcode_of(Instruction::Fadd(x)),
            instruction::args_of(Instruction::Fadd(x)),
            instruction::enc_instr(Instruction::Fadd(x)).len(),
        )),
{
    let i = Instruction::Fadd(x);
    let args = instruction::args_of(i);
    let a1 = x.arg1@;
    let a2 = x.arg2@;
    let a3 = x.arg3@;
    let a4 = x.arg4@;
    assert(args =~= seq![a1, a2, a3, a4]);
    assert(wire::wf_termv(a1)) by {
        assert(args[0] == a1);
    }
    assert(wire::wf_termv(a2)) by {
        assert(args[1] == a2);
    }
    assert(wire::wf_termv(a3)) by {
        assert(args[2] == a3);
    }
    assert(wire::wf_termv(a4)) by {
        assert(args[3] == a4);
    }
    lemma_chain4(ArgKind::Any, ArgKind::Any, ArgKind::Any, ArgKind::Any, a1, a2, a3, a4, rest);
    let e1 = wire::enc_termv(a1);
    let e2 = wire::enc_termv(a2);
    let e3 = wire::enc_termv(a3);
    let e4 = wire::enc_termv(a4);
    assert(instruction::enc_instr(i) == seq![98u8] + e1 + e2 + e3 + e4);
    let s = instruction::enc_instr(i) + rest;
    lemma_instr_shape_4(98, e1, e2, e3, e4, rest);
    assert(s[0] == 98);
    assert(s.skip(1) == e1 + e2 + e3 + e4 + rest);
    lemma_enc_termvs_4(a1, a2, a3, a4);
    assert(instruction::enc_instr(i).len() == 1 + (e1 + e2 + e3 + e4).len());
    assert(instruction::enc_instr(i) == seq![instruction::opcode_of(i)] + wire::enc_termvs(args));
}

/// The canonical bytes of this instruction type decode back to it.
#[verifier::rlimit(100)]
proof fn lemma_instr_99(x: instruction::Fsub, rest: Seq<u8>)
    requires
        wf_instruction(Instruction::Fsub(x)),
    ensures
        instruction::enc_instr(Instruction::Fsub(x)).len() >= 1,
        instruction::enc_instr(Instruction::Fsub(x)) == seq![
            instruction::opcode_of(Instruction::Fsub(x)),
        ] + wire::enc_termvs(instruction::args_of(Instruction::Fsub(x))),
        instruction::dec_instr(instruction::enc_instr(Instruction::Fsub(x)) + rest) == Ok::<
            _,
            DecodeErrorV,
        >((
            instruction::opcode_of(Instruction::Fsub(x)),
            instruction::args_of(Instruction::Fsub(x)),
            instruction::enc_instr(Instruction::Fsub(x)).len(),
        )),
{
    let i = Instruction::Fsub(x);
    let args = instruction::args_of(i);
    let a1 = x.arg1@;
    let a2 = x.arg2@;
    let a3 = x.arg3@;
    let a4 = x.arg4@;
    assert(args =~= seq![a1, a2, a3, a4]);
    assert(wire::wf_termv(a1)) by {
        assert(args[0] == a1);
    }
    assert(wire::wf_termv(a2)) by {
        assert(args[1] == a2);
    }
    assert(wire::wf_termv(a3)) by {
        assert(args[2] == a3);
    }
    assert(wire::wf_termv(a4)) by {
        assert(args[3] == a4);
    }
    lemma_chain4(ArgKind::Any, ArgKind::Any, ArgKind::Any, ArgKind::Any, a1, a2, a3, a4, rest);
    let e1 = wire::enc_termv(a1);
    let e2 = wire::enc_termv(a2);
    let e3 = wire::enc_termv(a3);
    let e4 = wire::enc_termv(a4);
    assert(instruction::enc_instr(i) == seq![99u8] + e1 + e2 + e3 + e4);
    let s = instruction::enc_instr(i) + rest;
    lemma_instr_shape_4(99, e1, e2, e3, e4, rest);
    assert(s[0] == 99);
    assert(s.skip(1) == e1 + e2 + e3 + e4 + rest);
    lemma_enc_termvs_4(a1, a2, a3, a4);
    assert(instruction::enc_instr(i).len() == 1 + (e1 + e2 + e3 + e4).len());
    assert(instruction::enc_instr(i) == seq![instruction::opcode_of(i)] + wire::enc_termvs(args));
}

/// The canonical bytes of this instruction type decode back to it.
#[verifier::rlimit(100)]
proof fn lemma_instr_100(x: instruction::Fmul, rest: Seq<u8>)
    requires
        wf_instruction(Instruction::Fmul(x)),
    ensures
        instruction::enc_instr(Instruction::Fmul(x)).len() >= 1,
        instruction::enc_instr(Instruction::Fmul(x)) == seq![
            instruction::opcode_of(Instruction::Fmul(x)),
        ] + wire::enc_termvs(instruction::args_of(Instruction::Fmul(x))),
        instruction::dec_instr(instruction::enc_instr(Instruction::Fmul(x)) + rest) == Ok::<
            _,
            DecodeErrorV,
        >((
            instruction::opcode_of(Instruction::Fmul(x)),
            instruction::args_of(Instruction::Fmul(x)),
            instruction::enc_instr(Instruction::Fmul(x)).len(),
        )),
{
    let i = Instruction::Fmul(x);
    let args = instruction::args_of(i);
    let a1 = x.arg1@;
    let a2 = x.arg2@;
    let a3 = x.arg3@;
    let a4 = x.arg4@;
    assert(args =~= seq![a1, a2, a3, a4]);
    assert(wire::wf_termv(a1)) by {
        assert(args[0] == a1);
    }
    assert(wire::wf_termv(a2)) by {
        assert(args[1] == a2);
    }
    assert(wire::wf_termv(a3)) by {
        assert(args[2] == a3);
    }
    assert(wire::wf_termv(a4)) by {
        assert(args[3] == a4);
    }
    lemma_chain4(ArgKind::Any, ArgKind::Any, ArgKind::Any, ArgKind::Any, a1, a2, a3, a4, rest);
    let e1 = wire::enc_termv(a1);
    let e2 = wire::enc_termv(a2);
    let e3 = wire::enc_termv(a3);
    let e4 = wire::enc_termv(a4);
    assert(instruction::enc_instr(i) == seq![100u8] + e1 + e2 + e3 + e4);
    let s = instruction::enc_instr(i) + rest;
    lemma_instr_shape_4(100, e1, e2, e3, e4, rest);
    assert(s[0] == 100);
    assert(s.skip(1) == e1 + e2 + e3 + e4 + rest);
    lemma_enc_termvs_4(a1, a2, a3, a4);
    assert(instruction::enc_instr(i).len() == 1 + (e1 + e2 + e3 + e4).len());
    assert(instruction::enc_instr(i) == seq![instruction::opcode_of(i)] + wire::enc_termvs(args));
}

/// The canonical bytes of this instruction type decode back to it.
#[verifier::rlimit(100)]
proof fn lemma_instr_101(x: instruction::Fdiv, rest: Seq<u8>)
    requires
        wf_instruction(Instruction::Fdiv(x)),
    ensures
        instruction::enc_instr(Instruction::Fdiv(x)).len() >= 1,
        instruction::enc_instr(Instruction::Fdiv(x)) == seq![
            instruction::opcode_of(Instruction::Fdiv(x)),
        ] + wire::enc_termvs(instruction::args_of(Instruction::Fdiv(x))),
        instruction::dec_instr(instruction::enc_instr(Instruction::Fdiv(x)) + rest) == Ok::<
            _,
            DecodeErrorV,
        >((
            instruction::opcode_of(Instruction::Fdiv(x)),
            instruction::args_of(Instruction::Fdiv(x)),
            instruction::enc_instr(Instruction::Fdiv(x)).len(),
        )),
{
    let i = Instruction::Fdiv(x);
    let args = instruction::args_of(i);
    let a1 = x.arg1@;
    let a2 = x.arg2@;
    let a3 = x.arg3@;
    let a4 = x.arg4@;
    assert(args =~= seq![a1, a2, a3, a4]);
    assert(wire::wf_termv(a1)) by {
        assert(args[0] == a1);
    }
    assert(wire::wf_termv(a2)) by {
        assert(args[1] == a2);
    }
    assert(wire::wf_termv(a3)) by {
        assert(args[2] == a3);
    }
    assert(wire::wf_termv(a4)) by {
        assert(args[3] == a4);
    }
    lemma_chain4(ArgKind::Any, ArgKind::Any, ArgKind::Any, ArgKind::Any, a1, a2, a3, a4, rest);
    let e1 = wire::enc_termv(a1);
    let e2 = wire::enc_termv(a2);
    let e3 = wire::enc_termv(a3);
    let e4 = wire::enc_termv(a4);
    assert(instruction::enc_instr(i) == seq![101u8] + e1 + e2 + e3 + e4);
    let s = instruction::enc_instr(i) + rest;
    lemma_instr_shape_4(101, e1, e2, e3, e4, rest);
    assert(s[0] == 101);
    assert(s.skip(1) == e1 + e2 + e3 + e4 + rest);
    lemma_enc_termvs_4(a1, a2, a3, a4);
    assert(instruction::enc_instr(i).len() == 1 + (e1 + e2 + e3 + e4).len());
    assert(instruction::enc_instr(i) == seq![instruction::opcode_of(i)] + wire::enc_termvs(args));
}

/// The canonical bytes of this instruction type decode back to it.
#[verifier::rlimit(100)]
proof fn lemma_instr_102(x: instruction::Fnegate, rest: Seq<u8>)
    requires
        wf_instruction(Instruction::Fnegate(x)),
    ensures
        instruction::enc_instr(Instruction::Fnegate(x)).len() >= 1,
        instruction::enc_instr(Instruction::Fnegate(x)) == seq![
            instruction::opcode_of(Instruction::Fnegate(x)),
        ] + wire::enc_termvs(instruction::args_of(Instruction::Fnegate(x))),
        instruction::dec_instr(instruction::enc_instr(Instruction::Fnegate(x)) + rest) == Ok::<
            _,
            DecodeErrorV,
        >((
            instruction::opcode_of(Instruction::Fnegate(x)),
            instruction::args_of(Instruction::Fnegate(x)),
            instruction::enc_instr(Instruction::Fnegate(x)).len(),
        )),
{
    let i = Instruction::Fnegate(x);
    let args = instruction::args_of(i);
    let a1 = x.arg1@;
    let a2 = x.arg2@;
    let a3 = x.arg3@;
    assert(args =~= seq![a1, a2, a3]);
    assert(wire::wf_termv(a1)) by {
        assert(args[0] == a1);
    }
    assert(wire::wf_termv(a2)) by {
        assert(args[1] == a2);
    }
    assert(wire::wf_termv(a3)) by {
        assert(args[2] == a3);
    }
    lemma_chain3(ArgKind::Any, ArgKind::Any, ArgKind::Any, a1, a2, a3, rest);
    let e1 = wire::enc_termv(a1);
    let e2 = wire::enc_termv(a2);
    let e3 = wire::enc_termv(a3);
    assert(instruction::enc_instr(i) == seq![102u8] + e1 + e2 + e3);
    let s = instruction::enc_instr(i) + rest;
    lemma_instr_shape_3(102, e1, e2, e3, rest);
    assert(s[0] == 102);
    assert(s.skip(1) == e1 + e2 + e3 + rest);
    lemma_enc_termvs_3(a1, a2, a3);
    assert(instruction::enc_instr(i).len() == 1 + (e1 + e2 + e3).len());
    assert(instruction::enc_instr(i) == seq![instruction::opcode_of(i)] + wire::enc_termvs(args));
}

/// The canonical bytes of this instruction type decode back to it.
#[verifier::rlimit(100)]
proof fn lemma_instr_103(x: instruction::MakeFun2, rest: Seq<u8>)
    requires
        wf_instruction(Instruction::MakeFun2(x)),
    ensures
        instruction::enc_instr(Instruction::MakeFun2(x)).len() >= 1,
        instruction::enc_instr(Instruction::MakeFun2(x)) == seq![
            instruction::opcode_of(Instruction::MakeFun2(x)),
        ] + wire::enc_termvs(instruction::args_of(Instruction::MakeFun2(x))),
        instruction::dec_instr(instruction::enc_instr(Instruction::MakeFun2(x)) + rest) == Ok::<
            _,
            DecodeErrorV,
        >((
            instruction::opcode_of(Instruction::MakeFun2(x)),
            instruction::args_of(Instruction::MakeFun2(x)),
            instruction::enc_instr(Instruction::MakeFun2(x)).len(),
        )),
{
    let i = Instruction::MakeFun2(x);
    let args = instruction::args_of(i);
    let a1 = x.arg1@;
    assert(args =~= seq![a1]);
    assert(wire::wf_termv(a1)) by {
        assert(args[0] == a1);
    }
    lemma_chain1(ArgKind::Any, a1, rest);
    let e1 = wire::enc_termv(a1);
    assert(instruction::enc_instr(i) == seq![103u8] + e1);
    let s = instruction::enc_instr(i) + rest;
    lemma_instr_shape_1(103, e1, rest);
    assert(s[0] == 103);
    assert(s.skip(1) == e1 + rest);
    lemma_enc_termvs_1(a1);
    assert(instruction::enc_instr(i).len() == 1 + (e1).len());
    assert(instruction::enc_instr(i) == seq![instruction::opcode_of(i)] + wire::enc_termvs(args));
}

/// The canonical bytes of this instruction type decode back to it.
#[verifier::rlimit(100)]
proof fn lemma_instr_104(x: instruction::Try, rest: Seq<u8>)
    requires
        wf_instruction(Instruction::Try(x)),
    ensures
        instruction::enc_instr(Instruction::Try(x)).len() >= 1,
        instruction::enc_instr(Instruction::Try(x)) == seq![
            instruction::opcode_of(Instruction::Try(x)),
        ] + wire::enc_termvs(instruction::args_of(Instruction::Try(x))),
        instruction::dec_instr(instruction::enc_instr(Instruction::Try(x)) + rest) == Ok::<
            _,
            DecodeErrorV,
        >((
            instruction::opcode_of(Instruction::Try(x)),
            instruction::args_of(Instruction::Try(x)),
            instruction::enc_instr(Instruction::Try(x)).len(),
        )),
{
    let i = Instruction::Try(x);
    let args = instruction::args_of(i);
    let a1 = x.register@;
    let a2 = TermV::Label(x.label.value as int);
    assert(args =~= seq![a1, a2]);
    assert(wire::wf_termv(a1)) by {
        assert(args[0] == a1);
    }
    assert(wire::wf_termv(a2)) by {
        assert(args[1] == a2);
    }
    lemma_chain2(ArgKind::Reg, ArgKind::Lbl, a1, a2, rest);
    let e1 = wire::enc_termv(a1);
    let e2 = wire::enc_termv(a2);
    assert(instruction::enc_instr(i) == seq![104u8] + e1 + e2);
    let s = instruction::enc_instr(i) + rest;
    lemma_instr_shape_2(104, e1, e2, rest);
    assert(s[0] == 104);
    assert(s.skip(1) == e1 + e2 + rest);
    lemma_enc_termvs_2(a1, a2);
    assert(instruction::enc_instr(i).len() == 1 + (e1 + e2).len());
    assert(instruction::enc_instr(i) == seq![instruction::opcode_of(i)] + wire::enc_termvs(args));
}

/// The canonical bytes of this instruction type decode back to it.
#[verifier::rlimit(100)]
proof fn lemma_instr_105(x: instruction::TryEnd, rest: Seq<u8>)
    requires
        wf_instruction(Instruction::TryEnd(x)),
    ensures
        instruction::enc_instr(Instruction::TryEnd(x)).len() >= 1,
        instruction::enc_instr(Instruction::TryEnd(x)) == seq![
            instruction::opcode_of(Instruction::TryEnd(x)),
        ] + wire::enc_termvs(instruction::args_of(Instruction::TryEnd(x))),
        instruction::dec_instr(instruction::enc_instr(Instruction::TryEnd(x)) + rest) == Ok::<
            _,
            DecodeErrorV,
        >((
            instruction::opcode_of(Instruction::TryEnd(x)),
            instruction::args_of(Instruction::TryEnd(x)),
            instruction::enc_instr(Instruction::TryEnd(x)).len(),
        )),
{
    let i = Instruction::TryEnd(x);
    let args = instruction::args_of(i);
    let a1 = x.register@;
    assert(args =~= seq![a1]);
    assert(wire::wf_termv(a1)) by {
        assert(args[0] == a1);
    }
    lemma_chain1(ArgKind::Reg, a1, rest);
    let e1 = wire::enc_termv(a1);
    assert(instruction::enc_instr(i) == seq![105u8] + e1);
    let s = instruction::enc_instr(i) + rest;
    lemma_instr_shape_1(105, e1, rest);
    assert(s[0] == 105);
    assert(s.skip(1) == e1 + rest);
    lemma_enc_termvs_1(a1);
    assert(instruction::enc_instr(i).len() == 1 + (e1).len());
    assert(instruction::enc_instr(i) == seq![instruction::opcode_of(i)] + wire::enc_termvs(args));
}

/// The canonical bytes of this instruction type decode back to it.
#[verifier::rlimit(100)]
proof fn lemma_instr_106(x: instruction::TryCase, rest: Seq<u8>)
    requires
        wf_instruction(Instruction::TryCase(x)),
    ensures
        instruction::enc_instr(Instruction::TryCase(x)).len() >= 1,
        instruction::enc_instr(Instruction::TryCase(x)) == seq![
            instruction::opcode_of(Instruction::TryCase(x)),
        ] + wire::enc_termvs(instruction::args_of(Instruction::TryCase(x))),
        instruction::dec_instr(instruction::enc_instr(Instruction::TryCase(x)) + rest) == Ok::<
            _,
            DecodeErrorV,
        >((
            instruction::opcode_of(Instruction::TryCase(x)),
            instruction::args_of(Instruction::TryCase(x)),
            instruction::enc_instr(Instruction::TryCase(x)).len(),
        )),
{
    let i = Instruction::TryCase(x);
    let args = instruction::args_of(i);
    let a1 = x.register@;
    assert(args =~= seq![a1]);
    assert(wire::wf_termv(a1)) by {
        assert(args[0] == a1);
    }
    lemma_chain1(ArgKind::Reg, a1, rest);
    let e1 = wire::enc_termv(a1);
    assert(instruction::enc_instr(i) == seq![106u8] + e1);
    let s = instruction::enc_instr(i) + rest;
    lemma_instr_shape_1(106, e1, rest);
    assert(s[0] == 106);
    assert(s.skip(1) == e1 + rest);
    lemma_enc_termvs_1(a1);
    assert(instruction::enc_instr(i).len() == 1 + (e1).len());
    assert(instruction::enc_instr(i) == seq![instruction::opcode_of(i)] + wire::enc_termvs(args));
}

/// The canonical bytes of this instruction type decode back to it.
#[verifier::rlimit(100)]
proof fn lemma_instr_107(x: instruction::TryCaseEnd, rest: Seq<u8>)
    requires
        wf_instruction(Instruction::TryCaseEnd(x)),
    ensures
        instruction::enc_instr(Instruction::TryCaseEnd(x)).len() >= 1,
        instruction::enc_instr(Instruction::TryCaseEnd(x)) == seq![
            instruction::opcode_of(Instruction::TryCaseEnd(x)),
        ] + wire::enc_termvs(instruction::args_of(Instruction::TryCaseEnd(x))),
        instruction::dec_instr(instruction::enc_instr(Instruction::TryCaseEnd(x)) + rest) == Ok::<
            _,
            DecodeErrorV,
        >((
            instruction::opcode_of(Instruction::TryCaseEnd(x)),
            instruction::args_of(Instruction::TryCaseEnd(x)),
            instruction::enc_instr(Instruction::TryCaseEnd(x)).len(),
        )),
{
    let i = Instruction::TryCaseEnd(x);
    let args = instruction::args_of(i);
    let a1 = x.arg1@;
    assert(args =~= seq![a1]);
    assert(wire::wf_termv(a1)) by {
        assert(args[0] == a1);
    }
    lemma_chain1(ArgKind::Any, a1, rest);
    let e1 = wire::enc_termv(a1);
    assert(instruction::enc_instr(i) == seq![107u8] + e1);
    let s = instruction::enc_instr(i) + rest;
    lemma_instr_shape_1(107, e1, rest);
    assert(s[0] == 107);
    assert(s.skip(1) == e1 + rest);
    lemma_enc_termvs_1(a1);
    assert(instruction::enc_instr(i).len() == 1 + (e1).len());
    assert(instruction::enc_instr(i) == seq![instruction::opcode_of(i)] + wire::enc_termvs(args));
}

/// The canonical bytes of this instruction type decode back to it.
#[verifier::rlimit(100)]
proof fn lemma_instr_108(x: instruction::Raise, rest: Seq<u8>)
    requires
        wf_instruction(Instruction::Raise(x)),
    ensures
        instruction::enc_instr(Instruction::Raise(x)).len() >= 1,
        instruction::enc_instr(Instruction::Raise(x)) == seq![
            instruction::opcode_of(Instruction::Raise(x)),
        ] + wire::enc_termvs(instruction::args_of(Instruction::Raise(x))),
        instruction::dec_instr(instruction::enc_instr(Instruction::Raise(x)) + rest) == Ok::<
            _,
            DecodeErrorV,
        >((
            instruction::opcode_of(Instruction::Raise(x)),
            instruction::args_of(Instruction::Raise(x)),
            instruction::enc_instr(Instruction::Raise(x)).len(),
        )),
{
    let i = Instruction::Raise(x);
    let args = instruction::args_of(i);
    let a1 = x.stacktrace@;
    let a2 = x.exc_value@;
    assert(args =~= seq![a1, a2]);
    assert(wire::wf_termv(a1)) by {
        assert(args[0] == a1);
    }
    assert(wire::wf_termv(a2)) by {
        assert(args[1] == a2);
    }
    lemma_chain2(ArgKind::Any, ArgKind::Any, a1, a2, rest);
    let e1 = wire::enc_termv(a1);
    let e2 = wire::enc_termv(a2);
    assert(instruction::enc_instr(i) == seq![108u8] + e1 + e2);
    let s = instruction::enc_instr(i) + rest;
    lemma_instr_shape_2(108, e1, e2, rest);
    assert(s[0] == 108);
    assert(s.skip(1) == e1 + e2 + rest);
    lemma_enc_termvs_2(a1, a2);
    assert(instruction::enc_instr(i).len() == 1 + (e1 + e2).len());
    assert(instruction::enc_instr(i) == seq![instruction::opcode_of(i)] + wire::enc_termvs(args));
}

/// The canonical bytes of this instruction type decode back to it.
#[verifier::rlimit(100)]
proof fn lemma_instr_109(x: instruction::BsInit2, rest: Seq<u8>)
    requires
        wf_instruction(Instruction::BsInit2(x)),
    ensures
        instruction::enc_instr(Instruction::BsInit2(x)).len() >= 1,
        instruction::enc_instr(Instruction::BsInit2(x)) == seq![
            instruction::opcode_of(Instruction::BsInit2(x)),
        ] + wire::enc_termvs(instruction::args_of(Instruction::BsInit2(x))),
        instruction::dec_instr(instruction::enc_instr(Instruction::BsInit2(x)) + rest) == Ok::<
            _,
            DecodeErrorV,
        >((
            instruction::opcode_of(Instruction::BsInit2(x)),
            instruction::args_of(Instruction::BsInit2(x)),
            instruction::enc_instr(Instruction::BsInit2(x)).len(),
        )),
{
    let i = Instruction::BsInit2(x);
    let args = instruction::args_of(i);
    let a1 = x.arg1@;
    let a2 = x.arg2@;
    let a3 = x.arg3@;
    let a4 = x.arg4@;
    let a5 = x.arg5@;
    let a6 = x.arg6@;
    assert(args =~= seq![a1, a2, a3, a4, a5, a6]);
    assert(wire::wf_termv(a1)) by {
        assert(args[0] == a1);
    }
    assert(wire::wf_termv(a2)) by {
        assert(args[1] == a2);
    }
    assert(wire::wf_termv(a3)) by {
        assert(args[2] == a3);
    }
    assert(wire::wf_termv(a4)) by {
        assert(args[3] == a4);
    }
    assert(wire::wf_termv(a5)) by {
        assert(args[4] == a5);
    }
    assert(wire::wf_termv(a6)) by {
        assert(args[5] == a6);
    }
    lemma_chain6(ArgKind::Any, ArgKind::Any, ArgKind::Any, ArgKind::Any, ArgKind::Any, ArgKind::Any, a1, a2, a3, a4, a5, a6, rest);
    let e1 = wire::enc_termv(a1);
    let e2 = wire::enc_termv(a2);
    let e3 = wire::enc_termv(a3);
    let e4 = wire::enc_termv(a4);
    let e5 = wire::enc_termv(a5);
    let e6 = wire::enc_termv(a6);
    assert(instruction::enc_instr(i) == seq![109u8] + e1 + e2 + e3 + e4 + e5 + e6);
    let s = instruction::enc_instr(i) + rest;
    lemma_instr_shape_6(109, e1, e2, e3, e4, e5, e6, rest);
    assert(s[0] == 109);
    assert(s.skip(1) == e1 + e2 + e3 + e4 + e5 + e6 + rest);
    lemma_enc_termvs_6(a1, a2, a3, a4, a5, a6);
    assert(instruction::enc_instr(i).len() == 1 + (e1 + e2 + e3 + e4 + e5 + e6).len());
    assert(instruction::enc_instr(i) == seq![instruction::opcode_of(i)] + wire::enc_termvs(args));
}

/// The canonical bytes of this instruction type decode back to it.
#[verifier::rlimit(100)]
proof fn lemma_instr_110(x: instruction::BsBitsToBytes, rest: Seq<u8>)
    requires
        wf_instruction(Instruction::BsBitsToBytes(x)),
    ensures
        instruction::enc_instr(Instruction::BsBitsToBytes(x)).len() >= 1,
        instruction::enc_instr(Instruction::BsBitsToBytes(x)) == seq![
            instruction::opcode_of(Instruction::BsBitsToBytes(x)),
        ] + wire::enc_termvs(instruction::args_of(Instruction::BsBitsToBytes(x))),
        instruction::dec_instr(instruction::enc_instr(Instruction::BsBitsToBytes(x)) + rest) == Ok::<
            _,
            DecodeErrorV,
        >((
            instruction::opcode_of(Instruction::BsBitsToBytes(x)),
            instruction::args_of(Instruction::BsBitsToBytes(x)),
            instruction::enc_instr(Instruction::BsBitsToBytes(x)).len(),
        )),
{
    let i = Instruction::BsBitsToBytes(x);
    let args = instruction::args_of(i);
    let a1 = x.arg1@;
    let a2 = x.arg2@;
    let a3 = x.arg3@;
    assert(args =~= seq![a1, a2, a3]);
    assert(wire::wf_termv(a1)) by {
        assert(args[0] == a1);
    }
    assert(wire::wf_termv(a2)) by {
        assert(args[1] == a2);
    }
    assert(wire::wf_termv(a3)) by {
        assert(args[2] == a3);
    }
    lemma_chain3(ArgKind::Any, ArgKind::Any, ArgKind::Any, a1, a2, a3, rest);
    let e1 = wire::enc_termv(a1);
    let e2 = wire::enc_termv(a2);
    let e3 = wire::enc_termv(a3);
    assert(instruction::enc_instr(i) == seq![110u8] + e1 + e2 + e3);
    let s = instruction::enc_instr(i) + rest;
    lemma_instr_shape_3(110, e1, e2, e3, rest);
    assert(s[0] == 110);
    assert(s.skip(1) == e1 + e2 + e3 + rest);
    lemma_enc_termvs_3(a1, a2, a3);
    assert(instruction::enc_instr(i).len() == 1 + (e1 + e2 + e3).len());
    assert(instruction::enc_instr(i) == seq![instruction::opcode_of(i)] + wire::enc_termvs(args));
}

/// The canonical bytes of this instruction type decode back to it.
#[verifier::rlimit(100)]
proof fn lemma_instr_111(x: instruction::BsAdd, rest: Seq<u8>)
    requires
        wf_instruction(Instruction::BsAdd(x)),
    ensures
        instruction::enc_instr(Instruction::BsAdd(x)).len() >= 1,
        instruction::enc_instr(Instruction::BsAdd(x)) == seq![
            instruction::opcode_of(Instruction::BsAdd(x)),
        ] + wire::enc_termvs(instruction::args_of(Instruction::BsAdd(x))),
        instruction::dec_instr(instruction::enc_instr(Instruction::BsAdd(x)) + rest) == Ok::<
            _,
            DecodeErrorV,
        >((
            instruction::opcode_of(Instruction::BsAdd(x)),
            instruction::args_of(Instruction::BsAdd(x)),
            instruction::enc_instr(Instruction::BsAdd(x)).len(),
        )),
{
    let i = Instruction::BsAdd(x);
    let args = instruction::args_of(i);
    let a1 = x.arg1@;
    let a2 = x.arg2@;
    let a3 = x.arg3@;
    let a4 = x.arg4@;
    let a5 = x.arg5@;
    assert(args =~= seq![a1, a2, a3, a4, a5]);
    assert(wire::wf_termv(a1)) by {
        assert(args[0] == a1);
    }
    assert(wire::wf_termv(a2)) by {
        assert(args[1] == a2);
    }
    assert(wire::wf_termv(a3)) by {
        assert(args[2] == a3);
    }
    assert(wire::wf_termv(a4)) by {
        assert(args[3] == a4);
    }
    assert(wire::wf_termv(a5)) by {
        assert(args[4] == a5);
    }
    lemma_chain5(ArgKind::Any, ArgKind::Any, ArgKind::Any, ArgKind::Any, ArgKind::Any, a1, a2, a3, a4, a5, rest);
    let e1 = wire::enc_termv(a1);
    let e2 = wire::enc_termv(a2);
    let e3 = wire::enc_termv(a3);
    let e4 = wire::enc_termv(a4);
    let e5 = wire::enc_termv(a5);
    assert(instruction::enc_instr(i) == seq![111u8] + e1 + e2 + e3 + e4 + e5);
    let s = instruction::enc_instr(i) + rest;
    lemma_instr_shape_5(111, e1, e2, e3, e4, e5, rest);
    assert(s[0] == 111);
    assert(s.skip(1) == e1 + e2 + e3 + e4 + e5 + rest);
    lemma_enc_termvs_5(a1, a2, a3, a4, a5);
    assert(instruction::enc_instr(i).len() == 1 + (e1 + e2 + e3 + e4 + e5).len());
    assert(instruction::enc_instr(i) == seq![instruction::opcode_of(i)] + wire::enc_termvs(args));
}

/// The canonical bytes of this instruction type decode back to it.
#[verifier::rlimit(100)]
proof fn lemma_instr_112(x: instruction::Apply, rest: Seq<u8>)
    requires
        wf_instruction(Instruction::Apply(x)),
    ensures
        instruction::enc_instr(Instruction::Apply(x)).len() >= 1,
        instruction::enc_instr(Instruction::Apply(x)) == seq![
            instruction::opcode_of(Instruction::Apply(x)),
        ] + wire::enc_termvs(instruction::args_of(Instruction::Apply(x))),
        instruction::dec_instr(instruction::enc_instr(Instruction::Apply(x)) + rest) == Ok::<
            _,
            DecodeErrorV,
        >((
            instruction::opcode_of(Instruction::Apply(x)),
            instruction::args_of(Instruction::Apply(x)),
            instruction::enc_instr(Instruction::Apply(x)).len(),
        )),
{
    let i = Instruction::Apply(x);
    let args = instruction::args_of(i);
    let a1 = x.arg1@;
    assert(args =~= seq![a1]);
    assert(wire::wf_termv(a1)) by {
        assert(args[0] == a1);
    }
    lemma_chain1(ArgKind::Any, a1, rest);
    let e1 = wire::enc_termv(a1);
    assert(instruction::enc_instr(i) == seq![112u8] + e1);
    let s = instruction::enc_instr(i) + rest;
    lemma_instr_shape_1(112, e1, rest);
    assert(s[0] == 112);
    assert(s.skip(1) == e1 + rest);
    lemma_enc_termvs_1(a1);
    assert(instruction::enc_instr(i).len() == 1 + (e1).len());
    assert(instruction::enc_instr(i) == seq![instruction::opcode_of(i)] + wire::enc_termvs(args));
}

/// The canonical bytes of this instruction type decode back to it.
#[verifier::rlimit(100)]
proof fn lemma_instr_113(x: instruction::ApplyLast, rest: Seq<u8>)
    requires
        wf_instruction(Instruction::ApplyLast(x)),
    ensures
        instruction::enc_instr(Instruction::ApplyLast(x)).len() >= 1,
        instruction::enc_instr(Instruction::ApplyLast(x)) == seq![
            instruction::opcode_of(Instruction::ApplyLast(x)),
        ] + wire::enc_termvs(instruction::args_of(Instruction::ApplyLast(x))),
        instruction::dec_instr(instruction::enc_instr(Instruction::ApplyLast(x)) + rest) == Ok::<
            _,
            DecodeErrorV,
        >((
            instruction::opcode_of(Instruction::ApplyLast(x)),
            instruction::args_of(Instruction::ApplyLast(x)),
            instruction::enc_instr(Instruction::ApplyLast(x)).len(),
        )),
{
    let i = Instruction::ApplyLast(x);
    let args = instruction::args_of(i);
    let a1 = x.arg1@;
    let a2 = x.arg2@;
    assert(args =~= seq![a1, a2]);
    assert(wire::wf_termv(a1)) by {
        assert(args[0] == a1);
    }
    assert(wire::wf_termv(a2)) by {
        assert(args[1] == a2);
    }
    lemma_chain2(ArgKind::Any, ArgKind::Any, a1, a2, rest);
    let e1 = wire::enc_termv(a1);
    let e2 = wire::enc_termv(a2);
    assert(instruction::enc_instr(i) == seq![113u8] + e1 + e2);
    let s = instruction::enc_instr(i) + rest;
    lemma_instr_shape_2(113, e1, e2, rest);
    assert(s[0] == 113);
    assert(s.skip(1) == e1 + e2 + rest);
    lemma_enc_termvs_2(a1, a2);
    assert(instruction::enc_instr(i).len() == 1 + (e1 + e2).len());
    assert(instruction::enc_instr(i) == seq![instruction::opcode_of(i)] + wire::enc_termvs(args));
}

/// The canonical bytes of this instruction type decode back to it.
#[verifier::rlimit(100)]
proof fn lemma_instr_114(x: instruction::IsBoolean, rest: Seq<u8>)
    requires
        wf_instruction(Instruction::IsBoolean(x)),
    ensures
        instruction::enc_instr(Instruction::IsBoolean(x)).len() >= 1,
        instruction::enc_instr(Instruction::IsBoolean(x)) == seq![
            instruction::opcode_of(Instruction::IsBoolean(x)),
        ] + wire::enc_termvs(instruction::args_of(Instruction::IsBoolean(x))),
        instruction::dec_instr(instruction::enc_instr(Instruction::IsBoolean(x)) + rest) == Ok::<
            _,
            DecodeErrorV,
        >((
            instruction::opcode_of(Instruction::IsBoolean(x)),
            instruction::args_of(Instruction::IsBoolean(x)),
            instruction::enc_instr(Instruction::IsBoolean(x)).len(),
        )),
{
    let i = Instruction::IsBoolean(x);
    let args = instruction::args_of(i);
    let a1 = x.arg1@;
    let a2 = x.arg2@;
    assert(args =~= seq![a1, a2]);
    assert(wire::wf_termv(a1)) by {
        assert(args[0] == a1);
    }
    assert(wire::wf_termv(a2)) by {
        assert(args[1] == a2);
    }
    lemma_chain2(ArgKind::Any, ArgKind::Any, a1, a2, rest);
    let e1 = wire::enc_termv(a1);
    let e2 = wire::enc_termv(a2);
    assert(instruction::enc_instr(i) == seq![114u8] + e1 + e2);
    let s = instruction::enc_instr(i) + rest;
    lemma_instr_shape_2(114, e1, e2, rest);
    assert(s[0] == 114);
    assert(s.skip(1) == e1 + e2 + rest);
    lemma_enc_termvs_2(a1, a2);
    assert(instruction::enc_instr(i).len() == 1 + (e1 + e2).len());
    assert(instruction::enc_instr(i) == seq![instruction::opcode_of(i)] + wire::enc_termvs(args));
}

/// The canonical bytes of this instruction type decode back to it.
#[verifier::rlimit(100)]
proof fn lemma_instr_115(x: instruction::IsFunction2, rest: Seq<u8>)
    requires
        wf_instruction(Instruction::IsFunction2(x)),
    ensures
        instruction::enc_instr(Instruction::IsFunction2(x)).len() >= 1,
        instruction::enc_instr(Instruction::IsFunction2(x)) == seq![
            instruction::opcode_of(Instruction::IsFunction2(x)),
        ] + wire::enc_termvs(instruction::args_of(Instruction::IsFunction2(x))),
        instruction::dec_instr(instruction::enc_instr(Instruction::IsFunction2(x)) + rest) == Ok::<
            _,
            DecodeErrorV,
        >((
            instruction::opcode_of(Instruction::IsFunction2(x)),
            instruction::args_of(Instruction::IsFunction2(x)),
            instruction::enc_instr(Instruction::IsFunction2(x)).len(),
        )),
{
    let i = Instruction::IsFunction2(x);
    let args = instruction::args_of(i);
    let a1 = x.arg1@;
    let a2 = x.arg2@;
    let a3 = x.arg3@;
    assert(args =~= seq![a1, a2, a3]);
    assert(wire::wf_termv(a1)) by {
        assert(args[0] == a1);
    }
    assert(wire::wf_termv(a2)) by {
        assert(args[1] == a2);
    }
    assert(wire::wf_termv(a3)) by {
        assert(args[2] == a3);
    }
    lemma_chain3(ArgKind::Any, ArgKind::Any, ArgKind::Any, a1, a2, a3, rest);
    let e1 = wire::enc_termv(a1);
    let e2 = wire::enc_termv(a2);
    let e3 = wire::enc_termv(a3);
    assert(instruction::enc_instr(i) == seq![115u8] + e1 + e2 + e3);
    let s = instruction::enc_instr(i) + rest;
    lemma_instr_shape_3(115, e1, e2, e3, rest);
    assert(s[0] == 115);
    assert(s.skip(1) == e1 + e2 + e3 + rest);
    lemma_enc_termvs_3(a1, a2, a3);
    assert(instruction::enc_instr(i).len() == 1 + (e1 + e2 + e3).len());
    assert(instruction::enc_instr(i) == seq![instruction::opcode_of(i)] + wire::enc_termvs(args));
}

/// The canonical bytes of this instruction type decode back to it.
#[verifier::rlimit(100)]
proof fn lemma_instr_116(x: instruction::BsStartMatch2, rest: Seq<u8>)
    requires
        wf_instruction(Instruction::BsStartMatch2(x)),
    ensures
        instruction::enc_instr(Instruction::BsStartMatch2(x)).len() >= 1,
        instruction::enc_instr(Instruction::BsStartMatch2(x)) == seq![
            instruction::opcode_of(Instruction::BsStartMatch2(x)),
        ] + wire::enc_termvs(instruction::args_of(Instruction::BsStartMatch2(x))),
        instruction::dec_instr(instruction::enc_instr(Instruction::BsStartMatch2(x)) + rest) == Ok::<
            _,
            DecodeErrorV,
        >((
            instruction::opcode_of(Instruction::BsStartMatch2(x)),
            instruction::args_of(Instruction::BsStartMatch2(x)),
            instruction::enc_instr(Instruction::BsStartMatch2(x)).len(),
        )),
{
    let i = Instruction::BsStartMatch2(x);
    let args = instruction::args_of(i);
    let a1 = x.arg1@;
    let a2 = x.arg2@;
    let a3 = x.arg3@;
    let a4 = x.arg4@;
    let a5 = x.arg5@;
    assert(args =~= seq![a1, a2, a3, a4, a5]);
    assert(wire::wf_termv(a1)) by {
        assert(args[0] == a1);
    }
    assert(wire::wf_termv(a2)) by {
        assert(args[1] == a2);
    }
    assert(wire::wf_termv(a3)) by {
        assert(args[2] == a3);
    }
    assert(wire::wf_termv(a4)) by {
        assert(args[3] == a4);
    }
    assert(wire::wf_termv(a5)) by {
        assert(args[4] == a5);
    }
    lemma_chain5(ArgKind::Any, ArgKind::Any, ArgKind::Any, ArgKind::Any, ArgKind::Any, a1, a2, a3, a4, a5, rest);
    let e1 = wire::enc_termv(a1);
    let e2 = wire::enc_termv(a2);
    let e3 = wire::enc_termv(a3);
    let e4 = wire::enc_termv(a4);
    let e5 = wire::enc_termv(a5);
    assert(instruction::enc_instr(i) == seq![116u8] + e1 + e2 + e3 + e4 + e5);
    let s = instruction::enc_instr(i) + rest;
    lemma_instr_shape_5(116, e1, e2, e3, e4, e5, rest);
    assert(s[0] == 116);
    assert(s.skip(1) == e1 + e2 + e3 + e4 + e5 + rest);
    lemma_enc_termvs_5(a1, a2, a3, a4, a5);
    assert(instruction::enc_instr(i).len() == 1 + (e1 + e2 + e3 + e4 + e5).len());
    assert(instruction::enc_instr(i) == seq![instruction::opcode_of(i)] + wire::enc_termvs(args));
}

/// The canonical bytes of this instruction type decode back to it.
#[verifier::rlimit(100)]
proof fn lemma_instr_117(x: instruction::BsGetInteger2, rest: Seq<u8>)
    requires
        wf_instruction(Instruction::BsGetInteger2(x)),
    ensures
        instruction::enc_instr(Instruction::BsGetInteger2(x)).len() >= 1,
        instruction::enc_instr(Instruction::BsGetInteger2(x)) == seq![
            instruction::opcode_of(Instruction::BsGetInteger2(x)),
        ] + wire::enc_termvs(instruction::args_of(Instruction::BsGetInteger2(x))),
        instruction::dec_instr(instruction::enc_instr(Instruction::BsGetInteger2(x)) + rest) == Ok::<
            _,
            DecodeErrorV,
        >((
            instruction::opcode_of(Instruction::BsGetInteger2(x)),
            instruction::args_of(Instruction::BsGetInteger2(x)),
            instruction::enc_instr(Instruction::BsGetInteger2(x)).len(),
        )),
{
    let i = Instruction::BsGetInteger2(x);
    let args = instruction::args_of(i);
    let a1 = x.arg1@;
    let a2 = x.arg2@;
    let a3 = x.arg3@;
    let a4 = x.arg4@;
    let a5 = x.arg5@;
    let a6 = x.arg6@;
    let a7 = x.arg7@;
    assert(args =~= seq![a1, a2, a3, a4, a5, a6, a7]);
    assert(wire::wf_termv(a1)) by {
        assert(args[0] == a1);
    }
    assert(wire::wf_termv(a2)) by {
        assert(args[1] == a2);
    }
    assert(wire::wf_termv(a3)) by {
        assert(args[2] == a3);
    }
    assert(wire::wf_termv(a4)) by {
        assert(args[3] == a4);
    }
    assert(wire::wf_termv(a5)) by {
        assert(args[4] == a5);
    }
    assert(wire::wf_termv(a6)) by {
        assert(args[5] == a6);
    }
    assert(wire::wf_termv(a7)) by {
        assert(args[6] == a7);
    }
    lemma_chain7(ArgKind::Any, ArgKind::Any, ArgKind::Any, ArgKind::Any, ArgKind::Any, ArgKind::Any, ArgKind::Any, a1, a2, a3, a4, a5, a6, a7, rest);
    let e1 = wire::enc_termv(a1);
    let e2 = wire::enc_termv(a2);
    let e3 = wire::enc_termv(a3);
    let e4 = wire::enc_termv(a4);
    let e5 = wire::enc_termv(a5);
    let e6 = wire::enc_termv(a6);
    let e7 = wire::enc_termv(a7);
    assert(instruction::enc_instr(i) == seq![117u8] + e1 + e2 + e3 + e4 + e5 + e6 + e7);
    let s = instruction::enc_instr(i) + rest;
    lemma_instr_shape_7(117, e1, e2, e3, e4, e5, e6, e7, rest);
    assert(s[0] == 117);
    assert(s.skip(1) == e1 + e2 + e3 + e4 + e5 + e6 + e7 + rest);
    lemma_enc_termvs_7(a1, a2, a3, a4, a5, a6, a7);
    assert(instruction::enc_instr(i).len() == 1 + (e1 + e2 + e3 + e4 + e5 + e6 + e7).len());
    assert(instruction::enc_instr(i) == seq![instruction::opcode_of(i)] + wire::enc_termvs(args));
}

/// The canonical bytes of this instruction type decode back to it.
#[verifier::rlimit(100)]
proof fn lemma_instr_118(x: instruction::BsGetFloat2, rest: Seq<u8>)
    requires
        wf_instruction(Instruction::BsGetFloat2(x)),
    ensures
        instruction::enc_instr(Instruction::BsGetFloat2(x)).len() >= 1,
        instruction::enc_instr(Instruction::BsGetFloat2(x)) == seq![
            instruction::opcode_of(Instruction::BsGetFloat2(x)),
        ] + wire::enc_termvs(instruction::args_of(Instruction::BsGetFloat2(x))),
        instruction::dec_instr(instruction::enc_instr(Instruction::BsGetFloat2(x)) + rest) == Ok::<
            _,
            DecodeErrorV,
        >((
            instruction::opcode_of(Instruction::BsGetFloat2(x)),
            instruction::args_of(Instruction::BsGetFloat2(x)),
            instruction::enc_instr(Instruction::BsGetFloat2(x)).len(),
        )),
{
    let i = Instruction::BsGetFloat2(x);
    let args = instruction::args_of(i);
    let a1 = x.arg1@;
    let a2 = x.arg2@;
    let a3 = x.arg3@;
    let a4 = x.arg4@;
    let a5 = x.arg5@;
    let a6 = x.arg6@;
    let a7 = x.arg7@;
    assert(args =~= seq![a1, a2, a3, a4, a5, a6, a7]);
    assert(wire::wf_termv(a1)) by {
        assert(args[0] == a1);
    }
    assert(wire::wf_termv(a2)) by {
        assert(args[1] == a2);
    }
    assert(wire::wf_termv(a3)) by {
        assert(args[2] == a3);
    }
    assert(wire::wf_termv(a4)) by {
        assert(args[3] == a4);
    }
    assert(wire::wf_termv(a5)) by {
        assert(args[4] == a5);
    }
    assert(wire::wf_termv(a6)) by {
        assert(args[5] == a6);
    }
    assert(wire::wf_termv(a7)) by {
        assert(args[6] == a7);
    }
    lemma_chain7(ArgKind::Any, ArgKind::Any, ArgKind::Any, ArgKind::Any, ArgKind::Any, ArgKind::Any, ArgKind::Any, a1, a2, a3, a4, a5, a6, a7, rest);
    let e1 = wire::enc_termv(a1);
    let e2 = wire::enc_termv(a2);
    let e3 = wire::enc_termv(a3);
    let e4 = wire::enc_termv(a4);
    let e5 = wire::enc_termv(a5);
    let e6 = wire::enc_termv(a6);
    let e7 = wire::enc_termv(a7);
    assert(instruction::enc_instr(i) == seq![118u8] + e1 + e2 + e3 + e4 + e5 + e6 + e7);
    let s = instruction::enc_instr(i) + rest;
    lemma_instr_shape_7(118, e1, e2, e3, e4, e5, e6, e7, rest);
    assert(s[0] == 118);
    assert(s.skip(1) == e1 + e2 + e3 + e4 + e5 + e6 + e7 + rest);
    lemma_enc_termvs_7(a1, a2, a3, a4, a5, a6, a7);
    assert(instruction::enc_instr(i).len() == 1 + (e1 + e2 + e3 + e4 + e5 + e6 + e7).len());
    assert(instruction::enc_instr(i) == seq![instruction::opcode_of(i)] + wire::enc_termvs(args));
}

/// The canonical bytes of this instruction type decode back to it.
#[verifier::rlimit(100)]
proof fn lemma_instr_119(x: instruction::BsGetBinary2, rest: Seq<u8>)
    requires
        wf_instruction(Instruction::BsGetBinary2(x)),
    ensures
        instruction::enc_instr(Instruction::BsGetBinary2(x)).len() >= 1,
        instruction::enc_instr(Instruction::BsGetBinary2(x)) == seq![
            instruction::opcode_of(Instruction::BsGetBinary2(x)),
        ] + wire::enc_termvs(instruction::args_of(Instruction::BsGetBinary2(x))),
        instruction::dec_instr(instruction::enc_instr(Instruction::BsGetBinary2(x)) + rest) == Ok::<
            _,
            DecodeErrorV,
        >((
            instruction::opcode_of(Instruction::BsGetBinary2(x)),
            instruction::args_of(Instruction::BsGetBinary2(x)),
            instruction::enc_instr(Instruction::BsGetBinary2(x)).len(),
        )),
{
    let i = Instruction::BsGetBinary2(x);
    let args = instruction::args_of(i);
    let a1 = x.arg1@;
    let a2 = x.arg2@;
    let a3 = x.arg3@;
    let a4 = x.arg4@;
    let a5 = x.arg5@;
    let a6 = x.arg6@;
    let a7 = x.arg7@;
    assert(args =~= seq![a1, a2, a3, a4, a5, a6, a7]);
    assert(wire::wf_termv(a1)) by {
        assert(args[0] == a1);
    }
    assert(wire::wf_termv(a2)) by {
        assert(args[1] == a2);
    }
    assert(wire::wf_termv(a3)) by {
        assert(args[2] == a3);
    }
    assert(wire::wf_termv(a4)) by {
        assert(args[3] == a4);
    }
    assert(wire::wf_termv(a5)) by {
        assert(args[4] == a5);
    }
    assert(wire::wf_termv(a6)) by {
        assert(args[5] == a6);
    }
    assert(wire::wf_termv(a7)) by {
        assert(args[6] == a7);
    }
    lemma_chain7(ArgKind::Any, ArgKind::Any, ArgKind::Any, ArgKind::Any, ArgKind::Any, ArgKind::Any, ArgKind::Any, a1, a2, a3, a4, a5, a6, a7, rest);
    let e1 = wire::enc_termv(a1);
    let e2 = wire::enc_termv(a2);
    let e3 = wire::enc_termv(a3);
    let e4 = wire::enc_termv(a4);
    let e5 = wire::enc_termv(a5);
    let e6 = wire::enc_termv(a6);
    let e7 = wire::enc_termv(a7);
    assert(instruction::enc_instr(i) == seq![119u8] + e1 + e2 + e3 + e4 + e5 + e6 + e7);
    let s = instruction::enc_instr(i) + rest;
    lemma_instr_shape_7(119, e1, e2, e3, e4, e5, e6, e7, rest);
    assert(s[0] == 119);
    assert(s.skip(1) == e1 + e2 + e3 + e4 + e5 + e6 + e7 + rest);
    lemma_enc_termvs_7(a1, a2, a3, a4, a5, a6, a7);
    assert(instruction::enc_instr(i).len() == 1 + (e1 + e2 + e3 + e4 + e5 + e6 + e7).len());
    assert(instruction::enc_instr(i) == seq![instruction::opcode_of(i)] + wire::enc_termvs(args));
}

/// The canonical bytes of this instruction type decode back to it.
#[verifier::rlimit(100)]
proof fn lemma_instr_120(x: instruction::BsSkipBits2, rest: Seq<u8>)
    requires
        wf_instruction(Instruction::BsSkipBits2(x)),
    ensures
        instruction::enc_instr(Instruction::BsSkipBits2(x)).len() >= 1,
        instruction::enc_instr(Instruction::BsSkipBits2(x)) == seq![
            instruction::opcode_of(Instruction::BsSkipBits2(x)),
        ] + wire::enc_termvs(instruction::args_of(Instruction::BsSkipBits2(x))),
        instruction::dec_instr(instruction::enc_instr(Instruction::BsSkipBits2(x)) + rest) == Ok::<
            _,
            DecodeErrorV,
        >((
            instruction::opcode_of(Instruction::BsSkipBits2(x)),
            instruction::args_of(Instruction::BsSkipBits2(x)),
            instruction::enc_instr(Instruction::BsSkipBits2(x)).len(),
        )),
{
    let i = Instruction::BsSkipBits2(x);
    let args = instruction::args_of(i);
    let a1 = x.arg1@;
    let a2 = x.arg2@;
    let a3 = x.arg3@;
    let a4 = x.arg4@;
    let a5 = x.arg5@;
    assert(args =~= seq![a1, a2, a3, a4, a5]);
    assert(wire::wf_termv(a1)) by {
        assert(args[0] == a1);
    }
    assert(wire::wf_termv(a2)) by {
        assert(args[1] == a2);
    }
    assert(wire::wf_termv(a3)) by {
        assert(args[2] == a3);
    }
    assert(wire::wf_termv(a4)) by {
        assert(args[3] == a4);
    }
    assert(wire::wf_termv(a5)) by {
        assert(args[4] == a5);
    }
    lemma_chain5(ArgKind::Any, ArgKind::Any, ArgKind::Any, ArgKind::Any, ArgKind::Any, a1, a2, a3, a4, a5, rest);
    let e1 = wire::enc_termv(a1);
    let e2 = wire::enc_termv(a2);
    let e3 = wire::enc_termv(a3);
    let e4 = wire::enc_termv(a4);
    let e5 = wire::enc_termv(a5);
    assert(instruction::enc_instr(i) == seq![120u8] + e1 + e2 + e3 + e4 + e5);
    let s = instruction::enc_instr(i) + rest;
    lemma_instr_shape_5(120, e1, e2, e3, e4, e5, rest);
    assert(s[0] == 120);
    assert(s.skip(1) == e1 + e2 + e3 + e4 + e5 + rest);
    lemma_enc_termvs_5(a1, a2, a3, a4, a5);
    assert(instruction::enc_instr(i).len() == 1 + (e1 + e2 + e3 + e4 + e5).len());
    assert(instruction::enc_instr(i) == seq![instruction::opcode_of(i)] + wire::enc_termvs(args));
}

/// The canonical bytes of this instruction type decode back to it.
#[verifier::rlimit(100)]
proof fn lemma_instr_121(x: instruction::BsTestTail2, rest: Seq<u8>)
    requires
        wf_instruction(Instruction::BsTestTail2(x)),
    ensures
        instruction::enc_instr(Instruction::BsTestTail2(x)).len() >= 1,
        instruction::enc_instr(Instruction::BsTestTail2(x)) == seq![
            instruction::opcode_of(Instruction::BsTestTail2(x)),
        ] + wire::enc_termvs(instruction::args_of(Instruction::BsTestTail2(x))),
        instruction::dec_instr(instruction::enc_instr(Instruction::BsTestTail2(x)) + rest) == Ok::<
            _,
            DecodeErrorV,
        >((
            instruction::opcode_of(Instruction::BsTestTail2(x)),
            instruction::args_of(Instruction::BsTestTail2(x)),
            instruction::enc_instr(Instruction::BsTestTail2(x)).len(),
        )),
{
    let i = Instruction::BsTestTail2(x);
    let args = instruction::args_of(i);
    let a1 = x.arg1@;
    let a2 = x.arg2@;
    let a3 = x.arg3@;
    assert(args =~= seq![a1, a2, a3]);
    assert(wire::wf_termv(a1)) by {
        assert(args[0] == a1);
    }
    assert(wire::wf_termv(a2)) by {
        assert(args[1] == a2);
    }
    assert(wire::wf_termv(a3)) by {
        assert(args[2] == a3);
    }
    lemma_chain3(ArgKind::Any, ArgKind::Any, ArgKind::Any, a1, a2, a3, rest);
    let e1 = wire::enc_termv(a1);
    let e2 = wire::enc_termv(a2);
    let e3 = wire::enc_termv(a3);
    assert(instruction::enc_instr(i) == seq![121u8] + e1 + e2 + e3);
    let s = instruction::enc_instr(i) + rest;
    lemma_instr_shape_3(121, e1, e2, e3, rest);
    assert(s[0] == 121);
    assert(s.skip(1) == e1 + e2 + e3 + rest);
    lemma_enc_termvs_3(a1, a2, a3);
    assert(instruction::enc_instr(i).len() == 1 + (e1 + e2 + e3).len());
    assert(instruction::enc_instr(i) == seq![instruction::opcode_of(i)] + wire::enc_termvs(args));
}

/// The canonical bytes of this instruction type decode back to it.
#[verifier::rlimit(100)]
proof fn lemma_instr_122(x: instruction::BsSave2, rest: Seq<u8>)
    requires
        wf_instruction(Instruction::BsSave2(x)),
    ensures
        instruction::enc_instr(Instruction::BsSave2(x)).len() >= 1,
        instruction::enc_instr(Instruction::BsSave2(x)) == seq![
            instruction::opcode_of(Instruction::BsSave2(x)),
        ] + wire::enc_termvs(instruction::args_of(Instruction::BsSave2(x))),
        instruction::dec_instr(instruction::enc_instr(Instruction::BsSave2(x)) + rest) == Ok::<
            _,
            DecodeErrorV,
        >((
            instruction::opcode_of(Instruction::BsSave2(x)),
            instruction::args_of(Instruction::BsSave2(x)),
            instruction::enc_instr(Instruction::BsSave2(x)).len(),
        )),
{
    let i = Instruction::BsSave2(x);
    let args = instruction::args_of(i);
    let a1 = x.arg1@;
    let a2 = x.arg2@;
    assert(args =~= seq![a1, a2]);
    assert(wire::wf_termv(a1)) by {
        assert(args[0] == a1);
    }
    assert(wire::wf_termv(a2)) by {
        assert(args[1] == a2);
    }
    lemma_chain2(ArgKind::Any, ArgKind::Any, a1, a2, rest);
    let e1 = wire::enc_termv(a1);
    let e2 = wire::enc_termv(a2);
    assert(instruction::enc_instr(i) == seq![122u8] + e1 + e2);
    let s = instruction::enc_instr(i) + rest;
    lemma_instr_shape_2(122, e1, e2, rest);
    assert(s[0] == 122);
    assert(s.skip(1) == e1 + e2 + rest);
    lemma_enc_termvs_2(a1, a2);
    assert(instruction::enc_instr(i).len() == 1 + (e1 + e2).len());
    assert(instruction::enc_instr(i) == seq![instruction::opcode_of(i)] + wire::enc_termvs(args));
}

/// The canonical bytes of this instruction type decode back to it.
#[verifier::rlimit(100)]
proof fn lemma_instr_123(x: instruction::BsRestore2, rest: Seq<u8>)
    requires
        wf_instruction(Instruction::BsRestore2(x)),
    ensures
        instruction::enc_instr(Instruction::BsRestore2(x)).len() >= 1,
        instruction::enc_instr(Instruction::BsRestore2(x)) == seq![
            instruction::opcode_of(Instruction::BsRestore2(x)),
        ] + wire::enc_termvs(instruction::args_of(Instruction::BsRestore2(x))),
        instruction::dec_instr(instruction::enc_instr(Instruction::BsRestore2(x)) + rest) == Ok::<
            _,
            DecodeErrorV,
        >((
            instruction::opcode_of(Instruction::BsRestore2(x)),
            instruction::args_of(Instruction::BsRestore2(x)),
            instruction::enc_instr(Instruction::BsRestore2(x)).len(),
        )),
{
    let i = Instruction::BsRestore2(x);
    let args = instruction::args_of(i);
    let a1 = x.arg1@;
    let a2 = x.arg2@;
    assert(args =~= seq![a1, a2]);
    assert(wire::wf_termv(a1)) by {
        assert(args[0] == a1);
    }
    assert(wire::wf_termv(a2)) by {
        assert(args[1] == a2);
    }
    lemma_chain2(ArgKind::Any, ArgKind::Any, a1, a2, rest);
    let e1 = wire::enc_termv(a1);
    let e2 = wire::enc_termv(a2);
    assert(instruction::enc_instr(i) == seq![123u8] + e1 + e2);
    let s = instruction::enc_instr(i) + rest;
    lemma_instr_shape_2(123, e1, e2, rest);
    assert(s[0] == 123);
    assert(s.skip(1) == e1 + e2 + rest);
    lemma_enc_termvs_2(a1, a2);
    assert(instruction::enc_instr(i).len() == 1 + (e1 + e2).len());
    assert(instruction::enc_instr(i) == seq![instruction::opcode_of(i)] + wire::enc_termvs(args));
}

/// The canonical bytes of this instruction type decode back to it.
#[verifier::rlimit(100)]
proof fn lemma_instr_124(x: instruction::GcBif1, rest: Seq<u8>)
    requires
        wf_instruction(Instruction::GcBif1(x)),
    ensures
        instruction::enc_instr(Instruction::GcBif1(x)).len() >= 1,
        instruction::enc_instr(Instruction::GcBif1(x)) == seq![
            instruction::opcode_of(Instruction::GcBif1(x)),
        ] + wire::enc_termvs(instruction::args_of(Instruction::GcBif1(x))),
        instruction::dec_instr(instruction::enc_instr(Instruction::GcBif1(x)) + rest) == Ok::<
            _,
            DecodeErrorV,
        >((
            instruction::opcode_of(Instruction::GcBif1(x)),
            instruction::args_of(Instruction::GcBif1(x)),
            instruction::enc_instr(Instruction::GcBif1(x)).len(),
        )),
{
    let i = Instruction::GcBif1(x);
    let args = instruction::args_of(i);
    let a1 = x.arg1@;
    let a2 = x.arg2@;
    let a3 = x.arg3@;
    let a4 = x.arg4@;
    let a5 = x.arg5@;
    assert(args =~= seq![a1, a2, a3, a4, a5]);
    assert(wire::wf_termv(a1)) by {
        assert(args[0] == a1);
    }
    assert(wire::wf_termv(a2)) by {
        assert(args[1] == a2);
    }
    assert(wire::wf_termv(a3)) by {
        assert(args[2] == a3);
    }
    assert(wire::wf_termv(a4)) by {
        assert(args[3] == a4);
    }
    assert(wire::wf_termv(a5)) by {
        assert(args[4] == a5);
    }
    lemma_chain5(ArgKind::Any, ArgKind::Any, ArgKind::Any, ArgKind::Any, ArgKind::Any, a1, a2, a3, a4, a5, rest);
    let e1 = wire::enc_termv(a1);
    let e2 = wire::enc_termv(a2);
    let e3 = wire::enc_termv(a3);
    let e4 = wire::enc_termv(a4);
    let e5 = wire::enc_termv(a5);
    assert(instruction::enc_instr(i) == seq![124u8] + e1 + e2 + e3 + e4 + e5);
    let s = instruction::enc_instr(i) + rest;
    lemma_instr_shape_5(124, e1, e2, e3, e4, e5, rest);
    assert(s[0] == 124);
    assert(s.skip(1) == e1 + e2 + e3 + e4 + e5 + rest);
    lemma_enc_termvs_5(a1, a2, a3, a4, a5);
    assert(instruction::enc_instr(i).len() == 1 + (e1 + e2 + e3 + e4 + e5).len());
    assert(instruction::enc_instr(i) == seq![instruction::opcode_of(i)] + wire::enc_termvs(args));
}

/// The canonical bytes of this instruction type decode back to it.
#[verifier::rlimit(100)]
proof fn lemma_instr_125(x: instruction::GcBif2, rest: Seq<u8>)
    requires
        wf_instruction(Instruction::GcBif2(x)),
    ensures
        instruction::enc_instr(Instruction::GcBif2(x)).len() >= 1,
        instruction::enc_instr(Instruction::GcBif2(x)) == seq![
            instruction::opcode_of(Instruction::GcBif2(x)),
        ] + wire::enc_termvs(instruction::args_of(Instruction::GcBif2(x))),
        instruction::dec_instr(instruction::enc_instr(Instruction::GcBif2(x)) + rest) == Ok::<
            _,
            DecodeErrorV,
        >((
            instruction::opcode_of(Instruction::GcBif2(x)),
            instruction::args_of(Instruction::GcBif2(x)),
            instruction::enc_instr(Instruction::GcBif2(x)).len(),
        )),
{
    let i = Instruction::GcBif2(x);
    let args = instruction::args_of(i);
    let a1 = x.arg1@;
    let a2 = x.arg2@;
    let a3 = x.arg3@;
    let a4 = x.arg4@;
    let a5 = x.arg5@;
    let a6 = x.arg6@;
    assert(args =~= seq![a1, a2, a3, a4, a5, a6]);
    assert(wire::wf_termv(a1)) by {
        assert(args[0] == a1);
    }
    assert(wire::wf_termv(a2)) by {
        assert(args[1] == a2);
    }
    assert(wire::wf_termv(a3)) by {
        assert(args[2] == a3);
    }
    assert(wire::wf_termv(a4)) by {
        assert(args[3] == a4);
    }
    assert(wire::wf_termv(a5)) by {
        assert(args[4] == a5);
    }
    assert(wire::wf_termv(a6)) by {
        assert(args[5] == a6);
    }
    lemma_chain6(ArgKind::Any, ArgKind::Any, ArgKind::Any, ArgKind::Any, ArgKind::Any, ArgKind::Any, a1, a2, a3, a4, a5, a6, rest);
    let e1 = wire::enc_termv(a1);
    let e2 = wire::enc_termv(a2);
    let e3 = wire::enc_termv(a3);
    let e4 = wire::enc_termv(a4);
    let e5 = wire::enc_termv(a5);
    let e6 = wire::enc_termv(a6);
    assert(instruction::enc_instr(i) == seq![125u8] + e1 + e2 + e3 + e4 + e5 + e6);
    let s = instruction::enc_instr(i) + rest;
    lemma_instr_shape_6(125, e1, e2, e3, e4, e5, e6, rest);
    assert(s[0] == 125);
    assert(s.skip(1) == e1 + e2 + e3 + e4 + e5 + e6 + rest);
    lemma_enc_termvs_6(a1, a2, a3, a4, a5, a6);
    assert(instruction::enc_instr(i).len() == 1 + (e1 + e2 + e3 + e4 + e5 + e6).len());
    assert(instruction::enc_instr(i) == seq![instruction::opcode_of(i)] + wire::enc_termvs(args));
}

/// The canonical bytes of this instruction type decode back to it.
#[verifier::rlimit(100)]
proof fn lemma_instr_126(x: instruction::BsFinal2, rest: Seq<u8>)
    requires
        wf_instruction(Instruction::BsFinal2(x)),
    ensures
        instruction::enc_instr(Instruction::BsFinal2(x)).len() >= 1,
        instruction::enc_instr(Instruction::BsFinal2(x)) == seq![
            instruction::opcode_of(Instruction::BsFinal2(x)),
        ] + wire::enc_termvs(instruction::args_of(Instruction::BsFinal2(x))),
        instruction::dec_instr(instruction::enc_instr(Instruction::BsFinal2(x)) + rest) == Ok::<
            _,
            DecodeErrorV,
        >((
            instruction::opcode_of(Instruction::BsFinal2(x)),
            instruction::args_of(Instruction::BsFinal2(x)),
            instruction::enc_instr(Instruction::BsFinal2(x)).len(),
        )),
{
    let i = Instruction::BsFinal2(x);
    let args = instruction::args_of(i);
    let a1 = x.arg1@;
    let a2 = x.arg2@;
    assert(args =~= seq![a1, a2]);
    assert(wire::wf_termv(a1)) by {
        assert(args[0] == a1);
    }
    assert(wire::wf_termv(a2)) by {
        assert(args[1] == a2);
    }
    lemma_chain2(ArgKind::Any, ArgKind::Any, a1, a2, rest);
    let e1 = wire::enc_termv(a1);
    let e2 = wire::enc_termv(a2);
    assert(instruction::enc_instr(i) == seq![126u8] + e1 + e2);
    let s = instruction::enc_instr(i) + rest;
    lemma_instr_shape_2(126, e1, e2, rest);
    assert(s[0] == 126);
    assert(s.skip(1) == e1 + e2 + rest);
    lemma_enc_termvs_2(a1, a2);
    assert(instruction::enc_instr(i).len() == 1 + (e1 + e2).len());
    assert(instruction::enc_instr(i) == seq![instruction::opcode_of(i)] + wire::enc_termvs(args));
}

/// The canonical bytes of this instruction type decode back to it.
#[verifier::rlimit(100)]
proof fn lemma_instr_127(x: instruction::BsBitsToBytes2, rest: Seq<u8>)
    requires
        wf_instruction(Instruction::BsBitsToBytes2(x)),
    ensures
        instruction::enc_instr(Instruction::BsBitsToBytes2(x)).len() >= 1,
        instruction::enc_instr(Instruction::BsBitsToBytes2(x)) == seq![
            instruction::opcode_of(Instruction::BsBitsToBytes2(x)),
        ] + wire::enc_termvs(instruction::args_of(Instruction::BsBitsToBytes2(x))),
        instruction::dec_instr(instruction::enc_instr(Instruction::BsBitsToBytes2(x)) + rest) == Ok::<
            _,
            DecodeErrorV,
        >((
            instruction::opcode_of(Instruction::BsBitsToBytes2(x)),
            instruction::args_of(Instruction::BsBitsToBytes2(x)),
            instruction::enc_instr(Instruction::BsBitsToBytes2(x)).len(),
        )),
{
    let i = Instruction::BsBitsToBytes2(x);
    let args = instruction::args_of(i);
    let a1 = x.arg1@;
    let a2 = x.arg2@;
    assert(args =~= seq![a1, a2]);
    assert(wire::wf_termv(a1)) by {
        assert(args[0] == a1);
    }
    assert(wire::wf_termv(a2)) by {
        assert(args[1] == a2);
    }
    lemma_chain2(ArgKind::Any, ArgKind::Any, a1, a2, rest);
    let e1 = wire::enc_termv(a1);
    let e2 = wire::enc_termv(a2);
    assert(instruction::enc_instr(i) == seq![127u8] + e1 + e2);
    let s = instruction::enc_instr(i) + rest;
    lemma_instr_shape_2(127, e1, e2, rest);
    assert(s[0] == 127);
    assert(s.skip(1) == e1 + e2 + rest);
    lemma_enc_termvs_2(a1, a2);
    assert(instruction::enc_instr(i).len() == 1 + (e1 + e2).len());
    assert(instruction::enc_instr(i) == seq![instruction::opcode_of(i)] + wire::enc_termvs(args));
}

/// The canonical bytes of this instruction type decode back to it.
#[verifier::rlimit(100)]
proof fn lemma_instr_128(x: instruction::PutLiteral, rest: Seq<u8>)
    requires
        wf_instruction(Instruction::PutLiteral(x)),
    ensures
        instruction::enc_instr(Instruction::PutLiteral(x)).len() >= 1,
        instruction::enc_instr(Instruction::PutLiteral(x)) == seq![
            instruction::opcode_of(Instruction::PutLiteral(x)),
        ] + wire::enc_termvs(instruction::args_of(Instruction::PutLiteral(x))),
        instruction::dec_instr(instruction::enc_instr(Instruction::PutLiteral(x)) + rest) == Ok::<
            _,
            DecodeErrorV,
        >((
            instruction::opcode_of(Instruction::PutLiteral(x)),
            instruction::args_of(Instruction::PutLiteral(x)),
            instruction::enc_instr(Instruction::PutLiteral(x)).len(),
        )),
{
    let i = Instruction::PutLiteral(x);
    let args = instruction::args_of(i);
    let a1 = x.arg1@;
    let a2 = x.arg2@;
    assert(args =~= seq![a1, a2]);
    assert(wire::wf_termv(a1)) by {
        assert(args[0] == a1);
    }
    assert(wire::wf_termv(a2)) by {
        assert(args[1] == a2);
    }
    lemma_chain2(ArgKind::Any, ArgKind::Any, a1, a2, rest);
    let e1 = wire::enc_termv(a1);
    let e2 = wire::enc_termv(a2);
    assert(instruction::enc_instr(i) == seq![128u8] + e1 + e2);
    let s = instruction::enc_instr(i) + rest;
    lemma_instr_shape_2(128, e1, e2, rest);
    assert(s[0] == 128);
    assert(s.skip(1) == e1 + e2 + rest);
    lemma_enc_termvs_2(a1, a2);
    assert(instruction::enc_instr(i).len() == 1 + (e1 + e2).len());
    assert(instruction::enc_instr(i) == seq![instruction::opcode_of(i)] + wire::enc_termvs(args));
}

/// The canonical bytes of this instruction type decode back to it.
#[verifier::rlimit(100)]
proof fn lemma_instr_129(x: instruction::IsBitstr, rest: Seq<u8>)
    requires
        wf_instruction(Instruction::IsBitstr(x)),
    ensures
        instruction::enc_instr(Instruction::IsBitstr(x)).len() >= 1,
        instruction::enc_instr(Instruction::IsBitstr(x)) == seq![
            instruction::opcode_of(Instruction::IsBitstr(x)),
        ] + wire::enc_termvs(instruction::args_of(Instruction::IsBitstr(x))),
        instruction::dec_instr(instruction::enc_instr(Instruction::IsBitstr(x)) + rest) == Ok::<
            _,
            DecodeErrorV,
        >((
            instruction::opcode_of(Instruction::IsBitstr(x)),
            instruction::args_of(Instruction::IsBitstr(x)),
            instruction::enc_instr(Instruction::IsBitstr(x)).len(),
        )),
{
    let i = Instruction::IsBitstr(x);
    let args = instruction::args_of(i);
    let a1 = x.arg1@;
    let a2 = x.arg2@;
    assert(args =~= seq![a1, a2]);
    assert(wire::wf_termv(a1)) by {
        assert(args[0] == a1);
    }
    assert(wire::wf_termv(a2)) by {
        assert(args[1] == a2);
    }
    lemma_chain2(ArgKind::Any, ArgKind::Any, a1, a2, rest);
    let e1 = wire::enc_termv(a1);
    let e2 = wire::enc_termv(a2);
    assert(instruction::enc_instr(i) == seq![129u8] + e1 + e2);
    let s = instruction::enc_instr(i) + rest;
    lemma_instr_shape_2(129, e1, e2, rest);
    assert(s[0] == 129);
    assert(s.skip(1) == e1 + e2 + rest);
    lemma_enc_termvs_2(a1, a2);
    assert(instruction::enc_instr(i).len() == 1 + (e1 + e2).len());
    assert(instruction::enc_instr(i) == seq![instruction::opcode_of(i)] + wire::enc_termvs(args));
}

/// The canonical bytes of this instruction type decode back to it.
#[verifier::rlimit(100)]
proof fn lemma_instr_130(x: instruction::BsContextToBinary, rest: Seq<u8>)
    requires
        wf_instruction(Instruction::BsContextToBinary(x)),
    ensures
        instruction::enc_instr(Instruction::BsContextToBinary(x)).len() >= 1,
        instruction::enc_instr(Instruction::BsContextToBinary(x)) == seq![
            instruction::opcode_of(Instruction::BsContextToBinary(x)),
        ] + wire::enc_termvs(instruction::args_of(Instruction::BsContextToBinary(x))),
        instruction::dec_instr(instruction::enc_instr(Instruction::BsContextToBinary(x)) + rest) == Ok::<
            _,
            DecodeErrorV,
        >((
            instruction::opcode_of(Instruction::BsContextToBinary(x)),
            instruction::args_of(Instruction::BsContextToBinary(x)),
            instruction::enc_instr(Instruction::BsContextToBinary(x)).len(),
        )),
{
    let i = Instruction::BsContextToBinary(x);
    let args = instruction::args_of(i);
    let a1 = x.arg1@;
    assert(args =~= seq![a1]);
    assert(wire::wf_termv(a1)) by {
        assert(args[0] == a1);
    }
    lemma_chain1(ArgKind::Any, a1, rest);
    let e1 = wire::enc_termv(a1);
    assert(instruction::enc_instr(i) == seq![130u8] + e1);
    let s = instruction::enc_instr(i) + rest;
    lemma_instr_shape_1(130, e1, rest);
    assert(s[0] == 130);
    assert(s.skip(1) == e1 + rest);
    lemma_enc_termvs_1(a1);
    assert(instruction::enc_instr(i).len() == 1 + (e1).len());
    assert(instruction::enc_instr(i) == seq![instruction::opcode_of(i)] + wire::enc_termvs(args));
}

/// The canonical bytes of this instruction type decode back to it.
#[verifier::rlimit(100)]
proof fn lemma_instr_131(x: instruction::BsTestUnit, rest: Seq<u8>)
    requires
        wf_instruction(Instruction::BsTestUnit(x)),
    ensures
        instruction::enc_instr(Instruction::BsTestUnit(x)).len() >= 1,
        instruction::enc_instr(Instruction::BsTestUnit(x)) == seq![
            instruction::opcode_of(Instruction::BsTestUnit(x)),
        ] + wire::enc_termvs(instruction::args_of(Instruction::BsTestUnit(x))),
        instruction::dec_instr(instruction::enc_instr(Instruction::BsTestUnit(x)) + rest) == Ok::<
            _,
            DecodeErrorV,
        >((
            instruction::opcode_of(Instruction::BsTestUnit(x)),
            instruction::args_of(Instruction::BsTestUnit(x)),
            instruction::enc_instr(Instruction::BsTestUnit(x)).len(),
        )),
{
    let i = Instruction::BsTestUnit(x);
    let args = instruction::args_of(i);
    let a1 = x.arg1@;
    let a2 = x.arg2@;
    let a3 = x.arg3@;
    assert(args =~= seq![a1, a2, a3]);
    assert(wire::wf_termv(a1)) by {
        assert(args[0] == a1);
    }
    assert(wire::wf_termv(a2)) by {
        assert(args[1] == a2);
    }
    assert(wire::wf_termv(a3)) by {
        assert(args[2] == a3);
    }
    lemma_chain3(ArgKind::Any, ArgKind::Any, ArgKind::Any, a1, a2, a3, rest);
    let e1 = wire::enc_termv(a1);
    let e2 = wire::enc_termv(a2);
    let e3 = wire::enc_termv(a3);
    assert(instruction::enc_instr(i) == seq![131u8] + e1 + e2 + e3);
    let s = instruction::enc_instr(i) + rest;
    lemma_instr_shape_3(131, e1, e2, e3, rest);
    assert(s[0] == 131);
    assert(s.skip(1) == e1 + e2 + e3 + rest);
    lemma_enc_termvs_3(a1, a2, a3);
    assert(instruction::enc_instr(i).len() == 1 + (e1 + e2 + e3).len());
    assert(instruction::enc_instr(i) == seq![instruction::opcode_of(i)] + wire::enc_termvs(args));
}

/// The canonical bytes of this instruction type decode back to it.
#[verifier::rlimit(100)]
proof fn lemma_instr_132(x: instruction::BsMatchString, rest: Seq<u8>)
    requires
        wf_instruction(Instruction::BsMatchString(x)),
    ensures
        instruction::enc_instr(Instruction::BsMatchString(x)).len() >= 1,
        instruction::enc_instr(Instruction::BsMatchString(x)) == seq![
            instruction::opcode_of(Instruction::BsMatchString(x)),
        ] + wire::enc_termvs(instruction::args_of(Instruction::BsMatchString(x))),
        instruction::dec_instr(instruction::enc_instr(Instruction::BsMatchString(x)) + rest) == Ok::<
            _,
            DecodeErrorV,
        >((
            instruction::opcode_of(Instruction::BsMatchString(x)),
            instruction::args_of(Instruction::BsMatchString(x)),
            instruction::enc_instr(Instruction::BsMatchString(x)).len(),
        )),
{
    let i = Instruction::BsMatchString(x);
    let args = instruction::args_of(i);
    let a1 = x.arg1@;
    let a2 = x.arg2@;
    let a3 = x.arg3@;
    let a4 = x.arg4@;
    assert(args =~= seq![a1, a2, a3, a4]);
    assert(wire::wf_termv(a1)) by {
        assert(args[0] == a1);
    }
    assert(wire::wf_termv(a2)) by {
        assert(args[1] == a2);
    }
    assert(wire::wf_termv(a3)) by {
        assert(args[2] == a3);
    }
    assert(wire::wf_termv(a4)) by {
        assert(args[3] == a4);
    }
    lemma_chain4(ArgKind::Any, ArgKind::Any, ArgKind::Any, ArgKind::Any, a1, a2, a3, a4, rest);
    let e1 = wire::enc_termv(a1);
    let e2 = wire::enc_termv(a2);
    let e3 = wire::enc_termv(a3);
    let e4 = wire::enc_termv(a4);
    assert(instruction::enc_instr(i) == seq![132u8] + e1 + e2 + e3 + e4);
    let s = instruction::enc_instr(i) + rest;
    lemma_instr_shape_4(132, e1, e2, e3, e4, rest);
    assert(s[0] == 132);
    assert(s.skip(1) == e1 + e2 + e3 + e4 + rest);
    lemma_enc_termvs_4(a1, a2, a3, a4);
    assert(instruction::enc_instr(i).len() == 1 + (e1 + e2 + e3 + e4).len());
    assert(instruction::enc_instr(i) == seq![instruction::opcode_of(i)] + wire::enc_termvs(args));
}

/// The canonical bytes of this instruction type decode back to it.
#[verifier::rlimit(100)]
proof fn lemma_instr_133(x: instruction::BsInitWritable, rest: Seq<u8>)
    requires
        wf_instruction(Instruction::BsInitWritable(x)),
    ensures
        instruction::enc_instr(Instruction::BsInitWritable(x)).len() >= 1,
        instruction::enc_instr(Instruction::BsInitWritable(x)) == seq![
            instruction::opcode_of(Instruction::BsInitWritable(x)),
        ] + wire::enc_termvs(instruction::args_of(Instruction::BsInitWritable(x))),
        instruction::dec_instr(instruction::enc_instr(Instruction::BsInitWritable(x)) + rest) == Ok::<
            _,
            DecodeErrorV,
        >((
            instruction::opcode_of(Instruction::BsInitWritable(x)),
            instruction::args_of(Instruction::BsInitWritable(x)),
            instruction::enc_instr(Instruction::BsInitWritable(x)).len(),
        )),
{
    let i = Instruction::BsInitWritable(x);
    let args = instruction::args_of(i);
    assert(args =~= Seq::<TermV>::empty());
    assert(instruction::enc_instr(i) == seq![133u8]);
    let s = instruction::enc_instr(i) + rest;
    lemma_instr_shape_0(133, rest);
    assert(s[0] == 133);
    assert(s.skip(1) == rest);
    lemma_enc_termvs_0();
    assert(seq![133u8] + Seq::<u8>::empty() =~= seq![133u8]);
    assert(instruction::enc_instr(i) == seq![instruction::opcode_of(i)] + wire::enc_termvs(args));
}

/// The canonical bytes of this instruction type decode back to it.
#[verifier::rlimit(100)]
proof fn lemma_instr_134(x: instruction::BsAppend, rest: Seq<u8>)
    requires
        wf_instruction(Instruction::BsAppend(x)),
    ensures
        instruction::enc_instr(Instruction::BsAppend(x)).len() >= 1,
        instruction::enc_instr(Instruction::BsAppend(x)) == seq![
            instruction::opcode_of(Instruction::BsAppend(x)),
        ] + wire::enc_termvs(instruction::args_of(Instruction::BsAppend(x))),
        instruction::dec_instr(instruction::enc_instr(Instruction::BsAppend(x)) + rest) == Ok::<
            _,
            DecodeErrorV,
        >((
            instruction::opcode_of(Instruction::BsAppend(x)),
            instruction::args_of(Instruction::BsAppend(x)),
            instruction::enc_instr(Instruction::BsAppend(x)).len(),
        )),
{
    let i = Instruction::BsAppend(x);
    let args = instruction::args_of(i);
    let a1 = x.arg1@;
    let a2 = x.arg2@;
    let a3 = x.arg3@;
    let a4 = x.arg4@;
    let a5 = x.arg5@;
    let a6 = x.arg6@;
    let a7 = x.arg7@;
    let a8 = x.arg8@;
    assert(args =~= seq![a1, a2, a3, a4, a5, a6, a7, a8]);
    assert(wire::wf_termv(a1)) by {
        assert(args[0] == a1);
    }
    assert(wire::wf_termv(a2)) by {
        assert(args[1] == a2);
    }
    assert(wire::wf_termv(a3)) by {
        assert(args[2] == a3);
    }
    assert(wire::wf_termv(a4)) by {
        assert(args[3] == a4);
    }
    assert(wire::wf_termv(a5)) by {
        assert(args[4] == a5);
    }
    assert(wire::wf_termv(a6)) by {
        assert(args[5] == a6);
    }
    assert(wire::wf_termv(a7)) by {
        assert(args[6] == a7);
    }
    assert(wire::wf_termv(a8)) by {
        assert(args[7] == a8);
    }
    lemma_chain8(ArgKind::Any, ArgKind::Any, ArgKind::Any, ArgKind::Any, ArgKind::Any, ArgKind::Any, ArgKind::Any, ArgKind::Any, a1, a2, a3, a4, a5, a6, a7, a8, rest);
    let e1 = wire::enc_termv(a1);
    let e2 = wire::enc_termv(a2);
    let e3 = wire::enc_termv(a3);
    let e4 = wire::enc_termv(a4);
    let e5 = wire::enc_termv(a5);
    let e6 = wire::enc_termv(a6);
    let e7 = wire::enc_termv(a7);
    let e8 = wire::enc_termv(a8);
    assert(instruction::enc_instr(i) == seq![134u8] + e1 + e2 + e3 + e4 + e5 + e6 + e7 + e8);
    let s = instruction::enc_instr(i) + rest;
    lemma_instr_shape_8(134, e1, e2, e3, e4, e5, e6, e7, e8, rest);
    assert(s[0] == 134);
    assert(s.skip(1) == e1 + e2 + e3 + e4 + e5 + e6 + e7 + e8 + rest);
    lemma_enc_termvs_8(a1, a2, a3, a4, a5, a6, a7, a8);
    assert(instruction::enc_instr(i).len() == 1 + (e1 + e2 + e3 + e4 + e5 + e6 + e7 + e8).len());
    assert(instruction::enc_instr(i) == seq![instruction::opcode_of(i)] + wire::enc_termvs(args));
}

/// The canonical bytes of this instruction type decode back to it.
#[verifier::rlimit(100)]
proof fn lemma_instr_135(x: instruction::BsPrivateAppend, rest: Seq<u8>)
    requires
        wf_instruction(Instruction::BsPrivateAppend(x)),
    ensures
        instruction::enc_instr(Instruction::BsPrivateAppend(x)).len() >= 1,
        instruction::enc_instr(Instruction::BsPrivateAppend(x)) == seq![
            instruction::opcode_of(Instruction::BsPrivateAppend(x)),
        ] + wire::enc_termvs(instruction::args_of(Instruction::BsPrivateAppend(x))),
        instruction::dec_instr(instruction::enc_instr(Instruction::BsPrivateAppend(x)) + rest) == Ok::<
            _,
            DecodeErrorV,
        >((
            instruction::opcode_of(Instruction::BsPrivateAppend(x)),
            instruction::args_of(Instruction::BsPrivateAppend(x)),
            instruction::enc_instr(Instruction::BsPrivateAppend(x)).len(),
        )),
{
    let i = Instruction::BsPrivateAppend(x);
    let args = instruction::args_of(i);
    let a1 = x.arg1@;
    let a2 = x.arg2@;
    let a3 = x.arg3@;
    let a4 = x.arg4@;
    let a5 = x.arg5@;
    let a6 = x.arg6@;
    assert(args =~= seq![a1, a2, a3, a4, a5, a6]);
    assert(wire::wf_termv(a1)) by {
        assert(args[0] == a1);
    }
    assert(wire::wf_termv(a2)) by {
        assert(args[1] == a2);
    }
    assert(wire::wf_termv(a3)) by {
        assert(args[2] == a3);
    }
    assert(wire::wf_termv(a4)) by {
        assert(args[3] == a4);
    }
    assert(wire::wf_termv(a5)) by {
        assert(args[4] == a5);
    }
    assert(wire::wf_termv(a6)) by {
        assert(args[5] == a6);
    }
    lemma_chain6(ArgKind::Any, ArgKind::Any, ArgKind::Any, ArgKind::Any, ArgKind::Any, ArgKind::Any, a1, a2, a3, a4, a5, a6, rest);
    let e1 = wire::enc_termv(a1);
    let e2 = wire::enc_termv(a2);
    let e3 = wire::enc_termv(a3);
    let e4 = wire::enc_termv(a4);
    let e5 = wire::enc_termv(a5);
    let e6 = wire::enc_termv(a6);
    assert(instruction::enc_instr(i) == seq![135u8] + e1 + e2 + e3 + e4 + e5 + e6);
    let s = instruction::enc_instr(i) + rest;
    lemma_instr_shape_6(135, e1, e2, e3, e4, e5, e6, rest);
    assert(s[0] == 135);
    assert(s.skip(1) == e1 + e2 + e3 + e4 + e5 + e6 + rest);
    lemma_enc_termvs_6(a1, a2, a3, a4, a5, a6);
    assert(instruction::enc_instr(i).len() == 1 + (e1 + e2 + e3 + e4 + e5 + e6).len());
    assert(instruction::enc_instr(i) == seq![instruction::opcode_of(i)] + wire::enc_termvs(args));
}

/// The canonical bytes of this instruction type decode back to it.
#[verifier::rlimit(100)]
proof fn lemma_instr_136(x: instruction::Trim, rest: Seq<u8>)
    requires
        wf_instruction(Instruction::Trim(x)),
    ensures
        instruction::enc_instr(Instruction::Trim(x)).len() >= 1,
        instruction::enc_instr(Instruction::Trim(x)) == seq![
            instruction::opcode_of(Instruction::Trim(x)),
        ] + wire::enc_termvs(instruction::args_of(Instruction::Trim(x))),
        instruction::dec_instr(instruction::enc_instr(Instruction::Trim(x)) + rest) == Ok::<
            _,
            DecodeErrorV,
        >((
            instruction::opcode_of(Instruction::Trim(x)),
            instruction::args_of(Instruction::Trim(x)),
            instruction::enc_instr(Instruction::Trim(x)).len(),
        )),
{
    let i = Instruction::Trim(x);
    let args = instruction::args_of(i);
    let a1 = x.arg1@;
    let a2 = x.arg2@;
    assert(args =~= seq![a1, a2]);
    assert(wire::wf_termv(a1)) by {
        assert(args[0] == a1);
    }
    assert(wire::wf_termv(a2)) by {
        assert(args[1] == a2);
    }
    lemma_chain2(ArgKind::Any, ArgKind::Any, a1, a2, rest);
    let e1 = wire::enc_termv(a1);
    let e2 = wire::enc_termv(a2);
    assert(instruction::enc_instr(i) == seq![136u8] + e1 + e2);
    let s = instruction::enc_instr(i) + rest;
    lemma_instr_shape_2(136, e1, e2, rest);
    assert(s[0] == 136);
    assert(s.skip(1) == e1 + e2 + rest);
    lemma_enc_termvs_2(a1, a2);
    assert(instruction::enc_instr(i).len() == 1 + (e1 + e2).len());
    assert(instruction::enc_instr(i) == seq![instruction::opcode_of(i)] + wire::enc_termvs(args));
}

/// The canonical bytes of this instruction type decode back to it.
#[verifier::rlimit(100)]
proof fn lemma_instr_137(x: instruction::BsInitBits, rest: Seq<u8>)
    requires
        wf_instruction(Instruction::BsInitBits(x)),
    ensures
        instruction::enc_instr(Instruction::BsInitBits(x)).len() >= 1,
        instruction::enc_instr(Instruction::BsInitBits(x)) == seq![
            instruction::opcode_of(Instruction::BsInitBits(x)),
        ] + wire::enc_termvs(instruction::args_of(Instruction::BsInitBits(x))),
        instruction::dec_instr(instruction::enc_instr(Instruction::BsInitBits(x)) + rest) == Ok::<
            _,
            DecodeErrorV,
        >((
            instruction::opcode_of(Instruction::BsInitBits(x)),
            instruction::args_of(Instruction::BsInitBits(x)),
            instruction::enc_instr(Instruction::BsInitBits(x)).len(),
        )),
{
    let i = Instruction::BsInitBits(x);
    let args = instruction::args_of(i);
    let a1 = x.arg1@;
    let a2 = x.arg2@;
    let a3 = x.arg3@;
    let a4 = x.arg4@;
    let a5 = x.arg5@;
    let a6 = x.arg6@;
    assert(args =~= seq![a1, a2, a3, a4, a5, a6]);
    assert(wire::wf_termv(a1)) by {
        assert(args[0] == a1);
    }
    assert(wire::wf_termv(a2)) by {
        assert(args[1] == a2);
    }
    assert(wire::wf_termv(a3)) by {
        assert(args[2] == a3);
    }
    assert(wire::wf_termv(a4)) by {
        assert(args[3] == a4);
    }
    assert(wire::wf_termv(a5)) by {
        assert(args[4] == a5);
    }
    assert(wire::wf_termv(a6)) by {
        assert(args[5] == a6);
    }
    lemma_chain6(ArgKind::Any, ArgKind::Any, ArgKind::Any, ArgKind::Any, ArgKind::Any, ArgKind::Any, a1, a2, a3, a4, a5, a6, rest);
    let e1 = wire::enc_termv(a1);
    let e2 = wire::enc_termv(a2);
    let e3 = wire::enc_termv(a3);
    let e4 = wire::enc_termv(a4);
    let e5 = wire::enc_termv(a5);
    let e6 = wire::enc_termv(a6);
    assert(instruction::enc_instr(i) == seq![137u8] + e1 + e2 + e3 + e4 + e5 + e6);
    let s = instruction::enc_instr(i) + rest;
    lemma_instr_shape_6(137, e1, e2, e3, e4, e5, e6, rest);
    assert(s[0] == 137);
    assert(s.skip(1) == e1 + e2 + e3 + e4 + e5 + e6 + rest);
    lemma_enc_termvs_6(a1, a2, a3, a4, a5, a6);
    assert(instruction::enc_instr(i).len() == 1 + (e1 + e2 + e3 + e4 + e5 + e6).len());
    assert(instruction::enc_instr(i) == seq![instruction::opcode_of(i)] + wire::enc_termvs(args));
}

/// The canonical bytes of this instruction type decode back to it.
#[verifier::rlimit(100)]
proof fn lemma_instr_138(x: instruction::BsGetUtf8, rest: Seq<u8>)
    requires
        wf_instruction(Instruction::BsGetUtf8(x)),
    ensures
        instruction::enc_instr(Instruction::BsGetUtf8(x)).len() >= 1,
        instruction::enc_instr(Instruction::BsGetUtf8(x)) == seq![
            instruction::opcode_of(Instruction::BsGetUtf8(x)),
        ] + wire::enc_termvs(instruction::args_of(Instruction::BsGetUtf8(x))),
        instruction::dec_instr(instruction::enc_instr(Instruction::BsGetUtf8(x)) + rest) == Ok::<
            _,
            DecodeErrorV,
        >((
            instruction::opcode_of(Instruction::BsGetUtf8(x)),
            instruction::args_of(Instruction::BsGetUtf8(x)),
            instruction::enc_instr(Instruction::BsGetUtf8(x)).len(),
        )),
{
    let i = Instruction::BsGetUtf8(x);
    let args = instruction::args_of(i);
    let a1 = x.arg1@;
    let a2 = x.arg2@;
    let a3 = x.arg3@;
    let a4 = x.arg4@;
    let a5 = x.arg5@;
    assert(args =~= seq![a1, a2, a3, a4, a5]);
    assert(wire::wf_termv(a1)) by {
        assert(args[0] == a1);
    }
    assert(wire::wf_termv(a2)) by {
        assert(args[1] == a2);
    }
    assert(wire::wf_termv(a3)) by {
        assert(args[2] == a3);
    }
    assert(wire::wf_termv(a4)) by {
        assert(args[3] == a4);
    }
    assert(wire::wf_termv(a5)) by {
        assert(args[4] == a5);
    }
    lemma_chain5(ArgKind::Any, ArgKind::Any, ArgKind::Any, ArgKind::Any, ArgKind::Any, a1, a2, a3, a4, a5, rest);
    let e1 = wire::enc_termv(a1);
    let e2 = wire::enc_termv(a2);
    let e3 = wire::enc_termv(a3);
    let e4 = wire::enc_termv(a4);
    let e5 = wire::enc_termv(a5);
    assert(instruction::enc_instr(i) == seq![138u8] + e1 + e2 + e3 + e4 + e5);
    let s = instruction::enc_instr(i) + rest;
    lemma_instr_shape_5(138, e1, e2, e3, e4, e5, rest);
    assert(s[0] == 138);
    assert(s.skip(1) == e1 + e2 + e3 + e4 + e5 + rest);
    lemma_enc_termvs_5(a1, a2, a3, a4, a5);
    assert(instruction::enc_instr(i).len() == 1 + (e1 + e2 + e3 + e4 + e5).len());
    assert(instruction::enc_instr(i) == seq![instruction::opcode_of(i)] + wire::enc_termvs(args));
}

/// The canonical bytes of this instruction type decode back to it.
#[verifier::rlimit(100)]
proof fn lemma_instr_139(x: instruction::BsSkipUtf8, rest: Seq<u8>)
    requires
        wf_instruction(Instruction::BsSkipUtf8(x)),
    ensures
        instruction::enc_instr(Instruction::BsSkipUtf8(x)).len() >= 1,
        instruction::enc_instr(Instruction::BsSkipUtf8(x)) == seq![
            instruction::opcode_of(Instruction::BsSkipUtf8(x)),
        ] + wire::enc_termvs(instruction::args_of(Instruction::BsSkipUtf8(x))),
        instruction::dec_instr(instruction::enc_instr(Instruction::BsSkipUtf8(x)) + rest) == Ok::<
            _,
            DecodeErrorV,
        >((
            instruction::opcode_of(Instruction::BsSkipUtf8(x)),
            instruction::args_of(Instruction::BsSkipUtf8(x)),
            instruction::enc_instr(Instruction::BsSkipUtf8(x)).len(),
        )),
{
    let i = Instruction::BsSkipUtf8(x);
    let args = instruction::args_of(i);
    let a1 = x.arg1@;
    let a2 = x.arg2@;
    let a3 = x.arg3@;
    let a4 = x.arg4@;
    assert(args =~= seq![a1, a2, a3, a4]);
    assert(wire::wf_termv(a1)) by {
        assert(args[0] == a1);
    }
    assert(wire::wf_termv(a2)) by {
        assert(args[1] == a2);
    }
    assert(wire::wf_termv(a3)) by {
        assert(args[2] == a3);
    }
    assert(wire::wf_termv(a4)) by {
        assert(args[3] == a4);
    }
    lemma_chain4(ArgKind::Any, ArgKind::Any, ArgKind::Any, ArgKind::Any, a1, a2, a3, a4, rest);
    let e1 = wire::enc_termv(a1);
    let e2 = wire::enc_termv(a2);
    let e3 = wire::enc_termv(a3);
    let e4 = wire::enc_termv(a4);
    assert(instruction::enc_instr(i) == seq![139u8] + e1 + e2 + e3 + e4);
    let s = instruction::enc_instr(i) + rest;
    lemma_instr_shape_4(139, e1, e2, e3, e4, rest);
    assert(s[0] == 139);
    assert(s.skip(1) == e1 + e2 + e3 + e4 + rest);
    lemma_enc_termvs_4(a1, a2, a3, a4);
    assert(instruction::enc_instr(i).len() == 1 + (e1 + e2 + e3 + e4).len());
    assert(instruction::enc_instr(i) == seq![instruction::opcode_of(i)] + wire::enc_termvs(args));
}

/// The canonical bytes of this instruction type decode back to it.
#[verifier::rlimit(100)]
proof fn lemma_instr_140(x: instruction::BsGetUtf16, rest: Seq<u8>)
    requires
        wf_instruction(Instruction::BsGetUtf16(x)),
    ensures
        instruction::enc_instr(Instruction::BsGetUtf16(x)).len() >= 1,
        instruction::enc_instr(Instruction::BsGetUtf16(x)) == seq![
            instruction::opcode_of(Instruction::BsGetUtf16(x)),
        ] + wire::enc_termvs(instruction::args_of(Instruction::BsGetUtf16(x))),
        instruction::dec_instr(instruction::enc_instr(Instruction::BsGetUtf16(x)) + rest) == Ok::<
            _,
            DecodeErrorV,
        >((
            instruction::opcode_of(Instruction::BsGetUtf16(x)),
            instruction::args_of(Instruction::BsGetUtf16(x)),
            instruction::enc_instr(Instruction::BsGetUtf16(x)).len(),
        )),
{
    let i = Instruction::BsGetUtf16(x);
    let args = instruction::args_of(i);
    let a1 = x.arg1@;
    let a2 = x.arg2@;
    let a3 = x.arg3@;
    let a4 = x.arg4@;
    let a5 = x.arg5@;
    assert(args =~= seq![a1, a2, a3, a4, a5]);
    assert(wire::wf_termv(a1)) by {
        assert(args[0] == a1);
    }
    assert(wire::wf_termv(a2)) by {
        assert(args[1] == a2);
    }
    assert(wire::wf_termv(a3)) by {
        assert(args[2] == a3);
    }
    assert(wire::wf_termv(a4)) by {
        assert(args[3] == a4);
    }
    assert(wire::wf_termv(a5)) by {
        assert(args[4] == a5);
    }
    lemma_chain5(ArgKind::Any, ArgKind::Any, ArgKind::Any, ArgKind::Any, ArgKind::Any, a1, a2, a3, a4, a5, rest);
    let e1 = wire::enc_termv(a1);
    let e2 = wire::enc_termv(a2);
    let e3 = wire::enc_termv(a3);
    let e4 = wire::enc_termv(a4);
    let e5 = wire::enc_termv(a5);
    assert(instruction::enc_instr(i) == seq![140u8] + e1 + e2 + e3 + e4 + e5);
    let s = instruction::enc_instr(i) + rest;
    lemma_instr_shape_5(140, e1, e2, e3, e4, e5, rest);
    assert(s[0] == 140);
    assert(s.skip(1) == e1 + e2 + e3 + e4 + e5 + rest);
    lemma_enc_termvs_5(a1, a2, a3, a4, a5);
    assert(instruction::enc_instr(i).len() == 1 + (e1 + e2 + e3 + e4 + e5).len());
    assert(instruction::enc_instr(i) == seq![instruction::opcode_of(i)] + wire::enc_termvs(args));
}

/// The canonical bytes of this instruction type decode back to it.
#[verifier::rlimit(100)]
proof fn lemma_instr_141(x: instruction::BsSkipUtf16, rest: Seq<u8>)
    requires
        wf_instruction(Instruction::BsSkipUtf16(x)),
    ensures
        instruction::enc_instr(Instruction::BsSkipUtf16(x)).len() >= 1,
        instruction::enc_instr(Instruction::BsSkipUtf16(x)) == seq![
            instruction::opcode_of(Instruction::BsSkipUtf16(x)),
        ] + wire::enc_termvs(instruction::args_of(Instruction::BsSkipUtf16(x))),
        instruction::dec_instr(instruction::enc_instr(Instruction::BsSkipUtf16(x)) + rest) == Ok::<
            _,
            DecodeErrorV,
        >((
            instruction::opcode_of(Instruction::BsSkipUtf16(x)),
            instruction::args_of(Instruction::BsSkipUtf16(x)),
            instruction::enc_instr(Instruction::BsSkipUtf16(x)).len(),
        )),
{
    let i = Instruction::BsSkipUtf16(x);
    let args = instruction::args_of(i);
    let a1 = x.arg1@;
    let a2 = x.arg2@;
    let a3 = x.arg3@;
    let a4 = x.arg4@;
    assert(args =~= seq![a1, a2, a3, a4]);
    assert(wire::wf_termv(a1)) by {
        assert(args[0] == a1);
    }
    assert(wire::wf_termv(a2)) by {
        assert(args[1] == a2);
    }
    assert(wire::wf_termv(a3)) by {
        assert(args[2] == a3);
    }
    assert(wire::wf_termv(a4)) by {
        assert(args[3] == a4);
    }
    lemma_chain4(ArgKind::Any, ArgKind::Any, ArgKind::Any, ArgKind::Any, a1, a2, a3, a4, rest);
    let e1 = wire::enc_termv(a1);
    let e2 = wire::enc_termv(a2);
    let e3 = wire::enc_termv(a3);
    let e4 = wire::enc_termv(a4);
    assert(instruction::enc_instr(i) == seq![141u8] + e1 + e2 + e3 + e4);
    let s = instruction::enc_instr(i) + rest;
    lemma_instr_shape_4(141, e1, e2, e3, e4, rest);
    assert(s[0] == 141);
    assert(s.skip(1) == e1 + e2 + e3 + e4 + rest);
    lemma_enc_termvs_4(a1, a2, a3, a4);
    assert(instruction::enc_instr(i).len() == 1 + (e1 + e2 + e3 + e4).len());
    assert(instruction::enc_instr(i) == seq![instruction::opcode_of(i)] + wire::enc_termvs(args));
}

/// The canonical bytes of this instruction type decode back to it.
#[verifier::rlimit(100)]
proof fn lemma_instr_142(x: instruction::BsGetUtf32, rest: Seq<u8>)
    requires
        wf_instruction(Instruction::BsGetUtf32(x)),
    ensures
        instruction::enc_instr(Instruction::BsGetUtf32(x)).len() >= 1,
        instruction::enc_instr(Instruction::BsGetUtf32(x)) == seq![
            instruction::opcode_of(Instruction::BsGetUtf32(x)),
        ] + wire::enc_termvs(instruction::args_of(Instruction::BsGetUtf32(x))),
        instruction::dec_instr(instruction::enc_instr(Instruction::BsGetUtf32(x)) + rest) == Ok::<
            _,
            DecodeErrorV,
        >((
            instruction::opcode_of(Instruction::BsGetUtf32(x)),
            instruction::args_of(Instruction::BsGetUtf32(x)),
            instruction::enc_instr(Instruction::BsGetUtf32(x)).len(),
        )),
{
    let i = Instruction::BsGetUtf32(x);
    let args = instruction::args_of(i);
    let a1 = x.arg1@;
    let a2 = x.arg2@;
    let a3 = x.arg3@;
    let a4 = x.arg4@;
    let a5 = x.arg5@;
    assert(args =~= seq![a1, a2, a3, a4, a5]);
    assert(wire::wf_termv(a1)) by {
        assert(args[0] == a1);
    }
    assert(wire::wf_termv(a2)) by {
        assert(args[1] == a2);
    }
    assert(wire::wf_termv(a3)) by {
        assert(args[2] == a3);
    }
    assert(wire::wf_termv(a4)) by {
        assert(args[3] == a4);
    }
    assert(wire::wf_termv(a5)) by {
        assert(args[4] == a5);
    }
    lemma_chain5(ArgKind::Any, ArgKind::Any, ArgKind::Any, ArgKind::Any, ArgKind::Any, a1, a2, a3, a4, a5, rest);
    let e1 = wire::enc_termv(a1);
    let e2 = wire::enc_termv(a2);
    let e3 = wire::enc_termv(a3);
    let e4 = wire::enc_termv(a4);
    let e5 = wire::enc_termv(a5);
    assert(instruction::enc_instr(i) == seq![142u8] + e1 + e2 + e3 + e4 + e5);
    let s = instruction::enc_instr(i) + rest;
    lemma_instr_shape_5(142, e1, e2, e3, e4, e5, rest);
    assert(s[0] == 142);
    assert(s.skip(1) == e1 + e2 + e3 + e4 + e5 + rest);
    lemma_enc_termvs_5(a1, a2, a3, a4, a5);
    assert(instruction::enc_instr(i).len() == 1 + (e1 + e2 + e3 + e4 + e5).len());
    assert(instruction::enc_instr(i) == seq![instruction::opcode_of(i)] + wire::enc_termvs(args));
}

/// The canonical bytes of this instruction type decode back to it.
#[verifier::rlimit(100)]
proof fn lemma_instr_143(x: instruction::BsSkipUtf32, rest: Seq<u8>)
    requires
        wf_instruction(Instruction::BsSkipUtf32(x)),
    ensures
        instruction::enc_instr(Instruction::BsSkipUtf32(x)).len() >= 1,
        instruction::enc_instr(Instruction::BsSkipUtf32(x)) == seq![
            instruction::opcode_of(Instruction::BsSkipUtf32(x)),
        ] + wire::enc_termvs(instruction::args_of(Instruction::BsSkipUtf32(x))),
        instruction::dec_instr(instruction::enc_instr(Instruction::BsSkipUtf32(x)) + rest) == Ok::<
            _,
            DecodeErrorV,
        >((
            instruction::opcode_of(Instruction::BsSkipUtf32(x)),
            instruction::args_of(Instruction::BsSkipUtf32(x)),
            instruction::enc_instr(Instruction::BsSkipUtf32(x)).len(),
        )),
{
    let i = Instruction::BsSkipUtf32(x);
    let args = instruction::args_of(i);
    let a1 = x.arg1@;
    let a2 = x.arg2@;
    let a3 = x.arg3@;
    let a4 = x.arg4@;
    assert(args =~= seq![a1, a2, a3, a4]);
    assert(wire::wf_termv(a1)) by {
        assert(args[0] == a1);
    }
    assert(wire::wf_termv(a2)) by {
        assert(args[1] == a2);
    }
    assert(wire::wf_termv(a3)) by {
        assert(args[2] == a3);
    }
    assert(wire::wf_termv(a4)) by {
        assert(args[3] == a4);
    }
    lemma_chain4(ArgKind::Any, ArgKind::Any, ArgKind::Any, ArgKind::Any, a1, a2, a3, a4, rest);
    let e1 = wire::enc_termv(a1);
    let e2 = wire::enc_termv(a2);
    let e3 = wire::enc_termv(a3);
    let e4 = wire::enc_termv(a4);
    assert(instruction::enc_instr(i) == seq![143u8] + e1 + e2 + e3 + e4);
    let s = instruction::enc_instr(i) + rest;
    lemma_instr_shape_4(143, e1, e2, e3, e4, rest);
    assert(s[0] == 143);
    assert(s.skip(1) == e1 + e2 + e3 + e4 + rest);
    lemma_enc_termvs_4(a1, a2, a3, a4);
    assert(instruction::enc_instr(i).len() == 1 + (e1 + e2 + e3 + e4).len());
    assert(instruction::enc_instr(i) == seq![instruction::opcode_of(i)] + wire::enc_termvs(args));
}

/// The canonical bytes of this instruction type decode back to it.
#[verifier::rlimit(100)]
proof fn lemma_instr_144(x: instruction::BsUtf8Size, rest: Seq<u8>)
    requires
        wf_instruction(Instruction::BsUtf8Size(x)),
    ensures
        instruction::enc_instr(Instruction::BsUtf8Size(x)).len() >= 1,
        instruction::enc_instr(Instruction::BsUtf8Size(x)) == seq![
            instruction::opcode_of(Instruction::BsUtf8Size(x)),
        ] + wire::enc_termvs(instruction::args_of(Instruction::BsUtf8Size(x))),
        instruction::dec_instr(instruction::enc_instr(Instruction::BsUtf8Size(x)) + rest) == Ok::<
            _,
            DecodeErrorV,
        >((
            instruction::opcode_of(Instruction::BsUtf8Size(x)),
            instruction::args_of(Instruction::BsUtf8Size(x)),
            instruction::enc_instr(Instruction::BsUtf8Size(x)).len(),
        )),
{
    let i = Instruction::BsUtf8Size(x);
    let args = instruction::args_of(i);
    let a1 = x.arg1@;
    let a2 = x.arg2@;
    let a3 = x.arg3@;
    assert(args =~= seq![a1, a2, a3]);
    assert(wire::wf_termv(a1)) by {
        assert(args[0] == a1);
    }
    assert(wire::wf_termv(a2)) by {
        assert(args[1] == a2);
    }
    assert(wire::wf_termv(a3)) by {
        assert(args[2] == a3);
    }
    lemma_chain3(ArgKind::Any, ArgKind::Any, ArgKind::Any, a1, a2, a3, rest);
    let e1 = wire::enc_termv(a1);
    let e2 = wire::enc_termv(a2);
    let e3 = wire::enc_termv(a3);
    assert(instruction::enc_instr(i) == seq![144u8] + e1 + e2 + e3);
    let s = instruction::enc_instr(i) + rest;
    lemma_instr_shape_3(144, e1, e2, e3, rest);
    assert(s[0] == 144);
    assert(s.skip(1) == e1 + e2 + e3 + rest);
    lemma_enc_termvs_3(a1, a2, a3);
    assert(instruction::enc_instr(i).len() == 1 + (e1 + e2 + e3).len());
    assert(instruction::enc_instr(i) == seq![instruction::opcode_of(i)] + wire::enc_termvs(args));
}

/// The canonical bytes of this instruction type decode back to it.
#[verifier::rlimit(100)]
proof fn lemma_instr_145(x: instruction::BsPutUtf8, rest: Seq<u8>)
    requires
        wf_instruction(Instruction::BsPutUtf8(x)),
    ensures
        instruction::enc_instr(Instruction::BsPutUtf8(x)).len() >= 1,
        instruction::enc_instr(Instruction::BsPutUtf8(x)) == seq![
            instruction::opcode_of(Instruction::BsPutUtf8(x)),
        ] + wire::enc_termvs(instruction::args_of(Instruction::BsPutUtf8(x))),
        instruction::dec_instr(instruction::enc_instr(Instruction::BsPutUtf8(x)) + rest) == Ok::<
            _,
            DecodeErrorV,
        >((
            instruction::opcode_of(Instruction::BsPutUtf8(x)),
            instruction::args_of(Instruction::BsPutUtf8(x)),
            instruction::enc_instr(Instruction::BsPutUtf8(x)).len(),
        )),
{
    let i = Instruction::BsPutUtf8(x);
    let args = instruction::args_of(i);
    let a1 = x.arg1@;
    let a2 = x.arg2@;
    let a3 = x.arg3@;
    assert(args =~= seq![a1, a2, a3]);
    assert(wire::wf_termv(a1)) by {
        assert(args[0] == a1);
    }
    assert(wire::wf_termv(a2)) by {
        assert(args[1] == a2);
    }
    assert(wire::wf_termv(a3)) by {
        assert(args[2] == a3);
    }
    lemma_chain3(ArgKind::Any, ArgKind::Any, ArgKind::Any, a1, a2, a3, rest);
    let e1 = wire::enc_termv(a1);
    let e2 = wire::enc_termv(a2);
    let e3 = wire::enc_termv(a3);
    assert(instruction::enc_instr(i) == seq![145u8] + e1 + e2 + e3);
    let s = instruction::enc_instr(i) + rest;
    lemma_instr_shape_3(145, e1, e2, e3, rest);
    assert(s[0] == 145);
    assert(s.skip(1) == e1 + e2 + e3 + rest);
    lemma_enc_termvs_3(a1, a2, a3);
    assert(instruction::enc_instr(i).len() == 1 + (e1 + e2 + e3).len());
    assert(instruction::enc_instr(i) == seq![instruction::opcode_of(i)] + wire::enc_termvs(args));
}

/// The canonical bytes of this instruction type decode back to it.
#[verifier::rlimit(100)]
proof fn lemma_instr_146(x: instruction::BsUtf16Size, rest: Seq<u8>)
    requires
        wf_instruction(Instruction::BsUtf16Size(x)),
    ensures
        instruction::enc_instr(Instruction::BsUtf16Size(x)).len() >= 1,
        instruction::enc_instr(Instruction::BsUtf16Size(x)) == seq![
            instruction::opcode_of(Instruction::BsUtf16Size(x)),
        ] + wire::enc_termvs(instruction::args_of(Instruction::BsUtf16Size(x))),
        instruction::dec_instr(instruction::enc_instr(Instruction::BsUtf16Size(x)) + rest) == Ok::<
            _,
            DecodeErrorV,
        >((
            instruction::opcode_of(Instruction::BsUtf16Size(x)),
            instruction::args_of(Instruction::BsUtf16Size(x)),
            instruction::enc_instr(Instruction::BsUtf16Size(x)).len(),
        )),
{
    let i = Instruction::BsUtf16Size(x);
    let args = instruction::args_of(i);
    let a1 = x.arg1@;
    let a2 = x.arg2@;
    let a3 = x.arg3@;
    assert(args =~= seq![a1, a2, a3]);
    assert(wire::wf_termv(a1)) by {
        assert(args[0] == a1);
    }
    assert(wire::wf_termv(a2)) by {
        assert(args[1] == a2);
    }
    assert(wire::wf_termv(a3)) by {
        assert(args[2] == a3);
    }
    lemma_chain3(ArgKind::Any, ArgKind::Any, ArgKind::Any, a1, a2, a3, rest);
    let e1 = wire::enc_termv(a1);
    let e2 = wire::enc_termv(a2);
    let e3 = wire::enc_termv(a3);
    assert(instruction::enc_instr(i) == seq![146u8] + e1 + e2 + e3);
    let s = instruction::enc_instr(i) + rest;
    lemma_instr_shape_3(146, e1, e2, e3, rest);
    assert(s[0] == 146);
    assert(s.skip(1) == e1 + e2 + e3 + rest);
    lemma_enc_termvs_3(a1, a2, a3);
    assert(instruction::enc_instr(i).len() == 1 + (e1 + e2 + e3).len());
    assert(instruction::enc_instr(i) == seq![instruction::opcode_of(i)] + wire::enc_termvs(args));
}

/// The canonical bytes of this instruction type decode back to it.
#[verifier::rlimit(100)]
proof fn lemma_instr_147(x: instruction::BsPutUtf16, rest: Seq<u8>)
    requires
        wf_instruction(Instruction::BsPutUtf16(x)),
    ensures
        instruction::enc_instr(Instruction::BsPutUtf16(x)).len() >= 1,
        instruction::enc_instr(Instruction::BsPutUtf16(x)) == seq![
            instruction::opcode_of(Instruction::BsPutUtf16(x)),
        ] + wire::enc_termvs(instruction::args_of(Instruction::BsPutUtf16(x))),
        instruction::dec_instr(instruction::enc_instr(Instruction::BsPutUtf16(x)) + rest) == Ok::<
            _,
            DecodeErrorV,
        >((
            instruction::opcode_of(Instruction::BsPutUtf16(x)),
            instruction::args_of(Instruction::BsPutUtf16(x)),
            instruction::enc_instr(Instruction::BsPutUtf16(x)).len(),
        )),
{
    let i = Instruction::BsPutUtf16(x);
    let args = instruction::args_of(i);
    let a1 = x.arg1@;
    let a2 = x.arg2@;
    let a3 = x.arg3@;
    assert(args =~= seq![a1, a2, a3]);
    assert(wire::wf_termv(a1)) by {
        assert(args[0] == a1);
    }
    assert(wire::wf_termv(a2)) by {
        assert(args[1] == a2);
    }
    assert(wire::wf_termv(a3)) by {
        assert(args[2] == a3);
    }
    lemma_chain3(ArgKind::Any, ArgKind::Any, ArgKind::Any, a1, a2, a3, rest);
    let e1 = wire::enc_termv(a1);
    let e2 = wire::enc_termv(a2);
    let e3 = wire::enc_termv(a3);
    assert(instruction::enc_instr(i) == seq![147u8] + e1 + e2 + e3);
    let s = instruction::enc_instr(i) + rest;
    lemma_instr_shape_3(147, e1, e2, e3, rest);
    assert(s[0] == 147);
    assert(s.skip(1) == e1 + e2 + e3 + rest);
    lemma_enc_termvs_3(a1, a2, a3);
    assert(instruction::enc_instr(i).len() == 1 + (e1 + e2 + e3).len());
    assert(instruction::enc_instr(i) == seq![instruction::opcode_of(i)] + wire::enc_termvs(args));
}

/// The canonical bytes of this instruction type decode back to it.
#[verifier::rlimit(100)]
proof fn lemma_instr_148(x: instruction::BsPutUtf32, rest: Seq<u8>)
    requires
        wf_instruction(Instruction::BsPutUtf32(x)),
    ensures
        instruction::enc_instr(Instruction::BsPutUtf32(x)).len() >= 1,
        instruction::enc_instr(Instruction::BsPutUtf32(x)) == seq![
            instruction::opcode_of(Instruction::BsPutUtf32(x)),
        ] + wire::enc_termvs(instruction::args_of(Instruction::BsPutUtf32(x))),
        instruction::dec_instr(instruction::enc_instr(Instruction::BsPutUtf32(x)) + rest) == Ok::<
            _,
            DecodeErrorV,
        >((
            instruction::opcode_of(Instruction::BsPutUtf32(x)),
            instruction::args_of(Instruction::BsPutUtf32(x)),
            instruction::enc_instr(Instruction::BsPutUtf32(x)).len(),
        )),
{
    let i = Instruction::BsPutUtf32(x);
    let args = instruction::args_of(i);
    let a1 = x.arg1@;
    let a2 = x.arg2@;
    let a3 = x.arg3@;
    assert(args =~= seq![a1, a2, a3]);
    assert(wire::wf_termv(a1)) by {
        assert(args[0] == a1);
    }
    assert(wire::wf_termv(a2)) by {
        assert(args[1] == a2);
    }
    assert(wire::wf_termv(a3)) by {
        assert(args[2] == a3);
    }
    lemma_chain3(ArgKind::Any, ArgKind::Any, ArgKind::Any, a1, a2, a3, rest);
    let e1 = wire::enc_termv(a1);
    let e2 = wire::enc_termv(a2);
    let e3 = wire::enc_termv(a3);
    assert(instruction::enc_instr(i) == seq![148u8] + e1 + e2 + e3);
    let s = instruction::enc_instr(i) + rest;
    lemma_instr_shape_3(148, e1, e2, e3, rest);
    assert(s[0] == 148);
    assert(s.skip(1) == e1 + e2 + e3 + rest);
    lemma_enc_termvs_3(a1, a2, a3);
    assert(instruction::enc_instr(i).len() == 1 + (e1 + e2 + e3).len());
    assert(instruction::enc_instr(i) == seq![instruction::opcode_of(i)] + wire::enc_termvs(args));
}

/// The canonical bytes of this instruction type decode back to it.
#[verifier::rlimit(100)]
proof fn lemma_instr_149(x: instruction::OnLoad, rest: Seq<u8>)
    requires
        wf_instruction(Instruction::OnLoad(x)),
    ensures
        instruction::enc_instr(Instruction::OnLoad(x)).len() >= 1,
        instruction::enc_instr(Instruction::OnLoad(x)) == seq![
            instruction::opcode_of(Instruction::OnLoad(x)),
        ] + wire::enc_termvs(instruction::args_of(Instruction::OnLoad(x))),
        instruction::dec_instr(instruction::enc_instr(Instruction::OnLoad(x)) + rest) == Ok::<
            _,
            DecodeErrorV,
        >((
            instruction::opcode_of(Instruction::OnLoad(x)),
            instruction::args_of(Instruction::OnLoad(x)),
            instruction::enc_instr(Instruction::OnLoad(x)).len(),
        )),
{
    let i = Instruction::OnLoad(x);
    let args = instruction::args_of(i);
    assert(args =~= Seq::<TermV>::empty());
    assert(instruction::enc_instr(i) == seq![149u8]);
    let s = instruction::enc_instr(i) + rest;
    lemma_instr_shape_0(149, rest);
    assert(s[0] == 149);
    assert(s.skip(1) == rest);
    lemma_enc_termvs_0();
    assert(seq![149u8] + Seq::<u8>::empty() =~= seq![149u8]);
    assert(instruction::enc_instr(i) == seq![instruction::opcode_of(i)] + wire::enc_termvs(args));
}

/// The canonical bytes of this instruction type decode back to it.
#[verifier::rlimit(100)]
proof fn lemma_instr_150(x: instruction::RecvMark, rest: Seq<u8>)
    requires
        wf_instruction(Instruction::RecvMark(x)),
    ensures
        instruction::enc_instr(Instruction::RecvMark(x)).len() >= 1,
        instruction::enc_instr(Instruction::RecvMark(x)) == seq![
            instruction::opcode_of(Instruction::RecvMark(x)),
        ] + wire::enc_termvs(instruction::args_of(Instruction::RecvMark(x))),
        instruction::dec_instr(instruction::enc_instr(Instruction::RecvMark(x)) + rest) == Ok::<
            _,
            DecodeErrorV,
        >((
            instruction::opcode_of(Instruction::RecvMark(x)),
            instruction::args_of(Instruction::RecvMark(x)),
            instruction::enc_instr(Instruction::RecvMark(x)).len(),
        )),
{
    let i = Instruction::RecvMark(x);
    let args = instruction::args_of(i);
    let a1 = x.arg1@;
    assert(args =~= seq![a1]);
    assert(wire::wf_termv(a1)) by {
        assert(args[0] == a1);
    }
    lemma_chain1(ArgKind::Any, a1, rest);
    let e1 = wire::enc_termv(a1);
    assert(instruction::enc_instr(i) == seq![150u8] + e1);
    let s = instruction::enc_instr(i) + rest;
    lemma_instr_shape_1(150, e1, rest);
    assert(s[0] == 150);
    assert(s.skip(1) == e1 + rest);
    lemma_enc_termvs_1(a1);
    assert(instruction::enc_instr(i).len() == 1 + (e1).len());
    assert(instruction::enc_instr(i) == seq![instruction::opcode_of(i)] + wire::enc_termvs(args));
}

/// The canonical bytes of this instruction type decode back to it.
#[verifier::rlimit(100)]
proof fn lemma_instr_151(x: instruction::RecvSet, rest: Seq<u8>)
    requires
        wf_instruction(Instruction::RecvSet(x)),
    ensures
        instruction::enc_instr(Instruction::RecvSet(x)).len() >= 1,
        instruction::enc_instr(Instruction::RecvSet(x)) == seq![
            instruction::opcode_of(Instruction::RecvSet(x)),
        ] + wire::enc_termvs(instruction::args_of(Instruction::RecvSet(x))),
        instruction::dec_instr(instruction::enc_instr(Instruction::RecvSet(x)) + rest) == Ok::<
            _,
            DecodeErrorV,
        >((
            instruction::opcode_of(Instruction::RecvSet(x)),
            instruction::args_of(Instruction::RecvSet(x)),
            instruction::enc_instr(Instruction::RecvSet(x)).len(),
        )),
{
    let i = Instruction::RecvSet(x);
    let args = instruction::args_of(i);
    let a1 = x.arg1@;
    assert(args =~= seq![a1]);
    assert(wire::wf_termv(a1)) by {
        assert(args[0] == a1);
    }
    lemma_chain1(ArgKind::Any, a1, rest);
    let e1 = wire::enc_termv(a1);
    assert(instruction::enc_instr(i) == seq![151u8] + e1);
    let s = instruction::enc_instr(i) + rest;
    lemma_instr_shape_1(151, e1, rest);
    assert(s[0] == 151);
    assert(s.skip(1) == e1 + rest);
    lemma_enc_termvs_1(a1);
    assert(instruction::enc_instr(i).len() == 1 + (e1).len());
    assert(instruction::enc_instr(i) == seq![instruction::opcode_of(i)] + wire::enc_termvs(args));
}

/// The canonical bytes of this instruction type decode back to it.
#[verifier::rlimit(100)]
proof fn lemma_instr_152(x: instruction::GcBif3, rest: Seq<u8>)
    requires
        wf_instruction(Instruction::GcBif3(x)),
    ensures
        instruction::enc_instr(Instruction::GcBif3(x)).len() >= 1,
        instruction::enc_instr(Instruction::GcBif3(x)) == seq![
            instruction::opcode_of(Instruction::GcBif3(x)),
        ] + wire::enc_termvs(instruction::args_of(Instruction::GcBif3(x))),
        instruction::dec_instr(instruction::enc_instr(Instruction::GcBif3(x)) + rest) == Ok::<
            _,
            DecodeErrorV,
        >((
            instruction::opcode_of(Instruction::GcBif3(x)),
            instruction::args_of(Instruction::GcBif3(x)),
            instruction::enc_instr(Instruction::GcBif3(x)).len(),
        )),
{
    let i = Instruction::GcBif3(x);
    let args = instruction::args_of(i);
    let a1 = x.arg1@;
    let a2 = x.arg2@;
    let a3 = x.arg3@;
    let a4 = x.arg4@;
    let a5 = x.arg5@;
    let a6 = x.arg6@;
    let a7 = x.arg7@;
    assert(args =~= seq![a1, a2, a3, a4, a5, a6, a7]);
    assert(wire::wf_termv(a1)) by {
        assert(args[0] == a1);
    }
    assert(wire::wf_termv(a2)) by {
        assert(args[1] == a2);
    }
    assert(wire::wf_termv(a3)) by {
        assert(args[2] == a3);
    }
    assert(wire::wf_termv(a4)) by {
        assert(args[3] == a4);
    }
    assert(wire::wf_termv(a5)) by {
        assert(args[4] == a5);
    }
    assert(wire::wf_termv(a6)) by {
        assert(args[5] == a6);
    }
    assert(wire::wf_termv(a7)) by {
        assert(args[6] == a7);
    }
    lemma_chain7(ArgKind::Any, ArgKind::Any, ArgKind::Any, ArgKind::Any, ArgKind::Any, ArgKind::Any, ArgKind::Any, a1, a2, a3, a4, a5, a6, a7, rest);
    let e1 = wire::enc_termv(a1);
    let e2 = wire::enc_termv(a2);
    let e3 = wire::enc_termv(a3);
    let e4 = wire::enc_termv(a4);
    let e5 = wire::enc_termv(a5);
    let e6 = wire::enc_termv(a6);
    let e7 = wire::enc_termv(a7);
    assert(instruction::enc_instr(i) == seq![152u8] + e1 + e2 + e3 + e4 + e5 + e6 + e7);
    let s = instruction::enc_instr(i) + rest;
    lemma_instr_shape_7(152, e1, e2, e3, e4, e5, e6, e7, rest);
    assert(s[0] == 152);
    assert(s.skip(1) == e1 + e2 + e3 + e4 + e5 + e6 + e7 + rest);
    lemma_enc_termvs_7(a1, a2, a3, a4, a5, a6, a7);
    assert(instruction::enc_instr(i).len() == 1 + (e1 + e2 + e3 + e4 + e5 + e6 + e7).len());
    assert(instruction::enc_instr(i) == seq![instruction::opcode_of(i)] + wire::enc_termvs(args));
}

/// The canonical bytes of this instruction type decode back to it.
#[verifier::rlimit(100)]
proof fn lemma_instr_153(x: instruction::Line, rest: Seq<u8>)
    requires
        wf_instruction(Instruction::Line(x)),
    ensures
        instruction::enc_instr(Instruction::Line(x)).len() >= 1,
        instruction::enc_instr(Instruction::Line(x)) == seq![
            instruction::opcode_of(Instruction::Line(x)),
        ] + wire::enc_termvs(instruction::args_of(Instruction::Line(x))),
        instruction::dec_instr(instruction::enc_instr(Instruction::Line(x)) + rest) == Ok::<
            _,
            DecodeErrorV,
        >((
            instruction::opcode_of(Instruction::Line(x)),
            instruction::args_of(Instruction::Line(x)),
            instruction::enc_instr(Instruction::Line(x)).len(),
        )),
{
    let i = Instruction::Line(x);
    let args = instruction::args_of(i);
    let a1 = TermV::Usize(x.literal as int);
    assert(args =~= seq![a1]);
    assert(wire::wf_termv(a1)) by {
        assert(args[0] == a1);
    }
    lemma_chain1(ArgKind::U, a1, rest);
    let e1 = wire::enc_termv(a1);
    assert(instruction::enc_instr(i) == seq![153u8] + e1);
    let s = instruction::enc_instr(i) + rest;
    lemma_instr_shape_1(153, e1, rest);
    assert(s[0] == 153);
    assert(s.skip(1) == e1 + rest);
    lemma_enc_termvs_1(a1);
    assert(instruction::enc_instr(i).len() == 1 + (e1).len());
    assert(instruction::enc_instr(i) == seq![instruction::opcode_of(i)] + wire::enc_termvs(args));
}

/// The canonical bytes of this instruction type decode back to it.
#[verifier::rlimit(100)]
proof fn lemma_instr_154(x: instruction::PutMapAssoc, rest: Seq<u8>)
    requires
        wf_instruction(Instruction::PutMapAssoc(x)),
    ensures
        instruction::enc_instr(Instruction::PutMapAssoc(x)).len() >= 1,
        instruction::enc_instr(Instruction::PutMapAssoc(x)) == seq![
            instruction::opcode_of(Instruction::PutMapAssoc(x)),
        ] + wire::enc_termvs(instruction::args_of(Instruction::PutMapAssoc(x))),
        instruction::dec_instr(instruction::enc_instr(Instruction::PutMapAssoc(x)) + rest) == Ok::<
            _,
            DecodeErrorV,
        >((
            instruction::opcode_of(Instruction::PutMapAssoc(x)),
            instruction::args_of(Instruction::PutMapAssoc(x)),
            instruction::enc_instr(Instruction::PutMapAssoc(x)).len(),
        )),
{
    let i = Instruction::PutMapAssoc(x);
    let args = instruction::args_of(i);
    let a1 = x.arg1@;
    let a2 = x.arg2@;
    let a3 = x.arg3@;
    let a4 = x.arg4@;
    let a5 = x.arg5@;
    assert(args =~= seq![a1, a2, a3, a4, a5]);
    assert(wire::wf_termv(a1)) by {
        assert(args[0] == a1);
    }
    assert(wire::wf_termv(a2)) by {
        assert(args[1] == a2);
    }
    assert(wire::wf_termv(a3)) by {
        assert(args[2] == a3);
    }
    assert(wire::wf_termv(a4)) by {
        assert(args[3] == a4);
    }
    assert(wire::wf_termv(a5)) by {
        assert(args[4] == a5);
    }
    lemma_chain5(ArgKind::Any, ArgKind::Any, ArgKind::Any, ArgKind::Any, ArgKind::Any, a1, a2, a3, a4, a5, rest);
    let e1 = wire::enc_termv(a1);
    let e2 = wire::enc_termv(a2);
    let e3 = wire::enc_termv(a3);
    let e4 = wire::enc_termv(a4);
    let e5 = wire::enc_termv(a5);
    assert(instruction::enc_instr(i) == seq![154u8] + e1 + e2 + e3 + e4 + e5);
    let s = instruction::enc_instr(i) + rest;
    lemma_instr_shape_5(154, e1, e2, e3, e4, e5, rest);
    assert(s[0] == 154);
    assert(s.skip(1) == e1 + e2 + e3 + e4 + e5 + rest);
    lemma_enc_termvs_5(a1, a2, a3, a4, a5);
    assert(instruction::enc_instr(i).len() == 1 + (e1 + e2 + e3 + e4 + e5).len());
    assert(instruction::enc_instr(i) == seq![instruction::opcode_of(i)] + wire::enc_termvs(args));
}

/// The canonical bytes of this instruction type decode back to it.
#[verifier::rlimit(100)]
proof fn lemma_instr_155(x: instruction::PutMapExact, rest: Seq<u8>)
    requires
        wf_instruction(Instruction::PutMapExact(x)),
    ensures
        instruction::enc_instr(Instruction::PutMapExact(x)).len() >= 1,
        instruction::enc_instr(Instruction::PutMapExact(x)) == seq![
            instruction::opcode_of(Instruction::PutMapExact(x)),
        ] + wire::enc_termvs(instruction::args_of(Instruction::PutMapExact(x))),
        instruction::dec_instr(instruction::enc_instr(Instruction::PutMapExact(x)) + rest) == Ok::<
            _,
            DecodeErrorV,
        >((
            instruction::opcode_of(Instruction::PutMapExact(x)),
            instruction::args_of(Instruction::PutMapExact(x)),
            instruction::enc_instr(Instruction::PutMapExact(x)).len(),
        )),
{
    let i = Instruction::PutMapExact(x);
    let args = instruction::args_of(i);
    let a1 = x.arg1@;
    let a2 = x.arg2@;
    let a3 = x.arg3@;
    let a4 = x.arg4@;
    let a5 = x.arg5@;
    assert(args =~= seq![a1, a2, a3, a4, a5]);
    assert(wire::wf_termv(a1)) by {
        assert(args[0] == a1);
    }
    assert(wire::wf_termv(a2)) by {
        assert(args[1] == a2);
    }
    assert(wire::wf_termv(a3)) by {
        assert(args[2] == a3);
    }
    assert(wire::wf_termv(a4)) by {
        assert(args[3] == a4);
    }
    assert(wire::wf_termv(a5)) by {
        assert(args[4] == a5);
    }
    lemma_chain5(ArgKind::Any, ArgKind::Any, ArgKind::Any, ArgKind::Any, ArgKind::Any, a1, a2, a3, a4, a5, rest);
    let e1 = wire::enc_termv(a1);
    let e2 = wire::enc_termv(a2);
    let e3 = wire::enc_termv(a3);
    let e4 = wire::enc_termv(a4);
    let e5 = wire::enc_termv(a5);
    assert(instruction::enc_instr(i) == seq![155u8] + e1 + e2 + e3 + e4 + e5);
    let s = instruction::enc_instr(i) + rest;
    lemma_instr_shape_5(155, e1, e2, e3, e4, e5, rest);
    assert(s[0] == 155);
    assert(s.skip(1) == e1 + e2 + e3 + e4 + e5 + rest);
    lemma_enc_termvs_5(a1, a2, a3, a4, a5);
    assert(instruction::enc_instr(i).len() == 1 + (e1 + e2 + e3 + e4 + e5).len());
    assert(instruction::enc_instr(i) == seq![instruction::opcode_of(i)] + wire::enc_termvs(args));
}

/// The canonical bytes of this instruction type decode back to it.
#[verifier::rlimit(100)]
proof fn lemma_instr_156(x: instruction::IsMap, rest: Seq<u8>)
    requires
        wf_instruction(Instruction::IsMap(x)),
    ensures
        instruction::enc_instr(Instruction::IsMap(x)).len() >= 1,
        instruction::enc_instr(Instruction::IsMap(x)) == seq![
            instruction::opcode_of(Instruction::IsMap(x)),
        ] + wire::enc_termvs(instruction::args_of(Instruction::IsMap(x))),
        instruction::dec_instr(instruction::enc_instr(Instruction::IsMap(x)) + rest) == Ok::<
            _,
            DecodeErrorV,
        >((
            instruction::opcode_of(Instruction::IsMap(x)),
            instruction::args_of(Instruction::IsMap(x)),
            instruction::enc_instr(Instruction::IsMap(x)).len(),
        )),
{
    let i = Instruction::IsMap(x);
    let args = instruction::args_of(i);
    let a1 = x.arg1@;
    let a2 = x.arg2@;
    assert(args =~= seq![a1, a2]);
    assert(wire::wf_termv(a1)) by {
        assert(args[0] == a1);
    }
    assert(wire::wf_termv(a2)) by {
        assert(args[1] == a2);
    }
    lemma_chain2(ArgKind::Any, ArgKind::Any, a1, a2, rest);
    let e1 = wire::enc_termv(a1);
    let e2 = wire::enc_termv(a2);
    assert(instruction::enc_instr(i) == seq![156u8] + e1 + e2);
    let s = instruction::enc_instr(i) + rest;
    lemma_instr_shape_2(156, e1, e2, rest);
    assert(s[0] == 156);
    assert(s.skip(1) == e1 + e2 + rest);
    lemma_enc_termvs_2(a1, a2);
    assert(instruction::enc_instr(i).len() == 1 + (e1 + e2).len());
    assert(instruction::enc_instr(i) == seq![instruction::opcode_of(i)] + wire::enc_termvs(args));
}

/// The canonical bytes of this instruction type decode back to it.
#[verifier::rlimit(100)]
proof fn lemma_instr_157(x: instruction::HasMapFields, rest: Seq<u8>)
    requires
        wf_instruction(Instruction::HasMapFields(x)),
    ensures
        instruction::enc_instr(Instruction::HasMapFields(x)).len() >= 1,
        instruction::enc_instr(Instruction::HasMapFields(x)) == seq![
            instruction::opcode_of(Instruction::HasMapFields(x)),
        ] + wire::enc_termvs(instruction::args_of(Instruction::HasMapFields(x))),
        instruction::dec_instr(instruction::enc_instr(Instruction::HasMapFields(x)) + rest) == Ok::<
            _,
            DecodeErrorV,
        >((
            instruction::opcode_of(Instruction::HasMapFields(x)),
            instruction::args_of(Instruction::HasMapFields(x)),
            instruction::enc_instr(Instruction::HasMapFields(x)).len(),
        )),
{
    let i = Instruction::HasMapFields(x);
    let args = instruction::args_of(i);
    let a1 = x.arg1@;
    let a2 = x.arg2@;
    let a3 = x.arg3@;
    assert(args =~= seq![a1, a2, a3]);
    assert(wire::wf_termv(a1)) by {
        assert(args[0] == a1);
    }
    assert(wire::wf_termv(a2)) by {
        assert(args[1] == a2);
    }
    assert(wire::wf_termv(a3)) by {
        assert(args[2] == a3);
    }
    lemma_chain3(ArgKind::Any, ArgKind::Any, ArgKind::Any, a1, a2, a3, rest);
    let e1 = wire::enc_termv(a1);
    let e2 = wire::enc_termv(a2);
    let e3 = wire::enc_termv(a3);
    assert(instruction::enc_instr(i) == seq![157u8] + e1 + e2 + e3);
    let s = instruction::enc_instr(i) + rest;
    lemma_instr_shape_3(157, e1, e2, e3, rest);
    assert(s[0] == 157);
    assert(s.skip(1) == e1 + e2 + e3 + rest);
    lemma_enc_termvs_3(a1, a2, a3);
    assert(instruction::enc_instr(i).len() == 1 + (e1 + e2 + e3).len());
    assert(instruction::enc_instr(i) == seq![instruction::opcode_of(i)] + wire::enc_termvs(args));
}

/// The canonical bytes of this instruction type decode back to it.
#[verifier::rlimit(100)]
proof fn lemma_instr_158(x: instruction::GetMapElement, rest: Seq<u8>)
    requires
        wf_instruction(Instruction::GetMapElement(x)),
    ensures
        instruction::enc_instr(Instruction::GetMapElement(x)).len() >= 1,
        instruction::enc_instr(Instruction::GetMapElement(x)) == seq![
            instruction::opcode_of(Instruction::GetMapElement(x)),
        ] + wire::enc_termvs(instruction::args_of(Instruction::GetMapElement(x))),
        instruction::dec_instr(instruction::enc_instr(Instruction::GetMapElement(x)) + rest) == Ok::<
            _,
            DecodeErrorV,
        >((
            instruction::opcode_of(Instruction::GetMapElement(x)),
            instruction::args_of(Instruction::GetMapElement(x)),
            instruction::enc_instr(Instruction::GetMapElement(x)).len(),
        )),
{
    let i = Instruction::GetMapElement(x);
    let args = instruction::args_of(i);
    let a1 = x.arg1@;
    let a2 = x.arg2@;
    let a3 = x.arg3@;
    assert(args =~= seq![a1, a2, a3]);
    assert(wire::wf_termv(a1)) by {
        assert(args[0] == a1);
    }
    assert(wire::wf_termv(a2)) by {
        assert(args[1] == a2);
    }
    assert(wire::wf_termv(a3)) by {
        assert(args[2] == a3);
    }
    lemma_chain3(ArgKind::Any, ArgKind::Any, ArgKind::Any, a1, a2, a3, rest);
    let e1 = wire::enc_termv(a1);
    let e2 = wire::enc_termv(a2);
    let e3 = wire::enc_termv(a3);
    assert(instruction::enc_instr(i) == seq![158u8] + e1 + e2 + e3);
    let s = instruction::enc_instr(i) + rest;
    lemma_instr_shape_3(158, e1, e2, e3, rest);
    assert(s[0] == 158);
    assert(s.skip(1) == e1 + e2 + e3 + rest);
    lemma_enc_termvs_3(a1, a2, a3);
    assert(instruction::enc_instr(i).len() == 1 + (e1 + e2 + e3).len());
    assert(instruction::enc_instr(i) == seq![instruction::opcode_of(i)] + wire::enc_termvs(args));
}

/// The canonical bytes of this instruction type decode back to it.
#[verifier::rlimit(100)]
proof fn lemma_instr_159(x: instruction::IsTaggedTuple, rest: Seq<u8>)
    requires
        wf_instruction(Instruction::IsTaggedTuple(x)),
    ensures
        instruction::enc_instr(Instruction::IsTaggedTuple(x)).len() >= 1,
        instruction::enc_instr(Instruction::IsTaggedTuple(x)) == seq![
            instruction::opcode_of(Instruction::IsTaggedTuple(x)),
        ] + wire::enc_termvs(instruction::args_of(Instruction::IsTaggedTuple(x))),
        instruction::dec_instr(instruction::enc_instr(Instruction::IsTaggedTuple(x)) + rest) == Ok::<
            _,
            DecodeErrorV,
        >((
            instruction::opcode_of(Instruction::IsTaggedTuple(x)),
            instruction::args_of(Instruction::IsTaggedTuple(x)),
            instruction::enc_instr(Instruction::IsTaggedTuple(x)).len(),
        )),
{
    let i = Instruction::IsTaggedTuple(x);
    let args = instruction::args_of(i);
    let a1 = TermV::Label(x.label.value as int);
    let a2 = x.register@;
    let a3 = TermV::Usize(x.arity as int);
    let a4 = TermV::Atom(x.atom.value as int);
    assert(args =~= seq![a1, a2, a3, a4]);
    assert(wire::wf_termv(a1)) by {
        assert(args[0] == a1);
    }
    assert(wire::wf_termv(a2)) by {
        assert(args[1] == a2);
    }
    assert(wire::wf_termv(a3)) by {
        assert(args[2] == a3);
    }
    assert(wire::wf_termv(a4)) by {
        assert(args[3] == a4);
    }
    lemma_chain4(ArgKind::Lbl, ArgKind::Reg, ArgKind::U, ArgKind::Atm, a1, a2, a3, a4, rest);
    let e1 = wire::enc_termv(a1);
    let e2 = wire::enc_termv(a2);
    let e3 = wire::enc_termv(a3);
    let e4 = wire::enc_termv(a4);
    assert(instruction::enc_instr(i) == seq![159u8] + e1 + e2 + e3 + e4);
    let s = instruction::enc_instr(i) + rest;
    lemma_instr_shape_4(159, e1, e2, e3, e4, rest);
    assert(s[0] == 159);
    assert(s.skip(1) == e1 + e2 + e3 + e4 + rest);
    lemma_enc_termvs_4(a1, a2, a3, a4);
    assert(instruction::enc_instr(i).len() == 1 + (e1 + e2 + e3 + e4).len());
    assert(instruction::enc_instr(i) == seq![instruction::opcode_of(i)] + wire::enc_termvs(args));
}

/// The canonical bytes of this instruction type decode back to it.
#[verifier::rlimit(100)]
proof fn lemma_instr_160(x: instruction::BuildStacktrace, rest: Seq<u8>)
    requires
        wf_instruction(Instruction::BuildStacktrace(x)),
    ensures
        instruction::enc_instr(Instruction::BuildStacktrace(x)).len() >= 1,
        instruction::enc_instr(Instruction::BuildStacktrace(x)) == seq![
            instruction::opcode_of(Instruction::BuildStacktrace(x)),
        ] + wire::enc_termvs(instruction::args_of(Instruction::BuildStacktrace(x))),
        instruction::dec_instr(instruction::enc_instr(Instruction::BuildStacktrace(x)) + rest) == Ok::<
            _,
            DecodeErrorV,
        >((
            instruction::opcode_of(Instruction::BuildStacktrace(x)),
            instruction::args_of(Instruction::BuildStacktrace(x)),
            instruction::enc_instr(Instruction::BuildStacktrace(x)).len(),
        )),
{
    let i = Instruction::BuildStacktrace(x);
    let args = instruction::args_of(i);
    assert(args =~= Seq::<TermV>::empty());
    assert(instruction::enc_instr(i) == seq![160u8]);
    let s = instruction::enc_instr(i) + rest;
    lemma_instr_shape_0(160, rest);
    assert(s[0] == 160);
    assert(s.skip(1) == rest);
    lemma_enc_termvs_0();
    assert(seq![160u8] + Seq::<u8>::empty() =~= seq![160u8]);
    assert(instruction::enc_instr(i) == seq![instruction::opcode_of(i)] + wire::enc_termvs(args));
}

/// The canonical bytes of this instruction type decode back to it.
#[verifier::rlimit(100)]
proof fn lemma_instr_161(x: instruction::RawRaise, rest: Seq<u8>)
    requires
        wf_instruction(Instruction::RawRaise(x)),
    ensures
        instruction::enc_instr(Instruction::RawRaise(x)).len() >= 1,
        instruction::enc_instr(Instruction::RawRaise(x)) == seq![
            instruction::opcode_of(Instruction::RawRaise(x)),
        ] + wire::enc_termvs(instruction::args_of(Instruction::RawRaise(x))),
        instruction::dec_instr(instruction::enc_instr(Instruction::RawRaise(x)) + rest) == Ok::<
            _,
            DecodeErrorV,
        >((
            instruction::opcode_of(Instruction::RawRaise(x)),
            instruction::args_of(Instruction::RawRaise(x)),
            instruction::enc_instr(Instruction::RawRaise(x)).len(),
        )),
{
    let i = Instruction::RawRaise(x);
    let args = instruction::args_of(i);
    assert(args =~= Seq::<TermV>::empty());
    assert(instruction::enc_instr(i) == seq![161u8]);
    let s = instruction::enc_instr(i) + rest;
    lemma_instr_shape_0(161, rest);
    assert(s[0] == 161);
    assert(s.skip(1) == rest);
    lemma_enc_termvs_0();
    assert(seq![161u8] + Seq::<u8>::empty() =~= seq![161u8]);
    assert(instruction::enc_instr(i) == seq![instruction::opcode_of(i)] + wire::enc_termvs(args));
}

/// The canonical bytes of this instruction type decode back to it.
#[verifier::rlimit(100)]
proof fn lemma_instr_162(x: instruction::GetHd, rest: Seq<u8>)
    requires
        wf_instruction(Instruction::GetHd(x)),
    ensures
        instruction::enc_instr(Instruction::GetHd(x)).len() >= 1,
        instruction::enc_instr(Instruction::GetHd(x)) == seq![
            instruction::opcode_of(Instruction::GetHd(x)),
        ] + wire::enc_termvs(instruction::args_of(Instruction::GetHd(x))),
        instruction::dec_instr(instruction::enc_instr(Instruction::GetHd(x)) + rest) == Ok::<
            _,
            DecodeErrorV,
        >((
            instruction::opcode_of(Instruction::GetHd(x)),
            instruction::args_of(Instruction::GetHd(x)),
            instruction::enc_instr(Instruction::GetHd(x)).len(),
        )),
{
    let i = Instruction::GetHd(x);
    let args = instruction::args_of(i);
    let a1 = x.arg1@;
    let a2 = x.arg2@;
    assert(args =~= seq![a1, a2]);
    assert(wire::wf_termv(a1)) by {
        assert(args[0] == a1);
    }
    assert(wire::wf_termv(a2)) by {
        assert(args[1] == a2);
    }
    lemma_chain2(ArgKind::Any, ArgKind::Any, a1, a2, rest);
    let e1 = wire::enc_termv(a1);
    let e2 = wire::enc_termv(a2);
    assert(instruction::enc_instr(i) == seq![162u8] + e1 + e2);
    let s = instruction::enc_instr(i) + rest;
    lemma_instr_shape_2(162, e1, e2, rest);
    assert(s[0] == 162);
    assert(s.skip(1) == e1 + e2 + rest);
    lemma_enc_termvs_2(a1, a2);
    assert(instruction::enc_instr(i).len() == 1 + (e1 + e2).len());
    assert(instruction::enc_instr(i) == seq![instruction::opcode_of(i)] + wire::enc_termvs(args));
}

/// The canonical bytes of this instruction type decode back to it.
#[verifier::rlimit(100)]
proof fn lemma_instr_163(x: instruction::GetTl, rest: Seq<u8>)
    requires
        wf_instruction(Instruction::GetTl(x)),
    ensures
        instruction::enc_instr(Instruction::GetTl(x)).len() >= 1,
        instruction::enc_instr(Instruction::GetTl(x)) == seq![
            instruction::opcode_of(Instruction::GetTl(x)),
        ] + wire::enc_termvs(instruction::args_of(Instruction::GetTl(x))),
        instruction::dec_instr(instruction::enc_instr(Instruction::GetTl(x)) + rest) == Ok::<
            _,
            DecodeErrorV,
        >((
            instruction::opcode_of(Instruction::GetTl(x)),
            instruction::args_of(Instruction::GetTl(x)),
            instruction::enc_instr(Instruction::GetTl(x)).len(),
        )),
{
    let i = Instruction::GetTl(x);
    let args = instruction::args_of(i);
    let a1 = x.arg1@;
    let a2 = x.arg2@;
    assert(args =~= seq![a1, a2]);
    assert(wire::wf_termv(a1)) by {
        assert(args[0] == a1);
    }
    assert(wire::wf_termv(a2)) by {
        assert(args[1] == a2);
    }
    lemma_chain2(ArgKind::Any, ArgKind::Any, a1, a2, rest);
    let e1 = wire::enc_termv(a1);
    let e2 = wire::enc_termv(a2);
    assert(instruction::enc_instr(i) == seq![163u8] + e1 + e2);
    let s = instruction::enc_instr(i) + rest;
    lemma_instr_shape_2(163, e1, e2, rest);
    assert(s[0] == 163);
    assert(s.skip(1) == e1 + e2 + rest);
    lemma_enc_termvs_2(a1, a2);
    assert(instruction::enc_instr(i).len() == 1 + (e1 + e2).len());
    assert(instruction::enc_instr(i) == seq![instruction::opcode_of(i)] + wire::enc_termvs(args));
}

/// The canonical bytes of this instruction type decode back to it.
#[verifier::rlimit(100)]
proof fn lemma_instr_164(x: instruction::PutTuple2, rest: Seq<u8>)
    requires
        wf_instruction(Instruction::PutTuple2(x)),
    ensures
        instruction::enc_instr(Instruction::PutTuple2(x)).len() >= 1,
        instruction::enc_instr(Instruction::PutTuple2(x)) == seq![
            instruction::opcode_of(Instruction::PutTuple2(x)),
        ] + wire::enc_termvs(instruction::args_of(Instruction::PutTuple2(x))),
        instruction::dec_instr(instruction::enc_instr(Instruction::PutTuple2(x)) + rest) == Ok::<
            _,
            DecodeErrorV,
        >((
            instruction::opcode_of(Instruction::PutTuple2(x)),
            instruction::args_of(Instruction::PutTuple2(x)),
            instruction::enc_instr(Instruction::PutTuple2(x)).len(),
        )),
{
    let i = Instruction::PutTuple2(x);
    let args = instruction::args_of(i);
    let a1 = x.destination@;
    let a2 = TermV::List(x.elements@);
    assert(args =~= seq![a1, a2]);
    assert(wire::wf_termv(a1)) by {
        assert(args[0] == a1);
    }
    assert(wire::wf_termv(a2)) by {
        assert(args[1] == a2);
    }
    lemma_chain2(ArgKind::Reg, ArgKind::Lst, a1, a2, rest);
    let e1 = wire::enc_termv(a1);
    let e2 = wire::enc_termv(a2);
    assert(instruction::enc_instr(i) == seq![164u8] + e1 + e2);
    let s = instruction::enc_instr(i) + rest;
    lemma_instr_shape_2(164, e1, e2, rest);
    assert(s[0] == 164);
    assert(s.skip(1) == e1 + e2 + rest);
    lemma_enc_termvs_2(a1, a2);
    assert(instruction::enc_instr(i).len() == 1 + (e1 + e2).len());
    assert(instruction::enc_instr(i) == seq![instruction::opcode_of(i)] + wire::enc_termvs(args));
}

/// The canonical bytes of this instruction type decode back to it.
#[verifier::rlimit(100)]
proof fn lemma_instr_165(x: instruction::BsGetTail, rest: Seq<u8>)
    requires
        wf_instruction(Instruction::BsGetTail(x)),
    ensures
        instruction::enc_instr(Instruction::BsGetTail(x)).len() >= 1,
        instruction::enc_instr(Instruction::BsGetTail(x)) == seq![
            instruction::opcode_of(Instruction::BsGetTail(x)),
        ] + wire::enc_termvs(instruction::args_of(Instruction::BsGetTail(x))),
        instruction::dec_instr(instruction::enc_instr(Instruction::BsGetTail(x)) + rest) == Ok::<
            _,
            DecodeErrorV,
        >((
            instruction::opcode_of(Instruction::BsGetTail(x)),
            instruction::args_of(Instruction::BsGetTail(x)),
            instruction::enc_instr(Instruction::BsGetTail(x)).len(),
        )),
{
    let i = Instruction::BsGetTail(x);
    let args = instruction::args_of(i);
    let a1 = x.context@;
    let a2 = x.destination@;
    let a3 = TermV::Usize(x.live as int);
    assert(args =~= seq![a1, a2, a3]);
    assert(wire::wf_termv(a1)) by {
        assert(args[0] == a1);
    }
    assert(wire::wf_termv(a2)) by {
        assert(args[1] == a2);
    }
    assert(wire::wf_termv(a3)) by {
        assert(args[2] == a3);
    }
    lemma_chain3(ArgKind::Any, ArgKind::Reg, ArgKind::U, a1, a2, a3, rest);
    let e1 = wire::enc_termv(a1);
    let e2 = wire::enc_termv(a2);
    let e3 = wire::enc_termv(a3);
    assert(instruction::enc_instr(i) == seq![165u8] + e1 + e2 + e3);
    let s = instruction::enc_instr(i) + rest;
    lemma_instr_shape_3(165, e1, e2, e3, rest);
    assert(s[0] == 165);
    assert(s.skip(1) == e1 + e2 + e3 + rest);
    lemma_enc_termvs_3(a1, a2, a3);
    assert(instruction::enc_instr(i).len() == 1 + (e1 + e2 + e3).len());
    assert(instruction::enc_instr(i) == seq![instruction::opcode_of(i)] + wire::enc_termvs(args));
}

/// The canonical bytes of this instruction type decode back to it.
#[verifier::rlimit(100)]
proof fn lemma_instr_166(x: instruction::BsStartMatch3, rest: Seq<u8>)
    requires
        wf_instruction(Instruction::BsStartMatch3(x)),
    ensures
        instruction::enc_instr(Instruction::BsStartMatch3(x)).len() >= 1,
        instruction::enc_instr(Instruction::BsStartMatch3(x)) == seq![
            instruction::opcode_of(Instruction::BsStartMatch3(x)),
        ] + wire::enc_termvs(instruction::args_of(Instruction::BsStartMatch3(x))),
        instruction::dec_instr(instruction::enc_instr(Instruction::BsStartMatch3(x)) + rest) == Ok::<
            _,
            DecodeErrorV,
        >((
            instruction::opcode_of(Instruction::BsStartMatch3(x)),
            instruction::args_of(Instruction::BsStartMatch3(x)),
            instruction::enc_instr(Instruction::BsStartMatch3(x)).len(),
        )),
{
    let i = Instruction::BsStartMatch3(x);
    let args = instruction::args_of(i);
    let a1 = TermV::Label(x.fail.value as int);
    let a2 = x.bin@;
    let a3 = TermV::Usize(x.live as int);
    let a4 = x.destination@;
    assert(args =~= seq![a1, a2, a3, a4]);
    assert(wire::wf_termv(a1)) by {
        assert(args[0] == a1);
    }
    assert(wire::wf_termv(a2)) by {
        assert(args[1] == a2);
    }
    assert(wire::wf_termv(a3)) by {
        assert(args[2] == a3);
    }
    assert(wire::wf_termv(a4)) by {
        assert(args[3] == a4);
    }
    lemma_chain4(ArgKind::Lbl, ArgKind::Any, ArgKind::U, ArgKind::Reg, a1, a2, a3, a4, rest);
    let e1 = wire::enc_termv(a1);
    let e2 = wire::enc_termv(a2);
    let e3 = wire::enc_termv(a3);
    let e4 = wire::enc_termv(a4);
    assert(instruction::enc_instr(i) == seq![166u8] + e1 + e2 + e3 + e4);
    let s = instruction::enc_instr(i) + rest;
    lemma_instr_shape_4(166, e1, e2, e3, e4, rest);
    assert(s[0] == 166);
    assert(s.skip(1) == e1 + e2 + e3 + e4 + rest);
    lemma_enc_termvs_4(a1, a2, a3, a4);
    assert(instruction::enc_instr(i).len() == 1 + (e1 + e2 + e3 + e4).len());
    assert(instruction::enc_instr(i) == seq![instruction::opcode_of(i)] + wire::enc_termvs(args));
}

/// The canonical bytes of this instruction type decode back to it.
#[verifier::rlimit(100)]
proof fn lemma_instr_167(x: instruction::BsGetPosition, rest: Seq<u8>)
    requires
        wf_instruction(Instruction::BsGetPosition(x)),
    ensures
        instruction::enc_instr(Instruction::BsGetPosition(x)).len() >= 1,
        instruction::enc_instr(Instruction::BsGetPosition(x)) == seq![
            instruction::opcode_of(Instruction::BsGetPosition(x)),
        ] + wire::enc_termvs(instruction::args_of(Instruction::BsGetPosition(x))),
        instruction::dec_instr(instruction::enc_instr(Instruction::BsGetPosition(x)) + rest) == Ok::<
            _,
            DecodeErrorV,
        >((
            instruction::opcode_of(Instruction::BsGetPosition(x)),
            instruction::args_of(Instruction::BsGetPosition(x)),
            instruction::enc_instr(Instruction::BsGetPosition(x)).len(),
        )),
{
    let i = Instruction::BsGetPosition(x);
    let args = instruction::args_of(i);
    let a1 = x.context@;
    let a2 = x.destination@;
    let a3 = TermV::Usize(x.live as int);
    assert(args =~= seq![a1, a2, a3]);
    assert(wire::wf_termv(a1)) by {
        assert(args[0] == a1);
    }
    assert(wire::wf_termv(a2)) by {
        assert(args[1] == a2);
    }
    assert(wire::wf_termv(a3)) by {
        assert(args[2] == a3);
    }
    lemma_chain3(ArgKind::Any, ArgKind::Reg, ArgKind::U, a1, a2, a3, rest);
    let e1 = wire::enc_termv(a1);
    let e2 = wire::enc_termv(a2);
    let e3 = wire::enc_termv(a3);
    assert(instruction::enc_instr(i) == seq![167u8] + e1 + e2 + e3);
    let s = instruction::enc_instr(i) + rest;
    lemma_instr_shape_3(167, e1, e2, e3, rest);
    assert(s[0] == 167);
    assert(s.skip(1) == e1 + e2 + e3 + rest);
    lemma_enc_termvs_3(a1, a2, a3);
    assert(instruction::enc_instr(i).len() == 1 + (e1 + e2 + e3).len());
    assert(instruction::enc_instr(i) == seq![instruction::opcode_of(i)] + wire::enc_termvs(args));
}

/// The canonical bytes of this instruction type decode back to it.
#[verifier::rlimit(100)]
proof fn lemma_instr_168(x: instruction::BsSetPosition, rest: Seq<u8>)
    requires
        wf_instruction(Instruction::BsSetPosition(x)),
    ensures
        instruction::enc_instr(Instruction::BsSetPosition(x)).len() >= 1,
        instruction::enc_instr(Instruction::BsSetPosition(x)) == seq![
            instruction::opcode_of(Instruction::BsSetPosition(x)),
        ] + wire::enc_termvs(instruction::args_of(Instruction::BsSetPosition(x))),
        instruction::dec_instr(instruction::enc_instr(Instruction::BsSetPosition(x)) + rest) == Ok::<
            _,
            DecodeErrorV,
        >((
            instruction::opcode_of(Instruction::BsSetPosition(x)),
            instruction::args_of(Instruction::BsSetPosition(x)),
            instruction::enc_instr(Instruction::BsSetPosition(x)).len(),
        )),
{
    let i = Instruction::BsSetPosition(x);
    let args = instruction::args_of(i);
    let a1 = x.context@;
    let a2 = x.position@;
    assert(args =~= seq![a1, a2]);
    assert(wire::wf_termv(a1)) by {
        assert(args[0] == a1);
    }
    assert(wire::wf_termv(a2)) by {
        assert(args[1] == a2);
    }
    lemma_chain2(ArgKind::Any, ArgKind::Any, a1, a2, rest);
    let e1 = wire::enc_termv(a1);
    let e2 = wire::enc_termv(a2);
    assert(instruction::enc_instr(i) == seq![168u8] + e1 + e2);
    let s = instruction::enc_instr(i) + rest;
    lemma_instr_shape_2(168, e1, e2, rest);
    assert(s[0] == 168);
    assert(s.skip(1) == e1 + e2 + rest);
    lemma_enc_termvs_2(a1, a2);
    assert(instruction::enc_instr(i).len() == 1 + (e1 + e2).len());
    assert(instruction::enc_instr(i) == seq![instruction::opcode_of(i)] + wire::enc_termvs(args));
}

/// The canonical bytes of this instruction type decode back to it.
#[verifier::rlimit(100)]
proof fn lemma_instr_169(x: instruction::Swap, rest: Seq<u8>)
    requires
        wf_instruction(Instruction::Swap(x)),
    ensures
        instruction::enc_instr(Instruction::Swap(x)).len() >= 1,
        instruction::enc_instr(Instruction::Swap(x)) == seq![
            instruction::opcode_of(Instruction::Swap(x)),
        ] + wire::enc_termvs(instruction::args_of(Instruction::Swap(x))),
        instruction::dec_instr(instruction::enc_instr(Instruction::Swap(x)) + rest) == Ok::<
            _,
            DecodeErrorV,
        >((
            instruction::opcode_of(Instruction::Swap(x)),
            instruction::args_of(Instruction::Swap(x)),
            instruction::enc_instr(Instruction::Swap(x)).len(),
        )),
{
    let i = Instruction::Swap(x);
    let args = instruction::args_of(i);
    let a1 = x.arg1@;
    let a2 = x.arg2@;
    assert(args =~= seq![a1, a2]);
    assert(wire::wf_termv(a1)) by {
        assert(args[0] == a1);
    }
    assert(wire::wf_termv(a2)) by {
        assert(args[1] == a2);
    }
    lemma_chain2(ArgKind::Any, ArgKind::Any, a1, a2, rest);
    let e1 = wire::enc_termv(a1);
    let e2 = wire::enc_termv(a2);
    assert(instruction::enc_instr(i) == seq![169u8] + e1 + e2);
    let s = instruction::enc_instr(i) + rest;
    lemma_instr_shape_2(169, e1, e2, rest);
    assert(s[0] == 169);
    assert(s.skip(1) == e1 + e2 + rest);
    lemma_enc_termvs_2(a1, a2);
    assert(instruction::enc_instr(i).len() == 1 + (e1 + e2).len());
    assert(instruction::enc_instr(i) == seq![instruction::opcode_of(i)] + wire::enc_termvs(args));
}

/// The canonical bytes of this instruction type decode back to it.
#[verifier::rlimit(100)]
proof fn lemma_instr_170(x: instruction::BsStartMatch4, rest: Seq<u8>)
    requires
        wf_instruction(Instruction::BsStartMatch4(x)),
    ensures
        instruction::enc_instr(Instruction::BsStartMatch4(x)).len() >= 1,
        instruction::enc_instr(Instruction::BsStartMatch4(x)) == seq![
            instruction::opcode_of(Instruction::BsStartMatch4(x)),
        ] + wire::enc_termvs(instruction::args_of(Instruction::BsStartMatch4(x))),
        instruction::dec_instr(instruction::enc_instr(Instruction::BsStartMatch4(x)) + rest) == Ok::<
            _,
            DecodeErrorV,
        >((
            instruction::opcode_of(Instruction::BsStartMatch4(x)),
            instruction::args_of(Instruction::BsStartMatch4(x)),
            instruction::enc_instr(Instruction::BsStartMatch4(x)).len(),
        )),
{
    let i = Instruction::BsStartMatch4(x);
    let args = instruction::args_of(i);
    let a1 = x.arg1@;
    let a2 = x.arg2@;
    let a3 = x.arg3@;
    let a4 = x.arg4@;
    assert(args =~= seq![a1, a2, a3, a4]);
    assert(wire::wf_termv(a1)) by {
        assert(args[0] == a1);
    }
    assert(wire::wf_termv(a2)) by {
        assert(args[1] == a2);
    }
    assert(wire::wf_termv(a3)) by {
        assert(args[2] == a3);
    }
    assert(wire::wf_termv(a4)) by {
        assert(args[3] == a4);
    }
    lemma_chain4(ArgKind::Any, ArgKind::Any, ArgKind::Any, ArgKind::Any, a1, a2, a3, a4, rest);
    let e1 = wire::enc_termv(a1);
    let e2 = wire::enc_termv(a2);
    let e3 = wire::enc_termv(a3);
    let e4 = wire::enc_termv(a4);
    assert(instruction::enc_instr(i) == seq![170u8] + e1 + e2 + e3 + e4);
    let s = instruction::enc_instr(i) + rest;
    lemma_instr_shape_4(170, e1, e2, e3, e4, rest);
    assert(s[0] == 170);
    assert(s.skip(1) == e1 + e2 + e3 + e4 + rest);
    lemma_enc_termvs_4(a1, a2, a3, a4);
    assert(instruction::enc_instr(i).len() == 1 + (e1 + e2 + e3 + e4).len());
    assert(instruction::enc_instr(i) == seq![instruction::opcode_of(i)] + wire::enc_termvs(args));
}

/// The canonical bytes of this instruction type decode back to it.
#[verifier::rlimit(100)]
proof fn lemma_instr_171(x: instruction::MakeFun3, rest: Seq<u8>)
    requires
        wf_instruction(Instruction::MakeFun3(x)),
    ensures
        instruction::enc_instr(Instruction::MakeFun3(x)).len() >= 1,
        instruction::enc_instr(Instruction::MakeFun3(x)) == seq![
            instruction::opcode_of(Instruction::MakeFun3(x)),
        ] + wire::enc_termvs(instruction::args_of(Instruction::MakeFun3(x))),
        instruction::dec_instr(instruction::enc_instr(Instruction::MakeFun3(x)) + rest) == Ok::<
            _,
            DecodeErrorV,
        >((
            instruction::opcode_of(Instruction::MakeFun3(x)),
            instruction::args_of(Instruction::MakeFun3(x)),
            instruction::enc_instr(Instruction::MakeFun3(x)).len(),
        )),
{
    let i = Instruction::MakeFun3(x);
    let args = instruction::args_of(i);
    let a1 = x.arg1@;
    let a2 = x.arg2@;
    let a3 = x.arg3@;
    assert(args =~= seq![a1, a2, a3]);
    assert(wire::wf_termv(a1)) by {
        assert(args[0] == a1);
    }
    assert(wire::wf_termv(a2)) by {
        assert(args[1] == a2);
    }
    assert(wire::wf_termv(a3)) by {
        assert(args[2] == a3);
    }
    lemma_chain3(ArgKind::Any, ArgKind::Any, ArgKind::Any, a1, a2, a3, rest);
    let e1 = wire::enc_termv(a1);
    let e2 = wire::enc_termv(a2);
    let e3 = wire::enc_termv(a3);
    assert(instruction::enc_instr(i) == seq![171u8] + e1 + e2 + e3);
    let s = instruction::enc_instr(i) + rest;
    lemma_instr_shape_3(171, e1, e2, e3, rest);
    assert(s[0] == 171);
    assert(s.skip(1) == e1 + e2 + e3 + rest);
    lemma_enc_termvs_3(a1, a2, a3);
    assert(instruction::enc_instr(i).len() == 1 + (e1 + e2 + e3).len());
    assert(instruction::enc_instr(i) == seq![instruction::opcode_of(i)] + wire::enc_termvs(args));
}

/// The canonical bytes of this instruction type decode back to it.
#[verifier::rlimit(100)]
proof fn lemma_instr_172(x: instruction::InitYregs, rest: Seq<u8>)
    requires
        wf_instruction(Instruction::InitYregs(x)),
    ensures
        instruction::enc_instr(Instruction::InitYregs(x)).len() >= 1,
        instruction::enc_instr(Instruction::InitYregs(x)) == seq![
            instruction::opcode_of(Instruction::InitYregs(x)),
        ] + wire::enc_termvs(instruction::args_of(Instruction::InitYregs(x))),
        instruction::dec_instr(instruction::enc_instr(Instruction::InitYregs(x)) + rest) == Ok::<
            _,
            DecodeErrorV,
        >((
            instruction::opcode_of(Instruction::InitYregs(x)),
            instruction::args_of(Instruction::InitYregs(x)),
            instruction::enc_instr(Instruction::InitYregs(x)).len(),
        )),
{
    let i = Instruction::InitYregs(x);
    let args = instruction::args_of(i);
    let a1 = TermV::List(crate::term::view_yregs(x.registers@));
    assert(args =~= seq![a1]);
    assert(wire::wf_termv(a1)) by {
        assert(args[0] == a1);
    }
    assert(laws::arg_kind_ok(ArgKind::Ys, a1)) by {
        let ys = crate::term::view_yregs(x.registers@);
        assert forall|ii: int| 0 <= ii < ys.len() implies (#[trigger] ys[ii]) is YRegister by {
        }
    }
    lemma_chain1(ArgKind::Ys, a1, rest);
    let e1 = wire::enc_termv(a1);
    assert(instruction::enc_instr(i) == seq![172u8] + e1);
    let s = instruction::enc_instr(i) + rest;
    lemma_instr_shape_1(172, e1, rest);
    assert(s[0] == 172);
    assert(s.skip(1) == e1 + rest);
    lemma_enc_termvs_1(a1);
    assert(instruction::enc_instr(i).len() == 1 + (e1).len());
    assert(instruction::enc_instr(i) == seq![instruction::opcode_of(i)] + wire::enc_termvs(args));
}

/// The canonical bytes of this instruction type decode back to it.
#[verifier::rlimit(100)]
proof fn lemma_instr_173(x: instruction::RecvMarkerBind, rest: Seq<u8>)
    requires
        wf_instruction(Instruction::RecvMarkerBind(x)),
    ensures
        instruction::enc_instr(Instruction::RecvMarkerBind(x)).len() >= 1,
        instruction::enc_instr(Instruction::RecvMarkerBind(x)) == seq![
            instruction::opcode_of(Instruction::RecvMarkerBind(x)),
        ] + wire::enc_termvs(instruction::args_of(Instruction::RecvMarkerBind(x))),
        instruction::dec_instr(instruction::enc_instr(Instruction::RecvMarkerBind(x)) + rest) == Ok::<
            _,
            DecodeErrorV,
        >((
            instruction::opcode_of(Instruction::RecvMarkerBind(x)),
            instruction::args_of(Instruction::RecvMarkerBind(x)),
            instruction::enc_instr(Instruction::RecvMarkerBind(x)).len(),
        )),
{
    let i = Instruction::RecvMarkerBind(x);
    let args = instruction::args_of(i);
    let a1 = x.arg1@;
    let a2 = x.arg2@;
    assert(args =~= seq![a1, a2]);
    assert(wire::wf_termv(a1)) by {
        assert(args[0] == a1);
    }
    assert(wire::wf_termv(a2)) by {
        assert(args[1] == a2);
    }
    lemma_chain2(ArgKind::Any, ArgKind::Any, a1, a2, rest);
    let e1 = wire::enc_termv(a1);
    let e2 = wire::enc_termv(a2);
    assert(instruction::enc_instr(i) == seq![173u8] + e1 + e2);
    let s = instruction::enc_instr(i) + rest;
    lemma_instr_shape_2(173, e1, e2, rest);
    assert(s[0] == 173);
    assert(s.skip(1) == e1 + e2 + rest);
    lemma_enc_termvs_2(a1, a2);
    assert(instruction::enc_instr(i).len() == 1 + (e1 + e2).len());
    assert(instruction::enc_instr(i) == seq![instruction::opcode_of(i)] + wire::enc_termvs(args));
}

/// The canonical bytes of this instruction type decode back to it.
#[verifier::rlimit(100)]
proof fn lemma_instr_174(x: instruction::RecvMarkerClear, rest: Seq<u8>)
    requires
        wf_instruction(Instruction::RecvMarkerClear(x)),
    ensures
        instruction::enc_instr(Instruction::RecvMarkerClear(x)).len() >= 1,
        instruction::enc_instr(Instruction::RecvMarkerClear(x)) == seq![
            instruction::opcode_of(Instruction::RecvMarkerClear(x)),
        ] + wire::enc_termvs(instruction::args_of(Instruction::RecvMarkerClear(x))),
        instruction::dec_instr(instruction::enc_instr(Instruction::RecvMarkerClear(x)) + rest) == Ok::<
            _,
            DecodeErrorV,
        >((
            instruction::opcode_of(Instruction::RecvMarkerClear(x)),
            instruction::args_of(Instruction::RecvMarkerClear(x)),
            instruction::enc_instr(Instruction::RecvMarkerClear(x)).len(),
        )),
{
    let i = Instruction::RecvMarkerClear(x);
    let args = instruction::args_of(i);
    let a1 = x.arg1@;
    assert(args =~= seq![a1]);
    assert(wire::wf_termv(a1)) by {
        assert(args[0] == a1);
    }
    lemma_chain1(ArgKind::Any, a1, rest);
    let e1 = wire::enc_termv(a1);
    assert(instruction::enc_instr(i) == seq![174u8] + e1);
    let s = instruction::enc_instr(i) + rest;
    lemma_instr_shape_1(174, e1, rest);
    assert(s[0] == 174);
    assert(s.skip(1) == e1 + rest);
    lemma_enc_termvs_1(a1);
    assert(instruction::enc_instr(i).len() == 1 + (e1).len());
    assert(instruction::enc_instr(i) == seq![instruction::opcode_of(i)] + wire::enc_termvs(args));
}

/// The canonical bytes of this instruction type decode back to it.
#[verifier::rlimit(100)]
proof fn lemma_instr_175(x: instruction::RecvMarkerReserve, rest: Seq<u8>)
    requires
        wf_instruction(Instruction::RecvMarkerReserve(x)),
    ensures
        instruction::enc_instr(Instruction::RecvMarkerReserve(x)).len() >= 1,
        instruction::enc_instr(Instruction::RecvMarkerReserve(x)) == seq![
            instruction::opcode_of(Instruction::RecvMarkerReserve(x)),
        ] + wire::enc_termvs(instruction::args_of(Instruction::RecvMarkerReserve(x))),
        instruction::dec_instr(instruction::enc_instr(Instruction::RecvMarkerReserve(x)) + rest) == Ok::<
            _,
            DecodeErrorV,
        >((
            instruction::opcode_of(Instruction::RecvMarkerReserve(x)),
            instruction::args_of(Instruction::RecvMarkerReserve(x)),
            instruction::enc_instr(Instruction::RecvMarkerReserve(x)).len(),
        )),
{
    let i = Instruction::RecvMarkerReserve(x);
    let args = instruction::args_of(i);
    let a1 = x.arg1@;
    assert(args =~= seq![a1]);
    assert(wire::wf_termv(a1)) by {
        assert(args[0] == a1);
    }
    lemma_chain1(ArgKind::Any, a1, rest);
    let e1 = wire::enc_termv(a1);
    assert(instruction::enc_instr(i) == seq![175u8] + e1);
    let s = instruction::enc_instr(i) + rest;
    lemma_instr_shape_1(175, e1, rest);
    assert(s[0] == 175);
    assert(s.skip(1) == e1 + rest);
    lemma_enc_termvs_1(a1);
    assert(instruction::enc_instr(i).len() == 1 + (e1).len());
    assert(instruction::enc_instr(i) == seq![instruction::opcode_of(i)] + wire::enc_termvs(args));
}

/// The canonical bytes of this instruction type decode back to it.
#[verifier::rlimit(100)]
proof fn lemma_instr_176(x: instruction::RecvMarkerUse, rest: Seq<u8>)
    requires
        wf_instruction(Instruction::RecvMarkerUse(x)),
    ensures
        instruction::enc_instr(Instruction::RecvMarkerUse(x)).len() >= 1,
        instruction::enc_instr(Instruction::RecvMarkerUse(x)) == seq![
            instruction::opcode_of(Instruction::RecvMarkerUse(x)),
        ] + wire::enc_termvs(instruction::args_of(Instruction::RecvMarkerUse(x))),
        instruction::dec_instr(instruction::enc_instr(Instruction::RecvMarkerUse(x)) + rest) == Ok::<
            _,
            DecodeErrorV,
        >((
            instruction::opcode_of(Instruction::RecvMarkerUse(x)),
            instruction::args_of(Instruction::RecvMarkerUse(x)),
            instruction::enc_instr(Instruction::RecvMarkerUse(x)).len(),
        )),
{
    let i = Instruction::RecvMarkerUse(x);
    let args = instruction::args_of(i);
    let a1 = x.arg1@;
    assert(args =~= seq![a1]);
    assert(wire::wf_termv(a1)) by {
        assert(args[0] == a1);
    }
    lemma_chain1(ArgKind::Any, a1, rest);
    let e1 = wire::enc_termv(a1);
    assert(instruction::enc_instr(i) == seq![176u8] + e1);
    let s = instruction::enc_instr(i) + rest;
    lemma_instr_shape_1(176, e1, rest);
    assert(s[0] == 176);
    assert(s.skip(1) == e1 + rest);
    lemma_enc_termvs_1(a1);
    assert(instruction::enc_instr(i).len() == 1 + (e1).len());
    assert(instruction::enc_instr(i) == seq![instruction::opcode_of(i)] + wire::enc_termvs(args));
}

/// The canonical bytes of this instruction type decode back to it.
#[verifier::rlimit(100)]
proof fn lemma_instr_177(x: instruction::BsCreateBin, rest: Seq<u8>)
    requires
        wf_instruction(Instruction::BsCreateBin(x)),
    ensures
        instruction::enc_instr(Instruction::BsCreateBin(x)).len() >= 1,
        instruction::enc_instr(Instruction::BsCreateBin(x)) == seq![
            instruction::opcode_of(Instruction::BsCreateBin(x)),
        ] + wire::enc_termvs(instruction::args_of(Instruction::BsCreateBin(x))),
        instruction::dec_instr(instruction::enc_instr(Instruction::BsCreateBin(x)) + rest) == Ok::<
            _,
            DecodeErrorV,
        >((
            instruction::opcode_of(Instruction::BsCreateBin(x)),
            instruction::args_of(Instruction::BsCreateBin(x)),
            instruction::enc_instr(Instruction::BsCreateBin(x)).len(),
        )),
{
    let i = Instruction::BsCreateBin(x);
    let args = instruction::args_of(i);
    let a1 = x.arg1@;
    let a2 = x.arg2@;
    let a3 = x.arg3@;
    let a4 = x.arg4@;
    let a5 = x.arg5@;
    let a6 = x.arg6@;
    assert(args =~= seq![a1, a2, a3, a4, a5, a6]);
    assert(wire::wf_termv(a1)) by {
        assert(args[0] == a1);
    }
    assert(wire::wf_termv(a2)) by {
        assert(args[1] == a2);
    }
    assert(wire::wf_termv(a3)) by {
        assert(args[2] == a3);
    }
    assert(wire::wf_termv(a4)) by {
        assert(args[3] == a4);
    }
    assert(wire::wf_termv(a5)) by {
        assert(args[4] == a5);
    }
    assert(wire::wf_termv(a6)) by {
        assert(args[5] == a6);
    }
    lemma_chain6(ArgKind::Any, ArgKind::Any, ArgKind::Any, ArgKind::Any, ArgKind::Any, ArgKind::Any, a1, a2, a3, a4, a5, a6, rest);
    let e1 = wire::enc_termv(a1);
    let e2 = wire::enc_termv(a2);
    let e3 = wire::enc_termv(a3);
    let e4 = wire::enc_termv(a4);
    let e5 = wire::enc_termv(a5);
    let e6 = wire::enc_termv(a6);
    assert(instruction::enc_instr(i) == seq![177u8] + e1 + e2 + e3 + e4 + e5 + e6);
    let s = instruction::enc_instr(i) + rest;
    lemma_instr_shape_6(177, e1, e2, e3, e4, e5, e6, rest);
    assert(s[0] == 177);
    assert(s.skip(1) == e1 + e2 + e3 + e4 + e5 + e6 + rest);
    lemma_enc_termvs_6(a1, a2, a3, a4, a5, a6);
    assert(instruction::enc_instr(i).len() == 1 + (e1 + e2 + e3 + e4 + e5 + e6).len());
    assert(instruction::enc_instr(i) == seq![instruction::opcode_of(i)] + wire::enc_termvs(args));
}

/// The canonical bytes of this instruction type decode back to it.
#[verifier::rlimit(100)]
proof fn lemma_instr_178(x: instruction::CallFun2, rest: Seq<u8>)
    requires
        wf_instruction(Instruction::CallFun2(x)),
    ensures
        instruction::enc_instr(Instruction::CallFun2(x)).len() >= 1,
        instruction::enc_instr(Instruction::CallFun2(x)) == seq![
            instruction::opcode_of(Instruction::CallFun2(x)),
        ] + wire::enc_termvs(instruction::args_of(Instruction::CallFun2(x))),
        instruction::dec_instr(instruction::enc_instr(Instruction::CallFun2(x)) + rest) == Ok::<
            _,
            DecodeErrorV,
        >((
            instruction::opcode_of(Instruction::CallFun2(x)),
            instruction::args_of(Instruction::CallFun2(x)),
            instruction::enc_instr(Instruction::CallFun2(x)).len(),
        )),
{
    let i = Instruction::CallFun2(x);
    let args = instruction::args_of(i);
    let a1 = x.arg1@;
    let a2 = x.arg2@;
    let a3 = x.arg3@;
    assert(args =~= seq![a1, a2, a3]);
    assert(wire::wf_termv(a1)) by {
        assert(args[0] == a1);
    }
    assert(wire::wf_termv(a2)) by {
        assert(args[1] == a2);
    }
    assert(wire::wf_termv(a3)) by {
        assert(args[2] == a3);
    }
    lemma_chain3(ArgKind::Any, ArgKind::Any, ArgKind::Any, a1, a2, a3, rest);
    let e1 = wire::enc_termv(a1);
    let e2 = wire::enc_termv(a2);
    let e3 = wire::enc_termv(a3);
    assert(instruction::enc_instr(i) == seq![178u8] + e1 + e2 + e3);
    let s = instruction::enc_instr(i) + rest;
    lemma_instr_shape_3(178, e1, e2, e3, rest);
    assert(s[0] == 178);
    assert(s.skip(1) == e1 + e2 + e3 + rest);
    lemma_enc_termvs_3(a1, a2, a3);
    assert(instruction::enc_instr(i).len() == 1 + (e1 + e2 + e3).len());
    assert(instruction::enc_instr(i) == seq![instruction::opcode_of(i)] + wire::enc_termvs(args));
}

/// The canonical bytes of this instruction type decode back to it.
#[verifier::rlimit(100)]
proof fn lemma_instr_179(x: instruction::NifStart, rest: Seq<u8>)
    requires
        wf_instruction(Instruction::NifStart(x)),
    ensures
        instruction::enc_instr(Instruction::NifStart(x)).len() >= 1,
        instruction::enc_instr(Instruction::NifStart(x)) == seq![
            instruction::opcode_of(Instruction::NifStart(x)),
        ] + wire::enc_termvs(instruction::args_of(Instruction::NifStart(x))),
        instruction::dec_instr(instruction::enc_instr(Instruction::NifStart(x)) + rest) == Ok::<
            _,
            DecodeErrorV,
        >((
            instruction::opcode_of(Instruction::NifStart(x)),
            instruction::args_of(Instruction::NifStart(x)),
            instruction::enc_instr(Instruction::NifStart(x)).len(),
        )),
{
    let i = Instruction::NifStart(x);
    let args = instruction::args_of(i);
    assert(args =~= Seq::<TermV>::empty());
    assert(instruction::enc_instr(i) == seq![179u8]);
    let s = instruction::enc_instr(i) + rest;
    lemma_instr_shape_0(179, rest);
    assert(s[0] == 179);
    assert(s.skip(1) == rest);
    lemma_enc_termvs_0();
    assert(seq![179u8] + Seq::<u8>::empty() =~= seq![179u8]);
    assert(instruction::enc_instr(i) == seq![instruction::opcode_of(i)] + wire::enc_termvs(args));
}

/// The canonical bytes of this instruction type decode back to it.
#[verifier::rlimit(100)]
proof fn lemma_instr_180(x: instruction::Badrecord, rest: Seq<u8>)
    requires
        wf_instruction(Instruction::Badrecord(x)),
    ensures
        instruction::enc_instr(Instruction::Badrecord(x)).len() >= 1,
        instruction::enc_instr(Instruction::Badrecord(x)) == seq![
            instruction::opcode_of(Instruction::Badrecord(x)),
        ] + wire::enc_termvs(instruction::args_of(Instruction::Badrecord(x))),
        instruction::dec_instr(instruction::enc_instr(Instruction::Badrecord(x)) + rest) == Ok::<
            _,
            DecodeErrorV,
        >((
            instruction::opcode_of(Instruction::Badrecord(x)),
            instruction::args_of(Instruction::Badrecord(x)),
            instruction::enc_instr(Instruction::Badrecord(x)).len(),
        )),
{
    let i = Instruction::Badrecord(x);
    let args = instruction::args_of(i);
    let a1 = x.arg1@;
    assert(args =~= seq![a1]);
    assert(wire::wf_termv(a1)) by {
        assert(args[0] == a1);
    }
    lemma_chain1(ArgKind::Any, a1, rest);
    let e1 = wire::enc_termv(a1);
    assert(instruction::enc_instr(i) == seq![180u8] + e1);
    let s = instruction::enc_instr(i) + rest;
    lemma_instr_shape_1(180, e1, rest);
    assert(s[0] == 180);
    assert(s.skip(1) == e1 + rest);
    lemma_enc_termvs_1(a1);
    assert(instruction::enc_instr(i).len() == 1 + (e1).len());
    assert(instruction::enc_instr(i) == seq![instruction::opcode_of(i)] + wire::enc_termvs(args));
}

/// One instruction's canonical bytes decode back to its wire form, and
/// those bytes are the opcode byte followed by the encoded operands.
proof fn lemma_dec_enc_instr_range_1(i: Instruction, rest: Seq<u8>)
    requires
        wf_instruction(i),
        1 <= instruction::opcode_of(i) <= 30,
    ensures
        instruction::enc_instr(i).len() >= 1,
        instruction::enc_instr(i) == seq![instruction::opcode_of(i)] + wire::enc_termvs(
            instruction::args_of(i),
        ),
        instruction::dec_instr(instruction::enc_instr(i) + rest) == Ok::<_, DecodeErrorV>((
            instruction::opcode_of(i),
            instruction::args_of(i),
            instruction::enc_instr(i).len(),
        )),
{
    match i {
        Instruction::Label(x) => {
            lemma_instr_1(x, rest);
        },
        Instruction::FuncInfo(x) => {
            lemma_instr_2(x, rest);
        },
        Instruction::IntCodeEnd(x) => {
            lemma_instr_3(x, rest);
        },
        Instruction::Call(x) => {
            lemma_instr_4(x, rest);
        },
        Instruction::CallLast(x) => {
            lemma_instr_5(x, rest);
        },
        Instruction::CallOnly(x) => {
            lemma_instr_6(x, rest);
        },
        Instruction::CallExt(x) => {
            lemma_instr_7(x, rest);
        },
        Instruction::CallExtLast(x) => {
            lemma_instr_8(x, rest);
        },
        Instruction::Bif0(x) => {
            lemma_instr_9(x, rest);
        },
        Instruction::Bif1(x) => {
            lemma_instr_10(x, rest);
        },
        Instruction::Bif2(x) => {
            lemma_instr_11(x, rest);
        },
        Instruction::Allocate(x) => {
            lemma_instr_12(x, rest);
        },
        Instruction::AllocateHeap(x) => {
            lemma_instr_13(x, rest);
        },
        Instruction::AllocateZero(x) => {
            lemma_instr_14(x, rest);
        },
        Instruction::AllocateHeapZero(x) => {
            lemma_instr_15(x, rest);
        },
        Instruction::TestHeap(x) => {
            lemma_instr_16(x, rest);
        },
        Instruction::Init(x) => {
            lemma_instr_17(x, rest);
        },
        Instruction::Deallocate(x) => {
            lemma_instr_18(x, rest);
        },
        Instruction::Return(x) => {
            lemma_instr_19(x, rest);
        },
        Instruction::Send(x) => {
            lemma_instr_20(x, rest);
        },
        Instruction::RemoveMessage(x) => {
            lemma_instr_21(x, rest);
        },
        Instruction::Timeout(x) => {
            lemma_instr_22(x, rest);
        },
        Instruction::LoopRec(x) => {
            lemma_instr_23(x, rest);
        },
        Instruction::LoopRecEnd(x) => {
            lemma_instr_24(x, rest);
        },
        Instruction::Wait(x) => {
            lemma_instr_25(x, rest);
        },
        Instruction::WaitTimeout(x) => {
            lemma_instr_26(x, rest);
        },
        Instruction::MPlus(x) => {
            lemma_instr_27(x, rest);
        },
        Instruction::MMinus(x) => {
            lemma_instr_28(x, rest);
        },
        Instruction::MTimes(x) => {
            lemma_instr_29(x, rest);
        },
        Instruction::MDiv(x) => {
            lemma_instr_30(x, rest);
        },
        _ => {
        },
    }
}

/// One instruction's canonical bytes decode back to its wire form, and
/// those bytes are the opcode byte followed by the encoded operands.
proof fn lemma_dec_enc_instr_range_2(i: Instruction, rest: Seq<u8>)
    requires
        wf_instruction(i),
        31 <= instruction::opcode_of(i) <= 60,
    ensures
        instruction::enc_instr(i).len() >= 1,
        instruction::enc_instr(i) == seq![instruction::opcode_of(i)] + wire::enc_termvs(
            instruction::args_of(i),
        ),
        instruction::dec_instr(instruction::enc_instr(i) + rest) == Ok::<_, DecodeErrorV>((
            instruction::opcode_of(i),
            instruction::args_of(i),
            instruction::enc_instr(i).len(),
        )),
{
    match i {
        Instruction::IntDiv(x) => {
            lemma_instr_31(x, rest);
        },
        Instruction::IntRem(x) => {
            lemma_instr_32(x, rest);
        },
        Instruction::IntBand(x) => {
            lemma_instr_33(x, rest);
        },
        Instruction::IntBor(x) => {
            lemma_instr_34(x, rest);
        },
        Instruction::IntBxor(x) => {
            lemma_instr_35(x, rest);
        },
        Instruction::IntBsl(x) => {
            lemma_instr_36(x, rest);
        },
        Instruction::IntBsr(x) => {
            lemma_instr_37(x, rest);
        },
        Instruction::IntBnot(x) => {
            lemma_instr_38(x, rest);
        },
        Instruction::IsLt(x) => {
            lemma_instr_39(x, rest);
        },
        Instruction::IsGe(x) => {
            lemma_instr_40(x, rest);
        },
        Instruction::IsEq(x) => {
            lemma_instr_41(x, rest);
        },
        Instruction::IsNe(x) => {
            lemma_instr_42(x, rest);
        },
        Instruction::IsEqExact(x) => {
            lemma_instr_43(x, rest);
        },
        Instruction::IsNeExact(x) => {
            lemma_instr_44(x, rest);
        },
        Instruction::IsInteger(x) => {
            lemma_instr_45(x, rest);
        },
        Instruction::IsFloat(x) => {
            lemma_instr_46(x, rest);
        },
        Instruction::IsNumber(x) => {
            lemma_instr_47(x, rest);
        },
        Instruction::IsAtom(x) => {
            lemma_instr_48(x, rest);
        },
        Instruction::IsPid(x) => {
            lemma_instr_49(x, rest);
        },
        Instruction::IsReference(x) => {
            lemma_instr_50(x, rest);
        },
        Instruction::IsPort(x) => {
            lemma_instr_51(x, rest);
        },
        Instruction::IsNil(x) => {
            lemma_instr_52(x, rest);
        },
        Instruction::IsBinary(x) => {
            lemma_instr_53(x, rest);
        },
        Instruction::IsConstant(x) => {
            lemma_instr_54(x, rest);
        },
        Instruction::IsList(x) => {
            lemma_instr_55(x, rest);
        },
        Instruction::IsNonemptyList(x) => {
            lemma_instr_56(x, rest);
        },
        Instruction::IsTuple(x) => {
            lemma_instr_57(x, rest);
        },
        Instruction::TestArity(x) => {
            lemma_instr_58(x, rest);
        },
        Instruction::SelectVal(x) => {
            lemma_instr_59(x, rest);
        },
        Instruction::SelectTupleArity(x) => {
            lemma_instr_60(x, rest);
        },
        _ => {
        },
    }
}

/// One instruction's canonical bytes decode back to its wire form, and
/// those bytes are the opcode byte followed by the encoded operands.
proof fn lemma_dec_enc_instr_range_3(i: Instruction, rest: Seq<u8>)
    requires
        wf_instruction(i),
        61 <= instruction::opcode_of(i) <= 90,
    ensures
        instruction::enc_instr(i).len() >= 1,
        instruction::enc_instr(i) == seq![instruction::opcode_of(i)] + wire::enc_termvs(
            instruction::args_of(i),
        ),
        instruction::dec_instr(instruction::enc_instr(i) + rest) == Ok::<_, DecodeErrorV>((
            instruction::opcode_of(i),
            instruction::args_of(i),
            instruction::enc_instr(i).len(),
        )),
{
    match i {
        Instruction::Jump(x) => {
            lemma_instr_61(x, rest);
        },
        Instruction::Catch(x) => {
            lemma_instr_62(x, rest);
        },
        Instruction::CatchEnd(x) => {
            lemma_instr_63(x, rest);
        },
        Instruction::Move(x) => {
            lemma_instr_64(x, rest);
        },
        Instruction::GetList(x) => {
            lemma_instr_65(x, rest);
        },
        Instruction::GetTupleElement(x) => {
            lemma_instr_66(x, rest);
        },
        Instruction::SetTupleElement(x) => {
            lemma_instr_67(x, rest);
        },
        Instruction::PutString(x) => {
            lemma_instr_68(x, rest);
        },
        Instruction::PutList(x) => {
            lemma_instr_69(x, rest);
        },
        Instruction::PutTuple(x) => {
            lemma_instr_70(x, rest);
        },
        Instruction::Put(x) => {
            lemma_instr_71(x, rest);
        },
        Instruction::Badmatch(x) => {
            lemma_instr_72(x, rest);
        },
        Instruction::IfEnd(x) => {
            lemma_instr_73(x, rest);
        },
        Instruction::CaseEnd(x) => {
            lemma_instr_74(x, rest);
        },
        Instruction::CallFun(x) => {
            lemma_instr_75(x, rest);
        },
        Instruction::MakeFun(x) => {
            lemma_instr_76(x, rest);
        },
        Instruction::IsFunction(x) => {
            lemma_instr_77(x, rest);
        },
        Instruction::CallExtOnly(x) => {
            lemma_instr_78(x, rest);
        },
        Instruction::BsStartMatch(x) => {
            lemma_instr_79(x, rest);
        },
        Instruction::BsGetInteger(x) => {
            lemma_instr_80(x, rest);
        },
        Instruction::BsGetFloat(x) => {
            lemma_instr_81(x, rest);
        },
        Instruction::BsGetBinary(x) => {
            lemma_instr_82(x, rest);
        },
        Instruction::BsSkipBits(x) => {
            lemma_instr_83(x, rest);
        },
        Instruction::BsTestTail(x) => {
            lemma_instr_84(x, rest);
        },
        Instruction::BsSave(x) => {
            lemma_instr_85(x, rest);
        },
        Instruction::BsRestore(x) => {
            lemma_instr_86(x, rest);
        },
        Instruction::BsInit(x) => {
            lemma_instr_87(x, rest);
        },
        Instruction::BsFinal(x) => {
            lemma_instr_88(x, rest);
        },
        Instruction::BsPutInteger(x) => {
            lemma_instr_89(x, rest);
        },
        Instruction::BsPutBinary(x) => {
            lemma_instr_90(x, rest);
        },
        _ => {
        },
    }
}

/// One instruction's canonical bytes decode back to its wire form, and
/// those bytes are the opcode byte followed by the encoded operands.
proof fn lemma_dec_enc_instr_range_4(i: Instruction, rest: Seq<u8>)
    requires
        wf_instruction(i),
        91 <= instruction::opcode_of(i) <= 120,
    ensures
        instruction::enc_instr(i).len() >= 1,
        instruction::enc_instr(i) == seq![instruction::opcode_of(i)] + wire::enc_termvs(
            instruction::args_of(i),
        ),
        instruction::dec_instr(instruction::enc_instr(i) + rest) == Ok::<_, DecodeErrorV>((
            instruction::opcode_of(i),
            instruction::args_of(i),
            instruction::enc_instr(i).len(),
        )),
{
    match i {
        Instruction::BsPutFloat(x) => {
            lemma_instr_91(x, rest);
        },
        Instruction::BsPutString(x) => {
            lemma_instr_92(x, rest);
        },
        Instruction::BsNeedBuf(x) => {
            lemma_instr_93(x, rest);
        },
        Instruction::Fclearerror(x) => {
            lemma_instr_94(x, rest);
        },
        Instruction::Fcheckerror(x) => {
            lemma_instr_95(x, rest);
        },
        Instruction::Fmove(x) => {
            lemma_instr_96(x, rest);
        },
        Instruction::Fconv(x) => {
            lemma_instr_97(x, rest);
        },
        Instruction::Fadd(x) => {
            lemma_instr_98(x, rest);
        },
        Instruction::Fsub(x) => {
            lemma_instr_99(x, rest);
        },
        Instruction::Fmul(x) => {
            lemma_instr_100(x, rest);
        },
        Instruction::Fdiv(x) => {
            lemma_instr_101(x, rest);
        },
        Instruction::Fnegate(x) => {
            lemma_instr_102(x, rest);
        },
        Instruction::MakeFun2(x) => {
            lemma_instr_103(x, rest);
        },
        Instruction::Try(x) => {
            lemma_instr_104(x, rest);
        },
        Instruction::TryEnd(x) => {
            lemma_instr_105(x, rest);
        },
        Instruction::TryCase(x) => {
            lemma_instr_106(x, rest);
        },
        Instruction::TryCaseEnd(x) => {
            lemma_instr_107(x, rest);
        },
        Instruction::Raise(x) => {
            lemma_instr_108(x, rest);
        },
        Instruction::BsInit2(x) => {
            lemma_instr_109(x, rest);
        },
        Instruction::BsBitsToBytes(x) => {
            lemma_instr_110(x, rest);
        },
        Instruction::BsAdd(x) => {
            lemma_instr_111(x, rest);
        },
        Instruction::Apply(x) => {
            lemma_instr_112(x, rest);
        },
        Instruction::ApplyLast(x) => {
            lemma_instr_113(x, rest);
        },
        Instruction::IsBoolean(x) => {
            lemma_instr_114(x, rest);
        },
        Instruction::IsFunction2(x) => {
            lemma_instr_115(x, rest);
        },
        Instruction::BsStartMatch2(x) => {
            lemma_instr_116(x, rest);
        },
        Instruction::BsGetInteger2(x) => {
            lemma_instr_117(x, rest);
        },
        Instruction::BsGetFloat2(x) => {
            lemma_instr_118(x, rest);
        },
        Instruction::BsGetBinary2(x) => {
            lemma_instr_119(x, rest);
        },
        Instruction::BsSkipBits2(x) => {
            lemma_instr_120(x, rest);
        },
        _ => {
        },
    }
}

/// One instruction's canonical bytes decode back to its wire form, and
/// those bytes are the opcode byte followed by the encoded operands.
proof fn lemma_dec_enc_instr_range_5(i: Instruction, rest: Seq<u8>)
    requires
        wf_instruction(i),
        121 <= instruction::opcode_of(i) <= 150,
    ensures
        instruction::enc_instr(i).len() >= 1,
        instruction::enc_instr(i) == seq![instruction::opcode_of(i)] + wire::enc_termvs(
            instruction::args_of(i),
        ),
        instruction::dec_instr(instruction::enc_instr(i) + rest) == Ok::<_, DecodeErrorV>((
            instruction::opcode_of(i),
            instruction::args_of(i),
            instruction::enc_instr(i).len(),
        )),
{
    match i {
        Instruction::BsTestTail2(x) => {
            lemma_instr_121(x, rest);
        },
        Instruction::BsSave2(x) => {
            lemma_instr_122(x, rest);
        },
        Instruction::BsRestore2(x) => {
            lemma_instr_123(x, rest);
        },
        Instruction::GcBif1(x) => {
            lemma_instr_124(x, rest);
        },
        Instruction::GcBif2(x) => {
            lemma_instr_125(x, rest);
        },
        Instruction::BsFinal2(x) => {
            lemma_instr_126(x, rest);
        },
        Instruction::BsBitsToBytes2(x) => {
            lemma_instr_127(x, rest);
        },
        Instruction::PutLiteral(x) => {
            lemma_instr_128(x, rest);
        },
        Instruction::IsBitstr(x) => {
            lemma_instr_129(x, rest);
        },
        Instruction::BsContextToBinary(x) => {
            lemma_instr_130(x, rest);
        },
        Instruction::BsTestUnit(x) => {
            lemma_instr_131(x, rest);
        },
        Instruction::BsMatchString(x) => {
            lemma_instr_132(x, rest);
        },
        Instruction::BsInitWritable(x) => {
            lemma_instr_133(x, rest);
        },
        Instruction::BsAppend(x) => {
            lemma_instr_134(x, rest);
        },
        Instruction::BsPrivateAppend(x) => {
            lemma_instr_135(x, rest);
        },
        Instruction::Trim(x) => {
            lemma_instr_136(x, rest);
        },
        Instruction::BsInitBits(x) => {
            lemma_instr_137(x, rest);
        },
        Instruction::BsGetUtf8(x) => {
            lemma_instr_138(x, rest);
        },
        Instruction::BsSkipUtf8(x) => {
            lemma_instr_139(x, rest);
        },
        Instruction::BsGetUtf16(x) => {
            lemma_instr_140(x, rest);
        },
        Instruction::BsSkipUtf16(x) => {
            lemma_instr_141(x, rest);
        },
        Instruction::BsGetUtf32(x) => {
            lemma_instr_142(x, rest);
        },
        Instruction::BsSkipUtf32(x) => {
            lemma_instr_143(x, rest);
        },
        Instruction::BsUtf8Size(x) => {
            lemma_instr_144(x, rest);
        },
        Instruction::BsPutUtf8(x) => {
            lemma_instr_145(x, rest);
        },
        Instruction::BsUtf16Size(x) => {
            lemma_instr_146(x, rest);
        },
        Instruction::BsPutUtf16(x) => {
            lemma_instr_147(x, rest);
        },
        Instruction::BsPutUtf32(x) => {
            lemma_instr_148(x, rest);
        },
        Instruction::OnLoad(x) => {
            lemma_instr_149(x, rest);
        },
        Instruction::RecvMark(x) => {
            lemma_instr_150(x, rest);
        },
        _ => {
        },
    }
}

/// One instruction's canonical bytes decode back to its wire form, and
/// those bytes are the opcode byte followed by the encoded operands.
proof fn lemma_dec_enc_instr_range_6(i: Instruction, rest: Seq<u8>)
    requires
        wf_instruction(i),
        151 <= instruction::opcode_of(i) <= 180,
    ensures
        instruction::enc_instr(i).len() >= 1,
        instruction::enc_instr(i) == seq![instruction::opcode_of(i)] + wire::enc_termvs(
            instruction::args_of(i),
        ),
        instruction::dec_instr(instruction::enc_instr(i) + rest) == Ok::<_, DecodeErrorV>((
            instruction::opcode_of(i),
            instruction::args_of(i),
            instruction::enc_instr(i).len(),
        )),
{
    match i {
        Instruction::RecvSet(x) => {
            lemma_instr_151(x, rest);
        },
        Instruction::GcBif3(x) => {
            lemma_instr_152(x, rest);
        },
        Instruction::Line(x) => {
            lemma_instr_153(x, rest);
        },
        Instruction::PutMapAssoc(x) => {
            lemma_instr_154(x, rest);
        },
        Instruction::PutMapExact(x) => {
            lemma_instr_155(x, rest);
        },
        Instruction::IsMap(x) => {
            lemma_instr_156(x, rest);
        },
        Instruction::HasMapFields(x) => {
            lemma_instr_157(x, rest);
        },
        Instruction::GetMapElement(x) => {
            lemma_instr_158(x, rest);
        },
        Instruction::IsTaggedTuple(x) => {
            lemma_instr_159(x, rest);
        },
        Instruction::BuildStacktrace(x) => {
            lemma_instr_160(x, rest);
        },
        Instruction::RawRaise(x) => {
            lemma_instr_161(x, rest);
        },
        Instruction::GetHd(x) => {
            lemma_instr_162(x, rest);
        },
        Instruction::GetTl(x) => {
            lemma_instr_163(x, rest);
        },
        Instruction::PutTuple2(x) => {
            lemma_instr_164(x, rest);
        },
        Instruction::BsGetTail(x) => {
            lemma_instr_165(x, rest);
        },
        Instruction::BsStartMatch3(x) => {
            lemma_instr_166(x, rest);
        },
        Instruction::BsGetPosition(x) => {
            lemma_instr_167(x, rest);
        },
        Instruction::BsSetPosition(x) => {
            lemma_instr_168(x, rest);
        },
        Instruction::Swap(x) => {
            lemma_instr_169(x, rest);
        },
        Instruction::BsStartMatch4(x) => {
            lemma_instr_170(x, rest);
        },
        Instruction::MakeFun3(x) => {
            lemma_instr_171(x, rest);
        },
        Instruction::InitYregs(x) => {
            lemma_instr_172(x, rest);
        },
        Instruction::RecvMarkerBind(x) => {
            lemma_instr_173(x, rest);
        },
        Instruction::RecvMarkerClear(x) => {
            lemma_instr_174(x, rest);
        },
        Instruction::RecvMarkerReserve(x) => {
            lemma_instr_175(x, rest);
        },
        Instruction::RecvMarkerUse(x) => {
            lemma_instr_176(x, rest);
        },
        Instruction::BsCreateBin(x) => {
            lemma_instr_177(x, rest);
        },
        Instruction::CallFun2(x) => {
            lemma_instr_178(x, rest);
        },
        Instruction::NifStart(x) => {
            lemma_instr_179(x, rest);
        },
        Instruction::Badrecord(x) => {
            lemma_instr_180(x, rest);
        },
        _ => {
        },
    }
}

/// One instruction's canonical bytes decode back to its wire form, and
/// those bytes are the opcode byte followed by the encoded operands.
pub proof fn lemma_dec_enc_instr(i: Instruction, rest: Seq<u8>)
    requires
        wf_instruction(i),
    ensures
        instruction::enc_instr(i).len() >= 1,
        instruction::enc_instr(i) == seq![instruction::opcode_of(i)] + wire::enc_termvs(
            instruction::args_of(i),
        ),
        instruction::dec_instr(instruction::enc_instr(i) + rest) == Ok::<_, DecodeErrorV>((
            instruction::opcode_of(i),
            instruction::args_of(i),
            instruction::enc_instr(i).len(),
        )),
{
    let op = instruction::opcode_of(i);
    if 1 <= op <= 30 {
        lemma_dec_enc_instr_range_1(i, rest);
    } else if 31 <= op <= 60 {
        lemma_dec_enc_instr_range_2(i, rest);
    } else if 61 <= op <= 90 {
        lemma_dec_enc_instr_range_3(i, rest);
    } else if 91 <= op <= 120 {
        lemma_dec_enc_instr_range_4(i, rest);
    } else if 121 <= op <= 150 {
        lemma_dec_enc_instr_range_5(i, rest);
    } else if 151 <= op <= 180 {
        lemma_dec_enc_instr_range_6(i, rest);
    } else {
        lemma_opcode_in_table(i);
    }
}

/// Every instruction's opcode stands in the table.
proof fn lemma_opcode_in_table(i: Instruction)
    ensures
        1 <= instruction::opcode_of(i) <= 180,
{
}

} // verus!
