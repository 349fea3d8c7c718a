//! The properties the codec promises: canonical encodings decode back to
//! the value they came from, decoding classifies terms by their tag byte,
//! and a buffer obtained from the encoder round-trips byte for byte.
use crate::error::DecodeErrorV;
use crate::instruction;
use crate::instruction::Instruction;
use crate::term::TermKind;
use crate::wire;
use crate::wire::ArgKind;
use crate::wire::TermV;
use vstd::prelude::*;

verus! {

broadcast use crate::wire::lemma_skip_skip;

/// The canonical encoding of `v` with kind bits `k` starts with a tag byte
/// of kind `k`, and an integer position reads the value back from it.
pub proof fn lemma_dec_enc_int(k: u8, v: int, rest: Seq<u8>)
    requires
        k < 8,
        wire::sbe_min2(v).len() <= 8 || wire::uenc(wire::sbe_min2(v).len() - 9),
    ensures
        wire::enc_int(k, v).len() >= 1,
        wire::enc_int(k, v)[0] % 8 == k,
        wire::dec_int(wire::enc_int(k, v)[0], wire::enc_int(k, v).skip(1) + rest) == Ok::<
            _,
            DecodeErrorV,
        >((v, (wire::enc_int(k, v).len() - 1) as nat)),
    decreases wire::sbe_min2(v).len(), 0int,
{
    let e = wire::enc_int(k, v);
    let s = e.skip(1) + rest;
    if 0 <= v < 16 {
        let t = (v * 16 + k) as u8;
        assert(e =~= seq![t]);
        assert(t == v * 16 + k);
        assert(t % 8 == k && t % 16 < 8 && t / 16 == v) by (nonlinear_arith)
            requires
                t == v * 16 + k,
                0 <= v < 16,
                k < 8,
        ;
    } else if 0 <= v < 2048 {
        let t = ((v / 256) * 32 + 8 + k) as u8;
        assert(e =~= seq![t, (v % 256) as u8]);
        assert(t == (v / 256) * 32 + 8 + k);
        assert(t % 8 == k && t % 16 >= 8 && t % 32 < 16) by (nonlinear_arith)
            requires
                t == (v / 256) * 32 + 8 + k,
                0 <= v / 256 < 8,
                k < 8,
        ;
        assert(t / 32 == v / 256) by (nonlinear_arith)
            requires
                t == (v / 256) * 32 + 8 + k,
                0 <= v / 256 < 8,
                k < 8,
        ;
        assert(s.len() >= 1);
        assert(s[0] == (v % 256) as u8);
        assert((t / 32) as int * 256 + s[0] == v);
    } else {
        let b = wire::sbe_min2(v);
        wire::lemma_sbe_min2_correct(v);
        let bl = b.len() as int;
        if b.len() <= 8 {
            let t = ((bl - 2) * 32 + 24 + k) as u8;
            assert(e =~= seq![t] + b);
            assert(t == (bl - 2) * 32 + 24 + k);
            assert(t % 8 == k && t % 16 >= 8 && t % 32 >= 16 && t / 32 == bl - 2)
                by (nonlinear_arith)
                requires
                    t == (bl - 2) * 32 + 24 + k,
                    2 <= bl <= 8,
                    k < 8,
            ;
            assert(wire::fixed_width(t) == bl);
            assert(s.len() >= bl);
            assert(s.take(bl) =~= b);
        } else {
            let t = (248 + k) as u8;
            let el = wire::enc_int(0, bl - 9);
            assert(e =~= seq![t] + el + b);
            assert(t == 248 + k);
            assert(t % 8 == k && t % 16 >= 8 && t % 32 >= 16 && t / 32 == 7) by (nonlinear_arith)
                requires
                    t == 248 + k,
                    k < 8,
            ;
            assert(s =~= el + (b + rest));
            wire::lemma_sbe_min2_len_shrinks(v);
            lemma_dec_enc_unat(bl - 9, b + rest);
            let c = el.len();
            assert(wire::dec_unat(s) == Ok::<_, DecodeErrorV>((bl - 9, c as nat)));
            assert(s.skip(c as int) =~= b + rest);
            assert(s.skip(c as int).take(bl) =~= b);
            assert(c + (bl - 9) + 9 <= s.len());
        }
    }
}

/// A machine-word position reads back a canonically encoded machine word,
/// whatever kind bits its tag byte carries.
pub proof fn lemma_dec_enc_unat_with(k: u8, v: int, rest: Seq<u8>)
    requires
        k < 8,
        wire::uenc(v),
    ensures
        wire::enc_int(k, v).len() >= 1,
        wire::enc_int(k, v)[0] % 8 == k,
        wire::dec_unat_with(wire::enc_int(k, v)[0], wire::enc_int(k, v).skip(1) + rest) == Ok::<
            _,
            DecodeErrorV,
        >((v, (wire::enc_int(k, v).len() - 1) as nat)),
    decreases wire::sbe_min2(v).len(), 1int,
{
    let e = wire::enc_int(k, v);
    let s = e.skip(1) + rest;
    wire::lemma_pow256_values();
    wire::lemma_sbe_min_len_le(v, 8);
    lemma_dec_enc_int(k, v, rest);
    let t = e[0];
    if 0 <= v < 2048 {
    } else {
        let b = wire::sbe_min2(v);
        wire::lemma_sbe_min2_correct(v);
        assert(b.len() <= 8);
        assert(t / 32 != 7);
        assert(wire::dec_int(t, s) == Ok::<_, DecodeErrorV>((v, wire::fixed_width(t))));
        assert(wire::ufit(v));
    }
}

/// A machine-word position, tag byte included, reads back a canonically
/// encoded machine word.
pub proof fn lemma_dec_enc_unat(v: int, rest: Seq<u8>)
    requires
        wire::uenc(v),
    ensures
        wire::enc_int(0, v).len() >= 1,
        wire::dec_unat(wire::enc_int(0, v) + rest) == Ok::<_, DecodeErrorV>((
            v,
            wire::enc_int(0, v).len(),
        )),
    decreases wire::sbe_min2(v).len(), 2int,
{
    let e = wire::enc_int(0, v);
    let s = e + rest;
    lemma_dec_enc_unat_with(0, v, rest);
    assert(s.len() >= 1);
    assert(s[0] == e[0]);
    assert(s.skip(1) =~= e.skip(1) + rest);
}

/// Every element of `ts` is a plain Y register view.
pub open spec fn all_yregs(ts: Seq<TermV>) -> bool {
    forall|i: int| 0 <= i < ts.len() ==> (#[trigger] ts[i]) is YRegister
}

/// A canonically encoded term decodes back to itself, and its first byte
/// names its kind.
pub proof fn lemma_dec_enc_term(t: TermV, rest: Seq<u8>)
    requires
        wire::wf_termv(t),
    ensures
        wire::enc_termv(t).len() >= 1,
        wire::kind_from_tag((wire::enc_termv(t) + rest)[0]) == wire::termv_kind(t),
        wire::dec_term(wire::enc_termv(t) + rest) == Ok::<_, DecodeErrorV>((
            t,
            wire::enc_termv(t).len(),
        )),
    decreases t, 2int,
{
    match t {
        TermV::List(items) => {
            lemma_dec_enc_term_list(items, rest);
        },
        TermV::AllocationList(items) => {
            lemma_dec_enc_term_alloc_list(items, rest);
        },
        TermV::TypedX { reg, reg_ty, ty } => {
            lemma_dec_enc_term_typed(t, rest);
        },
        TermV::TypedY { reg, reg_ty, ty } => {
            lemma_dec_enc_term_typed(t, rest);
        },
        TermV::FloatingPointRegister(v) => {
            lemma_dec_enc_term_indexed(t, rest);
        },
        TermV::Literal(v) => {
            lemma_dec_enc_term_indexed(t, rest);
        },
        _ => {
            lemma_dec_enc_term_simple(t, rest);
        },
    }
}

/// The single-integer cases of [`lemma_dec_enc_term`]: the kinds whose
/// whole payload is one integer sub-encoding.
#[verifier::rlimit(100)]
proof fn lemma_dec_enc_term_simple(t: TermV, rest: Seq<u8>)
    requires
        wire::wf_termv(t),
        !(t is List) && !(t is AllocationList) && !(t is TypedX) && !(t is TypedY) && !(t
            is FloatingPointRegister) && !(t is Literal),
    ensures
        wire::enc_termv(t).len() >= 1,
        wire::kind_from_tag((wire::enc_termv(t) + rest)[0]) == wire::termv_kind(t),
        wire::dec_term(wire::enc_termv(t) + rest) == Ok::<_, DecodeErrorV>((
            t,
            wire::enc_termv(t).len(),
        )),
{
    let e = wire::enc_termv(t);
    let s = e + rest;
    match t {
        TermV::Usize(v) => {
            lemma_dec_enc_unat_with(0, v, rest);
            assert(s[0] == e[0]);
            assert(s.skip(1) =~= e.skip(1) + rest);
        },
        TermV::Integer(v) => {
            lemma_dec_enc_int(1, v, rest);
            assert(s[0] == e[0]);
            assert(s.skip(1) =~= e.skip(1) + rest);
        },
        TermV::Atom(v) => {
            lemma_dec_enc_unat_with(2, v, rest);
            assert(s[0] == e[0]);
            assert(s.skip(1) =~= e.skip(1) + rest);
        },
        TermV::XRegister { value, ty } => {
            lemma_dec_enc_unat_with(3, value, rest);
            assert(s[0] == e[0]);
            assert(s.skip(1) =~= e.skip(1) + rest);
        },
        TermV::YRegister { value, ty } => {
            lemma_dec_enc_unat_with(4, value, rest);
            assert(s[0] == e[0]);
            assert(s.skip(1) =~= e.skip(1) + rest);
        },
        TermV::Label(v) => {
            lemma_dec_enc_unat_with(5, v, rest);
            assert(s[0] == e[0]);
            assert(s.skip(1) =~= e.skip(1) + rest);
        },
        TermV::Character(c) => {
            wire::lemma_pow256_values();
            wire::lemma_sbe_min_len_le(c as int, 8);
            lemma_dec_enc_int(6, c as int, rest);
            assert(s[0] == e[0]);
            assert(s.skip(1) =~= e.skip(1) + rest);
            assert(0 <= c as int <= u32::MAX as int);
            assert(wire::is_scalar(c as int));
            assert((c as int) as char == c);
        },
        _ => {
        },
    }
}

/// The extended kinds whose payload is one machine-word term: floating
/// point registers and extended literals.
#[verifier::rlimit(100)]
proof fn lemma_dec_enc_term_indexed(t: TermV, rest: Seq<u8>)
    requires
        wire::wf_termv(t),
        t is FloatingPointRegister || t is Literal,
    ensures
        wire::enc_termv(t).len() >= 1,
        wire::kind_from_tag((wire::enc_termv(t) + rest)[0]) == wire::termv_kind(t),
        wire::dec_term(wire::enc_termv(t) + rest) == Ok::<_, DecodeErrorV>((
            t,
            wire::enc_termv(t).len(),
        )),
{
    let e = wire::enc_termv(t);
    let s = e + rest;
    match t {
        TermV::FloatingPointRegister(v) => {
            let el = wire::enc_int(0, v);
            assert(e == seq![0x27u8] + el);
            assert(s[0] == 0x27);
            assert(s.skip(1) =~= el + rest);
            lemma_dec_enc_unat(v, rest);
        },
        TermV::Literal(v) => {
            let el = wire::enc_int(0, v);
            assert(e == seq![0x47u8] + el);
            assert(s[0] == 0x47);
            assert(s.skip(1) =~= el + rest);
            lemma_dec_enc_unat(v, rest);
        },
        _ => {
        },
    }
}

/// The list case of [`lemma_dec_enc_term`]./// The list case of [`lemma_dec_enc_term`].
proof fn lemma_dec_enc_term_list(items: Seq<TermV>, rest: Seq<u8>)
    requires
        wire::wf_termv(TermV::List(items)),
    ensures
        wire::enc_termv(TermV::List(items)).len() >= 1,
        wire::kind_from_tag((wire::enc_termv(TermV::List(items)) + rest)[0])
            == TermKind::List,
        wire::dec_term(wire::enc_termv(TermV::List(items)) + rest) == Ok::<_, DecodeErrorV>((
            TermV::List(items),
            wire::enc_termv(TermV::List(items)).len(),
        )),
    decreases items, 1int,
{
    let e = wire::enc_termv(TermV::List(items));
    let s = e + rest;
    let el = wire::enc_int(0, items.len() as int);
    let ei = wire::enc_termvs(items);
    assert(e == seq![0x17u8] + el + ei);
    assert(s[0] == 0x17);
    let r = s.skip(1);
    assert(r =~= el + (ei + rest));
    lemma_dec_enc_unat(items.len() as int, ei + rest);
    let c = el.len();
    assert(r.skip(c as int) =~= ei + rest);
    lemma_dec_enc_termvs(items, rest);
    assert(wire::dec_terms(r.skip(c as int), items.len() as int) == Ok::<_, DecodeErrorV>((
        items,
        ei.len(),
    )));
    assert(1 <= c <= r.len());
    assert(e.len() == 1 + c + ei.len());
}

/// The allocation list case of [`lemma_dec_enc_term`].
#[verifier::rlimit(100)]
proof fn lemma_dec_enc_term_alloc_list(items: Seq<wire::AllocItemV>, rest: Seq<u8>)
    requires
        wire::wf_termv(TermV::AllocationList(items)),
    ensures
        wire::enc_termv(TermV::AllocationList(items)).len() >= 1,
        wire::kind_from_tag((wire::enc_termv(TermV::AllocationList(items)) + rest)[0])
            == TermKind::AllocationList,
        wire::dec_term(wire::enc_termv(TermV::AllocationList(items)) + rest) == Ok::<
            _,
            DecodeErrorV,
        >((TermV::AllocationList(items), wire::enc_termv(TermV::AllocationList(items)).len())),
{
    let e = wire::enc_termv(TermV::AllocationList(items));
    let s = e + rest;
    let el = wire::enc_int(0, items.len() as int);
    let ei = wire::enc_alloc_itemvs(items);
    assert(e == seq![0x37u8] + el + ei);
    assert(s[0] == 0x37);
    let r = s.skip(1);
    assert(r =~= el + (ei + rest));
    lemma_dec_enc_unat(items.len() as int, ei + rest);
    let c = el.len();
    assert(r.skip(c as int) =~= ei + rest);
    lemma_dec_enc_allocs(items, rest);
    assert(wire::dec_alloc_items(r.skip(c as int), items.len() as int) == Ok::<
        _,
        DecodeErrorV,
    >((items, ei.len())));
    assert(1 <= c <= r.len());
    assert(e.len() == 1 + c + ei.len());
}

/// The typed register cases of [`lemma_dec_enc_term`].
#[verifier::rlimit(100)]
proof fn lemma_dec_enc_term_typed(t: TermV, rest: Seq<u8>)
    requires
        wire::wf_termv(t),
        t is TypedX || t is TypedY,
    ensures
        wire::enc_termv(t).len() >= 1,
        wire::kind_from_tag((wire::enc_termv(t) + rest)[0]) == TermKind::TypedRegister,
        wire::dec_term(wire::enc_termv(t) + rest) == Ok::<_, DecodeErrorV>((
            t,
            wire::enc_termv(t).len(),
        )),
{
    let e = wire::enc_termv(t);
    let s = e + rest;
    let kb: u8 = if t is TypedX {
        3
    } else {
        4
    };
    let reg: int = if t is TypedX {
        t->TypedX_reg
    } else {
        t->TypedY_reg
    };
    let ty: int = if t is TypedX {
        t->TypedX_ty
    } else {
        t->TypedY_ty
    };
    let er = wire::enc_int(kb, reg);
    let et = wire::enc_int(0, ty);
    assert(e == seq![0x57u8] + er + et);
    assert(s[0] == 0x57);
    let r = s.skip(1);
    assert(r =~= er + (et + rest));
    lemma_dec_enc_unat_with(kb, reg, et + rest);
    assert(r[0] == er[0]);
    assert(r.skip(1) =~= er.skip(1) + (et + rest));
    let n2 = (er.len() - 1) as nat;
    assert(wire::dec_unat_with(r[0], r.skip(1)) == Ok::<_, DecodeErrorV>((reg, n2)));
    assert(r.skip(1 + n2 as int) =~= et + rest);
    lemma_dec_enc_unat(ty, rest);
    assert(1 + n2 <= r.len());
    assert(e.len() == 1 + 1 + n2 + et.len());
}

/// Canonically encoded terms, back to back, decode back to themselves.
pub proof fn lemma_dec_enc_termvs(ts: Seq<TermV>, rest: Seq<u8>)
    requires
        wire::wf_termvs(ts),
    ensures
        wire::dec_terms(wire::enc_termvs(ts) + rest, ts.len() as int) == Ok::<_, DecodeErrorV>((
            ts,
            wire::enc_termvs(ts).len(),
        )),
    decreases ts, 0int,
{
    let e = wire::enc_termvs(ts);
    if ts.len() == 0 {
        assert(e + rest =~= rest);
        assert(ts =~= Seq::<TermV>::empty());
    } else {
        let sub = ts.subrange(1, ts.len() as int);
        let e0 = wire::enc_termv(ts[0]);
        assert(e == e0 + wire::enc_termvs(sub));
        assert(e + rest =~= e0 + (wire::enc_termvs(sub) + rest));
        assert(wire::wf_termv(ts[0]));
        lemma_dec_enc_term(ts[0], wire::enc_termvs(sub) + rest);
        assert(wire::wf_termvs(sub)) by {
            assert forall|i: int| 0 <= i < sub.len() implies wire::wf_termv(
                #[trigger] sub[i],
            ) by {
                assert(sub[i] == ts[i + 1]);
                assert(wire::wf_termv(ts[i + 1]));
            }
        }
        lemma_dec_enc_termvs(sub, rest);
        let c = e0.len();
        assert((e + rest).skip(c as int) =~= wire::enc_termvs(sub) + rest);
        assert(seq![ts[0]] + sub =~= ts);
    }
}

/// Canonically encoded Y registers, back to back, decode back to
/// themselves.
pub proof fn lemma_dec_enc_yregs(ts: Seq<TermV>, rest: Seq<u8>)
    requires
        wire::wf_termvs(ts),
        all_yregs(ts),
    ensures
        wire::dec_yregs(wire::enc_termvs(ts) + rest, ts.len() as int) == Ok::<_, DecodeErrorV>((
            ts,
            wire::enc_termvs(ts).len(),
        )),
    decreases ts.len(),
{
    let e = wire::enc_termvs(ts);
    if ts.len() == 0 {
        assert(e + rest =~= rest);
        assert(ts =~= Seq::<TermV>::empty());
    } else {
        let sub = ts.subrange(1, ts.len() as int);
        let y = ts[0];
        let value = y->YRegister_value;
        let e0 = wire::enc_termv(y);
        assert(e0 == wire::enc_int(4, value));
        assert(e == e0 + wire::enc_termvs(sub));
        let s = e + rest;
        assert(s =~= e0 + (wire::enc_termvs(sub) + rest));
        lemma_dec_enc_unat_with(4, value, wire::enc_termvs(sub) + rest);
        assert(s[0] == e0[0]);
        assert(s.skip(1) =~= e0.skip(1) + (wire::enc_termvs(sub) + rest));
        let c = e0.len();
        assert(wire::dec_unat_with(s[0], s.skip(1)) == Ok::<_, DecodeErrorV>((
            value,
            (c - 1) as nat,
        )));
        assert(y == (TermV::YRegister { value, ty: None }));
        assert(wire::wf_termvs(sub) && all_yregs(sub)) by {
            assert forall|i: int| 0 <= i < sub.len() implies wire::wf_termv(#[trigger] sub[i])
                && sub[i] is YRegister by {
                assert(sub[i] == ts[i + 1]);
                assert(wire::wf_termv(ts[i + 1]));
                assert(ts[i + 1] is YRegister);
            }
        }
        lemma_dec_enc_yregs(sub, rest);
        assert(s.skip(c as int) =~= wire::enc_termvs(sub) + rest);
        assert(seq![ts[0]] + sub =~= ts);
    }
}

/// Canonically encoded allocation list items, back to back, decode back to
/// themselves.
#[verifier::rlimit(100)]
pub proof fn lemma_dec_enc_allocs(items: Seq<wire::AllocItemV>, rest: Seq<u8>)
    requires
        wire::wf_alloc_itemvs(items),
    ensures
        wire::dec_alloc_items(wire::enc_alloc_itemvs(items) + rest, items.len() as int) == Ok::<
            _,
            DecodeErrorV,
        >((items, wire::enc_alloc_itemvs(items).len())),
    decreases items.len(),
{
    let e = wire::enc_alloc_itemvs(items);
    if items.len() == 0 {
        assert(e + rest =~= rest);
        assert(items =~= Seq::<wire::AllocItemV>::empty());
    } else {
        let sub = items.subrange(1, items.len() as int);
        let it = items[0];
        let kx: int = match it {
            wire::AllocItemV::Words(_) => 0,
            wire::AllocItemV::Floats(_) => 1,
            wire::AllocItemV::Funs(_) => 2,
        };
        let vx: int = match it {
            wire::AllocItemV::Words(v) => v,
            wire::AllocItemV::Floats(v) => v,
            wire::AllocItemV::Funs(v) => v,
        };
        let ek = wire::enc_int(0, kx);
        let ev = wire::enc_int(0, vx);
        let e0 = wire::enc_alloc_itemv(it);
        assert(e0 == ek + ev);
        assert(e == e0 + wire::enc_alloc_itemvs(sub));
        let s = e + rest;
        assert(s =~= ek + (ev + (wire::enc_alloc_itemvs(sub) + rest)));
        lemma_dec_enc_unat(kx, ev + (wire::enc_alloc_itemvs(sub) + rest));
        let c1 = ek.len();
        assert(s.skip(c1 as int) =~= ev + (wire::enc_alloc_itemvs(sub) + rest));
        assert(wire::wf_alloc_itemv(it));
        lemma_dec_enc_unat(vx, wire::enc_alloc_itemvs(sub) + rest);
        let c2 = ev.len();
        assert(wire::alloc_item(kx, vx) == it);
        assert(wire::wf_alloc_itemvs(sub)) by {
            assert forall|i: int| 0 <= i < sub.len() implies wire::wf_alloc_itemv(
                #[trigger] sub[i],
            ) by {
                assert(sub[i] == items[i + 1]);
                assert(wire::wf_alloc_itemv(items[i + 1]));
            }
        }
        lemma_dec_enc_allocs(sub, rest);
        assert(s.skip((c1 + c2) as int) =~= wire::enc_alloc_itemvs(sub) + rest);
        assert(seq![items[0]] + sub =~= items);
        assert(c1 + c2 <= s.len());
    }
}

/// A term shape acceptable at an operand position of kind `k`.
pub open spec fn arg_kind_ok(k: ArgKind, t: TermV) -> bool {
    match k {
        ArgKind::U => t is Usize,
        ArgKind::Any => true,
        ArgKind::Atm => t is Atom,
        ArgKind::Lbl => t is Label,
        ArgKind::Reg => t is XRegister || t is YRegister || t is TypedX || t is TypedY,
        ArgKind::Alloc => t is Usize || t is AllocationList,
        ArgKind::Lst => t is List,
        ArgKind::Ys => t matches TermV::List(ts) && all_yregs(ts),
    }
}

/// A canonically encoded operand decodes back to itself at any position
/// whose kind accepts its shape.
#[verifier::rlimit(100)]
pub proof fn lemma_dec_enc_arg(k: ArgKind, t: TermV, rest: Seq<u8>)
    requires
        wire::wf_termv(t),
        arg_kind_ok(k, t),
    ensures
        wire::enc_termv(t).len() >= 1,
        wire::dec_arg_at(k, wire::enc_termv(t) + rest) == Ok::<_, DecodeErrorV>((
            t,
            wire::enc_termv(t).len(),
        )),
{
    reveal(wire::dec_arg_at);
    let e = wire::enc_termv(t);
    let s = e + rest;
    lemma_dec_enc_term(t, rest);
    let tk = wire::termv_kind(t);
    assert(wire::kind_from_tag(s[0]) == tk);
    match k {
        ArgKind::U => {
            assert(wire::expected_kinds(k)[0] == TermKind::Usize);
            assert(wire::expected_kinds(k).contains(tk));
        },
        ArgKind::Any => {
            wire::lemma_dec_arg_any(s);
        },
        ArgKind::Atm => {
            assert(wire::expected_kinds(k)[0] == TermKind::Atom);
            assert(wire::expected_kinds(k).contains(tk));
        },
        ArgKind::Lbl => {
            assert(wire::expected_kinds(k)[0] == TermKind::Label);
            assert(wire::expected_kinds(k).contains(tk));
        },
        ArgKind::Reg => {
            assert(wire::expected_kinds(k)[0] == TermKind::XRegister);
            assert(wire::expected_kinds(k)[1] == TermKind::YRegister);
            assert(wire::expected_kinds(k)[2] == TermKind::TypedRegister);
            assert(wire::expected_kinds(k).contains(tk));
        },
        ArgKind::Alloc => {
            assert(wire::expected_kinds(k)[0] == TermKind::Usize);
            assert(wire::expected_kinds(k)[1] == TermKind::AllocationList);
            assert(wire::expected_kinds(k).contains(tk));
        },
        ArgKind::Lst => {
            assert(wire::expected_kinds(k)[0] == TermKind::List);
            assert(wire::expected_kinds(k).contains(tk));
        },
        ArgKind::Ys => {
            assert(wire::expected_kinds(k)[0] == TermKind::List);
            assert(wire::expected_kinds(k).contains(tk));
            let items = t->List_0;
            let el = wire::enc_int(0, items.len() as int);
            let ei = wire::enc_termvs(items);
            assert(e == seq![0x17u8] + el + ei);
            let r = s.skip(1);
            assert(r =~= el + (ei + rest));
            lemma_dec_enc_unat(items.len() as int, ei + rest);
            let c = el.len();
            assert(r.skip(c as int) =~= ei + rest);
            assert(wire::wf_termvs(items));
            lemma_dec_enc_yregs(items, rest);
            assert(wire::dec_yregs(r.skip(c as int), items.len() as int) == Ok::<
                _,
                DecodeErrorV,
            >((items, ei.len())));
            assert(1 <= c <= r.len());
            assert(e.len() == 1 + c + ei.len());
        },
    }
}

/// Totality of the schema over canonical bytes: a sequence of well-formed
/// instructions, canonically encoded back to back, decodes to exactly its
/// own wire form.
pub proof fn lemma_dec_enc_stream(instructions: Seq<Instruction>)
    requires
        forall|j: int|
            0 <= j < instructions.len() ==> crate::laws_instr::wf_instruction(
                #[trigger] instructions[j],
            ),
    ensures
        crate::dec_stream(crate::enc_stream(instructions)) == Ok::<_, DecodeErrorV>(
            crate::stream_pairs(instructions),
        ),
    decreases instructions.len(),
{
    if instructions.len() == 0 {
        assert(crate::enc_stream(instructions).len() == 0);
        assert(crate::stream_pairs(instructions) =~= Seq::<(u8, Seq<TermV>)>::empty());
    } else {
        let sub = instructions.subrange(1, instructions.len() as int);
        let i0 = instructions[0];
        let e0 = instruction::enc_instr(i0);
        let es = crate::enc_stream(sub);
        assert(crate::enc_stream(instructions) == e0 + es);
        assert(crate::laws_instr::wf_instruction(i0));
        crate::laws_instr::lemma_dec_enc_instr(i0, es);
        let op = instruction::opcode_of(i0);
        let args = instruction::args_of(i0);
        assert((e0 + es).skip(e0.len() as int) =~= es);
        assert(forall|j: int|
            0 <= j < sub.len() ==> crate::laws_instr::wf_instruction(#[trigger] sub[j]))
            by {
            assert forall|j: int|
                0 <= j < sub.len() implies crate::laws_instr::wf_instruction(
                #[trigger] sub[j],
            ) by {
                assert(sub[j] == instructions[j + 1]);
                assert(crate::laws_instr::wf_instruction(instructions[j + 1]));
            }
        }
        lemma_dec_enc_stream(sub);
        assert(e0.len() <= (e0 + es).len());
        assert(crate::stream_pairs(instructions) =~= seq![(op, args)] + crate::stream_pairs(
            sub,
        ));
    }
}

/// Two instruction sequences with the same wire form encode to the same
/// bytes: the bytes are a function of the opcodes and operand views alone.
pub proof fn lemma_enc_stream_of_pairs(is1: Seq<Instruction>, is2: Seq<Instruction>)
    requires
        crate::stream_pairs(is1) == crate::stream_pairs(is2),
        forall|j: int|
            0 <= j < is2.len() ==> crate::laws_instr::wf_instruction(#[trigger] is2[j]),
    ensures
        crate::enc_stream(is1) == crate::enc_stream(is2),
    decreases is1.len(),
{
    assert(is1.len() == is2.len()) by {
        assert(crate::stream_pairs(is1).len() == is1.len());
        assert(crate::stream_pairs(is2).len() == is2.len());
    }
    if is1.len() == 0 {
        assert(crate::enc_stream(is1) =~= crate::enc_stream(is2));
    } else {
        let p1 = crate::stream_pairs(is1);
        let p2 = crate::stream_pairs(is2);
        assert(p1[0] == (instruction::opcode_of(is1[0]), instruction::args_of(is1[0])));
        assert(p2[0] == (instruction::opcode_of(is2[0]), instruction::args_of(is2[0])));
        assert(instruction::opcode_of(is1[0]) == instruction::opcode_of(is2[0]));
        assert(instruction::args_of(is1[0]) == instruction::args_of(is2[0]));
        assert(crate::laws_instr::wf_instruction(is2[0]));
        assert(crate::laws_instr::wf_instruction(is1[0]));
        crate::laws_instr::lemma_dec_enc_instr(is1[0], Seq::empty());
        crate::laws_instr::lemma_dec_enc_instr(is2[0], Seq::empty());
        assert(instruction::enc_instr(is1[0]) == instruction::enc_instr(is2[0]));
        let s1 = is1.subrange(1, is1.len() as int);
        let s2 = is2.subrange(1, is2.len() as int);
        assert(crate::stream_pairs(s1) =~= crate::stream_pairs(s2)) by {
            assert forall|j: int| 0 <= j < s1.len() implies crate::stream_pairs(s1)[j]
                == crate::stream_pairs(s2)[j] by {
                assert(s1[j] == is1[j + 1]);
                assert(s2[j] == is2[j + 1]);
                assert(p1[j + 1] == p2[j + 1]);
            }
        }
        assert(forall|j: int|
            0 <= j < s2.len() ==> crate::laws_instr::wf_instruction(#[trigger] s2[j])) by {
            assert forall|j: int|
                0 <= j < s2.len() implies crate::laws_instr::wf_instruction(
                #[trigger] s2[j],
            ) by {
                assert(s2[j] == is2[j + 1]);
                assert(crate::laws_instr::wf_instruction(is2[j + 1]));
            }
        }
        lemma_enc_stream_of_pairs(s1, s2);
        assert(crate::enc_stream(is1) == instruction::enc_instr(is1[0]) + crate::enc_stream(
            s1,
        ));
        assert(crate::enc_stream(is2) == instruction::enc_instr(is2[0]) + crate::enc_stream(
            s2,
        ));
    }
}

/// Round trip: a buffer that came from the encoder decodes, and whatever
/// the decoder hands back re-encodes to the same bytes.
pub proof fn lemma_round_trip(b: Seq<u8>, source: Seq<Instruction>, decoded: Seq<Instruction>)
    requires
        b == crate::enc_stream(source),
        forall|j: int|
            0 <= j < source.len() ==> crate::laws_instr::wf_instruction(#[trigger] source[j]),
        crate::dec_stream(b) == Ok::<_, DecodeErrorV>(crate::stream_pairs(decoded)),
    ensures
        crate::enc_stream(decoded) == b,
{
    lemma_dec_enc_stream(source);
    assert(crate::stream_pairs(decoded) == crate::stream_pairs(source));
    lemma_enc_stream_of_pairs(decoded, source);
}

/// The empty buffer decodes to the empty instruction sequence.
pub proof fn lemma_empty_stream()
    ensures
        crate::dec_stream(Seq::empty()) == Ok::<_, DecodeErrorV>(
            Seq::<(u8, Seq<TermV>)>::empty(),
        ),
{
}

/// Kind safety: a decoded term's variant always agrees with the kind its
/// tag byte names.
#[verifier::rlimit(100)]
pub proof fn lemma_kind_safety(s: Seq<u8>, t: TermV, n: nat)
    requires
        wire::dec_term(s) == Ok::<_, DecodeErrorV>((t, n)),
    ensures
        s.len() >= 1,
        wire::termv_kind(t) == wire::kind_from_tag(s[0]),
{
}

} // verus!
