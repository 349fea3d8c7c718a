//! Compact terms: the typed operand values of the bytecode stream.
use crate::bigint::BigInt;
use crate::error::DecodeError;
use crate::error::EncodeError;
use crate::error::DecodeErrorV;
use crate::reader::Reader;
use crate::wire;
use crate::wire::AllocItemV;
use crate::wire::TermV;
use vstd::prelude::*;

verus! {

broadcast use vstd::seq_lib::group_seq_properties, crate::wire::lemma_skip_skip;

/// The kind named by a term's tag byte.
#[derive(Debug, Clone, Copy, PartialEq, Eq, Hash, Structural)]
pub enum TermKind {
    Usize,
    Integer,
    Atom,
    XRegister,
    YRegister,
    Label,
    Character,
    List,
    FloatingPointRegister,
    AllocationList,
    Literal,
    TypedRegister,
    Unknown(u8),
}

impl TermKind {
    /// The kind a tag byte names: the low three bits select the kind, and
    /// for the extended kind the high nibble selects among the extended
    /// kinds.
    pub fn from_tag(tag: u8) -> (r: TermKind)
        ensures
            r == wire::kind_from_tag(tag),
    {
        let k = tag % 8;
        if k == 0 {
            TermKind::Usize
        } else if k == 1 {
            TermKind::Integer
        } else if k == 2 {
            TermKind::Atom
        } else if k == 3 {
            TermKind::XRegister
        } else if k == 4 {
            TermKind::YRegister
        } else if k == 5 {
            TermKind::Label
        } else if k == 6 {
            TermKind::Character
        } else {
            let sub = tag / 16;
            if sub == 1 {
                TermKind::List
            } else if sub == 2 {
                TermKind::FloatingPointRegister
            } else if sub == 3 {
                TermKind::AllocationList
            } else if sub == 4 {
                TermKind::Literal
            } else if sub == 5 {
                TermKind::TypedRegister
            } else {
                TermKind::Unknown(tag)
            }
        }
    }

    /// The canonical tag byte of this kind.
    pub fn tag(self) -> (r: u8)
        ensures
            r == wire::tag_of_kind(self),
    {
        match self {
            TermKind::Usize => 0,
            TermKind::Integer => 1,
            TermKind::Atom => 2,
            TermKind::XRegister => 3,
            TermKind::YRegister => 4,
            TermKind::Label => 5,
            TermKind::Character => 6,
            TermKind::List => 0x17,
            TermKind::FloatingPointRegister => 0x27,
            TermKind::AllocationList => 0x37,
            TermKind::Literal => 0x47,
            TermKind::TypedRegister => 0x57,
            TermKind::Unknown(tag) => tag,
        }
    }

    /// Fail unless this kind is among `expected`.
    pub fn expect(self, expected: &[TermKind]) -> (r: Result<(), DecodeError>)
        ensures
            match r {
                Ok(()) => expected@.contains(self),
                Err(e) => {
                    &&& !expected@.contains(self)
                    &&& e@ == (DecodeErrorV::UnexpectedTerm {
                        expected: expected@,
                        actual: self,
                    })
                },
            },
    {
        let mut i: usize = 0;
        while i < expected.len()
            invariant
                0 <= i <= expected@.len(),
                forall|j: int| 0 <= j < i ==> expected@[j] != self,
            decreases expected@.len() - i,
        {
            if expected[i] == self {
                return Ok(());
            }
            i = i + 1;
        }
        Err(DecodeError::UnexpectedTerm { expected: vstd::slice::slice_to_vec(expected), actual: self })
    }
}

/// An operand value, as decoded from or encoded into the stream.
#[derive(Debug, PartialEq, Eq, Hash)]
pub enum Term {
    Usize(usize),
    Integer(BigInt),
    Atom(Atom),
    XRegister(XRegister),
    YRegister(YRegister),
    Label(Label),
    Character(char),
    List(List),
    FloatingPointRegister(FloatingPointRegister),
    AllocationList(AllocationList),
    Literal(Literal),
    TypedRegister(TypedRegister),
}

/// An index into the atom table; zero is reserved as "no atom".
#[derive(Debug, Clone, Copy, PartialEq, Eq, Hash, PartialOrd, Ord)]
pub struct Atom {
    pub value: usize,
}

/// An index into the literal table.
#[derive(Debug, Clone, Copy, PartialEq, Eq, Hash, PartialOrd, Ord)]
pub struct Literal {
    pub value: usize,
}

/// A branch target; zero is reserved as "no label".
#[derive(Debug, Clone, Copy, PartialEq, Eq, Hash, PartialOrd, Ord)]
pub struct Label {
    pub value: usize,
}

/// An X register.  The type index is only ever present inside a typed
/// register; a plain register term encodes the index alone.
#[derive(Debug, Clone, Copy, PartialEq, Eq, Hash, PartialOrd, Ord)]
pub struct XRegister {
    pub value: usize,
    pub ty: Option<usize>,
}

/// A Y register; see [`XRegister`].
#[derive(Debug, Clone, Copy, PartialEq, Eq, Hash, PartialOrd, Ord)]
pub struct YRegister {
    pub value: usize,
    pub ty: Option<usize>,
}

/// A floating point register.
#[derive(Debug, Clone, Copy, PartialEq, Eq, Hash)]
pub struct FloatingPointRegister {
    pub value: usize,
}

/// An X or Y register wrapped with a trailing type index.
#[derive(Debug, Clone, Copy, PartialEq, Eq, Hash)]
pub enum TypedRegister {
    X { register: XRegister, ty: usize },
    Y { register: YRegister, ty: usize },
}

/// Any of the register forms: X, Y, or typed.
#[derive(Debug, Clone, Copy, PartialEq, Eq, Hash)]
pub enum Register {
    X(XRegister),
    Y(YRegister),
    Typed(TypedRegister),
}

/// An ordered sequence of terms.
#[derive(Debug, PartialEq, Eq, Hash)]
pub struct List {
    pub items: Vec<Term>,
}

/// A mixed allocation request.
#[derive(Debug, Clone, PartialEq, Eq, Hash)]
pub struct AllocationList {
    pub items: Vec<AllocationListItem>,
}

/// One entry of an allocation list.
#[derive(Debug, Clone, Copy, PartialEq, Eq, Hash)]
pub enum AllocationListItem {
    Words(usize),
    Floats(usize),
    Funs(usize),
}

/// An allocation operand: a plain word count or a structured list.
#[derive(Debug, Clone, PartialEq, Eq, Hash)]
pub enum Allocation {
    Words(usize),
    List(AllocationList),
}

/// The views of the elements of a term vector, in order.
pub open spec fn view_terms(v: Seq<Term>) -> Seq<TermV>
    decreases v,
{
    if v.len() == 0 {
        Seq::empty()
    } else {
        seq![v[0]@] + view_terms(v.subrange(1, v.len() as int))
    }
}

impl View for Term {
    type V = TermV;

    open spec fn view(&self) -> TermV
        decreases self,
    {
        match self {
            Term::Usize(v) => TermV::Usize(*v as int),
            Term::Integer(b) => TermV::Integer(b@),
            Term::Atom(a) => TermV::Atom(a.value as int),
            Term::XRegister(x) => TermV::XRegister {
                value: x.value as int,
                ty: view_opt(x.ty),
            },
            Term::YRegister(y) => TermV::YRegister {
                value: y.value as int,
                ty: view_opt(y.ty),
            },
            Term::Label(l) => TermV::Label(l.value as int),
            Term::Character(c) => TermV::Character(*c),
            Term::List(l) => TermV::List(view_terms(l.items@)),
            Term::FloatingPointRegister(f) => TermV::FloatingPointRegister(f.value as int),
            Term::AllocationList(a) => TermV::AllocationList(view_alloc_items(a.items@)),
            Term::Literal(l) => TermV::Literal(l.value as int),
            Term::TypedRegister(t) => t@,
        }
    }
}

/// The view of an optional type index.
pub open spec fn view_opt(o: Option<usize>) -> Option<int> {
    match o {
        Some(v) => Some(v as int),
        None => None,
    }
}

/// The views of the elements of an allocation list vector, in order.
pub open spec fn view_alloc_items(v: Seq<AllocationListItem>) -> Seq<AllocItemV> {
    v.map_values(|it: AllocationListItem| view_alloc_item(it))
}

pub open spec fn view_alloc_item(it: AllocationListItem) -> AllocItemV {
    match it {
        AllocationListItem::Words(v) => AllocItemV::Words(v as int),
        AllocationListItem::Floats(v) => AllocItemV::Floats(v as int),
        AllocationListItem::Funs(v) => AllocItemV::Funs(v as int),
    }
}

impl View for TypedRegister {
    type V = TermV;

    open spec fn view(&self) -> TermV {
        match self {
            TypedRegister::X { register, ty } => TermV::TypedX {
                reg: register.value as int,
                reg_ty: view_opt(register.ty),
                ty: *ty as int,
            },
            TypedRegister::Y { register, ty } => TermV::TypedY {
                reg: register.value as int,
                reg_ty: view_opt(register.ty),
                ty: *ty as int,
            },
        }
    }
}

impl View for Register {
    type V = TermV;

    open spec fn view(&self) -> TermV {
        match self {
            Register::X(x) => TermV::XRegister { value: x.value as int, ty: view_opt(x.ty) },
            Register::Y(y) => TermV::YRegister { value: y.value as int, ty: view_opt(y.ty) },
            Register::Typed(t) => t@,
        }
    }
}

impl View for Allocation {
    type V = TermV;

    open spec fn view(&self) -> TermV {
        match self {
            Allocation::Words(v) => TermV::Usize(*v as int),
            Allocation::List(a) => TermV::AllocationList(view_alloc_items(a.items@)),
        }
    }
}

impl View for List {
    type V = Seq<TermV>;

    open spec fn view(&self) -> Seq<TermV> {
        view_terms(self.items@)
    }
}

/// `view_terms` maps the element views pointwise.
pub proof fn lemma_view_terms(v: Seq<Term>)
    ensures
        view_terms(v).len() == v.len(),
        forall|i: int| 0 <= i < v.len() ==> view_terms(v)[i] == #[trigger] v[i]@,
    decreases v.len(),
{
    if v.len() > 0 {
        let sub = v.subrange(1, v.len() as int);
        lemma_view_terms(sub);
        assert(view_terms(v) == seq![v[0]@] + view_terms(sub));
        assert forall|i: int| 0 <= i < v.len() implies view_terms(v)[i] == #[trigger] v[i]@ by {
            if i > 0 {
                assert(sub[i - 1] == v[i]);
            }
        }
    }
}

/// Views of a vector with one more element on the back.
pub proof fn lemma_view_terms_push(v: Seq<Term>, t: Term)
    ensures
        view_terms(v.push(t)) == view_terms(v).push(t@),
    decreases v.len(),
{
    if v.len() == 0 {
        assert(v.push(t).subrange(1, 1) =~= Seq::<Term>::empty());
        assert(v.push(t)[0] == t);
        assert(view_terms(v.push(t)) == seq![t@] + view_terms(Seq::<Term>::empty()));
        assert(view_terms(v.push(t)) =~= view_terms(v).push(t@));
    } else {
        assert(v.push(t).subrange(1, v.len() as int + 1) =~= v.subrange(1, v.len() as int).push(
            t,
        ));
        assert(v.push(t)[0] == v[0]);
        lemma_view_terms_push(v.subrange(1, v.len() as int), t);
        assert(view_terms(v.push(t)) == seq![v[0]@] + view_terms(
            v.subrange(1, v.len() as int).push(t),
        ));
        assert(view_terms(v.push(t)) =~= view_terms(v).push(t@));
    }
}

/// Append the canonical encoding of the machine-word value `v` with kind
/// bits `tag`.
pub fn encode_usize(tag: u8, v: usize, out: &mut Vec<u8>)
    requires
        tag < 8,
    ensures
        final(out)@ == old(out)@ + wire::enc_int(tag, v as int),
    decreases wire::sbe_min2(v as int).len(), 2int,
{
    if v < 16 {
        out.push((v as u8) * 16 + tag);
        proof {
            assert(wire::enc_int(tag, v as int) =~= seq![(v * 16 + tag) as u8]);
            assert(final(out)@ =~= old(out)@ + wire::enc_int(tag, v as int));
        }
    } else if v < 2048 {
        out.push(((v / 256) as u8) * 32 + 8 + tag);
        out.push((v % 256) as u8);
        proof {
            assert(wire::enc_int(tag, v as int) =~= seq![
                ((v as int / 256) * 32 + 8 + tag) as u8,
                (v as int % 256) as u8,
            ]);
            assert(final(out)@ =~= old(out)@ + wire::enc_int(tag, v as int));
        }
    } else {
        let b = BigInt::from_usize(v);
        b.encode_int(tag, out);
    }
}

/// The unsigned big-endian value of at most eight bytes.
fn ube_u64(bytes: &Vec<u8>) -> (r: u64)
    requires
        bytes@.len() <= 8,
    ensures
        r == wire::ube(bytes@),
{
    let mut acc: u64 = 0;
    let mut i: usize = 0;
    proof {
        assert(bytes@.take(0) =~= Seq::<u8>::empty());
    }
    while i < bytes.len()
        invariant
            0 <= i <= bytes@.len() <= 8,
            acc == wire::ube(bytes@.take(i as int)),
        decreases bytes@.len() - i,
    {
        proof {
            wire::lemma_ube_bounds(bytes@.take(i as int));
            wire::lemma_pow256_mono(i as nat, 7);
            wire::lemma_pow256_values();
            assert(acc * 256 + bytes@[i as int] < 0x1_0000_0000_0000_0000) by (nonlinear_arith)
                requires
                    acc < 0x100_0000_0000_0000,
                    bytes@[i as int] < 256,
            ;
            assert(bytes@.take(i + 1).drop_last() =~= bytes@.take(i as int));
            assert(bytes@.take(i + 1).last() == bytes@[i as int]);
        }
        acc = acc * 256 + (bytes[i] as u64);
        i = i + 1;
    }
    proof {
        assert(bytes@.take(bytes@.len() as int) =~= bytes@);
    }
    acc
}

/// Decode a machine-word value whose tag byte was already read.  The kind
/// bits of the tag are not examined; a negative value or one wider than a
/// machine word is rejected.
pub fn decode_usize(tag: u8, r: &mut Reader<'_>) -> (res: Result<usize, DecodeError>)
    ensures
        match res {
            Ok(v) => {
                &&& wire::dec_unat_with(tag, old(r).remaining()) matches Ok((sv, n)) && n <= old(r).remaining().len() && sv
                    == v as int && final(r).remaining() == old(r).remaining().skip(n as int)
            },
            Err(e) => wire::dec_unat_with(tag, old(r).remaining()) matches Err(se) && se == e@,
        },
    decreases r.remaining().len(), 1int,
{
    if tag % 16 < 8 {
        proof {
            assert(old(r).remaining().skip(0) =~= old(r).remaining());
        }
        Ok((tag / 16) as usize)
    } else if tag % 32 < 16 {
        let b = r.read_u8()?;
        Ok(((tag / 32) as usize) * 256 + (b as usize))
    } else if tag / 32 != 7 {
        let w = (tag / 32) as usize + 2;
        let bytes = r.read_bytes(w)?;
        if bytes[0] >= 128 {
            proof {
                let s = old(r).remaining().take(w as int);
                wire::lemma_ube_bounds(s);
            }
            return Err(DecodeError::TooLargeUsizeValue { byte_size: w });
        }
        let acc = ube_u64(&bytes);
        if acc > usize::MAX as u64 {
            return Err(DecodeError::TooLargeUsizeValue { byte_size: w });
        }
        Ok(acc as usize)
    } else {
        // length-prefixed: always wider than a machine word
        let n = read_usize(r)?;
        let byte_size = if n > usize::MAX - 9 {
            usize::MAX
        } else {
            n + 9
        };
        Err(DecodeError::TooLargeUsizeValue { byte_size })
    }
}

/// Read a machine-word value, tag byte included.
pub fn read_usize(r: &mut Reader<'_>) -> (res: Result<usize, DecodeError>)
    ensures
        match res {
            Ok(v) => {
                &&& wire::dec_unat(old(r).remaining()) matches Ok((sv, n)) && 1 <= n <= old(
                    r,
                ).remaining().len() && sv == v as int && final(r).remaining() == old(
                    r,
                ).remaining().skip(n as int)
            },
            Err(e) => wire::dec_unat(old(r).remaining()) matches Err(se) && se == e@,
        },
    decreases r.remaining().len(), 0int,
{
    let tag = r.read_u8()?;
    if tag % 8 != 0 {
        let mut expected: Vec<TermKind> = Vec::new();
        expected.push(TermKind::Usize);
        proof {
            assert(expected@ =~= seq![TermKind::Usize]);
        }
        return Err(DecodeError::UnexpectedTerm {
            expected,
            actual: TermKind::from_tag(tag),
        });
    }
    let v = decode_usize(tag, r)?;
    Ok(v)
}

/// Decode a full-range integer whose tag byte was already read.
pub fn decode_integer(tag: u8, r: &mut Reader<'_>) -> (res: Result<BigInt, DecodeError>)
    ensures
        match res {
            Ok(b) => {
                &&& wire::dec_int(tag, old(r).remaining()) matches Ok((sv, n)) && n <= old(r).remaining().len() && sv == b@
                    && final(r).remaining() == old(r).remaining().skip(n as int)
            },
            Err(e) => wire::dec_int(tag, old(r).remaining()) matches Err(se) && se == e@,
        },
{
    if tag % 16 < 8 {
        proof {
            assert(old(r).remaining().skip(0) =~= old(r).remaining());
        }
        Ok(BigInt::from_u64((tag / 16) as u64))
    } else if tag % 32 < 16 {
        let b = r.read_u8()?;
        Ok(BigInt::from_u64(((tag / 32) as u64) * 256 + (b as u64)))
    } else if tag / 32 != 7 {
        let w = (tag / 32) as usize + 2;
        let bytes = r.read_bytes(w)?;
        Ok(BigInt::from_signed_bytes_be(bytes.as_slice()))
    } else {
        let n = read_usize(r)?;
        let rem = r.remaining_len();
        if rem < 9 || n > rem - 9 {
            return Err(DecodeError::IoError);
        }
        let bytes = r.read_bytes(n + 9)?;
        Ok(BigInt::from_signed_bytes_be(bytes.as_slice()))
    }
}

/// Append the big (fixed-width or length-prefixed) integer form holding the
/// value of the given two's-complement bytes, with kind bits `tag`.
pub fn encode_integer_bytes(tag: u8, bytes: &[u8], out: &mut Vec<u8>)
    requires
        tag < 8,
        bytes@.len() >= 2,
    ensures
        final(out)@ == old(out)@ + wire::enc_big(tag, wire::sbe(bytes@)),
{
    let b = BigInt::from_signed_bytes_be(bytes);
    b.encode_big(tag, out);
}

/// Appending one register appends its view.
pub proof fn lemma_view_yregs_push(v: Seq<YRegister>, y: YRegister)
    ensures
        view_yregs(v.push(y)) == view_yregs(v).push(
            TermV::YRegister { value: y.value as int, ty: view_opt(y.ty) },
        ),
{
    assert(view_yregs(v.push(y)) =~= view_yregs(v).push(
        TermV::YRegister { value: y.value as int, ty: view_opt(y.ty) },
    ));
}

/// Appending one allocation list item appends its view.
pub proof fn lemma_view_alloc_items_push(v: Seq<AllocationListItem>, it: AllocationListItem)
    ensures
        view_alloc_items(v.push(it)) == view_alloc_items(v).push(view_alloc_item(it)),
{
    assert(view_alloc_items(v.push(it)) =~= view_alloc_items(v).push(view_alloc_item(it)));
}

/// The views of a vector of Y registers, as list elements.
pub open spec fn view_yregs(v: Seq<YRegister>) -> Seq<TermV> {
    v.map_values(
        |y: YRegister| TermV::YRegister { value: y.value as int, ty: view_opt(y.ty) },
    )
}

impl XRegister {
    /// Decode the index of an X register whose tag byte was already read.
    pub fn decode_with_tag(r: &mut Reader<'_>, tag: u8) -> (res: Result<XRegister, DecodeError>)
        ensures
            match res {
                Ok(x) => {
                    &&& tag % 8 == 3
                    &&& wire::dec_unat_with(tag, old(r).remaining()) matches Ok((v, n)) && n <= old(r).remaining().len() && x
                        == (XRegister { value: v as usize, ty: None }) && v == x.value as int
                        && final(r).remaining() == old(r).remaining().skip(n as int)
                },
                Err(e) => {
                    if tag % 8 != 3 {
                        e@ == (DecodeErrorV::UnexpectedTerm {
                            expected: seq![TermKind::XRegister],
                            actual: wire::kind_from_tag(tag),
                        })
                    } else {
                        wire::dec_unat_with(tag, old(r).remaining()) matches Err(se) && se == e@
                    }
                },
            },
    {
        if tag % 8 != 3 {
            let mut expected: Vec<TermKind> = Vec::new();
            expected.push(TermKind::XRegister);
            proof {
                assert(expected@ =~= seq![TermKind::XRegister]);
            }
            return Err(DecodeError::UnexpectedTerm { expected, actual: TermKind::from_tag(tag) });
        }
        let value = decode_usize(tag, r)?;
        Ok(XRegister { value, ty: None })
    }
}

impl YRegister {
    /// Decode the index of a Y register whose tag byte was already read.
    pub fn decode_with_tag(r: &mut Reader<'_>, tag: u8) -> (res: Result<YRegister, DecodeError>)
        ensures
            match res {
                Ok(y) => {
                    &&& tag % 8 == 4
                    &&& wire::dec_unat_with(tag, old(r).remaining()) matches Ok((v, n)) && n <= old(r).remaining().len() && y
                        == (YRegister { value: v as usize, ty: None }) && v == y.value as int
                        && final(r).remaining() == old(r).remaining().skip(n as int)
                },
                Err(e) => {
                    if tag % 8 != 4 {
                        e@ == (DecodeErrorV::UnexpectedTerm {
                            expected: seq![TermKind::YRegister],
                            actual: wire::kind_from_tag(tag),
                        })
                    } else {
                        wire::dec_unat_with(tag, old(r).remaining()) matches Err(se) && se == e@
                    }
                },
            },
    {
        if tag % 8 != 4 {
            let mut expected: Vec<TermKind> = Vec::new();
            expected.push(TermKind::YRegister);
            proof {
                assert(expected@ =~= seq![TermKind::YRegister]);
            }
            return Err(DecodeError::UnexpectedTerm { expected, actual: TermKind::from_tag(tag) });
        }
        let value = decode_usize(tag, r)?;
        Ok(YRegister { value, ty: None })
    }

    /// Decode one Y register term, tag byte included.
    pub fn decode(r: &mut Reader<'_>) -> (res: Result<YRegister, DecodeError>)
        ensures
            match res {
                Ok(y) => {
                    &&& wire::dec_yreg(old(r).remaining()) matches Ok((tv, n)) && 1 <= n <= old(
                        r,
                    ).remaining().len() && tv
                        == (TermV::YRegister { value: y.value as int, ty: None }) && y.ty is None
                        && final(r).remaining() == old(r).remaining().skip(n as int)
                },
                Err(e) => wire::dec_yreg(old(r).remaining()) matches Err(se) && se == e@,
            },
    {
        let tag = r.read_u8()?;
        let y = YRegister::decode_with_tag(r, tag)?;
        Ok(y)
    }
}

impl Atom {
    /// Decode an atom index whose tag byte was already read.
    pub fn decode_with_tag(r: &mut Reader<'_>, tag: u8) -> (res: Result<Atom, DecodeError>)
        ensures
            match res {
                Ok(a) => {
                    &&& tag % 8 == 2
                    &&& wire::dec_unat_with(tag, old(r).remaining()) matches Ok((v, n)) && n <= old(r).remaining().len() && v
                        == a.value as int && final(r).remaining() == old(r).remaining().skip(
                        n as int,
                    )
                },
                Err(e) => {
                    if tag % 8 != 2 {
                        e@ == (DecodeErrorV::UnexpectedTerm {
                            expected: seq![TermKind::Atom],
                            actual: wire::kind_from_tag(tag),
                        })
                    } else {
                        wire::dec_unat_with(tag, old(r).remaining()) matches Err(se) && se == e@
                    }
                },
            },
    {
        if tag % 8 != 2 {
            let mut expected: Vec<TermKind> = Vec::new();
            expected.push(TermKind::Atom);
            proof {
                assert(expected@ =~= seq![TermKind::Atom]);
            }
            return Err(DecodeError::UnexpectedTerm { expected, actual: TermKind::from_tag(tag) });
        }
        let value = decode_usize(tag, r)?;
        Ok(Atom { value })
    }

    /// Decode an atom operand, tag byte included.
    pub fn decode(r: &mut Reader<'_>) -> (res: Result<Atom, DecodeError>)
        ensures
            match res {
                Ok(a) => {
                    &&& wire::dec_arg_at(wire::ArgKind::Atm, old(r).remaining()) matches Ok(
                        (tv, n),
                    ) && n <= old(r).remaining().len() && tv == TermV::Atom(a.value as int) && final(r).remaining() == old(
                        r,
                    ).remaining().skip(n as int)
                },
                Err(e) => wire::dec_arg_at(wire::ArgKind::Atm, old(r).remaining()) matches Err(se)
                    && se == e@,
            },
    {
        proof {
            reveal(wire::dec_arg_at);
            lemma_kind_expected(wire::ArgKind::Atm, TermKind::Atom);
        }
        let tag = r.read_u8()?;
        let a = Atom::decode_with_tag(r, tag)?;
        Ok(a)
    }
}

impl Label {
    /// Decode a label index whose tag byte was already read.
    pub fn decode_with_tag(r: &mut Reader<'_>, tag: u8) -> (res: Result<Label, DecodeError>)
        ensures
            match res {
                Ok(l) => {
                    &&& tag % 8 == 5
                    &&& wire::dec_unat_with(tag, old(r).remaining()) matches Ok((v, n)) && n <= old(r).remaining().len() && v
                        == l.value as int && final(r).remaining() == old(r).remaining().skip(
                        n as int,
                    )
                },
                Err(e) => {
                    if tag % 8 != 5 {
                        e@ == (DecodeErrorV::UnexpectedTerm {
                            expected: seq![TermKind::Label],
                            actual: wire::kind_from_tag(tag),
                        })
                    } else {
                        wire::dec_unat_with(tag, old(r).remaining()) matches Err(se) && se == e@
                    }
                },
            },
    {
        if tag % 8 != 5 {
            let mut expected: Vec<TermKind> = Vec::new();
            expected.push(TermKind::Label);
            proof {
                assert(expected@ =~= seq![TermKind::Label]);
            }
            return Err(DecodeError::UnexpectedTerm { expected, actual: TermKind::from_tag(tag) });
        }
        let value = decode_usize(tag, r)?;
        Ok(Label { value })
    }

    /// Decode a label operand, tag byte included.
    pub fn decode(r: &mut Reader<'_>) -> (res: Result<Label, DecodeError>)
        ensures
            match res {
                Ok(l) => {
                    &&& wire::dec_arg_at(wire::ArgKind::Lbl, old(r).remaining()) matches Ok(
                        (tv, n),
                    ) && n <= old(r).remaining().len() && tv == TermV::Label(l.value as int) && final(r).remaining() == old(
                        r,
                    ).remaining().skip(n as int)
                },
                Err(e) => wire::dec_arg_at(wire::ArgKind::Lbl, old(r).remaining()) matches Err(se)
                    && se == e@,
            },
    {
        proof {
            reveal(wire::dec_arg_at);
            lemma_kind_expected(wire::ArgKind::Lbl, TermKind::Label);
        }
        let tag = r.read_u8()?;
        let l = Label::decode_with_tag(r, tag)?;
        Ok(l)
    }
}

/// A single-kind operand position accepts exactly that kind.
proof fn lemma_kind_expected(k: wire::ArgKind, tk: TermKind)
    requires
        wire::expected_kinds(k).len() == 1,
        wire::expected_kinds(k)[0] == tk,
    ensures
        forall|a: TermKind| wire::kind_allowed(k, a) <==> a == tk,
{
    assert forall|a: TermKind| wire::kind_allowed(k, a) <==> a == tk by {
        if a == tk {
            assert(wire::expected_kinds(k)[0] == a);
            assert(wire::expected_kinds(k).contains(a));
        }
        if wire::kind_allowed(k, a) {
            let i = choose|i: int|
                0 <= i < wire::expected_kinds(k).len() && wire::expected_kinds(k)[i] == a;
            assert(i == 0);
        }
    }
}

/// Decode a machine-word operand, tag byte included.
pub fn decode_usize_arg(r: &mut Reader<'_>) -> (res: Result<usize, DecodeError>)
    ensures
        match res {
            Ok(v) => {
                &&& wire::dec_arg_at(wire::ArgKind::U, old(r).remaining()) matches Ok((tv, n)) && n <= old(r).remaining().len() && tv
                    == TermV::Usize(v as int) && final(r).remaining() == old(
                    r,
                ).remaining().skip(n as int)
            },
            Err(e) => wire::dec_arg_at(wire::ArgKind::U, old(r).remaining()) matches Err(se) && se
                == e@,
        },
{
    proof {
        reveal(wire::dec_arg_at);
        lemma_kind_expected(wire::ArgKind::U, TermKind::Usize);
    }
    let v = read_usize(r)?;
    Ok(v)
}

impl FloatingPointRegister {
    /// Decode a floating point register whose tag byte was already read.
    pub fn decode_with_tag(r: &mut Reader<'_>, tag: u8) -> (res: Result<
        FloatingPointRegister,
        DecodeError,
    >)
        ensures
            match res {
                Ok(f) => {
                    &&& wire::kind_from_tag(tag) == TermKind::FloatingPointRegister
                    &&& wire::dec_unat(old(r).remaining()) matches Ok((v, n)) && n <= old(r).remaining().len() && v == f.value as int
                        && final(r).remaining() == old(r).remaining().skip(n as int)
                },
                Err(e) => {
                    if wire::kind_from_tag(tag) != TermKind::FloatingPointRegister {
                        e@ == (DecodeErrorV::UnexpectedTerm {
                            expected: seq![TermKind::FloatingPointRegister],
                            actual: wire::kind_from_tag(tag),
                        })
                    } else {
                        wire::dec_unat(old(r).remaining()) matches Err(se) && se == e@
                    }
                },
            },
    {
        if !(tag % 8 == 7 && tag / 16 == 2) {
            let mut expected: Vec<TermKind> = Vec::new();
            expected.push(TermKind::FloatingPointRegister);
            proof {
                assert(expected@ =~= seq![TermKind::FloatingPointRegister]);
            }
            return Err(DecodeError::UnexpectedTerm { expected, actual: TermKind::from_tag(tag) });
        }
        let value = read_usize(r)?;
        Ok(FloatingPointRegister { value })
    }
}

impl Literal {
    /// Decode a literal index whose tag byte was already read.
    pub fn decode_with_tag(r: &mut Reader<'_>, tag: u8) -> (res: Result<Literal, DecodeError>)
        ensures
            match res {
                Ok(l) => {
                    &&& wire::kind_from_tag(tag) == TermKind::Literal
                    &&& wire::dec_unat(old(r).remaining()) matches Ok((v, n)) && n <= old(r).remaining().len() && v == l.value as int
                        && final(r).remaining() == old(r).remaining().skip(n as int)
                },
                Err(e) => {
                    if wire::kind_from_tag(tag) != TermKind::Literal {
                        e@ == (DecodeErrorV::UnexpectedTerm {
                            expected: seq![TermKind::Literal],
                            actual: wire::kind_from_tag(tag),
                        })
                    } else {
                        wire::dec_unat(old(r).remaining()) matches Err(se) && se == e@
                    }
                },
            },
    {
        if !(tag % 8 == 7 && tag / 16 == 4) {
            let mut expected: Vec<TermKind> = Vec::new();
            expected.push(TermKind::Literal);
            proof {
                assert(expected@ =~= seq![TermKind::Literal]);
            }
            return Err(DecodeError::UnexpectedTerm { expected, actual: TermKind::from_tag(tag) });
        }
        let value = read_usize(r)?;
        Ok(Literal { value })
    }

    /// Decode a literal term, tag byte included.
    pub fn decode(r: &mut Reader<'_>) -> (res: Result<Literal, DecodeError>)
        ensures
            match res {
                Ok(l) => {
                    &&& wire::dec_term(old(r).remaining()) matches Ok((tv, n)) && n <= old(r).remaining().len() && tv
                        == TermV::Literal(l.value as int) && final(r).remaining() == old(
                        r,
                    ).remaining().skip(n as int)
                },
                Err(e) => {
                    if old(r).remaining().len() == 0 {
                        e@ == DecodeErrorV::IoError
                    } else if wire::kind_from_tag(old(r).remaining()[0]) != TermKind::Literal {
                        e@ == (DecodeErrorV::UnexpectedTerm {
                            expected: seq![TermKind::Literal],
                            actual: wire::kind_from_tag(old(r).remaining()[0]),
                        })
                    } else {
                        wire::dec_term(old(r).remaining()) matches Err(se) && se == e@
                    }
                },
            },
    {
        let tag = r.read_u8()?;
        let l = Literal::decode_with_tag(r, tag)?;
        Ok(l)
    }
}

impl TypedRegister {
    /// Decode a typed register whose tag byte was already read: an X or Y
    /// register followed by a type index.
    #[verifier::rlimit(100)]
    pub fn decode_with_tag(r: &mut Reader<'_>, tag: u8) -> (res: Result<
        TypedRegister,
        DecodeError,
    >)
        ensures
            match res {
                Ok(t) => {
                    &&& wire::kind_from_tag(tag) == TermKind::TypedRegister
                    &&& wire::dec_term_with(tag, old(r).remaining()) matches Ok((tv, n)) && n <= old(r).remaining().len() && tv
                        == t@ && final(r).remaining() == old(r).remaining().skip(n as int)
                },
                Err(e) => {
                    if wire::kind_from_tag(tag) != TermKind::TypedRegister {
                        e@ == (DecodeErrorV::UnexpectedTerm {
                            expected: seq![TermKind::TypedRegister],
                            actual: wire::kind_from_tag(tag),
                        })
                    } else {
                        wire::dec_term_with(tag, old(r).remaining()) matches Err(se) && se == e@
                    }
                },
            },
    {
        if !(tag % 8 == 7 && tag / 16 == 5) {
            let mut expected: Vec<TermKind> = Vec::new();
            expected.push(TermKind::TypedRegister);
            proof {
                assert(expected@ =~= seq![TermKind::TypedRegister]);
            }
            return Err(DecodeError::UnexpectedTerm { expected, actual: TermKind::from_tag(tag) });
        }
        let tag2 = r.read_u8()?;
        if tag2 % 8 == 3 {
            let register = XRegister::decode_with_tag(r, tag2)?;
            let ty = read_usize(r)?;
            Ok(TypedRegister::X { register, ty })
        } else if tag2 % 8 == 4 {
            let register = YRegister::decode_with_tag(r, tag2)?;
            let ty = read_usize(r)?;
            Ok(TypedRegister::Y { register, ty })
        } else {
            let mut expected: Vec<TermKind> = Vec::new();
            expected.push(TermKind::XRegister);
            expected.push(TermKind::YRegister);
            proof {
                assert(expected@ =~= seq![TermKind::XRegister, TermKind::YRegister]);
            }
            Err(DecodeError::UnexpectedTerm { expected, actual: TermKind::from_tag(tag2) })
        }
    }
}

impl Register {
    /// Decode a register operand: an X, Y or typed register.
    pub fn decode(r: &mut Reader<'_>) -> (res: Result<Register, DecodeError>)
        ensures
            match res {
                Ok(reg) => {
                    &&& wire::dec_arg_at(wire::ArgKind::Reg, old(r).remaining()) matches Ok(
                        (tv, n),
                    ) && n <= old(r).remaining().len() && tv == reg@ && final(r).remaining() == old(r).remaining().skip(n as int)
                },
                Err(e) => wire::dec_arg_at(wire::ArgKind::Reg, old(r).remaining()) matches Err(se)
                    && se == e@,
            },
    {
        proof {
            reveal(wire::dec_arg_at);
        }
        let tag = r.read_u8()?;
        let k = TermKind::from_tag(tag);
        proof {
            assert(wire::expected_kinds(wire::ArgKind::Reg)[0] == TermKind::XRegister);
            assert(wire::expected_kinds(wire::ArgKind::Reg)[1] == TermKind::YRegister);
            assert(wire::expected_kinds(wire::ArgKind::Reg)[2] == TermKind::TypedRegister);
            if k == TermKind::XRegister || k == TermKind::YRegister || k
                == TermKind::TypedRegister {
                assert(wire::expected_kinds(wire::ArgKind::Reg).contains(k));
            } else {
                assert forall|i: int|
                    0 <= i < wire::expected_kinds(wire::ArgKind::Reg).len() implies wire
                    ::expected_kinds(wire::ArgKind::Reg)[i] != k by {}
                assert(!wire::expected_kinds(wire::ArgKind::Reg).contains(k));
            }
        }
        if tag % 8 == 3 {
            let x = XRegister::decode_with_tag(r, tag)?;
            Ok(Register::X(x))
        } else if tag % 8 == 4 {
            let y = YRegister::decode_with_tag(r, tag)?;
            Ok(Register::Y(y))
        } else if tag % 8 == 7 && tag / 16 == 5 {
            let t = TypedRegister::decode_with_tag(r, tag)?;
            Ok(Register::Typed(t))
        } else {
            let mut expected: Vec<TermKind> = Vec::new();
            expected.push(TermKind::XRegister);
            expected.push(TermKind::YRegister);
            expected.push(TermKind::TypedRegister);
            proof {
                assert(expected@ =~= seq![
                    TermKind::XRegister,
                    TermKind::YRegister,
                    TermKind::TypedRegister,
                ]);
            }
            Err(DecodeError::UnexpectedTerm { expected, actual: k })
        }
    }
}

impl AllocationListItem {
    /// Decode one allocation list item: a machine-word kind then a
    /// machine-word count.
    pub fn decode(r: &mut Reader<'_>) -> (res: Result<AllocationListItem, DecodeError>)
        ensures
            match res {
                Ok(it) => {
                    &&& wire::dec_alloc_item(old(r).remaining()) matches Ok((iv, n)) && 1 <= n
                        <= old(r).remaining().len() && iv
                        == view_alloc_item(it) && final(r).remaining() == old(
                        r,
                    ).remaining().skip(n as int)
                },
                Err(e) => wire::dec_alloc_item(old(r).remaining()) matches Err(se) && se == e@,
            },
    {
        let k = read_usize(r)?;
        if k == 0 {
            let v = read_usize(r)?;
            Ok(AllocationListItem::Words(v))
        } else if k == 1 {
            let v = read_usize(r)?;
            Ok(AllocationListItem::Floats(v))
        } else if k == 2 {
            let v = read_usize(r)?;
            Ok(AllocationListItem::Funs(v))
        } else {
            Err(DecodeError::UnknownAllocationListItemTag { tag: k })
        }
    }
}

impl AllocationList {
    /// Decode an allocation list whose tag byte was already read: a length,
    /// then that many items.
    pub fn decode_with_tag(r: &mut Reader<'_>, tag: u8) -> (res: Result<
        AllocationList,
        DecodeError,
    >)
        ensures
            match res {
                Ok(a) => {
                    &&& wire::kind_from_tag(tag) == TermKind::AllocationList
                    &&& wire::dec_term_with(tag, old(r).remaining()) matches Ok((tv, n)) && n
                        <= old(r).remaining().len() && tv == (TermV::AllocationList(
                        view_alloc_items(a.items@),
                    )) && final(r).remaining() == old(r).remaining().skip(n as int)
                },
                Err(e) => {
                    if wire::kind_from_tag(tag) != TermKind::AllocationList {
                        e@ == (DecodeErrorV::UnexpectedTerm {
                            expected: seq![TermKind::AllocationList],
                            actual: wire::kind_from_tag(tag),
                        })
                    } else {
                        wire::dec_term_with(tag, old(r).remaining()) matches Err(se) && se == e@
                    }
                },
            },
    {
        if !(tag % 8 == 7 && tag / 16 == 3) {
            let mut expected: Vec<TermKind> = Vec::new();
            expected.push(TermKind::AllocationList);
            proof {
                assert(expected@ =~= seq![TermKind::AllocationList]);
            }
            return Err(DecodeError::UnexpectedTerm { expected, actual: TermKind::from_tag(tag) });
        }
        let size = read_usize(r)?;
        let items = decode_alloc_items(r, size)?;
        Ok(AllocationList { items })
    }
}

/// Decode `size` consecutive allocation list items.
#[verifier::rlimit(100)]
fn decode_alloc_items(r: &mut Reader<'_>, size: usize) -> (res: Result<
    Vec<AllocationListItem>,
    DecodeError,
>)
    ensures
        match res {
            Ok(items) => {
                &&& wire::dec_alloc_items(old(r).remaining(), size as int) matches Ok((ivs, n))
                    && n <= old(r).remaining().len() && ivs == view_alloc_items(items@) && final(r).remaining() == old(r).remaining().skip(n as int)
            },
            Err(e) => wire::dec_alloc_items(old(r).remaining(), size as int) matches Err(se)
                && se == e@,
        },
{
    let ghost s1 = r.remaining();
    let mut items: Vec<AllocationListItem> = Vec::new();
    let mut j: usize = 0;
    proof {
        assert(view_alloc_items(items@) =~= Seq::<AllocItemV>::empty());
        assert(s1.skip(0) =~= s1);
    }
    while j < size
        invariant
            0 <= j <= size,
            r.remaining().len() <= s1.len(),
            s1 == old(r).remaining(),
            view_alloc_items(items@).len() == j,
            wire::dec_alloc_items(s1, size as int) == wire::prepend_items(
                view_alloc_items(items@),
                (s1.len() - r.remaining().len()) as nat,
                wire::dec_alloc_items(r.remaining(), size - j as int),
            ),
            r.remaining() == s1.skip((s1.len() - r.remaining().len()) as int),
        decreases size - j,
    {
        let ghost cur = r.remaining();
        let ghost done = view_alloc_items(items@);
        let ghost c0 = (s1.len() - cur.len()) as nat;
        proof {
            wire::lemma_dec_alloc_items_step(cur, size - j as int);
        }
        let item = match AllocationListItem::decode(r) {
            Ok(it) => it,
            Err(e) => {
                return Err(e);
            },
        };
        proof {
            let (iv, c) = wire::dec_alloc_item(cur)->Ok_0;
            wire::lemma_prepend_step(
                done,
                c0,
                iv,
                c,
                wire::dec_alloc_items(cur.skip(c as int), size - j - 1),
            );
            lemma_view_alloc_items_push(items@, item);
        }
        items.push(item);
        j = j + 1;
    }
    proof {
        assert(wire::dec_alloc_items(r.remaining(), 0) == Ok::<(Seq<AllocItemV>, nat), DecodeErrorV>((
            Seq::<AllocItemV>::empty(),
            0nat,
        )));
        assert(view_alloc_items(items@) + Seq::<AllocItemV>::empty() =~= view_alloc_items(
            items@,
        ));
    }
    Ok(items)
}

impl List {
    /// Decode a list whose tag byte was already read: a length, then that
    /// many terms.
    pub fn decode_with_tag(r: &mut Reader<'_>, tag: u8) -> (res: Result<List, DecodeError>)
        ensures
            match res {
                Ok(l) => {
                    &&& wire::kind_from_tag(tag) == TermKind::List
                    &&& wire::dec_term_with(tag, old(r).remaining()) matches Ok((tv, n)) && n
                        <= old(r).remaining().len() && tv == TermV::List(l@) && final(r).remaining() == old(r).remaining().skip(n as int)
                },
                Err(e) => {
                    if wire::kind_from_tag(tag) != TermKind::List {
                        e@ == (DecodeErrorV::UnexpectedTerm {
                            expected: seq![TermKind::List],
                            actual: wire::kind_from_tag(tag),
                        })
                    } else {
                        wire::dec_term_with(tag, old(r).remaining()) matches Err(se) && se == e@
                    }
                },
            },
        decreases r.remaining().len(), 0int,
    {
        if !(tag % 8 == 7 && tag / 16 == 1) {
            let mut expected: Vec<TermKind> = Vec::new();
            expected.push(TermKind::List);
            proof {
                assert(expected@ =~= seq![TermKind::List]);
            }
            return Err(DecodeError::UnexpectedTerm { expected, actual: TermKind::from_tag(tag) });
        }
        let size = read_usize(r)?;
        let items = decode_terms(r, size)?;
        Ok(List { items })
    }
}

/// Decode `size` consecutive terms.
#[verifier::rlimit(100)]
fn decode_terms(r: &mut Reader<'_>, size: usize) -> (res: Result<Vec<Term>, DecodeError>)
    ensures
        match res {
            Ok(items) => {
                &&& wire::dec_terms(old(r).remaining(), size as int) matches Ok((tvs, n)) && n
                    <= old(r).remaining().len() && tvs == view_terms(items@) && final(r).remaining() == old(r).remaining().skip(n as int)
            },
            Err(e) => wire::dec_terms(old(r).remaining(), size as int) matches Err(se) && se
                == e@,
        },
    decreases r.remaining().len(), 2int,
{
    let ghost s1 = r.remaining();
    let mut items: Vec<Term> = Vec::new();
    let mut j: usize = 0;
    proof {
        assert(view_terms(items@) =~= Seq::<TermV>::empty());
        assert(s1.skip(0) =~= s1);
    }
    while j < size
        invariant
            0 <= j <= size,
            r.remaining().len() <= s1.len(),
            s1 == old(r).remaining(),
            view_terms(items@).len() == j,
            wire::dec_terms(s1, size as int) == wire::prepend_items(
                view_terms(items@),
                (s1.len() - r.remaining().len()) as nat,
                wire::dec_terms(r.remaining(), size - j as int),
            ),
            r.remaining() == s1.skip((s1.len() - r.remaining().len()) as int),
        decreases size - j,
    {
        let ghost cur = r.remaining();
        let ghost done = view_terms(items@);
        let ghost c0 = (s1.len() - cur.len()) as nat;
        let item = match Term::decode(r) {
            Ok(it) => it,
            Err(e) => {
                proof {
                    wire::lemma_dec_terms_step(cur, size - j as int);
                }
                return Err(e);
            },
        };
        proof {
            let (tv, c) = wire::dec_term(cur)->Ok_0;
            wire::lemma_dec_terms_loop(
                s1,
                cur,
                size as int,
                j as int,
                done,
                tv,
                c,
                r.remaining(),
            );
            lemma_view_terms_push(items@, item);
        }
        items.push(item);
        j = j + 1;
    }
    proof {
        assert(wire::dec_terms(r.remaining(), 0) == Ok::<(Seq<TermV>, nat), DecodeErrorV>((
            Seq::<TermV>::empty(),
            0nat,
        )));
        assert(view_terms(items@) + Seq::<TermV>::empty() =~= view_terms(items@));
    }
    Ok(items)
}

/// Decode a list of Y registers: a list tag, a length, then that many Y
/// register terms.
pub fn decode_yreg_list(r: &mut Reader<'_>) -> (res: Result<Vec<YRegister>, DecodeError>)
    ensures
        match res {
            Ok(v) => {
                &&& wire::dec_arg_at(wire::ArgKind::Ys, old(r).remaining()) matches Ok((tv, n)) && n
                    <= old(r).remaining().len() && tv == TermV::List(view_yregs(v@)) && final(r).remaining() == old(r).remaining().skip(n as int)
            },
            Err(e) => wire::dec_arg_at(wire::ArgKind::Ys, old(r).remaining()) matches Err(se) && se
                == e@,
        },
{
    proof {
        reveal(wire::dec_arg_at);
        lemma_kind_expected(wire::ArgKind::Ys, TermKind::List);
    }
    let tag = r.read_u8()?;
    if !(tag % 8 == 7 && tag / 16 == 1) {
        let mut expected: Vec<TermKind> = Vec::new();
        expected.push(TermKind::List);
        proof {
            assert(expected@ =~= seq![TermKind::List]);
        }
        return Err(DecodeError::UnexpectedTerm { expected, actual: TermKind::from_tag(tag) });
    }
    let size = read_usize(r)?;
    let items = decode_yregs(r, size)?;
    Ok(items)
}

/// Decode `size` consecutive Y registers.
#[verifier::rlimit(100)]
fn decode_yregs(r: &mut Reader<'_>, size: usize) -> (res: Result<Vec<YRegister>, DecodeError>)
    ensures
        match res {
            Ok(items) => {
                &&& wire::dec_yregs(old(r).remaining(), size as int) matches Ok((tvs, n)) && n
                    <= old(r).remaining().len() && tvs == view_yregs(items@) && final(r).remaining() == old(r).remaining().skip(n as int)
            },
            Err(e) => wire::dec_yregs(old(r).remaining(), size as int) matches Err(se) && se
                == e@,
        },
{
    let ghost s1 = r.remaining();
    let mut items: Vec<YRegister> = Vec::new();
    let mut j: usize = 0;
    proof {
        assert(view_yregs(items@) =~= Seq::<TermV>::empty());
        assert(s1.skip(0) =~= s1);
    }
    while j < size
        invariant
            0 <= j <= size,
            r.remaining().len() <= s1.len(),
            s1 == old(r).remaining(),
            view_yregs(items@).len() == j,
            wire::dec_yregs(s1, size as int) == wire::prepend_items(
                view_yregs(items@),
                (s1.len() - r.remaining().len()) as nat,
                wire::dec_yregs(r.remaining(), size - j as int),
            ),
            r.remaining() == s1.skip((s1.len() - r.remaining().len()) as int),
        decreases size - j,
    {
        let ghost cur = r.remaining();
        let ghost done = view_yregs(items@);
        let ghost c0 = (s1.len() - cur.len()) as nat;
        proof {
            wire::lemma_dec_yregs_step(cur, size - j as int);
        }
        let item = match YRegister::decode(r) {
            Ok(it) => it,
            Err(e) => {
                return Err(e);
            },
        };
        proof {
            let (tv, c) = wire::dec_yreg(cur)->Ok_0;
            wire::lemma_prepend_step(
                done,
                c0,
                tv,
                c,
                wire::dec_yregs(cur.skip(c as int), size - j - 1),
            );
            lemma_view_yregs_push(items@, item);
        }
        items.push(item);
        j = j + 1;
    }
    proof {
        assert(wire::dec_yregs(r.remaining(), 0) == Ok::<(Seq<TermV>, nat), DecodeErrorV>((
            Seq::<TermV>::empty(),
            0nat,
        )));
        assert(view_yregs(items@) + Seq::<TermV>::empty() =~= view_yregs(items@));
    }
    Ok(items)
}

/// Relies on `char::from_u32`: `Some` exactly on Unicode scalar values, and
/// the identity on them.
#[verifier::external_body]
fn make_char(v: u32) -> (r: Option<char>)
    ensures
        wire::is_scalar(v as int) ==> r == Some(v as char),
        !wire::is_scalar(v as int) ==> r is None,
{
    char::from_u32(v)
}

/// Decode a character whose tag byte was already read: an integer that must
/// be a Unicode scalar value.
pub fn decode_char(tag: u8, r: &mut Reader<'_>) -> (res: Result<char, DecodeError>)
    ensures
        match res {
            Ok(c) => {
                &&& wire::dec_int(tag, old(r).remaining()) matches Ok((v, n)) && n <= old(
                    r,
                ).remaining().len() && v == c as int && wire::is_scalar(v) && final(r).remaining() == old(r).remaining().skip(n as int)
            },
            Err(e) => {
                match wire::dec_int(tag, old(r).remaining()) {
                    Ok((v, n)) => {
                        if !(0 <= v <= u32::MAX as int) {
                            e@ == (DecodeErrorV::TooLargeUsizeValue { byte_size: n as int })
                        } else {
                            !wire::is_scalar(v) && e@ == (DecodeErrorV::InvalidUnicodeCodepoint {
                                value: v as u32,
                            })
                        }
                    },
                    Err(se) => se == e@,
                }
            },
        },
{
    let before = r.remaining_len();
    let b = decode_integer(tag, r)?;
    let after = r.remaining_len();
    let consumed = before - after;
    let u = match b.to_usize() {
        Some(u) => u,
        None => {
            return Err(DecodeError::TooLargeUsizeValue { byte_size: consumed });
        },
    };
    if u > u32::MAX as usize {
        return Err(DecodeError::TooLargeUsizeValue { byte_size: consumed });
    }
    let w = u as u32;
    match make_char(w) {
        Some(c) => Ok(c),
        None => Err(DecodeError::InvalidUnicodeCodepoint { value: w }),
    }
}

impl Allocation {
    /// Decode an allocation operand: a plain word count or an allocation
    /// list.
    pub fn decode(r: &mut Reader<'_>) -> (res: Result<Allocation, DecodeError>)
        ensures
            match res {
                Ok(a) => {
                    &&& wire::dec_arg_at(wire::ArgKind::Alloc, old(r).remaining()) matches Ok(
                        (tv, n),
                    ) && n <= old(r).remaining().len() && tv == a@ && final(r).remaining() == old(
                        r,
                    ).remaining().skip(n as int)
                },
                Err(e) => wire::dec_arg_at(wire::ArgKind::Alloc, old(r).remaining()) matches Err(se)
                    && se == e@,
            },
    {
        proof {
            reveal(wire::dec_arg_at);
        }
        let tag = r.read_u8()?;
        let k = TermKind::from_tag(tag);
        proof {
            assert(wire::expected_kinds(wire::ArgKind::Alloc)[0] == TermKind::Usize);
            assert(wire::expected_kinds(wire::ArgKind::Alloc)[1] == TermKind::AllocationList);
            if k == TermKind::Usize || k == TermKind::AllocationList {
                assert(wire::expected_kinds(wire::ArgKind::Alloc).contains(k));
            } else {
                assert forall|i: int|
                    0 <= i < wire::expected_kinds(wire::ArgKind::Alloc).len() implies wire
                    ::expected_kinds(wire::ArgKind::Alloc)[i] != k by {}
                assert(!wire::expected_kinds(wire::ArgKind::Alloc).contains(k));
            }
        }
        if tag % 8 == 0 {
            let v = decode_usize(tag, r)?;
            Ok(Allocation::Words(v))
        } else if tag % 8 == 7 && tag / 16 == 3 {
            let a = AllocationList::decode_with_tag(r, tag)?;
            Ok(Allocation::List(a))
        } else {
            let mut expected: Vec<TermKind> = Vec::new();
            expected.push(TermKind::Usize);
            expected.push(TermKind::AllocationList);
            proof {
                assert(expected@ =~= seq![TermKind::Usize, TermKind::AllocationList]);
            }
            Err(DecodeError::UnexpectedTerm { expected, actual: k })
        }
    }
}

impl Term {
    /// Decode one term whose tag byte was already read.
    #[verifier::rlimit(100)]
    pub fn decode_with_tag(r: &mut Reader<'_>, tag: u8) -> (res: Result<Term, DecodeError>)
        ensures
            match res {
                Ok(t) => {
                    &&& wire::dec_term_with(tag, old(r).remaining()) matches Ok((tv, n)) && n
                        <= old(r).remaining().len() && tv == t@ && final(r).remaining() == old(
                        r,
                    ).remaining().skip(n as int)
                },
                Err(e) => wire::dec_term_with(tag, old(r).remaining()) matches Err(se) && se
                    == e@,
            },
        decreases r.remaining().len(), 1int,
    {
        let k = tag % 8;
        if k == 0 {
            let v = decode_usize(tag, r)?;
            Ok(Term::Usize(v))
        } else if k == 1 {
            let b = decode_integer(tag, r)?;
            Ok(Term::Integer(b))
        } else if k == 2 {
            let a = Atom::decode_with_tag(r, tag)?;
            Ok(Term::Atom(a))
        } else if k == 3 {
            let x = XRegister::decode_with_tag(r, tag)?;
            Ok(Term::XRegister(x))
        } else if k == 4 {
            let y = YRegister::decode_with_tag(r, tag)?;
            Ok(Term::YRegister(y))
        } else if k == 5 {
            let l = Label::decode_with_tag(r, tag)?;
            Ok(Term::Label(l))
        } else if k == 6 {
            let c = decode_char(tag, r)?;
            Ok(Term::Character(c))
        } else {
            let sub = tag / 16;
            if sub == 1 {
                let l = List::decode_with_tag(r, tag)?;
                Ok(Term::List(l))
            } else if sub == 2 {
                let f = FloatingPointRegister::decode_with_tag(r, tag)?;
                Ok(Term::FloatingPointRegister(f))
            } else if sub == 3 {
                let a = AllocationList::decode_with_tag(r, tag)?;
                Ok(Term::AllocationList(a))
            } else if sub == 4 {
                let l = Literal::decode_with_tag(r, tag)?;
                Ok(Term::Literal(l))
            } else if sub == 5 {
                let t = TypedRegister::decode_with_tag(r, tag)?;
                Ok(Term::TypedRegister(t))
            } else {
                Err(DecodeError::UnknownTermTag { tag })
            }
        }
    }

    /// Decode one term, tag byte included.
    pub fn decode(r: &mut Reader<'_>) -> (res: Result<Term, DecodeError>)
        ensures
            match res {
                Ok(t) => {
                    &&& wire::dec_term(old(r).remaining()) matches Ok((tv, n)) && 1 <= n <= old(
                        r,
                    ).remaining().len() && tv == t@ && final(r).remaining() == old(
                        r,
                    ).remaining().skip(n as int)
                },
                Err(e) => wire::dec_term(old(r).remaining()) matches Err(se) && se == e@,
            },
        decreases r.remaining().len(), 0int,
    {
        let tag = r.read_u8()?;
        let t = Term::decode_with_tag(r, tag)?;
        Ok(t)
    }
}

impl Atom {
    /// Encode this atom index.
    pub fn encode(&self, out: &mut Vec<u8>) -> (res: Result<(), EncodeError>)
        ensures
            res is Ok,
            final(out)@ == old(out)@ + wire::enc_int(2, self.value as int),
    {
        encode_usize(2, self.value, out);
        Ok(())
    }
}

impl Label {
    /// Encode this label index.
    pub fn encode(&self, out: &mut Vec<u8>) -> (res: Result<(), EncodeError>)
        ensures
            res is Ok,
            final(out)@ == old(out)@ + wire::enc_int(5, self.value as int),
    {
        encode_usize(5, self.value, out);
        Ok(())
    }
}

impl XRegister {
    /// Encode this X register's index; a type annotation is written only by
    /// the enclosing typed register.
    pub fn encode(&self, out: &mut Vec<u8>) -> (res: Result<(), EncodeError>)
        ensures
            res is Ok,
            final(out)@ == old(out)@ + wire::enc_int(3, self.value as int),
    {
        encode_usize(3, self.value, out);
        Ok(())
    }
}

impl YRegister {
    /// Encode this Y register's index; a type annotation is written only by
    /// the enclosing typed register.
    pub fn encode(&self, out: &mut Vec<u8>) -> (res: Result<(), EncodeError>)
        ensures
            res is Ok,
            final(out)@ == old(out)@ + wire::enc_int(4, self.value as int),
    {
        encode_usize(4, self.value, out);
        Ok(())
    }
}

impl Literal {
    /// Encode this literal index.
    pub fn encode(&self, out: &mut Vec<u8>) -> (res: Result<(), EncodeError>)
        ensures
            res is Ok,
            final(out)@ == old(out)@ + wire::enc_termv(TermV::Literal(self.value as int)),
    {
        out.push(0x47);
        encode_usize(0, self.value, out);
        proof {
            assert(final(out)@ =~= old(out)@ + wire::enc_termv(
                TermV::Literal(self.value as int),
            ));
        }
        Ok(())
    }
}

impl FloatingPointRegister {
    /// Encode this floating point register.
    pub fn encode(&self, out: &mut Vec<u8>) -> (res: Result<(), EncodeError>)
        ensures
            res is Ok,
            final(out)@ == old(out)@ + wire::enc_termv(
                TermV::FloatingPointRegister(self.value as int),
            ),
    {
        out.push(0x27);
        encode_usize(0, self.value, out);
        proof {
            assert(final(out)@ =~= old(out)@ + wire::enc_termv(
                TermV::FloatingPointRegister(self.value as int),
            ));
        }
        Ok(())
    }
}

impl TypedRegister {
    /// Encode this typed register: the wrapped register, then its type
    /// index.
    pub fn encode(&self, out: &mut Vec<u8>) -> (res: Result<(), EncodeError>)
        ensures
            res is Ok,
            final(out)@ == old(out)@ + wire::enc_termv(self@),
    {
        out.push(0x57);
        match self {
            TypedRegister::X { register, ty } => {
                encode_usize(3, register.value, out);
                encode_usize(0, *ty, out);
            },
            TypedRegister::Y { register, ty } => {
                encode_usize(4, register.value, out);
                encode_usize(0, *ty, out);
            },
        }
        proof {
            assert(final(out)@ =~= old(out)@ + wire::enc_termv(self@));
        }
        Ok(())
    }
}

impl Register {
    /// Encode this register in whichever of the three forms it holds.
    pub fn encode(&self, out: &mut Vec<u8>) -> (res: Result<(), EncodeError>)
        ensures
            res is Ok,
            final(out)@ == old(out)@ + wire::enc_termv(self@),
    {
        match self {
            Register::X(x) => x.encode(out),
            Register::Y(y) => y.encode(out),
            Register::Typed(t) => t.encode(out),
        }
    }
}

impl AllocationListItem {
    /// Encode this item: its kind index, then its count.
    pub fn encode(&self, out: &mut Vec<u8>) -> (res: Result<(), EncodeError>)
        ensures
            res is Ok,
            final(out)@ == old(out)@ + wire::enc_alloc_itemv(view_alloc_item(*self)),
    {
        match self {
            AllocationListItem::Words(v) => {
                encode_usize(0, 0, out);
                encode_usize(0, *v, out);
            },
            AllocationListItem::Floats(v) => {
                encode_usize(0, 1, out);
                encode_usize(0, *v, out);
            },
            AllocationListItem::Funs(v) => {
                encode_usize(0, 2, out);
                encode_usize(0, *v, out);
            },
        }
        proof {
            assert(final(out)@ =~= old(out)@ + wire::enc_alloc_itemv(view_alloc_item(*self)));
        }
        Ok(())
    }
}

impl AllocationList {
    /// Encode this allocation list: its tag, its length, then its items.
    pub fn encode(&self, out: &mut Vec<u8>) -> (res: Result<(), EncodeError>)
        ensures
            res is Ok,
            final(out)@ == old(out)@ + wire::enc_termv(
                TermV::AllocationList(view_alloc_items(self.items@)),
            ),
    {
        let ghost ivs = view_alloc_items(self.items@);
        out.push(0x37);
        encode_usize(0, self.items.len(), out);
        let ghost head = old(out)@ + seq![0x37u8] + wire::enc_int(0, self.items@.len() as int);
        let mut j: usize = 0;
        proof {
            assert(out@ =~= head + wire::enc_alloc_itemvs(ivs.take(0)));
        }
        while j < self.items.len()
            invariant
                0 <= j <= self.items@.len(),
                ivs == view_alloc_items(self.items@),
                ivs.len() == self.items@.len(),
                head == old(out)@ + seq![0x37u8] + wire::enc_int(0, self.items@.len() as int),
                out@ == head + wire::enc_alloc_itemvs(ivs.take(j as int)),
            decreases self.items@.len() - j,
        {
            let item = self.items[j];
            let _ = item.encode(out);
            proof {
                wire::lemma_enc_allocs_take(ivs, j as int);
                assert(ivs[j as int] == view_alloc_item(item));
            }
            j = j + 1;
        }
        proof {
            assert(ivs.take(ivs.len() as int) =~= ivs);
            assert(head + wire::enc_alloc_itemvs(ivs) =~= old(out)@ + wire::enc_termv(
                TermV::AllocationList(ivs),
            ));
        }
        Ok(())
    }
}

impl Allocation {
    /// Encode this allocation operand.
    pub fn encode(&self, out: &mut Vec<u8>) -> (res: Result<(), EncodeError>)
        ensures
            res is Ok,
            final(out)@ == old(out)@ + wire::enc_termv(self@),
    {
        match self {
            Allocation::Words(v) => {
                encode_usize(0, *v, out);
                Ok(())
            },
            Allocation::List(a) => a.encode(out),
        }
    }
}

/// Encode a vector of Y registers as a list term.
pub fn encode_yreg_list(registers: &Vec<YRegister>, out: &mut Vec<u8>) -> (res: Result<
    (),
    EncodeError,
>)
    ensures
        res is Ok,
        final(out)@ == old(out)@ + wire::enc_termv(TermV::List(view_yregs(registers@))),
{
    let ghost ivs = view_yregs(registers@);
    out.push(0x17);
    encode_usize(0, registers.len(), out);
    let ghost head = old(out)@ + seq![0x17u8] + wire::enc_int(0, registers@.len() as int);
    let mut j: usize = 0;
    proof {
        assert(out@ =~= head + wire::enc_termvs(ivs.take(0)));
    }
    while j < registers.len()
        invariant
            0 <= j <= registers@.len(),
            ivs == view_yregs(registers@),
            ivs.len() == registers@.len(),
            head == old(out)@ + seq![0x17u8] + wire::enc_int(0, registers@.len() as int),
            out@ == head + wire::enc_termvs(ivs.take(j as int)),
        decreases registers@.len() - j,
    {
        let item = registers[j];
        encode_usize(4, item.value, out);
        proof {
            wire::lemma_enc_termvs_take(ivs, j as int);
            assert(ivs[j as int] == (TermV::YRegister {
                value: item.value as int,
                ty: view_opt(item.ty),
            }));
        }
        j = j + 1;
    }
    proof {
        assert(ivs.take(ivs.len() as int) =~= ivs);
        assert(head + wire::enc_termvs(ivs) =~= old(out)@ + wire::enc_termv(TermV::List(ivs)));
    }
    Ok(())
}

impl List {
    /// Encode this list: its tag, its length, then its items.
    pub fn encode(&self, out: &mut Vec<u8>) -> (res: Result<(), EncodeError>)
        ensures
            res is Ok,
            final(out)@ == old(out)@ + wire::enc_termv(TermV::List(self@)),
        decreases self,
    {
        let ghost ivs = view_terms(self.items@);
        out.push(0x17);
        encode_usize(0, self.items.len(), out);
        let ghost head = old(out)@ + seq![0x17u8] + wire::enc_int(0, self.items@.len() as int);
        let mut j: usize = 0;
        proof {
            lemma_view_terms(self.items@);
            assert(out@ =~= head + wire::enc_termvs(ivs.take(0)));
        }
        while j < self.items.len()
            invariant
                0 <= j <= self.items@.len(),
                ivs == view_terms(self.items@),
                ivs.len() == self.items@.len(),
                forall|i: int| 0 <= i < self.items@.len() ==> ivs[i] == #[trigger] self.items@[i]@,
                head == old(out)@ + seq![0x17u8] + wire::enc_int(0, self.items@.len() as int),
                out@ == head + wire::enc_termvs(ivs.take(j as int)),
            decreases self.items@.len() - j,
        {
            let _ = self.items[j].encode(out);
            proof {
                wire::lemma_enc_termvs_take(ivs, j as int);
            }
            j = j + 1;
        }
        proof {
            assert(ivs.take(ivs.len() as int) =~= ivs);
            assert(head + wire::enc_termvs(ivs) =~= old(out)@ + wire::enc_termv(
                TermV::List(ivs),
            ));
        }
        Ok(())
    }
}

impl Term {
    /// Encode this term in its canonical form.
    pub fn encode(&self, out: &mut Vec<u8>) -> (res: Result<(), EncodeError>)
        ensures
            res is Ok,
            final(out)@ == old(out)@ + wire::enc_termv(self@),
        decreases self,
    {
        match self {
            Term::Usize(v) => {
                encode_usize(0, *v, out);
                Ok(())
            },
            Term::Integer(b) => {
                b.encode_int(1, out);
                Ok(())
            },
            Term::Atom(a) => a.encode(out),
            Term::XRegister(x) => x.encode(out),
            Term::YRegister(y) => y.encode(out),
            Term::Label(l) => l.encode(out),
            Term::Character(c) => {
                encode_char(*c, out);
                Ok(())
            },
            Term::List(l) => l.encode(out),
            Term::FloatingPointRegister(f) => f.encode(out),
            Term::AllocationList(a) => a.encode(out),
            Term::Literal(l) => l.encode(out),
            Term::TypedRegister(t) => t.encode(out),
        }
    }
}

/// Encode a character: its scalar value with the character kind bits.
pub fn encode_char(c: char, out: &mut Vec<u8>)
    ensures
        final(out)@ == old(out)@ + wire::enc_int(6, c as int),
{
    let v = c as u32;
    if v < 16 {
        out.push((v as u8) * 16 + 6);
        proof {
            assert(wire::enc_int(6, c as int) =~= seq![((c as int) * 16 + 6) as u8]);
            assert(final(out)@ =~= old(out)@ + wire::enc_int(6, c as int));
        }
    } else if v < 2048 {
        out.push(((v / 256) as u8) * 32 + 8 + 6);
        out.push((v % 256) as u8);
        proof {
            assert(wire::enc_int(6, c as int) =~= seq![
                (((c as int) / 256) * 32 + 8 + 6) as u8,
                ((c as int) % 256) as u8,
            ]);
            assert(final(out)@ =~= old(out)@ + wire::enc_int(6, c as int));
        }
    } else {
        let b = BigInt::from_u64(v as u64);
        b.encode_int(6, out);
    }
}

/// Decode a list operand, tag byte included.
pub fn decode_list_arg(r: &mut Reader<'_>) -> (res: Result<List, DecodeError>)
    ensures
        match res {
            Ok(l) => {
                &&& wire::dec_arg_at(wire::ArgKind::Lst, old(r).remaining()) matches Ok((tv, n))
                    && n <= old(r).remaining().len() && tv == TermV::List(l@) && final(r).remaining() == old(r).remaining().skip(n as int)
            },
            Err(e) => wire::dec_arg_at(wire::ArgKind::Lst, old(r).remaining()) matches Err(se) && se
                == e@,
        },
{
    proof {
        reveal(wire::dec_arg_at);
        lemma_kind_expected(wire::ArgKind::Lst, TermKind::List);
    }
    let tag = r.read_u8()?;
    let l = List::decode_with_tag(r, tag)?;
    Ok(l)
}

/// Decode one operand at an unconstrained position.
pub fn decode_term_arg(r: &mut Reader<'_>) -> (res: Result<Term, DecodeError>)
    ensures
        match res {
            Ok(t) => {
                &&& wire::dec_arg_at(wire::ArgKind::Any, old(r).remaining()) matches Ok((tv, n))
                    && n <= old(r).remaining().len() && tv == t@ && final(r).remaining() == old(
                    r,
                ).remaining().skip(n as int)
            },
            Err(e) => wire::dec_arg_at(wire::ArgKind::Any, old(r).remaining()) matches Err(se)
                && se == e@,
        },
{
    proof {
        reveal(wire::dec_arg_at);
        wire::lemma_dec_arg_any(old(r).remaining());
    }
    let t = Term::decode(r)?;
    Ok(t)
}

} // verus!
