//! The signable payload: what a signer commits to (function, target contract,
//! network, arguments and nonce), its byte encoding, and the 32-byte digest
//! that signatures are made over.
use vstd::prelude::*;

use crate::crypto::{sha256, sha256_of};
use crate::keys::ContractId;

verus! {

/// One argument of a contract call.
#[derive(Clone, Debug, PartialEq, Eq)]
pub enum Val {
    Void,
    U64(u64),
    I128(i128),
    Bytes(Vec<u8>),
}

/// An argument as a plain value.
pub enum ValView {
    Void,
    U64(u64),
    I128(i128),
    Bytes(Seq<u8>),
}

impl View for Val {
    type V = ValView;

    open spec fn view(&self) -> ValView {
        match self {
            Val::Void => ValView::Void,
            Val::U64(n) => ValView::U64(*n),
            Val::I128(n) => ValView::I128(*n),
            Val::Bytes(b) => ValView::Bytes(b@),
        }
    }
}

/// The arguments of a call as plain values.
pub open spec fn val_views(args: Seq<Val>) -> Seq<ValView> {
    args.map_values(|v: Val| v@)
}

/// What a signer signs: the call, where it runs, and the nonce it is bound to.
#[derive(Clone, Debug, PartialEq, Eq)]
pub struct SignablePayload {
    pub function: Vec<u8>,
    pub contract: ContractId,
    pub network: Vec<u8>,
    pub args: Vec<Val>,
    pub nonce: u64,
}

/// The `width` low-order bytes of `x`, least significant first.
pub open spec fn le_bytes(x: nat, width: nat) -> Seq<u8>
    decreases width,
{
    if width == 0 {
        Seq::empty()
    } else {
        seq![(x % 256) as u8] + le_bytes(x / 256, (width - 1) as nat)
    }
}

/// A byte string preceded by its length in eight bytes.
pub open spec fn field_bytes(b: Seq<u8>) -> Seq<u8> {
    le_bytes(b.len(), 8) + b
}

/// The 128-bit two's complement of `n`.
pub open spec fn twos_complement(n: i128) -> nat {
    if n >= 0 {
        n as nat
    } else {
        (n + 0x1_0000_0000_0000_0000_0000_0000_0000_0000) as nat
    }
}

/// One argument: a tag byte, then the value (an `i128` in two's complement).
pub open spec fn val_bytes(v: ValView) -> Seq<u8> {
    match v {
        ValView::Void => seq![0u8],
        ValView::U64(n) => seq![1u8] + le_bytes(n as nat, 8),
        ValView::I128(n) => seq![2u8] + le_bytes(twos_complement(n), 16),
        ValView::Bytes(b) => seq![3u8] + field_bytes(b),
    }
}

/// The arguments one after the other.
pub open spec fn vals_bytes(args: Seq<ValView>) -> Seq<u8>
    decreases args.len(),
{
    if args.len() == 0 {
        Seq::empty()
    } else {
        vals_bytes(args.drop_last()) + val_bytes(args.last())
    }
}

/// The encoding of a payload: function name, contract, network, nonce, then the
/// number of arguments and each argument.
pub open spec fn payload_bytes(
    function: Seq<u8>,
    contract: Seq<u8>,
    network: Seq<u8>,
    args: Seq<ValView>,
    nonce: u64,
) -> Seq<u8> {
    field_bytes(function) + contract + field_bytes(network) + le_bytes(nonce as nat, 8) + le_bytes(
        args.len(),
        8,
    ) + vals_bytes(args)
}

impl SignablePayload {
    pub open spec fn spec_bytes(&self) -> Seq<u8> {
        payload_bytes(self.function@, self.contract@, self.network@, val_views(self.args@), self.nonce)
    }
}

/// `256` to the power `w`.
pub open spec fn pow256(w: nat) -> nat
    decreases w,
{
    if w == 0 {
        1
    } else {
        256 * pow256((w - 1) as nat)
    }
}

proof fn lemma_le_bytes_len(x: nat, width: nat)
    ensures
        le_bytes(x, width).len() == width,
    decreases width,
{
    if width > 0 {
        lemma_le_bytes_len(x / 256, (width - 1) as nat);
    }
}

/// Below `256^width`, distinct numbers have distinct `width`-byte encodings.
proof fn lemma_le_bytes_injective(x: nat, y: nat, width: nat)
    requires
        x < pow256(width),
        y < pow256(width),
        le_bytes(x, width) == le_bytes(y, width),
    ensures
        x == y,
    decreases width,
{
    if width > 0 {
        let w1 = (width - 1) as nat;
        let p = pow256(w1);
        let ex = le_bytes(x, width);
        let ey = le_bytes(y, width);
        lemma_le_bytes_len(x / 256, w1);
        lemma_le_bytes_len(y / 256, w1);
        assert(ex[0] == ey[0]);
        assert(x % 256 == y % 256);
        assert(ex.subrange(1, ex.len() as int) =~= le_bytes(x / 256, w1));
        assert(ey.subrange(1, ey.len() as int) =~= le_bytes(y / 256, w1));
        assert(x / 256 < p) by (nonlinear_arith)
            requires
                x < 256 * p,
        ;
        assert(y / 256 < p) by (nonlinear_arith)
            requires
                y < 256 * p,
        ;
        lemma_le_bytes_injective(x / 256, y / 256, w1);
        assert(x == 256 * (x / 256) + x % 256) by (nonlinear_arith);
        assert(y == 256 * (y / 256) + y % 256) by (nonlinear_arith);
    }
}

proof fn lemma_pow256_values()
    ensures
        pow256(8) == 0x1_0000_0000_0000_0000,
        pow256(16) == 0x1_0000_0000_0000_0000_0000_0000_0000_0000,
{
    assert(pow256(0) == 1);
    assert(pow256(1) == 0x100);
    assert(pow256(2) == 0x1_0000);
    assert(pow256(3) == 0x100_0000);
    assert(pow256(4) == 0x1_0000_0000);
    assert(pow256(5) == 0x100_0000_0000);
    assert(pow256(6) == 0x1_0000_0000_0000);
    assert(pow256(7) == 0x100_0000_0000_0000);
    assert(pow256(8) == 0x1_0000_0000_0000_0000);
    assert(pow256(9) == 0x100_0000_0000_0000_0000);
    assert(pow256(10) == 0x1_0000_0000_0000_0000_0000);
    assert(pow256(11) == 0x100_0000_0000_0000_0000_0000);
    assert(pow256(12) == 0x1_0000_0000_0000_0000_0000_0000);
    assert(pow256(13) == 0x100_0000_0000_0000_0000_0000_0000);
    assert(pow256(14) == 0x1_0000_0000_0000_0000_0000_0000_0000);
    assert(pow256(15) == 0x100_0000_0000_0000_0000_0000_0000_0000);
}

/// Two concatenations with equally long first parts agree part by part.
proof fn lemma_split_equal(a1: Seq<u8>, b1: Seq<u8>, a2: Seq<u8>, b2: Seq<u8>)
    requires
        a1 + b1 == a2 + b2,
        a1.len() == a2.len(),
    ensures
        a1 == a2,
        b1 == b2,
{
    assert(a1 =~= (a1 + b1).subrange(0, a1.len() as int));
    assert(a2 =~= (a2 + b2).subrange(0, a2.len() as int));
    assert(b1 =~= (a1 + b1).subrange(a1.len() as int, (a1 + b1).len() as int));
    assert(b2 =~= (a2 + b2).subrange(a2.len() as int, (a2 + b2).len() as int));
}

/// The encoded arguments, read from the front.
proof fn lemma_vals_bytes_front(args: Seq<ValView>)
    requires
        args.len() > 0,
    ensures
        vals_bytes(args) == val_bytes(args[0]) + vals_bytes(args.drop_first()),
    decreases args.len(),
{
    if args.len() == 1 {
        assert(args.drop_last() =~= Seq::<ValView>::empty());
        assert(args.drop_first() =~= Seq::<ValView>::empty());
        assert(vals_bytes(args) =~= val_bytes(args[0]) + vals_bytes(args.drop_first()));
    } else {
        lemma_vals_bytes_front(args.drop_last());
        assert(args.drop_last().drop_first() =~= args.drop_first().drop_last());
        assert(args.drop_first().last() == args.last());
        assert(args.drop_last()[0] == args[0]);
        assert(vals_bytes(args) =~= val_bytes(args[0]) + vals_bytes(args.drop_first()));
    }
}

/// Every byte string argument is shorter than `2^64`, so its length fits its field.
pub open spec fn args_encodable(args: Seq<ValView>) -> bool {
    forall|i: int|
        0 <= i < args.len() ==> match #[trigger] args[i] {
            ValView::Bytes(b) => b.len() < pow256(8),
            _ => true,
        }
}

/// An encoded argument is never a proper prefix of another: the argument and what
/// follows it can be read back.
proof fn lemma_val_bytes_prefix_free(v1: ValView, r1: Seq<u8>, v2: ValView, r2: Seq<u8>)
    requires
        val_bytes(v1) + r1 == val_bytes(v2) + r2,
        v1 matches ValView::Bytes(b) ==> b.len() < pow256(8),
        v2 matches ValView::Bytes(b) ==> b.len() < pow256(8),
    ensures
        v1 == v2,
        r1 == r2,
{
    let s1 = val_bytes(v1) + r1;
    let s2 = val_bytes(v2) + r2;
    assert(s1[0] == val_bytes(v1)[0]);
    assert(s2[0] == val_bytes(v2)[0]);
    match (v1, v2) {
        (ValView::Void, ValView::Void) => {
            lemma_split_equal(val_bytes(v1), r1, val_bytes(v2), r2);
        },
        (ValView::U64(n1), ValView::U64(n2)) => {
            lemma_le_bytes_len(n1 as nat, 8);
            lemma_le_bytes_len(n2 as nat, 8);
            lemma_split_equal(val_bytes(v1), r1, val_bytes(v2), r2);
            lemma_split_equal(seq![1u8], le_bytes(n1 as nat, 8), seq![1u8], le_bytes(n2 as nat, 8));
            lemma_pow256_values();
            lemma_le_bytes_injective(n1 as nat, n2 as nat, 8);
        },
        (ValView::I128(n1), ValView::I128(n2)) => {
            lemma_le_bytes_len(twos_complement(n1), 16);
            lemma_le_bytes_len(twos_complement(n2), 16);
            lemma_split_equal(val_bytes(v1), r1, val_bytes(v2), r2);
            lemma_split_equal(
                seq![2u8],
                le_bytes(twos_complement(n1), 16),
                seq![2u8],
                le_bytes(twos_complement(n2), 16),
            );
            lemma_pow256_values();
            lemma_le_bytes_injective(twos_complement(n1), twos_complement(n2), 16);
        },
        (ValView::Bytes(b1), ValView::Bytes(b2)) => {
            lemma_le_bytes_len(b1.len(), 8);
            lemma_le_bytes_len(b2.len(), 8);
            let h1 = seq![3u8] + le_bytes(b1.len(), 8);
            let h2 = seq![3u8] + le_bytes(b2.len(), 8);
            assert(s1 =~= h1 + (b1 + r1));
            assert(s2 =~= h2 + (b2 + r2));
            lemma_split_equal(h1, b1 + r1, h2, b2 + r2);
            lemma_split_equal(seq![3u8], le_bytes(b1.len(), 8), seq![3u8], le_bytes(b2.len(), 8));
            lemma_le_bytes_injective(b1.len(), b2.len(), 8);
            lemma_split_equal(b1, r1, b2, r2);
        },
        _ => {
            assert(s1[0] != s2[0]);
        },
    }
}

/// Argument lists with the same count and the same encoding are the same.
proof fn lemma_vals_bytes_injective(a1: Seq<ValView>, a2: Seq<ValView>)
    requires
        a1.len() == a2.len(),
        args_encodable(a1),
        args_encodable(a2),
        vals_bytes(a1) == vals_bytes(a2),
    ensures
        a1 == a2,
    decreases a1.len(),
{
    if a1.len() > 0 {
        lemma_vals_bytes_front(a1);
        lemma_vals_bytes_front(a2);
        let (h1, h2) = (a1[0], a2[0]);
        lemma_val_bytes_prefix_free(h1, vals_bytes(a1.drop_first()), h2, vals_bytes(a2.drop_first()));
        assert forall|i: int| 0 <= i < a1.drop_first().len() implies match #[trigger] a1.drop_first()[i] {
            ValView::Bytes(b) => b.len() < pow256(8),
            _ => true,
        } by {
            assert(a1.drop_first()[i] == a1[i + 1]);
        }
        assert forall|i: int| 0 <= i < a2.drop_first().len() implies match #[trigger] a2.drop_first()[i] {
            ValView::Bytes(b) => b.len() < pow256(8),
            _ => true,
        } by {
            assert(a2.drop_first()[i] == a2[i + 1]);
        }
        lemma_vals_bytes_injective(a1.drop_first(), a2.drop_first());
        assert(a1 =~= seq![h1] + a1.drop_first());
        assert(a2 =~= seq![h2] + a2.drop_first());
    } else {
        assert(a1 =~= a2);
    }
}

/// Two payloads with the same encoding are the same payload: a signature over the
/// encoding commits to the function, the contract, the network, the nonce and
/// every argument. (Byte strings and the argument count must be shorter than
/// `2^64`, as every in-memory payload's are.)
pub proof fn lemma_payload_bytes_injective(
    f1: Seq<u8>,
    c1: Seq<u8>,
    n1: Seq<u8>,
    a1: Seq<ValView>,
    nonce1: u64,
    f2: Seq<u8>,
    c2: Seq<u8>,
    n2: Seq<u8>,
    a2: Seq<ValView>,
    nonce2: u64,
)
    requires
        payload_bytes(f1, c1, n1, a1, nonce1) == payload_bytes(f2, c2, n2, a2, nonce2),
        c1.len() == 32,
        c2.len() == 32,
        f1.len() < pow256(8),
        f2.len() < pow256(8),
        n1.len() < pow256(8),
        n2.len() < pow256(8),
        a1.len() < pow256(8),
        a2.len() < pow256(8),
        args_encodable(a1),
        args_encodable(a2),
    ensures
        f1 == f2,
        c1 == c2,
        n1 == n2,
        a1 == a2,
        nonce1 == nonce2,
{
    lemma_pow256_values();
    lemma_le_bytes_len(f1.len(), 8);
    lemma_le_bytes_len(f2.len(), 8);
    lemma_le_bytes_len(n1.len(), 8);
    lemma_le_bytes_len(n2.len(), 8);
    lemma_le_bytes_len(nonce1 as nat, 8);
    lemma_le_bytes_len(nonce2 as nat, 8);
    lemma_le_bytes_len(a1.len(), 8);
    lemma_le_bytes_len(a2.len(), 8);
    let v1 = le_bytes(a1.len(), 8) + vals_bytes(a1);
    let v2 = le_bytes(a2.len(), 8) + vals_bytes(a2);
    let u1 = le_bytes(nonce1 as nat, 8) + v1;
    let u2 = le_bytes(nonce2 as nat, 8) + v2;
    let t1 = n1 + u1;
    let t2 = n2 + u2;
    let m1 = le_bytes(n1.len(), 8) + t1;
    let m2 = le_bytes(n2.len(), 8) + t2;
    assert(payload_bytes(f1, c1, n1, a1, nonce1) =~= le_bytes(f1.len(), 8) + (f1 + (c1 + m1)));
    assert(payload_bytes(f2, c2, n2, a2, nonce2) =~= le_bytes(f2.len(), 8) + (f2 + (c2 + m2)));
    lemma_split_equal(le_bytes(f1.len(), 8), f1 + (c1 + m1), le_bytes(f2.len(), 8), f2 + (c2 + m2));
    lemma_le_bytes_injective(f1.len(), f2.len(), 8);
    lemma_split_equal(f1, c1 + m1, f2, c2 + m2);
    lemma_split_equal(c1, m1, c2, m2);
    lemma_split_equal(le_bytes(n1.len(), 8), t1, le_bytes(n2.len(), 8), t2);
    lemma_le_bytes_injective(n1.len(), n2.len(), 8);
    lemma_split_equal(n1, u1, n2, u2);
    lemma_split_equal(le_bytes(nonce1 as nat, 8), v1, le_bytes(nonce2 as nat, 8), v2);
    lemma_le_bytes_injective(nonce1 as nat, nonce2 as nat, 8);
    lemma_split_equal(le_bytes(a1.len(), 8), vals_bytes(a1), le_bytes(a2.len(), 8), vals_bytes(a2));
    lemma_le_bytes_injective(a1.len(), a2.len(), 8);
    lemma_vals_bytes_injective(a1, a2);
}

/// Appends the `width` low-order bytes of `x`, least significant first.
fn push_le(out: &mut Vec<u8>, x: u128, width: usize)
    ensures
        final(out)@ == old(out)@ + le_bytes(x as nat, width as nat),
{
    let mut v: u128 = x;
    let mut i: usize = 0;
    while i < width
        invariant
            i <= width,
            out@ + le_bytes(v as nat, (width - i) as nat) == old(out)@ + le_bytes(x as nat, width as nat),
        decreases width - i,
    {
        let ghost before = out@;
        let ghost rest = le_bytes((v / 256) as nat, (width - i - 1) as nat);
        assert(le_bytes(v as nat, (width - i) as nat) == seq![(v % 256) as u8] + rest);
        out.push((v % 256) as u8);
        assert(out@ + rest =~= before + (seq![(v % 256) as u8] + rest));
        v = v / 256;
        i += 1;
    }
}

/// Appends the bytes of `b`.
fn push_all(out: &mut Vec<u8>, b: &Vec<u8>)
    ensures
        final(out)@ == old(out)@ + b@,
{
    let mut i: usize = 0;
    while i < b.len()
        invariant
            i <= b@.len(),
            out@ == old(out)@ + b@.subrange(0, i as int),
        decreases b@.len() - i,
    {
        out.push(b[i]);
        i += 1;
        assert(out@ =~= old(out)@ + b@.subrange(0, i as int));
    }
    assert(b@.subrange(0, b@.len() as int) =~= b@);
}

/// Appends `b` preceded by its length.
fn push_field(out: &mut Vec<u8>, b: &Vec<u8>)
    ensures
        final(out)@ == old(out)@ + field_bytes(b@),
{
    push_le(out, b.len() as u128, 8);
    push_all(out, b);
    assert(out@ =~= old(out)@ + field_bytes(b@));
}

/// The 128-bit two's complement of `n`.
fn i128_bits(n: i128) -> (r: u128)
    ensures
        r as nat == twos_complement(n),
{
    if n >= 0 {
        n as u128
    } else {
        let shifted: i128 = n + i128::MAX + 1;
        shifted as u128 + 0x8000_0000_0000_0000_0000_0000_0000_0000u128
    }
}

/// Appends the encoding of one argument.
fn push_val(out: &mut Vec<u8>, v: &Val)
    ensures
        final(out)@ == old(out)@ + val_bytes(v@),
{
    let ghost start = out@;
    match v {
        Val::Void => {
            out.push(0);
            assert(out@ =~= start + val_bytes(v@));
        },
        Val::U64(n) => {
            out.push(1);
            push_le(out, *n as u128, 8);
            assert(out@ =~= start + val_bytes(v@));
        },
        Val::I128(n) => {
            out.push(2);
            push_le(out, i128_bits(*n), 16);
            assert(out@ =~= start + val_bytes(v@));
        },
        Val::Bytes(b) => {
            out.push(3);
            push_field(out, b);
            assert(out@ =~= start + val_bytes(v@));
        },
    }
}

/// The byte encoding of `p`: the exact bytes whose digest is signed.
pub fn encode_payload(p: &SignablePayload) -> (r: Vec<u8>)
    ensures
        r@ == p.spec_bytes(),
{
    let mut out: Vec<u8> = Vec::new();
    push_field(&mut out, &p.function);
    push_all_array(&mut out, &p.contract.bytes);
    push_field(&mut out, &p.network);
    push_le(&mut out, p.nonce as u128, 8);
    push_le(&mut out, p.args.len() as u128, 8);
    let ghost head = out@;
    let mut i: usize = 0;
    while i < p.args.len()
        invariant
            i <= p.args@.len(),
            out@ == head + vals_bytes(val_views(p.args@).subrange(0, i as int)),
        decreases p.args@.len() - i,
    {
        let ghost prefix = val_views(p.args@).subrange(0, i as int);
        push_val(&mut out, &p.args[i]);
        i += 1;
        let ghost next = val_views(p.args@).subrange(0, i as int);
        assert(next.drop_last() =~= prefix);
        assert(out@ =~= head + vals_bytes(next));
    }
    assert(val_views(p.args@).subrange(0, p.args@.len() as int) =~= val_views(p.args@));
    assert(out@ =~= p.spec_bytes());
    out
}

/// Appends the 32 bytes of `b`.
fn push_all_array(out: &mut Vec<u8>, b: &[u8; 32])
    ensures
        final(out)@ == old(out)@ + b@,
{
    let mut i: usize = 0;
    while i < 32
        invariant
            i <= 32,
            b@.len() == 32,
            out@ == old(out)@ + b@.subrange(0, i as int),
        decreases 32 - i,
    {
        out.push(b[i]);
        i += 1;
        assert(out@ =~= old(out)@ + b@.subrange(0, i as int));
    }
    assert(b@.subrange(0, 32) =~= b@);
}

/// The 32-byte digest of `p` that signers sign.
pub fn signature_payload(p: &SignablePayload) -> (r: [u8; 32])
    ensures
        r@ == sha256_of(p.spec_bytes()),
{
    let bytes = encode_payload(p);
    sha256(bytes.as_slice())
}

} // verus!
