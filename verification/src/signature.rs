//! Ed25519 signatures as 64 plain bytes, and the byte image of a list of
//! signatures laid end to end, as transactions carry them on the wire.
use vstd::prelude::*;

verus! {

/// Number of bytes in a signature.
pub const SIGNATURE_BYTES: usize = 64;

/// A 64-byte Ed25519 signature.
#[derive(Debug, Clone, Copy, PartialEq, Eq)]
pub struct Signature(pub [u8; 64]);

impl View for Signature {
    type V = Seq<u8>;

    open spec fn view(&self) -> Seq<u8> {
        self.0@
    }
}

impl Signature {
    /// The signature with the given bytes.
    pub fn new(bytes: [u8; 64]) -> (r: Signature)
        ensures
            r@ == bytes@,
    {
        Signature(bytes)
    }

    /// The bytes of the signature.
    pub fn to_bytes(&self) -> (r: [u8; 64])
        ensures
            r@ == self@,
    {
        self.0
    }
}

impl Default for Signature {
    /// The all-zero signature.
    fn default() -> (r: Signature)
        ensures
            r@ == Seq::new(64, |i: int| 0u8),
    {
        let r = Signature([0u8; 64]);
        assert(r@ =~= Seq::new(64, |i: int| 0u8));
        r
    }
}

/// The views of a list of signatures.
pub open spec fn signature_views(sigs: Seq<Signature>) -> Seq<Seq<u8>> {
    sigs.map_values(|s: Signature| s@)
}

/// The signatures laid end to end, 64 bytes each.
pub open spec fn signatures_bytes(sigs: Seq<Signature>) -> Seq<u8> {
    Seq::new((64 * sigs.len()) as nat, |k: int| sigs[k / 64]@[k % 64])
}

/// Appending one signature appends its 64 bytes.
pub proof fn lemma_signatures_bytes_push(sigs: Seq<Signature>, s: Signature)
    ensures
        signatures_bytes(sigs.push(s)) =~= signatures_bytes(sigs) + s@,
{
    let n = sigs.len();
    let lhs = signatures_bytes(sigs.push(s));
    let rhs = signatures_bytes(sigs) + s@;
    assert(lhs.len() == rhs.len());
    assert forall|k: int| 0 <= k < lhs.len() implies lhs[k] == rhs[k] by {
        if k < 64 * n {
            assert(k / 64 < n);
        } else {
            assert(k / 64 == n);
            assert(k % 64 == k - 64 * n);
        }
    }
}

/// The byte image determines the signatures: lists of the same length with
/// the same bytes hold signatures with the same bytes, in the same order.
pub proof fn lemma_signatures_bytes_injective(a: Seq<Signature>, b: Seq<Signature>)
    requires
        a.len() == b.len(),
        signatures_bytes(a) == signatures_bytes(b),
    ensures
        signature_views(a) =~= signature_views(b),
{
    assert forall|i: int| 0 <= i < a.len() implies a[i]@ =~= b[i]@ by {
        assert forall|j: int| 0 <= j < 64 implies a[i]@[j] == b[i]@[j] by {
            let k = 64 * i + j;
            assert(k / 64 == i && k % 64 == j) by (nonlinear_arith)
                requires
                    k == 64 * i + j,
                    0 <= j < 64,
                    0 <= i,
            ;
            assert(0 <= k < 64 * a.len()) by (nonlinear_arith)
                requires
                    k == 64 * i + j,
                    0 <= j < 64,
                    0 <= i < a.len(),
            ;
            assert(signatures_bytes(a)[k] == a[i]@[j]);
            assert(signatures_bytes(b)[k] == b[i]@[j]);
        }
    }
}

/// Appends the bytes of `sigs`, in order, to `out`.
pub fn append_signatures_bytes(sigs: &[Signature], out: &mut Vec<u8>)
    ensures
        final(out)@ == old(out)@ + signatures_bytes(sigs@),
{
    let ghost start = out@;
    let mut i: usize = 0;
    assert(sigs@.take(0) =~= Seq::<Signature>::empty());
    assert(signatures_bytes(Seq::<Signature>::empty()) =~= Seq::<u8>::empty());
    assert(out@ =~= start + signatures_bytes(sigs@.take(0)));
    while i < sigs.len()
        invariant
            0 <= i <= sigs.len(),
            out@ == start + signatures_bytes(sigs@.take(i as int)),
        decreases sigs.len() - i,
    {
        let s = &sigs[i];
        let mut j: usize = 0;
        let ghost before = out@;
        while j < 64
            invariant
                0 <= j <= 64,
                out@ == before + s@.take(j as int),
            decreases 64 - j,
        {
            out.push(s.0[j]);
            j = j + 1;
            assert(out@ =~= before + s@.take(j as int));
        }
        proof {
            assert(s@.take(64) =~= s@);
            lemma_signatures_bytes_push(sigs@.take(i as int), *s);
            assert(sigs@.take(i as int).push(*s) =~= sigs@.take(i + 1));
        }
        i = i + 1;
    }
    assert(sigs@.take(sigs.len() as int) =~= sigs@);
}

/// Reads `count` signatures laid end to end in `bytes` from `start` on, or
/// `None` when the bytes run out first.
pub fn signatures_from_bytes(bytes: &[u8], start: usize, count: usize) -> (r: Option<
    Vec<Signature>,
>)
    ensures
        r is Some <==> start + 64 * count <= bytes@.len(),
        r matches Some(sigs) ==> {
            &&& sigs@.len() == count
            &&& signatures_bytes(sigs@) == bytes@.subrange(start as int, start + 64 * count)
        },
{
    if start > bytes.len() || count > (bytes.len() - start) / 64 {
        proof {
            if start <= bytes.len() {
                assert(64 * count > bytes.len() - start) by (nonlinear_arith)
                    requires
                        count > (bytes.len() - start) / 64,
                        bytes.len() >= start,
                ;
            }
        }
        return None;
    }
    assert(64 * count <= bytes.len() - start) by (nonlinear_arith)
        requires
            count <= (bytes.len() - start) / 64,
            bytes.len() >= start,
    ;
    let mut sigs: Vec<Signature> = Vec::new();
    let mut i: usize = 0;
    assert(signatures_bytes(sigs@) =~= bytes@.subrange(start as int, start as int));
    let blen = bytes.len();
    while i < count
        invariant
            0 <= i <= count,
            blen == bytes@.len(),
            start + 64 * count <= bytes@.len(),
            sigs@.len() == i,
            signatures_bytes(sigs@) == bytes@.subrange(start as int, start + 64 * i),
        decreases count - i,
    {
        assert(start + 64 * i + 64 <= start + 64 * count) by (nonlinear_arith)
            requires
                i < count,
        ;
        assert(start + 64 * i + 64 <= blen);
        let base = start + 64 * i;
        let mut a = [0u8; 64];
        let mut j: usize = 0;
        while j < 64
            invariant
                0 <= j <= 64,
                base + 64 <= blen,
                blen == bytes@.len(),
                a@.len() == 64,
                forall|t: int| 0 <= t < j ==> a@[t] == bytes@[base + t],
            decreases 64 - j,
        {
            a[j] = bytes[base + j];
            j = j + 1;
        }
        let s = Signature(a);
        proof {
            assert(s@ =~= bytes@.subrange(base as int, base + 64));
            lemma_signatures_bytes_push(sigs@, s);
            assert(bytes@.subrange(start as int, start + 64 * (i + 1)) =~= bytes@.subrange(
                start as int,
                start + 64 * i,
            ) + bytes@.subrange(base as int, base + 64));
        }
        sigs.push(s);
        i = i + 1;
    }
    Some(sigs)
}

} // verus!
