use vstd::prelude::*;

verus! {

/// 64-bit FNV-1a offset basis.
pub const FNV_OFFSET: u64 = 0xcbf29ce484222325;

/// 64-bit FNV-1a prime.
pub const FNV_PRIME: u64 = 0x100000001b3;

/// One FNV-1a step: fold byte `b` into the running state `h`.
pub open spec fn fnv1a_step(h: u64, b: u8) -> u64 {
    (h ^ (b as u64)).wrapping_mul(FNV_PRIME)
}

/// FNV-1a state after folding every byte of `bytes` into `h`, in order.
pub open spec fn fnv1a_fold(h: u64, bytes: Seq<u8>) -> u64
    decreases bytes.len(),
{
    if bytes.len() == 0 {
        h
    } else {
        fnv1a_step(fnv1a_fold(h, bytes.drop_last()), bytes.last())
    }
}

/// The eight little-endian bytes of `x`.
pub open spec fn le_bytes_of(x: u64) -> Seq<u8> {
    Seq::new(8, |i: int| ((x >> ((8 * i) as u64)) & 0xff) as u8)
}

/// The identifier of a post: the FNV-1a digest of the author's little-endian
/// bytes followed by the content bytes. Identity is content-addressed: it is
/// a pure function of `(author, content)` and of nothing else.
pub open spec fn post_id_of(author: u64, content: Seq<u8>) -> u64 {
    fnv1a_fold(fnv1a_fold(FNV_OFFSET, le_bytes_of(author)), content)
}

/// Content addressing is deterministic: byte-identical `(author, content)`
/// pairs always derive the identical post identifier, however many times and
/// in whatever ledger state the derivation is made.
pub proof fn lemma_post_id_deterministic(author1: u64, content1: Seq<u8>, author2: u64, content2: Seq<u8>)
    requires
        author1 == author2,
        content1 == content2,
    ensures
        post_id_of(author1, content1) == post_id_of(author2, content2),
{
}

/// Derives the post identifier for `content` written by `author`.
pub fn post_id(author: u64, content: &Vec<u8>) -> (r: u64)
    ensures
        r == post_id_of(author, content@),
{
    let mut h: u64 = FNV_OFFSET;
    let mut i: usize = 0;
    while i < 8
        invariant
            i <= 8,
            h == fnv1a_fold(FNV_OFFSET, le_bytes_of(author).take(i as int)),
        decreases 8 - i,
    {
        let sh: u64 = 8 * (i as u64);
        let b: u8 = ((author >> sh) & 0xff) as u8;
        proof {
            assert(le_bytes_of(author)[i as int] == b);
            assert(le_bytes_of(author).take(i + 1).drop_last() =~= le_bytes_of(author).take(i as int));
            assert(le_bytes_of(author).take(i + 1).last() == b);
        }
        h = (h ^ (b as u64)).wrapping_mul(FNV_PRIME);
        i = i + 1;
    }
    proof {
        assert(le_bytes_of(author).take(8) =~= le_bytes_of(author));
    }
    let ghost h_author = h;
    let mut j: usize = 0;
    while j < content.len()
        invariant
            j <= content@.len(),
            h == fnv1a_fold(h_author, content@.take(j as int)),
        decreases content@.len() - j,
    {
        let b: u8 = content[j];
        proof {
            assert(content@.take(j + 1).drop_last() =~= content@.take(j as int));
            assert(content@.take(j + 1).last() == b);
        }
        h = (h ^ (b as u64)).wrapping_mul(FNV_PRIME);
        j = j + 1;
    }
    proof {
        assert(content@.take(content@.len() as int) =~= content@);
    }
    h
}

} // verus!
