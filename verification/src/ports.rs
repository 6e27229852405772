//! Keys shared between the application services and their adapters.

use vstd::prelude::*;

verus! {

/// Cache key of a pre-rendered round-corner mask.
#[derive(Debug, Clone, Copy, PartialEq, Eq, Structural, Hash)]
pub struct MaskKey {
    pub width: u32,
    pub height: u32,
    pub radius: u32,
}

/// Cache key of a processed output image: `(sha256(source), sha256(dsl))`.
#[derive(Debug, Clone, Copy, PartialEq, Eq, Hash)]
pub struct CacheKey {
    pub content_hash: [u8; 32],
    pub dsl_hash: [u8; 32],
}

/// Lower-case hexadecimal digit of a nibble.
pub open spec fn hex_digit(n: nat) -> char {
    if n < 10 {
        ((48 + n) as u32) as char
    } else {
        ((87 + n) as u32) as char
    }
}

/// Two lower-case hex digits per byte, as `{:02x}` writes them.
pub open spec fn hex_string(b: Seq<u8>) -> Seq<char>
    decreases b.len(),
{
    if b.len() == 0 {
        Seq::empty()
    } else {
        hex_string(b.drop_last()) + seq![
            hex_digit((b.last() / 16) as nat),
            hex_digit((b.last() % 16) as nat),
        ]
    }
}

/// The strong ETag of a key: the hex of both hashes in double quotes.
pub open spec fn etag_text(k: CacheKey) -> Seq<char> {
    seq!['"'] + hex_string(k.content_hash@ + k.dsl_hash@) + seq!['"']
}

fn hex_piece(n: u8) -> (r: &'static str)
    requires
        n < 16,
    ensures
        r@ == seq![hex_digit(n as nat)],
{
    let digits = "0123456789abcdef";
    proof {
        reveal_strlit("0123456789abcdef");
    }
    let r = digits.substring_char(n as usize, (n + 1) as usize);
    proof {
        let c = digits@[n as int];
        if n < 10 {
            vstd::utf8::char_u32_cast(c, (48 + n) as u32);
        } else {
            vstd::utf8::char_u32_cast(c, (87 + n) as u32);
        }
        assert(r@ =~= seq![hex_digit(n as nat)]);
    }
    r
}

fn push_hex(out: &mut String, bytes: &[u8; 32])
    ensures
        final(out)@ == old(out)@ + hex_string(bytes@),
{
    let ghost start = out@;
    let mut i: usize = 0;
    proof {
        assert(bytes@.subrange(0, 0) =~= Seq::<u8>::empty());
        assert(out@ =~= start + hex_string(bytes@.subrange(0, 0)));
    }
    while i < 32
        invariant
            i <= 32,
            bytes@.len() == 32,
            out@ == start + hex_string(bytes@.subrange(0, i as int)),
        decreases 32 - i,
    {
        let b = bytes[i];
        out.append(hex_piece(b / 16));
        out.append(hex_piece(b % 16));
        proof {
            let pre = bytes@.subrange(0, i as int);
            let post = bytes@.subrange(0, i + 1);
            assert(post.drop_last() =~= pre);
            assert(post.last() == b);
            assert(out@ =~= start + hex_string(post));
        }
        i = i + 1;
    }
    proof {
        assert(bytes@.subrange(0, 32) =~= bytes@);
    }
}

proof fn lemma_hex_string_concat(a: Seq<u8>, b: Seq<u8>)
    ensures
        hex_string(a + b) == hex_string(a) + hex_string(b),
    decreases b.len(),
{
    if b.len() == 0 {
        assert(a + b =~= a);
        assert(hex_string(a) + hex_string(b) =~= hex_string(a));
    } else {
        lemma_hex_string_concat(a, b.drop_last());
        assert((a + b).drop_last() =~= a + b.drop_last());
        assert(hex_string(a + b) =~= hex_string(a) + hex_string(b));
    }
}

impl CacheKey {
    /// Strong ETag — hex of the full key. Stable across processes because
    /// it depends only on (input bytes, DSL string), not on time.
    pub fn etag(&self) -> (s: String)
        ensures
            s@ == etag_text(*self),
    {
        proof {
            reveal_strlit("\"");
        }
        let mut s = String::from_str("\"");
        push_hex(&mut s, &self.content_hash);
        push_hex(&mut s, &self.dsl_hash);
        s.append("\"");
        proof {
            lemma_hex_string_concat(self.content_hash@, self.dsl_hash@);
            assert(s@ =~= etag_text(*self));
        }
        s
    }
}

proof fn lemma_hex_string_shape(b: Seq<u8>)
    ensures
        hex_string(b).len() == 2 * b.len(),
        forall|i: int|
            0 <= i < b.len() ==> hex_string(b)[2 * i] == hex_digit((b[i] / 16) as nat) && hex_string(
                b,
            )[2 * i + 1] == hex_digit((b[i] % 16) as nat),
    decreases b.len(),
{
    if b.len() > 0 {
        let p = b.drop_last();
        lemma_hex_string_shape(p);
        assert forall|i: int| 0 <= i < b.len() implies hex_string(b)[2 * i] == hex_digit(
            (b[i] / 16) as nat,
        ) && hex_string(b)[2 * i + 1] == hex_digit((b[i] % 16) as nat) by {
            if i < p.len() {
                assert(p[i] == b[i]);
            }
        }
    }
}

proof fn lemma_hex_digit_injective(n: nat, m: nat)
    requires
        n < 16,
        m < 16,
        hex_digit(n) == hex_digit(m),
    ensures
        n == m,
{
    let a: u32 = if n < 10 { (48 + n) as u32 } else { (87 + n) as u32 };
    let b: u32 = if m < 10 { (48 + m) as u32 } else { (87 + m) as u32 };
    assert(hex_digit(n) == a as char);
    assert(hex_digit(m) == b as char);
    vstd::utf8::char_u32_cast(a as char, (a as char) as u32);
    assert((a as char) as u32 == a);
    assert((b as char) as u32 == b);
}

/// The ETag of every cache key is 130 characters long: two quotes around two
/// hex digits for each of the 64 key bytes.
pub proof fn etag_length(k: CacheKey)
    ensures
        etag_text(k).len() == 130,
{
    lemma_hex_string_shape(k.content_hash@ + k.dsl_hash@);
}

/// Distinct cache keys have distinct ETags: equal ETags mean equal hashes.
pub proof fn etag_identifies_key(k1: CacheKey, k2: CacheKey)
    requires
        etag_text(k1) == etag_text(k2),
    ensures
        k1.content_hash@ == k2.content_hash@,
        k1.dsl_hash@ == k2.dsl_hash@,
{
    let b1 = k1.content_hash@ + k1.dsl_hash@;
    let b2 = k2.content_hash@ + k2.dsl_hash@;
    lemma_hex_string_shape(b1);
    lemma_hex_string_shape(b2);
    let h1 = hex_string(b1);
    let h2 = hex_string(b2);
    assert(etag_text(k1).subrange(1, 129) =~= h1);
    assert(etag_text(k2).subrange(1, 129) =~= h2);
    assert forall|i: int| 0 <= i < 64 implies b1[i] == b2[i] by {
        assert(h1[2 * i] == h2[2 * i]);
        assert(h1[2 * i + 1] == h2[2 * i + 1]);
        lemma_hex_digit_injective((b1[i] / 16) as nat, (b2[i] / 16) as nat);
        lemma_hex_digit_injective((b1[i] % 16) as nat, (b2[i] % 16) as nat);
    }
    assert(k1.content_hash@ =~= b1.subrange(0, 32));
    assert(k2.content_hash@ =~= b2.subrange(0, 32));
    assert(k1.dsl_hash@ =~= b1.subrange(32, 64));
    assert(k2.dsl_hash@ =~= b2.subrange(32, 64));
    assert(b1 =~= b2);
}

} // verus!
