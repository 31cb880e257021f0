use rustc_hex::ToHex;
use vstd::prelude::*;

verus! {

/// The Keccak-256 digest of the UTF-8 bytes of a string.
pub uninterp spec fn keccak_of(s: Seq<char>) -> Seq<u8>;

/// Relies on tiny_keccak::keccak256: the 32-byte Keccak-256 digest of the
/// string's bytes, a function of those bytes alone.
#[verifier::external_body]
fn keccak256(s: &str) -> (r: [u8; 32])
    ensures
        r@ == keccak_of(s@),
{
    tiny_keccak::keccak256(s.as_bytes())
}

/// The lowercase hexadecimal digit of a value below sixteen.
pub open spec fn hex_digit(d: int) -> char {
    seq!['0', '1', '2', '3', '4', '5', '6', '7', '8', '9', 'a', 'b', 'c', 'd', 'e', 'f'][d]
}

/// Two lowercase hexadecimal digits per byte, high nibble first.
pub open spec fn hex_lower(b: Seq<u8>) -> Seq<char>
    decreases b.len(),
{
    if b.len() == 0 {
        Seq::empty()
    } else {
        hex_lower(b.drop_last()) + seq![
            hex_digit(b.last() as int / 16),
            hex_digit(b.last() as int % 16),
        ]
    }
}

/// Relies on rustc_hex::ToHex for byte slices: each byte becomes two
/// characters of "0123456789abcdef", high nibble first.
#[verifier::external_body]
fn to_hex(b: &[u8; 32]) -> (r: String)
    ensures
        r@ == hex_lower(b@),
{
    b[..].to_hex::<String>()
}

/// The items of `parts` with a comma between each two.
pub open spec fn join_comma(parts: Seq<Seq<char>>) -> Seq<char>
    decreases parts.len(),
{
    if parts.len() == 0 {
        Seq::empty()
    } else if parts.len() == 1 {
        parts[0]
    } else {
        join_comma(parts.drop_last()) + ","@ + parts.last()
    }
}

/// The canonical signature `name(type1,type2,...)`.
pub open spec fn signature_of(name: Seq<char>, kinds: Seq<Seq<char>>) -> Seq<char> {
    name + "("@ + join_comma(kinds) + ")"@
}

/// The signature hash: the Keccak-256 digest of the signature, in lowercase hex.
pub open spec fn hash_of(signature: Seq<char>) -> Seq<char> {
    hex_lower(keccak_of(signature))
}

/// Builds the canonical signature of an event from its name and the
/// Solidity type names of its parameters, in declaration order.
pub fn event_signature(name: &String, kinds: &Vec<String>) -> (r: String)
    ensures
        r@ == signature_of(name@, kinds@.map_values(|k: String| k@)),
{
    let ghost views = kinds@.map_values(|k: String| k@);
    let mut joined = String::new();
    let mut i: usize = 0;
    while i < kinds.len()
        invariant
            i <= kinds.len(),
            views == kinds@.map_values(|k: String| k@),
            joined@ == join_comma(views.take(i as int)),
        decreases kinds.len() - i,
    {
        proof {
            reveal_strlit(",");
            assert(views.take(i as int + 1).drop_last() =~= views.take(i as int));
        }
        if i > 0 {
            joined.append(",");
        }
        joined.append(kinds[i].as_str());
        i = i + 1;
    }
    assert(views.take(kinds.len() as int) =~= views);
    let mut r = name.clone();
    r.append("(");
    r.append(joined.as_str());
    r.append(")");
    r
}

/// The lowercase hex Keccak-256 digest of a signature.
pub fn signature_hash(signature: &String) -> (r: String)
    ensures
        r@ == hash_of(signature@),
        r@.len() == 64,
{
    let digest = keccak256(signature.as_str());
    proof {
        lemma_hex_len(digest@);
    }
    to_hex(&digest)
}

/// The hex form has two characters per byte.
pub proof fn lemma_hex_len(b: Seq<u8>)
    ensures
        hex_lower(b).len() == 2 * b.len(),
    decreases b.len(),
{
    if b.len() > 0 {
        lemma_hex_len(b.drop_last());
    }
}

/// Distinct values below sixteen have distinct digits.
proof fn lemma_hex_digit_injective(x: int, y: int)
    requires
        0 <= x < 16,
        0 <= y < 16,
        hex_digit(x) == hex_digit(y),
    ensures
        x == y,
{
    let digits = seq!['0', '1', '2', '3', '4', '5', '6', '7', '8', '9', 'a', 'b', 'c', 'd', 'e', 'f'];
    assert(digits[0] == '0' && digits[1] == '1' && digits[2] == '2' && digits[3] == '3');
    assert(digits[4] == '4' && digits[5] == '5' && digits[6] == '6' && digits[7] == '7');
    assert(digits[8] == '8' && digits[9] == '9' && digits[10] == 'a' && digits[11] == 'b');
    assert(digits[12] == 'c' && digits[13] == 'd' && digits[14] == 'e' && digits[15] == 'f');
}

/// The hex form loses nothing: equal hex strings come from equal bytes.
pub proof fn lemma_hex_injective(a: Seq<u8>, b: Seq<u8>)
    requires
        hex_lower(a) == hex_lower(b),
    ensures
        a == b,
    decreases a.len(),
{
    lemma_hex_len(a);
    lemma_hex_len(b);
    if a.len() > 0 {
        let ha = hex_lower(a);
        let n = ha.len() as int;
        lemma_hex_len(a.drop_last());
        lemma_hex_len(b.drop_last());
        assert(hex_lower(a.drop_last()) =~= ha.subrange(0, n - 2));
        assert(hex_lower(b.drop_last()) =~= ha.subrange(0, n - 2));
        lemma_hex_injective(a.drop_last(), b.drop_last());
        let x = a.last() as int;
        let y = b.last() as int;
        assert(ha[n - 2] == hex_digit(x / 16));
        assert(hex_lower(b)[n - 2] == hex_digit(y / 16));
        assert(ha[n - 1] == hex_digit(x % 16));
        assert(hex_lower(b)[n - 1] == hex_digit(y % 16));
        lemma_hex_digit_injective(x / 16, y / 16);
        lemma_hex_digit_injective(x % 16, y % 16);
        assert(x == 16 * (x / 16) + x % 16);
        assert(y == 16 * (y / 16) + y % 16);
        assert(a =~= a.drop_last().push(a.last()));
        assert(b =~= b.drop_last().push(b.last()));
    }
}

/// Two signatures with the same hash have the same Keccak-256 digest: the
/// hash identifies an event exactly as far as the digest does.
pub proof fn lemma_equal_hashes_equal_digests(s1: Seq<char>, s2: Seq<char>)
    requires
        hash_of(s1) == hash_of(s2),
    ensures
        keccak_of(s1) == keccak_of(s2),
{
    lemma_hex_injective(keccak_of(s1), keccak_of(s2));
}

} // verus!
