use vstd::prelude::*;

verus! {

/// A 256-bit caller identity. `hi` holds the sixteen most significant bytes,
/// `lo` the sixteen least significant ones.
#[derive(Clone, Copy, Debug, PartialEq, Eq, Structural)]
pub struct Identity {
    pub hi: u128,
    pub lo: u128,
}

/// A point in time, in microseconds since the Unix epoch.
#[derive(Clone, Copy, Debug, PartialEq, Eq, Structural)]
pub struct Timestamp {
    pub micros_since_unix_epoch: i64,
}

/// The lowercase hexadecimal digit for a value below sixteen.
pub open spec fn hex_char(n: u128) -> char {
    if n == 0 { '0' }
    else if n == 1 { '1' }
    else if n == 2 { '2' }
    else if n == 3 { '3' }
    else if n == 4 { '4' }
    else if n == 5 { '5' }
    else if n == 6 { '6' }
    else if n == 7 { '7' }
    else if n == 8 { '8' }
    else if n == 9 { '9' }
    else if n == 10 { 'a' }
    else if n == 11 { 'b' }
    else if n == 12 { 'c' }
    else if n == 13 { 'd' }
    else if n == 14 { 'e' }
    else { 'f' }
}

/// The `k`-th four-bit digit of a 128-bit word, the most significant first.
pub open spec fn word_nibble(x: u128, k: int) -> u128 {
    (x >> ((124 - 4 * k) as u128)) & 15u128
}

/// The `i`-th hexadecimal digit value of an identity (0 <= i < 64), most significant first.
pub open spec fn identity_nibble(id: Identity, i: int) -> u128 {
    if i < 32 {
        word_nibble(id.hi, i)
    } else {
        word_nibble(id.lo, i - 32)
    }
}

/// The 64-character lowercase hexadecimal rendering of an identity.
pub open spec fn hex_of(id: Identity) -> Seq<char> {
    Seq::new(64, |i: int| hex_char(identity_nibble(id, i)))
}

/// Lexicographic order on character sequences (by code point), the order in
/// which two strings compare with `<=`.
pub open spec fn lex_le(a: Seq<char>, b: Seq<char>) -> bool
    decreases a.len(),
{
    if a.len() == 0 {
        true
    } else if b.len() == 0 {
        false
    } else if (a[0] as int) < (b[0] as int) {
        true
    } else if (a[0] as int) > (b[0] as int) {
        false
    } else {
        lex_le(a.drop_first(), b.drop_first())
    }
}

/// The single-character string for a hexadecimal digit value.
fn hex_digit(n: u128) -> (s: &'static str)
    requires
        n < 16,
    ensures
        s@ == seq![hex_char(n)],
{
    if n == 0 {
        proof { reveal_strlit("0"); }
        "0"
    } else if n == 1 {
        proof { reveal_strlit("1"); }
        "1"
    } else if n == 2 {
        proof { reveal_strlit("2"); }
        "2"
    } else if n == 3 {
        proof { reveal_strlit("3"); }
        "3"
    } else if n == 4 {
        proof { reveal_strlit("4"); }
        "4"
    } else if n == 5 {
        proof { reveal_strlit("5"); }
        "5"
    } else if n == 6 {
        proof { reveal_strlit("6"); }
        "6"
    } else if n == 7 {
        proof { reveal_strlit("7"); }
        "7"
    } else if n == 8 {
        proof { reveal_strlit("8"); }
        "8"
    } else if n == 9 {
        proof { reveal_strlit("9"); }
        "9"
    } else if n == 10 {
        proof { reveal_strlit("a"); }
        "a"
    } else if n == 11 {
        proof { reveal_strlit("b"); }
        "b"
    } else if n == 12 {
        proof { reveal_strlit("c"); }
        "c"
    } else if n == 13 {
        proof { reveal_strlit("d"); }
        "d"
    } else if n == 14 {
        proof { reveal_strlit("e"); }
        "e"
    } else {
        proof { reveal_strlit("f"); }
        "f"
    }
}

/// The `k`-th hexadecimal digit value of a word, most significant first.
fn nibble_of(x: u128, k: u128) -> (n: u128)
    requires
        k < 32,
    ensures
        n == word_nibble(x, k as int),
        n < 16,
{
    let shift: u128 = 124 - 4 * k;
    let n = (x >> shift) & 15u128;
    assert(((x >> shift) & 15u128) < 16) by (bit_vector);
    n
}


/// Distinct digit values have distinct hexadecimal digits.
pub proof fn lemma_hex_char_injective(n: u128, m: u128)
    requires
        n < 16,
        m < 16,
        hex_char(n) == hex_char(m),
    ensures
        n == m,
{
}

/// A word is determined by its 32 hexadecimal digits.
pub proof fn lemma_word_nibbles_determine(x: u128, y: u128)
    requires
        forall|k: int| 0 <= k < 32 ==> word_nibble(x, k) == word_nibble(y, k),
    ensures
        x == y,
{
    assert(word_nibble(x, 0) == word_nibble(y, 0));
    assert(word_nibble(x, 1) == word_nibble(y, 1));
    assert(word_nibble(x, 2) == word_nibble(y, 2));
    assert(word_nibble(x, 3) == word_nibble(y, 3));
    assert(word_nibble(x, 4) == word_nibble(y, 4));
    assert(word_nibble(x, 5) == word_nibble(y, 5));
    assert(word_nibble(x, 6) == word_nibble(y, 6));
    assert(word_nibble(x, 7) == word_nibble(y, 7));
    assert(word_nibble(x, 8) == word_nibble(y, 8));
    assert(word_nibble(x, 9) == word_nibble(y, 9));
    assert(word_nibble(x, 10) == word_nibble(y, 10));
    assert(word_nibble(x, 11) == word_nibble(y, 11));
    assert(word_nibble(x, 12) == word_nibble(y, 12));
    assert(word_nibble(x, 13) == word_nibble(y, 13));
    assert(word_nibble(x, 14) == word_nibble(y, 14));
    assert(word_nibble(x, 15) == word_nibble(y, 15));
    assert(word_nibble(x, 16) == word_nibble(y, 16));
    assert(word_nibble(x, 17) == word_nibble(y, 17));
    assert(word_nibble(x, 18) == word_nibble(y, 18));
    assert(word_nibble(x, 19) == word_nibble(y, 19));
    assert(word_nibble(x, 20) == word_nibble(y, 20));
    assert(word_nibble(x, 21) == word_nibble(y, 21));
    assert(word_nibble(x, 22) == word_nibble(y, 22));
    assert(word_nibble(x, 23) == word_nibble(y, 23));
    assert(word_nibble(x, 24) == word_nibble(y, 24));
    assert(word_nibble(x, 25) == word_nibble(y, 25));
    assert(word_nibble(x, 26) == word_nibble(y, 26));
    assert(word_nibble(x, 27) == word_nibble(y, 27));
    assert(word_nibble(x, 28) == word_nibble(y, 28));
    assert(word_nibble(x, 29) == word_nibble(y, 29));
    assert(word_nibble(x, 30) == word_nibble(y, 30));
    assert(word_nibble(x, 31) == word_nibble(y, 31));
    assert(x == y) by (bit_vector)
        requires
            (x >> 124u128) & 15u128 == (y >> 124u128) & 15u128,
            (x >> 120u128) & 15u128 == (y >> 120u128) & 15u128,
            (x >> 116u128) & 15u128 == (y >> 116u128) & 15u128,
            (x >> 112u128) & 15u128 == (y >> 112u128) & 15u128,
            (x >> 108u128) & 15u128 == (y >> 108u128) & 15u128,
            (x >> 104u128) & 15u128 == (y >> 104u128) & 15u128,
            (x >> 100u128) & 15u128 == (y >> 100u128) & 15u128,
            (x >> 96u128) & 15u128 == (y >> 96u128) & 15u128,
            (x >> 92u128) & 15u128 == (y >> 92u128) & 15u128,
            (x >> 88u128) & 15u128 == (y >> 88u128) & 15u128,
            (x >> 84u128) & 15u128 == (y >> 84u128) & 15u128,
            (x >> 80u128) & 15u128 == (y >> 80u128) & 15u128,
            (x >> 76u128) & 15u128 == (y >> 76u128) & 15u128,
            (x >> 72u128) & 15u128 == (y >> 72u128) & 15u128,
            (x >> 68u128) & 15u128 == (y >> 68u128) & 15u128,
            (x >> 64u128) & 15u128 == (y >> 64u128) & 15u128,
            (x >> 60u128) & 15u128 == (y >> 60u128) & 15u128,
            (x >> 56u128) & 15u128 == (y >> 56u128) & 15u128,
            (x >> 52u128) & 15u128 == (y >> 52u128) & 15u128,
            (x >> 48u128) & 15u128 == (y >> 48u128) & 15u128,
            (x >> 44u128) & 15u128 == (y >> 44u128) & 15u128,
            (x >> 40u128) & 15u128 == (y >> 40u128) & 15u128,
            (x >> 36u128) & 15u128 == (y >> 36u128) & 15u128,
            (x >> 32u128) & 15u128 == (y >> 32u128) & 15u128,
            (x >> 28u128) & 15u128 == (y >> 28u128) & 15u128,
            (x >> 24u128) & 15u128 == (y >> 24u128) & 15u128,
            (x >> 20u128) & 15u128 == (y >> 20u128) & 15u128,
            (x >> 16u128) & 15u128 == (y >> 16u128) & 15u128,
            (x >> 12u128) & 15u128 == (y >> 12u128) & 15u128,
            (x >> 8u128) & 15u128 == (y >> 8u128) & 15u128,
            (x >> 4u128) & 15u128 == (y >> 4u128) & 15u128,
            (x >> 0u128) & 15u128 == (y >> 0u128) & 15u128,
    ;
}

/// Every hexadecimal digit value is below sixteen.
pub proof fn lemma_word_nibble_bound(x: u128, k: int)
    requires
        0 <= k < 32,
    ensures
        word_nibble(x, k) < 16,
{
    let shift = (124 - 4 * k) as u128;
    assert(((x >> shift) & 15u128) < 16) by (bit_vector);
}

/// Two identities with the same hexadecimal rendering are the same identity.
pub proof fn lemma_hex_injective(a: Identity, b: Identity)
    requires
        hex_of(a) == hex_of(b),
    ensures
        a == b,
{
    assert forall|k: int| 0 <= k < 32 implies word_nibble(a.hi, k) == word_nibble(b.hi, k) by {
        assert(hex_of(a)[k] == hex_of(b)[k]);
        assert(hex_of(a)[k] == hex_char(identity_nibble(a, k)));
        assert(hex_of(b)[k] == hex_char(identity_nibble(b, k)));
        assert(identity_nibble(a, k) == word_nibble(a.hi, k));
        assert(identity_nibble(b, k) == word_nibble(b.hi, k));
        lemma_word_nibble_bound(a.hi, k);
        lemma_word_nibble_bound(b.hi, k);
        lemma_hex_char_injective(word_nibble(a.hi, k), word_nibble(b.hi, k));
    }
    assert forall|k: int| 0 <= k < 32 implies word_nibble(a.lo, k) == word_nibble(b.lo, k) by {
        assert(hex_of(a)[k + 32] == hex_of(b)[k + 32]);
        assert(hex_of(a)[k + 32] == hex_char(identity_nibble(a, k + 32)));
        assert(hex_of(b)[k + 32] == hex_char(identity_nibble(b, k + 32)));
        assert(identity_nibble(a, k + 32) == word_nibble(a.lo, k));
        assert(identity_nibble(b, k + 32) == word_nibble(b.lo, k));
        lemma_word_nibble_bound(a.lo, k);
        lemma_word_nibble_bound(b.lo, k);
        lemma_hex_char_injective(word_nibble(a.lo, k), word_nibble(b.lo, k));
    }
    lemma_word_nibbles_determine(a.hi, b.hi);
    lemma_word_nibbles_determine(a.lo, b.lo);
}

/// Lexicographic order is antisymmetric.
pub proof fn lemma_lex_le_antisymmetric(a: Seq<char>, b: Seq<char>)
    requires
        lex_le(a, b),
        lex_le(b, a),
    ensures
        a == b,
    decreases a.len(),
{
    if a.len() == 0 {
        assert(b.len() == 0);
        assert(a =~= b);
    } else {
        assert(b.len() > 0);
        assert((a[0] as int) == (b[0] as int));
        lemma_lex_le_antisymmetric(a.drop_first(), b.drop_first());
        assert(a[0] == b[0]);
        assert(a =~= seq![a[0]] + a.drop_first());
        assert(b =~= seq![b[0]] + b.drop_first());
    }
}

/// Lexicographic order is total.
pub proof fn lemma_lex_le_total(a: Seq<char>, b: Seq<char>)
    ensures
        lex_le(a, b) || lex_le(b, a),
    decreases a.len(),
{
    if a.len() > 0 && b.len() > 0 {
        lemma_lex_le_total(a.drop_first(), b.drop_first());
    }
}

/// The pair ordered so that the identity whose hexadecimal form sorts first comes first.
pub open spec fn spec_normalize(a: Identity, b: Identity) -> (Identity, Identity) {
    if lex_le(hex_of(a), hex_of(b)) {
        (a, b)
    } else {
        (b, a)
    }
}

/// Normalizing is independent of the order of the two identities: whoever
/// initiates, a pair maps to the same ordered pair.
pub proof fn lemma_normalize_symmetric(a: Identity, b: Identity)
    ensures
        spec_normalize(a, b) == spec_normalize(b, a),
        spec_normalize(a, b) == (a, b) || spec_normalize(a, b) == (b, a),
{
    lemma_lex_le_total(hex_of(a), hex_of(b));
    if lex_le(hex_of(a), hex_of(b)) && lex_le(hex_of(b), hex_of(a)) {
        lemma_lex_le_antisymmetric(hex_of(a), hex_of(b));
        lemma_hex_injective(a, b);
    }
}

/// Normalizing a normalized pair changes nothing.
pub proof fn lemma_normalize_idempotent(a: Identity, b: Identity)
    ensures
        spec_normalize(spec_normalize(a, b).0, spec_normalize(a, b).1) == spec_normalize(a, b),
{
    lemma_lex_le_total(hex_of(a), hex_of(b));
}

/// Compares two strings lexicographically, as `a <= b` does.
pub fn str_lex_le(a: &str, b: &str) -> (r: bool)
    ensures
        r == lex_le(a@, b@),
{
    let la = a.unicode_len();
    let lb = b.unicode_len();
    let mut i: usize = 0;
    assert(a@.skip(0) =~= a@);
    assert(b@.skip(0) =~= b@);
    while i < la && i < lb
        invariant
            la == a@.len(),
            lb == b@.len(),
            i <= la,
            i <= lb,
            lex_le(a@, b@) == lex_le(a@.skip(i as int), b@.skip(i as int)),
        decreases la - i,
    {
        let ca = a.get_char(i);
        let cb = b.get_char(i);
        assert(a@.skip(i as int)[0] == ca);
        assert(b@.skip(i as int)[0] == cb);
        if (ca as u32) < (cb as u32) {
            return true;
        }
        if (ca as u32) > (cb as u32) {
            return false;
        }
        assert(a@.skip(i as int).drop_first() =~= a@.skip(i as int + 1));
        assert(b@.skip(i as int).drop_first() =~= b@.skip(i as int + 1));
        i = i + 1;
    }
    i == la
}

impl Identity {
    /// Renders the identity as 64 lowercase hexadecimal digits, most significant first.
    pub fn to_hex(&self) -> (s: String)
        ensures
            s@ == hex_of(*self),
    {
        let mut s = String::new();
        let mut i: u128 = 0;
        while i < 64
            invariant
                i <= 64,
                s@ =~= hex_of(*self).take(i as int),
            decreases 64 - i,
        {
            let n: u128 = if i < 32 {
                nibble_of(self.hi, i)
            } else {
                nibble_of(self.lo, i - 32)
            };
            assert(n == identity_nibble(*self, i as int));
            s.append(hex_digit(n));
            assert(hex_of(*self).take(i as int + 1) =~= hex_of(*self).take(i as int).push(
                hex_char(n),
            ));
            i = i + 1;
        }
        assert(hex_of(*self).take(64) =~= hex_of(*self));
        s
    }
}

} // verus!
