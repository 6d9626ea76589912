use vstd::prelude::*;
use vstd::string::*;

verus! {

/// The bytes of a piece of text.
pub open spec fn text(s: &str) -> Seq<u8> {
    s.spec_bytes()
}

/// Whether `part` is exactly the text `word`.
pub fn is_word(part: &[u8], word: &str) -> (r: bool)
    ensures
        r == (part@ == text(word)),
{
    same_bytes(part, word.as_bytes())
}

/// Whether two byte strings are equal.
pub fn same_bytes(a: &[u8], b: &[u8]) -> (r: bool)
    ensures
        r == (a@ == b@),
{
    if a.len() != b.len() {
        return false;
    }
    let mut i: usize = 0;
    while i < a.len()
        invariant
            i <= a.len(),
            a.len() == b.len(),
            forall|j: int| 0 <= j < i ==> a@[j] == b@[j],
        decreases a.len() - i,
    {
        if a[i] != b[i] {
            assert(a@[i as int] != b@[i as int]);
            return false;
        }
        i += 1;
    }
    assert(a@ =~= b@);
    true
}

/// A copy of the bytes `s[from..to]`.
pub fn copy_range(s: &[u8], from: usize, to: usize) -> (r: Vec<u8>)
    requires
        from <= to <= s@.len(),
    ensures
        r@ == s@.subrange(from as int, to as int),
{
    let mut out: Vec<u8> = Vec::new();
    let mut i: usize = from;
    while i < to
        invariant
            from <= i <= to <= s@.len(),
            out@ == s@.subrange(from as int, i as int),
        decreases to - i,
    {
        out.push(s[i]);
        assert(out@ =~= s@.subrange(from as int, i + 1));
        i += 1;
    }
    out
}

// ORDER
// ================================================================================================

/// `a` comes strictly before `b` in the lexicographic order of byte strings,
/// in which a proper prefix comes before what it is a prefix of.
pub open spec fn precedes(a: Seq<u8>, b: Seq<u8>) -> bool
    decreases a.len(),
{
    if b.len() == 0 {
        false
    } else if a.len() == 0 {
        true
    } else if a[0] != b[0] {
        a[0] < b[0]
    } else {
        precedes(a.drop_first(), b.drop_first())
    }
}

/// No byte string comes before itself.
pub proof fn lemma_precedes_irreflexive(a: Seq<u8>)
    ensures
        !precedes(a, a),
    decreases a.len(),
{
    if a.len() > 0 {
        lemma_precedes_irreflexive(a.drop_first());
    }
}

/// Of two distinct byte strings exactly one comes before the other.
pub proof fn lemma_precedes_total(a: Seq<u8>, b: Seq<u8>)
    ensures
        a == b || precedes(a, b) || precedes(b, a),
        !(precedes(a, b) && precedes(b, a)),
    decreases a.len(),
{
    if a.len() > 0 && b.len() > 0 {
        lemma_precedes_total(a.drop_first(), b.drop_first());
        if a[0] == b[0] && a.drop_first() == b.drop_first() {
            assert(a =~= seq![a[0]] + a.drop_first());
            assert(b =~= seq![b[0]] + b.drop_first());
        }
    } else if a.len() == 0 && b.len() == 0 {
        assert(a =~= b);
    }
}

/// The order is transitive.
pub proof fn lemma_precedes_transitive(a: Seq<u8>, b: Seq<u8>, c: Seq<u8>)
    requires
        precedes(a, b),
        precedes(b, c),
    ensures
        precedes(a, c),
    decreases a.len(),
{
    if a.len() > 0 && a[0] == b[0] && b[0] == c[0] {
        lemma_precedes_transitive(a.drop_first(), b.drop_first(), c.drop_first());
    }
}

/// Whether `a` comes strictly before `b`.
pub fn comes_before(a: &[u8], b: &[u8]) -> (r: bool)
    ensures
        r == precedes(a@, b@),
{
    let mut i: usize = 0;
    assert(a@.skip(0) =~= a@ && b@.skip(0) =~= b@);
    loop
        invariant
            i <= a.len(),
            i <= b.len(),
            precedes(a@, b@) == precedes(a@.skip(i as int), b@.skip(i as int)),
        decreases a.len() - i,
    {
        if i == b.len() {
            return false;
        }
        if i == a.len() {
            return true;
        }
        if a[i] != b[i] {
            return a[i] < b[i];
        }
        assert(a@.skip(i as int).drop_first() =~= a@.skip(i + 1));
        assert(b@.skip(i as int).drop_first() =~= b@.skip(i + 1));
        i += 1;
    }
}

// NUMBERS
// ================================================================================================

/// The value of the digit `b` in the given radix, 10 or 16.
pub open spec fn digit_value(b: u8, radix: nat) -> Option<nat> {
    if 48 <= b <= 57 {
        Some((b - 48) as nat)
    } else if radix == 16 && 97 <= b <= 102 {
        Some((b - 87) as nat)
    } else if radix == 16 && 65 <= b <= 70 {
        Some((b - 55) as nat)
    } else {
        None
    }
}

/// Every byte of `s` is a digit of the radix.
pub open spec fn all_digits(s: Seq<u8>, radix: nat) -> bool {
    forall|i: int| 0 <= i < s.len() ==> (#[trigger] digit_value(s[i], radix)) is Some
}

/// The number that the digits `s` write, most significant first.
pub open spec fn digits_value(s: Seq<u8>, radix: nat) -> nat
    decreases s.len(),
{
    if s.len() == 0 {
        0
    } else {
        digits_value(s.drop_last(), radix) * radix + digit_value(s.last(), radix).unwrap()
    }
}

/// The number that `s` writes: an optional `+`, then one or more digits and
/// nothing else. Leading zeros are digits like any other.
pub open spec fn number_value(s: Seq<u8>, radix: nat) -> Option<nat> {
    let digits = if s.len() > 0 && s[0] == 43 {
        s.subrange(1, s.len() as int)
    } else {
        s
    };
    if digits.len() > 0 && all_digits(digits, radix) {
        Some(digits_value(digits, radix))
    } else {
        None
    }
}

/// The number that `s` writes, where it lies in `lo..=hi`.
pub open spec fn number_in_range(s: Seq<u8>, radix: nat, lo: nat, hi: nat) -> Option<nat> {
    match number_value(s, radix) {
        Some(v) => if lo <= v <= hi {
            Some(v)
        } else {
            None
        },
        None => None,
    }
}

/// A number is at least what any prefix of its digits writes.
pub proof fn lemma_digits_prefix(s: Seq<u8>, k: int, radix: nat)
    requires
        0 <= k <= s.len(),
        radix == 10 || radix == 16,
    ensures
        digits_value(s.take(k), radix) <= digits_value(s, radix),
    decreases s.len(),
{
    if k == s.len() {
        assert(s.take(k) =~= s);
    } else {
        lemma_digits_prefix(s.drop_last(), k, radix);
        assert(s.drop_last().take(k) =~= s.take(k));
    }
}

fn digit_of(b: u8, radix: u64) -> (r: Option<u64>)
    requires
        radix == 10 || radix == 16,
    ensures
        r is Some == digit_value(b, radix as nat) is Some,
        r matches Some(d) ==> d == digit_value(b, radix as nat).unwrap() && d < radix,
{
    if 48 <= b && b <= 57 {
        Some((b - 48) as u64)
    } else if radix == 16 && 97 <= b && b <= 102 {
        Some((b - 87) as u64)
    } else if radix == 16 && 65 <= b && b <= 70 {
        Some((b - 55) as u64)
    } else {
        None
    }
}

/// Reads `s` as a number in the given radix and returns it where it lies in
/// `lo..=hi`.
pub fn parse_number(s: &[u8], radix: u64, lo: u64, hi: u64) -> (r: Option<u64>)
    requires
        radix == 10 || radix == 16,
    ensures
        r == match number_in_range(s@, radix as nat, lo as nat, hi as nat) {
            Some(v) => Some(v as u64),
            None => None,
        },
{
    let start: usize = if s.len() > 0 && s[0] == 43 { 1 } else { 0 };
    if start == s.len() {
        return None;
    }
    let ghost digits = s@.subrange(start as int, s@.len() as int);
    assert(start == 0 ==> digits =~= s@);
    let mut value: u64 = 0;
    let mut i: usize = start;
    while i < s.len()
        invariant
            start <= i <= s.len(),
            radix == 10 || radix == 16,
            digits == s@.subrange(start as int, s@.len() as int),
            digits.len() > 0,
            digits == if s@.len() > 0 && s@[0] == 43 {
                s@.subrange(1, s@.len() as int)
            } else {
                s@
            },
            all_digits(digits.take(i - start), radix as nat),
            value == digits_value(digits.take(i - start), radix as nat),
            value <= hi,
        decreases s.len() - i,
    {
        let ghost k = i - start;
        assert(digits[k] == s@[i as int]);
        assert(digits.take(k + 1).drop_last() =~= digits.take(k));
        assert(digits.take(k + 1).last() == digits[k]);
        match digit_of(s[i], radix) {
            None => {
                return None;
            },
            Some(d) => {
                let wide: u128 = if radix == 10 {
                    value as u128 * 10 + d as u128
                } else {
                    value as u128 * 16 + d as u128
                };
                assert(wide == digits_value(digits.take(k + 1), radix as nat));
                if wide > hi as u128 {
                    proof {
                        if all_digits(digits, radix as nat) {
                            lemma_digits_prefix(digits, k + 1, radix as nat);
                        }
                    }
                    return None;
                }
                value = wide as u64;
                assert forall|j: int| 0 <= j < k + 1 implies (#[trigger] digit_value(
                    digits.take(k + 1)[j],
                    radix as nat,
                )) is Some by {
                    if j < k {
                        assert(digits.take(k + 1)[j] == digits.take(k)[j]);
                    }
                }
            },
        }
        i += 1;
    }
    assert(digits.take(i - start) =~= digits);
    if value < lo {
        None
    } else {
        Some(value)
    }
}

/// The depth that `s` writes as a literal: one decimal digit, or two of which
/// the first is not `0`. Signs and leading zeros make no literal.
pub open spec fn depth_literal(s: Seq<u8>) -> Option<nat> {
    if s.len() == 1 && 48 <= s[0] <= 57 {
        Some((s[0] - 48) as nat)
    } else if s.len() == 2 && 49 <= s[0] <= 57 && 48 <= s[1] <= 57 {
        Some((10 * (s[0] - 48) + (s[1] - 48)) as nat)
    } else {
        None
    }
}

/// Reads `s` as a depth literal.
pub fn read_depth(s: &[u8]) -> (r: Option<u8>)
    ensures
        r == match depth_literal(s@) {
            Some(d) => Some(d as u8),
            None => None,
        },
        r matches Some(d) ==> d <= 99,
{
    if s.len() == 1 && 48 <= s[0] && s[0] <= 57 {
        Some(s[0] - 48)
    } else if s.len() == 2 && 49 <= s[0] && s[0] <= 57 && 48 <= s[1] && s[1] <= 57 {
        Some(10 * (s[0] - 48) + (s[1] - 48))
    } else {
        None
    }
}

// LABELS
// ================================================================================================

/// A byte that may stand in a label: an ASCII letter, a digit or `_`.
pub open spec fn is_label_byte(b: u8) -> bool {
    (48 <= b <= 57) || (65 <= b <= 90) || (97 <= b <= 122) || b == 95
}

/// A label is one or more label bytes.
pub open spec fn is_label(s: Seq<u8>) -> bool {
    s.len() > 0 && forall|i: int| 0 <= i < s.len() ==> is_label_byte(#[trigger] s[i])
}

fn label_byte(b: u8) -> (r: bool)
    ensures
        r == is_label_byte(b),
{
    (48 <= b && b <= 57) || (65 <= b && b <= 90) || (97 <= b && b <= 122) || b == 95
}

/// Whether `s` is a label.
pub fn check_label(s: &[u8]) -> (r: bool)
    ensures
        r == is_label(s@),
{
    if s.len() == 0 {
        return false;
    }
    let mut i: usize = 0;
    while i < s.len()
        invariant
            i <= s.len(),
            forall|j: int| 0 <= j < i ==> is_label_byte(#[trigger] s@[j]),
        decreases s.len() - i,
    {
        if !label_byte(s[i]) {
            return false;
        }
        i += 1;
    }
    true
}

} // verus!
