//! Names and template texts as sequences of characters: comparing two names,
//! building a template key, and reading a decimal weight.

use vstd::prelude::*;
use vstd::string::StringExecFns;
use vstd::string::StringSliceAdditionalSpecFns;
use vstd::utf8::encode_utf8;
use vstd::utf8::encode_utf8_decode_utf8;

verus! {

/// Lexicographic "at most" on two byte strings that agree before position `from`.
pub open spec fn bytes_le_from(a: Seq<u8>, b: Seq<u8>, from: int) -> bool
    decreases a.len() - from,
{
    if from < 0 || from >= a.len() {
        true
    } else if from >= b.len() {
        false
    } else if a[from] != b[from] {
        a[from] < b[from]
    } else {
        bytes_le_from(a, b, from + 1)
    }
}

/// The order of names: lexicographic on the bytes of their UTF-8 encoding.
pub open spec fn name_le(a: Seq<char>, b: Seq<char>) -> bool {
    bytes_le_from(encode_utf8(a), encode_utf8(b), 0)
}

/// Two byte strings agree on every position before `upto`.
pub open spec fn agree_before(a: Seq<u8>, b: Seq<u8>, upto: int) -> bool {
    &&& upto <= a.len()
    &&& upto <= b.len()
    &&& forall|k: int| 0 <= k < upto ==> a[k] == b[k]
}

proof fn lemma_bytes_le_reflexive(a: Seq<u8>, from: int)
    requires
        0 <= from,
    ensures
        bytes_le_from(a, a, from),
    decreases a.len() - from,
{
    if from < a.len() {
        lemma_bytes_le_reflexive(a, from + 1);
    }
}

proof fn lemma_bytes_le_antisymmetric(a: Seq<u8>, b: Seq<u8>, from: int)
    requires
        0 <= from,
        agree_before(a, b, from),
        bytes_le_from(a, b, from),
        bytes_le_from(b, a, from),
    ensures
        a == b,
    decreases a.len() - from,
{
    if from >= a.len() || from >= b.len() {
        assert(a =~= b);
    } else {
        lemma_bytes_le_antisymmetric(a, b, from + 1);
    }
}

proof fn lemma_bytes_le_transitive(a: Seq<u8>, b: Seq<u8>, c: Seq<u8>, from: int)
    requires
        0 <= from,
        agree_before(a, b, from),
        agree_before(b, c, from),
        bytes_le_from(a, b, from),
        bytes_le_from(b, c, from),
    ensures
        bytes_le_from(a, c, from),
    decreases a.len() - from,
{
    if from < a.len() && from < b.len() && from < c.len() && a[from] == b[from] && b[from]
        == c[from] {
        lemma_bytes_le_transitive(a, b, c, from + 1);
    }
}

proof fn lemma_bytes_le_total(a: Seq<u8>, b: Seq<u8>, from: int)
    requires
        0 <= from,
    ensures
        bytes_le_from(a, b, from) || bytes_le_from(b, a, from),
    decreases a.len() - from,
{
    if from < a.len() && from < b.len() && a[from] == b[from] {
        lemma_bytes_le_total(a, b, from + 1);
    }
}

/// Every name is at most itself.
pub proof fn lemma_name_le_reflexive(a: Seq<char>)
    ensures
        name_le(a, a),
{
    lemma_bytes_le_reflexive(encode_utf8(a), 0);
}

/// Two names that are each at most the other are the same name.
pub proof fn lemma_name_le_antisymmetric(a: Seq<char>, b: Seq<char>)
    requires
        name_le(a, b),
        name_le(b, a),
    ensures
        a == b,
{
    lemma_bytes_le_antisymmetric(encode_utf8(a), encode_utf8(b), 0);
    encode_utf8_decode_utf8(a);
    encode_utf8_decode_utf8(b);
}

/// The order of names is transitive.
pub proof fn lemma_name_le_transitive(a: Seq<char>, b: Seq<char>, c: Seq<char>)
    requires
        name_le(a, b),
        name_le(b, c),
    ensures
        name_le(a, c),
{
    lemma_bytes_le_transitive(encode_utf8(a), encode_utf8(b), encode_utf8(c), 0);
}

/// Of two names, one is at most the other.
pub proof fn lemma_name_le_total(a: Seq<char>, b: Seq<char>)
    ensures
        name_le(a, b) || name_le(b, a),
{
    lemma_bytes_le_total(encode_utf8(a), encode_utf8(b), 0);
}

/// Whether two names are the same sequence of characters.
pub fn names_equal(a: &str, b: &str) -> (same: bool)
    ensures
        same == (a@ == b@),
{
    let x = a.as_bytes();
    let y = b.as_bytes();
    proof {
        encode_utf8_decode_utf8(a@);
        encode_utf8_decode_utf8(b@);
    }
    if x.len() != y.len() {
        return false;
    }
    let mut i: usize = 0;
    while i < x.len()
        invariant
            i <= x.len(),
            x.len() == y.len(),
            x@ == a.spec_bytes(),
            y@ == b.spec_bytes(),
            forall|k: int| 0 <= k < i ==> x@[k] == y@[k],
        decreases x.len() - i,
    {
        if x[i] != y[i] {
            return false;
        }
        i += 1;
    }
    assert(x@ =~= y@);
    true
}

/// Whether name `a` is at most name `b` in the order of names.
pub fn name_at_most(a: &str, b: &str) -> (le: bool)
    ensures
        le == name_le(a@, b@),
{
    let x = a.as_bytes();
    let y = b.as_bytes();
    let mut i: usize = 0;
    while i < x.len() && i < y.len()
        invariant
            i <= x.len(),
            i <= y.len(),
            x@ == a.spec_bytes(),
            y@ == b.spec_bytes(),
            bytes_le_from(x@, y@, 0) == bytes_le_from(x@, y@, i as int),
        decreases x.len() - i,
    {
        if x[i] != y[i] {
            return x[i] < y[i];
        }
        i += 1;
    }
    i >= x.len()
}

/// The template key of a name and a suffix: the name, a hyphen and the suffix
/// (`ace` and `weight` give `ace-weight`).
pub open spec fn key_of(name: Seq<char>, suffix: Seq<char>) -> Seq<char> {
    name + "-"@ + suffix
}

/// Builds the template key of `name` and `suffix`.
pub fn template_key(name: &str, suffix: &str) -> (key: String)
    ensures
        key@ == key_of(name@, suffix@),
{
    let mut key = String::from_str(name);
    key.append("-");
    key.append(suffix);
    key
}

/// Whether a character is one of the ten ASCII digits.
pub open spec fn is_digit(c: char) -> bool {
    '0' <= c && c <= '9'
}

/// Whether a text is made of ASCII digits alone.
pub open spec fn all_digits(s: Seq<char>) -> bool {
    forall|i: int| 0 <= i < s.len() ==> is_digit(#[trigger] s[i])
}

/// The number that a text of ASCII digits writes in base ten; 0 for the empty text.
pub open spec fn digits_value(s: Seq<char>) -> int
    decreases s.len(),
{
    if s.len() == 0 {
        0
    } else {
        digits_value(s.drop_last()) * 10 + (s.last() as int - '0' as int)
    }
}

/// The number of leading sign characters of a text: 1 where it begins with `-` or `+`.
pub open spec fn sign_len(s: Seq<char>) -> int {
    if s.len() > 0 && (s[0] == '-' || s[0] == '+') {
        1
    } else {
        0
    }
}

/// The integer that a text writes: an optional sign, then one ASCII digit or more,
/// and nothing else. Any other text writes none.
pub open spec fn decimal_value(s: Seq<char>) -> Option<int> {
    let digits = s.skip(sign_len(s));
    if digits.len() == 0 || !all_digits(digits) {
        None
    } else if s[0] == '-' {
        Some(-digits_value(digits))
    } else {
        Some(digits_value(digits))
    }
}

/// The weight that a template text gives: the integer it writes where that fits
/// in an `isize`, and 0 for every other text.
pub open spec fn weight_of_text(s: Seq<char>) -> int {
    match decimal_value(s) {
        Some(v) => if isize::MIN <= v <= isize::MAX {
            v
        } else {
            0
        },
        None => 0,
    }
}

proof fn lemma_digits_value_grows(s: Seq<char>, k: int)
    requires
        0 <= k <= s.len(),
        all_digits(s),
    ensures
        0 <= digits_value(s.take(k)) <= digits_value(s),
    decreases s.len() - k,
{
    lemma_digits_value_nonnegative(s.take(k));
    if k < s.len() {
        let longer = s.take(k + 1);
        assert(longer.drop_last() =~= s.take(k));
        assert(is_digit(longer.last()));
        lemma_digits_value_grows(s, k + 1);
    } else {
        assert(s.take(k) =~= s);
    }
}

proof fn lemma_digits_value_nonnegative(s: Seq<char>)
    requires
        all_digits(s),
    ensures
        0 <= digits_value(s),
    decreases s.len(),
{
    if s.len() > 0 {
        assert(is_digit(s.last()));
        lemma_digits_value_nonnegative(s.drop_last());
    }
}

/// Reads the weight that a template text gives.
pub fn parse_weight(text: &str) -> (weight: isize)
    ensures
        weight == weight_of_text(text@),
{
    let mut first: bool = true;
    let mut negative: bool = false;
    let mut seen_digit: bool = false;
    let mut acc: i128 = 0;
    let ghost s = text@;
    let ghost start = sign_len(s);
    for c in it: text.chars()
        invariant
            it.seq() == s,
            s == text@,
            start == sign_len(s),
            first == (it.index() == 0),
            !first ==> start <= it.index(),
            !first ==> negative == (s[0] == '-'),
            first ==> !negative && !seen_digit && acc == 0,
            !first ==> seen_digit == (start < it.index()),
            !first ==> all_digits(s.subrange(start, it.index() as int)),
            !first ==> acc == digits_value(s.subrange(start, it.index() as int)),
            0 <= acc <= isize::MAX + 1,
    {
        let ghost i = it.index() as int;
        if first && (c == '-' || c == '+') {
            negative = c == '-';
            first = false;
            assert(s.subrange(start, i + 1) =~= Seq::<char>::empty());
            assert(digits_value(s.subrange(start, i + 1)) == 0);
        } else if '0' <= c && c <= '9' {
            let d: i128 = (c as u8 - '0' as u8) as i128;
            let ghost before = s.subrange(start, i);
            let ghost after = s.subrange(start, i + 1);
            proof {
                if first {
                    assert(before =~= Seq::<char>::empty());
                }
                assert(after.drop_last() =~= before);
                assert(after.last() == c);
                assert(d == c as int - '0' as int);
                assert(digits_value(before) == acc);
                assert(digits_value(after) == digits_value(before) * 10 + d);
                assert forall|k: int| 0 <= k < after.len() implies is_digit(
                    #[trigger] after[k],
                ) by {
                    if k < before.len() {
                        assert(after[k] == before[k]);
                    }
                }
            }
            acc = acc * 10 + d;
            first = false;
            seen_digit = true;
            if acc > isize::MAX as i128 + 1 {
                proof {
                    let digits = s.skip(start);
                    if all_digits(digits) {
                        assert(digits.take(i + 1 - start) =~= after);
                        lemma_digits_value_grows(digits, i + 1 - start);
                    }
                }
                return 0;
            }
        } else {
            proof {
                let digits = s.skip(start);
                assert(digits[i - start] == c);
            }
            return 0;
        }
    }
    proof {
        assert(s.subrange(start, s.len() as int) =~= s.skip(start));
    }
    if !seen_digit {
        0
    } else if negative {
        (-acc) as isize
    } else if acc > isize::MAX as i128 {
        0
    } else {
        acc as isize
    }
}

} // verus!
