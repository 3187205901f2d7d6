use vstd::prelude::*;

verus! {

/// ASCII lower-casing of one character: the upstream persona-name
/// comparison is case-insensitive over the ASCII letters only.
pub open spec fn lower_char(c: char) -> char {
    if 'A' <= c && c <= 'Z' {
        ((c as u8) + 32) as char
    } else {
        c
    }
}

pub open spec fn lower_chars(s: Seq<char>) -> Seq<char> {
    s.map_values(|c: char| lower_char(c))
}

fn to_lower_char(c: char) -> (r: char)
    ensures
        r == lower_char(c),
{
    if 'A' <= c && c <= 'Z' {
        ((c as u8) + 32) as char
    } else {
        c
    }
}

/// The two strings are equal once both are ASCII lower-cased.
pub fn eq_ignore_ascii_case(a: &str, b: &str) -> (r: bool)
    ensures
        r == (lower_chars(a@) == lower_chars(b@)),
{
    let alen = a.unicode_len();
    let blen = b.unicode_len();
    if alen != blen {
        assert(lower_chars(a@).len() == a@.len());
        assert(lower_chars(b@).len() == b@.len());
        return false;
    }
    let mut i: usize = 0;
    while i < alen
        invariant
            i <= a@.len(),
            a@.len() == alen,
            b@.len() == alen,
            forall|k: int| 0 <= k < i ==> lower_char(a@[k]) == lower_char(b@[k]),
        decreases alen - i,
    {
        let ca = a.get_char(i);
        let cb = b.get_char(i);
        if to_lower_char(ca) != to_lower_char(cb) {
            assert(lower_chars(a@)[i as int] != lower_chars(b@)[i as int]);
            return false;
        }
        i += 1;
    }
    proof {
        assert(lower_chars(a@) =~= lower_chars(b@));
    }
    true
}

pub open spec fn is_digit_char(c: char) -> bool {
    '0' <= c && c <= '9'
}

pub open spec fn digit_val(c: char) -> int {
    c as int - 48
}

pub open spec fn all_digit_chars(s: Seq<char>) -> bool {
    forall|i: int| 0 <= i < s.len() ==> is_digit_char(#[trigger] s[i])
}

/// The numeric value of a digit string, most significant digit first.
pub open spec fn digits_value(s: Seq<char>) -> int
    decreases s.len(),
{
    if s.len() == 0 {
        0
    } else {
        digits_value(s.drop_last()) * 10 + digit_val(s.last())
    }
}

/// A decimal string may carry one leading plus sign, which the value
/// ignores.
pub open spec fn numeric_body(s: Seq<char>) -> Seq<char> {
    if s.len() > 0 && s[0] == '+' {
        s.drop_first()
    } else {
        s
    }
}

/// The strings accepted as unsigned 64-bit decimals: an optional
/// leading plus, then at least one digit, with a value in range.
pub open spec fn is_valid_u64_string(s: Seq<char>) -> bool {
    &&& numeric_body(s).len() > 0
    &&& all_digit_chars(numeric_body(s))
    &&& digits_value(numeric_body(s)) <= u64::MAX
}

pub open spec fn parsed_u64(s: Seq<char>) -> int {
    digits_value(numeric_body(s))
}

proof fn lemma_digits_value_nonneg(s: Seq<char>)
    requires
        all_digit_chars(s),
    ensures
        digits_value(s) >= 0,
    decreases s.len(),
{
    if s.len() > 0 {
        assert(all_digit_chars(s.drop_last())) by {
            assert(forall|i: int|
                0 <= i < s.drop_last().len() ==> #[trigger] s.drop_last()[i] == s[i]);
        }
        lemma_digits_value_nonneg(s.drop_last());
        assert(is_digit_char(s.last()));
    }
}

proof fn lemma_digits_value_prefix_le(s: Seq<char>, k: int)
    requires
        all_digit_chars(s),
        0 <= k <= s.len(),
    ensures
        digits_value(s.take(k)) <= digits_value(s),
    decreases s.len() - k,
{
    if k < s.len() {
        lemma_digits_value_prefix_le(s, k + 1);
        assert(s.take(k + 1).drop_last() =~= s.take(k));
        assert(s.take(k + 1).last() == s[k]);
        assert(all_digit_chars(s.take(k))) by {
            assert(forall|i: int| 0 <= i < k ==> #[trigger] s.take(k)[i] == s[i]);
        }
        lemma_digits_value_nonneg(s.take(k));
        assert(is_digit_char(s[k]));
        assert(digits_value(s.take(k + 1)) == digits_value(s.take(k)) * 10 + digit_val(s[k]));
        assert(digits_value(s.take(k)) * 10 >= digits_value(s.take(k)));
    } else {
        assert(s.take(k) =~= s);
    }
}

/// Parses a decimal string into an unsigned 64-bit value.
///
/// Returns `Some` exactly on the strings `is_valid_u64_string`
/// accepts, and then the digits' value; anything else (empty, a
/// non-digit character, a value out of range) gives `None`.
pub fn parse_u64(s: &str) -> (r: Option<u64>)
    ensures
        (r is Some) == is_valid_u64_string(s@),
        r matches Some(v) ==> v == parsed_u64(s@),
{
    let n = s.unicode_len();
    let start: usize = if n > 0 && s.get_char(0) == '+' {
        1
    } else {
        0
    };
    proof {
        assert(s@.subrange(start as int, s@.len() as int) =~= numeric_body(s@));
    }
    if start == n {
        assert(numeric_body(s@).len() == 0);
        return None;
    }
    let mut acc: u64 = 0;
    let mut i: usize = start;
    while i < n
        invariant
            start <= i <= n,
            n == s@.len(),
            start <= 1,
            s@.subrange(start as int, s@.len() as int) == numeric_body(s@),
            all_digit_chars(s@.subrange(start as int, i as int)),
            acc == digits_value(s@.subrange(start as int, i as int)),
        decreases n - i,
    {
        let c = s.get_char(i);
        let ghost pre = s@.subrange(start as int, i as int);
        proof {
            assert(s@.subrange(start as int, i + 1).drop_last() =~= pre);
            assert(s@.subrange(start as int, i + 1).last() == s@[i as int]);
        }
        if !('0' <= c && c <= '9') {
            assert(!is_valid_u64_string(s@)) by {
                assert(numeric_body(s@)[i - start] == s@[i as int]);
            }
            return None;
        }
        let d: u64 = ((c as u8) - 48) as u64;
        assert(d as int == digit_val(c));
        if acc > (u64::MAX - d) / 10 {
            // any longer digit string only grows the value, so the
            // whole input is out of range
            assert(acc * 10 + d > u64::MAX) by (nonlinear_arith)
                requires
                    acc > (u64::MAX - d) / 10,
                    d <= 9,
            ;
            assert(!is_valid_u64_string(s@)) by {
                if is_valid_u64_string(s@) {
                    let t = numeric_body(s@);
                    assert(t.take(i + 1 - start) =~= s@.subrange(start as int, i + 1));
                    lemma_digits_value_prefix_le(t, i + 1 - start);
                    assert(digits_value(s@.subrange(start as int, i + 1)) == acc * 10 + d);
                }
            }
            return None;
        }
        assert(acc * 10 + d <= u64::MAX) by (nonlinear_arith)
            requires
                acc <= (u64::MAX - d) / 10,
                d <= 9,
        ;
        acc = acc * 10 + d;
        i += 1;
    }
    proof {
        assert(s@.subrange(start as int, i as int) =~= numeric_body(s@));
    }
    Some(acc)
}

/// The decimal rendering of a non-negative value, no sign, no leading
/// zeros (a single zero renders as "0").
pub open spec fn dec_digit(d: int) -> char {
    ((48 + d) as u8) as char
}

pub open spec fn dec_chars(n: int) -> Seq<char>
    decreases n,
{
    if n < 10 {
        seq![dec_digit(if n >= 0 { n } else { 0 })]
    } else {
        dec_chars(n / 10).push(dec_digit(n % 10))
    }
}

/// Relies on `String::from_utf8`: ASCII bytes decode to the string of
/// exactly those characters.
#[verifier::external_body]
fn ascii_bytes_to_string(bytes: Vec<u8>) -> (r: String)
    requires
        forall|i: int| 0 <= i < bytes@.len() ==> bytes@[i] < 128,
    ensures
        r@ == bytes@.map_values(|b: u8| b as char),
{
    match String::from_utf8(bytes) {
        Ok(s) => s,
        Err(_) => String::new(),
    }
}

/// Renders a value in decimal.
pub fn u64_to_string(n: u64) -> (r: String)
    ensures
        r@ == dec_chars(n as int),
{
    let mut rev: Vec<u8> = Vec::new();
    let mut m: u64 = n;
    if m == 0 {
        rev.push(48);
        assert(rev@.map_values(|b: u8| b as char) =~= dec_chars(0));
        return ascii_bytes_to_string(rev);
    }
    while m > 0
        invariant
            0 <= m <= n,
            forall|k: int| 0 <= k < rev@.len() ==> 48 <= #[trigger] rev@[k] < 58,
            m > 0 ==> dec_chars(n as int) =~= dec_chars(m as int) + rev@.map_values(
                |b: u8| b as char,
            ).reverse(),
            m == 0 ==> rev@.len() > 0 && dec_chars(n as int) =~= rev@.map_values(
                |b: u8| b as char,
            ).reverse(),
        decreases m,
    {
        let ghost old_rev = rev@;
        let ghost old_m = m as int;
        let d: u8 = (m % 10) as u8 + 48;
        rev.push(d);
        m = m / 10;
        proof {
            let cm = rev@.map_values(|b: u8| b as char);
            assert(cm =~= old_rev.map_values(|b: u8| b as char).push(dec_digit(old_m % 10)));
            assert(cm.reverse() =~= seq![dec_digit(old_m % 10)] + old_rev.map_values(
                |b: u8| b as char,
            ).reverse());
            if old_m >= 10 {
                assert(dec_chars(old_m) == dec_chars(old_m / 10).push(dec_digit(old_m % 10)));
                assert(dec_chars(old_m) + old_rev.map_values(|b: u8| b as char).reverse()
                    =~= dec_chars(old_m / 10) + cm.reverse());
            } else {
                assert(dec_chars(old_m) =~= seq![dec_digit(old_m)]);
                assert(dec_chars(old_m) + old_rev.map_values(|b: u8| b as char).reverse()
                    =~= cm.reverse());
            }
        }
    }
    let mut bytes: Vec<u8> = Vec::new();
    let mut i: usize = rev.len();
    while i > 0
        invariant
            i <= rev@.len(),
            forall|k: int| 0 <= k < rev@.len() ==> 48 <= #[trigger] rev@[k] < 58,
            bytes@ =~= rev@.subrange(i as int, rev@.len() as int).reverse(),
        decreases i,
    {
        i -= 1;
        bytes.push(rev[i]);
        proof {
            let tail = rev@.subrange(i as int, rev@.len() as int);
            assert(tail[0] == rev@[i as int]);
            assert(tail.drop_first() =~= rev@.subrange(i + 1, rev@.len() as int));
            assert(tail.reverse() =~= tail.drop_first().reverse().push(tail[0]));
        }
    }
    proof {
        assert(rev@.subrange(0, rev@.len() as int) =~= rev@);
        assert(bytes@ =~= rev@.reverse());
        let lhs = rev@.reverse().map_values(|b: u8| b as char);
        let rhs = rev@.map_values(|b: u8| b as char).reverse();
        assert(lhs.len() == rhs.len());
        assert forall|k: int| 0 <= k < lhs.len() implies lhs[k] == rhs[k] by {
            assert(rev@.reverse()[k] == rev@[rev@.len() - 1 - k]);
        }
        assert(lhs =~= rhs);
    }
    ascii_bytes_to_string(bytes)
}

/// Lexicographic order on character sequences by code point; this is
/// the order the games listing is sorted in (by name).
pub open spec fn chars_le(a: Seq<char>, b: Seq<char>) -> bool
    decreases a.len(),
{
    if a.len() == 0 {
        true
    } else if b.len() == 0 {
        false
    } else if a[0] == b[0] {
        chars_le(a.drop_first(), b.drop_first())
    } else {
        a[0] < b[0]
    }
}

/// Compares two strings in the lexicographic order of their
/// characters' code points.
pub fn str_le(a: &str, b: &str) -> (r: bool)
    ensures
        r == chars_le(a@, b@),
{
    let alen = a.unicode_len();
    let blen = b.unicode_len();
    let mut i: usize = 0;
    proof {
        assert(a@.skip(0) =~= a@);
        assert(b@.skip(0) =~= b@);
    }
    while i < alen && i < blen
        invariant
            i <= a@.len(),
            i <= b@.len(),
            alen == a@.len(),
            blen == b@.len(),
            chars_le(a@, b@) == chars_le(a@.skip(i as int), b@.skip(i as int)),
        decreases alen - i,
    {
        let ca = a.get_char(i);
        let cb = b.get_char(i);
        proof {
            assert(a@.skip(i as int)[0] == a@[i as int]);
            assert(b@.skip(i as int)[0] == b@[i as int]);
            assert(a@.skip(i as int).drop_first() =~= a@.skip(i + 1));
            assert(b@.skip(i as int).drop_first() =~= b@.skip(i + 1));
        }
        if ca != cb {
            return ca < cb;
        }
        i += 1;
    }
    proof {
        if i >= alen {
            assert(a@.skip(i as int).len() == 0);
        } else {
            assert(b@.skip(i as int).len() == 0);
            assert(a@.skip(i as int).len() > 0);
        }
    }
    i >= alen
}

/// Exact string equality by characters.
pub fn str_eq(a: &str, b: &str) -> (r: bool)
    ensures
        r == (a@ == b@),
{
    let alen = a.unicode_len();
    let blen = b.unicode_len();
    if alen != blen {
        return false;
    }
    let mut i: usize = 0;
    while i < alen
        invariant
            i <= a@.len(),
            a@.len() == alen,
            b@.len() == alen,
            forall|k: int| 0 <= k < i ==> a@[k] == b@[k],
        decreases alen - i,
    {
        if a.get_char(i) != b.get_char(i) {
            return false;
        }
        i += 1;
    }
    proof {
        assert(a@ =~= b@);
    }
    true
}

/// Law: the name order is total.
pub proof fn lemma_chars_le_total(a: Seq<char>, b: Seq<char>)
    ensures
        chars_le(a, b) || chars_le(b, a),
    decreases a.len(),
{
    if a.len() > 0 && b.len() > 0 && a[0] == b[0] {
        lemma_chars_le_total(a.drop_first(), b.drop_first());
    }
}

/// Law: the name order is transitive.
pub proof fn lemma_chars_le_trans(a: Seq<char>, b: Seq<char>, c: Seq<char>)
    requires
        chars_le(a, b),
        chars_le(b, c),
    ensures
        chars_le(a, c),
    decreases a.len(),
{
    if a.len() > 0 && b.len() > 0 && c.len() > 0 {
        if a[0] == b[0] && b[0] == c[0] {
            lemma_chars_le_trans(a.drop_first(), b.drop_first(), c.drop_first());
        }
    }
}

} // verus!
