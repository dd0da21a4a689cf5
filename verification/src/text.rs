//! Text comparison and number formatting used by the catalogue.
use vstd::prelude::*;

verus! {

/// Strict lexicographic order on character sequences, comparing code points
/// from position `i` on.
pub open spec fn text_lt_from(a: Seq<char>, b: Seq<char>, i: nat) -> bool
    decreases a.len() - i,
{
    if i >= a.len() {
        i < b.len()
    } else if i >= b.len() {
        false
    } else if a[i as int] != b[i as int] {
        (a[i as int] as int) < (b[i as int] as int)
    } else {
        text_lt_from(a, b, i + 1)
    }
}

/// Strict lexicographic order on texts (the order in which SQLite's binary
/// collation and Rust's `str` ordering sort UTF-8 text).
pub open spec fn text_lt(a: Seq<char>, b: Seq<char>) -> bool {
    text_lt_from(a, b, 0)
}

/// `a` sorts no later than `b`.
pub open spec fn text_le(a: Seq<char>, b: Seq<char>) -> bool {
    !text_lt(b, a)
}

/// Decides `text_lt(a@, b@)`.
pub fn text_less(a: &str, b: &str) -> (r: bool)
    ensures
        r == text_lt(a@, b@),
{
    let la = a.unicode_len();
    let lb = b.unicode_len();
    let mut i: usize = 0;
    while i < la && i < lb
        invariant
            la == a@.len(),
            lb == b@.len(),
            i <= la,
            i <= lb,
            text_lt(a@, b@) == text_lt_from(a@, b@, i as nat),
        decreases la - i,
    {
        let ca = a.get_char(i);
        let cb = b.get_char(i);
        if ca != cb {
            return (ca as u32) < (cb as u32);
        }
        i = i + 1;
    }
    i < lb
}


/// Decides whether two texts hold the same characters.
pub fn text_equal(a: &str, b: &str) -> (r: bool)
    ensures
        r == (a@ == b@),
{
    let la = a.unicode_len();
    let lb = b.unicode_len();
    if la != lb {
        return false;
    }
    let mut i: usize = 0;
    while i < la
        invariant
            la == a@.len(),
            lb == b@.len(),
            la == lb,
            i <= la,
            forall|j: int| 0 <= j < i ==> a@[j] == b@[j],
        decreases la - i,
    {
        if a.get_char(i) != b.get_char(i) {
            return false;
        }
        i = i + 1;
    }
    assert(a@ =~= b@);
    true
}

pub proof fn lemma_text_lt_from_irreflexive(a: Seq<char>, i: nat)
    ensures
        !text_lt_from(a, a, i),
    decreases a.len() - i,
{
    if i < a.len() {
        lemma_text_lt_from_irreflexive(a, i + 1);
    }
}

pub proof fn lemma_text_lt_from_transitive(a: Seq<char>, b: Seq<char>, c: Seq<char>, i: nat)
    requires
        text_lt_from(a, b, i),
        text_lt_from(b, c, i),
    ensures
        text_lt_from(a, c, i),
    decreases a.len() - i,
{
    if i < a.len() && i < b.len() && i < c.len() && a[i as int] == b[i as int] && b[i as int]
        == c[i as int] {
        lemma_text_lt_from_transitive(a, b, c, i + 1);
    }
}

pub proof fn lemma_text_lt_from_total(a: Seq<char>, b: Seq<char>, i: nat)
    requires
        i <= a.len(),
        i <= b.len(),
        forall|j: int| 0 <= j < i ==> a[j] == b[j],
    ensures
        text_lt_from(a, b, i) || text_lt_from(b, a, i) || a == b,
    decreases a.len() - i,
{
    if i < a.len() && i < b.len() && a[i as int] == b[i as int] {
        lemma_text_lt_from_total(a, b, i + 1);
    } else if i == a.len() && i == b.len() {
        assert(a =~= b);
    } else if i < a.len() && i < b.len() {
        assert((a[i as int] as int) != (b[i as int] as int));
    }
}

/// `text_lt` is a strict total order.
pub proof fn lemma_text_order(a: Seq<char>, b: Seq<char>, c: Seq<char>)
    ensures
        !text_lt(a, a),
        text_lt(a, b) && text_lt(b, c) ==> text_lt(a, c),
        text_lt(a, b) || text_lt(b, a) || a == b,
        text_lt(a, b) ==> !text_lt(b, a),
{
    lemma_text_lt_from_irreflexive(a, 0);
    if text_lt(a, b) && text_lt(b, c) {
        lemma_text_lt_from_transitive(a, b, c, 0);
    }
    if text_lt(a, b) && text_lt(b, a) {
        lemma_text_lt_from_transitive(a, b, a, 0);
    }
    lemma_text_lt_from_total(a, b, 0);
}


/// `text_le` is transitive.
pub proof fn lemma_text_le_transitive(a: Seq<char>, b: Seq<char>, c: Seq<char>)
    requires
        text_le(a, b),
        text_le(b, c),
    ensures
        text_le(a, c),
{
    lemma_text_order(a, b, c);
    lemma_text_order(c, a, b);
    lemma_text_order(b, c, a);
    lemma_text_order(c, b, a);
}

/// The character of a decimal digit.
pub open spec fn digit_char(d: nat) -> char {
    seq!['0', '1', '2', '3', '4', '5', '6', '7', '8', '9'][d as int]
}

/// Decimal notation of a natural number, without leading zeros.
pub open spec fn decimal(n: nat) -> Seq<char>
    decreases n,
{
    if n < 10 {
        seq![digit_char(n)]
    } else {
        decimal(n / 10).push(digit_char(n % 10))
    }
}

/// The one-character text of a decimal digit.
fn digit_text(d: usize) -> (t: &'static str)
    requires
        d < 10,
    ensures
        t@ == seq![digit_char(d as nat)],
{
    let t = if d == 0 {
        "0"
    } else if d == 1 {
        "1"
    } else if d == 2 {
        "2"
    } else if d == 3 {
        "3"
    } else if d == 4 {
        "4"
    } else if d == 5 {
        "5"
    } else if d == 6 {
        "6"
    } else if d == 7 {
        "7"
    } else if d == 8 {
        "8"
    } else {
        "9"
    };
    proof {
        reveal_strlit("0");
        reveal_strlit("1");
        reveal_strlit("2");
        reveal_strlit("3");
        reveal_strlit("4");
        reveal_strlit("5");
        reveal_strlit("6");
        reveal_strlit("7");
        reveal_strlit("8");
        reveal_strlit("9");
        assert(t@ =~= seq![digit_char(d as nat)]);
    }
    t
}

/// Writes a count in decimal, without sign or leading zeros.
pub(crate) fn count_text(n: usize) -> (r: String)
    ensures
        r@ == decimal(n as nat),
    decreases n,
{
    if n < 10 {
        String::from_str(digit_text(n))
    } else {
        let mut s = count_text(n / 10);
        s.append(digit_text(n % 10));
        proof {
            assert(s@ =~= decimal((n / 10) as nat).push(digit_char((n % 10) as nat)));
        }
        s
    }
}

pub open spec fn is_digit(c: char) -> bool {
    48 <= (c as int) <= 57
}

/// Value of a run of decimal digits.
pub open spec fn digits_value(s: Seq<char>) -> int
    decreases s.len(),
{
    if s.len() == 0 {
        0
    } else {
        digits_value(s.drop_last()) * 10 + ((s.last() as int) - 48)
    }
}

/// Every character is an ASCII digit.
pub open spec fn all_digits(b: Seq<char>) -> bool {
    forall|i: int| 0 <= i < b.len() ==> is_digit(#[trigger] b[i])
}

/// The text after an optional leading `+` or `-`.
pub open spec fn unsigned_part(s: Seq<char>) -> Seq<char> {
    if s.len() > 0 && (s[0] == '-' || s[0] == '+') {
        s.drop_first()
    } else {
        s
    }
}

/// The grammar of `i32`'s `FromStr`: an optional `+` or `-`, then one or
/// more ASCII digits, with a value inside the range of `i32`.
pub open spec fn parse_i32_text(s: Seq<char>) -> Option<i32> {
    let negative = s.len() > 0 && s[0] == '-';
    let body = unsigned_part(s);
    if body.len() == 0 || !all_digits(body) {
        None
    } else {
        let v = if negative {
            -digits_value(body)
        } else {
            digits_value(body)
        };
        if i32::MIN <= v <= i32::MAX {
            Some(v as i32)
        } else {
            None
        }
    }
}

/// A run of digits has a value of at least zero.
pub proof fn lemma_digits_value_nonneg(b: Seq<char>)
    requires
        forall|i: int| 0 <= i < b.len() ==> is_digit(#[trigger] b[i]),
    ensures
        digits_value(b) >= 0,
    decreases b.len(),
{
    if b.len() > 0 {
        lemma_digits_value_nonneg(b.drop_last());
        assert(is_digit(b[b.len() - 1]));
    }
}

/// A run of digits is worth at least any of its prefixes.
pub proof fn lemma_digits_value_prefix(b: Seq<char>, k: int)
    requires
        0 <= k <= b.len(),
        forall|i: int| 0 <= i < b.len() ==> is_digit(#[trigger] b[i]),
    ensures
        digits_value(b.take(k)) <= digits_value(b),
    decreases b.len(),
{
    if k == b.len() {
        assert(b.take(k) =~= b);
    } else {
        let p = b.drop_last();
        assert(forall|i: int| 0 <= i < p.len() ==> p[i] == b[i]);
        lemma_digits_value_prefix(p, k);
        assert(p.take(k) =~= b.take(k));
        lemma_digits_value_nonneg(p);
        assert(is_digit(b[b.len() - 1]));
    }
}

/// Reads an `i32` written in decimal: an optional `+` or `-`, then one or
/// more ASCII digits, with a value inside the range of `i32` (the grammar
/// of `i32`'s `FromStr`).
pub(crate) fn parse_i32(s: &str) -> (r: Option<i32>)
    ensures
        r == parse_i32_text(s@),
{
    let n = s.unicode_len();
    if n == 0 {
        return None;
    }
    let c0 = s.get_char(0);
    let negative = c0 == '-';
    let signed = c0 == '-' || c0 == '+';
    let start: usize = if signed { 1 } else { 0 };
    let ghost body = unsigned_part(s@);
    proof {
        assert(body =~= s@.subrange(start as int, n as int));
    }
    if start == n {
        return None;
    }
    let mut acc: i64 = 0;
    let mut i: usize = start;
    while i < n
        invariant
            n == s@.len(),
            start <= i <= n,
            start <= 1,
            n > 0,
            c0 == s@[0],
            negative == (c0 == '-'),
            signed == (c0 == '-' || c0 == '+'),
            start == (if signed { 1usize } else { 0usize }),
            body == unsigned_part(s@),
            body.len() > 0,
            body == s@.subrange(start as int, n as int),
            forall|k: int| 0 <= k < i - start ==> is_digit(#[trigger] body[k]),
            acc == digits_value(body.take(i - start)),
            0 <= acc <= 2147483648,
        decreases n - i,
    {
        let c = s.get_char(i);
        let code = c as u32;
        let j: usize = i - start;
        assert(body[j as int] == c);
        if code < 48 || code > 57 {
            assert(!is_digit(body[j as int]));
            assert(j < body.len());
            assert(!all_digits(body));
            assert(parse_i32_text(s@) is None);
            return None;
        }
        assert(body.take(j + 1).drop_last() =~= body.take(j as int));
        acc = acc * 10 + (code - 48) as i64;
        if acc > 2147483648 {
            proof {
                if all_digits(body) {
                    lemma_digits_value_prefix(body, j + 1);
                    assert(digits_value(body) > 2147483648);
                }
                assert(parse_i32_text(s@) is None);
            }
            return None;
        }
        i = i + 1;
    }
    proof {
        assert(body.take(n - start) =~= body);
    }
    if negative {
        Some((-acc) as i32)
    } else if acc > 2147483647 {
        None
    } else {
        Some(acc as i32)
    }
}

} // verus!
