//! Character-level string utilities: extraction of characters, lexicographic
//! comparison, whitespace trimming, and unsigned-integer parsing, together
//! with the lowercase folding relied on for case-insensitive ordering.

use vstd::prelude::*;
use vstd::string::StrSliceExecFns;

verus! {

/// Three-way comparison result used by the sort engine.
#[derive(Clone, Copy, PartialEq, Eq, Structural, Debug)]
pub enum Order {
    Less,
    Equal,
    Greater,
}

/// The `Order` value that stands for a signed comparison outcome.
pub open spec fn order_of(c: int) -> Order {
    if c < 0 {
        Order::Less
    } else if c == 0 {
        Order::Equal
    } else {
        Order::Greater
    }
}

/// The characters of a string, as a vector.
pub fn chars_of(s: &str) -> (r: Vec<char>)
    ensures
        r@ == s@,
{
    let n: usize = s.unicode_len();
    let mut out: Vec<char> = Vec::new();
    let mut i: usize = 0;
    while i < n
        invariant
            n == s@.len(),
            i <= n,
            out@ == s@.take(i as int),
        decreases n - i,
    {
        let c = s.get_char(i);
        out.push(c);
        proof {
            assert(out@ =~= s@.take(i + 1));
        }
        i = i + 1;
    }
    proof {
        assert(out@ =~= s@);
    }
    out
}

/// Whether two strings hold the same characters.
pub fn str_eq(a: &str, b: &str) -> (r: bool)
    ensures
        r == (a@ == b@),
{
    let va = chars_of(a);
    let vb = chars_of(b);
    if va.len() != vb.len() {
        proof {
            assert(a@.len() != b@.len());
        }
        return false;
    }
    let n: usize = va.len();
    let mut i: usize = 0;
    while i < n
        invariant
            n == va.len() == vb.len(),
            va@ == a@,
            vb@ == b@,
            i <= n,
            forall|k: int| 0 <= k < i ==> a@[k] == b@[k],
        decreases n - i,
    {
        let ca = va[i];
        let cb = vb[i];
        if ca != cb {
            return false;
        }
        proof {
            assert(a@[i as int] == b@[i as int]);
        }
        i = i + 1;
    }
    proof {
        assert(a@ =~= b@);
    }
    true
}

/// Lexicographic three-way comparison of two character sequences by
/// code point: negative when `a` orders first, zero when equal,
/// positive when `b` orders first.
pub open spec fn seq_cmp(a: Seq<char>, b: Seq<char>) -> int
    decreases a.len(),
{
    if a.len() == 0 && b.len() == 0 {
        0
    } else if a.len() == 0 {
        -1
    } else if b.len() == 0 {
        1
    } else if (a[0] as u32) < (b[0] as u32) {
        -1
    } else if (a[0] as u32) > (b[0] as u32) {
        1
    } else {
        seq_cmp(a.drop_first(), b.drop_first())
    }
}

/// A comparison of equal-prefix sequences is decided by their suffixes.
proof fn lemma_seq_cmp_skip(a: Seq<char>, b: Seq<char>, i: int)
    requires
        0 <= i <= a.len(),
        i <= b.len(),
        forall|k: int| 0 <= k < i ==> a[k] == b[k],
    ensures
        seq_cmp(a, b) == seq_cmp(a.skip(i), b.skip(i)),
    decreases i,
{
    if i > 0 {
        assert(a.len() > 0 && b.len() > 0);
        assert((a[0] as u32) == (b[0] as u32));
        lemma_seq_cmp_skip(a.drop_first(), b.drop_first(), i - 1);
        assert(a.drop_first().skip(i - 1) =~= a.skip(i));
        assert(b.drop_first().skip(i - 1) =~= b.skip(i));
    } else {
        assert(a.skip(0) =~= a);
        assert(b.skip(0) =~= b);
    }
}

/// Two characters with the same code point are the same character.
proof fn lemma_char_eq(c1: char, c2: char)
    requires
        c1 as u32 == c2 as u32,
    ensures
        c1 == c2,
{
}

/// Two character sequences compare as equal exactly when they are equal.
pub proof fn lemma_seq_cmp_eq(a: Seq<char>, b: Seq<char>)
    ensures
        (seq_cmp(a, b) == 0) <==> (a == b),
    decreases a.len(),
{
    if a.len() > 0 && b.len() > 0 && (a[0] as u32) == (b[0] as u32) {
        lemma_seq_cmp_eq(a.drop_first(), b.drop_first());
        lemma_char_eq(a[0], b[0]);
        assert(a[0] == b[0]);
        if seq_cmp(a, b) == 0 {
            assert(a.drop_first() == b.drop_first());
            assert forall|k: int| 0 <= k < a.len() implies a[k] == b[k] by {
                if k > 0 {
                    assert(a[k] == a.drop_first()[k - 1]);
                    assert(b[k] == b.drop_first()[k - 1]);
                }
            }
            assert(a =~= b);
        }
        if a == b {
            assert(a.drop_first() =~= b.drop_first());
        }
    } else {
        if a.len() == 0 && b.len() == 0 {
            assert(a =~= b);
        }
        if a == b && a.len() > 0 {
            assert(a[0] == b[0]);
        }
    }
}

/// Swapping the arguments negates the comparison.
pub proof fn lemma_seq_cmp_flip(a: Seq<char>, b: Seq<char>)
    ensures
        seq_cmp(a, b) == -seq_cmp(b, a),
    decreases a.len(),
{
    if a.len() > 0 && b.len() > 0 && (a[0] as u32) == (b[0] as u32) {
        lemma_seq_cmp_flip(a.drop_first(), b.drop_first());
    }
}

/// The lexicographic comparison is transitive, strictly and non-strictly.
pub proof fn lemma_seq_cmp_trans(a: Seq<char>, b: Seq<char>, c: Seq<char>)
    ensures
        seq_cmp(a, b) <= 0 && seq_cmp(b, c) <= 0 ==> seq_cmp(a, c) <= 0,
        seq_cmp(a, b) < 0 && seq_cmp(b, c) <= 0 ==> seq_cmp(a, c) < 0,
        seq_cmp(a, b) <= 0 && seq_cmp(b, c) < 0 ==> seq_cmp(a, c) < 0,
    decreases a.len() + b.len() + c.len(),
{
    if a.len() > 0 && b.len() > 0 && c.len() > 0 {
        lemma_seq_cmp_trans(a.drop_first(), b.drop_first(), c.drop_first());
    }
}

/// Three-way comparison of two character vectors, matching `seq_cmp`.
pub fn cmp_chars(a: &Vec<char>, b: &Vec<char>) -> (r: Order)
    ensures
        r == order_of(seq_cmp(a@, b@)),
{
    let mut i: usize = 0;
    while i < a.len() && i < b.len()
        invariant
            i <= a.len(),
            i <= b.len(),
            forall|k: int| 0 <= k < i ==> a@[k] == b@[k],
        decreases a.len() - i,
    {
        let ca = a[i];
        let cb = b[i];
        if (ca as u32) < (cb as u32) {
            proof {
                lemma_seq_cmp_skip(a@, b@, i as int);
            }
            return Order::Less;
        }
        if (ca as u32) > (cb as u32) {
            proof {
                lemma_seq_cmp_skip(a@, b@, i as int);
            }
            return Order::Greater;
        }
        proof {
            lemma_char_eq(ca, cb);
        }
        i = i + 1;
    }
    proof {
        lemma_seq_cmp_skip(a@, b@, i as int);
    }
    if a.len() < b.len() {
        Order::Less
    } else if a.len() > b.len() {
        Order::Greater
    } else {
        Order::Equal
    }
}

/// The characters stripped by whitespace trimming: the set recognized by
/// the Unicode `White_Space` property.
pub open spec fn is_space_char(c: char) -> bool {
    ||| c == ' '
    ||| c == '\t'
    ||| c == '\n'
    ||| c == '\u{b}'
    ||| c == '\u{c}'
    ||| c == '\r'
    ||| c == '\u{85}'
    ||| c == '\u{a0}'
    ||| c == '\u{1680}'
    ||| (0x2000 <= c as u32 && c as u32 <= 0x200a)
    ||| c == '\u{2028}'
    ||| c == '\u{2029}'
    ||| c == '\u{202f}'
    ||| c == '\u{205f}'
    ||| c == '\u{3000}'
}

/// Whether `c` is stripped by whitespace trimming.
pub fn is_space(c: char) -> (r: bool)
    ensures
        r == is_space_char(c),
{
    c == ' ' || c == '\t' || c == '\n' || c == '\u{b}' || c == '\u{c}' || c == '\r'
        || c == '\u{85}' || c == '\u{a0}' || c == '\u{1680}'
        || (0x2000 <= c as u32 && c as u32 <= 0x200a) || c == '\u{2028}' || c == '\u{2029}'
        || c == '\u{202f}' || c == '\u{205f}' || c == '\u{3000}'
}

/// `s` with leading and trailing whitespace removed.
pub open spec fn trim_spec(s: Seq<char>) -> Seq<char>
    decreases s.len(),
{
    if s.len() == 0 {
        s
    } else if is_space_char(s[0]) {
        trim_spec(s.drop_first())
    } else if is_space_char(s.last()) {
        trim_spec(s.drop_last())
    } else {
        s
    }
}

/// The bounds of the whitespace-trimmed portion of `v[lo..hi]`: the
/// returned pair `(i, j)` satisfies `lo <= i <= j <= hi` and
/// `v[i..j]` is the trimmed text.
pub fn trim_bounds(v: &Vec<char>, lo: usize, hi: usize) -> (r: (usize, usize))
    requires
        lo <= hi <= v@.len(),
    ensures
        lo <= r.0 <= r.1 <= hi,
        v@.subrange(r.0 as int, r.1 as int) == trim_spec(v@.subrange(lo as int, hi as int)),
{
    let mut i: usize = lo;
    let mut j: usize = hi;
    while i < j && is_space(v[i])
        invariant
            lo <= i <= j <= hi <= v@.len(),
            j == hi,
            trim_spec(v@.subrange(lo as int, hi as int)) == trim_spec(
                v@.subrange(i as int, j as int),
            ),
        decreases j - i,
    {
        proof {
            assert(v@.subrange(i as int, j as int).drop_first() =~= v@.subrange(
                i + 1,
                j as int,
            ));
        }
        i = i + 1;
    }
    while i < j && is_space(v[j - 1])
        invariant
            lo <= i <= j <= hi <= v@.len(),
            i < j ==> !is_space_char(v@[i as int]),
            trim_spec(v@.subrange(lo as int, hi as int)) == trim_spec(
                v@.subrange(i as int, j as int),
            ),
        decreases j,
    {
        proof {
            assert(v@.subrange(i as int, j as int).drop_last() =~= v@.subrange(
                i as int,
                j - 1,
            ));
        }
        j = j - 1;
    }
    proof {
        if i < j {
            assert(trim_spec(v@.subrange(i as int, j as int)) == v@.subrange(
                i as int,
                j as int,
            ));
        } else {
            assert(v@.subrange(i as int, j as int) =~= Seq::<char>::empty());
        }
    }
    (i, j)
}

/// Whether `c` is an ASCII decimal digit.
pub open spec fn is_digit_char(c: char) -> bool {
    0x30 <= c as u32 && c as u32 <= 0x39
}

/// The numeric value of a digit character.
pub open spec fn digit_val(c: char) -> int {
    c as u32 - 0x30
}

/// Whether every character of `s` is an ASCII decimal digit.
pub open spec fn all_digits(s: Seq<char>) -> bool {
    forall|i: int| 0 <= i < s.len() ==> is_digit_char(s[i])
}

/// The base-ten value of a digit sequence.
pub open spec fn digits_value(s: Seq<char>) -> int
    decreases s.len(),
{
    if s.len() == 0 {
        0
    } else {
        digits_value(s.drop_last()) * 10 + digit_val(s.last())
    }
}

/// The digits of a numeric token: an optional single leading `+` sign is
/// dropped, everything else is kept.
pub open spec fn digits_part(s: Seq<char>) -> Seq<char> {
    if s.len() > 0 && s[0] == '+' {
        s.drop_first()
    } else {
        s
    }
}

/// The value of a numeric token, when it is well formed (an optional `+`
/// sign followed by at least one digit) and fits below the given bound.
pub open spec fn parse_uint_spec(s: Seq<char>, bound: int) -> Option<int> {
    let d = digits_part(s);
    if d.len() > 0 && all_digits(d) && digits_value(d) <= bound {
        Some(digits_value(d))
    } else {
        None
    }
}

proof fn lemma_digits_value_nonneg(s: Seq<char>)
    requires
        all_digits(s),
    ensures
        digits_value(s) >= 0,
    decreases s.len(),
{
    if s.len() > 0 {
        assert(all_digits(s.drop_last())) by {
            assert(forall|i: int|
                0 <= i < s.len() - 1 ==> s.drop_last()[i] == s[i] && is_digit_char(s[i]));
        }
        lemma_digits_value_nonneg(s.drop_last());
    }
}

/// Extending a digit sequence never lowers its value.
proof fn lemma_digits_prefix_le(s: Seq<char>, m: int)
    requires
        all_digits(s),
        0 <= m <= s.len(),
    ensures
        digits_value(s.take(m)) <= digits_value(s),
    decreases s.len(),
{
    if m < s.len() {
        assert(all_digits(s.drop_last())) by {
            assert(forall|i: int|
                0 <= i < s.len() - 1 ==> s.drop_last()[i] == s[i] && is_digit_char(s[i]));
        }
        assert(s.drop_last().take(m) =~= s.take(m));
        lemma_digits_prefix_le(s.drop_last(), m);
        lemma_digits_value_nonneg(s.drop_last());
        assert(is_digit_char(s.last()));
    } else {
        assert(s.take(m) =~= s);
    }
}

/// The value of the digit range `v[lo..hi]`, if well formed as a numeric
/// token and at most `bound`; `bound` keeps results within `u64`.
fn parse_uint_range(v: &Vec<char>, lo: usize, hi: usize, bound: u64) -> (r: Option<u64>)
    requires
        lo <= hi <= v@.len(),
    ensures
        match r {
            Some(x) => parse_uint_spec(v@.subrange(lo as int, hi as int), bound as int)
                == Some(x as int),
            None => parse_uint_spec(v@.subrange(lo as int, hi as int), bound as int) is None,
        },
{
    let ghost s = v@.subrange(lo as int, hi as int);
    let ds: usize = if lo < hi && v[lo] == '+' {
        lo + 1
    } else {
        lo
    };
    let ghost d = v@.subrange(ds as int, hi as int);
    proof {
        if lo < hi && v@[lo as int] == '+' {
            assert(s[0] == '+');
            assert(s.drop_first() =~= d);
        } else {
            assert(s =~= d);
        }
        assert(digits_part(s) == d);
    }
    if ds == hi {
        return None;
    }
    let mut acc: u64 = 0;
    let mut i: usize = ds;
    while i < hi
        invariant
            lo <= ds <= i <= hi <= v@.len(),
            d == v@.subrange(ds as int, hi as int),
            digits_part(v@.subrange(lo as int, hi as int)) == d,
            d.len() == hi - ds,
            all_digits(d.take(i - ds)),
            acc as int == digits_value(d.take(i - ds)),
            acc <= bound,
        decreases hi - i,
    {
        let ghost done = (i - ds) as int;
        let c = v[i];
        proof {
            assert(d[done] == v@[i as int]);
        }
        if (c as u32) < 0x30 || (c as u32) > 0x39 {
            proof {
                assert(!is_digit_char(d[done]));
            }
            return None;
        }
        let dv: u64 = (c as u32 - 0x30) as u64;
        proof {
            assert(d.take(done + 1).drop_last() =~= d.take(done));
            assert(d.take(done + 1).last() == d[done]);
        }
        let next = match acc.checked_mul(10) {
            Some(m) => m.checked_add(dv),
            None => None,
        };
        let next = match next {
            Some(n) => if n <= bound {
                Some(n)
            } else {
                None
            },
            None => None,
        };
        match next {
            Some(n) => {
                acc = n;
                proof {
                    assert(all_digits(d.take(done + 1))) by {
                        assert(forall|k: int|
                            0 <= k < done + 1 ==> d.take(done + 1)[k] == d[k]);
                        assert(forall|k: int| 0 <= k < done ==> is_digit_char(d.take(done)[k]));
                        assert(forall|k: int| 0 <= k < done ==> d.take(done)[k] == d[k]);
                    }
                }
            },
            None => {
                // The prefix already exceeds the bound, so the whole token does.
                proof {
                    assert(all_digits(d.take(done + 1))) by {
                        assert(forall|k: int|
                            0 <= k < done + 1 ==> d.take(done + 1)[k] == d[k]);
                        assert(forall|k: int| 0 <= k < done ==> is_digit_char(d.take(done)[k]));
                        assert(forall|k: int| 0 <= k < done ==> d.take(done)[k] == d[k]);
                    }
                    assert(digits_value(d.take(done + 1)) > bound);
                    if all_digits(d) {
                        lemma_digits_prefix_le(d, done + 1);
                    }
                }
                return None;
            },
        }
        i = i + 1;
    }
    proof {
        assert(d.take(d.len() as int) =~= d);
    }
    Some(acc)
}

/// The value of the range `v[lo..hi]` as a 64-bit unsigned number, with
/// the grammar and bounds of decimal `u64` text.
pub fn parse_u64_range(v: &Vec<char>, lo: usize, hi: usize) -> (r: Option<u64>)
    requires
        lo <= hi <= v@.len(),
    ensures
        match r {
            Some(x) => parse_uint_spec(v@.subrange(lo as int, hi as int), u64::MAX as int)
                == Some(x as int),
            None => parse_uint_spec(v@.subrange(lo as int, hi as int), u64::MAX as int) is None,
        },
{
    parse_uint_range(v, lo, hi, u64::MAX)
}

/// The value of the range `v[lo..hi]` as an 8-bit unsigned number, with
/// the grammar and bounds of decimal `u8` text.
pub fn parse_u8_range(v: &Vec<char>, lo: usize, hi: usize) -> (r: Option<u8>)
    requires
        lo <= hi <= v@.len(),
    ensures
        match r {
            Some(x) => parse_uint_spec(v@.subrange(lo as int, hi as int), u8::MAX as int)
                == Some(x as int),
            None => parse_uint_spec(v@.subrange(lo as int, hi as int), u8::MAX as int) is None,
        },
{
    match parse_uint_range(v, lo, hi, 255) {
        Some(x) => Some(x as u8),
        None => None,
    }
}

/// The lowercase folding of a character sequence, as computed by the
/// standard library; its exact content is not modeled.
pub uninterp spec fn lower_of(s: Seq<char>) -> Seq<char>;

/// Relies on `str::to_lowercase`: the result is a function of the
/// input characters alone.
#[verifier::external_body]
pub fn lowercase(s: &str) -> (r: String)
    ensures
        r@ == lower_of(s@),
{
    s.to_lowercase()
}

} // verus!
