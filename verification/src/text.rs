use vstd::prelude::*;

verus! {

/// Unicode `White_Space`, the set that `char::is_whitespace` tests.
pub open spec fn is_ws(c: char) -> bool {
    ||| c == '\t'
    ||| c == '\n'
    ||| c == '\u{0B}'
    ||| c == '\u{0C}'
    ||| c == '\r'
    ||| c == ' '
    ||| c == '\u{85}'
    ||| c == '\u{A0}'
    ||| c == '\u{1680}'
    ||| ('\u{2000}' <= c && c <= '\u{200A}')
    ||| c == '\u{2028}'
    ||| c == '\u{2029}'
    ||| c == '\u{202F}'
    ||| c == '\u{205F}'
    ||| c == '\u{3000}'
}

/// Whether `c` is white space (as `char::is_whitespace`).
pub fn is_whitespace(c: char) -> (r: bool)
    ensures
        r == is_ws(c),
{
    c == '\t' || c == '\n' || c == '\u{0B}' || c == '\u{0C}' || c == '\r' || c == ' ' || c
        == '\u{85}' || c == '\u{A0}' || c == '\u{1680}' || ('\u{2000}' <= c && c <= '\u{200A}')
        || c == '\u{2028}' || c == '\u{2029}' || c == '\u{202F}' || c == '\u{205F}' || c
        == '\u{3000}'
}

/// `s` without leading white space.
pub open spec fn trim_start(s: Seq<char>) -> Seq<char>
    decreases s.len(),
{
    if s.len() > 0 && is_ws(s[0]) {
        trim_start(s.drop_first())
    } else {
        s
    }
}

/// `s` without trailing white space.
pub open spec fn trim_end(s: Seq<char>) -> Seq<char>
    decreases s.len(),
{
    if s.len() > 0 && is_ws(s.last()) {
        trim_end(s.drop_last())
    } else {
        s
    }
}

/// `s` without leading and trailing white space (as `str::trim`).
pub open spec fn trimmed(s: Seq<char>) -> Seq<char> {
    trim_end(trim_start(s))
}

proof fn lemma_trim_start_at(s: Seq<char>, b: int)
    requires
        0 <= b <= s.len(),
        forall|j: int| 0 <= j < b ==> is_ws(s[j]),
        b == s.len() || !is_ws(s[b]),
    ensures
        trim_start(s) == s.subrange(b, s.len() as int),
    decreases s.len(),
{
    if s.len() > 0 && is_ws(s[0]) {
        assert(b > 0);
        lemma_trim_start_at(s.drop_first(), b - 1);
        assert(s.drop_first().subrange(b - 1, s.len() - 1) =~= s.subrange(b, s.len() as int));
    } else {
        assert(b == 0);
        assert(s.subrange(0, s.len() as int) =~= s);
    }
}

proof fn lemma_trim_end_at(s: Seq<char>, e: int)
    requires
        0 <= e <= s.len(),
        forall|j: int| e <= j < s.len() ==> is_ws(s[j]),
        e == 0 || !is_ws(s[e - 1]),
    ensures
        trim_end(s) == s.subrange(0, e),
    decreases s.len(),
{
    if s.len() > 0 && is_ws(s.last()) {
        if e == s.len() {
            assert(false);
        }
        lemma_trim_end_at(s.drop_last(), e);
        assert(s.drop_last().subrange(0, e) =~= s.subrange(0, e));
    } else {
        if e < s.len() {
            assert(is_ws(s[s.len() - 1]));
        }
        assert(s.subrange(0, e) =~= s);
    }
}

/// Trim leading and trailing white space.
pub fn trim(s: &str) -> (r: String)
    ensures
        r@ == trimmed(s@),
{
    let n = s.unicode_len();
    let mut b: usize = 0;
    while b < n && is_whitespace(s.get_char(b))
        invariant
            n == s@.len(),
            b <= n,
            forall|j: int| 0 <= j < b ==> is_ws(s@[j]),
        decreases n - b,
    {
        b = b + 1;
    }
    let mut e: usize = n;
    while e > b && is_whitespace(s.get_char(e - 1))
        invariant
            n == s@.len(),
            b <= e <= n,
            forall|j: int| e <= j < n ==> is_ws(s@[j]),
        decreases e - b,
    {
        e = e - 1;
    }
    proof {
        lemma_trim_start_at(s@, b as int);
        let t = s@.subrange(b as int, n as int);
        lemma_trim_end_at(t, (e - b) as int);
        assert(t.subrange(0, (e - b) as int) =~= s@.subrange(b as int, e as int));
    }
    s.substring_char(b, e).to_owned()
}

/// Trimming twice trims nothing more.
pub proof fn law_trim_idempotent(s: Seq<char>)
    ensures
        trimmed(trimmed(s)) == trimmed(s),
{
    lemma_trim_start_fixed(s);
    lemma_trim_end_keeps_start(trim_start(s));
    lemma_trim_end_fixed(trim_start(s));
}

proof fn lemma_trim_start_fixed(s: Seq<char>)
    ensures
        trim_start(s).len() == 0 || !is_ws(trim_start(s)[0]),
    decreases s.len(),
{
    if s.len() > 0 && is_ws(s[0]) {
        lemma_trim_start_fixed(s.drop_first());
    }
}

proof fn lemma_trim_end_fixed(s: Seq<char>)
    ensures
        trim_end(s).len() == 0 || !is_ws(trim_end(s).last()),
        trim_end(trim_end(s)) == trim_end(s),
    decreases s.len(),
{
    if s.len() > 0 && is_ws(s.last()) {
        lemma_trim_end_fixed(s.drop_last());
    }
}

/// Trimming the end of a string that starts with non-space keeps that start
/// (or yields nothing).
proof fn lemma_trim_end_keeps_start(s: Seq<char>)
    requires
        s.len() == 0 || !is_ws(s[0]),
    ensures
        trim_end(s).len() == 0 || !is_ws(trim_end(s)[0]),
        trim_end(s).len() == 0 || trim_end(s)[0] == s[0],
        trim_start(trim_end(s)) == trim_end(s),
    decreases s.len(),
{
    if s.len() > 0 && is_ws(s.last()) {
        if s.len() == 1 {
            assert(false);
        }
        lemma_trim_end_keeps_start(s.drop_last());
    }
}

/// Whether every character of `d` is an ASCII digit.
pub open spec fn all_digits(d: Seq<char>) -> bool {
    forall|i: int| 0 <= i < d.len() ==> '0' <= #[trigger] d[i] <= '9'
}

/// The value of a run of decimal digits.
pub open spec fn digits_value(d: Seq<char>) -> int
    decreases d.len(),
{
    if d.len() == 0 {
        0
    } else {
        digits_value(d.drop_last()) * 10 + (d.last() as int - '0' as int)
    }
}

/// What `str::parse` gives for an unsigned integer type whose largest
/// value is `max`: an optional `+`, then at least one digit, with a value
/// that fits.
pub open spec fn decimal_parse(s: Seq<char>, max: int) -> Option<int> {
    let d = if s.len() > 0 && s[0] == '+' {
        s.drop_first()
    } else {
        s
    };
    if d.len() > 0 && all_digits(d) && digits_value(d) <= max {
        Some(digits_value(d))
    } else {
        None
    }
}

proof fn lemma_digits_value_nonneg(d: Seq<char>)
    requires
        all_digits(d),
    ensures
        0 <= digits_value(d),
    decreases d.len(),
{
    if d.len() > 0 {
        lemma_digits_value_nonneg(d.drop_last());
    }
}

proof fn lemma_digits_value_grows(d: Seq<char>, k: int)
    requires
        all_digits(d),
        0 <= k <= d.len(),
    ensures
        digits_value(d.take(k)) <= digits_value(d),
        0 <= digits_value(d.take(k)),
    decreases d.len() - k,
{
    if k < d.len() {
        lemma_digits_value_grows(d, k + 1);
        assert(d.take(k + 1).drop_last() =~= d.take(k));
        lemma_digits_value_nonneg(d.take(k));
    } else {
        assert(d.take(k) =~= d);
        lemma_digits_value_nonneg(d);
    }
}

/// Parse an unsigned decimal no larger than `max`, as `str::parse` does for
/// the unsigned type whose largest value is `max`.
pub fn parse_decimal(s: &str, max: u32) -> (r: Option<u32>)
    ensures
        match decimal_parse(s@, max as int) {
            Some(v) => r == Some(v as u32) && 0 <= v <= max,
            None => r is None,
        },
{
    let n = s.unicode_len();
    let start: usize = if n > 0 && s.get_char(0) == '+' {
        1
    } else {
        0
    };
    let ghost d = if s@.len() > 0 && s@[0] == '+' {
        s@.drop_first()
    } else {
        s@
    };
    if start == n {
        return None;
    }
    let mut acc: u64 = 0;
    let mut k: usize = start;
    while k < n
        invariant
            n == s@.len(),
            start <= k <= n,
            start < n,
            d == s@.subrange(start as int, n as int),
            all_digits(d.take(k - start)),
            acc == digits_value(d.take(k - start)),
            acc <= max,
            decimal_parse(s@, max as int) == (if d.len() > 0 && all_digits(d) && digits_value(d) <= max {
                Some(digits_value(d))
            } else {
                None
            }),
        decreases n - k,
    {
        let c = s.get_char(k);
        if c < '0' || c > '9' {
            assert(d[k - start] == c);
            assert(!all_digits(d));
            return None;
        }
        let ghost pre = d.take(k - start);
        let digit = (c as u64) - ('0' as u64);
        let next = acc * 10 + digit;
        proof {
            assert(d.take(k + 1 - start).drop_last() =~= pre);
            assert(d.take(k + 1 - start).last() == c);
            assert(all_digits(d.take(k + 1 - start))) by {
                assert forall|i: int| 0 <= i < d.take(k + 1 - start).len() implies '0' <= #[trigger] d.take(
                    k + 1 - start,
                )[i] <= '9' by {
                    if i < k - start {
                        assert(d.take(k + 1 - start)[i] == pre[i]);
                    }
                }
            }
        }
        assert(digits_value(d.take(k + 1 - start)) == next);
        if next > max as u64 {
            proof {
                if all_digits(d) {
                    lemma_digits_value_grows(d, k + 1 - start);
                }
            }
            return None;
        }
        acc = next;
        k = k + 1;
    }
    proof {
        assert(d.take(n - start) =~= d);
        lemma_digits_value_nonneg(d);
    }
    Some(acc as u32)
}

/// Length of the run of ASCII digits that starts `d`.
pub open spec fn digit_run(d: Seq<char>) -> nat
    decreases d.len(),
{
    if d.len() > 0 && '0' <= d[0] <= '9' {
        1 + digit_run(d.drop_first())
    } else {
        0
    }
}

proof fn lemma_digit_run(d: Seq<char>)
    ensures
        digit_run(d) <= d.len(),
        all_digits(d.take(digit_run(d) as int)),
        digit_run(d) < d.len() ==> !('0' <= d[digit_run(d) as int] <= '9'),
    decreases d.len(),
{
    if d.len() > 0 && '0' <= d[0] <= '9' {
        let t = d.drop_first();
        lemma_digit_run(t);
        let r = digit_run(d) as int;
        assert forall|i: int| 0 <= i < r implies '0' <= #[trigger] d.take(r)[i] <= '9' by {
            if i > 0 {
                assert(d.take(r)[i] == t.take(r - 1)[i - 1]);
            }
        }
    } else {
        assert(d.take(0).len() == 0);
    }
}

proof fn lemma_digit_run_is(d: Seq<char>, m: int)
    requires
        0 <= m <= d.len(),
        all_digits(d.take(m)),
        m == d.len() || !('0' <= d[m] <= '9'),
    ensures
        digit_run(d) == m,
{
    lemma_digit_run(d);
    let r = digit_run(d) as int;
    if r < m {
        assert(d.take(m)[r] == d[r]);
    }
    if r > m {
        assert(d.take(r)[m] == d[m]);
    }
}

/// The text of the error that `str::parse` gives for an unsigned integer
/// type whose largest value is `max`, on an input it refuses: scanning the
/// digits after an optional `+`, a non-digit is reported unless the value
/// read before it already overflowed.
pub open spec fn int_error_text(s: Seq<char>, max: int) -> Seq<char> {
    if s.len() == 0 {
        "cannot parse integer from empty string"@
    } else {
        let d = if s[0] == '+' {
            s.drop_first()
        } else {
            s
        };
        if d.len() > 0 && digits_value(d.take(digit_run(d) as int)) > max {
            "number too large to fit in target type"@
        } else {
            "invalid digit found in string"@
        }
    }
}

/// The error text of a refused unsigned decimal (see [`int_error_text`]).
pub fn int_parse_error(s: &str, max: u32) -> (r: String)
    requires
        decimal_parse(s@, max as int) is None,
    ensures
        r@ == int_error_text(s@, max as int),
{
    let n = s.unicode_len();
    if n == 0 {
        return "cannot parse integer from empty string".to_owned();
    }
    let start: usize = if s.get_char(0) == '+' {
        1
    } else {
        0
    };
    let ghost d = if s@[0] == '+' {
        s@.drop_first()
    } else {
        s@
    };
    proof {
        assert(d =~= s@.subrange(start as int, n as int));
    }
    let mut acc: u64 = 0;
    let mut k: usize = start;
    while k < n
        invariant
            n == s@.len(),
            n > 0,
            start <= k <= n,
            d == s@.subrange(start as int, n as int),
            all_digits(d.take(k - start)),
            acc == digits_value(d.take(k - start)),
            acc <= max,
            decimal_parse(s@, max as int) is None,
            int_error_text(s@, max as int) == (if d.len() > 0 && digits_value(
                d.take(digit_run(d) as int),
            ) > max {
                "number too large to fit in target type"@
            } else {
                "invalid digit found in string"@
            }),
        decreases n - k,
    {
        let c = s.get_char(k);
        if c < '0' || c > '9' {
            proof {
                assert(d[k - start] == c);
                lemma_digit_run_is(d, k - start);
            }
            return "invalid digit found in string".to_owned();
        }
        let ghost pre = d.take(k - start);
        let digit = (c as u64) - ('0' as u64);
        let next = acc * 10 + digit;
        proof {
            assert(d.take(k + 1 - start).drop_last() =~= pre);
            assert(d.take(k + 1 - start).last() == c);
            assert(all_digits(d.take(k + 1 - start))) by {
                assert forall|i: int| 0 <= i < d.take(k + 1 - start).len() implies '0' <= #[trigger] d.take(
                    k + 1 - start,
                )[i] <= '9' by {
                    if i < k - start {
                        assert(d.take(k + 1 - start)[i] == pre[i]);
                    }
                }
            }
        }
        assert(digits_value(d.take(k + 1 - start)) == next);
        if next > max as u64 {
            proof {
                lemma_digit_run(d);
                let r = digit_run(d) as int;
                if r < k + 1 - start {
                    assert(d.take(k + 1 - start)[r] == d[r]);
                }
                assert(d.take(r).take(k + 1 - start) =~= d.take(k + 1 - start));
                lemma_digits_value_grows(d.take(r), k + 1 - start);
            }
            return "number too large to fit in target type".to_owned();
        }
        acc = next;
        k = k + 1;
    }
    proof {
        assert(d.take(n - start) =~= d);
        lemma_digit_run_is(d, n - start);
    }
    "invalid digit found in string".to_owned()
}

} // verus!
