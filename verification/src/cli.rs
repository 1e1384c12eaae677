//! Parsing of the numeric command-line options.
//!
//! The option layer hands the raw argument text to these functions: a
//! decimal count (resolution, samples per pixel, ray depth, threads) and the
//! aspect ratio, written `<width>/<height>`. Both say exactly which texts
//! they accept and what number they return.

use vstd::prelude::*;
use vstd::string::*;

verus! {

/// `c` is a decimal digit.
pub open spec fn is_digit(c: char) -> bool {
    48 <= c as int <= 57
}

/// The value of the digit `c`.
pub open spec fn digit_val(c: char) -> int {
    c as int - 48
}

/// Every character of `s` is a decimal digit.
pub open spec fn all_digits(s: Seq<char>) -> bool {
    forall|i: int| 0 <= i < s.len() ==> is_digit(#[trigger] s[i])
}

/// The number the digit string `s` denotes, most significant digit first.
pub open spec fn digits_val(s: Seq<char>) -> int
    decreases s.len(),
{
    if s.len() == 0 {
        0
    } else {
        digits_val(s.drop_last()) * 10 + digit_val(s.last())
    }
}

/// The digits of a number text: the text minus one optional leading `+`.
pub open spec fn number_body(s: Seq<char>) -> Seq<char> {
    if s.len() > 0 && s[0] == '+' {
        s.subrange(1, s.len() as int)
    } else {
        s
    }
}

/// The texts `str::parse::<usize>` accepts: at least one digit after the
/// optional sign, and a value that fits.
pub open spec fn is_valid_usize(s: Seq<char>) -> bool {
    let b = number_body(s);
    b.len() > 0 && all_digits(b) && digits_val(b) <= usize::MAX
}

/// A digit string denotes a non-negative number.
proof fn lemma_digits_val_nonneg(s: Seq<char>)
    requires
        all_digits(s),
    ensures
        digits_val(s) >= 0,
    decreases s.len(),
{
    if s.len() > 0 {
        assert(all_digits(s.drop_last()));
        lemma_digits_val_nonneg(s.drop_last());
    }
}

/// Dropping trailing digits never increases the value.
proof fn lemma_digits_val_prefix_le(s: Seq<char>, m: int)
    requires
        all_digits(s),
        0 <= m <= s.len(),
    ensures
        digits_val(s.take(m)) <= digits_val(s),
    decreases s.len() - m,
{
    if m == s.len() {
        assert(s.take(m) =~= s);
    } else {
        assert(s.take(s.len() - 1) =~= s.drop_last());
        assert(all_digits(s.drop_last()));
        assert(s.drop_last().take(m) =~= s.take(m));
        lemma_digits_val_prefix_le(s.drop_last(), m);
        lemma_digits_val_nonneg(s.drop_last());
    }
}

/// Parses a non-negative decimal count, as the command-line options write
/// them: an optional `+`, then digits. Returns the denoted value when the
/// text is well-formed and fits a `usize`, and nothing otherwise.
pub fn parse_usize(s: &str) -> (r: Option<usize>)
    ensures
        r is Some <==> is_valid_usize(s@),
        r is Some ==> r->Some_0 == digits_val(number_body(s@)),
{
    let n: usize = s.unicode_len();
    let mut i: usize = 0;
    if n > 0 && s.get_char(0) == '+' {
        i = 1;
    }
    let ghost start = i as int;
    let ghost body = number_body(s@);
    proof {
        assert(body =~= s@.subrange(start, n as int));
    }
    if i >= n {
        assert(body.len() == 0);
        return None;
    }
    let mut acc: usize = 0;
    while i < n
        invariant
            n == s@.len(),
            0 <= start <= i <= n,
            body == number_body(s@),
            body == s@.subrange(start, n as int),
            all_digits(body.take(i - start)),
            acc == digits_val(body.take(i - start)),
        decreases n - i,
    {
        let c = s.get_char(i);
        let v: u32 = c as u32;
        assert(c == body[i - start]);
        if v < 48 || v > 57 {
            assert(!is_digit(body[i - start]));
            return None;
        }
        let d: usize = (v - 48) as usize;
        if acc > (usize::MAX - d) / 10 {
            proof {
                assert(body.take(i - start + 1) =~= body.take(i - start).push(c));
                assert(body.take(i - start + 1).drop_last() =~= body.take(i - start));
                assert(digits_val(body.take(i - start + 1)) == acc * 10 + d);
                if all_digits(body) {
                    lemma_digits_val_prefix_le(body, i - start + 1);
                    assert(digits_val(body) > usize::MAX);
                }
            }
            return None;
        }
        acc = acc * 10 + d;
        proof {
            assert(body.take(i - start + 1) =~= body.take(i - start).push(c));
            assert(body.take(i - start + 1).drop_last() =~= body.take(i - start));
        }
        i = i + 1;
    }
    proof {
        assert(body.take(n - start) =~= body);
    }
    Some(acc)
}

/// A well-formed aspect ratio text with its slash at position `p`: digits of
/// a `usize` on each side of the one `/`.
pub open spec fn aspect_ok(s: Seq<char>, p: int) -> bool {
    &&& 0 <= p < s.len()
    &&& s[p] == '/'
    &&& forall|q: int| 0 <= q < s.len() && q != p ==> #[trigger] s[q] != '/'
    &&& is_valid_usize(s.subrange(0, p))
    &&& is_valid_usize(s.subrange(p + 1, s.len() as int))
}

/// Parses an aspect ratio written `<width>/<height>`, e.g. `16/9`. Returns
/// the two counts when the text holds exactly one `/` with a well-formed
/// count on each side, and nothing otherwise.
pub fn parse_aspect_ratio(s: &str) -> (r: Option<(usize, usize)>)
    ensures
        r is Some <==> exists|p: int| #[trigger] aspect_ok(s@, p),
        forall|p: int|
            #[trigger] aspect_ok(s@, p) ==> r == Some(
                (
                    digits_val(number_body(s@.subrange(0, p))) as usize,
                    digits_val(number_body(s@.subrange(p + 1, s@.len() as int))) as usize,
                ),
            ),
{
    let n: usize = s.unicode_len();
    let mut slash: usize = 0;
    let mut seen: bool = false;
    let mut i: usize = 0;
    while i < n
        invariant
            n == s@.len(),
            i <= n,
            seen ==> slash < i && s@[slash as int] == '/',
            forall|q: int| 0 <= q < i && (!seen || q != slash) ==> #[trigger] s@[q] != '/',
        decreases n - i,
    {
        let c = s.get_char(i);
        if c == '/' {
            if seen {
                proof {
                    assert forall|p: int| !aspect_ok(s@, p) by {
                        if 0 <= p < s@.len() && s@[p] == '/' {
                            if p == slash as int {
                                assert(s@[i as int] == '/');
                            } else {
                                assert(s@[slash as int] == '/');
                            }
                        }
                    }
                }
                return None;
            }
            slash = i;
            seen = true;
        }
        i = i + 1;
    }
    if !seen {
        proof {
            assert forall|p: int| !aspect_ok(s@, p) by {
                if 0 <= p < s@.len() {
                    assert(s@[p] != '/');
                }
            }
        }
        return None;
    }
    let left = s.substring_char(0, slash);
    let right = s.substring_char(slash + 1, n);
    let w = parse_usize(left);
    let h = parse_usize(right);
    proof {
        assert forall|p: int| aspect_ok(s@, p) implies p == slash as int by {
            if p != slash as int {
                assert(s@[slash as int] == '/');
            }
        }
    }
    match (w, h) {
        (Some(w), Some(h)) => {
            assert(aspect_ok(s@, slash as int));
            Some((w, h))
        },
        _ => {
            assert(!aspect_ok(s@, slash as int));
            None
        },
    }
}

} // verus!
