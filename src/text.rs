//! Scanning chat text: whitespace, words and decimal numbers.

use vstd::prelude::*;
use vstd::string::StrSliceExecFns;

verus! {

/// The whitespace that separates words: space, tab, carriage return, line
/// feed.
pub open spec fn is_space(c: char) -> bool {
    c == ' ' || c == '\t' || c == '\r' || c == '\n'
}

/// Whether `c` is an ASCII decimal digit.
pub open spec fn is_digit(c: char) -> bool {
    '0' <= c && c <= '9'
}

/// The first position at or after `i` that does not hold whitespace.
pub open spec fn skip_spaces(s: Seq<char>, i: int) -> int
    decreases s.len() - i,
{
    if 0 <= i < s.len() && is_space(s[i]) {
        skip_spaces(s, i + 1)
    } else {
        i
    }
}

/// The end of the run of non-whitespace starting at `i`.
pub open spec fn word_end(s: Seq<char>, i: int) -> int
    decreases s.len() - i,
{
    if 0 <= i < s.len() && !is_space(s[i]) {
        word_end(s, i + 1)
    } else {
        i
    }
}

/// The end of the run of digits starting at `i`.
pub open spec fn digits_end(s: Seq<char>, i: int) -> int
    decreases s.len() - i,
{
    if 0 <= i < s.len() && is_digit(s[i]) {
        digits_end(s, i + 1)
    } else {
        i
    }
}

/// The number written in decimal by `s[a .. b]`.
pub open spec fn digits_value(s: Seq<char>, a: int, b: int) -> nat
    decreases b - a,
{
    if b <= a {
        0
    } else {
        digits_value(s, a, b - 1) * 10 + ((s[b - 1] as int - '0' as int) as nat)
    }
}

/// The words of the first `n` characters, and the word still being read.
pub open spec fn scan_words(s: Seq<char>, n: int) -> (Seq<Seq<char>>, Seq<char>)
    decreases n,
{
    if n <= 0 {
        (seq![], seq![])
    } else {
        let (done, cur) = scan_words(s, n - 1);
        if is_space(s[n - 1]) {
            if cur.len() > 0 {
                (done.push(cur), seq![])
            } else {
                (done, seq![])
            }
        } else {
            (done, cur.push(s[n - 1]))
        }
    }
}

/// The words of `s`: its maximal runs of non-whitespace, in order.
pub open spec fn words(s: Seq<char>) -> Seq<Seq<char>> {
    let (done, cur) = scan_words(s, s.len() as int);
    if cur.len() > 0 {
        done.push(cur)
    } else {
        done
    }
}

/// Whether `c` separates words.
pub fn char_is_space(c: char) -> (r: bool)
    ensures
        r == is_space(c),
{
    c == ' ' || c == '\t' || c == '\r' || c == '\n'
}

/// The first position at or after `i` that does not hold whitespace.
pub fn skip_spaces_at(s: &str, i: usize) -> (r: usize)
    requires
        i <= s@.len(),
    ensures
        r as int == skip_spaces(s@, i as int),
        i <= r <= s@.len(),
{
    let n = s.unicode_len();
    let mut k = i;
    while k < n && char_is_space(s.get_char(k))
        invariant
            n == s@.len(),
            i <= k <= n,
            skip_spaces(s@, k as int) == skip_spaces(s@, i as int),
        decreases n - k,
    {
        k = k + 1;
    }
    k
}

/// The end of the run of non-whitespace starting at `i`.
pub fn word_end_at(s: &str, i: usize) -> (r: usize)
    requires
        i <= s@.len(),
    ensures
        r as int == word_end(s@, i as int),
        i <= r <= s@.len(),
{
    let n = s.unicode_len();
    let mut k = i;
    while k < n && !char_is_space(s.get_char(k))
        invariant
            n == s@.len(),
            i <= k <= n,
            word_end(s@, k as int) == word_end(s@, i as int),
        decreases n - k,
    {
        k = k + 1;
    }
    k
}

/// The end of the run of digits starting at `i`, and the number it writes
/// when that fits in `usize`.
pub fn read_digits(s: &str, i: usize) -> (r: (usize, Option<usize>))
    requires
        i <= s@.len(),
    ensures
        r.0 as int == digits_end(s@, i as int),
        i <= r.0 <= s@.len(),
        r.1 == (if digits_value(s@, i as int, r.0 as int) <= usize::MAX {
            Some(digits_value(s@, i as int, r.0 as int) as usize)
        } else {
            None::<usize>
        }),
{
    let n = s.unicode_len();
    let mut k = i;
    let mut acc: usize = 0;
    let mut overflow = false;
    while k < n
        invariant
            n == s@.len(),
            i <= k <= n,
            digits_end(s@, k as int) == digits_end(s@, i as int),
            forall|j: int| i <= j < k ==> is_digit(#[trigger] s@[j]),
            !overflow ==> acc as nat == digits_value(s@, i as int, k as int),
            overflow ==> digits_value(s@, i as int, k as int) > usize::MAX,
        ensures
            i <= k <= n,
            digits_end(s@, i as int) == k as int,
            !overflow ==> acc as nat == digits_value(s@, i as int, k as int),
            overflow ==> digits_value(s@, i as int, k as int) > usize::MAX,
        decreases n - k,
    {
        let c = s.get_char(k);
        if !('0' <= c && c <= '9') {
            break;
        }
        let d = (c as u32 - '0' as u32) as usize;
        proof {
            assert(digits_value(s@, i as int, k + 1) == digits_value(s@, i as int, k as int) * 10 + d);
        }
        if !overflow {
            if acc <= (usize::MAX - d) / 10 {
                acc = acc * 10 + d;
            } else {
                overflow = true;
                proof {
                    assert(acc * 10 + d > usize::MAX) by (nonlinear_arith)
                        requires acc > (usize::MAX - d) / 10, d <= 9;
                }
            }
        } else {
            proof {
                let v = digits_value(s@, i as int, k as int);
                assert(v * 10 + d >= v) by (nonlinear_arith) requires v >= 0, d >= 0;
            }
        }
        k = k + 1;
    }
    if overflow {
        (k, None)
    } else {
        (k, Some(acc))
    }
}

/// Splits `s` into its words.
pub fn split_words(s: &str) -> (r: Vec<String>)
    ensures
        r@.map_values(|w: String| w@) == words(s@),
{
    let n = s.unicode_len();
    let mut out: Vec<String> = Vec::new();
    let mut cur = String::new();
    let mut k: usize = 0;
    while k < n
        invariant
            n == s@.len(),
            k <= n,
            (out@.map_values(|w: String| w@), cur@) == scan_words(s@, k as int),
        decreases n - k,
    {
        let c = s.get_char(k);
        let ghost before = out@;
        if char_is_space(c) {
            if cur.unicode_len() > 0 {
                out.push(cur);
                cur = String::new();
                proof {
                    assert(out@.map_values(|w: String| w@) =~= before.map_values(|w: String| w@).push(scan_words(s@, k as int).1));
                }
            }
        } else {
            cur.append(s.substring_char(k, k + 1));
            proof {
                assert(s@.subrange(k as int, k + 1) =~= seq![c]);
            }
        }
        k = k + 1;
    }
    let ghost before = out@;
    if cur.unicode_len() > 0 {
        out.push(cur);
        proof {
            assert(out@.map_values(|w: String| w@) =~= before.map_values(|w: String| w@).push(scan_words(s@, n as int).1));
        }
    }
    out
}

/// Whether `t` occurs in `s` as a run of consecutive characters.
pub open spec fn has_infix(s: Seq<char>, t: Seq<char>) -> bool {
    exists|i: int| 0 <= i && i + t.len() <= s.len() && #[trigger] s.subrange(i, i + t.len()) == t
}

/// Whether `t` occurs in `s`.
pub fn contains_text(s: &str, t: &str) -> (r: bool)
    ensures
        r == has_infix(s@, t@),
{
    let n = s.unicode_len();
    let m = t.unicode_len();
    if m > n {
        return false;
    }
    let last = n - m;
    let mut i: usize = 0;
    loop
        invariant
            n == s@.len(),
            m == t@.len(),
            last == n - m,
            i <= last,
            forall|j: int| 0 <= j < i ==> #[trigger] s@.subrange(j, j + m) != t@,
        decreases last - i,
    {
        if crate::registry::same_text(s.substring_char(i, i + m), t) {
            return true;
        }
        if i == last {
            return false;
        }
        i = i + 1;
    }
}

} // verus!
