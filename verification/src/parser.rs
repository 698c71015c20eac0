//! The progress parser: a pure function from one line of downloader output
//! to an optional completion percentage.
//!
//! Percentages are held in thousandths of a percent (`45200` means 45.2%),
//! so that every value the parser can produce is exact. A percentage token
//! is a whitespace-delimited word ending in `%` whose prefix, after all
//! trailing `%` signs are removed, is a plain decimal number: digits, at
//! most one dot, at least one digit in all, and at most seven digits before
//! the dot. Fractional digits beyond the third are ignored.

use vstd::prelude::*;
use crate::text::{chars_of, contains_slice, spec_contains};

verus! {

/// A character the tokenizer treats as whitespace.
pub open spec fn is_space(c: char) -> bool {
    c == ' ' || c == '\t' || c == '\n' || c == '\r' || c == '\u{b}' || c == '\u{c}'
}

/// A decimal digit.
pub open spec fn is_digit(c: char) -> bool {
    '0' as u32 <= c as u32 && c as u32 <= '9' as u32
}

/// The numeric value of a decimal digit.
pub open spec fn digit_val(c: char) -> int {
    c as u32 - '0' as u32
}

/// Every character of `s` is a decimal digit.
pub open spec fn all_digits(s: Seq<char>) -> bool {
    forall|k: int| 0 <= k < s.len() ==> is_digit(#[trigger] s[k])
}

/// The value of a sequence of digits read in base ten.
pub open spec fn digits_val(s: Seq<char>) -> int
    decreases s.len(),
{
    if s.len() == 0 {
        0
    } else {
        digits_val(s.drop_last()) * 10 + digit_val(s.last())
    }
}

/// Ten to the `n`th power, for the digit counts the parser admits.
pub open spec fn pow10(n: nat) -> int {
    if n == 0 {
        1
    } else if n == 1 {
        10
    } else if n == 2 {
        100
    } else if n == 3 {
        1000
    } else if n == 4 {
        10000
    } else if n == 5 {
        100000
    } else if n == 6 {
        1000000
    } else {
        10000000
    }
}

/// The length of the whitespace-delimited token at the head of `s` (zero if
/// `s` is empty or starts with whitespace).
pub open spec fn token_len(s: Seq<char>) -> nat
    decreases s.len(),
{
    if s.len() == 0 || is_space(s[0]) {
        0
    } else {
        (1 + token_len(s.skip(1))) as nat
    }
}

/// `s` with every trailing `%` removed.
pub open spec fn strip_pct(s: Seq<char>) -> Seq<char>
    decreases s.len(),
{
    if s.len() > 0 && s.last() == '%' {
        strip_pct(s.drop_last())
    } else {
        s
    }
}

/// The index of the first `.` in `s`, or `s.len()` if there is none.
pub open spec fn dot_pos(s: Seq<char>) -> int
    decreases s.len(),
{
    if s.len() == 0 {
        0
    } else if s[0] == '.' {
        0
    } else {
        1 + dot_pos(s.skip(1))
    }
}

/// `body` is a decimal number the parser accepts: digits with at most one
/// dot, at least one digit in all, and at most seven digits before the dot.
pub open spec fn valid_decimal(body: Seq<char>) -> bool {
    let d = dot_pos(body);
    if d == body.len() {
        1 <= body.len() <= 7 && all_digits(body)
    } else {
        let ip = body.subrange(0, d);
        let fp = body.subrange(d + 1, body.len() as int);
        ip.len() <= 7 && ip.len() + fp.len() >= 1 && all_digits(ip) && all_digits(fp)
    }
}

/// The fractional digits `fp`, scaled to thousandths: the first three
/// digits count, later ones are ignored.
pub open spec fn frac_milli(fp: Seq<char>) -> int {
    if fp.len() >= 3 {
        digits_val(fp.subrange(0, 3))
    } else {
        digits_val(fp) * pow10((3 - fp.len()) as nat)
    }
}

/// The value of a valid decimal `body`, in thousandths of a percent.
pub open spec fn decimal_milli(body: Seq<char>) -> int {
    let d = dot_pos(body);
    if d == body.len() {
        digits_val(body) * 1000
    } else {
        digits_val(body.subrange(0, d)) * 1000 + frac_milli(
            body.subrange(d + 1, body.len() as int),
        )
    }
}

/// The percentage a single token yields: it must end in `%` and carry a
/// valid decimal before its trailing `%` signs.
pub open spec fn spec_token_percent(tok: Seq<char>) -> Option<u64> {
    if tok.len() > 0 && tok.last() == '%' {
        let body = strip_pct(tok);
        if valid_decimal(body) {
            Some(decimal_milli(body) as u64)
        } else {
            None
        }
    } else {
        None
    }
}

/// The value of the first whitespace-delimited token of `s` that ends in
/// `%` and parses as a decimal; `None` when no token does.
pub open spec fn spec_first_percent(s: Seq<char>) -> Option<u64>
    decreases s.len(),
{
    if s.len() == 0 {
        None
    } else if is_space(s[0]) {
        spec_first_percent(s.skip(1))
    } else {
        let t = token_len(s) as int;
        if 1 <= t <= s.len() {
            match spec_token_percent(s.subrange(0, t)) {
                Some(v) => Some(v),
                None => spec_first_percent(s.skip(t)),
            }
        } else {
            None
        }
    }
}

/// What the parser yields for `line`: the merge and post-processing phase
/// markers first, then the first percentage token of a download line.
pub open spec fn spec_parse_progress(line: Seq<char>) -> Option<u64> {
    if spec_contains(line, "[Merger]"@) || spec_contains(line, "Merging formats into"@) {
        Some(99000u64)
    } else if spec_contains(line, "[ffmpeg]"@) {
        Some(99500u64)
    } else if spec_contains(line, "[download]"@) && spec_contains(line, "%"@) {
        spec_first_percent(line)
    } else {
        None
    }
}

/// A run of non-space characters ending at a space (or at the end of `s`)
/// is exactly the head token.
proof fn lemma_token_len_char(s: Seq<char>, t: int)
    requires
        0 <= t <= s.len(),
        forall|k: int| 0 <= k < t ==> !is_space(#[trigger] s[k]),
        t == s.len() || is_space(s[t]),
    ensures
        token_len(s) == t,
    decreases t,
{
    if t == 0 {
    } else {
        assert(!is_space(s[0]));
        assert(forall|k: int| 0 <= k < t - 1 ==> #[trigger] s.skip(1)[k] == s[k + 1]);
        lemma_token_len_char(s.skip(1), t - 1);
    }
}

/// Removing the trailing `%` signs of `tok` leaves its prefix up to the
/// last non-`%` character.
proof fn lemma_strip_pct_char(tok: Seq<char>, b: int)
    requires
        0 <= b <= tok.len(),
        forall|k: int| b <= k < tok.len() ==> #[trigger] tok[k] == '%',
        b == 0 || tok[b - 1] != '%',
    ensures
        strip_pct(tok) == tok.subrange(0, b),
    decreases tok.len(),
{
    if tok.len() == 0 {
        assert(tok.subrange(0, 0) =~= tok);
    } else if b == tok.len() {
        assert(strip_pct(tok) == tok);
        assert(tok.subrange(0, b) =~= tok);
    } else {
        assert(tok.last() == '%');
        let d = tok.drop_last();
        assert(forall|k: int| b <= k < d.len() ==> #[trigger] d[k] == tok[k]);
        lemma_strip_pct_char(d, b);
        assert(d.subrange(0, b) =~= tok.subrange(0, b));
    }
}

/// The first `.` of `s` sits exactly where no earlier character is a `.`.
proof fn lemma_dot_pos_char(s: Seq<char>, d: int)
    requires
        0 <= d <= s.len(),
        forall|k: int| 0 <= k < d ==> #[trigger] s[k] != '.',
        d == s.len() || s[d] == '.',
    ensures
        dot_pos(s) == d,
    decreases d,
{
    if d == 0 {
    } else {
        assert(s[0] != '.');
        assert(forall|k: int| 0 <= k < d - 1 ==> #[trigger] s.skip(1)[k] == s[k + 1]);
        lemma_dot_pos_char(s.skip(1), d - 1);
    }
}

/// A sequence of at most seven digits reads as a value below ten million.
proof fn lemma_digits_val_bound(s: Seq<char>)
    requires
        all_digits(s),
        s.len() <= 7,
    ensures
        0 <= digits_val(s) < pow10(s.len()),
    decreases s.len(),
{
    if s.len() == 0 {
    } else {
        let d = s.drop_last();
        assert(forall|k: int| 0 <= k < d.len() ==> #[trigger] d[k] == s[k]);
        lemma_digits_val_bound(d);
        assert(is_digit(s.last()));
    }
}

/// Helper for `parse_progress`: the percentage of the token
/// `chars[i..j]`, where that range is non-empty.
#[verifier::loop_isolation(false)]
#[verifier::rlimit(60)]
fn token_percent(chars: &Vec<char>, i: usize, j: usize) -> (r: Option<u64>)
    requires
        i < j <= chars@.len(),
    ensures
        r == spec_token_percent(chars@.subrange(i as int, j as int)),
{
    let ghost tok = chars@.subrange(i as int, j as int);
    if chars[j - 1] != '%' {
        return None;
    }
    assert(tok.last() == '%');
    // Strip the trailing `%` signs: `chars[i..e]` is the numeric body.
    let mut e = j;
    while e > i && chars[e - 1] == '%'
        invariant
            i <= e <= j,
            j <= chars@.len(),
            forall|k: int| e <= k < j ==> #[trigger] chars@[k] == '%',
        decreases e,
    {
        e = e - 1;
    }
    proof {
        assert(forall|k: int| e - i <= k < tok.len() ==> #[trigger] tok[k] == chars@[i + k]);
        lemma_strip_pct_char(tok, e - i);
    }
    let ghost body = tok.subrange(0, e - i);
    proof {
        assert(forall|k: int| 0 <= k < body.len() ==> #[trigger] body[k] == chars@[i + k]);
    }
    if e == i {
        // An empty body has no digits at all.
        return None;
    }
    // Find the dot, if any.
    let mut dp = i;
    while dp < e && chars[dp] != '.'
        invariant
            i <= dp <= e <= chars@.len(),
            forall|k: int| i <= k < dp ==> #[trigger] chars@[k] != '.',
        decreases e - dp,
    {
        dp = dp + 1;
    }
    proof {
        lemma_dot_pos_char(body, dp - i);
    }
    let ghost ip = body.subrange(0, dp - i);
    let ghost fp = if dp < e {
        body.subrange(dp - i + 1, body.len() as int)
    } else {
        Seq::<char>::empty()
    };
    proof {
        assert(body =~= chars@.subrange(i as int, e as int));
        assert(forall|k: int| 0 <= k < ip.len() ==> #[trigger] ip[k] == chars@[i + k]);
        if dp < e {
            assert(fp =~= chars@.subrange(dp + 1, e as int));
        }
        if dp - i == (body.len() as int) {
            assert(ip =~= body);
        }
    }
    if dp - i > 7 {
        // Too many integer digits: treated as malformed.
        proof {
            assert(!valid_decimal(body));
        }
        return None;
    }
    if dp < e && dp == i && e == dp + 1 {
        // The body is a lone dot: no digit anywhere.
        proof {
            assert(ip.len() + fp.len() == 0);
            assert(!valid_decimal(body));
        }
        return None;
    }
    // Read the integer part, checking each character.
    let mut iv: u64 = 0;
    let mut k = i;
    while k < dp
        invariant
            i <= k <= dp <= e <= chars@.len(),
            dp - i <= 7,
            ip == body.subrange(0, dp - i),
            body == chars@.subrange(i as int, e as int),
            iv as int == digits_val(ip.subrange(0, k - i)),
            (iv as int) < pow10((k - i) as nat),
            forall|k2: int| 0 <= k2 < k - i ==> is_digit(#[trigger] ip[k2]),
        decreases dp - k,
    {
        let c = chars[k];
        let cv = c as u32;
        if cv < '0' as u32 || cv > '9' as u32 {
            proof {
                assert(ip[k - i] == chars@[k as int]);
                assert(!is_digit(ip[k - i]));
                assert(!all_digits(ip));
                if dp == e {
                    assert(ip =~= body);
                }
                assert(!valid_decimal(body));
            }
            return None;
        }
        proof {
            let pre = ip.subrange(0, k - i);
            let nxt = ip.subrange(0, k - i + 1);
            assert(nxt.drop_last() =~= pre);
            assert(nxt.last() == chars@[k as int]);
        }
        iv = iv * 10 + (cv - '0' as u32) as u64;
        k = k + 1;
    }
    proof {
        assert(ip.subrange(0, dp - i) =~= ip);
    }
    // Read the fractional part, if a dot was found; only the first three
    // digits carry value, but every character must be a digit.
    let mut fv: u64 = 0;
    if dp < e {
        let flen = e - dp - 1;
        let mut k2 = dp + 1;
        while k2 < e
            invariant
                dp + 1 <= k2 <= e <= chars@.len(),
                flen == e - dp - 1,
                fp == chars@.subrange(dp + 1, e as int),
                k2 - dp - 1 <= 3 ==> fv as int == digits_val(fp.subrange(0, k2 - dp - 1)),
                k2 - dp - 1 > 3 ==> fv as int == digits_val(fp.subrange(0, 3)),
                fv < 1000,
                forall|k3: int| 0 <= k3 < k2 - dp - 1 ==> is_digit(#[trigger] fp[k3]),
            decreases e - k2,
    {
            let c = chars[k2];
            let cv = c as u32;
            if cv < '0' as u32 || cv > '9' as u32 {
                proof {
                    assert(fp[k2 - dp - 1] == chars@[k2 as int]);
                    assert(!is_digit(fp[k2 - dp - 1]));
                    assert(!all_digits(fp));
                    assert(!valid_decimal(body));
                }
                return None;
            }
            if k2 - dp - 1 < 3 {
                proof {
                    let pre = fp.subrange(0, k2 - dp - 1);
                    let nxt = fp.subrange(0, k2 - dp);
                    assert(nxt.drop_last() =~= pre);
                    assert(nxt.last() == chars@[k2 as int]);
                    lemma_digits_val_bound(pre);
                    lemma_digits_val_bound(nxt);
                }
                fv = fv * 10 + (cv - '0' as u32) as u64;
            }
            k2 = k2 + 1;
        }
        // Scale a short fraction up to thousandths.
        if flen == 0 {
            fv = 0;
        } else if flen == 1 {
            fv = fv * 100;
            proof {
                assert(fp.subrange(0, 1) =~= fp);
                lemma_digits_val_bound(fp);
            }
        } else if flen == 2 {
            fv = fv * 10;
            proof {
                assert(fp.subrange(0, 2) =~= fp);
                lemma_digits_val_bound(fp);
            }
        } else if flen == 3 {
            proof {
                assert(fp.subrange(0, 3) =~= fp);
            }
        }
        proof {
            assert(fv as int == frac_milli(fp));
            assert(fv < 1000);
        }
    }
    proof {
        lemma_digits_val_bound(ip);
        assert(valid_decimal(body));
        assert(decimal_milli(body) == iv as int * 1000 + fv as int);
    }
    Some(iv * 1000 + fv)
}

/// Whether the tokenizer treats `c` as whitespace.
fn is_space_char(c: char) -> (r: bool)
    ensures
        r == is_space(c),
{
    c == ' ' || c == '\t' || c == '\n' || c == '\r' || c == '\u{b}' || c == '\u{c}'
}

/// Helper for `parse_progress`: the value of the first token of `chars`
/// ending in `%` that parses as a decimal.
#[verifier::loop_isolation(false)]
fn first_percent(chars: &Vec<char>) -> (r: Option<u64>)
    ensures
        r == spec_first_percent(chars@),
{
    let n = chars.len();
    let mut i: usize = 0;
    proof {
        assert(chars@.skip(0) =~= chars@);
    }
    while i < n
        invariant
            i <= n,
            n == chars@.len(),
            spec_first_percent(chars@) == spec_first_percent(chars@.skip(i as int)),
        decreases n - i,
    {
        let ghost rest = chars@.skip(i as int);
        if is_space_char(chars[i]) {
            proof {
                assert(is_space(rest[0]));
                assert(rest.skip(1) =~= chars@.skip(i + 1));
            }
            i = i + 1;
        } else {
            // Find the end of this token.
            let mut j = i + 1;
            while j < n && !is_space_char(chars[j])
                invariant
                    i < j <= n,
                    n == chars@.len(),
                    forall|k: int| i <= k < j ==> !is_space(#[trigger] chars@[k]),
                decreases n - j,
            {
                j = j + 1;
            }
            proof {
                assert(forall|k: int| 0 <= k < j - i ==> #[trigger] rest[k] == chars@[i + k]);
                if j < n {
                    assert(is_space(rest[j - i]));
                }
                lemma_token_len_char(rest, j - i);
                assert(rest.subrange(0, j - i) =~= chars@.subrange(i as int, j as int));
            }
            let tv = token_percent(chars, i, j);
            match tv {
                Some(v) => {
                    return Some(v);
                },
                None => {
                    proof {
                        assert(rest.skip(j - i) =~= chars@.skip(j as int));
                    }
                    i = j;
                },
            }
        }
    }
    proof {
        assert(chars@.skip(n as int).len() == 0);
    }
    None
}

/// Inspect one line of downloader output and yield the completion
/// percentage it reports, in thousandths of a percent, or `None` when the
/// line reports none. Merge-phase lines report 99%, post-processing lines
/// 99.5%, and download lines the value of their first percentage token.
/// The result depends on the line alone.
pub fn parse_progress(line: &str) -> (r: Option<u64>)
    ensures
        r == spec_parse_progress(line@),
{
    let chars = chars_of(line);
    let merger = chars_of("[Merger]");
    let formats = chars_of("Merging formats into");
    if contains_slice(&chars, &merger) || contains_slice(&chars, &formats) {
        return Some(99000);
    }
    let ffmpeg = chars_of("[ffmpeg]");
    if contains_slice(&chars, &ffmpeg) {
        return Some(99500);
    }
    let download = chars_of("[download]");
    let pct = chars_of("%");
    if contains_slice(&chars, &download) && contains_slice(&chars, &pct) {
        return first_percent(&chars);
    }
    None
}

/// A line that mentions the merge phase always reports 99%: the merge
/// marker takes precedence over everything else on the line.
pub proof fn lemma_merger_line_reports_99(line: Seq<char>)
    requires
        spec_contains(line, "[Merger]"@) || spec_contains(line, "Merging formats into"@),
    ensures
        spec_parse_progress(line) == Some(99000u64),
{
}

/// A line that mentions post-processing, and not the merge phase, always
/// reports 99.5%: the post-processing marker takes precedence over any
/// download text on the same line.
pub proof fn lemma_ffmpeg_line_reports_99_5(line: Seq<char>)
    requires
        spec_contains(line, "[ffmpeg]"@),
        !spec_contains(line, "[Merger]"@),
        !spec_contains(line, "Merging formats into"@),
    ensures
        spec_parse_progress(line) == Some(99500u64),
{
}

/// A download line with no phase marker reports the value of its first
/// percentage token: the token scan alone decides.
pub proof fn lemma_download_line_uses_first_percent_token(line: Seq<char>)
    requires
        !spec_contains(line, "[Merger]"@),
        !spec_contains(line, "Merging formats into"@),
        !spec_contains(line, "[ffmpeg]"@),
        spec_contains(line, "[download]"@),
        spec_contains(line, "%"@),
    ensures
        spec_parse_progress(line) == spec_first_percent(line),
{
}

/// A line with no recognized marker reports nothing at all.
pub proof fn lemma_unmarked_line_reports_nothing(line: Seq<char>)
    requires
        !spec_contains(line, "[Merger]"@),
        !spec_contains(line, "Merging formats into"@),
        !spec_contains(line, "[ffmpeg]"@),
        !(spec_contains(line, "[download]"@) && spec_contains(line, "%"@)),
    ensures
        spec_parse_progress(line) is None,
{
}

} // verus!
