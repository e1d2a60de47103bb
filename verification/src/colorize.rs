use vstd::prelude::*;
use crate::tier::{Tier, is_digit, tier_for, all_digits, tier_of_parts};

verus! {

/// One past the last character of the run of digits beginning at `i`.
pub open spec fn digits_end(s: Seq<char>, i: int) -> int
    decreases s.len() - i when 0 <= i <= s.len()
{
    if i < s.len() && is_digit(s[i]) {
        digits_end(s, i + 1)
    } else {
        i
    }
}

pub proof fn lemma_digits_end(s: Seq<char>, i: int)
    requires
        0 <= i <= s.len(),
    ensures
        i <= digits_end(s, i) <= s.len(),
        all_digits(s.subrange(i, digits_end(s, i))),
        digits_end(s, i) < s.len() ==> !is_digit(s[digits_end(s, i)]),
    decreases s.len() - i,
{
    if i < s.len() && is_digit(s[i]) {
        lemma_digits_end(s, i + 1);
        let e = digits_end(s, i);
        assert forall|k: int| 0 <= k < e - i implies is_digit(#[trigger] s.subrange(i, e)[k]) by {
            if k > 0 {
                assert(s.subrange(i + 1, e)[k - 1] == s.subrange(i, e)[k]);
            }
        }
    }
}

/// Where a fractional part would begin: the digits may be followed by one
/// stray colon before the dot (the matched pattern tolerates it, the numeric
/// parse later rejects it).
pub open spec fn dot_pos(s: Seq<char>, j: int) -> int {
    if j < s.len() && s[j] == ':' {
        j + 1
    } else {
        j
    }
}

/// End of a token of the form `<digits>%` starting at `i`, if one is there.
pub open spec fn plain_token_end(s: Seq<char>, i: int) -> Option<int> {
    let j = digits_end(s, i);
    if j > i && j < s.len() && s[j] == '%' {
        Some(j + 1)
    } else {
        None
    }
}

/// A token of the form `<digits>[:].<digits>%` starting at `i`: the dot
/// position and the end of the fractional digits, if one is there.
pub open spec fn frac_token(s: Seq<char>, i: int) -> Option<(int, int)> {
    let j = digits_end(s, i);
    if j > i {
        let d = dot_pos(s, j);
        if d < s.len() && s[d] == '.' {
            let k = digits_end(s, d + 1);
            if k > d + 1 && k < s.len() && s[k] == '%' {
                Some((d, k))
            } else {
                None
            }
        } else {
            None
        }
    } else {
        None
    }
}

/// One past the `%` of the percentage-shaped token starting at `i`, if any.
pub open spec fn token_end_at(s: Seq<char>, i: int) -> Option<int> {
    match plain_token_end(s, i) {
        Some(e) => Some(e),
        None => match frac_token(s, i) {
            Some((d, k)) => Some(k + 1),
            None => None,
        },
    }
}

/// Terminal colour prefix for a tier: bold, then green, yellow or red.
pub open spec fn tier_prefix(t: Tier) -> Seq<char> {
    match t {
        Tier::Good => "\u{1b}[1;32m"@,
        Tier::Warning => "\u{1b}[1;33m"@,
        Tier::Critical => "\u{1b}[1;31m"@,
    }
}

/// Terminal code that restores the default style.
pub open spec fn reset_code() -> Seq<char> {
    "\u{1b}[0m"@
}

/// `body` wrapped in the colour codes of tier `t`.
pub open spec fn painted(t: Tier, body: Seq<char>) -> Seq<char> {
    tier_prefix(t) + body + reset_code()
}

/// What the token starting at `i` is rewritten to: wrapped in its tier's
/// colour codes, except that a match whose numeric portion carries the stray
/// colon fails to parse and is kept unchanged.
pub open spec fn token_replacement(s: Seq<char>, i: int) -> Seq<char> {
    let j = digits_end(s, i);
    match plain_token_end(s, i) {
        Some(e) => painted(tier_for(s.subrange(i, j), Seq::empty()), s.subrange(i, e)),
        None => match frac_token(s, i) {
            Some((d, k)) => if s[j] == ':' {
                s.subrange(i, k + 1)
            } else {
                painted(tier_for(s.subrange(i, j), s.subrange(d + 1, k)), s.subrange(i, k + 1))
            },
            None => Seq::empty(),
        },
    }
}

pub proof fn lemma_token_end_bounds(s: Seq<char>, i: int)
    requires
        0 <= i < s.len(),
        token_end_at(s, i) is Some,
    ensures
        i < token_end_at(s, i)->Some_0 <= s.len(),
{
    lemma_digits_end(s, i);
    let j = digits_end(s, i);
    if plain_token_end(s, i) is None {
        lemma_digits_end(s, dot_pos(s, j) + 1);
    }
}

/// The whole line from position `i` on, with every percentage-shaped token
/// rewritten and all other text kept.
pub open spec fn colorize_from(s: Seq<char>, i: int) -> Seq<char>
    decreases s.len() - i when 0 <= i <= s.len() via colorize_from_dec
{
    if i >= s.len() {
        Seq::empty()
    } else {
        match token_end_at(s, i) {
            Some(e) => token_replacement(s, i) + colorize_from(s, e),
            None => seq![s[i]] + colorize_from(s, i + 1),
        }
    }
}

#[via_fn]
proof fn colorize_from_dec(s: Seq<char>, i: int) {
    if 0 <= i < s.len() && token_end_at(s, i) is Some {
        lemma_token_end_bounds(s, i);
    }
}

/// Relies on ansi_term: `Colour::Green.bold().paint(text)` displays as
/// `ESC[1;32m`, the text, `ESC[0m` (bold flag first, then foreground green).
#[verifier::external_body]
fn paint_good(s: &str) -> (r: String)
    ensures
        r@ == "\u{1b}[1;32m"@ + s@ + "\u{1b}[0m"@,
{
    ansi_term::Colour::Green.bold().paint(s).to_string()
}

/// Relies on ansi_term: `Colour::Yellow.bold().paint(text)` displays as
/// `ESC[1;33m`, the text, `ESC[0m`.
#[verifier::external_body]
fn paint_warning(s: &str) -> (r: String)
    ensures
        r@ == "\u{1b}[1;33m"@ + s@ + "\u{1b}[0m"@,
{
    ansi_term::Colour::Yellow.bold().paint(s).to_string()
}

/// Relies on ansi_term: `Colour::Red.bold().paint(text)` displays as
/// `ESC[1;31m`, the text, `ESC[0m`.
#[verifier::external_body]
fn paint_critical(s: &str) -> (r: String)
    ensures
        r@ == "\u{1b}[1;31m"@ + s@ + "\u{1b}[0m"@,
{
    ansi_term::Colour::Red.bold().paint(s).to_string()
}

/// `s` wrapped in the colour codes of tier `t`.
pub fn paint_tier(t: Tier, s: &str) -> (r: String)
    ensures
        r@ == painted(t, s@),
{
    match t {
        Tier::Good => paint_good(s),
        Tier::Warning => paint_warning(s),
        Tier::Critical => paint_critical(s),
    }
}

/// One past the last character of the run of digits beginning at `i`.
fn scan_digits(s: &str, i: usize, n: usize) -> (j: usize)
    requires
        i <= n,
        n == s@.len(),
    ensures
        j == digits_end(s@, i as int),
        i <= j <= n,
{
    proof {
        lemma_digits_end(s@, i as int);
    }
    let mut j = i;
    while j < n
        invariant
            i <= j <= n,
            n == s@.len(),
            digits_end(s@, i as int) == digits_end(s@, j as int),
        decreases n - j,
    {
        let c = s.get_char(j);
        let u = c as u32;
        if 48 <= u && u <= 57 {
            j = j + 1;
        } else {
            return j;
        }
    }
    j
}

/// The line with every percentage-shaped token rewritten in place: a token
/// whose numeric portion parses is wrapped in the colour codes of its tier,
/// one whose numeric portion fails to parse is kept as it was, and all other
/// text is kept unchanged.
pub fn colorize_line(line: &str) -> (r: String)
    ensures
        r@ == colorize_from(line@, 0),
{
    let n = line.unicode_len();
    let mut out = String::new();
    let mut i: usize = 0;
    while i < n
        invariant
            0 <= i <= n,
            n == line@.len(),
            colorize_from(line@, 0) == out@ + colorize_from(line@, i as int),
        decreases n - i,
    {
        let ghost prev = out@;
        let j = scan_digits(line, i, n);
        let mut end: usize = 0;
        let mut matched = false;
        if j > i {
            if j < n && line.get_char(j) == '%' {
                // <digits>%
                let body = line.substring_char(i, j + 1);
                proof {
                    lemma_digits_end(line@, i as int);
                    assert(line@.subrange(j as int, j as int) =~= Seq::<char>::empty());
                }
                let t = tier_of_parts(line, i, j, j, j);
                let piece = paint_tier(t, body);
                out.append(piece.as_str());
                end = j + 1;
                matched = true;
            } else {
                let d = if j < n && line.get_char(j) == ':' {
                    j + 1
                } else {
                    j
                };
                if d < n && line.get_char(d) == '.' {
                    let k = scan_digits(line, d + 1, n);
                    if k > d + 1 && k < n && line.get_char(k) == '%' {
                        let body = line.substring_char(i, k + 1);
                        if d > j {
                            // the stray colon keeps the numeric portion from parsing
                            out.append(body);
                        } else {
                            proof {
                                lemma_digits_end(line@, i as int);
                            }
                            let t = tier_of_parts(line, i, j, d + 1, k);
                            let piece = paint_tier(t, body);
                            out.append(piece.as_str());
                        }
                        end = k + 1;
                        matched = true;
                    }
                }
            }
        }
        if matched {
            proof {
                assert(out@ =~= prev + token_replacement(line@, i as int));
                assert(prev + (token_replacement(line@, i as int) + colorize_from(
                    line@,
                    end as int,
                )) =~= out@ + colorize_from(line@, end as int));
            }
            i = end;
        } else {
            let piece = line.substring_char(i, i + 1);
            out.append(piece);
            proof {
                assert(token_end_at(line@, i as int) is None);
                assert(piece@ =~= seq![line@[i as int]]);
                assert(prev + (seq![line@[i as int]] + colorize_from(line@, i + 1)) =~= out@
                    + colorize_from(line@, i + 1));
            }
            i = i + 1;
        }
    }
    proof {
        assert(out@ + colorize_from(line@, n as int) =~= out@);
    }
    out
}

/// Colour codes only wrap: the matched text itself, `%` sign included,
/// stands unchanged inside its replacement.
pub proof fn lemma_replacement_keeps_match(s: Seq<char>, i: int)
    requires
        0 <= i < s.len(),
        token_end_at(s, i) is Some,
    ensures
        exists|a: Seq<char>, b: Seq<char>|
            token_replacement(s, i) == #[trigger] (a + s.subrange(
                i,
                token_end_at(s, i)->Some_0,
            ) + b),
{
    let e = token_end_at(s, i)->Some_0;
    let body = s.subrange(i, e);
    let j = digits_end(s, i);
    match plain_token_end(s, i) {
        Some(_) => {
            let t = tier_for(s.subrange(i, j), Seq::empty());
            assert(token_replacement(s, i) == tier_prefix(t) + body + reset_code());
        },
        None => {
            let (d, k) = frac_token(s, i)->Some_0;
            if s[j] == ':' {
                assert(token_replacement(s, i) == Seq::<char>::empty() + body
                    + Seq::<char>::empty()) by {
                    assert(Seq::<char>::empty() + body + Seq::<char>::empty() =~= body);
                }
            } else {
                let t = tier_for(s.subrange(i, j), s.subrange(d + 1, k));
                assert(token_replacement(s, i) == tier_prefix(t) + body + reset_code());
            }
        },
    }
}

/// A line in which no percentage-shaped token starts anywhere is emitted
/// unchanged.
pub proof fn lemma_plain_line_unchanged(s: Seq<char>)
    requires
        forall|i: int| 0 <= i < s.len() ==> token_end_at(s, i) is None,
    ensures
        colorize_from(s, 0) == s,
{
    lemma_plain_suffix_unchanged(s, 0);
    assert(s.subrange(0, s.len() as int) =~= s);
}

proof fn lemma_plain_suffix_unchanged(s: Seq<char>, i: int)
    requires
        0 <= i <= s.len(),
        forall|k: int| 0 <= k < s.len() ==> token_end_at(s, k) is None,
    ensures
        colorize_from(s, i) == s.subrange(i, s.len() as int),
    decreases s.len() - i,
{
    if i < s.len() {
        lemma_plain_suffix_unchanged(s, i + 1);
        assert(seq![s[i]] + s.subrange(i + 1, s.len() as int) =~= s.subrange(i, s.len() as int));
    } else {
        assert(Seq::<char>::empty() =~= s.subrange(i, s.len() as int));
    }
}

} // verus!
