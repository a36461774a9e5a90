//! Parses and formats token counts such as `272K` or `1M`.
use vstd::prelude::*;

use crate::text::{
    chars_of, decimal, is_digit, is_space, lemma_decimal_digits, lemma_trim_no_space, lower, lower_char,
    lower_chars, parse_u64, parse_u64_chars, trim, trim_chars, u64_to_decimal,
};

verus! {

/// The token count that `value` denotes: trimmed, ASCII case ignored, an optional
/// `k` (thousands) or `m` (millions) suffix, and a decimal count that, multiplied
/// out, fits in 64 bits.
pub open spec fn token_count_of(value: Seq<char>) -> Option<u64> {
    let v = lower(trim(value));
    if v.len() == 0 {
        None
    } else {
        let number = if v.last() == 'k' || v.last() == 'm' {
            v.drop_last()
        } else {
            v
        };
        let multiplier: nat = if v.last() == 'k' {
            1000
        } else if v.last() == 'm' {
            1000000
        } else {
            1
        };
        match parse_u64(number) {
            Some(n) => if n * multiplier <= u64::MAX {
                Some((n * multiplier) as u64)
            } else {
                None
            },
            None => None,
        }
    }
}

/// The abbreviated text of a token count: whole millions as `<n>M`, whole
/// thousands as `<n>K`, anything else in plain decimal.
pub open spec fn token_count_text(tokens: u64) -> Seq<char> {
    if tokens >= 1000000 && tokens % 1000000 == 0 {
        decimal((tokens / 1000000) as nat).push('M')
    } else if tokens >= 1000 && tokens % 1000 == 0 {
        decimal((tokens / 1000) as nat).push('K')
    } else {
        decimal(tokens as nat)
    }
}

/// Parses a plain or abbreviated token count (`272000`, `272K`, `1m`).
pub fn parse_token_count(value: &str) -> (r: Option<u64>)
    ensures
        r == token_count_of(value@),
{
    let chars = chars_of(value);
    let trimmed = trim_chars(&chars);
    let v = lower_chars(&trimmed);
    if v.len() == 0 {
        return None;
    }
    let last = v[v.len() - 1];
    let multiplier: u64 = if last == 'k' {
        1000
    } else if last == 'm' {
        1000000
    } else {
        1
    };
    let end = if last == 'k' || last == 'm' {
        v.len() - 1
    } else {
        v.len()
    };
    let number = vstd::slice::slice_subrange(v.as_slice(), 0, end);
    assert(number@ == (if v@.last() == 'k' || v@.last() == 'm' { v@.drop_last() } else { v@ }));
    match parse_u64_chars(number) {
        Some(n) => n.checked_mul(multiplier),
        None => None,
    }
}

/// Formats a token count, abbreviating exact thousands and millions.
pub fn format_token_count(tokens: u64) -> (r: String)
    ensures
        r@ == token_count_text(tokens),
{
    if tokens >= 1000000 && tokens % 1000000 == 0 {
        let mut s = u64_to_decimal(tokens / 1000000);
        s.push('M');
        s
    } else if tokens >= 1000 && tokens % 1000 == 0 {
        let mut s = u64_to_decimal(tokens / 1000);
        s.push('K');
        s
    } else {
        u64_to_decimal(tokens)
    }
}

/// Every formatted token count reads back as the same count.
pub proof fn law_format_then_parse(tokens: u64)
    ensures
        token_count_of(token_count_text(tokens)) == Some(tokens),
{
    let text = token_count_text(tokens);
    let (q, suffix): (nat, Option<char>) = if tokens >= 1000000 && tokens % 1000000 == 0 {
        ((tokens / 1000000) as nat, Some('M'))
    } else if tokens >= 1000 && tokens % 1000 == 0 {
        ((tokens / 1000) as nat, Some('K'))
    } else {
        (tokens as nat, None)
    };
    lemma_decimal_digits(q);
    let d = decimal(q);
    let low = match suffix {
        Some(c) => d.push(lower_char(c)),
        None => d,
    };
    assert(text == match suffix {
        Some(c) => d.push(c),
        None => d,
    });
    assert forall|i: int| 0 <= i < text.len() implies !is_space(#[trigger] text[i]) by {
        if i < d.len() {
            assert(is_digit(d[i]));
        }
    }
    lemma_trim_no_space(text);
    assert(lower(text) =~= low) by {
        assert forall|i: int| 0 <= i < text.len() implies #[trigger] lower(text)[i] == low[i] by {
            if i < d.len() {
                assert(is_digit(d[i]));
            }
        }
    }
    assert(d[0] != '+') by {
        assert(is_digit(d[0]));
    }
    assert(parse_u64(d) == Some(q as u64));
    match suffix {
        Some(c) => {
            assert(low.drop_last() == d);
            if c == 'M' {
                assert(q * 1000000 == tokens) by (nonlinear_arith)
                    requires
                        q == tokens / 1000000,
                        tokens % 1000000 == 0,
                ;
            } else {
                assert(q * 1000 == tokens) by (nonlinear_arith)
                    requires
                        q == tokens / 1000,
                        tokens % 1000 == 0,
                ;
            }
        },
        None => {
            assert(is_digit(low.last()));
        },
    }
}

} // verus!
