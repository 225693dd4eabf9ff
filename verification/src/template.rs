//! Label and contents templates: text in which `{page}` stands for a page's
//! number and `{p0}` for the number counted from zero.

use crate::pdf::key;
use crate::text::append;
use vstd::prelude::*;

verus! {

/// The decimal digits of a number, as ASCII bytes.
pub open spec fn decimal(n: nat) -> Seq<u8>
    decreases n,
{
    if n < 10 {
        seq![(48 + n) as u8]
    } else {
        decimal(n / 10).push((48 + n % 10) as u8)
    }
}

/// Whether the text begins with the token; an empty token begins nothing.
pub open spec fn begins_with(text: Seq<u8>, token: Seq<u8>) -> bool {
    0 < token.len() <= text.len() && text.take(token.len() as int) == token
}

/// The text with every `page_token` replaced by `page` and every
/// `zero_token` by `zero`, read from left to right; where both tokens begin
/// at one place, the page token is taken.
pub open spec fn replaced(
    text: Seq<u8>,
    page_token: Seq<u8>,
    page: Seq<u8>,
    zero_token: Seq<u8>,
    zero: Seq<u8>,
) -> Seq<u8>
    decreases text.len(),
{
    if text.len() == 0 {
        Seq::empty()
    } else if begins_with(text, page_token) {
        page + replaced(text.skip(page_token.len() as int), page_token, page, zero_token, zero)
    } else if begins_with(text, zero_token) {
        zero + replaced(text.skip(zero_token.len() as int), page_token, page, zero_token, zero)
    } else {
        seq![text[0]] + replaced(text.skip(1), page_token, page, zero_token, zero)
    }
}

/// The number that `{p0}` stands for on a page: one less than the page's
/// number, and 0 for a page number 0.
pub open spec fn zero_based(page: u32) -> nat {
    if page == 0 {
        0
    } else {
        (page - 1) as nat
    }
}

/// A template filled in for a page: `{page}` is the page's number in
/// decimal, `{p0}` the number counted from zero.
pub open spec fn expanded(template: Seq<u8>, page: u32) -> Seq<u8> {
    replaced(
        template,
        key("{page}"),
        decimal(page as nat),
        key("{p0}"),
        decimal(zero_based(page)),
    )
}

/// The decimal digits of a number.
pub fn decimal_digits(n: u32) -> (digits: Vec<u8>)
    ensures
        digits@ == decimal(n as nat),
{
    let mut reversed: Vec<u8> = Vec::new();
    let mut rest: u32 = n;
    while rest >= 10
        invariant
            decimal(n as nat) == decimal(rest as nat) + reversed@.reverse(),
        decreases rest,
    {
        let digit: u8 = 48u8 + (rest % 10) as u8;
        proof {
            let shorter = decimal((rest / 10) as nat);
            assert(decimal(rest as nat) == shorter.push(digit));
            assert(shorter.push(digit) + reversed@.reverse() =~= shorter + reversed@.push(
                digit,
            ).reverse());
        }
        reversed.push(digit);
        rest = rest / 10;
    }
    let mut digits: Vec<u8> = Vec::new();
    digits.push(48u8 + rest as u8);
    let mut i: usize = reversed.len();
    while i > 0
        invariant
            i <= reversed.len(),
            digits@ == decimal(rest as nat) + reversed@.reverse().take(reversed.len() - i),
        decreases i,
    {
        i -= 1;
        digits.push(reversed[i]);
        proof {
            let back = reversed@.reverse();
            assert(back[reversed.len() - 1 - i] == reversed@[i as int]);
            assert(back.take(reversed.len() - i) =~= back.take(reversed.len() - i - 1).push(
                reversed@[i as int],
            ));
        }
    }
    proof {
        assert(reversed@.reverse().take(reversed.len() as int) =~= reversed@.reverse());
    }
    digits
}

/// Whether the token stands in the text at the given place.
fn token_at(text: &[u8], at: usize, token: &[u8]) -> (r: bool)
    requires
        at <= text.len(),
    ensures
        r == begins_with(text@.skip(at as int), token@),
{
    if token.len() == 0 || token.len() > text.len() - at {
        return false;
    }
    let mut i: usize = 0;
    while i < token.len()
        invariant
            i <= token.len(),
            at + token.len() <= text.len(),
            forall|j: int| 0 <= j < i ==> text@[at + j] == token@[j],
        decreases token.len() - i,
    {
        if text[at + i] != token[i] {
            proof {
                let start = text@.skip(at as int).take(token.len() as int);
                assert(start[i as int] != token@[i as int]);
            }
            return false;
        }
        i += 1;
    }
    proof {
        assert(text@.skip(at as int).take(token.len() as int) =~= token@);
    }
    true
}

/// Fills a template in for a page: every `{page}` becomes the page's number
/// in decimal, every `{p0}` the number counted from zero. The result is the
/// text's bytes.
pub fn expand_template(template: &str, page: u32) -> (text: Vec<u8>)
    ensures
        text@ == expanded(key(template), page),
{
    let source = template.as_bytes();
    let page_token = "{page}".as_bytes();
    let zero_token = "{p0}".as_bytes();
    let page_digits = decimal_digits(page);
    let zero_digits = decimal_digits(if page == 0 { 0 } else { page - 1 });
    let mut out: Vec<u8> = Vec::new();
    let mut at: usize = 0;
    proof {
        assert(source@.skip(0) =~= source@);
    }
    while at < source.len()
        invariant
            at <= source.len(),
            source@ == key(template),
            page_token@ == key("{page}"),
            zero_token@ == key("{p0}"),
            page_digits@ == decimal(page as nat),
            zero_digits@ == decimal(zero_based(page)),
            expanded(source@, page) == out@ + expanded(source@.skip(at as int), page),
        decreases source.len() - at,
    {
        let ghost rest = source@.skip(at as int);
        let ghost before = out@;
        if token_at(source, at, page_token) {
            append(&mut out, page_digits.as_slice());
            proof {
                assert(rest.skip(page_token@.len() as int) =~= source@.skip(
                    at + page_token@.len(),
                ));
                assert(before + (page_digits@ + expanded(
                    rest.skip(page_token@.len() as int),
                    page,
                )) =~= (before + page_digits@) + expanded(
                    rest.skip(page_token@.len() as int),
                    page,
                ));
            }
            at += page_token.len();
        } else if token_at(source, at, zero_token) {
            append(&mut out, zero_digits.as_slice());
            proof {
                assert(rest.skip(zero_token@.len() as int) =~= source@.skip(
                    at + zero_token@.len(),
                ));
                assert(before + (zero_digits@ + expanded(
                    rest.skip(zero_token@.len() as int),
                    page,
                )) =~= (before + zero_digits@) + expanded(
                    rest.skip(zero_token@.len() as int),
                    page,
                ));
            }
            at += zero_token.len();
        } else {
            out.push(source[at]);
            proof {
                assert(rest.skip(1) =~= source@.skip(at + 1));
                assert(before + (seq![rest[0]] + expanded(rest.skip(1), page)) =~= before.push(
                    source@[at as int],
                ) + expanded(rest.skip(1), page));
            }
            at += 1;
        }
    }
    proof {
        assert(out@ + Seq::<u8>::empty() =~= out@);
    }
    out
}

} // verus!
