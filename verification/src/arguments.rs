//! Numbers given as text: a rectangle as four numbers, a color as three,
//! separated by commas.

use crate::annotation::{Color, Rect};
use crate::number::{in_unit_interval, Real};
use crate::pdf::{decoded, key, lossy_text, real_parsed, trim, trimmed};
use vstd::prelude::*;

verus! {

/// The byte of a comma.
pub const COMMA: u8 = 44;

/// Why a text gives no rectangle or no color.
#[derive(Debug)]
pub enum ArgumentError {
    /// The text has not as many values as are asked for.
    Count { expected: usize, found: usize },
    /// The value at the index, counted from 0, is no number; the value and
    /// the reason are attached.
    Number { index: usize, value: String, reason: String },
    /// A color component does not lie between 0 and 1.
    Range,
}

/// The pieces of a text between its commas. A text without a comma is one
/// piece, and so is the empty text.
pub open spec fn pieces(bytes: Seq<u8>) -> Seq<Seq<u8>>
    decreases bytes.len(),
{
    if bytes.len() == 0 {
        seq![Seq::empty()]
    } else {
        let before = pieces(bytes.drop_last());
        if bytes.last() == COMMA {
            before.push(Seq::empty())
        } else {
            before.drop_last().push(before.last().push(bytes.last()))
        }
    }
}

/// A text has at least one piece.
pub proof fn lemma_pieces(bytes: Seq<u8>)
    ensures
        pieces(bytes).len() >= 1,
    decreases bytes.len(),
{
    if bytes.len() > 0 {
        lemma_pieces(bytes.drop_last());
    }
}

/// The value that a piece holds: its text without the white space at its
/// ends.
pub open spec fn value_in(piece: Seq<u8>) -> Seq<char> {
    trimmed(decoded(piece))
}

/// The number that a piece holds, by its bit pattern, or why it holds
/// none.
pub open spec fn number_in(piece: Seq<u8>) -> Result<u32, Seq<char>> {
    real_parsed(value_in(piece))
}

/// Whether every one of the pieces holds a number.
pub open spec fn all_numbers(parts: Seq<Seq<u8>>) -> bool {
    forall|i: int| 0 <= i < parts.len() ==> number_in(#[trigger] parts[i]) is Ok
}

/// Whether an error reports the first piece that holds no number.
pub open spec fn reports_number(e: ArgumentError, parts: Seq<Seq<u8>>) -> bool {
    match e {
        ArgumentError::Number { index, value, reason } => index < parts.len() && all_numbers(
            parts.take(index as int),
        ) && number_in(parts[index as int]) == Err::<u32, Seq<char>>(reason@) && value@
            == value_in(parts[index as int]),
        _ => false,
    }
}

/// Splits a text at its commas.
fn split_at_commas(bytes: &[u8]) -> (parts: Vec<Vec<u8>>)
    ensures
        parts@.len() == pieces(bytes@).len(),
        forall|i: int| 0 <= i < parts@.len() ==> (#[trigger] parts@[i])@ == pieces(bytes@)[i],
{
    let mut parts: Vec<Vec<u8>> = Vec::new();
    let mut current: Vec<u8> = Vec::new();
    let mut i: usize = 0;
    proof {
        assert(bytes@.take(0) =~= Seq::empty());
    }
    while i < bytes.len()
        invariant
            i <= bytes.len(),
            pieces(bytes@.take(i as int)).len() == parts@.len() + 1,
            forall|j: int|
                0 <= j < parts@.len() ==> (#[trigger] parts@[j])@ == pieces(
                    bytes@.take(i as int),
                )[j],
            current@ == pieces(bytes@.take(i as int)).last(),
        decreases bytes.len() - i,
    {
        proof {
            assert(bytes@.take(i + 1).drop_last() =~= bytes@.take(i as int));
            assert(bytes@.take(i + 1).last() == bytes@[i as int]);
        }
        if bytes[i] == COMMA {
            parts.push(current);
            current = Vec::new();
        } else {
            current.push(bytes[i]);
        }
        i += 1;
    }
    proof {
        assert(bytes@.take(i as int) =~= bytes@);
    }
    parts.push(current);
    parts
}

/// Reads the number that each piece holds, up to the first that holds
/// none.
fn read_numbers(parts: &Vec<Vec<u8>>) -> (r: Result<Vec<Real>, ArgumentError>)
    ensures
        match r {
            Ok(numbers) => numbers@.len() == parts@.len() && forall|i: int|
                0 <= i < parts@.len() ==> number_in(#[trigger] parts@[i]@) == Ok::<
                    u32,
                    Seq<char>,
                >(numbers@[i].bits()),
            Err(e) => reports_number(e, parts@.map_values(|part: Vec<u8>| part@)),
        },
{
    let ghost texts = parts@.map_values(|part: Vec<u8>| part@);
    let mut numbers: Vec<Real> = Vec::new();
    let mut i: usize = 0;
    while i < parts.len()
        invariant
            i <= parts.len(),
            texts == parts@.map_values(|part: Vec<u8>| part@),
            numbers@.len() == i,
            forall|j: int|
                0 <= j < i ==> number_in(#[trigger] parts@[j]@) == Ok::<u32, Seq<char>>(
                    numbers@[j].bits(),
                ),
        decreases parts.len() - i,
    {
        let text = lossy_text(parts[i].as_slice());
        let value = trim(text.as_str());
        match Real::parse(value) {
            Ok(number) => numbers.push(number),
            Err(reason) => {
                let value = value.to_string();
                proof {
                    assert(texts[i as int] == parts@[i as int]@);
                    assert forall|j: int| 0 <= j < texts.take(i as int).len() implies number_in(
                        #[trigger] texts.take(i as int)[j],
                    ) is Ok by {
                        assert(texts.take(i as int)[j] == parts@[j]@);
                    }
                }
                return Err(ArgumentError::Number { index: i, value, reason });
            },
        }
        i += 1;
    }
    Ok(numbers)
}

/// Whether a text gives a rectangle: four numbers, separated by commas,
/// each with or without white space around it.
pub open spec fn rect_in(text: Seq<u8>, rect: (u32, u32, u32, u32)) -> bool {
    let parts = pieces(text);
    &&& parts.len() == 4
    &&& number_in(parts[0]) == Ok::<u32, Seq<char>>(rect.0)
    &&& number_in(parts[1]) == Ok::<u32, Seq<char>>(rect.1)
    &&& number_in(parts[2]) == Ok::<u32, Seq<char>>(rect.2)
    &&& number_in(parts[3]) == Ok::<u32, Seq<char>>(rect.3)
}

/// Reads a rectangle from a text of four numbers that are separated by
/// commas. Fails where the text has not four values, and at the first value
/// that is no number.
pub fn parse_rect(s: &str) -> (r: Result<Rect, ArgumentError>)
    ensures
        match r {
            Ok(rect) => rect_in(key(s), rect.bits()),
            Err(ArgumentError::Count { expected, found }) => expected == 4 && found == pieces(
                key(s),
            ).len() && found != 4,
            Err(e) => pieces(key(s)).len() == 4 && reports_number(e, pieces(key(s))),
        },
{
    let parts = split_at_commas(s.as_bytes());
    proof {
        assert(parts@.map_values(|part: Vec<u8>| part@) =~= pieces(key(s)));
    }
    if parts.len() != 4 {
        return Err(ArgumentError::Count { expected: 4, found: parts.len() });
    }
    let numbers = read_numbers(&parts)?;
    Ok(
        Rect {
            x1: numbers[0].clone(),
            y1: numbers[1].clone(),
            x2: numbers[2].clone(),
            y2: numbers[3].clone(),
        },
    )
}

/// Whether a text gives three numbers, separated by commas.
pub open spec fn components_in(text: Seq<u8>, color: (u32, u32, u32)) -> bool {
    let parts = pieces(text);
    &&& parts.len() == 3
    &&& number_in(parts[0]) == Ok::<u32, Seq<char>>(color.0)
    &&& number_in(parts[1]) == Ok::<u32, Seq<char>>(color.1)
    &&& number_in(parts[2]) == Ok::<u32, Seq<char>>(color.2)
}

/// Whether a text gives three numbers of which one does not lie between 0
/// and 1.
pub open spec fn is_out_of_range(text: Seq<u8>) -> bool {
    let parts = pieces(text);
    &&& parts.len() == 3
    &&& all_numbers(parts)
    &&& !(in_unit_interval(number_in(parts[0])->Ok_0) && in_unit_interval(
        number_in(parts[1])->Ok_0,
    ) && in_unit_interval(number_in(parts[2])->Ok_0))
}

/// Reads a color from a text of three numbers that are separated by
/// commas: red, green and blue, each between 0 and 1. Fails where the text
/// has not three values, at the first value that is no number, and where a
/// number is out of range.
pub fn parse_color(s: &str) -> (r: Result<Color, ArgumentError>)
    ensures
        match r {
            Ok(color) => components_in(key(s), color.bits()) && in_unit_interval(color.r.bits())
                && in_unit_interval(color.g.bits()) && in_unit_interval(color.b.bits()),
            Err(ArgumentError::Count { expected, found }) => expected == 3 && found == pieces(
                key(s),
            ).len() && found != 3,
            Err(ArgumentError::Range) => is_out_of_range(key(s)),
            Err(e) => pieces(key(s)).len() == 3 && reports_number(e, pieces(key(s))),
        },
{
    let parts = split_at_commas(s.as_bytes());
    proof {
        assert(parts@.map_values(|part: Vec<u8>| part@) =~= pieces(key(s)));
    }
    if parts.len() != 3 {
        return Err(ArgumentError::Count { expected: 3, found: parts.len() });
    }
    let numbers = read_numbers(&parts)?;
    if numbers[0].is_unit() && numbers[1].is_unit() && numbers[2].is_unit() {
        Ok(Color { r: numbers[0].clone(), g: numbers[1].clone(), b: numbers[2].clone() })
    } else {
        Err(ArgumentError::Range)
    }
}

} // verus!
