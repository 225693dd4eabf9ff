//! The keys of the dictionaries that the library reads and writes, and that
//! they differ.

use crate::pdf::key;
use vstd::prelude::*;

verus! {

/// Different texts have different key bytes.
pub proof fn lemma_key_injective(a: &str, b: &str)
    ensures
        key(a) == key(b) ==> a@ == b@,
{
    vstd::utf8::encode_utf8_decode_utf8(a@);
    vstd::utf8::encode_utf8_decode_utf8(b@);
}

/// A number for each key that the library reads or writes in an annotation,
/// a page or a pages node; 0 for any other key.
pub open spec fn field_rank(k: Seq<u8>) -> int {
    if k == key("Type") {
        1
    } else if k == key("Subtype") {
        2
    } else if k == key("T") {
        3
    } else if k == key("Contents") {
        4
    } else if k == key("Rect") {
        5
    } else if k == key("F") {
        6
    } else if k == key("Border") {
        7
    } else if k == key("DR") {
        8
    } else if k == key("DA") {
        9
    } else if k == key("AP") {
        10
    } else if k == key("RC") {
        11
    } else if k == key("C") {
        12
    } else if k == key("IC") {
        13
    } else if k == key("BS") {
        14
    } else if k == key("W") {
        15
    } else if k == key("S") {
        16
    } else if k == key("Annots") {
        17
    } else if k == key("MediaBox") {
        18
    } else if k == key("Resources") {
        19
    } else if k == key("Parent") {
        20
    } else if k == key("Kids") {
        21
    } else if k == key("Count") {
        22
    } else if k == key("Pages") {
        23
    } else {
        0
    }
}

/// The keys differ from one another: each has its own number.
pub proof fn lemma_field_keys()
    ensures
        field_rank(key("Type")) == 1,
        field_rank(key("Subtype")) == 2,
        field_rank(key("T")) == 3,
        field_rank(key("Contents")) == 4,
        field_rank(key("Rect")) == 5,
        field_rank(key("F")) == 6,
        field_rank(key("Border")) == 7,
        field_rank(key("DR")) == 8,
        field_rank(key("DA")) == 9,
        field_rank(key("AP")) == 10,
        field_rank(key("RC")) == 11,
        field_rank(key("C")) == 12,
        field_rank(key("IC")) == 13,
        field_rank(key("BS")) == 14,
        field_rank(key("W")) == 15,
        field_rank(key("S")) == 16,
        field_rank(key("Annots")) == 17,
        field_rank(key("MediaBox")) == 18,
        field_rank(key("Resources")) == 19,
        field_rank(key("Parent")) == 20,
        field_rank(key("Kids")) == 21,
        field_rank(key("Count")) == 22,
        field_rank(key("Pages")) == 23,
{
    reveal_strlit("Type");
    reveal_strlit("Subtype");
    reveal_strlit("T");
    reveal_strlit("Contents");
    reveal_strlit("Rect");
    reveal_strlit("F");
    reveal_strlit("Border");
    reveal_strlit("DR");
    reveal_strlit("DA");
    reveal_strlit("AP");
    reveal_strlit("RC");
    reveal_strlit("C");
    reveal_strlit("IC");
    reveal_strlit("BS");
    reveal_strlit("W");
    reveal_strlit("S");
    reveal_strlit("Annots");
    reveal_strlit("MediaBox");
    reveal_strlit("Resources");
    reveal_strlit("Parent");
    reveal_strlit("Kids");
    reveal_strlit("Count");
    reveal_strlit("Pages");
    assert forall|a: &str, b: &str| #[trigger] key(a) == #[trigger] key(b) implies a@ == b@ by {
        lemma_key_injective(a, b);
    }
    assert("Type"@.len() == 4 && "Type"@[0] == 'T' && "Type"@[1] == 'y');
    assert("Subtype"@.len() == 7 && "Subtype"@[0] == 'S' && "Subtype"@[1] == 'u');
    assert("T"@.len() == 1 && "T"@[0] == 'T');
    assert("Contents"@.len() == 8 && "Contents"@[0] == 'C' && "Contents"@[1] == 'o');
    assert("Rect"@.len() == 4 && "Rect"@[0] == 'R' && "Rect"@[1] == 'e');
    assert("F"@.len() == 1 && "F"@[0] == 'F');
    assert("Border"@.len() == 6 && "Border"@[0] == 'B' && "Border"@[1] == 'o');
    assert("DR"@.len() == 2 && "DR"@[0] == 'D' && "DR"@[1] == 'R');
    assert("DA"@.len() == 2 && "DA"@[0] == 'D' && "DA"@[1] == 'A');
    assert("AP"@.len() == 2 && "AP"@[0] == 'A' && "AP"@[1] == 'P');
    assert("RC"@.len() == 2 && "RC"@[0] == 'R' && "RC"@[1] == 'C');
    assert("C"@.len() == 1 && "C"@[0] == 'C');
    assert("IC"@.len() == 2 && "IC"@[0] == 'I' && "IC"@[1] == 'C');
    assert("BS"@.len() == 2 && "BS"@[0] == 'B' && "BS"@[1] == 'S');
    assert("W"@.len() == 1 && "W"@[0] == 'W');
    assert("S"@.len() == 1 && "S"@[0] == 'S');
    assert("Annots"@.len() == 6 && "Annots"@[0] == 'A' && "Annots"@[1] == 'n');
    assert("MediaBox"@.len() == 8 && "MediaBox"@[0] == 'M' && "MediaBox"@[1] == 'e');
    assert("Resources"@.len() == 9 && "Resources"@[0] == 'R' && "Resources"@[1] == 'e');
    assert("Parent"@.len() == 6 && "Parent"@[0] == 'P' && "Parent"@[1] == 'a');
    assert("Kids"@.len() == 4 && "Kids"@[0] == 'K' && "Kids"@[1] == 'i');
    assert("Count"@.len() == 5 && "Count"@[0] == 'C' && "Count"@[1] == 'o');
    assert("Pages"@.len() == 5 && "Pages"@[0] == 'P' && "Pages"@[1] == 'a');
}

} // verus!
