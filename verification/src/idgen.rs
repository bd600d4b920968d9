//! Generation of fresh unique identifiers for generated-key columns.

use vstd::prelude::*;
use crate::codec::bind_model;
use crate::codec::codec_stable;
use crate::codec::lemma_cell_round_trip;
use crate::codec::param_cell;
use crate::codec::spec_decode_cell;
use crate::lex::is_digit_char;
use crate::lex::leading_digits;
use crate::lex::lemma_leading_digits_bounds;
use crate::value::ValueModel;

verus! {

/// A lowercase hexadecimal digit.
pub open spec fn is_lower_hex_digit(c: char) -> bool {
    ('0' <= c <= '9') || ('a' <= c <= 'f')
}

/// The hyphenated text form of a UUID: 36 characters, hyphens at
/// positions 8, 13, 18 and 23, lowercase hexadecimal digits elsewhere.
pub open spec fn is_uuid_text(s: Seq<char>) -> bool {
    &&& s.len() == 36
    &&& s[8] == '-' && s[13] == '-' && s[18] == '-' && s[23] == '-'
    &&& forall|i: int|
        0 <= i < 36 && i != 8 && i != 13 && i != 18 && i != 23 ==> is_lower_hex_digit(
            #[trigger] s[i],
        )
}

/// Relies on uuid::Uuid::new_v4 and its Display implementation: a fresh
/// random version-4 UUID, printed in hyphenated form as 36 lowercase
/// hexadecimal characters in five hyphen-separated groups.
#[verifier::external_body]
pub(crate) fn fresh_uuid_text() -> (r: String)
    ensures
        is_uuid_text(r@),
{
    uuid::Uuid::new_v4().to_string()
}

/// A UUID text is non-empty and survives the write-then-decode round
/// trip as plain text: it reads as neither a number nor a boolean.
pub proof fn lemma_uuid_text_stable(s: Seq<char>)
    requires
        is_uuid_text(s),
    ensures
        codec_stable(ValueModel::Text(s)),
        s.len() > 0,
{
    assert(s[8] == '-');
    assert(!is_digit_char('-'));
    assert(s[0] != '-' && is_lower_hex_digit(s[0]));
    lemma_leading_digits_bounds(s);
    let d = leading_digits(s);
    if d > 8 {
        assert(is_digit_char(s[8]));
        assert(false);
    }
    if d < s.len() && d > 0 {
        assert(s[d] != '.');
    }
    assert(!crate::lex::is_float_lexeme(s));
    assert(!crate::lex::is_int_lexeme(s));
    reveal_strlit("true");
    reveal_strlit("false");
    assert(s != "true"@ && s != "false"@);
}

/// A generated identifier written as text reads back from its stored
/// cell as exactly itself, and is never empty.
pub proof fn lemma_generated_key_cell(id: Seq<char>)
    requires
        is_uuid_text(id),
    ensures
        spec_decode_cell(param_cell(bind_model(ValueModel::Text(id)))) == ValueModel::Text(id),
        id.len() == 36,
{
    lemma_uuid_text_stable(id);
    lemma_cell_round_trip(ValueModel::Text(id));
}

} // verus!
