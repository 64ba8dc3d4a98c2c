//! The row of runes of the Runic block, from `U+16A0` to `U+16F0`.

use vstd::prelude::*;
use crate::text::{char_from_code, push_char};

verus! {

/// The first code point of the row.
pub open spec fn first_rune() -> int {
    0x16A0
}

/// The number of runes in the row.
pub open spec fn rune_count() -> int {
    81
}

/// The `i`-th rune of the row.
pub open spec fn rune(i: int) -> char {
    ((first_rune() + i) as u32) as char
}

/// The row of runes, in code point order: U+16A0 to U+16F0.
pub open spec fn rune_row() -> Seq<char> {
    Seq::new(rune_count() as nat, |i: int| rune(i))
}

/// `text` is the row of runes: 81 characters whose code points run from
/// U+16A0 to U+16F0.
pub open spec fn is_rune_row(text: Seq<char>) -> bool {
    &&& text == rune_row()
    &&& forall|i: int| 0 <= i < rune_count() ==> #[trigger] text[i] as u32 == first_rune() + i
}

/// Law: the row does not depend on the input; any two rows are equal.
pub proof fn law_rune_row_unique(a: Seq<char>, b: Seq<char>)
    requires
        is_rune_row(a),
        is_rune_row(b),
    ensures
        a == b,
{
}

/// The runes of the row, all 81 in code point order, whatever the input.
pub fn from_str(_str: &String) -> (runes: String)
    ensures
        is_rune_row(runes@),
        runes@ == rune_row(),
{
    let mut runes = String::new();
    let mut code: u32 = 0x16A0;
    while code <= 0x16F0
        invariant
            0x16A0 <= code <= 0x16F1,
            runes@.len() == code - 0x16A0,
            forall|i: int| 0 <= i < runes@.len() ==> #[trigger] runes@[i] as u32 == first_rune() + i,
            forall|i: int| 0 <= i < runes@.len() ==> #[trigger] runes@[i] == rune(i),
        decreases 0x16F1 - code,
    {
        match char_from_code(code) {
            Some(c) => {
                push_char(&mut runes, c);
            },
            None => {
                assert(false);
            },
        }
        code = code + 1;
    }
    assert(runes@ =~= rune_row());
    runes
}

} // verus!
