//! The character sets the streams draw from.

use vstd::prelude::*;

verus! {

/// `char::from_u32`: by its documentation, `Some` exactly for a Unicode scalar
/// value (outside the surrogate range and at most 0x10FFFF), holding the
/// character with that code.
pub assume_specification[ char::from_u32 ](i: u32) -> (r: Option<char>)
    ensures
        r is Some <==> (i < 0xD800 || (0xE000 <= i && i <= 0x10FFFF)),
        r matches Some(c) ==> c as u32 == i,
;

/// The half-width katakana block, U+FF61 up to and excluding U+FF9F, in
/// code order: `s` holds exactly these characters.
pub open spec fn is_katakana_block(s: Seq<char>) -> bool {
    &&& s.len() == 0x3e
    &&& forall|k: int| 0 <= k < s.len() ==> #[trigger] s[k] as u32 == 0xFF61 + k
}

pub fn katakana_chars() -> (v: Vec<char>)
    ensures
        is_katakana_block(v@),
{
    let mut v: Vec<char> = Vec::new();
    let mut code: u32 = 0xFF61;
    while code < 0xFF9F
        invariant
            0xFF61 <= code <= 0xFF9F,
            v@.len() == code - 0xFF61,
            forall|k: int| 0 <= k < v@.len() ==> #[trigger] v@[k] as u32 == 0xFF61 + k,
        decreases 0xFF9F - code,
    {
        if let Some(c) = char::from_u32(code) {
            v.push(c);
        }
        code = code + 1;
    }
    v
}

/// The ten decimal digits `0` to `9`, in order.
pub open spec fn digits_seq() -> Seq<char> {
    seq!['0', '1', '2', '3', '4', '5', '6', '7', '8', '9']
}

/// The symbols of the terminal character set.
pub open spec fn symbols_seq() -> Seq<char> {
    seq!['=', '*', '+', '-', '<', '>', '|', '~', '^']
}

pub fn digit_chars() -> (v: Vec<char>)
    ensures
        v@ == digits_seq(),
{
    let v = vec!['0', '1', '2', '3', '4', '5', '6', '7', '8', '9'];
    assert(v@ =~= digits_seq());
    v
}

pub fn symbol_chars() -> (v: Vec<char>)
    ensures
        v@ == symbols_seq(),
{
    let v = vec!['=', '*', '+', '-', '<', '>', '|', '~', '^'];
    assert(v@ =~= symbols_seq());
    v
}

/// The character set of the terminal renderer: the katakana block, then the
/// digits, then the symbols.
pub open spec fn is_terminal_char_set(s: Seq<char>) -> bool {
    &&& is_katakana_block(s.take(0x3e))
    &&& s.skip(0x3e) == digits_seq() + symbols_seq()
}

pub fn char_set() -> (v: Vec<char>)
    ensures
        is_terminal_char_set(v@),
        v@.len() == 0x3e + 10 + 9,
{
    let mut set = katakana_chars();
    let mut digits = digit_chars();
    let mut symbols = symbol_chars();
    let ghost kana = set@;
    set.append(&mut digits);
    set.append(&mut symbols);
    assert(set@.take(0x3e) =~= kana);
    assert(set@.skip(0x3e) =~= digits_seq() + symbols_seq());
    set
}

} // verus!
