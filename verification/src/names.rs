//! Capital letters for the names of functions.

use vstd::prelude::*;

verus! {

/// The upper-case form of `c`, which may be more than one character.
pub uninterp spec fn uppercase(c: char) -> Seq<char>;

/// Whether `c` is an ASCII character.
pub open spec fn is_ascii_char(c: char) -> bool {
    (c as int) < 128
}

/// The capital of an ASCII small letter; any other character as it is.
pub open spec fn ascii_capital(c: char) -> char {
    if 'a' <= c && c <= 'z' {
        ((c as int) - 32) as char
    } else {
        c
    }
}

/// The upper-case form of a first character: of an ASCII character its
/// capital, and of any other character what `uppercase` names.
pub open spec fn first_capital(c: char) -> Seq<char> {
    if is_ascii_char(c) {
        seq![ascii_capital(c)]
    } else {
        uppercase(c)
    }
}

/// `text` with its first character in upper case and the rest unchanged.
pub open spec fn capitalized(text: Seq<char>) -> Seq<char> {
    if text.len() == 0 {
        Seq::empty()
    } else {
        first_capital(text[0]) + text.skip(1)
    }
}

/// `text_utils::capitalize_first_letter`: the empty text stays empty; of any
/// other text the first character is replaced by what `char::to_uppercase`
/// gives for it, and the characters after it are kept as they are. For an
/// ASCII small letter `char::to_uppercase` gives its capital, and for any
/// other ASCII character the character itself.
#[verifier::external_body]
pub(crate) fn capitalize(text: &str) -> (capital: String)
    ensures
        capital@ == if text@.len() == 0 {
            Seq::<char>::empty()
        } else if is_ascii_char(text@[0]) {
            seq![ascii_capital(text@[0])] + text@.skip(1)
        } else {
            uppercase(text@[0]) + text@.skip(1)
        },
{
    text_utils::capitalize_first_letter(text)
}

/// Whether `text` reads `literal`.
pub(crate) fn reads(text: &str, literal: &str) -> (same: bool)
    ensures
        same == (text@ == literal@),
{
    let left = String::from_str(text);
    let right = String::from_str(literal);
    left == right
}

/// A name that starts with an ASCII character keeps its length and all but
/// its first character when it is capitalized; the first character becomes
/// its capital if it is a small letter, and stays as it is if not.
pub proof fn lemma_capitalized_ascii(name: Seq<char>)
    requires
        name.len() > 0,
        is_ascii_char(name[0]),
    ensures
        capitalized(name).len() == name.len(),
        capitalized(name)[0] == ascii_capital(name[0]),
        capitalized(name).skip(1) == name.skip(1),
        forall|i: int| 1 <= i < name.len() ==> capitalized(name)[i] == name[i],
{
    assert(capitalized(name).skip(1) =~= name.skip(1));
}

/// The capital of `f` is `F`, and a capital letter or a digit has itself as
/// its capital.
pub proof fn lemma_ascii_capital_examples()
    ensures
        ascii_capital('f') == 'F',
        ascii_capital('a') == 'A',
        ascii_capital('z') == 'Z',
        ascii_capital('F') == 'F',
        ascii_capital('7') == '7',
{
}

} // verus!
