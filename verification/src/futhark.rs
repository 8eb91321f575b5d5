use vstd::prelude::*;

verus! {

/// Number of runes in the alphabet.
pub const RUNE_COUNT: usize = 25;

/// Sprite-sheet offset of the first rune glyph.
pub const SPRITE_RUNE_OFFSET: usize = 32;

/// The letter that rune index `i` stands for, if `i` is a rune index.
pub open spec fn letter_at(i: int) -> Option<char> {
    if i == 0 { Some('f') }
    else if i == 1 { Some('u') }
    else if i == 2 { Some('T') }
    else if i == 3 { Some('a') }
    else if i == 4 { Some('r') }
    else if i == 5 { Some('k') }
    else if i == 6 { Some('g') }
    else if i == 7 { Some('w') }
    else if i == 8 { Some('h') }
    else if i == 9 { Some('n') }
    else if i == 10 { Some('i') }
    else if i == 11 { Some('j') }
    else if i == 12 { Some('A') }
    else if i == 13 { Some('p') }
    else if i == 14 { Some('z') }
    else if i == 15 { Some('s') }
    else if i == 16 { Some('t') }
    else if i == 17 { Some('b') }
    else if i == 18 { Some('e') }
    else if i == 19 { Some('m') }
    else if i == 20 { Some('l') }
    else if i == 21 { Some('N') }
    else if i == 22 { Some('d') }
    else if i == 23 { Some('o') }
    else if i == 24 { Some('S') }
    else { None }
}

/// The rune index of `c`, if `c` is a rune letter.
pub open spec fn index_of_letter(c: char) -> Option<int> {
    if c == 'f' { Some(0) }
    else if c == 'u' { Some(1) }
    else if c == 'T' { Some(2) }
    else if c == 'a' { Some(3) }
    else if c == 'r' { Some(4) }
    else if c == 'k' { Some(5) }
    else if c == 'g' { Some(6) }
    else if c == 'w' { Some(7) }
    else if c == 'h' { Some(8) }
    else if c == 'n' { Some(9) }
    else if c == 'i' { Some(10) }
    else if c == 'j' { Some(11) }
    else if c == 'A' { Some(12) }
    else if c == 'p' { Some(13) }
    else if c == 'z' { Some(14) }
    else if c == 's' { Some(15) }
    else if c == 't' { Some(16) }
    else if c == 'b' { Some(17) }
    else if c == 'e' { Some(18) }
    else if c == 'm' { Some(19) }
    else if c == 'l' { Some(20) }
    else if c == 'N' { Some(21) }
    else if c == 'd' { Some(22) }
    else if c == 'o' { Some(23) }
    else if c == 'S' { Some(24) }
    else { None }
}

/// `c` is one of the rune letters.
pub open spec fn is_rune_letter(c: char) -> bool {
    index_of_letter(c) is Some
}

/// Every character of `s` is a rune letter.
pub open spec fn all_rune_letters(s: Seq<char>) -> bool {
    forall|i: int| 0 <= i < s.len() ==> #[trigger] is_rune_letter(s[i])
}

/// The letter of rune index `index`, or `None` past the end of the alphabet.
pub fn index_to_letter(index: usize) -> (r: Option<char>)
    ensures
        r == letter_at(index as int),
{
    match index {
        0 => Some('f'),
        1 => Some('u'),
        2 => Some('T'),
        3 => Some('a'),
        4 => Some('r'),
        5 => Some('k'),
        6 => Some('g'),
        7 => Some('w'),
        8 => Some('h'),
        9 => Some('n'),
        10 => Some('i'),
        11 => Some('j'),
        12 => Some('A'),
        13 => Some('p'),
        14 => Some('z'),
        15 => Some('s'),
        16 => Some('t'),
        17 => Some('b'),
        18 => Some('e'),
        19 => Some('m'),
        20 => Some('l'),
        21 => Some('N'),
        22 => Some('d'),
        23 => Some('o'),
        24 => Some('S'),
        _ => None,
    }
}

/// The rune index of `letter`, or `None` when it is not a rune letter.
pub fn letter_to_index(letter: char) -> (r: Option<usize>)
    ensures
        r matches Some(i) ==> index_of_letter(letter) == Some(i as int),
        r is None <==> index_of_letter(letter) is None,
{
    match letter {
        'f' => Some(0),
        'u' => Some(1),
        'T' => Some(2),
        'a' => Some(3),
        'r' => Some(4),
        'k' => Some(5),
        'g' => Some(6),
        'w' => Some(7),
        'h' => Some(8),
        'n' => Some(9),
        'i' => Some(10),
        'j' => Some(11),
        'A' => Some(12),
        'p' => Some(13),
        'z' => Some(14),
        's' => Some(15),
        't' => Some(16),
        'b' => Some(17),
        'e' => Some(18),
        'm' => Some(19),
        'l' => Some(20),
        'N' => Some(21),
        'd' => Some(22),
        'o' => Some(23),
        'S' => Some(24),
        _ => None,
    }
}

/// Rune indices and rune letters are in one-to-one correspondence: the letter
/// of index `i` has index `i`, and the index of letter `c` has letter `c`.
pub proof fn lemma_letter_index_round_trip(i: int, c: char)
    ensures
        letter_at(i) == Some(c) <==> index_of_letter(c) == Some(i),
        letter_at(i) is Some <==> 0 <= i < 25,
        index_of_letter(c) matches Some(j) ==> 0 <= j < 25,
{
}

} // verus!
