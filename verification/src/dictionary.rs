use vstd::prelude::*;

use crate::futhark::{is_rune_letter, letter_to_index};
use crate::text::{
    chars_of, find_char, first_index, push_range, push_str, string_from_chars, string_from_range,
    trim, trim_bounds,
};

verus! {

/// A dictionary entry: a word and its IPA transcription.
#[derive(Debug, Clone, PartialEq, Eq)]
pub struct Pronunciation {
    pub word: String,
    pub ipa: String,
}

/// A word spelled in runes.
#[derive(Debug, Clone, PartialEq, Eq)]
pub struct Futharkation {
    pub word: String,
    pub letters: String,
}

/// An IPA symbol for which no rune is known.
#[derive(Debug, Clone, PartialEq, Eq)]
pub struct MissingIpaMapping {
    pub word: String,
    pub ipa: String,
    pub symbol: char,
}

/// IPA symbols that carry no sound of their own (stress, length, punctuation).
pub open spec fn spec_should_skip_ipa_symbol(symbol: char) -> bool {
    symbol == 'ˈ' || symbol == 'ˌ' || symbol == '.' || symbol == ' ' || symbol == 'ː' || symbol == '(' || symbol == ')' || symbol == ',' || symbol == '-' || symbol == '"'
}

/// The rune for a two-symbol IPA sequence, if it has one of its own.
pub open spec fn spec_ipa_digraph_to_futhark(symbol: char, next: Option<char>) -> Option<char> {
    if symbol == 'd' && next == Some('ʒ') {
        Some('j')
    } else {
        None
    }
}

/// The rune for a single IPA symbol.
pub open spec fn spec_naive_ipa_to_futhark(symbol: char) -> Option<char> {
    if symbol == 'p' { Some('p') }
    else if symbol == 'b' { Some('b') }
    else if symbol == 't' { Some('t') }
    else if symbol == 'd' { Some('d') }
    else if symbol == 'k' { Some('k') }
    else if symbol == 'g' { Some('g') }
    else if symbol == 'ɡ' { Some('g') }
    else if symbol == 'f' { Some('f') }
    else if symbol == 'v' { Some('f') }
    else if symbol == 'θ' { Some('T') }
    else if symbol == 'ð' { Some('T') }
    else if symbol == 'ʃ' { Some('S') }
    else if symbol == 'ʒ' { Some('S') }
    else if symbol == 's' { Some('s') }
    else if symbol == 'z' { Some('z') }
    else if symbol == 'h' { Some('h') }
    else if symbol == 'm' { Some('m') }
    else if symbol == 'n' { Some('n') }
    else if symbol == 'ŋ' { Some('N') }
    else if symbol == 'l' { Some('l') }
    else if symbol == 'ɫ' { Some('l') }
    else if symbol == 'ɹ' { Some('r') }
    else if symbol == 'r' { Some('r') }
    else if symbol == 'ɾ' { Some('d') }
    else if symbol == 'j' { Some('j') }
    else if symbol == 'w' { Some('w') }
    else if symbol == 'i' { Some('i') }
    else if symbol == 'ɪ' { Some('i') }
    else if symbol == 'e' { Some('e') }
    else if symbol == 'ɛ' { Some('e') }
    else if symbol == 'æ' { Some('A') }
    else if symbol == 'a' { Some('a') }
    else if symbol == 'ɑ' { Some('a') }
    else if symbol == 'ɐ' { Some('a') }
    else if symbol == 'ʌ' { Some('a') }
    else if symbol == 'ə' { Some('e') }
    else if symbol == 'ɚ' { Some('r') }
    else if symbol == 'ɝ' { Some('r') }
    else if symbol == 'u' { Some('u') }
    else if symbol == 'ʊ' { Some('u') }
    else if symbol == 'o' { Some('o') }
    else if symbol == 'ɔ' { Some('o') }
    else { None }
}

/// `r` with `l` in front, errors passing through.
pub open spec fn prepend_letters(l: Seq<char>, r: Result<Seq<char>, char>) -> Result<Seq<char>, char> {
    match r {
        Ok(rest) => Ok(l + rest),
        Err(symbol) => Err(symbol),
    }
}

/// The runes that spell an IPA transcription, reading left to right: skipped
/// symbols are dropped, `dʒ` becomes `j`, every other symbol takes its own
/// rune, and the first symbol without a rune is the error.
pub open spec fn ipa_to_runes(ipa: Seq<char>) -> Result<Seq<char>, char>
    decreases ipa.len(),
{
    if ipa.len() == 0 {
        Ok(Seq::empty())
    } else if spec_should_skip_ipa_symbol(ipa[0]) {
        ipa_to_runes(ipa.drop_first())
    } else if ipa.len() >= 2 && spec_ipa_digraph_to_futhark(ipa[0], Some(ipa[1])) is Some {
        prepend_letters(
            seq![spec_ipa_digraph_to_futhark(ipa[0], Some(ipa[1]))->0],
            ipa_to_runes(ipa.skip(2)),
        )
    } else {
        match spec_naive_ipa_to_futhark(ipa[0]) {
            Some(l) => prepend_letters(seq![l], ipa_to_runes(ipa.drop_first())),
            None => Err(ipa[0]),
        }
    }
}

/// Whether `symbol` carries no sound of its own.
pub fn should_skip_ipa_symbol(symbol: char) -> (r: bool)
    ensures
        r == spec_should_skip_ipa_symbol(symbol),
{
    match symbol {
        'ˈ' | 'ˌ' | '.' | ' ' | 'ː' | '(' | ')' | ',' | '-' | '"' => true,
        _ => false,
    }
}

/// The rune for `symbol` followed by `next`, when the pair has one.
pub fn ipa_digraph_to_futhark(symbol: char, next: Option<char>) -> (r: Option<char>)
    ensures
        r == spec_ipa_digraph_to_futhark(symbol, next),
{
    match (symbol, next) {
        ('d', Some('ʒ')) => Some('j'),
        _ => None,
    }
}

/// The rune for the single IPA symbol `symbol`.
pub fn naive_ipa_to_futhark(symbol: char) -> (r: Option<char>)
    ensures
        r == spec_naive_ipa_to_futhark(symbol),
{
    match symbol {
        'p' => Some('p'),
        'b' => Some('b'),
        't' => Some('t'),
        'd' => Some('d'),
        'k' => Some('k'),
        'g' => Some('g'),
        'ɡ' => Some('g'),
        'f' => Some('f'),
        'v' => Some('f'),
        'θ' => Some('T'),
        'ð' => Some('T'),
        'ʃ' => Some('S'),
        'ʒ' => Some('S'),
        's' => Some('s'),
        'z' => Some('z'),
        'h' => Some('h'),
        'm' => Some('m'),
        'n' => Some('n'),
        'ŋ' => Some('N'),
        'l' => Some('l'),
        'ɫ' => Some('l'),
        'ɹ' => Some('r'),
        'r' => Some('r'),
        'ɾ' => Some('d'),
        'j' => Some('j'),
        'w' => Some('w'),
        'i' => Some('i'),
        'ɪ' => Some('i'),
        'e' => Some('e'),
        'ɛ' => Some('e'),
        'æ' => Some('A'),
        'a' => Some('a'),
        'ɑ' => Some('a'),
        'ɐ' => Some('a'),
        'ʌ' => Some('a'),
        'ə' => Some('e'),
        'ɚ' => Some('r'),
        'ɝ' => Some('r'),
        'u' => Some('u'),
        'ʊ' => Some('u'),
        'o' => Some('o'),
        'ɔ' => Some('o'),
        _ => None,
    }
}

/// Every rune that the IPA tables produce is a letter of the alphabet.
pub proof fn lemma_ipa_tables_give_runes(symbol: char, next: Option<char>)
    ensures
        spec_naive_ipa_to_futhark(symbol) matches Some(l) ==> is_rune_letter(l),
        spec_ipa_digraph_to_futhark(symbol, next) matches Some(l) ==> is_rune_letter(l),
{
}

/// A successful conversion spells only letters of the alphabet.
pub proof fn lemma_ipa_to_runes_spells_runes(ipa: Seq<char>)
    ensures
        ipa_to_runes(ipa) matches Ok(letters) ==> crate::futhark::all_rune_letters(letters),
    decreases ipa.len(),
{
    if ipa.len() > 0 {
        lemma_ipa_tables_give_runes(ipa[0], if ipa.len() >= 2 { Some(ipa[1]) } else { None });
        lemma_ipa_to_runes_spells_runes(ipa.drop_first());
        if ipa.len() >= 2 {
            lemma_ipa_to_runes_spells_runes(ipa.skip(2));
        }
        if let Ok(letters) = ipa_to_runes(ipa) {
            assert forall|i: int| 0 <= i < letters.len() implies #[trigger] is_rune_letter(
                letters[i],
            ) by {
                if !spec_should_skip_ipa_symbol(ipa[0]) && i > 0 {
                    if ipa.len() >= 2 && spec_ipa_digraph_to_futhark(ipa[0], Some(ipa[1])) is Some {
                        let rest = ipa_to_runes(ipa.skip(2))->Ok_0;
                        assert(letters[i] == rest[i - 1]);
                    } else {
                        let rest = ipa_to_runes(ipa.drop_first())->Ok_0;
                        assert(letters[i] == rest[i - 1]);
                    }
                }
            }
        }
    }
}

/// A spelling never has more runes than its transcription has symbols.
pub proof fn lemma_runes_no_more_than_symbols(ipa: Seq<char>)
    ensures
        ipa_to_runes(ipa) matches Ok(letters) ==> letters.len() <= ipa.len(),
    decreases ipa.len(),
{
    if ipa.len() > 0 {
        lemma_runes_no_more_than_symbols(ipa.drop_first());
        if ipa.len() >= 2 {
            lemma_runes_no_more_than_symbols(ipa.skip(2));
        }
    }
}

/// Symbols that carry no sound change nothing: inserting one anywhere in a
/// transcription, except between the `d` and `ʒ` of a `dʒ`, leaves its
/// spelling (or its error) as it was.
pub proof fn lemma_skip_symbol_changes_nothing(a: Seq<char>, s: char, b: Seq<char>)
    requires
        spec_should_skip_ipa_symbol(s),
        !(a.len() > 0 && a.last() == 'd' && b.len() > 0 && b[0] == 'ʒ'),
    ensures
        ipa_to_runes(a + seq![s] + b) == ipa_to_runes(a + b),
    decreases a.len(),
{
    let with = a + seq![s] + b;
    let without = a + b;
    if a.len() == 0 {
        assert(with.drop_first() =~= without);
    } else {
        assert(with[0] == a[0]);
        assert(without[0] == a[0]);
        assert(with.drop_first() =~= a.drop_first() + seq![s] + b);
        assert(without.drop_first() =~= a.drop_first() + b);
        if a.len() >= 2 {
            assert(with[1] == a[1]);
            assert(without[1] == a[1]);
            assert(with.skip(2) =~= a.skip(2) + seq![s] + b);
            assert(without.skip(2) =~= a.skip(2) + b);
            lemma_skip_symbol_changes_nothing(a.drop_first(), s, b);
            lemma_skip_symbol_changes_nothing(a.skip(2), s, b);
        } else {
            assert(with[1] == s);
            assert(a.last() == a[0]);
            if b.len() > 0 {
                assert(without[1] == b[0]);
            }
            lemma_skip_symbol_changes_nothing(a.drop_first(), s, b);
        }
    }
}

/// Three spellings read in turn: their runes one after another, or the first
/// error met reading left to right.
pub open spec fn spelled_in_turn(
    left: Result<Seq<char>, char>,
    mid: Result<Seq<char>, char>,
    right: Result<Seq<char>, char>,
) -> Result<Seq<char>, char> {
    match left {
        Err(e) => Err(e),
        Ok(l) => match mid {
            Err(e) => Err(e),
            Ok(m) => match right {
                Err(e) => Err(e),
                Ok(r) => Ok(l + m + r),
            },
        },
    }
}

proof fn lemma_prepend_in_turn(
    l: Seq<char>,
    left: Result<Seq<char>, char>,
    mid: Result<Seq<char>, char>,
    right: Result<Seq<char>, char>,
)
    ensures
        spelled_in_turn(prepend_letters(l, left), mid, right) == prepend_letters(
            l,
            spelled_in_turn(left, mid, right),
        ),
{
    if let Ok(x) = left {
        if let Ok(m) = mid {
            if let Ok(r) = right {
                assert(l + x + m + r =~= l + (x + m + r));
            }
        }
    }
}

/// A symbol that is not part of a `dʒ` is spelled on its own: the spelling
/// of a transcription around it is the spelling before it, then its own,
/// then the spelling after it.
proof fn lemma_spelling_splits_at(a: Seq<char>, v: char, b: Seq<char>)
    requires
        !(v == 'd' && b.len() > 0 && b[0] == 'ʒ'),
        !(v == 'ʒ' && a.len() > 0 && a.last() == 'd'),
    ensures
        ipa_to_runes(a + seq![v] + b) == spelled_in_turn(ipa_to_runes(a), ipa_to_runes(seq![v]), ipa_to_runes(b)),
    decreases a.len(),
{
    let whole = a + seq![v] + b;
    assert(seq![v].drop_first() =~= Seq::<char>::empty());
    assert(ipa_to_runes(Seq::<char>::empty()) == Ok::<Seq<char>, char>(Seq::empty()));
    if a.len() == 0 {
        assert(whole =~= seq![v] + b);
        assert(whole[0] == v);
        assert(whole.drop_first() =~= b);
        if b.len() > 0 {
            assert(whole[1] == b[0]);
        }
        if let Ok(r) = ipa_to_runes(b) {
            assert(Seq::<char>::empty() + Seq::<char>::empty() + r =~= r);
            if let Some(l) = spec_naive_ipa_to_futhark(v) {
                assert(Seq::<char>::empty() + (seq![l] + Seq::<char>::empty()) + r =~= seq![l] + r);
            }
        }
    } else {
        let x = a[0];
        assert(whole[0] == x);
        assert(whole.drop_first() =~= a.drop_first() + seq![v] + b);
        assert(a.drop_first().len() > 0 ==> a.drop_first().last() == a.last());
        lemma_spelling_splits_at(a.drop_first(), v, b);
        if a.len() >= 2 {
            assert(whole[1] == a[1]);
            assert(whole.skip(2) =~= a.skip(2) + seq![v] + b);
            assert(a.skip(2).len() > 0 ==> a.skip(2).last() == a.last());
            lemma_spelling_splits_at(a.skip(2), v, b);
            lemma_prepend_in_turn(
                seq![spec_ipa_digraph_to_futhark(x, Some(a[1]))->0],
                ipa_to_runes(a.skip(2)),
                ipa_to_runes(seq![v]),
                ipa_to_runes(b),
            );
        } else {
            assert(whole[1] == v);
            assert(a.last() == x);
        }
        if let Some(l) = spec_naive_ipa_to_futhark(x) {
            lemma_prepend_in_turn(seq![l], ipa_to_runes(a.drop_first()), ipa_to_runes(seq![v]), ipa_to_runes(b));
        }
    }
}

/// The near-open front vowel `æ` (as in "cat", `kæt`) takes the ash rune `A`,
/// wherever it stands: the spelling of a transcription with `æ` between `a`
/// and `b` is that of `a`, then `A`, then that of `b`.
pub proof fn lemma_ash_vowel_takes_the_ash_rune(a: Seq<char>, b: Seq<char>)
    ensures
        ipa_to_runes(a + seq!['æ'] + b) == spelled_in_turn(
            ipa_to_runes(a),
            Ok::<Seq<char>, char>(seq!['A']),
            ipa_to_runes(b),
        ),
{
    lemma_spelling_splits_at(a, 'æ', b);
    let one = seq!['æ'];
    assert(one[0] == 'æ');
    assert(one.drop_first() =~= Seq::<char>::empty());
    assert(ipa_to_runes(Seq::<char>::empty()) == Ok::<Seq<char>, char>(Seq::empty()));
    assert(seq!['A'] + Seq::<char>::empty() =~= seq!['A']);
    assert(ipa_to_runes(one) == Ok::<Seq<char>, char>(seq!['A']));
}

/// The open and central vowels `a`, `ɑ`, `ɐ` and `ʌ` take the plain `a` rune,
/// wherever they stand.
pub proof fn lemma_open_vowels_take_the_a_rune(a: Seq<char>, v: char, b: Seq<char>)
    requires
        v == 'a' || v == 'ɑ' || v == 'ɐ' || v == 'ʌ',
    ensures
        ipa_to_runes(a + seq![v] + b) == spelled_in_turn(
            ipa_to_runes(a),
            Ok::<Seq<char>, char>(seq!['a']),
            ipa_to_runes(b),
        ),
{
    lemma_spelling_splits_at(a, v, b);
    let one = seq![v];
    assert(one[0] == v);
    assert(one.drop_first() =~= Seq::<char>::empty());
    assert(ipa_to_runes(Seq::<char>::empty()) == Ok::<Seq<char>, char>(Seq::empty()));
    assert(seq!['a'] + Seq::<char>::empty() =~= seq!['a']);
    assert(ipa_to_runes(one) == Ok::<Seq<char>, char>(seq!['a']));
}

/// Each speech sound takes its rune wherever it stands (outside a `dʒ`, which
/// is spelled `j`): the stops, fricatives, nasals and approximants their like
/// letter (`ɡ` as `g`, `v` as `f`, `ɫ` as `l`, `ɹ` as `r`, the flap `ɾ` as `d`),
/// `θ` and `ð` the thorn `T`, `ʃ` and `ʒ` the rune `S`, `ŋ` the rune `N`; the
/// vowels `i ɪ` as `i`, `e ɛ ə` as `e`, `æ` as `A`, `a ɑ ɐ ʌ` as `a`, `u ʊ`
/// as `u`, `o ɔ` as `o`, and the r-coloured `ɚ ɝ` as `r`.
pub proof fn lemma_each_sound_takes_its_rune(a: Seq<char>, v: char, rune: char, b: Seq<char>)
    requires
        (v == 'p' && rune == 'p') || (v == 'b' && rune == 'b') || (v == 't' && rune == 't')
            || (v == 'd' && rune == 'd') || (v == 'k' && rune == 'k') || (v == 'g' && rune == 'g')
            || (v == 'ɡ' && rune == 'g') || (v == 'f' && rune == 'f') || (v == 'v' && rune == 'f')
            || (v == 'θ' && rune == 'T') || (v == 'ð' && rune == 'T') || (v == 'ʃ' && rune == 'S')
            || (v == 'ʒ' && rune == 'S') || (v == 's' && rune == 's') || (v == 'z' && rune == 'z')
            || (v == 'h' && rune == 'h') || (v == 'm' && rune == 'm') || (v == 'n' && rune == 'n')
            || (v == 'ŋ' && rune == 'N') || (v == 'l' && rune == 'l') || (v == 'ɫ' && rune == 'l')
            || (v == 'ɹ' && rune == 'r') || (v == 'r' && rune == 'r') || (v == 'ɾ' && rune == 'd')
            || (v == 'j' && rune == 'j') || (v == 'w' && rune == 'w') || (v == 'i' && rune == 'i')
            || (v == 'ɪ' && rune == 'i') || (v == 'e' && rune == 'e') || (v == 'ɛ' && rune == 'e')
            || (v == 'æ' && rune == 'A') || (v == 'a' && rune == 'a') || (v == 'ɑ' && rune == 'a')
            || (v == 'ɐ' && rune == 'a') || (v == 'ʌ' && rune == 'a') || (v == 'ə' && rune == 'e')
            || (v == 'ɚ' && rune == 'r') || (v == 'ɝ' && rune == 'r') || (v == 'u' && rune == 'u')
            || (v == 'ʊ' && rune == 'u') || (v == 'o' && rune == 'o') || (v == 'ɔ' && rune == 'o'),
        !(v == 'd' && b.len() > 0 && b[0] == 'ʒ'),
        !(v == 'ʒ' && a.len() > 0 && a.last() == 'd'),
    ensures
        ipa_to_runes(a + seq![v] + b) == spelled_in_turn(
            ipa_to_runes(a),
            Ok::<Seq<char>, char>(seq![rune]),
            ipa_to_runes(b),
        ),
{
    lemma_spelling_splits_at(a, v, b);
    let one = seq![v];
    assert(one[0] == v);
    assert(one.drop_first() =~= Seq::<char>::empty());
    assert(ipa_to_runes(Seq::<char>::empty()) == Ok::<Seq<char>, char>(Seq::empty()));
    assert(seq![rune] + Seq::<char>::empty() =~= seq![rune]);
    assert(ipa_to_runes(one) == Ok::<Seq<char>, char>(seq![rune]));
}

/// `d` followed by `ʒ` is the affricate `dʒ` (as in "judge"), spelled with the
/// single rune `j`, wherever it stands (unless a `d` before it takes the `d`
/// into an affricate of its own).
pub proof fn lemma_affricate_takes_the_j_rune(a: Seq<char>, b: Seq<char>)
    requires
        !(a.len() > 0 && a.last() == 'd'),
    ensures
        ipa_to_runes(a + seq!['d', 'ʒ'] + b) == spelled_in_turn(
            ipa_to_runes(a),
            Ok::<Seq<char>, char>(seq!['j']),
            ipa_to_runes(b),
        ),
    decreases a.len(),
{
    let whole = a + seq!['d', 'ʒ'] + b;
    if a.len() == 0 {
        assert(whole[0] == 'd' && whole[1] == 'ʒ');
        assert(whole.skip(2) =~= b);
        if let Ok(r) = ipa_to_runes(b) {
            assert(Seq::<char>::empty() + seq!['j'] + r =~= seq!['j'] + r);
        }
    } else {
        let x = a[0];
        assert(whole[0] == x);
        assert(whole.drop_first() =~= a.drop_first() + seq!['d', 'ʒ'] + b);
        assert(a.drop_first().len() > 0 ==> a.drop_first().last() == a.last());
        lemma_affricate_takes_the_j_rune(a.drop_first(), b);
        if a.len() >= 2 {
            assert(whole[1] == a[1]);
            assert(whole.skip(2) =~= a.skip(2) + seq!['d', 'ʒ'] + b);
            assert(a.skip(2).len() > 0 ==> a.skip(2).last() == a.last());
            lemma_affricate_takes_the_j_rune(a.skip(2), b);
            lemma_prepend_in_turn(
                seq![spec_ipa_digraph_to_futhark(x, Some(a[1]))->0],
                ipa_to_runes(a.skip(2)),
                Ok::<Seq<char>, char>(seq!['j']),
                ipa_to_runes(b),
            );
        } else {
            assert(whole[1] == 'd');
            assert(a.last() == x);
        }
        if let Some(l) = spec_naive_ipa_to_futhark(x) {
            lemma_prepend_in_turn(seq![l], ipa_to_runes(a.drop_first()), Ok::<Seq<char>, char>(seq!['j']), ipa_to_runes(b));
        }
    }
}

/// Marks that carry no sound are dropped: the primary and secondary stress
/// marks, the length mark, syllable breaks, spaces, brackets, commas, hyphens
/// and quotes. Inserting one anywhere in a transcription, except between the
/// `d` and `ʒ` of a `dʒ`, leaves its spelling (or its error) as it was; so
/// `ˌəndɝˈstænd` spells as `əndɝstænd` does.
pub proof fn lemma_marks_carry_no_sound(a: Seq<char>, s: char, b: Seq<char>)
    requires
        s == 'ˈ' || s == 'ˌ' || s == 'ː' || s == '.' || s == ' ' || s == '(' || s == ')' || s == ','
            || s == '-' || s == '"',
        !(a.len() > 0 && a.last() == 'd' && b.len() > 0 && b[0] == 'ʒ'),
    ensures
        ipa_to_runes(a + seq![s] + b) == ipa_to_runes(a + b),
{
    assert(spec_should_skip_ipa_symbol(s));
    lemma_skip_symbol_changes_nothing(a, s, b);
}

/// `acc` in front of the result of converting the rest.
pub open spec fn after_prefix(acc: Seq<char>, r: Result<Seq<char>, char>) -> Result<Seq<char>, char> {
    prepend_letters(acc, r)
}

impl Pronunciation {
    /// Spells the word in runes from its IPA transcription.
    pub fn to_futharkation(&self) -> (r: Result<Futharkation, MissingIpaMapping>)
        ensures
            match r {
                Ok(f) => ipa_to_runes(self.ipa@) == Ok::<Seq<char>, char>(f.letters@) && f.word@
                    == self.word@,
                Err(m) => ipa_to_runes(self.ipa@) == Err::<Seq<char>, char>(m.symbol) && m.word@
                    == self.word@ && m.ipa@ == self.ipa@,
            },
    {
        let ipa = chars_of(self.ipa.as_str());
        let mut letters: Vec<char> = Vec::new();
        let mut i: usize = 0;
        assert(ipa@.skip(0) =~= ipa@);
        proof {
            if let Ok(all) = ipa_to_runes(ipa@) {
                assert(letters@ + all =~= all);
            }
        }
        while i < ipa.len()
            invariant
                i <= ipa.len(),
                ipa@ == self.ipa@,
                ipa_to_runes(ipa@) == after_prefix(letters@, ipa_to_runes(ipa@.skip(i as int))),
            decreases ipa.len() - i,
        {
            let ghost rest = ipa@.skip(i as int);
            assert(rest.drop_first() =~= ipa@.skip(i + 1));
            let symbol = ipa[i];
            if should_skip_ipa_symbol(symbol) {
                i = i + 1;
                continue;
            }
            let next = if i + 1 < ipa.len() { Some(ipa[i + 1]) } else { None };
            if let Some(letter) = ipa_digraph_to_futhark(symbol, next) {
                assert(rest.skip(2) =~= ipa@.skip(i + 2));
                assert(after_prefix(letters@, prepend_letters(seq![letter], ipa_to_runes(rest.skip(2))))
                    == after_prefix(letters@.push(letter), ipa_to_runes(rest.skip(2)))) by {
                    assert(letters@ + (seq![letter] + ipa_to_runes(rest.skip(2))->Ok_0)
                        =~= letters@.push(letter) + ipa_to_runes(rest.skip(2))->Ok_0);
                }
                letters.push(letter);
                i = i + 2;
                continue;
            }
            match naive_ipa_to_futhark(symbol) {
                Some(letter) => {
                    assert(after_prefix(letters@, prepend_letters(seq![letter], ipa_to_runes(rest.drop_first())))
                        == after_prefix(letters@.push(letter), ipa_to_runes(rest.drop_first()))) by {
                        assert(letters@ + (seq![letter] + ipa_to_runes(rest.drop_first())->Ok_0)
                            =~= letters@.push(letter) + ipa_to_runes(rest.drop_first())->Ok_0);
                    }
                    letters.push(letter);
                    i = i + 1;
                },
                None => {
                    return Err(
                        MissingIpaMapping {
                            word: self.word.clone(),
                            ipa: self.ipa.clone(),
                            symbol,
                        },
                    );
                },
            }
        }
        assert(letters@ + Seq::<char>::empty() =~= letters@);
        Ok(Futharkation { word: self.word.clone(), letters: string_from_chars(letters.as_slice()) })
    }
}

/// The message that reports a missing IPA mapping.
pub open spec fn missing_mapping_message(symbol: char, word: Seq<char>, ipa: Seq<char>) -> Seq<char> {
    "Missing futhark mapping for IPA symbol '"@ + seq![symbol] + "' in word '"@ + word + "' ("@ + ipa
        + ")"@
}

impl MissingIpaMapping {
    /// The human-readable description of the missing mapping.
    pub fn to_string(&self) -> (s: String)
        ensures
            s@ == missing_mapping_message(self.symbol, self.word@, self.ipa@),
    {
        let mut out: Vec<char> = Vec::new();
        push_str(&mut out, "Missing futhark mapping for IPA symbol '");
        out.push(self.symbol);
        push_str(&mut out, "' in word '");
        push_str(&mut out, self.word.as_str());
        push_str(&mut out, "' (");
        push_str(&mut out, self.ipa.as_str());
        push_str(&mut out, ")");
        assert(out@ =~= missing_mapping_message(self.symbol, self.word@, self.ipa@));
        string_from_chars(out.as_slice())
    }
}

/// What a dictionary line holds: the trimmed word before the first `/` and
/// the trimmed IPA between it and the next `/`; or the reason it is malformed.
pub open spec fn spec_parse_pronunciation_line(line: Seq<char>) -> Result<(Seq<char>, Seq<char>), Seq<char>> {
    match first_index(line, '/') {
        None => Err("missing IPA start slash: "@ + line),
        Some(p1) => {
            let after = line.skip(p1 + 1);
            match first_index(after, '/') {
                None => Err("missing IPA end slash: "@ + line),
                Some(p2) => {
                    let word = trim(line.take(p1));
                    let ipa = trim(after.take(p2));
                    if word.len() == 0 {
                        Err("missing word before IPA: "@ + line)
                    } else if ipa.len() == 0 {
                        Err("missing IPA body: "@ + line)
                    } else {
                        Ok((word, ipa))
                    }
                },
            }
        },
    }
}

/// `prefix` followed by `rest`, as a `String`.
fn message(prefix: &str, rest: &Vec<char>) -> (s: String)
    ensures
        s@ == prefix@ + rest@,
{
    let mut out: Vec<char> = Vec::new();
    push_str(&mut out, prefix);
    push_range(&mut out, rest, 0, rest.len());
    assert(rest@.subrange(0, rest@.len() as int) =~= rest@);
    string_from_chars(out.as_slice())
}

/// Reads one `word /ipa/` line of the dictionary.
pub fn parse_pronunciation_line(line: &str) -> (r: Result<Pronunciation, String>)
    ensures
        match r {
            Ok(p) => spec_parse_pronunciation_line(line@) == Ok::<(Seq<char>, Seq<char>), Seq<char>>(
                (p.word@, p.ipa@),
            ),
            Err(e) => spec_parse_pronunciation_line(line@) == Err::<
                (Seq<char>, Seq<char>),
                Seq<char>,
            >(e@),
        },
{
    let chars = chars_of(line);
    assert(chars@.skip(0) =~= chars@);
    let p1 = match find_char(&chars, '/', 0) {
        Some(p) => p,
        None => {
            return Err(message("missing IPA start slash: ", &chars));
        },
    };
    proof {
        crate::text::lemma_first_index(chars@, '/');
        crate::text::lemma_first_index(chars@.skip(p1 + 1), '/');
    }
    let p2 = match find_char(&chars, '/', p1 + 1) {
        Some(p) => p,
        None => {
            return Err(message("missing IPA end slash: ", &chars));
        },
    };
    let ghost after = chars@.skip(p1 + 1);
    assert(chars@.take(p1 as int) =~= chars@.subrange(0, p1 as int));
    assert(after.take(p2 - (p1 + 1)) =~= chars@.subrange(p1 + 1, p2 as int));
    let (wa, wb) = trim_bounds(&chars, 0, p1);
    if wa == wb {
        return Err(message("missing word before IPA: ", &chars));
    }
    let (ia, ib) = trim_bounds(&chars, p1 + 1, p2);
    if ia == ib {
        return Err(message("missing IPA body: ", &chars));
    }
    Ok(Pronunciation { word: string_from_range(&chars, wa, wb), ipa: string_from_range(&chars, ia, ib) })
}

/// The message that prefixes a parse error with its line number.
pub open spec fn line_error(line_no: nat, message: Seq<char>) -> Seq<char> {
    "line "@ + crate::text::decimal(line_no) + ": "@ + message
}

/// Parsed entries as (word, ipa) pairs.
pub open spec fn pronunciation_views(ps: Seq<Pronunciation>) -> Seq<(Seq<char>, Seq<char>)> {
    Seq::new(ps.len(), |k: int| (ps[k].word@, ps[k].ipa@))
}

/// `acc` in front of a parse result, errors passing through.
pub open spec fn after_entries(
    acc: Seq<(Seq<char>, Seq<char>)>,
    r: Result<Seq<(Seq<char>, Seq<char>)>, Seq<char>>,
) -> Result<Seq<(Seq<char>, Seq<char>)>, Seq<char>> {
    match r {
        Ok(rest) => Ok(acc + rest),
        Err(e) => Err(e),
    }
}

/// The result of one line, numbered `line_no`, in front of the result `rest`
/// of the lines after it: blank lines are skipped and the first malformed
/// line is the error.
pub open spec fn parse_step(
    line: Seq<char>,
    line_no: nat,
    rest: Result<Seq<(Seq<char>, Seq<char>)>, Seq<char>>,
) -> Result<Seq<(Seq<char>, Seq<char>)>, Seq<char>> {
    if line.len() == 0 {
        rest
    } else {
        match spec_parse_pronunciation_line(line) {
            Err(m) => Err(line_error(line_no, m)),
            Ok(p) => after_entries(seq![p], rest),
        }
    }
}

/// The entries of a dictionary text whose first line is numbered `line_no`:
/// one entry per non-blank line, each line trimmed.
pub open spec fn parse_text(s: Seq<char>, line_no: nat) -> Result<Seq<(Seq<char>, Seq<char>)>, Seq<char>>
    decreases s.len(),
{
    proof {
        crate::text::lemma_first_index(s, '\n');
    }
    match first_index(s, '\n') {
        Some(i) => parse_step(trim(s.take(i)), line_no, parse_text(s.skip(i + 1), line_no + 1)),
        None => parse_step(trim(s), line_no, Ok(Seq::empty())),
    }
}

fn line_error_message(line_no: usize, m: &String) -> (s: String)
    ensures
        s@ == line_error(line_no as nat, m@),
{
    let mut out: Vec<char> = Vec::new();
    push_str(&mut out, "line ");
    let digits = crate::text::decimal_chars(line_no);
    push_range(&mut out, &digits, 0, digits.len());
    push_str(&mut out, ": ");
    push_str(&mut out, m.as_str());
    assert(digits@.subrange(0, digits@.len() as int) =~= digits@);
    assert(out@ =~= line_error(line_no as nat, m@));
    string_from_chars(out.as_slice())
}

/// Reads a dictionary text: one `word /ipa/` entry per non-blank line. The
/// first malformed line is reported with its line number.
pub fn parse_pronunciations(source: &str) -> (r: Result<Vec<Pronunciation>, String>)
    requires
        source@.len() < usize::MAX,
    ensures
        match r {
            Ok(ps) => parse_text(source@, 1) == Ok::<Seq<(Seq<char>, Seq<char>)>, Seq<char>>(
                pronunciation_views(ps@),
            ),
            Err(e) => parse_text(source@, 1) == Err::<Seq<(Seq<char>, Seq<char>)>, Seq<char>>(e@),
        },
{
    let chars = chars_of(source);
    let mut items: Vec<Pronunciation> = Vec::new();
    let mut start: usize = 0;
    let mut line_no: usize = 1;
    assert(chars@.skip(0) =~= chars@);
    proof {
        if let Ok(all) = parse_text(chars@, 1) {
            assert(pronunciation_views(items@) + all =~= all);
        }
    }
    loop
        invariant
            start <= chars.len(),
            chars@ == source@,
            chars@.len() < usize::MAX,
            1 <= line_no <= start + 1,
            parse_text(chars@, 1) == after_entries(
                pronunciation_views(items@),
                parse_text(chars@.skip(start as int), line_no as nat),
            ),
        decreases chars.len() - start,
    {
        let ghost rest_text = chars@.skip(start as int);
        let ghost acc = pronunciation_views(items@);
        let nl = find_char(&chars, '\n', start);
        proof {
            crate::text::lemma_first_index(rest_text, '\n');
        }
        let end = match nl {
            Some(e) => e,
            None => chars.len(),
        };
        assert(rest_text.take(end - start) =~= chars@.subrange(start as int, end as int));
        assert(nl is None ==> rest_text =~= chars@.subrange(start as int, end as int));
        let (a, b) = trim_bounds(&chars, start, end);
        let ghost line_text = chars@.subrange(a as int, b as int);
        let ghost tail = match nl {
            Some(e) => parse_text(chars@.skip(e + 1), (line_no + 1) as nat),
            None => Ok(Seq::empty()),
        };
        assert(nl matches Some(e) ==> rest_text.skip(e - start + 1) =~= chars@.skip(e + 1));
        assert(parse_text(rest_text, line_no as nat) == parse_step(line_text, line_no as nat, tail));
        if a < b {
            let line = string_from_range(&chars, a, b);
            match parse_pronunciation_line(line.as_str()) {
                Ok(p) => {
                    items.push(p);
                    proof {
                        if let Ok(t) = tail {
                            assert(acc + (seq![(p.word@, p.ipa@)] + t) =~= pronunciation_views(
                                items@,
                            ) + t);
                        }
                    }
                },
                Err(m) => {
                    return Err(line_error_message(line_no, &m));
                },
            }
        } else {
            assert(pronunciation_views(items@) == acc);
        }
        match nl {
            Some(e) => {
                start = e + 1;
                line_no = line_no + 1;
            },
            None => {
                assert(pronunciation_views(items@) + Seq::empty() =~= pronunciation_views(items@));
                return Ok(items);
            },
        }
    }
}

/// Converted entries as (word, letters) pairs.
pub open spec fn futharkation_views(fs: Seq<Futharkation>) -> Seq<(Seq<char>, Seq<char>)> {
    Seq::new(fs.len(), |k: int| (fs[k].word@, fs[k].letters@))
}

/// Every entry spelled in runes, in order; the first entry that cannot be
/// spelled is the error.
pub open spec fn futharkations_of(ps: Seq<(Seq<char>, Seq<char>)>) -> Result<Seq<(Seq<char>, Seq<char>)>, Seq<char>>
    decreases ps.len(),
{
    if ps.len() == 0 {
        Ok(Seq::empty())
    } else {
        match ipa_to_runes(ps[0].1) {
            Err(symbol) => Err(missing_mapping_message(symbol, ps[0].0, ps[0].1)),
            Ok(letters) => after_entries(seq![(ps[0].0, letters)], futharkations_of(ps.drop_first())),
        }
    }
}

/// Spells every entry of `pronunciations` in runes.
pub fn collect_futharkations(pronunciations: &[Pronunciation]) -> (r: Result<Vec<Futharkation>, String>)
    ensures
        match r {
            Ok(fs) => futharkations_of(pronunciation_views(pronunciations@)) == Ok::<
                Seq<(Seq<char>, Seq<char>)>,
                Seq<char>,
            >(futharkation_views(fs@)),
            Err(e) => futharkations_of(pronunciation_views(pronunciations@)) == Err::<
                Seq<(Seq<char>, Seq<char>)>,
                Seq<char>,
            >(e@),
        },
{
    let ghost all = pronunciation_views(pronunciations@);
    let mut out: Vec<Futharkation> = Vec::new();
    let mut i: usize = 0;
    assert(all.skip(0) =~= all);
    proof {
        if let Ok(fs) = futharkations_of(all) {
            assert(futharkation_views(out@) + fs =~= fs);
        }
    }
    while i < pronunciations.len()
        invariant
            i <= pronunciations.len(),
            all == pronunciation_views(pronunciations@),
            futharkations_of(all) == after_entries(
                futharkation_views(out@),
                futharkations_of(all.skip(i as int)),
            ),
        decreases pronunciations.len() - i,
    {
        let ghost rest = all.skip(i as int);
        assert(rest.drop_first() =~= all.skip(i + 1));
        assert(rest[0] == (pronunciations@[i as int].word@, pronunciations@[i as int].ipa@));
        match pronunciations[i].to_futharkation() {
            Ok(f) => {
                let ghost before = futharkation_views(out@);
                out.push(f);
                proof {
                    if let Ok(t) = futharkations_of(all.skip(i + 1)) {
                        assert(before + (seq![(f.word@, f.letters@)] + t) =~= futharkation_views(
                            out@,
                        ) + t);
                    }
                }
            },
            Err(missing) => {
                return Err(missing.to_string());
            },
        }
        i = i + 1;
    }
    assert(all.skip(i as int) =~= Seq::<(Seq<char>, Seq<char>)>::empty());
    assert(futharkation_views(out@) + Seq::empty() =~= futharkation_views(out@));
    Ok(out)
}

/// Index of the first entry at or after `k` whose word equals `word` up to
/// ASCII case.
pub open spec fn first_word_match(ps: Seq<(Seq<char>, Seq<char>)>, word: Seq<char>, k: int) -> Option<int>
    decreases ps.len() - k,
{
    if k < 0 || k >= ps.len() {
        None
    } else if crate::text::spec_eq_ignore_ascii_case(ps[k].0, word) {
        Some(k)
    } else {
        first_word_match(ps, word, k + 1)
    }
}

/// The message for a word that the dictionary lacks.
pub open spec fn word_not_found_message(word: Seq<char>) -> Seq<char> {
    "word '"@ + word + "' was not found in default pronunciations"@
}

/// The first entry for `word` (up to ASCII case), spelled in runes under the
/// spelling `word` was asked with.
pub open spec fn spec_futharkation_from_word_in(ps: Seq<(Seq<char>, Seq<char>)>, word: Seq<char>) -> Result<(Seq<char>, Seq<char>), Seq<char>> {
    match first_word_match(ps, word, 0) {
        None => Err(word_not_found_message(word)),
        Some(k) => match ipa_to_runes(ps[k].1) {
            Err(symbol) => Err(missing_mapping_message(symbol, ps[k].0, ps[k].1)),
            Ok(letters) => Ok((word, letters)),
        },
    }
}

/// Looks `word` up (ignoring ASCII case) in `pronunciations` and spells it in
/// runes; the result carries `word` as it was given.
pub fn futharkation_from_word_in_pronunciations(pronunciations: &[Pronunciation], word: &str) -> (r:
    Result<Futharkation, String>)
    ensures
        match r {
            Ok(f) => spec_futharkation_from_word_in(pronunciation_views(pronunciations@), word@)
                == Ok::<(Seq<char>, Seq<char>), Seq<char>>((f.word@, f.letters@)),
            Err(e) => spec_futharkation_from_word_in(pronunciation_views(pronunciations@), word@)
                == Err::<(Seq<char>, Seq<char>), Seq<char>>(e@),
        },
{
    let ghost all = pronunciation_views(pronunciations@);
    let wanted = chars_of(word);
    let mut i: usize = 0;
    while i < pronunciations.len()
        invariant
            i <= pronunciations.len(),
            all == pronunciation_views(pronunciations@),
            wanted@ == word@,
            first_word_match(all, word@, 0) == first_word_match(all, word@, i as int),
        decreases pronunciations.len() - i,
    {
        let candidate = chars_of(pronunciations[i].word.as_str());
        if crate::text::eq_ignore_ascii_case(&candidate, &wanted) {
            match pronunciations[i].to_futharkation() {
                Ok(mapped) => {
                    return Ok(Futharkation { word: crate::text::owned(word), letters: mapped.letters });
                },
                Err(missing) => {
                    return Err(missing.to_string());
                },
            }
        }
        i = i + 1;
    }
    let mut out: Vec<char> = Vec::new();
    push_str(&mut out, "word '");
    push_str(&mut out, word);
    push_str(&mut out, "' was not found in default pronunciations");
    assert(out@ =~= word_not_found_message(word@));
    Err(string_from_chars(out.as_slice()))
}

/// Reads the default dictionary, whose text is `default_dictionary`.
pub fn load_default_pronunciations(default_dictionary: &str) -> (r: Result<Vec<Pronunciation>, String>)
    requires
        default_dictionary@.len() < usize::MAX,
    ensures
        match r {
            Ok(ps) => parse_text(default_dictionary@, 1) == Ok::<
                Seq<(Seq<char>, Seq<char>)>,
                Seq<char>,
            >(pronunciation_views(ps@)),
            Err(e) => parse_text(default_dictionary@, 1) == Err::<
                Seq<(Seq<char>, Seq<char>)>,
                Seq<char>,
            >(e@),
        },
{
    parse_pronunciations(default_dictionary)
}

/// Every entry of the dictionary text spelled in runes.
pub open spec fn spec_default_futharkations(dictionary: Seq<char>) -> Result<Seq<(Seq<char>, Seq<char>)>, Seq<char>> {
    match parse_text(dictionary, 1) {
        Err(e) => Err(e),
        Ok(ps) => futharkations_of(ps),
    }
}

/// Reads the default dictionary and spells every entry in runes.
pub fn load_default_futharkations(default_dictionary: &str) -> (r: Result<Vec<Futharkation>, String>)
    requires
        default_dictionary@.len() < usize::MAX,
    ensures
        match r {
            Ok(fs) => spec_default_futharkations(default_dictionary@) == Ok::<
                Seq<(Seq<char>, Seq<char>)>,
                Seq<char>,
            >(futharkation_views(fs@)),
            Err(e) => spec_default_futharkations(default_dictionary@) == Err::<
                Seq<(Seq<char>, Seq<char>)>,
                Seq<char>,
            >(e@),
        },
{
    let pronunciations = load_default_pronunciations(default_dictionary)?;
    collect_futharkations(pronunciations.as_slice())
}

/// `word` looked up in the dictionary text and spelled in runes.
pub open spec fn spec_futharkation_from_word(dictionary: Seq<char>, word: Seq<char>) -> Result<(Seq<char>, Seq<char>), Seq<char>> {
    match parse_text(dictionary, 1) {
        Err(e) => Err(e),
        Ok(ps) => spec_futharkation_from_word_in(ps, word),
    }
}

/// Looks `word` up in the default dictionary and spells it in runes.
pub fn futharkation_from_word(default_dictionary: &str, word: &str) -> (r: Result<Futharkation, String>)
    requires
        default_dictionary@.len() < usize::MAX,
    ensures
        match r {
            Ok(f) => spec_futharkation_from_word(default_dictionary@, word@) == Ok::<
                (Seq<char>, Seq<char>),
                Seq<char>,
            >((f.word@, f.letters@)),
            Err(e) => spec_futharkation_from_word(default_dictionary@, word@) == Err::<
                (Seq<char>, Seq<char>),
                Seq<char>,
            >(e@),
        },
{
    let pronunciations = load_default_pronunciations(default_dictionary)?;
    futharkation_from_word_in_pronunciations(pronunciations.as_slice(), word)
}

/// Index of the first character at or after `k` that is not a rune letter.
pub open spec fn first_non_rune(s: Seq<char>, k: int) -> Option<int>
    decreases s.len() - k,
{
    if k < 0 || k >= s.len() {
        None
    } else if !is_rune_letter(s[k]) {
        Some(k)
    } else {
        first_non_rune(s, k + 1)
    }
}

/// The message for an override that is blank.
pub open spec fn empty_override_message(word: Seq<char>) -> Seq<char> {
    "spell '"@ + word + "' has an empty futharkation override"@
}

/// The message for an override holding a character that is not a rune.
pub open spec fn invalid_override_message(word: Seq<char>, invalid: char, letters: Seq<char>) -> Seq<char> {
    "spell '"@ + word + "' has invalid futhark symbol '"@ + seq![invalid] + "' in override '"@ + letters
        + "'"@
}

/// A spell's rune spelling: the trimmed override when one is given (which must
/// be non-blank and all runes), else the dictionary spelling of the word.
pub open spec fn spec_futharkation_with_override(
    dictionary: Seq<char>,
    word: Seq<char>,
    override_letters: Option<Seq<char>>,
) -> Result<(Seq<char>, Seq<char>), Seq<char>> {
    match override_letters {
        Some(raw) => {
            let letters = trim(raw);
            if letters.len() == 0 {
                Err(empty_override_message(word))
            } else {
                match first_non_rune(letters, 0) {
                    Some(k) => Err(invalid_override_message(word, letters[k], letters)),
                    None => Ok((word, letters)),
                }
            }
        },
        None => spec_futharkation_from_word(dictionary, word),
    }
}

/// The view of an optional string.
pub open spec fn opt_view(s: Option<&str>) -> Option<Seq<char>> {
    match s {
        Some(t) => Some(t@),
        None => None,
    }
}

/// Spells a spell word in runes: an explicit override wins over the
/// dictionary, after checking that it is made of runes.
pub fn futharkation_from_word_with_override(
    default_dictionary: &str,
    word: &str,
    override_letters: Option<&str>,
) -> (r: Result<Futharkation, String>)
    requires
        default_dictionary@.len() < usize::MAX,
    ensures
        match r {
            Ok(f) => spec_futharkation_with_override(default_dictionary@, word@, opt_view(override_letters))
                == Ok::<(Seq<char>, Seq<char>), Seq<char>>((f.word@, f.letters@)),
            Err(e) => spec_futharkation_with_override(default_dictionary@, word@, opt_view(override_letters))
                == Err::<(Seq<char>, Seq<char>), Seq<char>>(e@),
        },
{
    if let Some(raw) = override_letters {
        let chars = chars_of(raw);
        let (a, b) = trim_bounds(&chars, 0, chars.len());
        assert(chars@.subrange(0, chars@.len() as int) =~= raw@);
        let ghost letters = chars@.subrange(a as int, b as int);
        if a == b {
            let mut out: Vec<char> = Vec::new();
            push_str(&mut out, "spell '");
            push_str(&mut out, word);
            push_str(&mut out, "' has an empty futharkation override");
            assert(out@ =~= empty_override_message(word@));
            return Err(string_from_chars(out.as_slice()));
        }
        let mut k = a;
        while k < b
            invariant
                a <= k <= b <= chars.len(),
                letters == chars@.subrange(a as int, b as int),
                letters == trim(raw@),
                letters.len() > 0,
                override_letters == Some(raw),
                first_non_rune(letters, 0) == first_non_rune(letters, k - a),
            decreases b - k,
        {
            assert(letters[k - a] == chars@[k as int]);
            if letter_to_index(chars[k]).is_none() {
                assert(first_non_rune(letters, k - a) == Some(k - a));
                let mut out: Vec<char> = Vec::new();
                push_str(&mut out, "spell '");
                push_str(&mut out, word);
                push_str(&mut out, "' has invalid futhark symbol '");
                out.push(chars[k]);
                push_str(&mut out, "' in override '");
                push_range(&mut out, &chars, a, b);
                push_str(&mut out, "'");
                assert(out@ =~= invalid_override_message(word@, letters[k - a], letters));
                return Err(string_from_chars(out.as_slice()));
            }
            k = k + 1;
        }
        return Ok(Futharkation { word: crate::text::owned(word), letters: string_from_range(&chars, a, b) });
    }
    futharkation_from_word(default_dictionary, word)
}

/// Without an override, a spell is spelled by the dictionary: reading the
/// dictionary text and looking the word up in what it holds.
pub proof fn lemma_no_override_is_dictionary_lookup(dictionary: Seq<char>, word: Seq<char>)
    ensures
        spec_futharkation_with_override(dictionary, word, None) == spec_futharkation_from_word(
            dictionary,
            word,
        ),
        spec_futharkation_from_word(dictionary, word) == match parse_text(dictionary, 1) {
            Err(e) => Err(e),
            Ok(ps) => spec_futharkation_from_word_in(ps, word),
        },
{
}

/// The message for a rune length that no entry has.
pub open spec fn no_rune_length_message(rune_length: nat) -> Seq<char> {
    "no futharkation found with rune length "@ + crate::text::decimal(rune_length)
        + " in the default dictionary"@
}

/// Picks, at random, one entry of `pronunciations` whose rune spelling has
/// exactly `rune_length` runes.
pub fn random_futharkation_with_rune_length_from_pronunciations(
    pronunciations: &[Pronunciation],
    rune_length: usize,
    rng: &mut rand::rngs::StdRng,
) -> (r: Result<Futharkation, String>)
    ensures
        match futharkations_of(pronunciation_views(pronunciations@)) {
            Err(e) => r matches Err(m) && m@ == e,
            Ok(fs) => {
                &&& r matches Ok(f) ==> fs.contains((f.word@, f.letters@)) && f.letters@.len()
                    == rune_length
                &&& r matches Err(m) ==> m@ == no_rune_length_message(rune_length as nat)
                    && forall|k: int| 0 <= k < fs.len() ==> (#[trigger] fs[k]).1.len() != rune_length
            },
        },
{
    let all = collect_futharkations(pronunciations)?;
    let ghost fs = futharkation_views(all@);
    let mut matches: Vec<usize> = Vec::new();
    let mut i: usize = 0;
    while i < all.len()
        invariant
            i <= all.len(),
            fs == futharkation_views(all@),
            forall|j: int| 0 <= j < matches.len() ==> #[trigger] matches@[j] < all.len() && fs[matches@[j] as int].1.len() == rune_length,
            forall|k: int| 0 <= k < i && (#[trigger] fs[k]).1.len() == rune_length ==> matches@.len() > 0,
        decreases all.len() - i,
    {
        if chars_of(all[i].letters.as_str()).len() == rune_length {
            matches.push(i);
        }
        i = i + 1;
    }
    match crate::random::choose_index(rng, matches.len()) {
        Some(pick) => {
            let k = matches[pick];
            assert(fs[k as int] == (all@[k as int].word@, all@[k as int].letters@));
            Ok(Futharkation { word: all[k].word.clone(), letters: all[k].letters.clone() })
        },
        None => {
            let mut out: Vec<char> = Vec::new();
            push_str(&mut out, "no futharkation found with rune length ");
            let digits = crate::text::decimal_chars(rune_length);
            push_range(&mut out, &digits, 0, digits.len());
            push_str(&mut out, " in the default dictionary");
            assert(digits@.subrange(0, digits@.len() as int) =~= digits@);
            assert(out@ =~= no_rune_length_message(rune_length as nat));
            Err(string_from_chars(out.as_slice()))
        },
    }
}

/// Picks, at random, one entry of the default dictionary whose rune spelling
/// has exactly `rune_length` runes.
pub fn random_futharkation_with_rune_length(
    default_dictionary: &str,
    rune_length: usize,
    rng: &mut rand::rngs::StdRng,
) -> (r: Result<Futharkation, String>)
    requires
        default_dictionary@.len() < usize::MAX,
    ensures
        match spec_default_futharkations(default_dictionary@) {
            Err(e) => r matches Err(m) && m@ == e,
            Ok(fs) => {
                &&& r matches Ok(f) ==> fs.contains((f.word@, f.letters@)) && f.letters@.len()
                    == rune_length
                &&& r matches Err(m) ==> m@ == no_rune_length_message(rune_length as nat)
                    && forall|k: int| 0 <= k < fs.len() ==> (#[trigger] fs[k]).1.len() != rune_length
            },
        },
{
    let pronunciations = load_default_pronunciations(default_dictionary)?;
    random_futharkation_with_rune_length_from_pronunciations(pronunciations.as_slice(), rune_length, rng)
}

/// When no character from `k` on fails to be a rune, all of them are runes.
pub proof fn lemma_first_non_rune_none(s: Seq<char>, k: int)
    requires
        0 <= k,
        first_non_rune(s, k) is None,
    ensures
        forall|j: int| k <= j < s.len() ==> #[trigger] is_rune_letter(s[j]),
    decreases s.len() - k,
{
    if k < s.len() {
        lemma_first_non_rune_none(s, k + 1);
    }
}

/// Every spelling that a spell can get is made of runes only, whether it
/// comes from an override or from the dictionary.
pub proof fn lemma_spelling_uses_runes(
    dictionary: Seq<char>,
    word: Seq<char>,
    override_letters: Option<Seq<char>>,
)
    ensures
        spec_futharkation_with_override(dictionary, word, override_letters) matches Ok((w, letters))
            ==> crate::futhark::all_rune_letters(letters),
{
    match override_letters {
        Some(raw) => {
            if first_non_rune(trim(raw), 0) is None {
                lemma_first_non_rune_none(trim(raw), 0);
            }
        },
        None => {
            if let Ok(ps) = parse_text(dictionary, 1) {
                if let Some(k) = first_word_match(ps, word, 0) {
                    lemma_ipa_to_runes_spells_runes(ps[k].1);
                }
            }
        },
    }
}

} // verus!
