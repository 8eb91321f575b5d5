use vstd::prelude::*;

use crate::battle::BattlePhase;
use crate::futhark::{index_of_letter, index_to_letter, is_rune_letter, letter_at, letter_to_index};
use crate::text::chars_of;

verus! {

/// Marks the empty cell of the bottom keyboard row.
pub const KEYBOARD_GAP: usize = usize::MAX;

/// Sprite-sheet index of the key background.
pub const SPRITE_KEYBOARD_BG: usize = 254;

/// Sprite-sheet index of the tab (legend toggle) key glyph.
pub const SPRITE_TAB_ACTION: usize = 252;

/// Sprite-sheet index of the backspace key glyph.
pub const SPRITE_BACKSPACE_ACTION: usize = 251;

/// Rune indices of the top keyboard row, left to right.
pub open spec fn top_row() -> Seq<usize> {
    seq![12usize, 7, 18, 4, 16, 2, 1, 10, 23, 13]
}

/// Rune indices of the middle keyboard row, left to right.
pub open spec fn middle_row() -> Seq<usize> {
    seq![3usize, 15, 22, 0, 6, 8, 11, 5, 20]
}

/// Rune indices of the bottom keyboard row, left to right; `KEYBOARD_GAP`
/// leaves a key-sized hole.
pub open spec fn bottom_row() -> Seq<usize> {
    seq![14usize, 24, 21, usize::MAX, 17, 9, 19]
}

/// The three keyboard rows as rune indices, laid out so that each rune sits
/// roughly where a QWERTY key with a similar sound would be.
pub fn keyboard_rows_by_index() -> (rows: [Vec<usize>; 3])
    ensures
        rows[0]@ == top_row(),
        rows[1]@ == middle_row(),
        rows[2]@ == bottom_row(),
{
    let top: Vec<usize> = vec![12, 7, 18, 4, 16, 2, 1, 10, 23, 13];
    let middle: Vec<usize> = vec![3, 15, 22, 0, 6, 8, 11, 5, 20];
    let bottom: Vec<usize> = vec![14, 24, 21, KEYBOARD_GAP, 17, 9, 19];
    assert(top@ == top_row());
    assert(middle@ == middle_row());
    assert(bottom@ == bottom_row());
    [top, middle, bottom]
}

/// All keys of the keyboard, row after row.
pub open spec fn keyboard_keys() -> Seq<usize> {
    top_row() + middle_row() + bottom_row()
}

/// Every rune has exactly one key: the keyboard's keys are distinct, each is
/// a rune index or the one gap, and every rune index has a key.
pub proof fn lemma_keyboard_has_each_rune_once()
    ensures
        keyboard_keys().no_duplicates(),
        forall|k: int| 0 <= k < keyboard_keys().len() ==> #[trigger] keyboard_keys()[k] < 25
            || keyboard_keys()[k] == KEYBOARD_GAP,
        forall|i: usize| i < 25 ==> #[trigger] keyboard_keys().contains(i),
{
    let keys = keyboard_keys();
    assert(keys =~= seq![12usize, 7, 18, 4, 16, 2, 1, 10, 23, 13, 3, 15, 22, 0, 6, 8, 11, 5, 20, 14, 24, 21, usize::MAX, 17, 9, 19]);
    assert forall|i: usize| i < 25 implies #[trigger] keys.contains(i) by {
        if i == 12 { assert(keys[0] == i); }
        else if i == 7 { assert(keys[1] == i); }
        else if i == 18 { assert(keys[2] == i); }
        else if i == 4 { assert(keys[3] == i); }
        else if i == 16 { assert(keys[4] == i); }
        else if i == 2 { assert(keys[5] == i); }
        else if i == 1 { assert(keys[6] == i); }
        else if i == 10 { assert(keys[7] == i); }
        else if i == 23 { assert(keys[8] == i); }
        else if i == 13 { assert(keys[9] == i); }
        else if i == 3 { assert(keys[10] == i); }
        else if i == 15 { assert(keys[11] == i); }
        else if i == 22 { assert(keys[12] == i); }
        else if i == 0 { assert(keys[13] == i); }
        else if i == 6 { assert(keys[14] == i); }
        else if i == 8 { assert(keys[15] == i); }
        else if i == 11 { assert(keys[16] == i); }
        else if i == 5 { assert(keys[17] == i); }
        else if i == 20 { assert(keys[18] == i); }
        else if i == 14 { assert(keys[19] == i); }
        else if i == 24 { assert(keys[20] == i); }
        else if i == 21 { assert(keys[21] == i); }
        else if i == 17 { assert(keys[23] == i); }
        else if i == 9 { assert(keys[24] == i); }
        else { assert(keys[25] == i); }
    }
}

/// `c` is one of the five vowels, in either case.
pub open spec fn spec_is_vowel(c: char) -> bool {
    c == 'a' || c == 'e' || c == 'i' || c == 'o' || c == 'u' || c == 'A' || c == 'E' || c == 'I'
        || c == 'O' || c == 'U'
}

/// `c` is an ASCII capital letter.
pub open spec fn spec_is_ascii_uppercase(c: char) -> bool {
    'A' <= c <= 'Z'
}

/// Whether `letter` is a vowel (`a e i o u`, case-insensitively).
pub fn is_vowel(letter: char) -> (r: bool)
    ensures
        r == spec_is_vowel(letter),
{
    letter == 'a' || letter == 'e' || letter == 'i' || letter == 'o' || letter == 'u'
        || letter == 'A' || letter == 'E' || letter == 'I' || letter == 'O' || letter == 'U'
}

/// The tint of a rune key's background.
#[derive(Clone, Copy, Debug, PartialEq, Eq, Structural)]
pub enum KeyColor {
    /// Uppercase vowels.
    Green,
    /// Lowercase vowels.
    Yellow,
    /// Uppercase consonants.
    Blue,
    /// Everything else.
    White,
}

/// The tint that a letter's key background takes.
pub open spec fn spec_key_background_color(letter: char) -> KeyColor {
    if spec_is_vowel(letter) {
        if spec_is_ascii_uppercase(letter) { KeyColor::Green } else { KeyColor::Yellow }
    } else {
        if spec_is_ascii_uppercase(letter) { KeyColor::Blue } else { KeyColor::White }
    }
}

/// Background tint of the key for `letter`: vowels are yellow, uppercase
/// letters blue, uppercase vowels green, the rest white.
pub fn key_background_color(letter: char) -> (r: KeyColor)
    ensures
        r == spec_key_background_color(letter),
{
    let is_uppercase = 'A' <= letter && letter <= 'Z';
    match (is_vowel(letter), is_uppercase) {
        (true, true) => KeyColor::Green,
        (true, false) => KeyColor::Yellow,
        (false, true) => KeyColor::Blue,
        (false, false) => KeyColor::White,
    }
}

/// The legend shown on the key of `letter`, and its font size: the runes for
/// two-letter sounds are spelled out phonetically in a smaller size.
pub open spec fn spec_keyboard_label(letter: char) -> (Seq<char>, u32) {
    if letter == 'A' {
        ("ah"@, 16)
    } else if letter == 'S' {
        ("sh"@, 16)
    } else if letter == 'T' {
        ("th"@, 16)
    } else if letter == 'N' {
        ("ng"@, 16)
    } else {
        (seq![letter], 24)
    }
}

/// The legend and font size of the key for `letter`.
pub fn keyboard_label_for_letter(letter: char) -> (r: (String, u32))
    ensures
        (r.0@, r.1) == spec_keyboard_label(letter),
{
    match letter {
        'A' => (crate::text::owned("ah"), 16),
        'S' => (crate::text::owned("sh"), 16),
        'T' => (crate::text::owned("th"), 16),
        'N' => (crate::text::owned("ng"), 16),
        _ => {
            let one = [letter];
            let s = crate::text::string_from_chars(&one);
            assert(one@ =~= seq![letter]);
            (s, 24)
        },
    }
}

/// The first position at or after `k` whose alias is `key`.
pub open spec fn alias_position(pairs: Seq<(char, char)>, key: char, k: int) -> Option<int>
    decreases pairs.len() - k,
{
    if k < 0 || k >= pairs.len() {
        None
    } else if pairs[k].0 == key {
        Some(k)
    } else {
        alias_position(pairs, key, k + 1)
    }
}

/// What `alias_position` finds is a position holding `key`; when it finds
/// nothing, no position from `k` on holds `key`.
pub proof fn lemma_alias_position(pairs: Seq<(char, char)>, key: char, k: int)
    requires
        0 <= k,
    ensures
        alias_position(pairs, key, k) matches Some(i) ==> k <= i < pairs.len() && pairs[i].0 == key
            && forall|j: int| k <= j < i ==> pairs[j].0 != key,
        alias_position(pairs, key, k) is None ==> forall|j: int|
            k <= j < pairs.len() ==> pairs[j].0 != key,
    decreases pairs.len() - k,
{
    if k < pairs.len() && pairs[k].0 != key {
        lemma_alias_position(pairs, key, k + 1);
    }
}

/// Extra keys of a physical keyboard that stand for runes without a letter of
/// their own.
///
/// The pairs are kept in a `Vec` rather than a `HashMap<char, char>`: vstd's
/// specifications of `HashMap` and `HashSet` hold only for key types known to
/// obey its hash-table model, which vstd states for integer and `bool` keys
/// but not for `char`.
#[derive(Clone, Debug)]
pub struct FutharkKeyboardAliases {
    alias_to_rune: Vec<(char, char)>,
}

impl View for FutharkKeyboardAliases {
    type V = Map<char, char>;

    closed spec fn view(&self) -> Map<char, char> {
        Map::new(
            |key: char| alias_position(self.alias_to_rune@, key, 0) is Some,
            |key: char| self.alias_to_rune@[alias_position(self.alias_to_rune@, key, 0)->0].1,
        )
    }
}

impl FutharkKeyboardAliases {
    /// The default positional aliases: `q`, `y`, `x` and `c` (in either case)
    /// type the runes `A`, `T`, `S` and `N`.
    pub fn default() -> (r: Self)
        ensures
            r@ == map!['q' => 'A', 'Q' => 'A', 'y' => 'T', 'Y' => 'T', 'x' => 'S', 'X' => 'S', 'c' => 'N', 'C' => 'N'],
    {
        let mut aliases = FutharkKeyboardAliases { alias_to_rune: Vec::new() };
        aliases.set_alias('q', 'A');
        aliases.set_alias('Q', 'A');
        aliases.set_alias('y', 'T');
        aliases.set_alias('Y', 'T');
        aliases.set_alias('x', 'S');
        aliases.set_alias('X', 'S');
        aliases.set_alias('c', 'N');
        aliases.set_alias('C', 'N');
        assert(aliases@ =~= map!['q' => 'A', 'Q' => 'A', 'y' => 'T', 'Y' => 'T', 'x' => 'S', 'X' => 'S', 'c' => 'N', 'C' => 'N']);
        aliases
    }

    /// The rune that `key` stands for, if it is an alias.
    pub fn map_alias(&self, key: char) -> (r: Option<char>)
        ensures
            r == (if self@.contains_key(key) { Some(self@[key]) } else { None::<char> }),
    {
        let mut i: usize = 0;
        while i < self.alias_to_rune.len()
            invariant
                i <= self.alias_to_rune.len(),
                alias_position(self.alias_to_rune@, key, 0) == alias_position(
                    self.alias_to_rune@,
                    key,
                    i as int,
                ),
            decreases self.alias_to_rune.len() - i,
        {
            if self.alias_to_rune[i].0 == key {
                return Some(self.alias_to_rune[i].1);
            }
            i = i + 1;
        }
        None
    }

    /// Makes `alias` stand for `rune`, replacing what it stood for before.
    pub fn set_alias(&mut self, alias: char, rune: char)
        ensures
            final(self)@ == old(self)@.insert(alias, rune),
    {
        let ghost before = self.alias_to_rune@;
        let mut i: usize = 0;
        while i < self.alias_to_rune.len()
            invariant
                i <= self.alias_to_rune.len(),
                self.alias_to_rune@ == before,
                before == old(self).alias_to_rune@,
                alias_position(before, alias, 0) == alias_position(before, alias, i as int),
            decreases self.alias_to_rune.len() - i,
        {
            if self.alias_to_rune[i].0 == alias {
                self.alias_to_rune.set(i, (alias, rune));
                proof {
                    let after = self.alias_to_rune@;
                    assert(alias_position(before, alias, i as int) == Some(i as int));
                    assert forall|key: char| alias_position(after, key, 0) == alias_position(
                        before,
                        key,
                        0,
                    ) by {
                        lemma_alias_position_same_keys(after, before, key, 0);
                    }
                    assert forall|key: char| key != alias && #[trigger] alias_position(before, key, 0) is Some
                        implies after[alias_position(before, key, 0)->0].1 == before[alias_position(before, key, 0)->0].1 by {
                        lemma_alias_position(before, key, 0);
                    }
                    assert(old(self).alias_to_rune@ == before);
                    assert(after[i as int] == (alias, rune));
                    assert(self@.contains_key(alias));
                    assert(self@[alias] == rune);
                    assert forall|key: char| key != alias implies self@.contains_key(key) == old(self)@.contains_key(key)
                        && (self@.contains_key(key) ==> self@[key] == old(self)@[key]) by {
                        if alias_position(before, key, 0) is Some {
                            assert(after[alias_position(before, key, 0)->0].1 == before[alias_position(before, key, 0)->0].1);
                        }
                    }
                    assert(self@ =~= old(self)@.insert(alias, rune));
                }
                return;
            }
            i = i + 1;
        }
        self.alias_to_rune.push((alias, rune));
        proof {
            let after = self.alias_to_rune@;
            assert(after == before.push((alias, rune)));
            assert forall|key: char| #[trigger] alias_position(after, key, 0) == (
            if alias_position(before, key, 0) is Some {
                alias_position(before, key, 0)
            } else if key == alias {
                Some(before.len() as int)
            } else {
                None
            }) by {
                lemma_alias_position_after_push(before, (alias, rune), key, 0);
            }
            assert forall|key: char| #[trigger] alias_position(before, key, 0) is Some
                implies after[alias_position(before, key, 0)->0] == before[alias_position(before, key, 0)->0] by {
                lemma_alias_position(before, key, 0);
            }
            assert(self@ =~= old(self)@.insert(alias, rune));
        }
    }
}

/// Positions depend only on the aliases, not on the runes they stand for.
pub proof fn lemma_alias_position_same_keys(a: Seq<(char, char)>, b: Seq<(char, char)>, key: char, k: int)
    requires
        a.len() == b.len(),
        forall|j: int| 0 <= j < a.len() ==> #[trigger] a[j].0 == b[j].0,
    ensures
        alias_position(a, key, k) == alias_position(b, key, k),
    decreases a.len() - k,
{
    if 0 <= k < a.len() {
        lemma_alias_position_same_keys(a, b, key, k + 1);
    }
}

/// A pair pushed at the end is found only for an alias not found before it.
pub proof fn lemma_alias_position_after_push(s: Seq<(char, char)>, p: (char, char), key: char, k: int)
    requires
        0 <= k <= s.len(),
    ensures
        alias_position(s.push(p), key, k) == (if alias_position(s, key, k) is Some {
            alias_position(s, key, k)
        } else if p.0 == key {
            Some(s.len() as int)
        } else {
            None
        }),
    decreases s.len() - k,
{
    if k < s.len() {
        assert(s.push(p)[k] == s[k]);
        lemma_alias_position_after_push(s, p, key, k + 1);
    } else {
        assert(s.push(p)[k] == p);
        assert(alias_position(s.push(p), key, k + 1) is None);
        assert(alias_position(s, key, k) is None);
    }
}

/// The rune a typed character enters: rune letters enter themselves, aliases
/// enter their rune when it is a rune letter, anything else enters nothing.
pub open spec fn spec_map_typed_char(letter: char, aliases: Map<char, char>) -> Option<char> {
    if is_rune_letter(letter) {
        Some(letter)
    } else if aliases.contains_key(letter) && is_rune_letter(aliases[letter]) {
        Some(aliases[letter])
    } else {
        None
    }
}

/// The rune that typing `letter` enters, through `aliases` where needed.
pub fn map_typed_char_to_futhark(letter: char, aliases: &FutharkKeyboardAliases) -> (r: Option<char>)
    ensures
        r == spec_map_typed_char(letter, aliases@),
        r matches Some(c) ==> is_rune_letter(c),
{
    if letter_to_index(letter).is_some() {
        return Some(letter);
    }
    match aliases.map_alias(letter) {
        Some(mapped) => {
            if letter_to_index(mapped).is_some() {
                Some(mapped)
            } else {
                None
            }
        },
        None => None,
    }
}

/// The rune keys ruled out during binding.
///
/// The keys are kept in a `Vec` without duplicates rather than a
/// `HashSet<char>`: vstd's specifications of `HashSet` hold only for key types
/// known to obey its hash-table model, which vstd states for integer and
/// `bool` keys but not for `char`.
#[derive(Debug)]
pub struct EliminatedFutharkKeys {
    letters: Vec<char>,
}

impl View for EliminatedFutharkKeys {
    type V = Set<char>;

    closed spec fn view(&self) -> Set<char> {
        self.letters@.to_set()
    }
}

impl EliminatedFutharkKeys {
    #[verifier::type_invariant]
    closed spec fn distinct(self) -> bool {
        self.letters@.no_duplicates()
    }

    /// No key ruled out.
    pub fn default() -> (r: Self)
        ensures
            r@ == Set::<char>::empty(),
    {
        let r = EliminatedFutharkKeys { letters: Vec::new() };
        assert(r@ =~= Set::<char>::empty());
        r
    }

    /// Rules no key out any more.
    pub fn clear(&mut self)
        ensures
            final(self)@ == Set::<char>::empty(),
    {
        self.letters = Vec::new();
        assert(self@ =~= Set::<char>::empty());
    }

    /// Whether `letter` is ruled out.
    pub fn contains(&self, letter: char) -> (r: bool)
        ensures
            r == self@.contains(letter),
    {
        let mut i: usize = 0;
        while i < self.letters.len()
            invariant
                i <= self.letters.len(),
                forall|j: int| 0 <= j < i ==> self.letters@[j] != letter,
            decreases self.letters.len() - i,
        {
            if self.letters[i] == letter {
                assert(self.letters@.contains(letter));
                return true;
            }
            i = i + 1;
        }
        false
    }

    /// Rules `letter` out.
    pub fn insert(&mut self, letter: char)
        ensures
            final(self)@ == old(self)@.insert(letter),
    {
        proof {
            use_type_invariant(&*self);
        }
        if !self.contains(letter) {
            let mut letters = Vec::new();
            std::mem::swap(&mut letters, &mut self.letters);
            let ghost before = letters@;
            letters.push(letter);
            assert(letters@.no_duplicates()) by {
                assert forall|a: int, b: int| 0 <= a < letters@.len() && 0 <= b < letters@.len() && a != b
                    implies letters@[a] != letters@[b] by {
                    if a < before.len() && b < before.len() {
                    } else if a == before.len() {
                        assert(before.contains(before[b]));
                    } else {
                        assert(before.contains(before[a]));
                    }
                }
            }
            self.letters = letters;
            proof {
                assert(before + seq![letter] =~= self.letters@);
                Seq::<char>::lemma_to_set_insert_commutes(before, letter);
            }
            assert(self@ =~= old(self)@.insert(letter));
        } else {
            assert(self@ =~= old(self)@.insert(letter));
        }
    }

    /// How many keys are ruled out.
    pub fn len(&self) -> (r: usize)
        ensures
            r == self@.len(),
    {
        proof {
            use_type_invariant(self);
            self.letters@.unique_seq_to_set();
        }
        self.letters.len()
    }

    /// The ruled-out keys, each once.
    pub fn snapshot(&self) -> (r: Vec<char>)
        ensures
            r@.to_set() == self@,
            r@.no_duplicates(),
    {
        proof {
            use_type_invariant(self);
        }
        self.letters.clone()
    }

    /// Rules out every key of `letters` as well.
    pub fn restore(&mut self, letters: &[char])
        ensures
            final(self)@ == old(self)@.union(letters@.to_set()),
    {
        let mut i: usize = 0;
        while i < letters.len()
            invariant
                i <= letters.len(),
                self@ == old(self)@.union(letters@.take(i as int).to_set()),
            decreases letters.len() - i,
        {
            self.insert(letters[i]);
            assert(letters@.take(i + 1).to_set() =~= letters@.take(i as int).to_set().insert(
                letters@[i as int],
            )) by {
                assert(letters@.take(i + 1) =~= letters@.take(i as int) + seq![letters@[i as int]]);
                Seq::<char>::lemma_to_set_insert_commutes(letters@.take(i as int), letters@[i as int]);
            }
            assert(self@ =~= old(self)@.union(letters@.take(i + 1).to_set()));
            i = i + 1;
        }
        assert(letters@.take(i as int) =~= letters@);
    }
}

/// A key press for `letter` is blocked: the battle is binding and the key has
/// been ruled out.
pub open spec fn spec_is_eliminated_for_binding(
    letter: char,
    eliminated: Set<char>,
    phase: Option<BattlePhase>,
) -> bool {
    phase == Some(BattlePhase::Binding) && eliminated.contains(letter)
}

/// Whether typing `letter` is blocked: only ruled-out keys are blocked, and
/// only while binding.
pub fn is_eliminated_for_binding(
    letter: char,
    eliminated_keys: &EliminatedFutharkKeys,
    phase: Option<BattlePhase>,
) -> (r: bool)
    ensures
        r == spec_is_eliminated_for_binding(letter, eliminated_keys@, phase),
{
    let binding = match phase {
        Some(BattlePhase::Binding) => true,
        _ => false,
    };
    binding && eliminated_keys.contains(letter)
}

/// Saving the ruled-out keys, clearing them and restoring the saved list
/// brings back exactly the keys that were ruled out; restoring onto keys
/// that are still ruled out changes nothing.
pub proof fn lemma_snapshot_restore_round_trip(ruled_out: Set<char>, saved: Seq<char>)
    requires
        saved.to_set() == ruled_out,
    ensures
        Set::<char>::empty().union(saved.to_set()) == ruled_out,
        ruled_out.union(saved.to_set()) == ruled_out,
{
    assert(Set::<char>::empty().union(saved.to_set()) =~= ruled_out);
    assert(ruled_out.union(saved.to_set()) =~= ruled_out);
}

/// What a key press on the keyboard amounts to.
#[derive(Debug, Clone, Copy, PartialEq, Eq, Structural)]
pub enum KeyPress {
    /// The rune is typed.
    Typed(char),
    /// The rune's key is ruled out for this binding.
    Eliminated,
}

/// The key presses that the typed characters `text` make: characters that are
/// no rune (even through an alias) make none.
pub open spec fn key_presses(text: Seq<char>, aliases: Map<char, char>, eliminated: Set<char>, phase: Option<
    BattlePhase,
>) -> Seq<KeyPress>
    decreases text.len(),
{
    if text.len() == 0 {
        Seq::empty()
    } else {
        let rest = key_presses(text.drop_last(), aliases, eliminated, phase);
        match spec_map_typed_char(text.last(), aliases) {
            Some(r) => rest.push(
                if spec_is_eliminated_for_binding(r, eliminated, phase) {
                    KeyPress::Eliminated
                } else {
                    KeyPress::Typed(r)
                },
            ),
            None => rest,
        }
    }
}

/// Turns the characters typed on the physical keyboard into rune presses.
pub fn route_typed_text(
    text: &str,
    aliases: &FutharkKeyboardAliases,
    eliminated_keys: &EliminatedFutharkKeys,
    phase: Option<BattlePhase>,
) -> (r: Vec<KeyPress>)
    ensures
        r@ == key_presses(text@, aliases@, eliminated_keys@, phase),
{
    let chars = chars_of(text);
    let mut out: Vec<KeyPress> = Vec::new();
    let mut i: usize = 0;
    while i < chars.len()
        invariant
            i <= chars.len(),
            chars@ == text@,
            out@ == key_presses(chars@.take(i as int), aliases@, eliminated_keys@, phase),
        decreases chars.len() - i,
    {
        assert(chars@.take(i + 1).drop_last() =~= chars@.take(i as int));
        match map_typed_char_to_futhark(chars[i], aliases) {
            Some(mapped) => {
                if is_eliminated_for_binding(mapped, eliminated_keys, phase) {
                    out.push(KeyPress::Eliminated);
                } else {
                    out.push(KeyPress::Typed(mapped));
                }
            },
            None => {},
        }
        i = i + 1;
    }
    assert(chars@.take(i as int) =~= chars@);
    out
}

/// A click on the on-screen key of rune index `index`.
pub fn route_key_click(index: usize, eliminated_keys: &EliminatedFutharkKeys, phase: Option<BattlePhase>) -> (r:
    Option<KeyPress>)
    ensures
        r == match letter_at(index as int) {
            Some(c) => Some(
                if spec_is_eliminated_for_binding(c, eliminated_keys@, phase) {
                    KeyPress::Eliminated
                } else {
                    KeyPress::Typed(c)
                },
            ),
            None => None,
        },
{
    match index_to_letter(index) {
        Some(letter) => {
            if is_eliminated_for_binding(letter, eliminated_keys, phase) {
                Some(KeyPress::Eliminated)
            } else {
                Some(KeyPress::Typed(letter))
            }
        },
        None => None,
    }
}

/// What the keys of the keyboard show.
#[derive(Debug, Clone, Copy, PartialEq, Eq, Structural)]
pub enum FutharkKeyboardLegendMode {
    Runes,
    Letters,
}

impl FutharkKeyboardLegendMode {
    /// Keys show their runes.
    pub fn default() -> (r: Self)
        ensures
            r == FutharkKeyboardLegendMode::Runes,
    {
        FutharkKeyboardLegendMode::Runes
    }
}

/// Tab (or the keyboard's own toggle key) switches between runes and letters.
pub fn toggle_futhark_keyboard_legend_mode(mode: &mut FutharkKeyboardLegendMode, tab_pressed: bool)
    ensures
        !tab_pressed ==> *final(mode) == *old(mode),
        tab_pressed ==> *final(mode) != *old(mode),
{
    if tab_pressed {
        *mode = match *mode {
            FutharkKeyboardLegendMode::Runes => FutharkKeyboardLegendMode::Letters,
            FutharkKeyboardLegendMode::Letters => FutharkKeyboardLegendMode::Runes,
        };
    }
}

/// The last rune typed in a frame, if any was.
pub fn last_typed_futhark_character(typed: &[char]) -> (r: Option<char>)
    ensures
        r == (if typed@.len() == 0 { None } else { Some(typed@.last()) }),
{
    if typed.len() == 0 {
        None
    } else {
        Some(typed[typed.len() - 1])
    }
}

} // verus!
