use vstd::prelude::*;

use crate::battle::RuneMatchState;
use crate::text::{push_str, string_from_chars};
use std::collections::HashMap;

verus! {

/// The ledger shows this many attempts; older ones make room.
pub const MAX_LEDGER_ROWS: usize = 4;

/// The roman numeral of a row's ledger entry; rows past the fifth get a dot.
pub fn ledger_index_label(row_id: u32) -> (r: &'static str)
    ensures
        row_id == 0 ==> r@ == "I."@,
        row_id == 1 ==> r@ == "II."@,
        row_id == 2 ==> r@ == "III."@,
        row_id == 3 ==> r@ == "IV."@,
        row_id == 4 ==> r@ == "V."@,
        row_id > 4 ==> r@ == "·"@,
{
    match row_id {
        0 => "I.",
        1 => "II.",
        2 => "III.",
        3 => "IV.",
        4 => "V.",
        _ => "·",
    }
}

/// The subtitle of a ledger entry: the graded word in quotes, or a dash when
/// it is unknown.
pub fn ledger_subtitle(word: Option<&str>) -> (r: String)
    ensures
        match word {
            Some(w) => r@ == "\""@ + w@ + "\""@,
            None => r@ == "— unknown —"@,
        },
{
    match word {
        Some(w) => {
            let mut out: Vec<char> = Vec::new();
            push_str(&mut out, "\"");
            push_str(&mut out, w);
            push_str(&mut out, "\"");
            string_from_chars(out.as_slice())
        },
        None => crate::text::owned("— unknown —"),
    }
}

/// Adding an entry to a full ledger first drops the oldest one.
pub fn ledger_evicts_oldest(existing_rows: usize) -> (r: bool)
    ensures
        r == (existing_rows >= MAX_LEDGER_ROWS),
{
    existing_rows >= MAX_LEDGER_ROWS
}

/// The letters held for `row`, in the order their grading revealed them.
pub open spec fn held_for(rows: Map<u32, Vec<(char, RuneMatchState)>>, row: u32) -> Seq<(char, RuneMatchState)> {
    if rows.contains_key(row) {
        rows[row]@
    } else {
        Seq::empty()
    }
}

/// Graded letters waiting for their row to resolve before they go into the
/// ledger, row by row.
#[derive(Debug)]
pub struct PendingLedgerData {
    pub rows: HashMap<u32, Vec<(char, RuneMatchState)>>,
}

impl PendingLedgerData {
    /// Nothing waiting.
    pub fn default() -> (r: Self)
        ensures
            r.rows@ == Map::<u32, Vec<(char, RuneMatchState)>>::empty(),
    {
        PendingLedgerData { rows: HashMap::new() }
    }

    /// Records a letter revealed by its row's grading, after the letters of
    /// the row revealed before it.
    pub fn accumulate(&mut self, row_id: u32, letter: char, match_state: RuneMatchState)
        ensures
            final(self).rows@.contains_key(row_id),
            final(self).rows@[row_id]@ == held_for(old(self).rows@, row_id).push((letter, match_state)),
            final(self).rows@.remove(row_id) == old(self).rows@.remove(row_id),
    {
        broadcast use vstd::std_specs::hash::group_hash_axioms;

        let mut tiles = match self.rows.remove(&row_id) {
            Some(tiles) => tiles,
            None => Vec::new(),
        };
        tiles.push((letter, match_state));
        self.rows.insert(row_id, tiles);
        assert(self.rows@.remove(row_id) =~= old(self).rows@.remove(row_id));
    }

    /// Hands over the letters of a resolved row, in order, and forgets them;
    /// a row with none hands over nothing.
    pub fn take_row(&mut self, row_id: u32) -> (tiles: Vec<(char, RuneMatchState)>)
        ensures
            tiles@ == held_for(old(self).rows@, row_id),
            final(self).rows@ == old(self).rows@.remove(row_id),
    {
        broadcast use vstd::std_specs::hash::group_hash_axioms;

        match self.rows.remove(&row_id) {
            Some(tiles) => tiles,
            None => Vec::new(),
        }
    }
}

} // verus!
