//! The saved form of the score table.

use crate::highscore::{valid_table, Highscore};
use vstd::prelude::*;

verus! {

/// Version of the saved layout.
pub const SAVE_VERSION: u32 = 0;

/// The bytes that savefile writes, without a schema, for the nine scores
/// `scores` at `version`; only sequences of nine scores are ever saved.
pub uninterp spec fn saved_form(version: u32, scores: Seq<u32>) -> Seq<u8>;

/// Relies on savefile's `save_noschema`: the header and the nine scores,
/// written into a vector. Writing into a vector cannot fail and compression
/// is off, so the result is always there.
#[verifier::external_body]
fn encode_scores(version: u32, scores: &[u32; 9]) -> (r: Option<Vec<u8>>)
    ensures
        r is Some,
        r->Some_0@ == saved_form(version, scores@),
{
    let mut out: Vec<u8> = Vec::new();
    match savefile::save_noschema(&mut out, version, scores) {
        Ok(()) => Some(out),
        Err(_) => None,
    }
}

/// The nine bytes that open every savefile stream: `savefile` and a zero.
pub open spec fn save_magic() -> Seq<u8> {
    seq![115u8, 97, 118, 101, 102, 105, 108, 101, 0]
}

/// Length of a save of nine scores: the magic, the savefile format version
/// (two bytes), the save version (four), the compression flag (one) and
/// nine four-byte scores.
pub const SAVED_LEN: usize = 52;

/// Relies on savefile's `load_noschema`: bytes that `save_noschema` wrote for
/// nine scores at the same version read back as those scores. It reads the
/// nine-byte magic and fails where it differs, then a fixed-size header and
/// nine fixed-size values, taking no length from the bytes, so input shorter
/// than that fails too; any error becomes `None`.
#[verifier::external_body]
fn decode_scores(version: u32, bytes: &Vec<u8>) -> (r: Option<[u32; 9]>)
    ensures
        forall|v: Seq<u32>|
            v.len() == 9 && #[trigger] saved_form(version, v) == bytes@ ==> r is Some
                && r->Some_0@ == v,
        bytes@.len() < SAVED_LEN || bytes@.take(9) != save_magic() ==> r is None,
{
    savefile::load_noschema::<[u32; 9]>(&mut bytes.as_slice(), version).ok()
}

/// The scores as they are saved.
pub struct GameSave {
    pub highscores: Vec<u32>,
}

impl GameSave {
    /// Nine empty slots.
    pub fn new() -> (r: GameSave)
        ensures
            r.highscores@ == Seq::new(9, |i: int| 0u32),
    {
        let r = GameSave { highscores: vec![0u32; 9] };
        assert(r.highscores@ =~= Seq::new(9, |i: int| 0u32));
        r
    }

    /// A save holding `highscores`.
    pub fn new_from_data(highscores: Vec<u32>) -> (r: GameSave)
        ensures
            r.highscores@ == highscores@,
    {
        GameSave { highscores }
    }

    /// The bytes of this save; `None` exactly when it does not hold nine
    /// scores.
    pub fn to_bytes(&self) -> (r: Option<Vec<u8>>)
        ensures
            r is Some <==> self.highscores@.len() == 9,
            r matches Some(b) ==> b@ == saved_form(SAVE_VERSION, self.highscores@),
    {
        if self.highscores.len() != 9 {
            return None;
        }
        let mut a = [0u32; 9];
        let mut i: usize = 0;
        while i < 9
            invariant
                self.highscores@.len() == 9,
                i <= 9,
                a@.len() == 9,
                a@.take(i as int) == self.highscores@.take(i as int),
            decreases 9 - i,
        {
            a[i] = self.highscores[i];
            i = i + 1;
            assert(a@.take(i as int) =~= self.highscores@.take(i as int));
        }
        assert(a@ =~= a@.take(9));
        assert(self.highscores@ =~= self.highscores@.take(9));
        encode_scores(SAVE_VERSION, &a)
    }

    /// The save held in `bytes`; bytes written by [`GameSave::to_bytes`]
    /// give back the same scores, and bytes too short or without savefile's
    /// magic give `None`.
    pub fn from_bytes(bytes: &Vec<u8>) -> (r: Option<GameSave>)
        ensures
            forall|v: Seq<u32>|
                v.len() == 9 && #[trigger] saved_form(SAVE_VERSION, v) == bytes@ ==> (r matches Some(
                    g,
                ) && g.highscores@ == v),
            bytes@.len() < SAVED_LEN || bytes@.take(9) != save_magic() ==> r is None,
            r matches Some(g) ==> g.highscores@.len() == 9,
    {
        match decode_scores(SAVE_VERSION, bytes) {
            Some(a) => {
                let mut v: Vec<u32> = Vec::new();
                let mut i: usize = 0;
                while i < 9
                    invariant
                        a@.len() == 9,
                        i <= 9,
                        v@ == a@.take(i as int),
                    decreases 9 - i,
                {
                    v.push(a[i]);
                    i = i + 1;
                    assert(v@ =~= a@.take(i as int));
                }
                assert(a@ =~= a@.take(9));
                Some(GameSave { highscores: v })
            },
            None => None,
        }
    }
}

impl Highscore {
    /// The save of this table.
    pub fn to_save(&self) -> (r: GameSave)
        ensures
            r.highscores@ == self@,
    {
        GameSave::new_from_data(self.to_vec())
    }

    /// The table held in a save, where its scores form a valid table.
    pub fn from_save(save: &GameSave) -> (r: Option<Highscore>)
        ensures
            r is Some <==> valid_table(save.highscores@),
            r matches Some(t) ==> t@ == save.highscores@,
    {
        Highscore::from_scores(&save.highscores)
    }

    /// The bytes of this table.
    pub fn save_bytes(&self) -> (r: Vec<u8>)
        ensures
            r@ == saved_form(SAVE_VERSION, self@),
    {
        let a = self.scores();
        match encode_scores(SAVE_VERSION, &a) {
            Some(b) => b,
            None => Vec::new(),
        }
    }

    /// The table held in `bytes`, or `None` where they hold no valid
    /// table; bytes too short or without savefile's magic give `None`. The
    /// bytes of any valid table load back as that table.
    pub fn load_bytes(bytes: &Vec<u8>) -> (r: Option<Highscore>)
        ensures
            r matches Some(t) ==> t.wf(),
            bytes@.len() < SAVED_LEN || bytes@.take(9) != save_magic() ==> r is None,
            forall|s: Seq<u32>|
                valid_table(s) && #[trigger] saved_form(SAVE_VERSION, s) == bytes@ ==> (r matches Some(
                    t,
                ) && t@ == s),
    {
        match GameSave::from_bytes(bytes) {
            Some(g) => Highscore::from_save(&g),
            None => None,
        }
    }
}

} // verus!
