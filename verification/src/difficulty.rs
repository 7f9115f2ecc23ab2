//! The world difficulty setting: four levels carried on the wire as one
//! byte, taken modulo four so every byte value decodes.

use vstd::prelude::*;
use vstd::string::{StrSliceExecFns, StringExecFns};
use crate::cursor::McCursor;
use crate::error::BufReadError;

verus! {

/// One of the four difficulty levels.
#[derive(Hash, Clone, Copy, Debug, PartialEq, Eq, Structural)]
#[allow(non_camel_case_types)]
pub enum Difficulty {
    PEACEFUL,
    EASY,
    NORMAL,
    HARD,
}

/// A difficulty name that names no difficulty.
#[derive(Debug)]
pub enum DifficultyError {
    InvalidDifficulty(String),
}

/// The canonical lower-case name of each level.
pub open spec fn difficulty_name(d: Difficulty) -> Seq<char> {
    match d {
        Difficulty::PEACEFUL => "peaceful"@,
        Difficulty::EASY => "easy"@,
        Difficulty::NORMAL => "normal"@,
        Difficulty::HARD => "hard"@,
    }
}

/// The numeric id of each level.
pub open spec fn difficulty_id(d: Difficulty) -> u8 {
    match d {
        Difficulty::PEACEFUL => 0u8,
        Difficulty::EASY => 1u8,
        Difficulty::NORMAL => 2u8,
        Difficulty::HARD => 3u8,
    }
}

/// The level a byte picks out, modulo four.
pub open spec fn difficulty_by_id(id: u8) -> Difficulty {
    if id % 4 == 0 {
        Difficulty::PEACEFUL
    } else if id % 4 == 1 {
        Difficulty::EASY
    } else if id % 4 == 2 {
        Difficulty::NORMAL
    } else {
        Difficulty::HARD
    }
}

impl Difficulty {
    /// The canonical lower-case name.
    pub fn name(&self) -> (r: &'static str)
        ensures
            r@ == difficulty_name(*self),
    {
        match self {
            Difficulty::PEACEFUL => "peaceful",
            Difficulty::EASY => "easy",
            Difficulty::NORMAL => "normal",
            Difficulty::HARD => "hard",
        }
    }

    /// The level a name picks out; any other name is rejected, carrying
    /// the offending name.
    pub fn from_name(name: &str) -> (r: Result<Difficulty, DifficultyError>)
        ensures
            match r {
                Ok(d) => name@ == difficulty_name(d),
                Err(e) => {
                    &&& forall|d: Difficulty| name@ != difficulty_name(d)
                    &&& e matches DifficultyError::InvalidDifficulty(s) && s@ == name@
                },
            },
    {
        proof {
            reveal_strlit("peaceful");
            reveal_strlit("easy");
            reveal_strlit("normal");
            reveal_strlit("hard");
        }
        if str_eq(name, "peaceful") {
            Ok(Difficulty::PEACEFUL)
        } else if str_eq(name, "easy") {
            Ok(Difficulty::EASY)
        } else if str_eq(name, "normal") {
            Ok(Difficulty::NORMAL)
        } else if str_eq(name, "hard") {
            Ok(Difficulty::HARD)
        } else {
            Err(DifficultyError::InvalidDifficulty(name.to_owned()))
        }
    }

    /// The level a byte picks out, modulo four; no byte is rejected.
    pub fn by_id(id: u8) -> (r: Difficulty)
        ensures
            r == difficulty_by_id(id),
    {
        match id % 4 {
            0 => Difficulty::PEACEFUL,
            1 => Difficulty::EASY,
            2 => Difficulty::NORMAL,
            _ => Difficulty::HARD,
        }
    }

    /// The numeric id.
    pub fn id(&self) -> (r: u8)
        ensures
            r == difficulty_id(*self),
    {
        match self {
            Difficulty::PEACEFUL => 0,
            Difficulty::EASY => 1,
            Difficulty::NORMAL => 2,
            Difficulty::HARD => 3,
        }
    }

    /// Read a difficulty from its one-byte wire form.
    pub fn azalea_read(buf: &mut McCursor) -> (r: Result<Difficulty, BufReadError>)
        requires
            old(buf).wf(),
        ensures
            final(buf).wf(),
            final(buf).all_bytes() == old(buf).all_bytes(),
            match r {
                Ok(d) => {
                    &&& old(buf).remaining().len() >= 1
                    &&& d == difficulty_by_id(old(buf).remaining()[0])
                    &&& final(buf).position() == old(buf).position() + 1
                },
                Err(e) => {
                    &&& old(buf).remaining().len() == 0
                    &&& final(buf).position() == old(buf).position()
                },
            },
    {
        match crate::read::read_u8(buf) {
            Ok(b) => Ok(Difficulty::by_id(b)),
            Err(e) => Err(e),
        }
    }

    /// Append a difficulty's one-byte wire form.
    pub fn azalea_write(&self, buf: &mut Vec<u8>)
        ensures
            final(buf)@ == old(buf)@ + seq![difficulty_id(*self)],
    {
        crate::write::write_u8(buf, self.id());
    }
}

/// Reading a written difficulty returns the level unchanged: its id is
/// below four, so the modulo decode is exact.
pub proof fn lemma_difficulty_roundtrip(d: Difficulty)
    ensures
        difficulty_by_id(difficulty_id(d)) == d,
{
}

/// Whether two strings hold the same characters.
fn str_eq(a: &str, b: &str) -> (r: bool)
    ensures
        r == (a@ == b@),
{
    let sa = String::from_str(a);
    let sb = String::from_str(b);
    sa.eq(&sb)
}

} // verus!
