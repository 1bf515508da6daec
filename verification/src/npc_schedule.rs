//! Storage of NPC schedules: one `schedule.json` per NPC directory.
use vstd::prelude::*;

use crate::terrain::{join_path, join_spec};
use crate::text::{chars_of, contains_seq, find_seq, has_char, has_char_exec, string_of};

verus! {

/// The file name of a schedule inside an NPC's directory.
pub const SCHEDULE_FILENAME: &'static str = "schedule.json";

/// Whether an NPC name is usable as a directory name: not empty, no path
/// separators, no `..`.
pub open spec fn valid_npc_name(name: Seq<char>) -> bool {
    &&& name.len() > 0
    &&& !has_char(name, '/')
    &&& !has_char(name, '\\')
    &&& !contains_seq(name, ".."@)
}

/// Why an NPC schedule request was refused.
#[derive(Debug, PartialEq, Eq)]
pub enum NpcNameError {
    /// The name is empty, holds a path separator or `..`.
    InvalidName,
}

/// Schedule storage rooted at a directory.
#[derive(Debug, Clone)]
pub struct NpcIO {
    pub base_dir: String,
}

impl NpcIO {
    /// Storage rooted at `base_dir`.
    pub fn new(base_dir: String) -> (r: NpcIO)
        ensures
            r.base_dir@ == base_dir@,
    {
        NpcIO { base_dir }
    }

    /// Refuse names that could escape the base directory.
    pub fn validate_name(name: &str) -> (r: Result<(), NpcNameError>)
        ensures
            r is Ok <==> valid_npc_name(name@),
    {
        let v = chars_of(name);
        let dots = chars_of("..");
        proof {
            reveal_strlit("..");
        }
        if v.len() == 0 || has_char_exec(&v, '/') || has_char_exec(&v, '\\') || find_seq(&v, &dots).is_some() {
            return Err(NpcNameError::InvalidName);
        }
        Ok(())
    }

    /// Path of an NPC's schedule file, for a valid name.
    pub fn schedule_path(&self, name: &str) -> (r: Result<String, NpcNameError>)
        ensures
            !valid_npc_name(name@) ==> r is Err,
            valid_npc_name(name@) ==> match r {
                Ok(p) => p@ == join_spec(join_spec(self.base_dir@, name@), "schedule.json"@),
                Err(_) => false,
            },
    {
        Self::validate_name(name)?;
        let base = chars_of(self.base_dir.as_str());
        let dir = join_path(&base, &chars_of(name));
        let p = join_path(&dir, &chars_of(SCHEDULE_FILENAME));
        Ok(string_of(&p))
    }
}

} // verus!
