//! Which scenario implementation a manifest's `entry` selects.

use crate::text::{debug_quoted, push_str, quote_debug, str_eq};
use vstd::prelude::*;

verus! {

/// A built-in scenario implementation.
#[derive(Debug, Clone, Copy, PartialEq, Eq, Structural)]
pub enum ScenarioEntry {
    SeaSurvival,
    DesertOutpost,
}

/// The implementation an entry names, or the error for an unknown one.
pub open spec fn entry_named(entry: Seq<char>) -> Result<ScenarioEntry, Seq<char>> {
    if entry == "sea_survival"@ {
        Ok(ScenarioEntry::SeaSurvival)
    } else if entry == "desert_outpost"@ {
        Ok(ScenarioEntry::DesertOutpost)
    } else {
        Err("unsupported scenario entry "@ + debug_quoted(entry))
    }
}

/// The implementation that the manifest entry `entry` selects.
pub fn scenario_entry(entry: &str) -> (r: Result<ScenarioEntry, String>)
    ensures
        match r {
            Ok(e) => entry_named(entry@) == Ok::<ScenarioEntry, Seq<char>>(e),
            Err(m) => entry_named(entry@) == Err::<ScenarioEntry, Seq<char>>(m@),
        },
{
    if str_eq(entry, "sea_survival") {
        Ok(ScenarioEntry::SeaSurvival)
    } else if str_eq(entry, "desert_outpost") {
        Ok(ScenarioEntry::DesertOutpost)
    } else {
        let mut m = "unsupported scenario entry ".to_string();
        let q = quote_debug(entry);
        push_str(&mut m, q.as_str());
        Err(m)
    }
}

} // verus!
