//! Names for the copies under which a persisted artifact is shown again.
//!
//! A loader that caches by path shows a new artifact only under a new name.
//! Each copy is therefore named after the moment it was made, and the copies
//! of earlier moments are the ones to clear away.

use vstd::prelude::*;
use vstd::string::*;
use crate::ply_cache::is_cache_file;
use crate::text::push_decimal;
#[allow(unused_imports)]
use crate::ply_cache::is_entry_name;
#[allow(unused_imports)]
use crate::text::decimal;

verus! {

/// The name of the copy made at `stamp`.
pub open spec fn reload_name(stamp: nat) -> Seq<char> {
    "loaded_"@ + decimal(stamp) + ".ply"@
}

/// Whether a file of this name is such a copy, whenever it was made.
pub open spec fn is_reload_name(name: Seq<char>) -> bool {
    name.len() >= 7 && name.subrange(0, 7) == seq!['l', 'o', 'a', 'd', 'e', 'd', '_']
        && is_entry_name(name)
}

/// Names the copy made at `timestamp_millis`, in milliseconds of the clock.
pub fn reload_file_name(timestamp_millis: u128) -> (name: String)
    ensures
        name@ == reload_name(timestamp_millis as nat),
{
    let mut name = String::from_str("loaded_");
    push_decimal(&mut name, timestamp_millis);
    name.append(".ply");
    name
}

/// Whether the file `name` is a copy to clear away once `current` is shown:
/// a copy, and not the current one.
pub fn is_stale_reload(name: &str, current: &str) -> (stale: bool)
    ensures
        stale == (is_reload_name(name@) && name@ != current@),
{
    if !is_cache_file(name) {
        return false;
    }
    let n: usize = name.unicode_len();
    if n < 7 {
        return false;
    }
    let matched = name.get_char(0) == 'l' && name.get_char(1) == 'o' && name.get_char(2) == 'a'
        && name.get_char(3) == 'd' && name.get_char(4) == 'e' && name.get_char(5) == 'd'
        && name.get_char(6) == '_';
    proof {
        let prefix = name@.subrange(0, 7);
        if matched {
            assert(prefix =~= seq!['l', 'o', 'a', 'd', 'e', 'd', '_']);
        } else {
            assert(prefix[0] == name@[0]);
            assert(prefix[1] == name@[1]);
            assert(prefix[2] == name@[2]);
            assert(prefix[3] == name@[3]);
            assert(prefix[4] == name@[4]);
            assert(prefix[5] == name@[5]);
            assert(prefix[6] == name@[6]);
        }
    }
    if !matched {
        return false;
    }
    let same = String::from_str(name) == String::from_str(current);
    !same
}

} // verus!
