//! What is remembered from one run to the next and is no setting: the file of settings
//! is the user's and is never overwritten, and this one may be.

use crate::outline::{
    self, NodeView, Opened, find, find_blocked, read_outline, write_number,
};
use crate::text::{self, join_path};
use vstd::prelude::*;

verus! {

/// What is remembered.
#[derive(Debug, Clone, Copy, PartialEq, Eq, Structural)]
pub struct RuntimeState {
    /// The last volume, of 100. Without one the settings say.
    pub volume: Option<u8>,
}

impl Default for RuntimeState {
    fn default() -> (r: RuntimeState)
        ensures
            r.volume is None,
    {
        RuntimeState { volume: None }
    }
}

/// Where it is, below the directory for what can be made again.
pub fn default_path(cache_dir: &str) -> (r: String)
    ensures
        r@ == text::path_joined(cache_dir@, "state.toml"@),
{
    join_path(cache_dir, "state.toml")
}

/// The volume that a file remembers: a percentage, or nothing.
pub open spec fn remembered(text: Option<Seq<char>>) -> Option<u8> {
    match text {
        None => None,
        Some(s) => match outline::outlined(s) {
            Ok(d) => match (outline::blocked(d, seq!["volume"@]), outline::value_of(d, "volume"@)) {
                (None, Some(NodeView::Number(Some(n), _))) => if 0 <= n <= 100 {
                    Some(n as u8)
                } else {
                    None
                },
                _ => None,
            },
            Err(_) => None,
        },
    }
}

/// What the file remembers, given its text if it could be read. The file is disposable,
/// and a bad one is as good as none.
pub fn load(text: Option<&str>) -> (r: RuntimeState)
    ensures
        r.volume == remembered(
            match text {
                Some(s) => Some(s@),
                None => None,
            },
        ),
{
    let s = match text {
        Some(s) => s,
        None => return RuntimeState { volume: None },
    };
    let d = match read_outline(s) {
        Ok(d) => d,
        Err(_) => return RuntimeState { volume: None },
    };
    let known: Vec<&'static str> = vec!["volume"];
    assert(known.deep_view() =~= seq!["volume"@]);
    if find_blocked(&d, &known).is_some() {
        return RuntimeState { volume: None };
    }
    if let Some(Opened::Number(Some(n), _)) = find(&d, "volume") {
        if 0 <= n && n <= 100 {
            return RuntimeState { volume: Some(n as u8) };
        }
    }
    RuntimeState { volume: None }
}

/// The text of the file that remembers this.
pub fn save(s: &RuntimeState) -> (r: String)
    ensures
        outline::says(
            r@,
            outline::at_most_one(
                "volume"@,
                match s.volume {
                    Some(v) => Some(v as i64),
                    None => None,
                },
            ),
        ),
{
    match s.volume {
        Some(v) => write_number("volume", Some(v as i64)),
        None => write_number("volume", None),
    }
}

/// What was written is read again, whatever characters it was written with.
pub proof fn what_was_saved_is_loaded(text: Seq<char>, volume: Option<u8>)
    requires
        volume matches Some(v) ==> v <= 100,
        outline::says(
            text,
            outline::at_most_one(
                "volume"@,
                match volume {
                    Some(v) => Some(v as i64),
                    None => None,
                },
            ),
        ),
    ensures
        remembered(Some(text)) == volume,
{
    reveal_with_fuel(crate::outline::value_from, 2);
    reveal_with_fuel(crate::outline::blocked_from, 2);
}

} // verus!
