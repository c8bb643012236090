//! Session mode: running as the session rather than as a window on the desktop
//! of someone else.
//!
//! It is off unless a flag or the environment asks for it.

use vstd::prelude::*;

use crate::text;

verus! {

/// Whether the arguments or the environment ask for session mode.
pub open spec fn asks_for_session(args: Seq<Seq<char>>, env: Option<Seq<char>>) -> bool {
    args.contains("--session"@) || (env matches Some(value) && (value == "1"@ || value
        == "true"@))
}

/// Whether the arguments or the environment ask for session mode.
pub fn detect(args: Vec<String>, env: Option<String>) -> (res: bool)
    ensures
        res == asks_for_session(text::texts(args@), text::opt_text(env)),
{
    let ghost views = text::texts(args@);
    let mut i: usize = 0;
    while i < args.len()
        invariant
            i <= args.len(),
            views == text::texts(args@),
            forall|j: int| 0 <= j < i ==> #[trigger] views[j] != "--session"@,
        decreases args.len() - i,
    {
        assert(views[i as int] == args@[i as int]@);
        if text::same(args[i].as_str(), "--session") {
            return true;
        }
        i = i + 1;
    }
    match env {
        Some(value) => text::same(value.as_str(), "1") || text::same(value.as_str(), "true"),
        None => false,
    }
}

/// Without the flag, and with nothing in the environment, session mode is off.
pub proof fn law_off_by_default(args: Seq<Seq<char>>)
    requires
        !args.contains("--session"@),
    ensures
        !asks_for_session(args, None),
{
}

/// The flag wins over whatever is in the environment.
pub proof fn law_the_flag_wins(args: Seq<Seq<char>>, env: Option<Seq<char>>)
    requires
        args.contains("--session"@),
    ensures
        asks_for_session(args, env),
{
}

} // verus!
