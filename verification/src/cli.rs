use vstd::prelude::*;

use crate::text::{parse_i32, str_eq};

verus! {

/// The number of frames rendered when none is asked for.
pub const DEFAULT_FRAME_COUNT: i32 = 60;

/// The number of frames that the command line asks for: the first argument
/// after the program name read as an `i32`, or 60 when it is missing or
/// does not read as one.
pub open spec fn requested_frames(args: Seq<String>) -> int {
    if args.len() > 1 {
        match crate::text::parsed_i32(args[1]@) {
            Some(v) => v,
            None => DEFAULT_FRAME_COUNT as int,
        }
    } else {
        DEFAULT_FRAME_COUNT as int
    }
}

/// Reads the number of frames to render from the command line (see
/// `requested_frames`).
pub fn frame_count(args: &[String]) -> (r: i32)
    ensures
        r as int == requested_frames(args@),
{
    if args.len() > 1 {
        match parse_i32(args[1].as_str()) {
            Some(v) => v,
            None => DEFAULT_FRAME_COUNT,
        }
    } else {
        DEFAULT_FRAME_COUNT
    }
}

/// Whether some argument is the flag `--custom`, which asks for a scene
/// built from the command line.
pub fn has_custom_flag(args: &[String]) -> (r: bool)
    ensures
        r == exists|k: int| 0 <= k < args@.len() && #[trigger] args@[k]@ == "--custom"@,
{
    let n = args.len();
    let mut k: usize = 0;
    while k < n
        invariant
            k <= n,
            n == args@.len(),
            forall|j: int| 0 <= j < k ==> #[trigger] args@[j]@ != "--custom"@,
        decreases n - k,
    {
        if str_eq(args[k].as_str(), "--custom") {
            return true;
        }
        k = k + 1;
    }
    false
}

} // verus!
