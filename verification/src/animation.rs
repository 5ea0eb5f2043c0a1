use vstd::prelude::*;

verus! {

/// An immutable named sequence of frame origins within the sheet's texture,
/// together with an advisory target framerate. Well-formed data has a
/// non-empty frame sequence; the sheet rejects the degenerate case at
/// registration time.
#[derive(Debug)]
pub struct Animation {
    pub name: String,
    pub framerate: u32,
    pub frames: Vec<(i32, i32)>,
}

impl Animation {
    pub fn new(name: String, framerate: u32, frames: Vec<(i32, i32)>) -> (a: Animation)
        ensures
            a.name == name,
            a.framerate == framerate,
            a.frames == frames,
    {
        Animation { name, framerate, frames }
    }
}

/// Whether some animation in the sequence carries this name.
pub open spec fn names_include(s: Seq<Animation>, name: Seq<char>) -> bool {
    exists|i: int| 0 <= i < s.len() && (#[trigger] s[i]).name@ == name
}

/// The position of the last animation in the sequence that carries this name,
/// or -1 when none does. A bulk merge applies entries in order, so the last
/// occurrence is the one that survives.
pub open spec fn last_with_name(s: Seq<Animation>, name: Seq<char>) -> int
    decreases s.len(),
{
    if s.len() == 0 {
        -1
    } else if s.last().name@ == name {
        s.len() - 1
    } else {
        last_with_name(s.drop_last(), name)
    }
}

} // verus!
