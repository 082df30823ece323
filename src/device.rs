use vstd::prelude::*;

verus! {

/// The device a capture session opens.
#[derive(Debug, Clone, Copy, PartialEq, Eq, Structural)]
pub enum DeviceChoice {
    /// The enumerated device at this position.
    Named(usize),
    /// The system default device of the requested class.
    Default,
}

/// No device among `names` carries the name `wanted` (up to position `upto`).
pub open spec fn no_match_before(names: Seq<String>, wanted: Seq<char>, upto: int) -> bool {
    forall|j: int| 0 <= j < upto ==> #[trigger] names[j]@ != wanted
}

/// Resolves a configured device name against the enumerated devices of the
/// requested class: the first device whose name matches exactly, and the
/// system default where no name is configured or none matches.
pub fn select_device(names: &Vec<String>, wanted: &Option<String>) -> (r: DeviceChoice)
    ensures
        match r {
            DeviceChoice::Named(i) => {
                &&& wanted.is_some()
                &&& i < names@.len()
                &&& names@[i as int]@ == wanted.unwrap()@
                &&& no_match_before(names@, wanted.unwrap()@, i as int)
            },
            DeviceChoice::Default => wanted.is_none() || no_match_before(
                names@,
                wanted.unwrap()@,
                names@.len() as int,
            ),
        },
{
    match wanted {
        None => DeviceChoice::Default,
        Some(name) => {
            let mut i: usize = 0;
            while i < names.len()
                invariant
                    i <= names@.len(),
                    wanted.is_some() && wanted.unwrap()@ == name@,
                    no_match_before(names@, name@, i as int),
                decreases names@.len() - i,
            {
                if names[i] == *name {
                    return DeviceChoice::Named(i);
                }
                i = i + 1;
            }
            DeviceChoice::Default
        },
    }
}

} // verus!
