//! Finding the capture card among the video devices.

use vstd::prelude::*;

use crate::audio::device_name_matches;
use crate::text_match::{lowercase, str_contains, to_lowercase};

verus! {

/// The video device to open, given the human-readable names of the
/// devices in the order they are listed: the first whose lower-cased name
/// contains the lower-cased `keyword`. Matching by name keeps the choice
/// stable when other devices are plugged in and indices shift.
pub fn find_device_index(device_names: &[String], keyword: &str) -> (found: Option<usize>)
    ensures
        match found {
            Some(i) => 0 <= i < device_names@.len() && device_name_matches(
                device_names@[i as int]@,
                lowercase(keyword@),
            ) && forall|j: int|
                0 <= j < i ==> !device_name_matches(#[trigger] device_names@[j]@, lowercase(keyword@)),
            None => forall|j: int|
                0 <= j < device_names@.len() ==> !device_name_matches(
                    #[trigger] device_names@[j]@,
                    lowercase(keyword@),
                ),
        },
{
    let keyword_lower = to_lowercase(keyword);
    let mut i: usize = 0;
    while i < device_names.len()
        invariant
            i <= device_names@.len(),
            keyword_lower@ == lowercase(keyword@),
            forall|j: int|
                0 <= j < i ==> !device_name_matches(#[trigger] device_names@[j]@, lowercase(keyword@)),
        decreases device_names@.len() - i,
    {
        let name = to_lowercase(device_names[i].as_str());
        if str_contains(name.as_str(), keyword_lower.as_str()) {
            return Some(i);
        }
        i += 1;
    }
    None
}

} // verus!
