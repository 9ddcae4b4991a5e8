//! Audio passthrough from the capture device to the default output: which
//! input device to open, and how large the buffer between them is.

pub mod resample;

use vstd::prelude::*;

use crate::hardware::HardwareProfile;
use crate::text_match::{contains_seq, lowercase, str_contains, to_lowercase};

verus! {

/// The device name `name` contains `keyword_lower` once lower-cased.
pub open spec fn device_name_matches(name: Seq<char>, keyword_lower: Seq<char>) -> bool {
    contains_seq(lowercase(name), keyword_lower)
}

/// Index `i` is the first device whose name could be read and matches.
pub open spec fn first_matching_device(names: Seq<Option<String>>, keyword_lower: Seq<char>, i: int) -> bool {
    &&& 0 <= i < names.len()
    &&& names[i] matches Some(n) && device_name_matches(n@, keyword_lower)
    &&& forall|j: int|
        0 <= j < i ==> !(#[trigger] names[j] matches Some(n) && device_name_matches(
            n@,
            keyword_lower,
        ))
}

/// Passes the capture device's audio through to the default output.
pub struct CpalAudioPassthrough {
    target_device_keyword: String,
}

impl CpalAudioPassthrough {
    /// The lower-cased keyword the input device is found by.
    pub closed spec fn keyword(&self) -> Seq<char> {
        self.target_device_keyword@
    }

    /// A passthrough for `profile`'s audio device.
    pub fn for_hardware(profile: &HardwareProfile) -> (p: Self)
        ensures
            p.keyword() == lowercase(profile.audio_device_keyword@),
    {
        CpalAudioPassthrough { target_device_keyword: to_lowercase(profile.audio_device_keyword) }
    }

    /// The input device to capture from, given the names of the input
    /// devices in the order the host lists them (`None` where a name could
    /// not be read): the first whose lower-cased name contains the keyword.
    pub fn find_input_device(&self, device_names: &[Option<String>]) -> (found: Option<usize>)
        ensures
            match found {
                Some(i) => first_matching_device(device_names@, self.keyword(), i as int),
                None => forall|j: int|
                    0 <= j < device_names@.len() ==> !(#[trigger] device_names@[j] matches Some(n)
                        && device_name_matches(n@, self.keyword())),
            },
    {
        let mut i: usize = 0;
        while i < device_names.len()
            invariant
                i <= device_names@.len(),
                forall|j: int|
                    0 <= j < i ==> !(#[trigger] device_names@[j] matches Some(n) && device_name_matches(
                        n@,
                        self.keyword(),
                    )),
            decreases device_names@.len() - i,
        {
            if let Some(name) = &device_names[i] {
                let lower = to_lowercase(name.as_str());
                if str_contains(lower.as_str(), self.target_device_keyword.as_str()) {
                    return Some(i);
                }
            }
            i += 1;
        }
        None
    }
}

} // verus!
