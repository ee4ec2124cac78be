//! The names and messages of the tracks that segments are joined into.

use vstd::prelude::*;
use crate::mpd::{content_type_name, ContentType};

verus! {

/// The name of the file that a track's segments are joined into.
pub fn track_file_name(ct: ContentType) -> (name: String)
    ensures
        name@ == "track_"@ + content_type_name(ct) + ".mp4"@,
{
    let mut name = String::from_str("track_");
    name.append(ct.as_str());
    name.append(".mp4");
    name
}

/// The message shown once a track's segments are joined.
pub fn processed_message(ct: ContentType) -> (msg: String)
    ensures
        msg@ == "Processed "@ + content_type_name(ct) + " segment"@,
{
    let mut msg = String::from_str("Processed ");
    msg.append(ct.as_str());
    msg.append(" segment");
    msg
}

} // verus!
