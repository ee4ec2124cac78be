//! A manifest model whose timeline entries keep their attributes as the
//! texts the manifest writes (`t`, `d`, `r`).

use vstd::prelude::*;
use crate::content::{
    check_tracks, count_content, count_in, find_in, first_index, has_content, tracks_error,
    tracks_valid, ContentTyped,
};
pub use crate::mpd::{AudioChannelConfiguration, ContentType, InvalidMpd, ServiceDescription};

verus! {

/// A DASH manifest.
#[derive(Debug)]
pub struct Mpd {
    pub xmlns_xsi: String,
    pub xmlns: String,
    pub xmlns_xlink: String,
    pub xsi_schema_location: String,
    pub profiles: String,
    pub mpd_type: String,
    pub media_presentation_duration: String,
    pub max_segment_duration: String,
    pub min_buffer_time: String,
    pub text: Option<String>,
    pub program_information: String,
    pub service_description: ServiceDescription,
    pub period: Period,
}

#[derive(Debug)]
pub struct Period {
    pub id: String,
    pub start: String,
    pub text: Option<String>,
    pub adaptation_set: Vec<AdaptationSet>,
}

#[derive(Debug)]
pub struct AdaptationSet {
    pub id: String,
    pub content_type: ContentType,
    pub start_with_sap: String,
    pub segment_alignment: String,
    pub bitstream_switching: String,
    pub frame_rate: Option<String>,
    pub max_width: Option<String>,
    pub max_height: Option<String>,
    pub par: Option<String>,
    pub lang: String,
    pub text: Option<String>,
    pub representation: Representation,
}

#[derive(Debug)]
pub struct Representation {
    pub id: String,
    pub mime_type: String,
    pub codecs: String,
    pub bandwidth: String,
    pub width: Option<String>,
    pub height: Option<String>,
    pub sar: Option<String>,
    pub audio_sampling_rate: Option<String>,
    pub text: Option<String>,
    pub segment_template: SegmentTemplate,
    pub audio_channel_configuration: Option<AudioChannelConfiguration>,
}

#[derive(Debug)]
pub struct SegmentTemplate {
    pub timescale: String,
    pub initialization: String,
    pub media: String,
    pub start_number: String,
    pub text: Option<String>,
    pub segment_timeline: SegmentTimeline,
}

#[derive(Debug)]
pub struct SegmentTimeline {
    pub text: Option<String>,
    pub s: Vec<S>,
}

/// A timeline entry: start time `t`, duration `d`, repetitions `r`.
#[derive(Debug)]
pub struct S {
    pub t: Option<String>,
    pub d: String,
    pub r: Option<String>,
}

impl ContentTyped for AdaptationSet {
    open spec fn kind(&self) -> ContentType {
        self.content_type
    }

    fn content_type_of(&self) -> (ct: ContentType) {
        self.content_type
    }
}

impl Mpd {
    /// The adaptation sets of the manifest's period.
    pub open spec fn sets(&self) -> Seq<AdaptationSet> {
        self.period.adaptation_set@
    }

    /// A manifest is accepted when it has exactly one video and exactly one
    /// audio adaptation set.
    pub open spec fn is_valid(&self) -> bool {
        tracks_valid(self.sets())
    }

    /// The manifest that a reading of the manifest text gave, checked:
    /// a reading that failed with `msg` is refused with `msg` as the reason;
    /// a manifest that was read is handed to `validate`.
    pub fn from_parsed(parsed: Result<Mpd, String>) -> (r: Result<Mpd, InvalidMpd>)
        ensures
            parsed matches Err(msg) ==> (r matches Err(e) && e.error == msg),
            parsed matches Ok(m) ==> (m.is_valid() ==> r == Ok::<Mpd, InvalidMpd>(m)),
            parsed matches Ok(m) ==> (!m.is_valid() ==> (r matches Err(e) && e.error@
                == tracks_error(m.sets()))),
    {
        match parsed {
            Ok(m) => m.validate(),
            Err(msg) => Err(InvalidMpd { error: msg }),
        }
    }

    /// Accepts a manifest with exactly one video and exactly one audio set;
    /// the video set is checked first.
    pub fn validate(self) -> (r: Result<Self, InvalidMpd>)
        ensures
            self.is_valid() ==> r == Ok::<Mpd, InvalidMpd>(self),
            !self.is_valid() ==> (r matches Err(e) && e.error@ == tracks_error(self.sets())),
    {
        match check_tracks(&self.period.adaptation_set) {
            Ok(()) => Ok(self),
            Err(e) => Err(e),
        }
    }

    /// The number of adaptation sets of content type `ct`.
    pub fn count_ct(&self, ct: ContentType) -> (n: usize)
        ensures
            n == count_content(self.sets(), ct),
    {
        count_in(&self.period.adaptation_set, ct)
    }

    /// The first video adaptation set of the manifest.
    pub fn video_aset(&self) -> (aset: &AdaptationSet)
        requires
            has_content(self.sets(), ContentType::VIDEO),
        ensures
            *aset == self.sets()[first_index(self.sets(), ContentType::VIDEO)],
            aset.content_type == ContentType::VIDEO,
    {
        let i = find_in(&self.period.adaptation_set, ContentType::VIDEO);
        &self.period.adaptation_set[i]
    }

    /// The first audio adaptation set of the manifest.
    pub fn audio_aset(&self) -> (aset: &AdaptationSet)
        requires
            has_content(self.sets(), ContentType::AUDIO),
        ensures
            *aset == self.sets()[first_index(self.sets(), ContentType::AUDIO)],
            aset.content_type == ContentType::AUDIO,
    {
        let i = find_in(&self.period.adaptation_set, ContentType::AUDIO);
        &self.period.adaptation_set[i]
    }
}

} // verus!
