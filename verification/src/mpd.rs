//! The model of a DASH manifest (MPD): what a manifest holds, which
//! manifests are accepted, and the names of the segments of a track.

use vstd::prelude::*;
use crate::content::{
    check_tracks, count_content, count_in, find_in, first_index, has_content, lemma_unique_content,
    tracks_error, tracks_valid, ContentTyped,
};
use crate::text::{all_digits, decimal_value, lemma_replace_leading_pattern, lemma_zero_padded_roundtrip, lemma_replace_distinct, lemma_zero_padded_distinct, lemma_replace_absent, occurs_in, replace_all, replace_str, zero_padded, zero_padded_decimal};

verus! {

/// A DASH manifest.
#[derive(Debug)]
pub struct Mpd {
    pub xmlns_xsi: String,
    pub xmlns: String,
    pub xmlns_xlink: String,
    pub xsi_schema_location: String,
    pub profiles: String,
    pub mpd_type: String,
    pub media_presentation_duration: String,
    pub max_segment_duration: String,
    pub min_buffer_time: String,
    pub text: Option<String>,
    pub program_information: String,
    pub service_description: ServiceDescription,
    pub period: Period,
}

#[derive(Debug)]
pub struct ServiceDescription {
    pub id: String,
    pub text: Option<String>,
}

#[derive(Debug)]
pub struct Period {
    pub id: String,
    pub start: String,
    pub text: Option<String>,
    pub adaptation_set: Vec<AdaptationSet>,
}

/// The kind of media an adaptation set carries.
#[derive(Debug, Clone, Copy, PartialEq, Eq, Structural)]
pub enum ContentType {
    VIDEO,
    AUDIO,
}

/// The name of a content type, as manifests and messages write it.
pub open spec fn content_type_name(ct: ContentType) -> Seq<char> {
    match ct {
        ContentType::VIDEO => "video"@,
        ContentType::AUDIO => "audio"@,
    }
}

impl ContentType {
    /// The name of the content type: "video" or "audio".
    pub fn as_str(&self) -> (s: &'static str)
        ensures
            s@ == content_type_name(*self),
    {
        match self {
            ContentType::VIDEO => "video",
            ContentType::AUDIO => "audio",
        }
    }

    /// The name of the content type as an owned string.
    pub fn to_string(&self) -> (s: String)
        ensures
            s@ == content_type_name(*self),
    {
        String::from_str(self.as_str())
    }
}

#[derive(Debug, Clone)]
pub struct AdaptationSet {
    pub id: String,
    pub content_type: ContentType,
    pub start_with_sap: String,
    pub segment_alignment: String,
    pub bitstream_switching: String,
    pub frame_rate: Option<String>,
    pub max_width: Option<String>,
    pub max_height: Option<String>,
    pub par: Option<String>,
    pub lang: String,
    pub text: Option<String>,
    pub representation: Representation,
}

#[derive(Debug, Clone)]
pub struct Representation {
    pub id: String,
    pub mime_type: String,
    pub codecs: String,
    pub bandwidth: String,
    pub width: Option<String>,
    pub height: Option<String>,
    pub sar: Option<String>,
    pub audio_sampling_rate: Option<String>,
    pub text: Option<String>,
    pub segment_template: SegmentTemplate,
    pub audio_channel_configuration: Option<AudioChannelConfiguration>,
}

#[derive(Debug, Clone)]
pub struct SegmentTemplate {
    pub timescale: String,
    pub initialization: String,
    pub media: String,
    pub start_number: String,
    pub text: Option<String>,
    pub segment_timeline: SegmentTimeline,
}

#[derive(Debug, Clone)]
pub struct SegmentTimeline {
    pub text: Option<String>,
    pub timeline: Vec<TimelineEntry>,
}

/// A timeline entry as a manifest writes it: start time `t`, duration `d`
/// and the number `r` of repetitions after the first segment.
#[derive(Debug, Clone)]
pub struct RawTimelineEntry {
    pub timestamp: Option<usize>,
    pub duration: usize,
    pub repeats: Option<usize>,
}

/// One entry of a segment timeline: one segment, or one segment followed by
/// `extra_repeats` more of the same duration.
#[derive(Debug, Clone)]
pub enum TimelineEntry {
    RepeatedEntry { timestamp: Option<usize>, duration: usize, extra_repeats: usize },
    SingleEntry { timestamp: Option<usize>, duration: usize },
}

/// The entry that a raw timeline entry stands for.
pub open spec fn timeline_entry_of(raw: RawTimelineEntry) -> TimelineEntry {
    match raw.repeats {
        Some(repeats) => TimelineEntry::RepeatedEntry {
            timestamp: raw.timestamp,
            duration: raw.duration,
            extra_repeats: repeats,
        },
        None => TimelineEntry::SingleEntry { timestamp: raw.timestamp, duration: raw.duration },
    }
}

impl From<RawTimelineEntry> for TimelineEntry {
    fn from(raw: RawTimelineEntry) -> (entry: Self) {
        if let Some(repeats) = raw.repeats {
            TimelineEntry::RepeatedEntry {
                timestamp: raw.timestamp,
                duration: raw.duration,
                extra_repeats: repeats,
            }
        } else {
            TimelineEntry::SingleEntry { timestamp: raw.timestamp, duration: raw.duration }
        }
    }
}

impl vstd::std_specs::convert::FromSpecImpl<RawTimelineEntry> for TimelineEntry {
    open spec fn obeys_from_spec() -> bool {
        true
    }

    open spec fn from_spec(raw: RawTimelineEntry) -> Self {
        timeline_entry_of(raw)
    }
}

/// The number of segments an entry stands for.
pub open spec fn entry_segments(e: TimelineEntry) -> nat {
    match e {
        TimelineEntry::RepeatedEntry { extra_repeats, .. } => (1 + extra_repeats) as nat,
        TimelineEntry::SingleEntry { .. } => 1,
    }
}

/// The number of media segments a timeline stands for.
pub open spec fn total_segments(entries: Seq<TimelineEntry>) -> nat
    decreases entries.len(),
{
    if entries.len() == 0 {
        0
    } else {
        total_segments(entries.drop_last()) + entry_segments(entries.last())
    }
}

/// A media segment of a timeline entry (it carries nothing yet).
#[derive(Debug, Clone)]
pub struct Segment {}

impl TimelineEntry {
    /// The number of segments this entry stands for.
    pub fn segment_count(&self) -> (n: usize)
        requires
            entry_segments(*self) <= usize::MAX,
        ensures
            n == entry_segments(*self),
    {
        match self {
            TimelineEntry::RepeatedEntry { extra_repeats, .. } => 1 + *extra_repeats,
            TimelineEntry::SingleEntry { .. } => 1,
        }
    }

    /// The segments of this entry, one per segment it stands for.
    pub fn iter(&self) -> (segs: Vec<Segment>)
        requires
            entry_segments(*self) <= usize::MAX,
        ensures
            segs@.len() == entry_segments(*self),
    {
        let n = self.segment_count();
        let mut segs: Vec<Segment> = Vec::new();
        for i in 0..n
            invariant
                segs@.len() == i,
        {
            segs.push(Segment {});
        }
        segs
    }
}

#[derive(Debug, Clone)]
pub struct AudioChannelConfiguration {
    pub scheme_id_uri: String,
    pub value: String,
}

/// The placeholder that a segment name template holds for the
/// representation's id.
pub open spec fn representation_id_placeholder() -> Seq<char> {
    "$RepresentationID$"@
}

/// The placeholder that a segment name template holds for the segment's
/// number, written with five digits at least.
pub open spec fn number_placeholder() -> Seq<char> {
    "$Number%05d$"@
}

/// The name made from template `tpl` for segment number `index` of the
/// representation with id `id`: the id placeholder replaced first, then the
/// number placeholder by `index` padded with zeros to five digits.
pub open spec fn substituted(tpl: Seq<char>, id: Seq<char>, index: nat) -> Seq<char> {
    replace_all(
        replace_all(tpl, representation_id_placeholder(), id),
        number_placeholder(),
        zero_padded(index, 5),
    )
}

impl AdaptationSet {
    /// The name of segment `i` of this set: the initialization segment for
    /// `i == 0`, media segment `i` otherwise.
    pub open spec fn segment_name(&self, i: nat) -> Seq<char> {
        let tpl = self.representation.segment_template;
        if i == 0 {
            substituted(tpl.initialization@, self.representation.id@, 0)
        } else {
            substituted(tpl.media@, self.representation.id@, i)
        }
    }

    /// The number of media segments of this set.
    pub open spec fn media_segments(&self) -> nat {
        total_segments(self.representation.segment_template.segment_timeline.timeline@)
    }

    /// The full names of the segments, starting from the initialization one,
    /// then the media segments numbered from 1.
    pub fn segment_names_iterator(&self) -> (names: Vec<String>)
        requires
            self.media_segments() < usize::MAX,
        ensures
            names@.len() == self.media_segments() + 1,
            forall|i: int| 0 <= i < names@.len() ==> #[trigger] names@[i]@ == self.segment_name(i as nat),
    {
        let tpl = &self.representation.segment_template;
        let entries = &tpl.segment_timeline.timeline;
        let ghost all = entries@;
        let mut total: usize = 0;
        for k in 0..entries.len()
            invariant
                all == entries@,
                total_segments(all) < usize::MAX,
                total == total_segments(all.take(k as int)),
        {
            proof {
                assert(all.take(k + 1).drop_last() =~= all.take(k as int));
                lemma_total_segments_prefix(all, k + 1);
            }
            total = total + entries[k].segment_count();
        }
        assert(all.take(entries@.len() as int) =~= all);
        let mut names: Vec<String> = Vec::new();
        names.push(self.subst_placeholers(tpl.initialization.as_str(), 0));
        let mut i: usize = 1;
        while i <= total
            invariant
                1 <= i <= total + 1,
                *tpl == self.representation.segment_template,
                total == self.media_segments(),
                total < usize::MAX,
                names@.len() == i,
                forall|j: int| 0 <= j < i ==> #[trigger] names@[j]@ == self.segment_name(j as nat),
            decreases total + 1 - i,
        {
            let name = self.subst_placeholers(tpl.media.as_str(), i);
            assert(name@ == self.segment_name(i as nat));
            let ghost before = names@;
            names.push(name);
            assert forall|j: int| 0 <= j <= i implies #[trigger] names@[j]@ == self.segment_name(
                j as nat,
            ) by {
                if j < i {
                    assert(names@[j] == before[j]);
                }
            }
            i = i + 1;
        }
        names
    }

    /// The full names of the segments, as `segment_names_iterator` gives
    /// them, or `None` where the number of segments does not fit in a `usize`.
    pub fn checked_segment_names(&self) -> (names: Option<Vec<String>>)
        ensures
            names is Some <==> self.media_segments() < usize::MAX,
            names matches Some(v) ==> v@.len() == self.media_segments() + 1 && forall|i: int|
                0 <= i < v@.len() ==> #[trigger] v@[i]@ == self.segment_name(i as nat),
    {
        let entries = &self.representation.segment_template.segment_timeline.timeline;
        let ghost all = entries@;
        let mut total: usize = 0;
        for k in 0..entries.len()
            invariant
                all == entries@,
                total_segments(all) == self.media_segments(),
                total == total_segments(all.take(k as int)),
                total < usize::MAX,
        {
            proof {
                assert(all.take(k + 1).drop_last() =~= all.take(k as int));
            }
            let extra: usize = match &entries[k] {
                TimelineEntry::RepeatedEntry { extra_repeats, .. } => *extra_repeats,
                TimelineEntry::SingleEntry { .. } => 0,
            };
            assert(entry_segments(all[k as int]) == 1 + extra);
            assert(total_segments(all.take(k + 1)) == total + 1 + extra);
            if extra >= usize::MAX - 1 - total {
                proof {
                    lemma_total_segments_prefix(all, k + 1);
                }
                return None;
            }
            total = total + 1 + extra;
        }
        assert(all.take(entries@.len() as int) =~= all);
        Some(self.segment_names_iterator())
    }

    /// Fills the placeholders of template `s` for segment number `index`.
    pub fn subst_placeholers(&self, s: &str, index: usize) -> (name: String)
        ensures
            name@ == substituted(s@, self.representation.id@, index as nat),
    {
        let padded_index = zero_padded_decimal(index, 5);
        proof {
            reveal_strlit("$RepresentationID$");
            reveal_strlit("$Number%05d$");
        }
        let with_id = replace_str(s, "$RepresentationID$", self.representation.id.as_str());
        replace_str(with_id.as_str(), "$Number%05d$", padded_index.as_str())
    }
}

/// A prefix of a timeline stands for no more segments than the timeline.
pub proof fn lemma_total_segments_prefix(entries: Seq<TimelineEntry>, k: int)
    requires
        0 <= k <= entries.len(),
    ensures
        total_segments(entries.take(k)) <= total_segments(entries),
    decreases entries.len(),
{
    if k < entries.len() {
        assert(entries.drop_last().take(k) =~= entries.take(k));
        lemma_total_segments_prefix(entries.drop_last(), k);
    } else {
        assert(entries.take(k) =~= entries);
    }
}

/// A manifest that the library refuses, with the reason.
#[derive(Debug)]
pub struct InvalidMpd {
    pub error: String,
}

impl InvalidMpd {
    /// The text of the error.
    pub fn to_string(&self) -> (s: String)
        ensures
            s@ == self.error@,
    {
        self.error.clone()
    }
}

impl Mpd {
    /// The adaptation sets of the manifest's period.
    pub open spec fn sets(&self) -> Seq<AdaptationSet> {
        self.period.adaptation_set@
    }

    /// A manifest is accepted when it has exactly one video and exactly one
    /// audio adaptation set.
    pub open spec fn is_valid(&self) -> bool {
        tracks_valid(self.sets())
    }

    /// The manifest that a reading of the manifest text gave, checked:
    /// a reading that failed with `msg` is refused with `msg` as the reason;
    /// a manifest that was read is handed to `validate`.
    pub fn from_parsed(parsed: Result<Mpd, String>) -> (r: Result<Mpd, InvalidMpd>)
        ensures
            parsed matches Err(msg) ==> (r matches Err(e) && e.error == msg),
            parsed matches Ok(m) ==> (m.is_valid() ==> r == Ok::<Mpd, InvalidMpd>(m)),
            parsed matches Ok(m) ==> (!m.is_valid() ==> (r matches Err(e) && e.error@
                == tracks_error(m.sets()))),
    {
        match parsed {
            Ok(m) => m.validate(),
            Err(msg) => Err(InvalidMpd { error: msg }),
        }
    }

    /// Accepts a manifest with exactly one video and exactly one audio set;
    /// the video set is checked first.
    pub fn validate(self) -> (r: Result<Self, InvalidMpd>)
        ensures
            self.is_valid() ==> r == Ok::<Mpd, InvalidMpd>(self),
            !self.is_valid() ==> (r matches Err(e) && e.error@ == tracks_error(self.sets())),
    {
        match check_tracks(&self.period.adaptation_set) {
            Ok(()) => Ok(self),
            Err(e) => Err(e),
        }
    }

    /// The number of adaptation sets of content type `ct`.
    pub fn count_ct(&self, ct: ContentType) -> (n: usize)
        ensures
            n == count_content(self.sets(), ct),
    {
        count_in(&self.period.adaptation_set, ct)
    }

    /// The first video adaptation set of the manifest.
    pub fn video_aset(&self) -> (aset: &AdaptationSet)
        requires
            has_content(self.sets(), ContentType::VIDEO),
        ensures
            *aset == self.sets()[first_index(self.sets(), ContentType::VIDEO)],
            aset.content_type == ContentType::VIDEO,
    {
        let i = find_in(&self.period.adaptation_set, ContentType::VIDEO);
        &self.period.adaptation_set[i]
    }

    /// The first audio adaptation set of the manifest.
    pub fn audio_aset(&self) -> (aset: &AdaptationSet)
        requires
            has_content(self.sets(), ContentType::AUDIO),
        ensures
            *aset == self.sets()[first_index(self.sets(), ContentType::AUDIO)],
            aset.content_type == ContentType::AUDIO,
    {
        let i = find_in(&self.period.adaptation_set, ContentType::AUDIO);
        &self.period.adaptation_set[i]
    }
}

impl ContentTyped for AdaptationSet {
    open spec fn kind(&self) -> ContentType {
        self.content_type
    }

    fn content_type_of(&self) -> (ct: ContentType) {
        self.content_type
    }
}

/// Law: a manifest that `validate` accepts has the video and the audio set
/// that `video_aset` and `audio_aset` need, and each is the only set of its
/// content type, so that the getters give the manifest's one video and one
/// audio set.
pub proof fn lemma_valid_manifest_tracks(m: Mpd)
    requires
        m.is_valid(),
    ensures
        has_content(m.sets(), ContentType::VIDEO),
        has_content(m.sets(), ContentType::AUDIO),
        forall|j: int|
            0 <= j < m.sets().len() && #[trigger] m.sets()[j].content_type == ContentType::VIDEO
                ==> j == first_index(m.sets(), ContentType::VIDEO),
        forall|j: int|
            0 <= j < m.sets().len() && #[trigger] m.sets()[j].content_type == ContentType::AUDIO
                ==> j == first_index(m.sets(), ContentType::AUDIO),
{
    lemma_unique_content(m.sets(), ContentType::VIDEO);
    lemma_unique_content(m.sets(), ContentType::AUDIO);
    assert forall|j: int|
        0 <= j < m.sets().len() && #[trigger] m.sets()[j].content_type
            == ContentType::VIDEO implies j == first_index(m.sets(), ContentType::VIDEO) by {
        assert(m.sets()[j].kind() == ContentType::VIDEO);
    }
    assert forall|j: int|
        0 <= j < m.sets().len() && #[trigger] m.sets()[j].content_type
            == ContentType::AUDIO implies j == first_index(m.sets(), ContentType::AUDIO) by {
        assert(m.sets()[j].kind() == ContentType::AUDIO);
    }
}

/// Two timelines with the same number of entries, entry by entry standing
/// for the same number of segments (start times and durations may differ).
pub open spec fn same_shape(t1: Seq<TimelineEntry>, t2: Seq<TimelineEntry>) -> bool {
    &&& t1.len() == t2.len()
    &&& forall|i: int| 0 <= i < t1.len() ==> entry_segments(#[trigger] t1[i]) == entry_segments(t2[i])
}

proof fn lemma_same_shape_total(t1: Seq<TimelineEntry>, t2: Seq<TimelineEntry>)
    requires
        same_shape(t1, t2),
    ensures
        total_segments(t1) == total_segments(t2),
    decreases t1.len(),
{
    if t1.len() > 0 {
        let (p1, p2) = (t1.drop_last(), t2.drop_last());
        assert forall|i: int| 0 <= i < p1.len() implies entry_segments(#[trigger] p1[i])
            == entry_segments(p2[i]) by {
            assert(p1[i] == t1[i] && p2[i] == t2[i]);
        }
        lemma_same_shape_total(p1, p2);
        assert(entry_segments(t1[t1.len() - 1]) == entry_segments(t2[t2.len() - 1]));
    }
}

/// Law: the segment names of an adaptation set depend only on its
/// representation's id, its two templates and the shape of its timeline:
/// two sets that agree on these have the same number of segments and the
/// same name for each, whatever their other fields, start times and
/// durations (so `segment_names_iterator` gives both the same names).
pub proof fn lemma_segment_names_depend_on_shape(a1: AdaptationSet, a2: AdaptationSet)
    requires
        a1.representation.id@ == a2.representation.id@,
        a1.representation.segment_template.initialization@
            == a2.representation.segment_template.initialization@,
        a1.representation.segment_template.media@ == a2.representation.segment_template.media@,
        same_shape(
            a1.representation.segment_template.segment_timeline.timeline@,
            a2.representation.segment_template.segment_timeline.timeline@,
        ),
    ensures
        a1.media_segments() == a2.media_segments(),
        forall|i: nat| #[trigger] a1.segment_name(i) == a2.segment_name(i),
{
    lemma_same_shape_total(
        a1.representation.segment_template.segment_timeline.timeline@,
        a2.representation.segment_template.segment_timeline.timeline@,
    );
}

/// Law: media segments get pairwise different names when the media
/// template, once the representation's id is filled in, still holds the
/// number placeholder.
pub proof fn lemma_media_names_distinct(a: AdaptationSet, i: nat, j: nat)
    requires
        1 <= i,
        1 <= j,
        i != j,
        occurs_in(
            number_placeholder(),
            replace_all(
                a.representation.segment_template.media@,
                representation_id_placeholder(),
                a.representation.id@,
            ),
        ),
    ensures
        a.segment_name(i) != a.segment_name(j),
{
    reveal_strlit("$Number%05d$");
    lemma_zero_padded_distinct(i, j, 5);
    lemma_replace_distinct(
        replace_all(
            a.representation.segment_template.media@,
            representation_id_placeholder(),
            a.representation.id@,
        ),
        number_placeholder(),
        zero_padded(i, 5),
        zero_padded(j, 5),
    );
}

/// Law: with a media template that is only the number placeholder, the name
/// of media segment `i` is `i` written with five digits at least: it is made
/// of digits and reads back as `i`.
pub proof fn lemma_number_only_media_name(a: AdaptationSet, i: nat)
    requires
        1 <= i,
        a.representation.segment_template.media@ == number_placeholder(),
    ensures
        a.segment_name(i) == zero_padded(i, 5),
        decimal_value(a.segment_name(i)) == i,
        all_digits(a.segment_name(i)),
        a.segment_name(i).len() >= 5,
{
    reveal_strlit("$Number%05d$");
    reveal_strlit("$RepresentationID$");
    let np = number_placeholder();
    let idp = representation_id_placeholder();
    assert(!occurs_in(idp, np)) by {
        assert forall|k: int| 0 <= k && k + idp.len() <= np.len() implies #[trigger] np.subrange(k, k + idp.len()) != idp by {
            assert(idp.len() > np.len());
        }
    }
    lemma_replace_absent(np, idp, a.representation.id@);
    lemma_replace_leading_pattern(Seq::<char>::empty(), np, zero_padded(i, 5));
    assert(np + Seq::<char>::empty() =~= np);
    assert(zero_padded(i, 5) + Seq::<char>::empty() =~= zero_padded(i, 5));
    lemma_zero_padded_roundtrip(i, 5);
}

/// Law: a template that holds neither placeholder names every segment the
/// same, by the template itself.
pub proof fn lemma_subst_without_placeholders(tpl: Seq<char>, id: Seq<char>, index: nat)
    requires
        !occurs_in(representation_id_placeholder(), tpl),
        !occurs_in(number_placeholder(), tpl),
    ensures
        substituted(tpl, id, index) == tpl,
{
    lemma_replace_absent(tpl, representation_id_placeholder(), id);
    lemma_replace_absent(tpl, number_placeholder(), zero_padded(index, 5));
}

} // verus!
