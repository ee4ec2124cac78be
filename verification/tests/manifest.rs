use tubu::mpd::{
    AdaptationSet, ContentType, InvalidMpd, Mpd, Period, RawTimelineEntry, Representation,
    SegmentTemplate, SegmentTimeline, ServiceDescription, TimelineEntry,
};

fn s(x: &str) -> String {
    x.to_string()
}

fn aset(id: &str, ct: ContentType, timeline: Vec<TimelineEntry>) -> AdaptationSet {
    AdaptationSet {
        id: s(id),
        content_type: ct,
        start_with_sap: s("1"),
        segment_alignment: s("true"),
        bitstream_switching: s("true"),
        frame_rate: None,
        max_width: None,
        max_height: None,
        par: None,
        lang: s("und"),
        text: None,
        representation: Representation {
            id: s(id),
            mime_type: s("video/mp4"),
            codecs: s("avc1"),
            bandwidth: s("1000"),
            width: None,
            height: None,
            sar: None,
            audio_sampling_rate: None,
            text: None,
            segment_template: SegmentTemplate {
                timescale: s("1000"),
                initialization: s("init-$RepresentationID$.m4s"),
                media: s("chunk-$RepresentationID$-$Number%05d$.m4s"),
                start_number: s("1"),
                text: None,
                segment_timeline: SegmentTimeline { text: None, timeline },
            },
            audio_channel_configuration: None,
        },
    }
}

fn mpd(sets: Vec<AdaptationSet>) -> Mpd {
    Mpd {
        xmlns_xsi: s("x"),
        xmlns: s("x"),
        xmlns_xlink: s("x"),
        xsi_schema_location: s("x"),
        profiles: s("p"),
        mpd_type: s("static"),
        media_presentation_duration: s("PT10S"),
        max_segment_duration: s("PT2S"),
        min_buffer_time: s("PT2S"),
        text: None,
        program_information: s(""),
        service_description: ServiceDescription { id: s("0"), text: None },
        period: Period { id: s("0"), start: s("PT0S"), text: None, adaptation_set: sets },
    }
}

fn single(d: usize) -> TimelineEntry {
    TimelineEntry::SingleEntry { timestamp: Some(0), duration: d }
}

#[test]
fn raw_entry_with_repeats_becomes_repeated_entry() {
    let raw = RawTimelineEntry { timestamp: Some(5), duration: 2000, repeats: Some(3) };
    let e = TimelineEntry::from(raw);
    match e {
        TimelineEntry::RepeatedEntry { timestamp, duration, extra_repeats } => {
            assert_eq!(timestamp, Some(5));
            assert_eq!(duration, 2000);
            assert_eq!(extra_repeats, 3);
        },
        _ => panic!("expected a repeated entry"),
    }
    assert_eq!(e.segment_count(), 4);
    assert_eq!(e.iter().len(), 4);
}

#[test]
fn raw_entry_without_repeats_becomes_single_entry() {
    let raw = RawTimelineEntry { timestamp: None, duration: 1500, repeats: None };
    let e: TimelineEntry = raw.into();
    assert!(matches!(e, TimelineEntry::SingleEntry { timestamp: None, duration: 1500 }));
    assert_eq!(e.segment_count(), 1);
    assert_eq!(e.iter().len(), 1);
}

#[test]
fn repeated_entry_with_zero_repeats_has_one_segment() {
    let e = TimelineEntry::RepeatedEntry { timestamp: None, duration: 1, extra_repeats: 0 };
    assert_eq!(e.segment_count(), 1);
}

#[test]
fn content_type_names() {
    assert_eq!(ContentType::VIDEO.to_string(), "video");
    assert_eq!(ContentType::AUDIO.to_string(), "audio");
    assert_eq!(ContentType::AUDIO.as_str(), "audio");
}

#[test]
fn substitutes_representation_id_and_padded_number() {
    let a = aset("0", ContentType::VIDEO, vec![]);
    assert_eq!(a.subst_placeholers("init-$RepresentationID$.m4s", 0), "init-0.m4s");
    assert_eq!(
        a.subst_placeholers("chunk-$RepresentationID$-$Number%05d$.m4s", 42),
        "chunk-0-00042.m4s"
    );
    assert_eq!(a.subst_placeholers("$Number%05d$", 1234567), "1234567");
}

#[test]
fn substitution_without_placeholders_keeps_template() {
    let a = aset("7", ContentType::AUDIO, vec![]);
    assert_eq!(a.subst_placeholers("plain.m4s", 12), "plain.m4s");
}

#[test]
fn substitution_replaces_every_occurrence() {
    let a = aset("ab", ContentType::AUDIO, vec![]);
    assert_eq!(
        a.subst_placeholers("$RepresentationID$/$RepresentationID$-$Number%05d$", 3),
        "ab/ab-00003"
    );
}

#[test]
fn segment_names_start_with_init_then_number_media_from_one() {
    let timeline = vec![
        single(2000),
        TimelineEntry::RepeatedEntry { timestamp: None, duration: 2000, extra_repeats: 2 },
        single(1000),
    ];
    let a = aset("1", ContentType::AUDIO, timeline);
    let names = a.segment_names_iterator();
    assert_eq!(
        names,
        vec![
            s("init-1.m4s"),
            s("chunk-1-00001.m4s"),
            s("chunk-1-00002.m4s"),
            s("chunk-1-00003.m4s"),
            s("chunk-1-00004.m4s"),
            s("chunk-1-00005.m4s"),
        ]
    );
}

#[test]
fn segment_names_of_empty_timeline_is_init_only() {
    let a = aset("0", ContentType::VIDEO, vec![]);
    assert_eq!(a.segment_names_iterator(), vec![s("init-0.m4s")]);
}

#[test]
fn valid_manifest_is_accepted_and_getters_find_sets() {
    let m = mpd(vec![
        aset("a", ContentType::AUDIO, vec![single(1)]),
        aset("v", ContentType::VIDEO, vec![single(1)]),
    ]);
    assert_eq!(m.count_ct(ContentType::VIDEO), 1);
    assert_eq!(m.count_ct(ContentType::AUDIO), 1);
    let m = m.validate().expect("manifest should be accepted");
    assert_eq!(m.video_aset().id, "v");
    assert_eq!(m.audio_aset().id, "a");
}

#[test]
fn two_video_sets_are_refused_with_video_message() {
    let m = mpd(vec![
        aset("v1", ContentType::VIDEO, vec![]),
        aset("v2", ContentType::VIDEO, vec![]),
        aset("a", ContentType::AUDIO, vec![]),
    ]);
    assert_eq!(m.count_ct(ContentType::VIDEO), 2);
    assert_eq!(m.video_aset().id, "v1");
    let err = m.validate().unwrap_err();
    assert_eq!(err.error, "Manifest does not have exactly 1 'video' element");
    assert_eq!(err.to_string(), "Manifest does not have exactly 1 'video' element");
}

#[test]
fn missing_audio_is_refused_with_audio_message() {
    let m = mpd(vec![aset("v", ContentType::VIDEO, vec![])]);
    let err = m.validate().unwrap_err();
    assert_eq!(err.error, "Manifest does not have exactly 1 'audio' element");
}

#[test]
fn empty_manifest_is_refused_for_video_first() {
    let m = mpd(vec![]);
    let err = m.validate().unwrap_err();
    assert_eq!(err.error, "Manifest does not have exactly 1 'video' element");
}

#[test]
fn reading_error_is_passed_on_as_reason() {
    let r = Mpd::from_parsed(Err(s("missing field `Period`")));
    let err: InvalidMpd = r.unwrap_err();
    assert_eq!(err.error, "missing field `Period`");
}

#[test]
fn read_manifest_is_validated() {
    let ok = Mpd::from_parsed(Ok(mpd(vec![
        aset("v", ContentType::VIDEO, vec![]),
        aset("a", ContentType::AUDIO, vec![]),
    ])));
    assert!(ok.is_ok());
    let bad = Mpd::from_parsed(Ok(mpd(vec![aset("a", ContentType::AUDIO, vec![])])));
    assert_eq!(bad.unwrap_err().error, "Manifest does not have exactly 1 'video' element");
}

#[test]
fn names_depend_only_on_id_templates_and_timeline_shape() {
    let mut a1 = aset("3", ContentType::VIDEO, vec![
        single(1000),
        TimelineEntry::RepeatedEntry { timestamp: Some(0), duration: 500, extra_repeats: 2 },
    ]);
    let mut a2 = aset("3", ContentType::AUDIO, vec![
        TimelineEntry::RepeatedEntry { timestamp: None, duration: 9, extra_repeats: 0 },
        TimelineEntry::RepeatedEntry { timestamp: Some(77), duration: 1, extra_repeats: 2 },
    ]);
    a1.lang = s("en");
    a2.representation.codecs = s("mp4a");
    assert_eq!(a1.segment_names_iterator(), a2.segment_names_iterator());
    assert_eq!(a1.segment_names_iterator().len(), 5);
}

#[test]
fn media_names_are_pairwise_distinct() {
    let a = aset("0", ContentType::VIDEO, vec![
        TimelineEntry::RepeatedEntry { timestamp: None, duration: 1, extra_repeats: 30 },
    ]);
    let names = a.segment_names_iterator();
    let mut media: Vec<&String> = names[1..].iter().collect();
    let n = media.len();
    media.sort();
    media.dedup();
    assert_eq!(media.len(), n);
}
