use tubu::tubu::mpd::{
    AdaptationSet, ContentType, Mpd, Period, Representation, SegmentTemplate, SegmentTimeline,
    ServiceDescription, S,
};

fn s(x: &str) -> String {
    x.to_string()
}

fn aset(id: &str, ct: ContentType) -> AdaptationSet {
    AdaptationSet {
        id: s(id),
        content_type: ct,
        start_with_sap: s("1"),
        segment_alignment: s("true"),
        bitstream_switching: s("true"),
        frame_rate: None,
        max_width: None,
        max_height: None,
        par: None,
        lang: s("und"),
        text: None,
        representation: Representation {
            id: s(id),
            mime_type: s("audio/mp4"),
            codecs: s("mp4a"),
            bandwidth: s("128000"),
            width: None,
            height: None,
            sar: None,
            audio_sampling_rate: Some(s("48000")),
            text: None,
            segment_template: SegmentTemplate {
                timescale: s("48000"),
                initialization: s("init-$RepresentationID$.m4s"),
                media: s("chunk-$RepresentationID$-$Number%05d$.m4s"),
                start_number: s("1"),
                text: None,
                segment_timeline: SegmentTimeline {
                    text: None,
                    s: vec![S { t: Some(s("0")), d: s("96000"), r: Some(s("2")) }],
                },
            },
            audio_channel_configuration: None,
        },
    }
}

fn mpd(sets: Vec<AdaptationSet>) -> Mpd {
    Mpd {
        xmlns_xsi: s("x"),
        xmlns: s("x"),
        xmlns_xlink: s("x"),
        xsi_schema_location: s("x"),
        profiles: s("p"),
        mpd_type: s("static"),
        media_presentation_duration: s("PT6S"),
        max_segment_duration: s("PT2S"),
        min_buffer_time: s("PT2S"),
        text: None,
        program_information: s(""),
        service_description: ServiceDescription { id: s("0"), text: None },
        period: Period { id: s("0"), start: s("PT0S"), text: None, adaptation_set: sets },
    }
}

#[test]
fn earlier_model_accepts_one_video_one_audio() {
    let m = mpd(vec![aset("v", ContentType::VIDEO), aset("a", ContentType::AUDIO)])
        .validate()
        .unwrap();
    assert_eq!(m.video_aset().id, "v");
    assert_eq!(m.audio_aset().id, "a");
    assert_eq!(m.count_ct(ContentType::AUDIO), 1);
}

#[test]
fn earlier_model_refuses_two_audio_sets() {
    let m = mpd(vec![
        aset("v", ContentType::VIDEO),
        aset("a1", ContentType::AUDIO),
        aset("a2", ContentType::AUDIO),
    ]);
    assert_eq!(m.audio_aset().id, "a1");
    assert_eq!(
        m.validate().unwrap_err().error,
        "Manifest does not have exactly 1 'audio' element"
    );
}

#[test]
fn earlier_model_reading_error_is_reason() {
    let r = Mpd::from_parsed(Err(s("bad xml")));
    assert_eq!(r.unwrap_err().error, "bad xml");
    let ok = Mpd::from_parsed(Ok(mpd(vec![aset("v", ContentType::VIDEO), aset("a", ContentType::AUDIO)])));
    assert!(ok.is_ok());
}
