use sealed_dioxus_ui::downloads::{DownloadUrlInfoFormat, DownloadUrlInfoSubtitle};
use sealed_dioxus_ui::subtitles::{
    build_subtitle, collect_subtitles, sort_subtitles, AutomaticCaption, AutomaticCaptionGroup,
    SubtitleGroup, SubtitleTrack,
};
use sealed_dioxus_ui::url_info::{build_url_info, FetchedVideo};

fn s(x: &str) -> String {
    x.to_string()
}

fn track(code: Option<&str>, name: Option<&str>, ext: &str) -> SubtitleTrack {
    SubtitleTrack {
        language_code: code.map(s),
        language_name: name.map(s),
        extension: s(ext),
        is_automatic: false,
    }
}

fn sub(id: &str, name: &str) -> DownloadUrlInfoSubtitle {
    DownloadUrlInfoSubtitle::Subtitle {
        id: s(id),
        language_code: s(id),
        language_name: s(name),
        extensions: vec![s("vtt")],
        is_automatic: false,
    }
}

#[test]
fn subtitle_ids() {
    assert_eq!(sub("en", "English").id(), "en");
    assert_eq!(DownloadUrlInfoSubtitle::LiveChat { extensions: s("json") }.id(), "live_chat");
}

#[test]
fn group_without_tracks_is_dropped() {
    assert_eq!(build_subtitle(SubtitleGroup { key: s("en"), tracks: vec![] }), None);
}

#[test]
fn live_chat_group() {
    let g = SubtitleGroup { key: s("live_chat"), tracks: vec![track(None, None, "json"), track(None, None, "vtt")] };
    assert_eq!(build_subtitle(g), Some(DownloadUrlInfoSubtitle::LiveChat { extensions: s("json") }));
}

#[test]
fn language_group_takes_first_track() {
    let g = SubtitleGroup {
        key: s("en-US"),
        tracks: vec![track(None, Some("English"), "vtt"), track(Some("xx"), Some("Other"), "srt")],
    };
    assert_eq!(
        build_subtitle(g),
        Some(DownloadUrlInfoSubtitle::Subtitle {
            id: s("en-US"),
            language_code: s("en-US"),
            language_name: s("English"),
            extensions: vec![s("vtt"), s("srt")],
            is_automatic: false,
        })
    );
    let g = SubtitleGroup { key: s("de"), tracks: vec![track(Some("de-DE"), None, "ttml")] };
    match build_subtitle(g) {
        Some(DownloadUrlInfoSubtitle::Subtitle { language_code, language_name, .. }) => {
            assert_eq!(language_code, "de-DE");
            assert_eq!(language_name, "");
        }
        other => panic!("unexpected {other:?}"),
    }
}

#[test]
fn sorting_puts_live_chat_first_then_names() {
    let sorted = sort_subtitles(vec![
        sub("fr", "French"),
        sub("de", "German"),
        DownloadUrlInfoSubtitle::LiveChat { extensions: s("json") },
        sub("en", "English"),
    ]);
    assert_eq!(
        sorted,
        vec![
            DownloadUrlInfoSubtitle::LiveChat { extensions: s("json") },
            sub("en", "English"),
            sub("fr", "French"),
            sub("de", "German"),
        ]
    );
}

#[test]
fn automatic_captions_are_marked() {
    let written = vec![SubtitleGroup { key: s("en"), tracks: vec![track(Some("en"), Some("English"), "vtt")] }];
    let automatic = vec![
        AutomaticCaptionGroup {
            key: s("ab"),
            captions: vec![AutomaticCaption { extension: s("json3"), name: Some(s("Abkhazian")) }],
        },
        AutomaticCaptionGroup { key: s("zz"), captions: vec![] },
    ];
    let all = collect_subtitles(written, automatic);
    assert_eq!(
        all,
        vec![
            DownloadUrlInfoSubtitle::Subtitle {
                id: s("ab"),
                language_code: s("ab"),
                language_name: s("Abkhazian"),
                extensions: vec![s("json3")],
                is_automatic: true,
            },
            DownloadUrlInfoSubtitle::Subtitle {
                id: s("en"),
                language_code: s("en"),
                language_name: s("English"),
                extensions: vec![s("vtt")],
                is_automatic: false,
            },
        ]
    );
}

fn video(webpage_url: Option<&str>, uploader: Option<&str>, channel: Option<&str>, channel_id: Option<&str>) -> FetchedVideo {
    FetchedVideo {
        id: s("abc"),
        webpage_url: webpage_url.map(s),
        title: s("A title"),
        description: Some(s("desc")),
        uploader: uploader.map(s),
        channel: channel.map(s),
        uploader_id: None,
        channel_id: channel_id.map(s),
        duration: Some(42),
    }
}

#[test]
fn url_info_picks_page_url_and_publisher() {
    let format = DownloadUrlInfoFormat {
        format: s("137 - 1080p"),
        format_id: s("137"),
        extension: Some(s("mp4")),
        video_codec: Some(s("avc1")),
        audio_codec: None,
        total_size: None,
        total_bitrate: None,
    };
    let info = build_url_info(
        s("https://youtu.be/abc"),
        video(Some("https://www.youtube.com/watch?v=abc"), None, Some("Chan"), Some("UC1")),
        Some(vec![1, 2, 3]),
        vec![format],
        vec![],
        vec![],
    );
    assert_eq!(info.url, "https://www.youtube.com/watch?v=abc");
    assert_eq!(info.uploader, Some(s("Chan")));
    assert_eq!(info.thumbnail, Some(vec![1, 2, 3]));
    assert_eq!(info.formats.len(), 1);
    let info = build_url_info(s("https://youtu.be/abc"), video(None, None, None, Some("UC1")), None, vec![], vec![], vec![]);
    assert_eq!(info.url, "https://youtu.be/abc");
    assert_eq!(info.uploader, Some(s("UC1")));
    assert_eq!(info.title, "A title");
    assert_eq!(info.duration, Some(42));
    let info = build_url_info(s("u"), video(None, Some("Up"), Some("Chan"), None), None, vec![], vec![], vec![]);
    assert_eq!(info.uploader, Some(s("Up")));
}

#[test]
fn equal_names_keep_written_subtitles_first() {
    let written = vec![
        SubtitleGroup { key: s("en"), tracks: vec![track(Some("en"), Some("English"), "vtt")] },
        SubtitleGroup { key: s("en-GB"), tracks: vec![track(None, Some("English"), "vtt")] },
    ];
    let automatic = vec![AutomaticCaptionGroup {
        key: s("en-orig"),
        captions: vec![AutomaticCaption { extension: s("vtt"), name: Some(s("English")) }],
    }];
    let all = collect_subtitles(written, automatic);
    let ids: Vec<&str> = all.iter().map(|x| x.id()).collect();
    assert_eq!(ids, vec!["en", "en-GB", "en-orig"]);
}

#[test]
fn sort_keeps_order_of_equals() {
    let sorted = sort_subtitles(vec![sub("b", "Same"), sub("a", "Same"), sub("c", "Alpha")]);
    let ids: Vec<&str> = sorted.iter().map(|x| x.id()).collect();
    assert_eq!(ids, vec!["c", "b", "a"]);
}
