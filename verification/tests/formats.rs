use sealed_dioxus_ui::downloads::{known_file_size, sort_formats_by_rank, DownloadUrlInfoFormat};
use sealed_dioxus_ui::downloads::{format_kind, format_rank, DownloadUrlSelection, FormatKind};
use sealed_dioxus_ui::formats::{
    optional_audio_video_format_id_contains, with_audio_format, with_video_audio_format,
    with_video_format, AudioVideoFormatId,
};

fn s(x: &str) -> String {
    x.to_string()
}

#[test]
fn contains_matches_shared_parts() {
    let mix = AudioVideoFormatId::MixVideoAudio(s("137"), s("140"));
    assert!(mix.contains(&AudioVideoFormatId::AudioOnly(s("140"))));
    assert!(mix.contains(&AudioVideoFormatId::VideoOnly(s("137"))));
    assert!(mix.contains(&AudioVideoFormatId::MixVideoAudio(s("137"), s("251"))));
    assert!(mix.contains(&AudioVideoFormatId::MixVideoAudio(s("248"), s("140"))));
    assert!(!mix.contains(&AudioVideoFormatId::MixVideoAudio(s("248"), s("251"))));
    assert!(!mix.contains(&AudioVideoFormatId::VideoAudio(s("137"))));
    let audio = AudioVideoFormatId::AudioOnly(s("140"));
    assert!(audio.contains(&AudioVideoFormatId::MixVideoAudio(s("137"), s("140"))));
    assert!(!audio.contains(&AudioVideoFormatId::VideoOnly(s("140"))));
    let va = AudioVideoFormatId::VideoAudio(s("18"));
    assert!(va.contains(&AudioVideoFormatId::VideoAudio(s("18"))));
    assert!(!va.contains(&AudioVideoFormatId::VideoAudio(s("22"))));
}

#[test]
fn optional_contains_is_false_without_choice() {
    assert!(!optional_audio_video_format_id_contains(&None, &AudioVideoFormatId::AudioOnly(s("140"))));
    assert!(optional_audio_video_format_id_contains(
        &Some(AudioVideoFormatId::VideoOnly(s("137"))),
        &AudioVideoFormatId::VideoOnly(s("137"))
    ));
}

#[test]
fn as_ids_lists_video_before_audio() {
    assert_eq!(AudioVideoFormatId::MixVideoAudio(s("137"), s("140")).as_ids(), vec![s("137"), s("140")]);
    assert_eq!(AudioVideoFormatId::AudioOnly(s("140")).as_ids(), vec![s("140")]);
    assert_eq!(AudioVideoFormatId::VideoAudio(s("18")).as_ids(), vec![s("18")]);
}

#[test]
fn audio_click_sequence() {
    let mut state = None;
    with_audio_format(&mut state, "140");
    assert_eq!(state, Some(AudioVideoFormatId::AudioOnly(s("140"))));
    with_audio_format(&mut state, "251");
    assert_eq!(state, Some(AudioVideoFormatId::AudioOnly(s("251"))));
    with_video_format(&mut state, "137");
    assert_eq!(state, Some(AudioVideoFormatId::MixVideoAudio(s("137"), s("251"))));
    with_audio_format(&mut state, "251");
    assert_eq!(state, Some(AudioVideoFormatId::VideoOnly(s("137"))));
    with_audio_format(&mut state, "140");
    assert_eq!(state, Some(AudioVideoFormatId::MixVideoAudio(s("137"), s("140"))));
    with_video_format(&mut state, "137");
    assert_eq!(state, Some(AudioVideoFormatId::AudioOnly(s("140"))));
    with_audio_format(&mut state, "140");
    assert_eq!(state, None);
}

#[test]
fn video_click_replaces_and_deselects() {
    let mut state = Some(AudioVideoFormatId::VideoOnly(s("137")));
    with_video_format(&mut state, "248");
    assert_eq!(state, Some(AudioVideoFormatId::VideoOnly(s("248"))));
    with_video_format(&mut state, "248");
    assert_eq!(state, None);
    let mut state = Some(AudioVideoFormatId::MixVideoAudio(s("137"), s("140")));
    with_video_format(&mut state, "248");
    assert_eq!(state, Some(AudioVideoFormatId::MixVideoAudio(s("248"), s("140"))));
    let mut state = Some(AudioVideoFormatId::VideoAudio(s("18")));
    with_video_format(&mut state, "248");
    assert_eq!(state, Some(AudioVideoFormatId::VideoOnly(s("248"))));
}

#[test]
fn video_audio_click_replaces_everything() {
    let mut state = Some(AudioVideoFormatId::MixVideoAudio(s("137"), s("140")));
    with_video_audio_format(&mut state, "18");
    assert_eq!(state, Some(AudioVideoFormatId::VideoAudio(s("18"))));
    with_video_audio_format(&mut state, "18");
    assert_eq!(state, None);
    with_video_audio_format(&mut state, "22");
    with_audio_format(&mut state, "140");
    assert_eq!(state, Some(AudioVideoFormatId::AudioOnly(s("140"))));
}

#[test]
fn clicking_twice_restores_a_merged_choice() {
    let start = Some(AudioVideoFormatId::MixVideoAudio(s("137"), s("140")));
    let mut state = start.clone();
    with_audio_format(&mut state, "140");
    with_audio_format(&mut state, "140");
    assert_eq!(state, start);
    let mut state = start.clone();
    with_video_format(&mut state, "137");
    with_video_format(&mut state, "137");
    assert_eq!(state, start);
}

#[test]
fn highlight_flips_on_click() {
    let mut state = Some(AudioVideoFormatId::VideoOnly(s("137")));
    let target = AudioVideoFormatId::AudioOnly(s("140"));
    assert!(!optional_audio_video_format_id_contains(&state, &target));
    with_audio_format(&mut state, "140");
    assert!(optional_audio_video_format_id_contains(&state, &target));
    with_audio_format(&mut state, "140");
    assert!(!optional_audio_video_format_id_contains(&state, &target));
}

#[test]
fn format_kinds_and_ranks() {
    assert_eq!(format_kind(&Some(s("avc1")), &None), FormatKind::VideoOnly);
    assert_eq!(format_kind(&None, &Some(s("opus"))), FormatKind::AudioOnly);
    assert_eq!(format_kind(&Some(s("avc1")), &Some(s("mp4a"))), FormatKind::VideoWithAudio);
    assert_eq!(format_kind(&None, &None), FormatKind::Other);
    assert_eq!(format_rank(FormatKind::VideoOnly), 3);
    assert_eq!(format_rank(FormatKind::AudioOnly), 2);
    assert_eq!(format_rank(FormatKind::VideoWithAudio), 1);
    assert_eq!(format_rank(FormatKind::Other), 0);
}

#[test]
fn selection_toggles_twice_restore() {
    let mut sel = DownloadUrlSelection::default();
    sel.toggle_storyboard_format("sb0");
    sel.toggle_storyboard_format("sb1");
    assert_eq!(sel.storyboard_format_ids, vec![s("sb0"), s("sb1")]);
    sel.toggle_storyboard_format("sb0");
    assert_eq!(sel.storyboard_format_ids, vec![s("sb1")]);
    sel.toggle_subtitle("en");
    sel.toggle_subtitle("en");
    assert!(sel.subtitle_ids.is_empty());
    sel.click_video_format("137");
    sel.click_audio_format("140");
    assert_eq!(sel.audio_video_format_ids(), vec![s("137"), s("140")]);
    sel.click_video_audio_format("18");
    assert_eq!(sel.audio_video_format_ids(), vec![s("18")]);
    sel.click_video_audio_format("18");
    assert!(sel.audio_video_format_ids().is_empty());
}

#[test]
fn file_size_prefers_exact() {
    assert_eq!(known_file_size(Some(10), Some(12)), Some(10));
    assert_eq!(known_file_size(None, Some(12)), Some(12));
    assert_eq!(known_file_size(None, None), None);
}

fn fmt(id: &str, video: bool, audio: bool) -> DownloadUrlInfoFormat {
    DownloadUrlInfoFormat {
        format: s(id),
        format_id: s(id),
        extension: None,
        video_codec: if video { Some(s("avc1")) } else { None },
        audio_codec: if audio { Some(s("opus")) } else { None },
        total_size: None,
        total_bitrate: None,
    }
}

#[test]
fn formats_listed_by_rank_keep_their_order() {
    let listed = sort_formats_by_rank(vec![
        fmt("storyboard", false, false),
        fmt("muxed-1", true, true),
        fmt("audio-1", false, true),
        fmt("video-1", true, false),
        fmt("audio-2", false, true),
        fmt("muxed-2", true, true),
        fmt("video-2", true, false),
    ]);
    let ids: Vec<&str> = listed.iter().map(|f| f.format_id.as_str()).collect();
    assert_eq!(
        ids,
        vec!["video-1", "video-2", "audio-1", "audio-2", "muxed-1", "muxed-2", "storyboard"]
    );
    assert!(sort_formats_by_rank(vec![]).is_empty());
}
