use sealed_dioxus_ui::downloads::{DownloadItem, DownloadItemState, DownloadUrlInfo, Timestamp};
use sealed_dioxus_ui::server::{
    finish_download, join_strings, plan_new_download, DownloadOutcome, DownloadStage, MainWSAction,
    MainWSClient, MainWSEvent, MainWSServer, MainWSSession,
};
use sealed_dioxus_ui::server_state::{can_match_titles, has_scorable_titles, is_scorable_query, MainStates};

fn s(x: &str) -> String {
    x.to_string()
}

fn item(id: &str, title: &str, secs: i64) -> DownloadItem {
    DownloadItem {
        id: s(id),
        url: s("https://example.org"),
        title: s(title),
        description: None,
        uploader: None,
        duration: None,
        item_date_added: Timestamp { secs, nanos: 0 },
        item_state: DownloadItemState::Pending,
    }
}

fn ids(items: &[DownloadItem]) -> Vec<&str> {
    items.iter().map(|i| i.id.as_str()).collect()
}

#[test]
fn empty_query_lists_newest_first() {
    let states = MainStates::initialize(vec![item("a", "Alpha", 10), item("b", "Beta", 30), item("c", "Gamma", 20)]);
    assert_eq!(states.filter_query, "");
    assert_eq!(ids(&states.filtered_download_items()), vec!["b", "c", "a"]);
}

#[test]
fn query_keeps_matching_titles_only() {
    let mut states = MainStates::initialize(vec![
        item("a", "Rust tutorial", 10),
        item("b", "Cooking pasta", 30),
        item("c", "rust in production", 20),
    ]);
    states.filter_query = s("rust");
    let listed = states.filtered_download_items();
    let mut got = ids(&listed);
    got.sort();
    assert_eq!(got, vec!["a", "c"]);
    states.filter_query = s("zzzz");
    assert!(states.filtered_download_items().is_empty());
    states.filter_query = s("   ");
    assert_eq!(states.filtered_download_items().len(), 3);
}

#[test]
fn equal_scores_fall_back_to_date() {
    let mut states = MainStates::initialize(vec![item("old", "Same title", 1), item("new", "Same title", 2)]);
    states.filter_query = s("same");
    assert_eq!(ids(&states.filtered_download_items()), vec!["new", "old"]);
    states.reload_download_items(vec![item("x", "Same title", 5)]);
    assert_eq!(states.filter_query, "same");
    assert_eq!(ids(&states.filtered_download_items()), vec!["x"]);
}

#[test]
fn joins() {
    assert_eq!(join_strings(&vec![], ","), "");
    assert_eq!(join_strings(&vec![s("a")], ","), "a");
    assert_eq!(join_strings(&vec![s("a"), s("b"), s("")], "+"), "a+b+");
}

fn info() -> DownloadUrlInfo {
    DownloadUrlInfo {
        id: s("vid"),
        url: s("https://v/x"),
        title: s("T"),
        description: Some(s("D")),
        uploader: Some(s("U")),
        duration: Some(3),
        thumbnail: None,
        formats: vec![],
        subtitles: vec![],
    }
}

#[test]
fn plan_with_everything() {
    let now = Timestamp { secs: 100, nanos: 5 };
    let plan = plan_new_download(
        info(),
        vec![s("137"), s("140")],
        vec![s("sb0")],
        vec![s("en"), s("live_chat")],
        true,
        s("/out/%(title)s.%(ext)s"),
        now,
    )
    .unwrap();
    assert_eq!(
        plan.args,
        vec![
            s("-f"),
            s("137+140,sb0"),
            s("--write-subs"),
            s("--write-auto-subs"),
            s("--sub-langs"),
            s("en,live_chat"),
            s("--write-thumbnail"),
            s("-o"),
            s("/out/%(title)s.%(ext)s"),
            s("https://v/x"),
        ]
    );
    assert_eq!(plan.item.id, "vid-https://v/x-137+140,sb0en,live_chat");
    assert_eq!(plan.item.title, "T");
    assert_eq!(plan.item.item_date_added, now);
    assert_eq!(plan.item.item_state, DownloadItemState::Pending);
}

#[test]
fn plan_without_formats_skips_download() {
    let plan = plan_new_download(info(), vec![], vec![], vec![], false, s("o"), Timestamp { secs: 0, nanos: 0 }).unwrap();
    assert_eq!(plan.args, vec![s("--skip-download"), s("-o"), s("o"), s("https://v/x")]);
    assert_eq!(plan.item.id, "vid-https://v/x-");
    let plan = plan_new_download(info(), vec![], vec![s("sb1"), s("")], vec![], false, s("o"), Timestamp { secs: 0, nanos: 0 }).unwrap();
    assert_eq!(plan.args, vec![s("--skip-download"), s("-f"), s("sb1"), s("-o"), s("o"), s("https://v/x")]);
}

#[test]
fn finishing_keeps_the_item() {
    let done = finish_download(item("a", "A", 1), DownloadOutcome::Succeeded { finished: Timestamp { secs: 9, nanos: 1 } });
    assert_eq!(done.item_state, DownloadItemState::Finished { date_finished: Timestamp { secs: 9, nanos: 1 } });
    assert_eq!(done.id, "a");
    let failed = finish_download(item("a", "A", 1), DownloadOutcome::Failed);
    assert_eq!(failed.item_state, DownloadItemState::Error);
    assert_eq!(failed.item_date_added, Timestamp { secs: 1, nanos: 0 });
}

#[test]
fn plan_without_any_option_runs_nothing() {
    let zero = Timestamp { secs: 0, nanos: 0 };
    assert_eq!(plan_new_download(info(), vec![s("")], vec![], vec![], false, s("o"), zero), None);
    assert_eq!(plan_new_download(info(), vec![s("")], vec![s("")], vec![s("")], false, s("o"), zero), None);
    assert!(plan_new_download(info(), vec![s("")], vec![], vec![], true, s("o"), zero).is_some());
}

fn new_download(av: Vec<String>) -> MainWSEvent {
    MainWSEvent::Received {
        message: MainWSClient::NewDownload {
            download_url_info: Box::new(info()),
            audio_video_format_ids: av,
            storyboard_format_ids: vec![],
            subtitle_ids: vec![],
            thumbnail: false,
        },
        output_template: s("o"),
        now: Timestamp { secs: 7, nanos: 0 },
    }
}

#[test]
fn session_runs_a_download_in_order() {
    let (mut session, first) = MainWSSession::open(vec![item("a", "Alpha", 1), item("b", "Beta", 2)]);
    match first {
        MainWSAction::Send(MainWSServer::DownloadItems(items)) => assert_eq!(ids(&items), vec!["a", "b"]),
        other => panic!("unexpected {other:?}"),
    }
    let actions = session.step(MainWSEvent::Received {
        message: MainWSClient::FetchDownloadItems { filter_query: s("") },
        output_template: s("o"),
        now: Timestamp { secs: 0, nanos: 0 },
    });
    match &actions[..] {
        [MainWSAction::Send(MainWSServer::DownloadItems(items))] => assert_eq!(ids(items), vec!["b", "a"]),
        other => panic!("unexpected {other:?}"),
    }

    let actions = session.step(new_download(vec![s("18")]));
    let inserted = match &actions[..] {
        [MainWSAction::Insert(item)] => item.clone(),
        other => panic!("unexpected {other:?}"),
    };
    assert_eq!(inserted.id, "vid-https://v/x-18");
    assert_eq!(inserted.item_state, DownloadItemState::Pending);
    assert!(session.step(new_download(vec![s("22")])).is_empty());

    let mut stored = vec![item("a", "Alpha", 1), item("b", "Beta", 2), inserted.clone()];
    let actions = session.step(MainWSEvent::Stored(stored.clone()));
    match &actions[..] {
        [MainWSAction::Send(MainWSServer::DownloadItems(items)), MainWSAction::Run(args)] => {
            assert_eq!(ids(items), vec!["vid-https://v/x-18", "b", "a"]);
            assert_eq!(args, &vec![s("-f"), s("18"), s("-o"), s("o"), s("https://v/x")]);
        }
        other => panic!("unexpected {other:?}"),
    }

    let finished = Timestamp { secs: 9, nanos: 0 };
    let actions = session.step(MainWSEvent::Ran(DownloadOutcome::Succeeded { finished }));
    let updated = match &actions[..] {
        [MainWSAction::Update(item)] => item.clone(),
        other => panic!("unexpected {other:?}"),
    };
    assert_eq!(updated.item_state, DownloadItemState::Finished { date_finished: finished });
    assert_eq!(updated.id, inserted.id);

    stored[2] = updated;
    let actions = session.step(MainWSEvent::Stored(stored));
    assert_eq!(actions.len(), 1);
    assert_eq!(session.stage, DownloadStage::Idle);
    assert_eq!(session.states.download_items.len(), 3);
}

#[test]
fn download_without_options_does_nothing() {
    let (mut session, _) = MainWSSession::open(vec![item("a", "Alpha", 1)]);
    assert!(session.step(new_download(vec![s("")])).is_empty());
    assert_eq!(session.stage, DownloadStage::Idle);
    assert_eq!(session.states.download_items.len(), 1);
    assert!(session.step(MainWSEvent::Ran(DownloadOutcome::Failed)).is_empty());
}

#[test]
fn scorable_queries() {
    assert!(is_scorable_query(""));
    assert!(is_scorable_query(&" ".repeat(200_000)));
    assert!(is_scorable_query(&"a".repeat(2048)));
    assert!(!is_scorable_query(&"a".repeat(2049)));
    assert!(is_scorable_query(&format!("{} {}", "a".repeat(2048), "b".repeat(2048))));
    assert!(is_scorable_query(&"a ".repeat(65_537)));
    assert!(!is_scorable_query(&"a ".repeat(65_538)));
    assert!(is_scorable_query(&"a  ".repeat(65_537)));
    // An escaped space does not end a word.
    assert!(is_scorable_query(&"ab\\ ".repeat(512)));
    assert!(!is_scorable_query(&"ab\\ ".repeat(513)));
    assert!(is_scorable_query(&"ab\\  ".repeat(1000)));
    assert!(is_scorable_query(&"abcdefghi ".repeat(20_000)));
}

#[test]
fn unique_value_is_id() {
    assert_eq!(item("k", "t", 0).unique_value(), "k");
}

#[test]
fn timestamps_order() {
    let a = Timestamp { secs: 1, nanos: 5 };
    assert!(a.is_later_than(&Timestamp { secs: 1, nanos: 4 }));
    assert!(!a.is_later_than(&a));
    assert!(Timestamp { secs: 2, nanos: 0 }.is_later_than(&a));
}

#[test]
fn longest_scorable_word_scores_long_titles() {
    let word = "a".repeat(2048);
    let states = MainStates {
        download_items: vec![
            item("same", &"a".repeat(2048), 1),
            item("longer", &"a".repeat(3000), 2),
            item("short", "aaa", 3),
        ],
        filter_query: format!("{word} {word}"),
    };
    let listed = states.filtered_download_items();
    let mut found = ids(&listed);
    found.sort();
    assert_eq!(found, vec!["longer", "same"]);
}

#[test]
fn ordinary_titles_can_be_matched() {
    let items = vec![item("a", "Alpha", 1), item("b", &"b".repeat(5000), 2)];
    assert!(has_scorable_titles(&items));
    assert!(has_scorable_titles(&vec![]));
    assert!(can_match_titles("alpha", &items));
    assert!(can_match_titles("   ", &items));
}
