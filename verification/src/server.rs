use crate::downloads::{id_views, DownloadItem, DownloadItemState, DownloadUrlInfo, Timestamp};
use crate::server_state::{
    blank_query, listing_sorted, scorable_query, scorable_titles, title_matches, word_tally,
    MainStates,
};
use vstd::prelude::*;
use vstd::string::StringExecFns;

verus! {

/// The parts of a list joined into one text, with `sep` between each two.
pub open spec fn seq_join(parts: Seq<Seq<char>>, sep: Seq<char>) -> Seq<char>
    decreases parts.len(),
{
    if parts.len() == 0 {
        Seq::empty()
    } else if parts.len() == 1 {
        parts[0]
    } else {
        seq_join(parts.drop_last(), sep) + sep + parts.last()
    }
}

/// The parts of a list that are not empty, in order.
pub open spec fn non_empty(parts: Seq<Seq<char>>) -> Seq<Seq<char>>
    decreases parts.len(),
{
    if parts.len() == 0 {
        parts
    } else if parts.last().len() > 0 {
        non_empty(parts.drop_last()).push(parts.last())
    } else {
        non_empty(parts.drop_last())
    }
}

/// The parts of `parts` joined with `sep` between each two.
pub fn join_strings(parts: &Vec<String>, sep: &str) -> (r: String)
    ensures
        r@ == seq_join(id_views(parts@), sep@),
{
    let ghost all = id_views(parts@);
    let mut r = String::new();
    let mut i: usize = 0;
    while i < parts.len()
        invariant
            0 <= i <= parts@.len(),
            all == id_views(parts@),
            r@ == seq_join(all.take(i as int), sep@),
        decreases parts.len() - i,
    {
        if i != 0 {
            r.append(sep);
        }
        r.append(parts[i].as_str());
        proof {
            assert(all.take(i + 1).drop_last() =~= all.take(i as int));
            assert(all.take(i + 1).last() == parts@[i as int]@);
            if i == 0 {
                assert(r@ =~= all.take(1)[0]);
            }
        }
        i += 1;
    }
    assert(all.take(i as int) =~= all);
    r
}

/// The parts of `parts` that are not empty, in order.
fn keep_non_empty(parts: Vec<String>) -> (r: Vec<String>)
    ensures
        id_views(r@) == non_empty(id_views(parts@)),
{
    let ghost all = id_views(parts@);
    let n = parts.len();
    let mut rest = parts;
    let mut r: Vec<String> = Vec::new();
    let mut i: usize = 0;
    while rest.len() > 0
        invariant
            all.len() == n,
            i <= n,
            rest@.len() + i == n,
            id_views(rest@) == all.skip(i as int),
            id_views(r@) == non_empty(all.take(i as int)),
        decreases rest.len(),
    {
        let ghost rest_before = rest@;
        let s = rest.remove(0);
        proof {
            assert(s@ == id_views(rest_before)[0]);
            assert(all.take(i + 1).drop_last() =~= all.take(i as int));
            assert(all.take(i + 1).last() == all[i as int]);
            assert forall|k: int| 0 <= k < rest@.len() implies #[trigger] id_views(rest@)[k] == all.skip(i + 1)[k] by {
                assert(rest@[k] == rest_before[k + 1]);
                assert(id_views(rest_before)[k + 1] == all.skip(i as int)[k + 1]);
            }
            assert(id_views(rest@) =~= all.skip(i + 1));
        }
        if !s.as_str().is_empty() {
            r.push(s);
            assert(id_views(r@) =~= non_empty(all.take(i as int)).push(all[i as int]));
        }
        i += 1;
    }
    assert(all.take(i as int) =~= all);
    r
}

/// The format selector handed to yt-dlp: the chosen audio/video formats
/// joined by `+`, followed by the storyboard formats, leaving out empty
/// parts, all joined by `,`.
pub open spec fn format_selector(av: Seq<Seq<char>>, storyboard: Seq<Seq<char>>) -> Seq<char> {
    seq_join(non_empty(seq![seq_join(av, "+"@)] + storyboard), ","@)
}

/// The options that yt-dlp runs with for a download: `--skip-download`
/// where no audio/video format is chosen; `-f` and the format selector where
/// it is not empty; the subtitle options with the chosen subtitle ids joined
/// by `,` where there are any; `--write-thumbnail` where the thumbnail is
/// wanted. A download runs only where there is at least one option.
pub open spec fn download_options(
    av: Seq<Seq<char>>,
    storyboard: Seq<Seq<char>>,
    subtitles: Seq<Seq<char>>,
    thumbnail: bool,
) -> Seq<Seq<char>> {
    let formats = format_selector(av, storyboard);
    let subs = seq_join(subtitles, ","@);
    (if av.len() == 0 {
        seq!["--skip-download"@]
    } else {
        Seq::empty()
    }) + (if formats.len() > 0 {
        seq!["-f"@, formats]
    } else {
        Seq::empty()
    }) + (if subs.len() > 0 {
        seq!["--write-subs"@, "--write-auto-subs"@, "--sub-langs"@, subs]
    } else {
        Seq::empty()
    }) + (if thumbnail {
        seq!["--write-thumbnail"@]
    } else {
        Seq::empty()
    })
}

/// The arguments that yt-dlp runs with for a download: its options (see
/// `download_options`), then `-o` with the output template, and the URL.
pub open spec fn download_args(
    av: Seq<Seq<char>>,
    storyboard: Seq<Seq<char>>,
    subtitles: Seq<Seq<char>>,
    thumbnail: bool,
    output_template: Seq<char>,
    url: Seq<char>,
) -> Seq<Seq<char>> {
    download_options(av, storyboard, subtitles, thumbnail) + seq!["-o"@, output_template, url]
}

/// A message from the page to the server.
#[derive(Debug, PartialEq, Eq)]
pub enum MainWSClient {
    FetchDownloadItems { filter_query: String },
    NewDownload {
        download_url_info: Box<DownloadUrlInfo>,
        audio_video_format_ids: Vec<String>,
        storyboard_format_ids: Vec<String>,
        subtitle_ids: Vec<String>,
        thumbnail: bool,
    },
}

/// A message from the server to the page.
#[derive(Debug, PartialEq, Eq)]
pub enum MainWSServer {
    DownloadItems(Vec<DownloadItem>),
}

/// How a download ended.
#[derive(Clone, Copy, Debug, PartialEq, Eq, Structural)]
pub enum DownloadOutcome {
    Succeeded { finished: Timestamp },
    Failed,
}

/// A download to run: yt-dlp's arguments, and the item that stands for it
/// in the queue while it runs.
#[derive(Debug, PartialEq, Eq)]
pub struct DownloadPlan {
    pub args: Vec<String>,
    pub item: DownloadItem,
}

/// What the server does next in a page's session.
#[derive(Debug, PartialEq, Eq)]
pub enum MainWSAction {
    /// Send this message to the page.
    Send(MainWSServer),
    /// Add this item to storage, then report what storage holds
    /// (`MainWSEvent::Stored`).
    Insert(DownloadItem),
    /// Run yt-dlp with these arguments, then report how it ended
    /// (`MainWSEvent::Ran`).
    Run(Vec<String>),
    /// Write this item over the stored item with its id, then report what
    /// storage holds (`MainWSEvent::Stored`).
    Update(DownloadItem),
}

/// What happens to a page's session.
#[derive(Debug, PartialEq, Eq)]
pub enum MainWSEvent {
    /// The page sent a message; a download it asks for writes its output to
    /// `output_template` and is added at `now`.
    Received { message: MainWSClient, output_template: String, now: Timestamp },
    /// Storage was written and now holds these items.
    Stored(Vec<DownloadItem>),
    /// yt-dlp ended so.
    Ran(DownloadOutcome),
}

/// Where the session's current download stands.
#[derive(Debug, PartialEq, Eq)]
pub enum DownloadStage {
    /// No download is under way: the session takes messages.
    Idle,
    /// The item of the plan is being added to storage.
    Inserting { plan: DownloadPlan },
    /// yt-dlp runs for this item.
    Running { item: DownloadItem },
    /// The finished item is being written to storage.
    Updating,
}

/// A page's session: the main view's state and the current download.
#[derive(Debug, PartialEq, Eq)]
pub struct MainWSSession {
    pub states: MainStates,
    pub stage: DownloadStage,
}

/// `items` is what the page is sent for `stored` under the query `q`.
pub open spec fn lists_filtered(items: Seq<DownloadItem>, stored: Seq<DownloadItem>, q: Seq<char>) -> bool {
    &&& items.to_multiset() == stored.filter(title_matches(q)).to_multiset()
    &&& listing_sorted(q, items)
}

/// A copy of a list of items, equal to it.
fn clone_items(v: &Vec<DownloadItem>) -> (r: Vec<DownloadItem>)
    ensures
        r@ == v@,
{
    let mut r: Vec<DownloadItem> = Vec::new();
    let mut i: usize = 0;
    while i < v.len()
        invariant
            0 <= i <= v@.len(),
            r@ == v@.take(i as int),
        decreases v.len() - i,
    {
        r.push(v[i].clone());
        assert(r@ =~= v@.take(i + 1));
        i += 1;
    }
    assert(v@.take(i as int) =~= v@);
    r
}

impl MainWSSession {
    /// The session's query can be scored.
    pub open spec fn wf(&self) -> bool {
        scorable_query(self.states.filter_query@)
    }

    /// A session opened on the items in storage, with an empty query and no
    /// download, together with its first action: sending the page every
    /// stored item, in storage's order.
    pub fn open(stored: Vec<DownloadItem>) -> (r: (Self, MainWSAction))
        ensures
            r.0.wf(),
            r.0.states.download_items == stored,
            r.0.states.filter_query@ == Seq::<char>::empty(),
            r.0.stage == DownloadStage::Idle,
            r.1 matches MainWSAction::Send(MainWSServer::DownloadItems(items)) && items@ == stored@,
    {
        let items = clone_items(&stored);
        let states = MainStates::initialize(stored);
        assert(word_tally(states.filter_query@) == (0nat, 0nat, 0nat));
        (MainWSSession { states, stage: DownloadStage::Idle }, MainWSAction::Send(MainWSServer::DownloadItems(items)))
    }

    /// The session's next step. While no download is under way: a new query
    /// is kept and answered with the items it lists (see
    /// `MainStates::filtered_download_items`); a new download with at least one
    /// option (see `plan_new_download`) has its item stored, and one with none
    /// does nothing. Once storage holds the new item, the page is sent the
    /// listed items and yt-dlp runs; once it has ended, the item is finished
    /// (see `finish_download`) and written; once that is stored, the page is
    /// sent the listed items again and the session takes messages. Any other
    /// event does nothing.
    pub fn step(&mut self, event: MainWSEvent) -> (r: Vec<MainWSAction>)
        requires
            old(self).wf(),
            event matches MainWSEvent::Received { message: MainWSClient::FetchDownloadItems { filter_query }, .. }
                ==> scorable_query(filter_query@) && (!blank_query(filter_query@) ==> scorable_titles(
                old(self).states.download_items@,
            )),
            event matches MainWSEvent::Stored(stored) ==> (!blank_query(old(self).states.filter_query@)
                ==> scorable_titles(stored@)),
        ensures
            final(self).wf(),
            match (old(self).stage, event) {
                (DownloadStage::Idle, MainWSEvent::Received { message, output_template, now }) => match message {
                    MainWSClient::FetchDownloadItems { filter_query } => {
                        &&& final(self).states.filter_query == filter_query
                        &&& final(self).states.download_items == old(self).states.download_items
                        &&& final(self).stage == DownloadStage::Idle
                        &&& r@.len() == 1
                        &&& r@[0] matches MainWSAction::Send(MainWSServer::DownloadItems(items))
                            && lists_filtered(items@, old(self).states.download_items@, filter_query@)
                    },
                    MainWSClient::NewDownload {
                        download_url_info,
                        audio_video_format_ids,
                        storyboard_format_ids,
                        subtitle_ids,
                        thumbnail,
                    } => {
                        &&& final(self).states == old(self).states
                        &&& if download_options(
                            id_views(audio_video_format_ids@),
                            id_views(storyboard_format_ids@),
                            id_views(subtitle_ids@),
                            thumbnail,
                        ).len() == 0 {
                            &&& final(self).stage == DownloadStage::Idle
                            &&& r@.len() == 0
                        } else {
                            &&& final(self).stage matches DownloadStage::Inserting { plan } && plans_download(
                                plan,
                                *download_url_info,
                                id_views(audio_video_format_ids@),
                                id_views(storyboard_format_ids@),
                                id_views(subtitle_ids@),
                                thumbnail,
                                output_template@,
                                now,
                            ) && r@ == seq![MainWSAction::Insert(plan.item)]
                        }
                    },
                },
                (DownloadStage::Inserting { plan }, MainWSEvent::Stored(stored)) => {
                    &&& final(self).states.download_items == stored
                    &&& final(self).states.filter_query == old(self).states.filter_query
                    &&& final(self).stage == (DownloadStage::Running { item: plan.item })
                    &&& r@.len() == 2
                    &&& r@[0] matches MainWSAction::Send(MainWSServer::DownloadItems(items))
                        && lists_filtered(items@, stored@, old(self).states.filter_query@)
                    &&& r@[1] == MainWSAction::Run(plan.args)
                },
                (DownloadStage::Running { item }, MainWSEvent::Ran(outcome)) => {
                    &&& final(self).states == old(self).states
                    &&& final(self).stage == DownloadStage::Updating
                    &&& r@ == seq![MainWSAction::Update(DownloadItem {
                        item_state: match outcome {
                            DownloadOutcome::Succeeded { finished } => DownloadItemState::Finished {
                                date_finished: finished,
                            },
                            DownloadOutcome::Failed => DownloadItemState::Error,
                        },
                        ..item
                    })]
                },
                (DownloadStage::Updating, MainWSEvent::Stored(stored)) => {
                    &&& final(self).states.download_items == stored
                    &&& final(self).states.filter_query == old(self).states.filter_query
                    &&& final(self).stage == DownloadStage::Idle
                    &&& r@.len() == 1
                    &&& r@[0] matches MainWSAction::Send(MainWSServer::DownloadItems(items))
                        && lists_filtered(items@, stored@, old(self).states.filter_query@)
                },
                _ => {
                    &&& *final(self) == *old(self)
                    &&& r@.len() == 0
                },
            },
    {
        let mut actions: Vec<MainWSAction> = Vec::new();
        let mut stage = DownloadStage::Idle;
        std::mem::swap(&mut stage, &mut self.stage);
        match (stage, event) {
            (DownloadStage::Idle, MainWSEvent::Received { message, output_template, now }) => match message {
                MainWSClient::FetchDownloadItems { filter_query } => {
                    self.states.filter_query = filter_query;
                    actions.push(
                        MainWSAction::Send(MainWSServer::DownloadItems(self.states.filtered_download_items())),
                    );
                },
                MainWSClient::NewDownload {
                    download_url_info,
                    audio_video_format_ids,
                    storyboard_format_ids,
                    subtitle_ids,
                    thumbnail,
                } => {
                    match plan_new_download(
                        *download_url_info,
                        audio_video_format_ids,
                        storyboard_format_ids,
                        subtitle_ids,
                        thumbnail,
                        output_template,
                        now,
                    ) {
                        Some(plan) => {
                            actions.push(MainWSAction::Insert(plan.item.clone()));
                            self.stage = DownloadStage::Inserting { plan };
                        },
                        None => {},
                    }
                },
            },
            (DownloadStage::Inserting { plan }, MainWSEvent::Stored(stored)) => {
                self.states.reload_download_items(stored);
                actions.push(
                    MainWSAction::Send(MainWSServer::DownloadItems(self.states.filtered_download_items())),
                );
                let DownloadPlan { args, item } = plan;
                actions.push(MainWSAction::Run(args));
                self.stage = DownloadStage::Running { item };
            },
            (DownloadStage::Running { item }, MainWSEvent::Ran(outcome)) => {
                actions.push(MainWSAction::Update(finish_download(item, outcome)));
                self.stage = DownloadStage::Updating;
            },
            (DownloadStage::Updating, MainWSEvent::Stored(stored)) => {
                self.states.reload_download_items(stored);
                actions.push(
                    MainWSAction::Send(MainWSServer::DownloadItems(self.states.filtered_download_items())),
                );
            },
            (stage, _) => {
                self.stage = stage;
            },
        }
        actions
    }
}

fn push_str(v: &mut Vec<String>, s: &str)
    ensures
        id_views(final(v)@) == id_views(old(v)@).push(s@),
{
    v.push(s.to_owned());
    assert(id_views(v@) =~= id_views(old(v)@).push(s@));
}

/// `plan` downloads the URL described by `info` with the chosen formats,
/// storyboards, subtitles and thumbnail: its arguments are those of
/// `download_args`, and its item is pending, added at `now`, carries the
/// video's URL, title, description, publisher and duration, and has as id
/// the video's id, the URL, and the format selector followed by the subtitle
/// ids, joined by `-`.
pub open spec fn plans_download(
    plan: DownloadPlan,
    info: DownloadUrlInfo,
    av: Seq<Seq<char>>,
    storyboard: Seq<Seq<char>>,
    subtitles: Seq<Seq<char>>,
    thumbnail: bool,
    output_template: Seq<char>,
    now: Timestamp,
) -> bool {
    &&& id_views(plan.args@) == download_args(av, storyboard, subtitles, thumbnail, output_template, info.url@)
    &&& plan.item.id@ == info.id@ + "-"@ + info.url@ + "-"@ + format_selector(av, storyboard) + seq_join(subtitles, ","@)
    &&& plan.item.url == info.url
    &&& plan.item.title == info.title
    &&& plan.item.description == info.description
    &&& plan.item.uploader == info.uploader
    &&& plan.item.duration == info.duration
    &&& plan.item.item_date_added == now
    &&& plan.item.item_state == DownloadItemState::Pending
}

/// The plan for downloading the URL described by `info` (see
/// `plans_download`), with yt-dlp's output going to `output_template`; none
/// where the choice gives yt-dlp no option at all.
pub fn plan_new_download(
    info: DownloadUrlInfo,
    audio_video_format_ids: Vec<String>,
    storyboard_format_ids: Vec<String>,
    subtitle_ids: Vec<String>,
    thumbnail: bool,
    output_template: String,
    now: Timestamp,
) -> (r: Option<DownloadPlan>)
    ensures
        r is Some <==> download_options(
            id_views(audio_video_format_ids@),
            id_views(storyboard_format_ids@),
            id_views(subtitle_ids@),
            thumbnail,
        ).len() > 0,
        r matches Some(plan) ==> plans_download(
            plan,
            info,
            id_views(audio_video_format_ids@),
            id_views(storyboard_format_ids@),
            id_views(subtitle_ids@),
            thumbnail,
            output_template@,
            now,
        ),
        (exists|i: int| 0 <= i < subtitle_ids@.len() && #[trigger] subtitle_ids@[i]@.len() > 0) ==> (r matches Some(
            plan,
        ) && exists|k: int|
            0 <= k && k + 1 < plan.args@.len() && #[trigger] plan.args@[k]@ == "--sub-langs"@
                && plan.args@[k + 1]@ == seq_join(id_views(subtitle_ids@), ","@)),
{
    let ghost av = id_views(audio_video_format_ids@);
    let ghost sb = id_views(storyboard_format_ids@);
    let ghost subs = id_views(subtitle_ids@);
    let mut args: Vec<String> = Vec::new();
    if audio_video_format_ids.len() == 0 {
        push_str(&mut args, "--skip-download");
    }
    let ghost a1 = id_views(args@);
    let mut selector_parts: Vec<String> = Vec::new();
    selector_parts.push(join_strings(&audio_video_format_ids, "+"));
    let mut storyboard = storyboard_format_ids;
    selector_parts.append(&mut storyboard);
    assert(id_views(selector_parts@) =~= seq![seq_join(av, "+"@)] + sb);
    let selector_parts = keep_non_empty(selector_parts);
    let format_ids = join_strings(&selector_parts, ",");
    if !format_ids.as_str().is_empty() {
        push_str(&mut args, "-f");
        push_str(&mut args, format_ids.as_str());
    }
    let ghost a2 = id_views(args@);
    let subtitle_ids_joined = join_strings(&subtitle_ids, ",");
    if !subtitle_ids_joined.as_str().is_empty() {
        push_str(&mut args, "--write-subs");
        push_str(&mut args, "--write-auto-subs");
        push_str(&mut args, "--sub-langs");
        push_str(&mut args, subtitle_ids_joined.as_str());
    }
    let ghost a3 = id_views(args@);
    if thumbnail {
        push_str(&mut args, "--write-thumbnail");
    }
    let ghost a4 = id_views(args@);
    proof {
        let f = format_selector(av, sb);
        let s = seq_join(subs, ","@);
        let p1: Seq<Seq<char>> = if av.len() == 0 { seq!["--skip-download"@] } else { Seq::empty() };
        let p2: Seq<Seq<char>> = if f.len() > 0 { seq!["-f"@, f] } else { Seq::empty() };
        let p3: Seq<Seq<char>> = if s.len() > 0 {
            seq!["--write-subs"@, "--write-auto-subs"@, "--sub-langs"@, s]
        } else {
            Seq::empty()
        };
        let p4: Seq<Seq<char>> = if thumbnail { seq!["--write-thumbnail"@] } else { Seq::empty() };
        assert(a1 =~= p1);
        assert(a2 =~= p1 + p2);
        assert(a3 =~= p1 + p2 + p3);
        assert(a4 =~= p1 + p2 + p3 + p4);
        assert(a4 =~= download_options(av, sb, subs, thumbnail));
    }
    proof {
        lemma_subtitle_options(subtitle_ids@, av, sb, thumbnail, output_template@, info.url@);
    }
    if args.len() == 0 {
        return None;
    }
    push_str(&mut args, "-o");
    push_str(&mut args, output_template.as_str());
    push_str(&mut args, info.url.as_str());
    assert(id_views(args@) =~= a4 + seq!["-o"@, output_template@, info.url@]);
    proof {
        lemma_subtitle_args(args@, subtitle_ids@, av, sb, thumbnail, output_template@, info.url@);
    }
    let DownloadUrlInfo { id, url, title, description, uploader, duration, .. } = info;
    let mut item_id = id;
    item_id.append("-");
    item_id.append(url.as_str());
    item_id.append("-");
    item_id.append(format_ids.as_str());
    item_id.append(subtitle_ids_joined.as_str());
    let item = DownloadItem {
        id: item_id,
        url,
        title,
        description,
        uploader,
        duration,
        item_date_added: now,
        item_state: DownloadItemState::Pending,
    };
    Some(DownloadPlan { args, item })
}

/// The item once its download has ended: finished at the given time, or
/// failed; everything else stays.
pub fn finish_download(item: DownloadItem, outcome: DownloadOutcome) -> (r: DownloadItem)
    ensures
        r == (DownloadItem {
            item_state: match outcome {
                DownloadOutcome::Succeeded { finished } => DownloadItemState::Finished {
                    date_finished: finished,
                },
                DownloadOutcome::Failed => DownloadItemState::Error,
            },
            ..item
        }),
{
    let mut item = item;
    item.item_state =
        match outcome {
            DownloadOutcome::Succeeded { finished } => DownloadItemState::Finished {
                date_finished: finished,
            },
            DownloadOutcome::Failed => DownloadItemState::Error,
        };
    item
}

/// A download always names its output and its URL last, and skips the
/// media download exactly where no audio/video format was chosen.
pub proof fn download_args_shape(
    av: Seq<Seq<char>>,
    storyboard: Seq<Seq<char>>,
    subtitles: Seq<Seq<char>>,
    thumbnail: bool,
    output_template: Seq<char>,
    url: Seq<char>,
)
    ensures
        ({
            let a = download_args(av, storyboard, subtitles, thumbnail, output_template, url);
            &&& a.len() >= 3
            &&& a[a.len() - 3] == "-o"@
            &&& a[a.len() - 2] == output_template
            &&& a[a.len() - 1] == url
            &&& (a[0] == "--skip-download"@ <==> av.len() == 0)
        }),
{
    let a = download_args(av, storyboard, subtitles, thumbnail, output_template, url);
    reveal_strlit("-o");
    reveal_strlit("-f");
    reveal_strlit("--skip-download");
    reveal_strlit("--write-subs");
    reveal_strlit("--write-thumbnail");
    let f = format_selector(av, storyboard);
    let s = seq_join(subtitles, ","@);
    if av.len() != 0 {
        if f.len() > 0 {
            assert(a[0] == "-f"@);
            assert("-f"@.len() != "--skip-download"@.len());
        } else if s.len() > 0 {
            assert(a[0] == "--write-subs"@);
            assert("--write-subs"@[2] != "--skip-download"@[2]);
        } else if thumbnail {
            assert(a[0] == "--write-thumbnail"@);
            assert("--write-thumbnail"@[2] != "--skip-download"@[2]);
        } else {
            assert(a[0] == "-o"@);
            assert("-o"@.len() != "--skip-download"@.len());
        }
    }
}

/// A part that is not empty makes the joined text at least as long as it.
proof fn lemma_join_holds_part(parts: Seq<Seq<char>>, sep: Seq<char>, i: int)
    requires
        0 <= i < parts.len(),
    ensures
        seq_join(parts, sep).len() >= parts[i].len(),
    decreases parts.len(),
{
    if parts.len() > 1 && i < parts.len() - 1 {
        lemma_join_holds_part(parts.drop_last(), sep, i);
    }
}

/// A chosen subtitle id that is not empty gives a download options.
proof fn lemma_subtitle_options(
    subtitle_ids: Seq<String>,
    av: Seq<Seq<char>>,
    storyboard: Seq<Seq<char>>,
    thumbnail: bool,
    output_template: Seq<char>,
    url: Seq<char>,
)
    ensures
        (exists|i: int| 0 <= i < subtitle_ids.len() && #[trigger] subtitle_ids[i]@.len() > 0)
            ==> download_options(av, storyboard, id_views(subtitle_ids), thumbnail).len() > 0,
{
    if exists|i: int| 0 <= i < subtitle_ids.len() && #[trigger] subtitle_ids[i]@.len() > 0 {
        let i = choose|i: int| 0 <= i < subtitle_ids.len() && #[trigger] subtitle_ids[i]@.len() > 0;
        assert(id_views(subtitle_ids)[i] == subtitle_ids[i]@);
        chosen_subtitles_are_requested(av, storyboard, id_views(subtitle_ids), thumbnail, output_template, url, i);
    }
}

/// Arguments built for a choice with a subtitle id that is not empty hold
/// `--sub-langs` followed by the joined ids.
proof fn lemma_subtitle_args(
    args: Seq<String>,
    subtitle_ids: Seq<String>,
    av: Seq<Seq<char>>,
    storyboard: Seq<Seq<char>>,
    thumbnail: bool,
    output_template: Seq<char>,
    url: Seq<char>,
)
    requires
        id_views(args) == download_args(av, storyboard, id_views(subtitle_ids), thumbnail, output_template, url),
    ensures
        (exists|i: int| 0 <= i < subtitle_ids.len() && #[trigger] subtitle_ids[i]@.len() > 0) ==> exists|k: int|
            0 <= k && k + 1 < args.len() && #[trigger] args[k]@ == "--sub-langs"@ && args[k + 1]@ == seq_join(
                id_views(subtitle_ids),
                ","@,
            ),
{
    if exists|i: int| 0 <= i < subtitle_ids.len() && #[trigger] subtitle_ids[i]@.len() > 0 {
        let subs = id_views(subtitle_ids);
        let i = choose|i: int| 0 <= i < subtitle_ids.len() && #[trigger] subtitle_ids[i]@.len() > 0;
        assert(subs[i] == subtitle_ids[i]@);
        chosen_subtitles_are_requested(av, storyboard, subs, thumbnail, output_template, url, i);
        let a = id_views(args);
        let k = choose|k: int|
            0 <= k && k + 3 < a.len() && a[k] == "--write-subs"@ && a[k + 1] == "--write-auto-subs"@
                && #[trigger] a[k + 2] == "--sub-langs"@ && a[k + 3] == seq_join(subs, ","@);
        assert(args[k + 2]@ == a[k + 2] && args[k + 3]@ == a[k + 3]);
    }
}

/// Whenever a subtitle id that is not empty is chosen, yt-dlp is asked for
/// the subtitles, whatever formats were chosen: the arguments hold
/// `--write-subs`, `--write-auto-subs` and `--sub-langs` followed by the
/// chosen ids joined by `,`, and the choice gives a download to run.
pub proof fn chosen_subtitles_are_requested(
    av: Seq<Seq<char>>,
    storyboard: Seq<Seq<char>>,
    subtitles: Seq<Seq<char>>,
    thumbnail: bool,
    output_template: Seq<char>,
    url: Seq<char>,
    i: int,
)
    requires
        0 <= i < subtitles.len(),
        subtitles[i].len() > 0,
    ensures
        download_options(av, storyboard, subtitles, thumbnail).len() > 0,
        ({
            let a = download_args(av, storyboard, subtitles, thumbnail, output_template, url);
            exists|k: int|
                0 <= k && k + 3 < a.len() && a[k] == "--write-subs"@ && a[k + 1] == "--write-auto-subs"@
                    && #[trigger] a[k + 2] == "--sub-langs"@ && a[k + 3] == seq_join(subtitles, ","@)
        }),
{
    lemma_join_holds_part(subtitles, ","@, i);
    let f = format_selector(av, storyboard);
    let s = seq_join(subtitles, ","@);
    let p1: Seq<Seq<char>> = if av.len() == 0 { seq!["--skip-download"@] } else { Seq::empty() };
    let p2: Seq<Seq<char>> = if f.len() > 0 { seq!["-f"@, f] } else { Seq::empty() };
    let p3: Seq<Seq<char>> = seq!["--write-subs"@, "--write-auto-subs"@, "--sub-langs"@, s];
    let p4: Seq<Seq<char>> = if thumbnail { seq!["--write-thumbnail"@] } else { Seq::empty() };
    let a = download_args(av, storyboard, subtitles, thumbnail, output_template, url);
    assert(download_options(av, storyboard, subtitles, thumbnail) =~= p1 + p2 + p3 + p4);
    let k: int = (p1.len() + p2.len()) as int;
    assert(a =~= p1 + p2 + p3 + (p4 + seq!["-o"@, output_template, url]));
    assert(a[k] == p3[0] && a[k + 1] == p3[1] && a[k + 2] == p3[2] && a[k + 3] == p3[3]);
}

/// Whenever the chosen formats give a format selector (see
/// `format_selector`), yt-dlp is handed it after `-f`; and the thumbnail,
/// where it is wanted, is asked for with `--write-thumbnail`.
pub proof fn chosen_formats_are_requested(
    av: Seq<Seq<char>>,
    storyboard: Seq<Seq<char>>,
    subtitles: Seq<Seq<char>>,
    thumbnail: bool,
    output_template: Seq<char>,
    url: Seq<char>,
)
    ensures
        ({
            let a = download_args(av, storyboard, subtitles, thumbnail, output_template, url);
            &&& format_selector(av, storyboard).len() > 0 ==> exists|k: int|
                0 <= k && k + 1 < a.len() && #[trigger] a[k] == "-f"@ && a[k + 1] == format_selector(av, storyboard)
            &&& thumbnail ==> a.contains("--write-thumbnail"@)
        }),
{
    let f = format_selector(av, storyboard);
    let s = seq_join(subtitles, ","@);
    let p1: Seq<Seq<char>> = if av.len() == 0 { seq!["--skip-download"@] } else { Seq::empty() };
    let p2: Seq<Seq<char>> = if f.len() > 0 { seq!["-f"@, f] } else { Seq::empty() };
    let p3: Seq<Seq<char>> = if s.len() > 0 {
        seq!["--write-subs"@, "--write-auto-subs"@, "--sub-langs"@, s]
    } else {
        Seq::empty()
    };
    let p4: Seq<Seq<char>> = if thumbnail { seq!["--write-thumbnail"@] } else { Seq::empty() };
    let a = download_args(av, storyboard, subtitles, thumbnail, output_template, url);
    assert(a =~= p1 + p2 + p3 + p4 + seq!["-o"@, output_template, url]);
    if f.len() > 0 {
        let k: int = p1.len() as int;
        assert(a[k] == p2[0] && a[k + 1] == p2[1]);
    }
    if thumbnail {
        let k: int = (p1.len() + p2.len() + p3.len()) as int;
        assert(a[k] == "--write-thumbnail"@);
    }
}

} // verus!
