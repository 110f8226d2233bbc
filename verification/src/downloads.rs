use crate::formats::{
    after_audio_click, after_video_audio_click, after_video_click, opt_choice,
    with_audio_format, with_video_audio_format, with_video_format, AudioVideoFormatId,
    FormatChoice,
};
use vstd::multiset::Multiset;
use vstd::prelude::*;

verus! {

/// An instant in UTC: whole seconds since the Unix epoch and the nanoseconds
/// past that second.
#[derive(Clone, Copy, Debug, PartialEq, Eq, Structural)]
pub struct Timestamp {
    pub secs: i64,
    pub nanos: u32,
}

/// `a` lies strictly after `b`.
pub open spec fn later_than(a: Timestamp, b: Timestamp) -> bool {
    a.secs > b.secs || (a.secs == b.secs && a.nanos > b.nanos)
}

impl Timestamp {
    /// Whether this instant lies strictly after `other`.
    pub fn is_later_than(&self, other: &Timestamp) -> (r: bool)
        ensures
            r == later_than(*self, *other),
    {
        self.secs > other.secs || (self.secs == other.secs && self.nanos > other.nanos)
    }
}

/// Where a queued download stands.
#[derive(Clone, Copy, Debug, PartialEq, Eq, Structural)]
pub enum DownloadItemState {
    Pending,
    Downloading { progress: u8 },
    Error,
    Finished { date_finished: Timestamp },
}

/// A download in the queue, as it is stored.
#[derive(Debug, PartialEq, Eq)]
pub struct DownloadItem {
    pub id: String,
    pub url: String,
    pub title: String,
    pub description: Option<String>,
    pub uploader: Option<String>,
    pub duration: Option<i64>,
    pub item_date_added: Timestamp,
    pub item_state: DownloadItemState,
}

/// A copy of an optional string, equal to it.
pub fn clone_opt_string(o: &Option<String>) -> (r: Option<String>)
    ensures
        r == *o,
{
    match o {
        Some(s) => Some(s.clone()),
        None => None,
    }
}

impl Clone for DownloadItem {
    fn clone(&self) -> (r: Self)
        ensures
            r == *self,
    {
        DownloadItem {
            id: self.id.clone(),
            url: self.url.clone(),
            title: self.title.clone(),
            description: clone_opt_string(&self.description),
            uploader: clone_opt_string(&self.uploader),
            duration: self.duration,
            item_date_added: self.item_date_added,
            item_state: self.item_state,
        }
    }
}

impl DownloadItem {
    /// The key under which the item is stored: its id.
    pub fn unique_value(&self) -> (r: String)
        ensures
            r == self.id,
    {
        self.id.clone()
    }
}

/// One format that the site offers for a video, with its sizes already
/// written out for display.
#[derive(Debug, PartialEq, Eq)]
pub struct DownloadUrlInfoFormat {
    pub format: String,
    pub format_id: String,
    pub extension: Option<String>,
    pub video_codec: Option<String>,
    pub audio_codec: Option<String>,
    pub total_size: Option<String>,
    pub total_bitrate: Option<String>,
}

/// The size of a format's file: the exact size where the site gives it,
/// else its estimate.
pub fn known_file_size(filesize: Option<i64>, filesize_approx: Option<i64>) -> (r: Option<i64>)
    ensures
        r == if filesize is Some {
            filesize
        } else {
            filesize_approx
        },
{
    match filesize {
        Some(size) => Some(size),
        None => filesize_approx,
    }
}

/// What a format carries.
#[derive(Clone, Copy, Debug, PartialEq, Eq, Structural)]
pub enum FormatKind {
    AudioOnly,
    VideoOnly,
    VideoWithAudio,
    Other,
}

/// The kind of a format with the given codecs.
pub open spec fn kind_of(has_video: bool, has_audio: bool) -> FormatKind {
    if has_video && has_audio {
        FormatKind::VideoWithAudio
    } else if has_video {
        FormatKind::VideoOnly
    } else if has_audio {
        FormatKind::AudioOnly
    } else {
        FormatKind::Other
    }
}

/// The place of a kind when formats are listed: video-only first, then
/// audio-only, then combined ones, then the rest; a higher rank comes first.
pub open spec fn rank_of(kind: FormatKind) -> u8 {
    match kind {
        FormatKind::VideoOnly => 3,
        FormatKind::AudioOnly => 2,
        FormatKind::VideoWithAudio => 1,
        FormatKind::Other => 0,
    }
}

/// The kind of a format whose video and audio codecs are those given.
pub fn format_kind(video_codec: &Option<String>, audio_codec: &Option<String>) -> (r: FormatKind)
    ensures
        r == kind_of(video_codec is Some, audio_codec is Some),
{
    let has_video = video_codec.is_some();
    let has_audio = audio_codec.is_some();
    if has_video && has_audio {
        FormatKind::VideoWithAudio
    } else if has_video {
        FormatKind::VideoOnly
    } else if has_audio {
        FormatKind::AudioOnly
    } else {
        FormatKind::Other
    }
}

/// The listing rank of a kind (see `rank_of`).
pub fn format_rank(kind: FormatKind) -> (r: u8)
    ensures
        r == rank_of(kind),
{
    match kind {
        FormatKind::VideoOnly => 3,
        FormatKind::AudioOnly => 2,
        FormatKind::VideoWithAudio => 1,
        FormatKind::Other => 0,
    }
}

impl DownloadUrlInfoFormat {
    /// What this format carries, by which of its codecs are known.
    pub fn kind(&self) -> (r: FormatKind)
        ensures
            r == kind_of(self.video_codec is Some, self.audio_codec is Some),
    {
        format_kind(&self.video_codec, &self.audio_codec)
    }
}

/// The listing rank of a format (see `rank_of`).
pub open spec fn rank_of_format(f: DownloadUrlInfoFormat) -> u8 {
    rank_of(kind_of(f.video_codec is Some, f.audio_codec is Some))
}

/// The formats of rank `k`.
pub open spec fn has_rank(k: u8) -> spec_fn(DownloadUrlInfoFormat) -> bool {
    |f: DownloadUrlInfoFormat| rank_of_format(f) == k
}

/// The formats listed by rank, the highest first; formats of one rank keep
/// the order in which they came.
pub open spec fn ranked_formats(s: Seq<DownloadUrlInfoFormat>) -> Seq<DownloadUrlInfoFormat> {
    s.filter(has_rank(3)) + s.filter(has_rank(2)) + s.filter(has_rank(1)) + s.filter(has_rank(0))
}

/// The formats listed by rank: video-only ones first, then audio-only, then
/// combined ones, then the rest, each kind in the order in which it came.
pub fn sort_formats_by_rank(formats: Vec<DownloadUrlInfoFormat>) -> (r: Vec<DownloadUrlInfoFormat>)
    ensures
        r@ == ranked_formats(formats@),
{
    let ghost s = formats@;
    let n = formats.len();
    let mut rest = formats;
    let mut b3: Vec<DownloadUrlInfoFormat> = Vec::new();
    let mut b2: Vec<DownloadUrlInfoFormat> = Vec::new();
    let mut b1: Vec<DownloadUrlInfoFormat> = Vec::new();
    let mut b0: Vec<DownloadUrlInfoFormat> = Vec::new();
    let mut i: usize = 0;
    proof {
        reveal(Seq::filter);
        assert(s.take(0) =~= Seq::<DownloadUrlInfoFormat>::empty());
    }
    while rest.len() > 0
        invariant
            s.len() == n,
            i <= n,
            rest@ == s.skip(i as int),
            b3@ == s.take(i as int).filter(has_rank(3)),
            b2@ == s.take(i as int).filter(has_rank(2)),
            b1@ == s.take(i as int).filter(has_rank(1)),
            b0@ == s.take(i as int).filter(has_rank(0)),
        decreases rest.len(),
    {
        let ghost rest_before = rest@;
        let x = rest.remove(0);
        let k = format_rank(x.kind());
        proof {
            assert(x == s[i as int]);
            assert(rest@ =~= s.skip(i + 1));
            assert(s.take(i + 1).drop_last() =~= s.take(i as int));
            assert(s.take(i + 1).last() == x);
            reveal(Seq::filter);
        }
        if k == 3 {
            b3.push(x);
        } else if k == 2 {
            b2.push(x);
        } else if k == 1 {
            b1.push(x);
        } else {
            b0.push(x);
        }
        i += 1;
    }
    assert(s.take(i as int) =~= s);
    b3.append(&mut b2);
    b3.append(&mut b1);
    b3.append(&mut b0);
    b3
}

/// A subtitle track group of a video: a language with its file extensions,
/// or the live chat replay.
#[derive(Debug, PartialEq, Eq)]
#[allow(inconsistent_fields)]
pub enum DownloadUrlInfoSubtitle {
    Subtitle {
        id: String,
        language_code: String,
        language_name: String,
        extensions: Vec<String>,
        is_automatic: bool,
    },
    LiveChat { extensions: String },
}

/// The identifier by which a subtitle group is asked for.
pub open spec fn subtitle_id(s: DownloadUrlInfoSubtitle) -> Seq<char> {
    match s {
        DownloadUrlInfoSubtitle::Subtitle { id, .. } => id@,
        DownloadUrlInfoSubtitle::LiveChat { .. } => "live_chat"@,
    }
}

impl DownloadUrlInfoSubtitle {
    /// The identifier by which this group is asked for: its language key, or
    /// `live_chat` for the chat replay.
    pub fn id(&self) -> (r: &str)
        ensures
            r@ == subtitle_id(*self),
    {
        match self {
            DownloadUrlInfoSubtitle::Subtitle { id, .. } => id.as_str(),
            DownloadUrlInfoSubtitle::LiveChat { .. } => "live_chat",
        }
    }
}

/// What a user learns of a URL before downloading it.
#[derive(Debug, PartialEq, Eq)]
pub struct DownloadUrlInfo {
    pub id: String,
    pub url: String,
    pub title: String,
    pub description: Option<String>,
    pub uploader: Option<String>,
    pub duration: Option<i64>,
    pub thumbnail: Option<Vec<u8>>,
    pub formats: Vec<DownloadUrlInfoFormat>,
    pub subtitles: Vec<DownloadUrlInfoSubtitle>,
}

/// The identifiers held in a list of strings.
pub open spec fn id_views(v: Seq<String>) -> Seq<Seq<char>> {
    v.map_values(|s: String| s@)
}

/// The set after a click on `x`: `x` leaves the set if it was in it, and
/// joins it otherwise.
pub open spec fn toggled(s: Set<Seq<char>>, x: Seq<char>) -> Set<Seq<char>> {
    if s.contains(x) {
        s.remove(x)
    } else {
        s.insert(x)
    }
}

/// What the user has chosen to download from a URL.
#[derive(Debug, PartialEq, Eq)]
pub struct DownloadUrlSelection {
    pub audio_video_format_id: Option<AudioVideoFormatId>,
    pub storyboard_format_ids: Vec<String>,
    pub subtitle_ids: Vec<String>,
    pub thumbnail: bool,
}

/// Flips the membership of `id` in a list that holds each identifier once.
fn toggle_id(ids: &mut Vec<String>, id: &str)
    requires
        id_views(old(ids)@).no_duplicates(),
    ensures
        id_views(final(ids)@).no_duplicates(),
        id_views(final(ids)@).to_set() == toggled(id_views(old(ids)@).to_set(), id@),
{
    broadcast use vstd::seq_lib::group_seq_properties;

    let ghost s = id_views(ids@);
    let target: String = id.to_owned();
    let mut i: usize = 0;
    while i < ids.len()
        invariant
            0 <= i <= ids.len(),
            ids@ == old(ids)@,
            s == id_views(ids@),
            s.no_duplicates(),
            target@ == id@,
            forall|j: int| 0 <= j < i ==> s[j] != id@,
        decreases ids.len() - i,
    {
        if ids[i] == target {
            let ghost before = ids@;
            ids.remove(i);
            proof {
                let t = id_views(ids@);
                assert(t =~= s.remove(i as int));
                assert forall|y: Seq<char>| t.to_set().contains(y) <==> s.to_set().remove(id@).contains(y) by {
                    if t.to_set().contains(y) {
                        let k = choose|k: int| 0 <= k < t.len() && t[k] == y;
                        if k < i {
                            assert(s[k] == y);
                        } else {
                            assert(s[k + 1] == y);
                            assert(s[i as int] == id@);
                        }
                    }
                    if s.to_set().remove(id@).contains(y) {
                        let k = choose|k: int| 0 <= k < s.len() && s[k] == y;
                        assert(k != i);
                        if k < i {
                            assert(t[k] == y);
                        } else {
                            assert(t[k - 1] == y);
                        }
                    }
                }
                assert(t.to_set() =~= s.to_set().remove(id@));
                assert(s.to_set().contains(id@)) by {
                    assert(s[i as int] == id@);
                }
            }
            return;
        }
        i += 1;
    }
    ids.push(target);
    proof {
        let t = id_views(ids@);
        assert(t =~= s.push(id@));
        assert(!s.contains(id@));
        assert(t.to_set() =~= s.to_set().insert(id@)) by {
            assert forall|y: Seq<char>| t.to_set().contains(y) <==> s.to_set().insert(id@).contains(y) by {
                if t.to_set().contains(y) {
                    let k = choose|k: int| 0 <= k < t.len() && t[k] == y;
                    if k < s.len() {
                        assert(s[k] == y);
                    }
                }
                if s.to_set().contains(y) {
                    let k = choose|k: int| 0 <= k < s.len() && s[k] == y;
                    assert(t[k] == y);
                }
                if y == id@ {
                    assert(t[s.len() as int] == y);
                }
            }
        }
    }
}

/// What a selection holds.
pub struct SelectionView {
    pub formats: Option<FormatChoice>,
    pub storyboard_format_ids: Set<Seq<char>>,
    pub subtitle_ids: Set<Seq<char>>,
    pub thumbnail: bool,
}

impl View for DownloadUrlSelection {
    type V = SelectionView;

    open spec fn view(&self) -> SelectionView {
        SelectionView {
            formats: opt_choice(self.audio_video_format_id),
            storyboard_format_ids: id_views(self.storyboard_format_ids@).to_set(),
            subtitle_ids: id_views(self.subtitle_ids@).to_set(),
            thumbnail: self.thumbnail,
        }
    }
}

impl DownloadUrlSelection {
    /// Each identifier list holds every identifier at most once.
    pub open spec fn wf(&self) -> bool {
        &&& id_views(self.storyboard_format_ids@).no_duplicates()
        &&& id_views(self.subtitle_ids@).no_duplicates()
    }

    /// The empty selection: no format, no storyboard, no subtitle, no thumbnail.
    pub fn new() -> (r: Self)
        ensures
            r.wf(),
            r@.formats is None,
            r@.storyboard_format_ids == Set::<Seq<char>>::empty(),
            r@.subtitle_ids == Set::<Seq<char>>::empty(),
            !r@.thumbnail,
    {
        let r = DownloadUrlSelection {
            audio_video_format_id: None,
            storyboard_format_ids: Vec::new(),
            subtitle_ids: Vec::new(),
            thumbnail: false,
        };
        assert(id_views(r.storyboard_format_ids@).to_set() =~= Set::<Seq<char>>::empty());
        assert(id_views(r.subtitle_ids@).to_set() =~= Set::<Seq<char>>::empty());
        r
    }

    /// A click on the storyboard format `id`: it is deselected if it was
    /// selected, and selected otherwise; the rest stays.
    pub fn toggle_storyboard_format(&mut self, id: &str)
        requires
            old(self).wf(),
        ensures
            final(self).wf(),
            final(self)@ == (SelectionView {
                storyboard_format_ids: toggled(old(self)@.storyboard_format_ids, id@),
                ..old(self)@
            }),
    {
        toggle_id(&mut self.storyboard_format_ids, id);
    }

    /// A click on the subtitle group `id`: it is deselected if it was
    /// selected, and selected otherwise; the rest stays.
    pub fn toggle_subtitle(&mut self, id: &str)
        requires
            old(self).wf(),
        ensures
            final(self).wf(),
            final(self)@ == (SelectionView {
                subtitle_ids: toggled(old(self)@.subtitle_ids, id@),
                ..old(self)@
            }),
    {
        toggle_id(&mut self.subtitle_ids, id);
    }

    /// A click on the audio-only format `id` (see `after_audio_click`).
    pub fn click_audio_format(&mut self, id: &str)
        requires
            old(self).wf(),
        ensures
            final(self).wf(),
            final(self)@ == (SelectionView {
                formats: after_audio_click(old(self)@.formats, id@),
                ..old(self)@
            }),
    {
        with_audio_format(&mut self.audio_video_format_id, id);
    }

    /// A click on the video-only format `id` (see `after_video_click`).
    pub fn click_video_format(&mut self, id: &str)
        requires
            old(self).wf(),
        ensures
            final(self).wf(),
            final(self)@ == (SelectionView {
                formats: after_video_click(old(self)@.formats, id@),
                ..old(self)@
            }),
    {
        with_video_format(&mut self.audio_video_format_id, id);
    }

    /// A click on the combined format `id` (see `after_video_audio_click`).
    pub fn click_video_audio_format(&mut self, id: &str)
        requires
            old(self).wf(),
        ensures
            final(self).wf(),
            final(self)@ == (SelectionView {
                formats: after_video_audio_click(old(self)@.formats, id@),
                ..old(self)@
            }),
    {
        with_video_audio_format(&mut self.audio_video_format_id, id);
    }

    /// The format identifiers that the download asks for: those of the
    /// chosen formats, or none while no format is chosen.
    pub fn audio_video_format_ids(&self) -> (r: Vec<String>)
        ensures
            id_views(r@) == match self@.formats {
                Some(c) => crate::formats::choice_ids(c),
                None => Seq::<Seq<char>>::empty(),
            },
            r@.len() > 0 <==> self@.formats is Some,
    {
        proof {
            if let Some(c) = self@.formats {
                crate::formats::choice_ids_hold_the_choice(c);
            }
        }
        match &self.audio_video_format_id {
            Some(f) => f.as_ids(),
            None => {
                let r: Vec<String> = Vec::new();
                assert(id_views(r@) =~= Seq::<Seq<char>>::empty());
                r
            },
        }
    }
}

impl Default for DownloadUrlSelection {
    fn default() -> (r: Self)
        ensures
            r.wf(),
            r@.formats is None,
            r@.storyboard_format_ids == Set::<Seq<char>>::empty(),
            r@.subtitle_ids == Set::<Seq<char>>::empty(),
            !r@.thumbnail,
    {
        DownloadUrlSelection::new()
    }
}

/// Clicking the same storyboard format or subtitle twice leaves the set of
/// chosen identifiers as it was.
pub proof fn toggle_twice_restores(s: Set<Seq<char>>, x: Seq<char>)
    ensures
        toggled(toggled(s, x), x) == s,
        toggled(s, x).contains(x) == !s.contains(x),
{
    if s.contains(x) {
        assert(s.remove(x).insert(x) =~= s);
    } else {
        assert(s.insert(x).remove(x) =~= s);
    }
}

/// The four rank groups of `s` together hold each format as often as `s`.
proof fn lemma_rank_groups_cover(s: Seq<DownloadUrlInfoFormat>)
    ensures
        s.filter(has_rank(3)).to_multiset().add(s.filter(has_rank(2)).to_multiset()).add(
            s.filter(has_rank(1)).to_multiset(),
        ).add(s.filter(has_rank(0)).to_multiset()) == s.to_multiset(),
    decreases s.len(),
{
    broadcast use vstd::seq_lib::group_to_multiset_ensures;
    broadcast use vstd::multiset::group_multiset_axioms;

    if s.len() == 0 {
        reveal(Seq::filter);
        assert(s.to_multiset() =~= Multiset::empty());
        assert(s.filter(has_rank(3)).to_multiset() =~= Multiset::empty());
        assert(s.filter(has_rank(2)).to_multiset() =~= Multiset::empty());
        assert(s.filter(has_rank(1)).to_multiset() =~= Multiset::empty());
        assert(s.filter(has_rank(0)).to_multiset() =~= Multiset::empty());
    } else {
        let t = s.drop_last();
        let x = s.last();
        lemma_rank_groups_cover(t);
        assert(t.push(x) =~= s);
        t.lemma_filter_push(x, has_rank(3));
        t.lemma_filter_push(x, has_rank(2));
        t.lemma_filter_push(x, has_rank(1));
        t.lemma_filter_push(x, has_rank(0));
        vstd::seq_lib::to_multiset_build(t, x);
        vstd::seq_lib::to_multiset_build(t.filter(has_rank(3)), x);
        vstd::seq_lib::to_multiset_build(t.filter(has_rank(2)), x);
        vstd::seq_lib::to_multiset_build(t.filter(has_rank(1)), x);
        vstd::seq_lib::to_multiset_build(t.filter(has_rank(0)), x);
        let k = rank_of_format(x);
        assert(k == 3 || k == 2 || k == 1 || k == 0);
        assert(s.filter(has_rank(3)).to_multiset().add(s.filter(has_rank(2)).to_multiset()).add(
            s.filter(has_rank(1)).to_multiset(),
        ).add(s.filter(has_rank(0)).to_multiset()) =~= s.to_multiset());
    }
}

/// Listing formats by rank keeps every format, as often as it came, and
/// puts no format before one of a higher rank.
pub proof fn ranked_formats_sorted(s: Seq<DownloadUrlInfoFormat>)
    ensures
        ranked_formats(s).to_multiset() == s.to_multiset(),
        forall|i: int, j: int|
            0 <= i < j < ranked_formats(s).len() ==> rank_of_format(#[trigger] ranked_formats(s)[i])
                >= rank_of_format(#[trigger] ranked_formats(s)[j]),
{
    broadcast use vstd::seq_lib::group_filter_ensures;

    let a3 = s.filter(has_rank(3));
    let a2 = s.filter(has_rank(2));
    let a1 = s.filter(has_rank(1));
    let a0 = s.filter(has_rank(0));
    let r = ranked_formats(s);
    lemma_rank_groups_cover(s);
    vstd::seq_lib::lemma_multiset_commutative(a3, a2);
    vstd::seq_lib::lemma_multiset_commutative(a3 + a2, a1);
    vstd::seq_lib::lemma_multiset_commutative(a3 + a2 + a1, a0);
    let n3 = a3.len();
    let n2 = n3 + a2.len();
    let n1 = n2 + a1.len();
    assert forall|i: int| 0 <= i < r.len() implies rank_of_format(#[trigger] r[i]) == (if i < n3 {
        3int
    } else if i < n2 {
        2int
    } else if i < n1 {
        1int
    } else {
        0int
    }) by {
        if i < n3 {
            assert(r[i] == a3[i]);
            assert(has_rank(3)(a3[i]));
        } else if i < n2 {
            assert(r[i] == a2[i - n3]);
            assert(has_rank(2)(a2[i - n3]));
        } else if i < n1 {
            assert(r[i] == a1[i - n2]);
            assert(has_rank(1)(a1[i - n2]));
        } else {
            assert(r[i] == a0[i - n1]);
            assert(has_rank(0)(a0[i - n1]));
        }
    }
}

/// Formats listed by rank come video-only first, then audio-only, then
/// those with both, then those with neither: a video-only format is only
/// ever preceded by video-only ones, an audio-only format by formats with
/// exactly one of the two codecs, and a format with neither codec is only
/// ever followed by formats with neither.
pub proof fn ranked_formats_list_kinds_in_order(s: Seq<DownloadUrlInfoFormat>)
    ensures
        forall|i: int, j: int|
            0 <= i < j < ranked_formats(s).len() ==> {
                let a = #[trigger] ranked_formats(s)[i];
                let b = #[trigger] ranked_formats(s)[j];
                &&& (b.video_codec is Some && b.audio_codec is None) ==> (a.video_codec is Some
                    && a.audio_codec is None)
                &&& (b.video_codec is None && b.audio_codec is Some) ==> (a.video_codec is Some) != (a.audio_codec is Some)
                &&& (a.video_codec is None && a.audio_codec is None) ==> (b.video_codec is None
                    && b.audio_codec is None)
            },
{
    ranked_formats_sorted(s);
}

} // verus!
