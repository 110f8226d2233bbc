use crate::downloads::DownloadUrlInfoSubtitle;
use crate::text::{lemma_lex_le_total, lemma_lex_le_trans, lex_le, str_lex_le};
use vstd::multiset::Multiset;
use vstd::prelude::*;

verus! {

/// One subtitle file that a site offers for a language.
#[derive(Debug, PartialEq, Eq)]
pub struct SubtitleTrack {
    pub language_code: Option<String>,
    pub language_name: Option<String>,
    pub extension: String,
    pub is_automatic: bool,
}

impl SubtitleTrack {
    /// The track for an automatically generated caption under the language
    /// key `language_code`: the key becomes its language code, the caption's
    /// name its language name, and it is marked automatic.
    pub fn from_automatic_caption(extension: String, name: Option<String>, language_code: String) -> (r: Self)
        ensures
            r == (SubtitleTrack {
                language_code: Some(language_code),
                language_name: name,
                extension,
                is_automatic: true,
            }),
    {
        SubtitleTrack { language_code: Some(language_code), language_name: name, extension, is_automatic: true }
    }
}

/// The subtitle files that a site offers under one language key.
#[derive(Debug, PartialEq, Eq)]
pub struct SubtitleGroup {
    pub key: String,
    pub tracks: Vec<SubtitleTrack>,
}

/// The extensions of a list of tracks, in order.
pub open spec fn track_extensions(tracks: Seq<SubtitleTrack>) -> Seq<String> {
    tracks.map_values(|t: SubtitleTrack| t.extension)
}

/// `sub` is what the group `g` is shown as: nothing for a group without
/// files; the chat replay for the key `live_chat`, with the extension of its
/// first file; otherwise the language under the group's key, with the code
/// and name of its first file (the key and the empty name where these are
/// missing), the extensions of all its files, and whether the first file
/// was generated automatically.
#[verifier::opaque]
pub open spec fn built_from(sub: DownloadUrlInfoSubtitle, g: SubtitleGroup) -> bool {
    &&& g.tracks@.len() > 0
    &&& if g.key@ == "live_chat"@ {
        sub == DownloadUrlInfoSubtitle::LiveChat { extensions: g.tracks@[0].extension }
    } else {
        match sub {
            DownloadUrlInfoSubtitle::Subtitle {
                id,
                language_code,
                language_name,
                extensions,
                is_automatic,
            } => {
                &&& id == g.key
                &&& language_code == match g.tracks@[0].language_code {
                    Some(c) => c,
                    None => g.key,
                }
                &&& language_name@ == match g.tracks@[0].language_name {
                    Some(n) => n@,
                    None => Seq::<char>::empty(),
                }
                &&& extensions@ == track_extensions(g.tracks@)
                &&& is_automatic == g.tracks@[0].is_automatic
            },
            _ => false,
        }
    }
}

/// The subtitle group that `group` is shown as, or nothing for a group
/// without files (see `built_from`).
pub fn build_subtitle(group: SubtitleGroup) -> (r: Option<DownloadUrlInfoSubtitle>)
    ensures
        r is Some <==> group.tracks@.len() > 0,
        r matches Some(sub) ==> built_from(sub, group),
{
    reveal(built_from);
    if group.tracks.len() == 0 {
        return None;
    }
    let live_chat: String = "live_chat".to_owned();
    if group.key == live_chat {
        let ext = group.tracks[0].extension.clone();
        return Some(DownloadUrlInfoSubtitle::LiveChat { extensions: ext });
    }
    let mut extensions: Vec<String> = Vec::new();
    let mut i: usize = 0;
    while i < group.tracks.len()
        invariant
            0 <= i <= group.tracks@.len(),
            extensions@ == track_extensions(group.tracks@.take(i as int)),
        decreases group.tracks.len() - i,
    {
        extensions.push(group.tracks[i].extension.clone());
        assert(group.tracks@.take(i + 1) =~= group.tracks@.take(i as int).push(group.tracks@[i as int]));
        i += 1;
    }
    assert(group.tracks@.take(i as int) =~= group.tracks@);
    let first = &group.tracks[0];
    let language_code = match &first.language_code {
        Some(c) => c.clone(),
        None => group.key.clone(),
    };
    let language_name = match &first.language_name {
        Some(n) => n.clone(),
        None => String::new(),
    };
    let is_automatic = first.is_automatic;
    Some(
        DownloadUrlInfoSubtitle::Subtitle {
            id: group.key,
            language_code,
            language_name,
            extensions,
            is_automatic,
        },
    )
}

/// The language name by which a subtitle group is ordered.
pub open spec fn name_of(s: DownloadUrlInfoSubtitle) -> Seq<char> {
    match s {
        DownloadUrlInfoSubtitle::Subtitle { language_name, .. } => language_name@,
        DownloadUrlInfoSubtitle::LiveChat { .. } => Seq::<char>::empty(),
    }
}

/// The order in which subtitle groups are listed: the chat replay first,
/// then the languages by name.
pub open spec fn subtitle_le(a: DownloadUrlInfoSubtitle, b: DownloadUrlInfoSubtitle) -> bool {
    ||| a is LiveChat
    ||| (!(b is LiveChat) && lex_le(name_of(a), name_of(b)))
}

/// A list is in the order of `subtitle_le`.
pub open spec fn subtitles_sorted(s: Seq<DownloadUrlInfoSubtitle>) -> bool {
    forall|i: int, j: int| 0 <= i < j < s.len() ==> subtitle_le(#[trigger] s[i], #[trigger] s[j])
}

proof fn lemma_subtitle_le_total(a: DownloadUrlInfoSubtitle, b: DownloadUrlInfoSubtitle)
    ensures
        subtitle_le(a, b) || subtitle_le(b, a),
{
    lemma_lex_le_total(name_of(a), name_of(b));
}

proof fn lemma_subtitle_le_trans(
    a: DownloadUrlInfoSubtitle,
    b: DownloadUrlInfoSubtitle,
    c: DownloadUrlInfoSubtitle,
)
    requires
        subtitle_le(a, b),
        subtitle_le(b, c),
    ensures
        subtitle_le(a, c),
{
    if !(a is LiveChat) {
        lemma_lex_le_trans(name_of(a), name_of(b), name_of(c));
    }
}

fn subtitle_le_exec(a: &DownloadUrlInfoSubtitle, b: &DownloadUrlInfoSubtitle) -> (r: bool)
    ensures
        r == subtitle_le(*a, *b),
{
    match a {
        DownloadUrlInfoSubtitle::LiveChat { .. } => true,
        DownloadUrlInfoSubtitle::Subtitle { language_name: a_name, .. } => match b {
            DownloadUrlInfoSubtitle::LiveChat { .. } => false,
            DownloadUrlInfoSubtitle::Subtitle { language_name: b_name, .. } => str_lex_le(
                a_name.as_str(),
                b_name.as_str(),
            ),
        },
    }
}

/// `a` and `b` are listed at the same place: neither comes before the other.
pub open spec fn same_place(a: DownloadUrlInfoSubtitle, b: DownloadUrlInfoSubtitle) -> bool {
    subtitle_le(a, b) && subtitle_le(b, a)
}

/// The groups listed at the same place as `x`.
pub open spec fn tied_with(x: DownloadUrlInfoSubtitle) -> spec_fn(DownloadUrlInfoSubtitle) -> bool {
    |y: DownloadUrlInfoSubtitle| same_place(x, y)
}

/// Inserting `x` at `p` adds it at the end of the elements kept by `pred`,
/// where no element from `p` on is kept along with it.
proof fn lemma_filter_insert<A>(a: Seq<A>, p: int, x: A, pred: spec_fn(A) -> bool)
    requires
        0 <= p <= a.len(),
        pred(x) ==> forall|j: int| p <= j < a.len() ==> !pred(#[trigger] a[j]),
    ensures
        a.insert(p, x).filter(pred) == if pred(x) {
            a.filter(pred).push(x)
        } else {
            a.filter(pred)
        },
    decreases a.len(),
{
    reveal(Seq::filter);
    if p == a.len() {
        assert(a.insert(p, x) =~= a.push(x));
        assert(a.push(x).drop_last() =~= a);
    } else {
        let b = a.drop_last();
        assert forall|j: int| p <= j < b.len() && pred(x) implies !pred(#[trigger] b[j]) by {
            assert(b[j] == a[j]);
        }
        lemma_filter_insert(b, p, x, pred);
        assert(a.insert(p, x).drop_last() =~= b.insert(p, x));
        assert(a.insert(p, x).last() == a.last());
        if pred(x) {
            assert(!pred(a[a.len() - 1]));
        }
    }
}

/// The same subtitle groups, listed in the order of `subtitle_le`; groups
/// listed at the same place keep the order in which they came.
pub fn sort_subtitles(subs: Vec<DownloadUrlInfoSubtitle>) -> (r: Vec<DownloadUrlInfoSubtitle>)
    ensures
        r@.to_multiset() == subs@.to_multiset(),
        subtitles_sorted(r@),
        forall|y: DownloadUrlInfoSubtitle| #[trigger] r@.filter(tied_with(y)) == subs@.filter(tied_with(y)),
        forall|i: int, j: int| 0 <= i < j < r@.len() && (#[trigger] r@[j]) is LiveChat ==> (#[trigger] r@[i]) is LiveChat,
        forall|i: int, j: int|
            0 <= i < j < r@.len() ==> match (#[trigger] r@[i], #[trigger] r@[j]) {
                (
                    DownloadUrlInfoSubtitle::Subtitle { language_name: a, .. },
                    DownloadUrlInfoSubtitle::Subtitle { language_name: b, .. },
                ) => lex_le(a@, b@),
                _ => true,
            },
{
    broadcast use vstd::seq_lib::group_to_multiset_ensures;
    broadcast use vstd::multiset::group_multiset_axioms;

    let ghost s = subs@;
    let n = subs.len();
    let mut rest = subs;
    let mut out: Vec<DownloadUrlInfoSubtitle> = Vec::new();
    let mut i: usize = 0;
    proof {
        assert forall|y: DownloadUrlInfoSubtitle| #[trigger] out@.filter(tied_with(y)) == s.take(0).filter(tied_with(y)) by {
            reveal(Seq::filter);
            assert(s.take(0) =~= Seq::<DownloadUrlInfoSubtitle>::empty());
        }
    }
    while rest.len() > 0
        invariant
            s.len() == n,
            i <= n,
            rest@ == s.skip(i as int),
            out@.to_multiset().add(rest@.to_multiset()) == s.to_multiset(),
            subtitles_sorted(out@),
            forall|y: DownloadUrlInfoSubtitle| #[trigger] out@.filter(tied_with(y)) == s.take(i as int).filter(tied_with(y)),
        decreases rest.len(),
    {
        let ghost rest_before = rest@;
        let x = rest.remove(0);
        proof {
            vstd::seq_lib::to_multiset_remove(rest_before, 0);
            assert(rest@ == rest_before.remove(0));
            assert(rest_before.contains(x)) by {
                assert(rest_before[0] == x);
            }
            vstd::seq_lib::to_multiset_contains(rest_before, x);
            assert(rest_before.to_multiset().count(x) > 0);
            assert(rest@.to_multiset() == rest_before.to_multiset().remove(x));
            assert(rest@.to_multiset().insert(x) =~= rest_before.to_multiset());
            assert(x == s[i as int]);
            assert(rest@ =~= s.skip(i + 1));
        }
        let mut p: usize = 0;
        while p < out.len() && subtitle_le_exec(&out[p], &x)
            invariant
                0 <= p <= out.len(),
                subtitles_sorted(out@),
                out@.to_multiset().add(rest_before.to_multiset()) == s.to_multiset(),
                rest@.to_multiset().insert(x) == rest_before.to_multiset(),
                forall|k: int| 0 <= k < p ==> subtitle_le(#[trigger] out@[k], x),
            decreases out.len() - p,
        {
            p += 1;
        }
        let ghost before = out@;
        proof {
            if p < out.len() {
                lemma_subtitle_le_total(out@[p as int], x);
                assert forall|j: int| p <= j < before.len() implies subtitle_le(x, #[trigger] before[j]) by {
                    if j > p {
                        lemma_subtitle_le_trans(x, before[p as int], before[j]);
                    }
                }
                assert forall|j: int| p <= j < before.len() implies !same_place(x, #[trigger] before[j]) by {
                    if same_place(x, before[j]) && j > p {
                        lemma_subtitle_le_trans(before[p as int], before[j], x);
                    }
                }
            }
        }
        out.insert(p, x);
        proof {
            vstd::seq_lib::to_multiset_insert(before, p as int, x);
            assert forall|a: int, b: int| 0 <= a < b < out@.len() implies subtitle_le(
                #[trigger] out@[a],
                #[trigger] out@[b],
            ) by {
                if b < p {
                    assert(out@[a] == before[a] && out@[b] == before[b]);
                } else if b == p {
                    assert(out@[a] == before[a]);
                } else if a < p {
                    assert(out@[a] == before[a] && out@[b] == before[b - 1]);
                } else if a == p {
                    assert(out@[b] == before[b - 1]);
                } else {
                    assert(out@[a] == before[a - 1] && out@[b] == before[b - 1]);
                }
            }
            assert(out@.to_multiset().add(rest@.to_multiset()) =~= s.to_multiset());
            assert forall|y: DownloadUrlInfoSubtitle| #[trigger] out@.filter(tied_with(y)) == s.take(i + 1).filter(tied_with(y)) by {
                let pred = tied_with(y);
                if pred(x) {
                    assert forall|j: int| p <= j < before.len() implies !pred(#[trigger] before[j]) by {
                        if pred(before[j]) {
                            lemma_subtitle_le_trans(x, y, before[j]);
                            lemma_subtitle_le_trans(before[j], y, x);
                        }
                    }
                }
                lemma_filter_insert(before, p as int, x, pred);
                assert(s.take(i + 1).drop_last() =~= s.take(i as int));
                assert(s.take(i + 1).last() == x);
                assert(s.take(i + 1).filter(pred) == if pred(x) {
                    s.take(i as int).filter(pred).push(x)
                } else {
                    s.take(i as int).filter(pred)
                }) by {
                    reveal(Seq::filter);
                }
            }
        }
        i += 1;
    }
    proof {
        assert(rest@.to_multiset() =~= Multiset::empty());
        assert(out@.to_multiset().add(rest@.to_multiset()) =~= out@.to_multiset());
        assert(s.take(i as int) =~= s);
        sorted_subtitles_list_chat_then_names(out@);
    }
    out
}

/// A list of subtitle groups in order lists the chat replay before every
/// language, and any two languages by the order of their whole names.
pub proof fn sorted_subtitles_list_chat_then_names(s: Seq<DownloadUrlInfoSubtitle>)
    requires
        subtitles_sorted(s),
    ensures
        forall|i: int, j: int| 0 <= i < j < s.len() && (#[trigger] s[j]) is LiveChat ==> (#[trigger] s[i]) is LiveChat,
        forall|i: int, j: int|
            0 <= i < j < s.len() ==> match (#[trigger] s[i], #[trigger] s[j]) {
                (
                    DownloadUrlInfoSubtitle::Subtitle { language_name: a, .. },
                    DownloadUrlInfoSubtitle::Subtitle { language_name: b, .. },
                ) => lex_le(a@, b@),
                _ => true,
            },
{
    assert forall|i: int, j: int| 0 <= i < j < s.len() && (#[trigger] s[j]) is LiveChat implies (
    #[trigger] s[i]) is LiveChat by {
        assert(subtitle_le(s[i], s[j]));
    }
    assert forall|i: int, j: int| 0 <= i < j < s.len() implies match (#[trigger] s[i], #[trigger] s[j]) {
        (
            DownloadUrlInfoSubtitle::Subtitle { language_name: a, .. },
            DownloadUrlInfoSubtitle::Subtitle { language_name: b, .. },
        ) => lex_le(a@, b@),
        _ => true,
    } by {
        assert(subtitle_le(s[i], s[j]));
    }
}

/// An automatically generated caption file that a site offers.
#[derive(Debug, PartialEq, Eq)]
pub struct AutomaticCaption {
    pub extension: String,
    pub name: Option<String>,
}

/// The automatically generated caption files offered under one language key.
#[derive(Debug, PartialEq, Eq)]
pub struct AutomaticCaptionGroup {
    pub key: String,
    pub captions: Vec<AutomaticCaption>,
}

/// The extensions of a list of captions, in order.
pub open spec fn caption_extensions(captions: Seq<AutomaticCaption>) -> Seq<String> {
    captions.map_values(|c: AutomaticCaption| c.extension)
}

/// `sub` is what the caption group `g` is shown as: the chat replay for the
/// key `live_chat`, with the extension of its first caption; otherwise the
/// language under the key, with the key as its code, the name of the first
/// caption (or the empty name), the extensions of all its captions, marked
/// automatic.
#[verifier::opaque]
pub open spec fn built_from_captions(sub: DownloadUrlInfoSubtitle, g: AutomaticCaptionGroup) -> bool {
    &&& g.captions@.len() > 0
    &&& if g.key@ == "live_chat"@ {
        sub == DownloadUrlInfoSubtitle::LiveChat { extensions: g.captions@[0].extension }
    } else {
        match sub {
            DownloadUrlInfoSubtitle::Subtitle {
                id,
                language_code,
                language_name,
                extensions,
                is_automatic,
            } => {
                &&& id == g.key
                &&& language_code == g.key
                &&& language_name@ == match g.captions@[0].name {
                    Some(n) => n@,
                    None => Seq::<char>::empty(),
                }
                &&& extensions@ == caption_extensions(g.captions@)
                &&& is_automatic
            },
            _ => false,
        }
    }
}

/// The caption group as subtitle tracks, each made by
/// `SubtitleTrack::from_automatic_caption` under the group's key.
pub fn captions_as_subtitles(group: AutomaticCaptionGroup) -> (r: SubtitleGroup)
    ensures
        r.key == group.key,
        r.tracks@.len() == group.captions@.len(),
        forall|i: int|
            0 <= i < r.tracks@.len() ==> #[trigger] r.tracks@[i] == (SubtitleTrack {
                language_code: Some(group.key),
                language_name: group.captions@[i].name,
                extension: group.captions@[i].extension,
                is_automatic: true,
            }),
{
    let key = group.key;
    let mut captions = group.captions;
    let ghost all = captions@;
    let mut tracks: Vec<SubtitleTrack> = Vec::new();
    while captions.len() > 0
        invariant
            captions@ == all.skip(tracks@.len() as int),
            tracks@.len() <= all.len(),
            forall|i: int|
                0 <= i < tracks@.len() ==> #[trigger] tracks@[i] == (SubtitleTrack {
                    language_code: Some(key),
                    language_name: all[i].name,
                    extension: all[i].extension,
                    is_automatic: true,
                }),
        decreases captions.len(),
    {
        let c = captions.remove(0);
        assert(c == all[tracks@.len() as int]);
        tracks.push(SubtitleTrack::from_automatic_caption(c.extension, c.name, key.clone()));
        assert(captions@ =~= all.skip(tracks@.len() as int));
    }
    SubtitleGroup { key, tracks }
}

/// How many groups in a list offer at least one file.
pub open spec fn offered_count(gs: Seq<SubtitleGroup>) -> nat
    decreases gs.len(),
{
    if gs.len() == 0 {
        0
    } else {
        offered_count(gs.drop_last()) + if gs.last().tracks@.len() > 0 {
            1nat
        } else {
            0nat
        }
    }
}

/// How many caption groups in a list offer at least one caption.
pub open spec fn offered_caption_count(gs: Seq<AutomaticCaptionGroup>) -> nat
    decreases gs.len(),
{
    if gs.len() == 0 {
        0
    } else {
        offered_caption_count(gs.drop_last()) + if gs.last().captions@.len() > 0 {
            1nat
        } else {
            0nat
        }
    }
}

/// `r` lists, in order, what the groups with at least one file are shown
/// as: `idx` gives for each entry the position of its group, rising, and
/// every group with a file has an entry.
pub open spec fn written_index(r: Seq<DownloadUrlInfoSubtitle>, gs: Seq<SubtitleGroup>, idx: Seq<int>) -> bool {
    &&& idx.len() == r.len()
    &&& forall|k: int| 0 <= k < r.len() ==> 0 <= #[trigger] idx[k] < gs.len() && built_from(r[k], gs[idx[k]])
    &&& forall|k1: int, k2: int| 0 <= k1 < k2 < r.len() ==> #[trigger] idx[k1] < #[trigger] idx[k2]
    &&& forall|j: int| 0 <= j < gs.len() && #[trigger] gs[j].tracks@.len() > 0 ==> exists|k: int| 0 <= k < r.len() && idx[k] == j
}

/// `r` is the list shown for the written subtitle groups `gs`.
pub open spec fn lists_written(r: Seq<DownloadUrlInfoSubtitle>, gs: Seq<SubtitleGroup>) -> bool {
    exists|idx: Seq<int>| written_index(r, gs, idx)
}

/// `r` lists, in order, what the caption groups with at least one caption
/// are shown as (see `written_index`).
pub open spec fn caption_index(r: Seq<DownloadUrlInfoSubtitle>, cs: Seq<AutomaticCaptionGroup>, idx: Seq<int>) -> bool {
    &&& idx.len() == r.len()
    &&& forall|k: int| 0 <= k < r.len() ==> 0 <= #[trigger] idx[k] < cs.len() && built_from_captions(r[k], cs[idx[k]])
    &&& forall|k1: int, k2: int| 0 <= k1 < k2 < r.len() ==> #[trigger] idx[k1] < #[trigger] idx[k2]
    &&& forall|j: int| 0 <= j < cs.len() && #[trigger] cs[j].captions@.len() > 0 ==> exists|k: int| 0 <= k < r.len() && idx[k] == j
}

/// `r` is the list shown for the automatic caption groups `cs`.
pub open spec fn lists_captions(r: Seq<DownloadUrlInfoSubtitle>, cs: Seq<AutomaticCaptionGroup>) -> bool {
    exists|idx: Seq<int>| caption_index(r, cs, idx)
}

/// The groups shown for a list of written subtitle groups, in their order:
/// one for each group with at least one file.
fn build_written_subtitles(groups: Vec<SubtitleGroup>) -> (r: Vec<DownloadUrlInfoSubtitle>)
    ensures
        r@.len() == offered_count(groups@),
        lists_written(r@, groups@),
{
    let ghost gs = groups@;
    let mut built: Vec<DownloadUrlInfoSubtitle> = Vec::new();
    let ghost mut idx: Seq<int> = Seq::empty();
    let mut rest = groups;
    let n = rest.len();
    let mut i: usize = 0;
    while rest.len() > 0
        invariant
            gs.len() == n,
            i <= gs.len(),
            rest@ == gs.skip(i as int),
            built@.len() == offered_count(gs.take(i as int)),
            idx.len() == built@.len(),
            forall|k: int| 0 <= k < built@.len() ==> 0 <= #[trigger] idx[k] < i && built_from(built@[k], gs[idx[k]]),
            forall|k1: int, k2: int| 0 <= k1 < k2 < built@.len() ==> #[trigger] idx[k1] < #[trigger] idx[k2],
            forall|j: int| 0 <= j < i && #[trigger] gs[j].tracks@.len() > 0 ==> exists|k: int| 0 <= k < built@.len() && idx[k] == j,
        decreases rest.len(),
    {
        let g = rest.remove(0);
        assert(g == gs[i as int]);
        assert(gs.take(i + 1).drop_last() =~= gs.take(i as int));
        let ghost before = built@;
        let ghost idx_before = idx;
        match build_subtitle(g) {
            Some(sub) => {
                built.push(sub);
                proof {
                    idx = idx.push(i as int);
                }
            },
            None => {},
        }
        proof {
            assert forall|j: int| 0 <= j < i + 1 && #[trigger] gs[j].tracks@.len() > 0 implies exists|k: int|
                0 <= k < built@.len() && idx[k] == j by {
                if j < i {
                    let k = choose|k: int| 0 <= k < before.len() && idx_before[k] == j;
                    assert(idx[k] == j);
                } else {
                    assert(idx[before.len() as int] == j);
                }
            }
            assert forall|k: int| 0 <= k < built@.len() implies 0 <= #[trigger] idx[k] < i + 1 && built_from(built@[k], gs[idx[k]]) by {
                if k < before.len() {
                    assert(built@[k] == before[k] && idx[k] == idx_before[k]);
                }
            }
        }
        i += 1;
        assert(rest@ =~= gs.skip(i as int));
    }
    assert(gs.take(i as int) =~= gs);
    assert(written_index(built@, gs, idx));
    built
}

/// What the caption group `cg` is shown as, reached through its tracks.
proof fn lemma_captions_built(sub: DownloadUrlInfoSubtitle, g: SubtitleGroup, cg: AutomaticCaptionGroup)
    requires
        built_from(sub, g),
        g.key == cg.key,
        g.tracks@.len() == cg.captions@.len(),
        forall|i: int|
            0 <= i < g.tracks@.len() ==> #[trigger] g.tracks@[i] == (SubtitleTrack {
                language_code: Some(cg.key),
                language_name: cg.captions@[i].name,
                extension: cg.captions@[i].extension,
                is_automatic: true,
            }),
    ensures
        built_from_captions(sub, cg),
{
    reveal(built_from);
    reveal(built_from_captions);
    assert(g.tracks@[0] == g.tracks@[0]);
    assert(track_extensions(g.tracks@) =~= caption_extensions(cg.captions@));
}

/// The groups shown for a list of automatic caption groups, in their
/// order: one for each group with at least one caption.
fn build_caption_subtitles(groups: Vec<AutomaticCaptionGroup>) -> (r: Vec<DownloadUrlInfoSubtitle>)
    ensures
        r@.len() == offered_caption_count(groups@),
        lists_captions(r@, groups@),
{
    let ghost cs = groups@;
    let mut built: Vec<DownloadUrlInfoSubtitle> = Vec::new();
    let ghost mut idx: Seq<int> = Seq::empty();
    let mut rest = groups;
    let n = rest.len();
    let mut c: usize = 0;
    while rest.len() > 0
        invariant
            cs.len() == n,
            c <= cs.len(),
            rest@ == cs.skip(c as int),
            built@.len() == offered_caption_count(cs.take(c as int)),
            idx.len() == built@.len(),
            forall|k: int| 0 <= k < built@.len() ==> 0 <= #[trigger] idx[k] < c && built_from_captions(built@[k], cs[idx[k]]),
            forall|k1: int, k2: int| 0 <= k1 < k2 < built@.len() ==> #[trigger] idx[k1] < #[trigger] idx[k2],
            forall|j: int| 0 <= j < c && #[trigger] cs[j].captions@.len() > 0 ==> exists|k: int| 0 <= k < built@.len() && idx[k] == j,
        decreases rest.len(),
    {
        let cg = rest.remove(0);
        assert(cg == cs[c as int]);
        assert(cs.take(c + 1).drop_last() =~= cs.take(c as int));
        let g = captions_as_subtitles(cg);
        let ghost gv = g;
        let ghost before = built@;
        let ghost idx_before = idx;
        match build_subtitle(g) {
            Some(sub) => {
                proof {
                    lemma_captions_built(sub, gv, cs[c as int]);
                    idx = idx.push(c as int);
                }
                built.push(sub);
            },
            None => {},
        }
        proof {
            assert forall|j: int| 0 <= j < c + 1 && #[trigger] cs[j].captions@.len() > 0 implies exists|k: int|
                0 <= k < built@.len() && idx[k] == j by {
                if j < c {
                    let k = choose|k: int| 0 <= k < before.len() && idx_before[k] == j;
                    assert(idx[k] == j);
                } else {
                    assert(idx[before.len() as int] == j);
                }
            }
            assert forall|k: int| 0 <= k < built@.len() implies 0 <= #[trigger] idx[k] < c + 1 && built_from_captions(built@[k], cs[idx[k]]) by {
                if k < before.len() {
                    assert(built@[k] == before[k] && idx[k] == idx_before[k]);
                }
            }
        }
        c += 1;
        assert(rest@ =~= cs.skip(c as int));
    }
    assert(cs.take(c as int) =~= cs);
    assert(caption_index(built@, cs, idx));
    built
}

/// `r` is the list of subtitle groups shown for the written subtitles `gs`
/// and the automatic captions `cs`: what each group with at least one file
/// is shown as, the written subtitles in their order followed by the
/// automatic captions in theirs, then listed in the order of `subtitle_le`,
/// groups at the same place keeping that order.
pub open spec fn shown_subtitles(
    r: Seq<DownloadUrlInfoSubtitle>,
    gs: Seq<SubtitleGroup>,
    cs: Seq<AutomaticCaptionGroup>,
) -> bool {
    &&& subtitles_sorted(r)
    &&& r.len() == offered_count(gs) + offered_caption_count(cs)
    &&& exists|w: Seq<DownloadUrlInfoSubtitle>, a: Seq<DownloadUrlInfoSubtitle>| {
        &&& lists_written(w, gs)
        &&& lists_captions(a, cs)
        &&& r.to_multiset() == (w + a).to_multiset()
        &&& forall|y: DownloadUrlInfoSubtitle| #[trigger] r.filter(tied_with(y)) == (w + a).filter(tied_with(y))
    }
}

/// The subtitle groups that a URL offers (see `shown_subtitles`).
pub fn collect_subtitles(
    subtitles: Vec<SubtitleGroup>,
    automatic_captions: Vec<AutomaticCaptionGroup>,
) -> (r: Vec<DownloadUrlInfoSubtitle>)
    ensures
        shown_subtitles(r@, subtitles@, automatic_captions@),
{
    broadcast use vstd::seq_lib::group_to_multiset_ensures;

    let mut built = build_written_subtitles(subtitles);
    let mut from_captions = build_caption_subtitles(automatic_captions);
    let ghost w = built@;
    let ghost a = from_captions@;
    built.append(&mut from_captions);
    let ghost all = built@;
    assert(all =~= w + a);
    let r = sort_subtitles(built);
    proof {
        assert(r@.to_multiset().len() == all.to_multiset().len());
    }
    r
}

/// Every group with at least one file is shown, and everything shown comes
/// from one of the groups.
pub proof fn shown_subtitles_cover_groups(
    r: Seq<DownloadUrlInfoSubtitle>,
    gs: Seq<SubtitleGroup>,
    cs: Seq<AutomaticCaptionGroup>,
)
    requires
        shown_subtitles(r, gs, cs),
    ensures
        forall|j: int|
            0 <= j < gs.len() && gs[j].tracks@.len() > 0 ==> exists|i: int|
                0 <= i < r.len() && built_from(#[trigger] r[i], gs[j]),
        forall|j: int|
            0 <= j < cs.len() && cs[j].captions@.len() > 0 ==> exists|i: int|
                0 <= i < r.len() && built_from_captions(#[trigger] r[i], cs[j]),
        forall|i: int|
            #![trigger r[i]]
            0 <= i < r.len() ==> (exists|j: int| 0 <= j < gs.len() && built_from(r[i], #[trigger] gs[j]))
                || (exists|j: int| 0 <= j < cs.len() && built_from_captions(r[i], #[trigger] cs[j])),
{
    broadcast use vstd::seq_lib::group_to_multiset_ensures;

    let (w, a) = choose|w: Seq<DownloadUrlInfoSubtitle>, a: Seq<DownloadUrlInfoSubtitle>| {
        &&& lists_written(w, gs)
        &&& lists_captions(a, cs)
        &&& r.to_multiset() == (w + a).to_multiset()
        &&& forall|y: DownloadUrlInfoSubtitle| #[trigger] r.filter(tied_with(y)) == (w + a).filter(tied_with(y))
    };
    let wi = choose|idx: Seq<int>| written_index(w, gs, idx);
    let ai = choose|idx: Seq<int>| caption_index(a, cs, idx);
    let all = w + a;
    assert forall|j: int| 0 <= j < gs.len() && gs[j].tracks@.len() > 0 implies exists|i: int|
        0 <= i < r.len() && built_from(#[trigger] r[i], gs[j]) by {
        let k = choose|k: int| 0 <= k < w.len() && wi[k] == j;
        assert(all[k] == w[k]);
        assert(all.to_multiset().count(all[k]) > 0);
        assert(r.contains(all[k]));
    }
    assert forall|j: int| 0 <= j < cs.len() && cs[j].captions@.len() > 0 implies exists|i: int|
        0 <= i < r.len() && built_from_captions(#[trigger] r[i], cs[j]) by {
        let k = choose|k: int| 0 <= k < a.len() && ai[k] == j;
        assert(all[w.len() + k] == a[k]);
        assert(all.to_multiset().count(all[w.len() + k]) > 0);
        assert(r.contains(all[w.len() + k]));
    }
    assert forall|i: int| #![trigger r[i]] 0 <= i < r.len() implies (exists|j: int|
        0 <= j < gs.len() && built_from(r[i], #[trigger] gs[j])) || (exists|j: int|
        0 <= j < cs.len() && built_from_captions(r[i], #[trigger] cs[j])) by {
        assert(r.to_multiset().count(r[i]) > 0);
        assert(all.contains(r[i]));
        let m = choose|m: int| 0 <= m < all.len() && all[m] == r[i];
        if m < w.len() {
            assert(w[m] == all[m]);
            assert(built_from(w[m], gs[wi[m]]));
        } else {
            assert(a[m - w.len()] == all[m]);
            assert(built_from_captions(a[m - w.len()], cs[ai[m - w.len()]]));
        }
    }
}

} // verus!
