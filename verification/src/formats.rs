use vstd::prelude::*;

verus! {

/// What a format choice holds, with the identifiers as character sequences.
pub enum FormatChoice {
    AudioOnly(Seq<char>),
    VideoOnly(Seq<char>),
    VideoAudio(Seq<char>),
    MixVideoAudio(Seq<char>, Seq<char>),
}

/// The formats that a user has chosen for one download: one audio-only
/// format, one video-only format, one format that carries both, or a
/// video-only format merged with an audio-only one (video first).
#[derive(Debug, PartialEq, Eq)]
pub enum AudioVideoFormatId {
    AudioOnly(String),
    VideoOnly(String),
    VideoAudio(String),
    MixVideoAudio(String, String),
}

impl View for AudioVideoFormatId {
    type V = FormatChoice;

    open spec fn view(&self) -> FormatChoice {
        match self {
            AudioVideoFormatId::AudioOnly(a) => FormatChoice::AudioOnly(a@),
            AudioVideoFormatId::VideoOnly(v) => FormatChoice::VideoOnly(v@),
            AudioVideoFormatId::VideoAudio(va) => FormatChoice::VideoAudio(va@),
            AudioVideoFormatId::MixVideoAudio(v, a) => FormatChoice::MixVideoAudio(v@, a@),
        }
    }
}

/// The audio-only part of a choice, where it has one.
pub open spec fn audio_part(c: FormatChoice) -> Option<Seq<char>> {
    match c {
        FormatChoice::AudioOnly(a) => Some(a),
        FormatChoice::MixVideoAudio(_, a) => Some(a),
        _ => None,
    }
}

/// The video-only part of a choice, where it has one.
pub open spec fn video_part(c: FormatChoice) -> Option<Seq<char>> {
    match c {
        FormatChoice::VideoOnly(v) => Some(v),
        FormatChoice::MixVideoAudio(v, _) => Some(v),
        _ => None,
    }
}

/// `c` covers `o`: an audio-only choice covers every choice with the same
/// audio part, a video-only choice every choice with the same video part, a
/// combined format only itself, and a merged pair itself and every choice
/// that shares its audio part or its video part.
pub open spec fn choice_contains(c: FormatChoice, o: FormatChoice) -> bool {
    match c {
        FormatChoice::AudioOnly(a) => audio_part(o) == Some(a),
        FormatChoice::VideoOnly(v) => video_part(o) == Some(v),
        FormatChoice::VideoAudio(va) => o == FormatChoice::VideoAudio(va),
        FormatChoice::MixVideoAudio(v, a) => {
            ||| o == FormatChoice::MixVideoAudio(v, a)
            ||| audio_part(o) == Some(a)
            ||| video_part(o) == Some(v)
        },
    }
}

/// A choice that may be absent, seen through its view.
pub open spec fn opt_choice(o: Option<AudioVideoFormatId>) -> Option<FormatChoice> {
    match o {
        Some(x) => Some(x@),
        None => None,
    }
}

/// An absent choice covers nothing.
pub open spec fn opt_choice_contains(s: Option<FormatChoice>, o: FormatChoice) -> bool {
    match s {
        Some(c) => choice_contains(c, o),
        None => false,
    }
}

/// The identifiers that a choice hands to the downloader, video before audio.
pub open spec fn choice_ids(c: FormatChoice) -> Seq<Seq<char>> {
    match c {
        FormatChoice::AudioOnly(a) => seq![a],
        FormatChoice::VideoOnly(v) => seq![v],
        FormatChoice::VideoAudio(va) => seq![va],
        FormatChoice::MixVideoAudio(v, a) => seq![v, a],
    }
}

/// The choice after the user clicks the audio-only format `a`.
pub open spec fn after_audio_click(s: Option<FormatChoice>, a: Seq<char>) -> Option<FormatChoice> {
    match s {
        Some(FormatChoice::AudioOnly(x)) => if x == a {
            None
        } else {
            Some(FormatChoice::AudioOnly(a))
        },
        Some(FormatChoice::MixVideoAudio(v, x)) => if x == a {
            Some(FormatChoice::VideoOnly(v))
        } else {
            Some(FormatChoice::MixVideoAudio(v, a))
        },
        Some(FormatChoice::VideoOnly(v)) => Some(FormatChoice::MixVideoAudio(v, a)),
        _ => Some(FormatChoice::AudioOnly(a)),
    }
}

/// The choice after the user clicks the video-only format `v`.
pub open spec fn after_video_click(s: Option<FormatChoice>, v: Seq<char>) -> Option<FormatChoice> {
    match s {
        Some(FormatChoice::VideoOnly(x)) => if x == v {
            None
        } else {
            Some(FormatChoice::VideoOnly(v))
        },
        Some(FormatChoice::MixVideoAudio(x, a)) => if x == v {
            Some(FormatChoice::AudioOnly(a))
        } else {
            Some(FormatChoice::MixVideoAudio(v, a))
        },
        Some(FormatChoice::AudioOnly(a)) => Some(FormatChoice::MixVideoAudio(v, a)),
        _ => Some(FormatChoice::VideoOnly(v)),
    }
}

/// The choice after the user clicks the combined format `va`.
pub open spec fn after_video_audio_click(s: Option<FormatChoice>, va: Seq<char>) -> Option<FormatChoice> {
    match s {
        Some(FormatChoice::VideoAudio(x)) => if x == va {
            None
        } else {
            Some(FormatChoice::VideoAudio(va))
        },
        _ => Some(FormatChoice::VideoAudio(va)),
    }
}

impl Clone for AudioVideoFormatId {
    fn clone(&self) -> (r: Self)
        ensures
            r == *self,
    {
        match self {
            AudioVideoFormatId::AudioOnly(a) => AudioVideoFormatId::AudioOnly(a.clone()),
            AudioVideoFormatId::VideoOnly(v) => AudioVideoFormatId::VideoOnly(v.clone()),
            AudioVideoFormatId::VideoAudio(va) => AudioVideoFormatId::VideoAudio(va.clone()),
            AudioVideoFormatId::MixVideoAudio(v, a) => AudioVideoFormatId::MixVideoAudio(
                v.clone(),
                a.clone(),
            ),
        }
    }
}

impl AudioVideoFormatId {
    /// Whether this choice covers `other` (see `choice_contains`).
    pub fn contains(&self, other: &Self) -> (r: bool)
        ensures
            r == choice_contains(self@, other@),
            r == choice_contains(other@, self@),
            r == (self@ == other@ || shares_a_part(self@, other@)),
    {
        proof {
            choice_contains_is_symmetric(self@, other@);
            choice_contains_means_equal_or_sharing(self@, other@);
        }
        match self {
            AudioVideoFormatId::AudioOnly(c_a) => match other {
                AudioVideoFormatId::AudioOnly(o_a) => *c_a == *o_a,
                AudioVideoFormatId::MixVideoAudio(_, o_a) => *c_a == *o_a,
                _ => false,
            },
            AudioVideoFormatId::VideoOnly(c_v) => match other {
                AudioVideoFormatId::VideoOnly(o_v) => *c_v == *o_v,
                AudioVideoFormatId::MixVideoAudio(o_v, _) => *c_v == *o_v,
                _ => false,
            },
            AudioVideoFormatId::VideoAudio(c_va) => match other {
                AudioVideoFormatId::VideoAudio(o_va) => *c_va == *o_va,
                _ => false,
            },
            AudioVideoFormatId::MixVideoAudio(c_v, c_a) => match other {
                AudioVideoFormatId::MixVideoAudio(o_v, o_a) => *c_v == *o_v || *c_a == *o_a,
                AudioVideoFormatId::AudioOnly(o_a) => *c_a == *o_a,
                AudioVideoFormatId::VideoOnly(o_v) => *c_v == *o_v,
                _ => false,
            },
        }
    }

    /// The format identifiers that this choice hands to the downloader.
    pub fn as_ids(&self) -> (r: Vec<String>)
        ensures
            r@.map_values(|s: String| s@) == choice_ids(self@),
            r@.len() > 0,
            video_part(self@) matches Some(v) ==> r@[0]@ == v,
            audio_part(self@) matches Some(a) ==> r@.last()@ == a,
            self@ matches FormatChoice::VideoAudio(va) ==> r@.len() == 1 && r@[0]@ == va,
    {
        proof {
            choice_ids_hold_the_choice(self@);
        }
        let mut r: Vec<String> = Vec::new();
        match self {
            AudioVideoFormatId::AudioOnly(id) => r.push(id.clone()),
            AudioVideoFormatId::VideoOnly(id) => r.push(id.clone()),
            AudioVideoFormatId::VideoAudio(id) => r.push(id.clone()),
            AudioVideoFormatId::MixVideoAudio(id_v, id_a) => {
                r.push(id_v.clone());
                r.push(id_a.clone());
            },
        }
        assert(r@.map_values(|s: String| s@) =~= choice_ids(self@));
        assert(r@.len() == choice_ids(self@).len());
        assert(r@[0]@ == choice_ids(self@)[0]);
        assert(r@.last()@ == choice_ids(self@).last());
        r
    }
}

/// Whether the (possibly absent) choice covers `other`; nothing is covered
/// while no choice has been made.
pub fn optional_audio_video_format_id_contains(
    option: &Option<AudioVideoFormatId>,
    other: &AudioVideoFormatId,
) -> (r: bool)
    ensures
        r == opt_choice_contains(opt_choice(*option), other@),
{
    match option {
        Some(s) => s.contains(other),
        None => false,
    }
}

/// Applies a click on the audio-only format `a_id` to the choice.
pub fn with_audio_format(state: &mut Option<AudioVideoFormatId>, a_id: &str)
    ensures
        opt_choice(*final(state)) == after_audio_click(opt_choice(*old(state)), a_id@),
{
    let a: String = a_id.to_owned();
    let next = match state.take() {
        Some(AudioVideoFormatId::AudioOnly(s_a)) => if s_a == a {
            None
        } else {
            Some(AudioVideoFormatId::AudioOnly(a))
        },
        Some(AudioVideoFormatId::MixVideoAudio(s_v, s_a)) => if s_a == a {
            Some(AudioVideoFormatId::VideoOnly(s_v))
        } else {
            Some(AudioVideoFormatId::MixVideoAudio(s_v, a))
        },
        Some(AudioVideoFormatId::VideoOnly(s_v)) => Some(AudioVideoFormatId::MixVideoAudio(s_v, a)),
        _ => Some(AudioVideoFormatId::AudioOnly(a)),
    };
    *state = next;
}

/// Applies a click on the video-only format `v_id` to the choice.
pub fn with_video_format(state: &mut Option<AudioVideoFormatId>, v_id: &str)
    ensures
        opt_choice(*final(state)) == after_video_click(opt_choice(*old(state)), v_id@),
{
    let v: String = v_id.to_owned();
    let next = match state.take() {
        Some(AudioVideoFormatId::VideoOnly(s_v)) => if s_v == v {
            None
        } else {
            Some(AudioVideoFormatId::VideoOnly(v))
        },
        Some(AudioVideoFormatId::MixVideoAudio(s_v, s_a)) => if s_v == v {
            Some(AudioVideoFormatId::AudioOnly(s_a))
        } else {
            Some(AudioVideoFormatId::MixVideoAudio(v, s_a))
        },
        Some(AudioVideoFormatId::AudioOnly(s_a)) => Some(AudioVideoFormatId::MixVideoAudio(v, s_a)),
        _ => Some(AudioVideoFormatId::VideoOnly(v)),
    };
    *state = next;
}

/// Applies a click on the combined format `va_id` to the choice.
pub fn with_video_audio_format(state: &mut Option<AudioVideoFormatId>, va_id: &str)
    ensures
        opt_choice(*final(state)) == after_video_audio_click(opt_choice(*old(state)), va_id@),
{
    let va: String = va_id.to_owned();
    let next = match state.take() {
        Some(AudioVideoFormatId::VideoAudio(s_va)) => if s_va == va {
            None
        } else {
            Some(AudioVideoFormatId::VideoAudio(va))
        },
        _ => Some(AudioVideoFormatId::VideoAudio(va)),
    };
    *state = next;
}


/// Clicking the audio-only format `a` flips whether the choice covers it:
/// the click selects `a` where it was not selected, and deselects it where
/// it was.
pub proof fn audio_click_flips_its_highlight(s: Option<FormatChoice>, a: Seq<char>)
    ensures
        opt_choice_contains(after_audio_click(s, a), FormatChoice::AudioOnly(a))
            == !opt_choice_contains(s, FormatChoice::AudioOnly(a)),
{
}

/// Clicking an audio-only format never changes the chosen video-only format.
pub proof fn audio_click_keeps_video_part(s: Option<FormatChoice>, a: Seq<char>)
    ensures
        match after_audio_click(s, a) {
            Some(c) => video_part(c) == match s {
                Some(d) => video_part(d),
                None => None,
            },
            None => s is Some && video_part(s->0) is None,
        },
{
}

/// Clicking the same audio-only format twice restores the choice, where
/// its audio part was absent or that very format and it held no combined
/// format.
pub proof fn audio_click_twice_restores(s: Option<FormatChoice>, a: Seq<char>)
    requires
        match s {
            Some(FormatChoice::VideoAudio(_)) => false,
            Some(c) => audio_part(c) is None || audio_part(c) == Some(a),
            None => true,
        },
    ensures
        after_audio_click(after_audio_click(s, a), a) == s,
{
}

/// Clicking the video-only format `v` flips whether the choice covers it.
pub proof fn video_click_flips_its_highlight(s: Option<FormatChoice>, v: Seq<char>)
    ensures
        opt_choice_contains(after_video_click(s, v), FormatChoice::VideoOnly(v))
            == !opt_choice_contains(s, FormatChoice::VideoOnly(v)),
{
}

/// Clicking a video-only format never changes the chosen audio-only format.
pub proof fn video_click_keeps_audio_part(s: Option<FormatChoice>, v: Seq<char>)
    ensures
        match after_video_click(s, v) {
            Some(c) => audio_part(c) == match s {
                Some(d) => audio_part(d),
                None => None,
            },
            None => s is Some && audio_part(s->0) is None,
        },
{
}

/// Clicking the same video-only format twice restores the choice, where
/// its video part was absent or that very format and it held no combined
/// format.
pub proof fn video_click_twice_restores(s: Option<FormatChoice>, v: Seq<char>)
    requires
        match s {
            Some(FormatChoice::VideoAudio(_)) => false,
            Some(c) => video_part(c) is None || video_part(c) == Some(v),
            None => true,
        },
    ensures
        after_video_click(after_video_click(s, v), v) == s,
{
}

/// Clicking the combined format `va` flips whether the choice covers it,
/// and leaves either nothing or that format alone chosen.
pub proof fn video_audio_click_flips_its_highlight(s: Option<FormatChoice>, va: Seq<char>)
    ensures
        opt_choice_contains(after_video_audio_click(s, va), FormatChoice::VideoAudio(va))
            == !opt_choice_contains(s, FormatChoice::VideoAudio(va)),
        after_video_audio_click(s, va) is None
            || after_video_audio_click(s, va) == Some(FormatChoice::VideoAudio(va)),
{
}

/// Clicking the same combined format twice restores a choice that was
/// empty or that format.
pub proof fn video_audio_click_twice_restores(s: Option<FormatChoice>, va: Seq<char>)
    requires
        s is None || s == Some(FormatChoice::VideoAudio(va)),
    ensures
        after_video_audio_click(after_video_audio_click(s, va), va) == s,
{
}

/// Every choice covers itself, so a chosen format is always shown as chosen.
pub proof fn choice_covers_itself(c: FormatChoice)
    ensures
        choice_contains(c, c),
{
}

/// The two choices share an audio-only or a video-only part.
pub open spec fn shares_a_part(c: FormatChoice, o: FormatChoice) -> bool {
    ||| (audio_part(c) is Some && audio_part(c) == audio_part(o))
    ||| (video_part(c) is Some && video_part(c) == video_part(o))
}

/// Covering goes both ways: a choice covers another exactly where the
/// other covers it, so a video-only choice covers every merged pair with
/// that video, and the pair covers it back.
pub proof fn choice_contains_is_symmetric(c: FormatChoice, o: FormatChoice)
    ensures
        choice_contains(c, o) == choice_contains(o, c),
{
}

/// A choice covers another exactly where the two are the same choice or
/// share an audio-only or a video-only part.
pub proof fn choice_contains_means_equal_or_sharing(c: FormatChoice, o: FormatChoice)
    ensures
        choice_contains(c, o) == (c == o || shares_a_part(c, o)),
{
}

/// A single audio-only or video-only choice and a merged pair that holds
/// its format cover each other.
pub proof fn single_formats_and_their_pairs_cover_each_other(v: Seq<char>, a: Seq<char>)
    ensures
        choice_contains(FormatChoice::VideoOnly(v), FormatChoice::MixVideoAudio(v, a)),
        choice_contains(FormatChoice::MixVideoAudio(v, a), FormatChoice::VideoOnly(v)),
        choice_contains(FormatChoice::AudioOnly(a), FormatChoice::MixVideoAudio(v, a)),
        choice_contains(FormatChoice::MixVideoAudio(v, a), FormatChoice::AudioOnly(a)),
{
}

/// The identifiers handed to the downloader are exactly those that the
/// choice holds: never none; the video-only part first and the audio-only
/// part last where the choice has them; a combined format alone; and one
/// identifier for each part.
pub proof fn choice_ids_hold_the_choice(c: FormatChoice)
    ensures
        choice_ids(c).len() > 0,
        choice_ids(c).len() == (if video_part(c) is Some { 1int } else { 0int }) + (if audio_part(c) is Some {
            1int
        } else {
            0int
        }) + (if c is VideoAudio { 1int } else { 0int }),
        video_part(c) matches Some(v) ==> choice_ids(c)[0] == v,
        audio_part(c) matches Some(a) ==> choice_ids(c).last() == a,
        c matches FormatChoice::VideoAudio(va) ==> choice_ids(c) == seq![va],
{
}

} // verus!
