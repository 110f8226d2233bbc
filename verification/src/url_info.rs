use crate::downloads::{DownloadUrlInfo, DownloadUrlInfoFormat, DownloadUrlInfoSubtitle};
use crate::subtitles::{collect_subtitles, shown_subtitles, AutomaticCaptionGroup, SubtitleGroup};
use vstd::prelude::*;

verus! {

/// What the site reports of a video, as far as the URL information reads it.
#[derive(Debug, PartialEq, Eq)]
pub struct FetchedVideo {
    pub id: String,
    pub webpage_url: Option<String>,
    pub title: String,
    pub description: Option<String>,
    pub uploader: Option<String>,
    pub channel: Option<String>,
    pub uploader_id: Option<String>,
    pub channel_id: Option<String>,
    pub duration: Option<i64>,
}

/// The name shown for whoever published a video: the uploader, else the
/// channel, else the uploader's id, else the channel's id.
pub open spec fn uploader_of(v: FetchedVideo) -> Option<String> {
    if v.uploader is Some {
        v.uploader
    } else if v.channel is Some {
        v.channel
    } else if v.uploader_id is Some {
        v.uploader_id
    } else {
        v.channel_id
    }
}

/// The first of the optional values that is present, in the order given.
fn first_present(
    a: Option<String>,
    b: Option<String>,
    c: Option<String>,
    d: Option<String>,
) -> (r: Option<String>)
    ensures
        r == if a is Some {
            a
        } else if b is Some {
            b
        } else if c is Some {
            c
        } else {
            d
        },
{
    if a.is_some() {
        a
    } else if b.is_some() {
        b
    } else if c.is_some() {
        c
    } else {
        d
    }
}

/// What a user learns of `download_url`: the video as the site reported
/// it, its page URL (or the URL asked for, where the site gave none), the
/// publisher by `uploader_of`, the thumbnail and formats as given, and the
/// subtitle groups by `shown_subtitles`.
pub fn build_url_info(
    download_url: String,
    video: FetchedVideo,
    thumbnail: Option<Vec<u8>>,
    formats: Vec<DownloadUrlInfoFormat>,
    subtitles: Vec<SubtitleGroup>,
    automatic_captions: Vec<AutomaticCaptionGroup>,
) -> (r: DownloadUrlInfo)
    ensures
        r.id == video.id,
        r.url == match video.webpage_url {
            Some(u) => u,
            None => download_url,
        },
        r.title == video.title,
        r.description == video.description,
        r.uploader == uploader_of(video),
        r.duration == video.duration,
        r.thumbnail == thumbnail,
        r.formats == formats,
        shown_subtitles(r.subtitles@, subtitles@, automatic_captions@),
{
    let FetchedVideo {
        id,
        webpage_url,
        title,
        description,
        uploader,
        channel,
        uploader_id,
        channel_id,
        duration,
    } = video;
    let uploader = first_present(uploader, channel, uploader_id, channel_id);
    let url = match webpage_url {
        Some(u) => u,
        None => download_url,
    };
    let subtitles: Vec<DownloadUrlInfoSubtitle> = collect_subtitles(subtitles, automatic_captions);
    DownloadUrlInfo { id, url, title, description, uploader, duration, thumbnail, formats, subtitles }
}

} // verus!
