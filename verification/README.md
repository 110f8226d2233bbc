# sealed_dioxus_ui

The logic of a desktop front end for yt-dlp, as a Verus-verified library,
with the user interface and the server plumbing around it in `app/`.

`src/` holds, each with its contract:

- `formats`: the audio/video format choice that a user builds by clicking,
  and which choices cover which formats;
- `downloads`: queued download items, URL information, the user's selection,
  and the order in which a URL's formats are listed;
- `subtitles`: how subtitle and automatic-caption groups are shown and ordered;
- `url_info`: what a user learns of a URL before downloading it;
- `server_state`: the queue as the page lists it, filtered by a fuzzy query;
- `server`: a page's session as a state machine: what the server does with
  each page message and each step of a download, including the arguments
  that yt-dlp runs with (none run, and nothing is stored or sent, where the
  choice gives yt-dlp no option);
- `encoded`: records kept as URL-safe base64 text, and thumbnail data URLs;
- `text`: clipboard sanitising, string order, type-path and description helpers;
- `startup`, `ui`: the server's start-up decision and small display decisions.

`tests/` runs the library on concrete values. `app/` is the Dioxus program:
components, server functions, storage, and the websocket loop that
performs the session's actions.
