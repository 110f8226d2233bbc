//! Download-queue logic of a yt-dlp front end: the format selection that a
//! user builds, the ordering of subtitles and queued downloads, the
//! arguments that a download runs with, and the encoding of stored records.

pub mod downloads;
pub mod encoded;
pub mod formats;
pub mod server;
pub mod server_state;
pub mod startup;
pub mod subtitles;
pub mod text;
pub mod ui;
pub mod url_info;
