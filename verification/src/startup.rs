use vstd::prelude::*;

verus! {

/// How long yt-dlp may go without an update, in seconds: twelve hours.
pub const YT_DLP_UPDATE_INTERVAL_SECS: u64 = 43200;

/// What the server does with its tools when it starts.
#[derive(Clone, Copy, Debug, PartialEq, Eq, Structural)]
pub enum StartupAction {
    /// ffmpeg or yt-dlp is missing: install both, then update yt-dlp to
    /// the latest nightly.
    InstallThenUpdate,
    /// yt-dlp was last changed at least twelve hours ago: update it to the
    /// latest nightly.
    UpdateToNightly,
    /// yt-dlp is recent enough.
    KeepCurrent,
    /// The age of yt-dlp could not be read: warn and go on.
    WarnAgeUnknown,
}

/// What the server does with its tools, given whether ffmpeg and yt-dlp are
/// installed and how many whole seconds ago yt-dlp was last changed (none
/// where that could not be read).
pub fn startup_action(ffmpeg_exists: bool, yt_dlp_exists: bool, yt_dlp_age_secs: Option<u64>) -> (r: StartupAction)
    ensures
        r == if !(ffmpeg_exists && yt_dlp_exists) {
            StartupAction::InstallThenUpdate
        } else {
            match yt_dlp_age_secs {
                Some(age) => if age >= YT_DLP_UPDATE_INTERVAL_SECS {
                    StartupAction::UpdateToNightly
                } else {
                    StartupAction::KeepCurrent
                },
                None => StartupAction::WarnAgeUnknown,
            }
        },
{
    if ffmpeg_exists && yt_dlp_exists {
        match yt_dlp_age_secs {
            Some(age) => if age >= YT_DLP_UPDATE_INTERVAL_SECS {
                StartupAction::UpdateToNightly
            } else {
                StartupAction::KeepCurrent
            },
            None => StartupAction::WarnAgeUnknown,
        }
    } else {
        StartupAction::InstallThenUpdate
    }
}

} // verus!
