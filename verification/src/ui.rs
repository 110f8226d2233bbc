use vstd::prelude::*;

verus! {

/// How a resource that is loading or has failed is shown.
#[derive(Clone, Copy, Debug, PartialEq, Eq, Structural)]
pub enum UI {
    Simple,
    Button,
    /// Nothing is shown.
    Hidden,
}

impl Default for UI {
    fn default() -> (r: Self)
        ensures
            r == UI::Button,
    {
        UI::Button
    }
}

/// Where a resource stands.
#[derive(Clone, Copy, Debug, PartialEq, Eq, Structural)]
pub enum ResourceStatus {
    Loading,
    Failed,
    Ready,
}

/// What is shown for a resource.
#[derive(Clone, Copy, Debug, PartialEq, Eq, Structural)]
pub enum ResourceView {
    /// The resource's own content.
    Content,
    ErrorSimple,
    ErrorButton,
    LoadingSimple,
    LoadingButton,
    Nothing,
}

/// What is shown for a resource in the given state and style: its content
/// once it is ready; else the error or the loading notice in the style
/// chosen, or nothing for the hidden style.
pub open spec fn view_for(status: ResourceStatus, ui: UI) -> ResourceView {
    match status {
        ResourceStatus::Ready => ResourceView::Content,
        ResourceStatus::Failed => match ui {
            UI::Simple => ResourceView::ErrorSimple,
            UI::Button => ResourceView::ErrorButton,
            UI::Hidden => ResourceView::Nothing,
        },
        ResourceStatus::Loading => match ui {
            UI::Simple => ResourceView::LoadingSimple,
            UI::Button => ResourceView::LoadingButton,
            UI::Hidden => ResourceView::Nothing,
        },
    }
}

/// What is shown for a resource (see `view_for`).
pub fn resource_view(status: ResourceStatus, ui: UI) -> (r: ResourceView)
    ensures
        r == view_for(status, ui),
{
    match status {
        ResourceStatus::Ready => ResourceView::Content,
        ResourceStatus::Failed => match ui {
            UI::Simple => ResourceView::ErrorSimple,
            UI::Button => ResourceView::ErrorButton,
            UI::Hidden => ResourceView::Nothing,
        },
        ResourceStatus::Loading => match ui {
            UI::Simple => ResourceView::LoadingSimple,
            UI::Button => ResourceView::LoadingButton,
            UI::Hidden => ResourceView::Nothing,
        },
    }
}

/// The sections of the main page.
#[derive(Clone, Copy, Debug, PartialEq, Eq, Structural)]
pub enum MainPageSection {
    DownloadQueue,
    Downloads,
    CustomCommand,
    Settings,
    Sponsor,
    Troubleshooting,
    About,
}

impl Default for MainPageSection {
    fn default() -> (r: Self)
        ensures
            r == MainPageSection::DownloadQueue,
    {
        MainPageSection::DownloadQueue
    }
}

/// The label of a section.
pub open spec fn section_label(s: MainPageSection) -> Seq<char> {
    match s {
        MainPageSection::DownloadQueue => "Download queue"@,
        MainPageSection::Downloads => "Downloads"@,
        MainPageSection::CustomCommand => "Custom command"@,
        MainPageSection::Settings => "Settings"@,
        MainPageSection::Sponsor => "Sponsor"@,
        MainPageSection::Troubleshooting => "Troubleshooting"@,
        MainPageSection::About => "About"@,
    }
}

impl MainPageSection {
    /// The label shown on the section's tab.
    pub fn label(&self) -> (r: &'static str)
        ensures
            r@ == section_label(*self),
    {
        match self {
            MainPageSection::DownloadQueue => "Download queue",
            MainPageSection::Downloads => "Downloads",
            MainPageSection::CustomCommand => "Custom command",
            MainPageSection::Settings => "Settings",
            MainPageSection::Sponsor => "Sponsor",
            MainPageSection::Troubleshooting => "Troubleshooting",
            MainPageSection::About => "About",
        }
    }

    /// Whether the section has content yet: only the download queue has.
    pub fn is_implemented(&self) -> (r: bool)
        ensures
            r == (*self == MainPageSection::DownloadQueue),
    {
        match self {
            MainPageSection::DownloadQueue => true,
            _ => false,
        }
    }
}

/// The progress of a download, stored in 0..=255, as a percentage. The
/// product is taken in `u8`, as the page computes it, so `progress * 100`
/// must fit in a `u8`.
pub fn progress_percent(progress: u8) -> (r: u8)
    requires
        progress * 100 <= u8::MAX,
    ensures
        r == progress * 100 / 255,
{
    progress * 100 / 255
}

/// The tab that a dropdown toggle leaves open after a click on it: none
/// where its own tab was the open one, else its own tab.
pub fn toggle_dropdown_tab<T>(own_tab_open: bool, tab: T) -> (r: Option<T>)
    ensures
        r == if own_tab_open {
            None
        } else {
            Some(tab)
        },
{
    if own_tab_open {
        None
    } else {
        Some(tab)
    }
}

} // verus!
