use sealed_dioxus_ui::startup::{startup_action, StartupAction};
use sealed_dioxus_ui::ui::{progress_percent, resource_view, toggle_dropdown_tab, MainPageSection, ResourceStatus, ResourceView, UI};

#[test]
fn resource_views() {
    assert_eq!(UI::default(), UI::Button);
    assert_eq!(resource_view(ResourceStatus::Ready, UI::Hidden), ResourceView::Content);
    assert_eq!(resource_view(ResourceStatus::Failed, UI::Simple), ResourceView::ErrorSimple);
    assert_eq!(resource_view(ResourceStatus::Failed, UI::Button), ResourceView::ErrorButton);
    assert_eq!(resource_view(ResourceStatus::Failed, UI::Hidden), ResourceView::Nothing);
    assert_eq!(resource_view(ResourceStatus::Loading, UI::Simple), ResourceView::LoadingSimple);
    assert_eq!(resource_view(ResourceStatus::Loading, UI::Button), ResourceView::LoadingButton);
    assert_eq!(resource_view(ResourceStatus::Loading, UI::Hidden), ResourceView::Nothing);
}

#[test]
fn section_labels() {
    assert_eq!(MainPageSection::default(), MainPageSection::DownloadQueue);
    assert_eq!(MainPageSection::DownloadQueue.label(), "Download queue");
    assert_eq!(MainPageSection::CustomCommand.label(), "Custom command");
    assert_eq!(MainPageSection::About.label(), "About");
    assert!(MainPageSection::DownloadQueue.is_implemented());
    assert!(!MainPageSection::Settings.is_implemented());
}

#[test]
fn progress_percent_in_u8() {
    assert_eq!(progress_percent(0), 0);
    assert_eq!(progress_percent(2), 0);
}

#[test]
fn startup_actions() {
    assert_eq!(startup_action(false, true, Some(0)), StartupAction::InstallThenUpdate);
    assert_eq!(startup_action(true, false, None), StartupAction::InstallThenUpdate);
    assert_eq!(startup_action(true, true, Some(43200)), StartupAction::UpdateToNightly);
    assert_eq!(startup_action(true, true, Some(43199)), StartupAction::KeepCurrent);
    assert_eq!(startup_action(true, true, None), StartupAction::WarnAgeUnknown);
}

#[test]
fn dropdown_toggle_opens_and_closes() {
    assert_eq!(toggle_dropdown_tab(false, 3u8), Some(3));
    assert_eq!(toggle_dropdown_tab(true, 3u8), None);
}
