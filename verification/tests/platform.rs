use release_links::category::DownloadCategory;
use release_links::platform::{categories_for, detect, primary_category, Platform};

#[test]
fn detect_windows() {
    assert_eq!(detect(Some("Mozilla/5.0 (Windows NT 10.0; Win64)")), Platform::Windows);
}

#[test]
fn detect_mac() {
    assert_eq!(detect(Some("Mozilla/5.0 (Macintosh; Intel Mac OS X)")), Platform::MacOS);
}

#[test]
fn detect_linux() {
    assert_eq!(detect(Some("X11; Linux x86_64")), Platform::Linux);
}

#[test]
fn detect_absent_is_unknown() {
    assert_eq!(detect(None), Platform::Unknown);
}

#[test]
fn detect_empty_is_unknown() {
    assert_eq!(detect(Some("")), Platform::Unknown);
}

#[test]
fn detect_tries_mac_then_win_then_linux() {
    assert_eq!(detect(Some("Linux Win Mac")), Platform::MacOS);
    assert_eq!(detect(Some("Linux Win")), Platform::Windows);
    assert_eq!(detect(Some("mac win linux")), Platform::Unknown);
    assert_eq!(detect(Some("Darwin")), Platform::Unknown);
    assert_eq!(detect(Some("Winamp on Linux")), Platform::Windows);
}

#[test]
fn primary_category_per_platform() {
    assert_eq!(primary_category(Platform::Windows), Some(DownloadCategory::WindowsInstaller));
    assert_eq!(primary_category(Platform::MacOS), Some(DownloadCategory::MacInstaller));
    assert_eq!(primary_category(Platform::Linux), None);
    assert_eq!(primary_category(Platform::Unknown), None);
}

#[test]
fn sections_list_their_categories_in_order() {
    assert_eq!(
        categories_for(Platform::Windows),
        vec![DownloadCategory::WindowsInstaller, DownloadCategory::WindowsPortable]
    );
    assert_eq!(
        categories_for(Platform::Linux),
        vec![
            DownloadCategory::LinuxDebianInstaller,
            DownloadCategory::LinuxAppImage,
            DownloadCategory::LinuxPortable
        ]
    );
    assert_eq!(
        categories_for(Platform::MacOS),
        vec![DownloadCategory::MacInstaller, DownloadCategory::MacPortable]
    );
    assert_eq!(categories_for(Platform::Unknown), Vec::<DownloadCategory>::new());
}
