use release_links::category::DownloadCategory;
use release_links::home::{home, link_state, LinkState};
use release_links::links::{classify, ReleaseAsset};
use release_links::platform::Platform;

fn asset(name: &str, url: &str) -> ReleaseAsset {
    ReleaseAsset::new(name.to_string(), url.to_string())
}

fn url_of(state: &LinkState) -> Option<String> {
    state.url().cloned()
}

#[test]
fn link_state_follows_the_map() {
    let links = classify(&vec![asset("App.dmg", "m")]);
    let present = link_state(&links, DownloadCategory::MacInstaller);
    assert!(present.is_available());
    assert_eq!(url_of(&present), Some("m".to_string()));
    let absent = link_state(&links, DownloadCategory::MacPortable);
    assert!(!absent.is_available());
    assert_eq!(url_of(&absent), None);
}

#[test]
fn home_without_release_has_no_links() {
    let page = home(None, Some("Mozilla/5.0 (Windows NT 10.0; Win64)"));
    assert_eq!(page.platform, Platform::Windows);
    assert!(page.links.is_empty());
    let primary = page.primary();
    assert!(matches!(primary, Some((DownloadCategory::WindowsInstaller, LinkState::Unavailable))));
    for platform in [Platform::Windows, Platform::Linux, Platform::MacOS] {
        for (_, state) in page.section(platform) {
            assert!(!state.is_available());
        }
    }
}

#[test]
fn home_shows_primary_for_windows_and_mac_only() {
    let assets = vec![
        asset("App-1.0.0-setup.exe", "u1"),
        asset("App-1.0.0.dmg", "u3"),
        asset("App-1.0.0.deb", "u4"),
    ];
    let page = home(Some(&assets), Some("Mozilla/5.0 (Windows NT 10.0; Win64)"));
    let (category, state) = page.primary().unwrap();
    assert_eq!(category, DownloadCategory::WindowsInstaller);
    assert_eq!(url_of(&state), Some("u1".to_string()));

    let page = home(Some(&assets), Some("Mozilla/5.0 (Macintosh; Intel Mac OS X)"));
    let (category, state) = page.primary().unwrap();
    assert_eq!(category, DownloadCategory::MacInstaller);
    assert_eq!(url_of(&state), Some("u3".to_string()));

    let page = home(Some(&assets), Some("X11; Linux x86_64"));
    assert_eq!(page.platform, Platform::Linux);
    assert!(page.primary().is_none());

    let page = home(Some(&assets), None);
    assert_eq!(page.platform, Platform::Unknown);
    assert!(page.primary().is_none());
}

#[test]
fn home_lists_every_section_whatever_the_platform() {
    let assets = vec![asset("App-1.0.0-setup.exe", "u1"), asset("App-1.0.0.deb", "u4")];
    let page = home(Some(&assets), None);
    let windows = page.section(Platform::Windows);
    assert_eq!(windows.len(), 2);
    assert_eq!(windows[0].0, DownloadCategory::WindowsInstaller);
    assert_eq!(url_of(&windows[0].1), Some("u1".to_string()));
    assert_eq!(windows[1].0, DownloadCategory::WindowsPortable);
    assert_eq!(url_of(&windows[1].1), None);
    let linux = page.section(Platform::Linux);
    assert_eq!(linux.len(), 3);
    assert_eq!(linux[0].0, DownloadCategory::LinuxDebianInstaller);
    assert_eq!(url_of(&linux[0].1), Some("u4".to_string()));
    assert_eq!(url_of(&linux[1].1), None);
    assert_eq!(url_of(&linux[2].1), None);
    let mac = page.section(Platform::MacOS);
    assert_eq!(mac.len(), 2);
    assert!(mac.iter().all(|(_, state)| !state.is_available()));
    assert!(page.section(Platform::Unknown).is_empty());
}
