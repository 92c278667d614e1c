//! The visitor's platform, and what the page offers for each platform.

use vstd::prelude::*;
use crate::category::DownloadCategory;
use crate::text::{chars_contain, is_substring, to_chars};

verus! {

/// The platforms a visitor can be recognised as.
#[derive(Clone, Copy, Debug, PartialEq, Eq, Structural, Hash)]
pub enum Platform {
    Windows,
    Linux,
    MacOS,
    Unknown,
}

/// The platform that a client identification string names: the first of
/// `Mac`, `Win`, `Linux` that it holds decides.
pub open spec fn platform_of(client: Seq<char>) -> Platform {
    if is_substring("Mac"@, client) {
        Platform::MacOS
    } else if is_substring("Win"@, client) {
        Platform::Windows
    } else if is_substring("Linux"@, client) {
        Platform::Linux
    } else {
        Platform::Unknown
    }
}

/// The platform of a visitor whose identification may be missing.
pub open spec fn detected(client: Option<Seq<char>>) -> Platform {
    match client {
        Some(text) => platform_of(text),
        None => Platform::Unknown,
    }
}

/// The category shown as the prominent download for a platform, if any.
pub open spec fn primary_of(platform: Platform) -> Option<DownloadCategory> {
    match platform {
        Platform::Windows => Some(DownloadCategory::WindowsInstaller),
        Platform::MacOS => Some(DownloadCategory::MacInstaller),
        Platform::Linux => None,
        Platform::Unknown => None,
    }
}

/// The platform under whose heading a category is listed.
pub open spec fn section_of(category: DownloadCategory) -> Platform {
    match category {
        DownloadCategory::WindowsInstaller => Platform::Windows,
        DownloadCategory::WindowsPortable => Platform::Windows,
        DownloadCategory::LinuxDebianInstaller => Platform::Linux,
        DownloadCategory::LinuxAppImage => Platform::Linux,
        DownloadCategory::LinuxPortable => Platform::Linux,
        DownloadCategory::MacInstaller => Platform::MacOS,
        DownloadCategory::MacPortable => Platform::MacOS,
    }
}

/// The categories listed under a platform's heading, in the order shown.
pub open spec fn listed_under(platform: Platform) -> Seq<DownloadCategory> {
    match platform {
        Platform::Windows => seq![
            DownloadCategory::WindowsInstaller,
            DownloadCategory::WindowsPortable,
        ],
        Platform::Linux => seq![
            DownloadCategory::LinuxDebianInstaller,
            DownloadCategory::LinuxAppImage,
            DownloadCategory::LinuxPortable,
        ],
        Platform::MacOS => seq![
            DownloadCategory::MacInstaller,
            DownloadCategory::MacPortable,
        ],
        Platform::Unknown => seq![],
    }
}

/// Recognises the visitor's platform from a client identification string.
/// A missing string gives `Unknown`.
pub fn detect(client: Option<&str>) -> (platform: Platform)
    ensures
        platform == detected(
            match client {
                Some(text) => Some(text@),
                None => None,
            },
        ),
{
    match client {
        None => Platform::Unknown,
        Some(text) => {
            let chars = to_chars(text);
            if chars_contain(&chars, &to_chars("Mac")) {
                Platform::MacOS
            } else if chars_contain(&chars, &to_chars("Win")) {
                Platform::Windows
            } else if chars_contain(&chars, &to_chars("Linux")) {
                Platform::Linux
            } else {
                Platform::Unknown
            }
        },
    }
}

/// The category to offer as the prominent download on a platform.
pub fn primary_category(platform: Platform) -> (category: Option<DownloadCategory>)
    ensures
        category == primary_of(platform),
{
    match platform {
        Platform::Windows => Some(DownloadCategory::WindowsInstaller),
        Platform::MacOS => Some(DownloadCategory::MacInstaller),
        Platform::Linux => None,
        Platform::Unknown => None,
    }
}

/// The categories to list under a platform's heading, in the order shown.
pub fn categories_for(platform: Platform) -> (categories: Vec<DownloadCategory>)
    ensures
        categories@ == listed_under(platform),
{
    let mut categories: Vec<DownloadCategory> = Vec::new();
    match platform {
        Platform::Windows => {
            categories.push(DownloadCategory::WindowsInstaller);
            categories.push(DownloadCategory::WindowsPortable);
        },
        Platform::Linux => {
            categories.push(DownloadCategory::LinuxDebianInstaller);
            categories.push(DownloadCategory::LinuxAppImage);
            categories.push(DownloadCategory::LinuxPortable);
        },
        Platform::MacOS => {
            categories.push(DownloadCategory::MacInstaller);
            categories.push(DownloadCategory::MacPortable);
        },
        Platform::Unknown => {},
    }
    assert(categories@ =~= listed_under(platform));
    categories
}

/// A missing identification and an empty one both give `Unknown`.
pub proof fn lemma_no_identification_is_unknown()
    ensures
        detected(None) == Platform::Unknown,
        detected(Some(Seq::<char>::empty())) == Platform::Unknown,
{
    reveal_strlit("Mac");
    reveal_strlit("Win");
    reveal_strlit("Linux");
}

/// A category is listed under one heading only, that of its own platform,
/// and the prominent download of a platform is listed under that platform.
pub proof fn lemma_sections_partition(category: DownloadCategory, platform: Platform)
    ensures
        listed_under(platform).contains(category) <==> section_of(category) == platform,
        primary_of(platform) matches Some(primary) ==> section_of(primary) == platform,
{
    let listed = listed_under(platform);
    if section_of(category) == platform {
        assert(listed[0] == category || listed[1] == category || (listed.len() == 3
            && listed[2] == category));
    }
}

} // verus!
