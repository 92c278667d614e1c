//! What the landing page shows: the visitor's platform, the prominent
//! download for it, and the state of every category's link.

use vstd::prelude::*;
use crate::category::DownloadCategory;
use crate::platform::{
    categories_for, detect, detected, listed_under, primary_category, primary_of, Platform,
};
use crate::links::{classify, links_of, CategoryLinkMap, ReleaseAsset};

verus! {

/// The state of one download control: a live link, or none.
#[derive(Debug)]
pub enum LinkState {
    Available(String),
    Unavailable,
}

impl View for LinkState {
    type V = Option<Seq<char>>;

    open spec fn view(&self) -> Option<Seq<char>> {
        match self {
            LinkState::Available(url) => Some(url@),
            LinkState::Unavailable => None,
        }
    }
}

impl LinkState {
    /// Whether there is a link to follow.
    pub fn is_available(&self) -> (available: bool)
        ensures
            available == (self@ is Some),
    {
        match self {
            LinkState::Available(_) => true,
            LinkState::Unavailable => false,
        }
    }

    /// The link, if there is one.
    pub fn url(&self) -> (url: Option<&String>)
        ensures
            url is Some <==> self@ is Some,
            url is Some ==> url->0@ == self@->0,
    {
        match self {
            LinkState::Available(url) => Some(url),
            LinkState::Unavailable => None,
        }
    }
}

/// The link that `links` holds for `category`, if any.
pub open spec fn link_of(
    links: Map<DownloadCategory, Seq<char>>,
    category: DownloadCategory,
) -> Option<Seq<char>> {
    if links.dom().contains(category) {
        Some(links[category])
    } else {
        None
    }
}

/// The controls of one section: its categories in order, each with the link
/// that `links` holds for it.
pub open spec fn controls_match(
    controls: Seq<(DownloadCategory, LinkState)>,
    categories: Seq<DownloadCategory>,
    links: Map<DownloadCategory, Seq<char>>,
) -> bool {
    &&& controls.len() == categories.len()
    &&& forall|i: int|
        0 <= i < controls.len() ==> (#[trigger] controls[i]).0 == categories[i] && controls[i].1@
            == link_of(links, categories[i])
}

/// The state of the control for `category`: available with its link where
/// `links` holds one, unavailable where it holds none.
pub fn link_state(links: &CategoryLinkMap, category: DownloadCategory) -> (state: LinkState)
    ensures
        state@ == link_of(links@, category),
{
    match links.get(category) {
        Some(url) => LinkState::Available(url.clone()),
        None => LinkState::Unavailable,
    }
}

/// What the page shows to one visitor.
#[derive(Debug)]
pub struct HomePage {
    pub platform: Platform,
    pub links: CategoryLinkMap,
}

impl HomePage {
    /// The prominent download: the primary category of the visitor's
    /// platform with the state of its link, or nothing where the platform
    /// has no primary category.
    pub fn primary(&self) -> (control: Option<(DownloadCategory, LinkState)>)
        ensures
            match primary_of(self.platform) {
                Some(category) => control matches Some((shown, state)) && shown == category
                    && state@ == link_of(self.links@, category),
                None => control is None,
            },
    {
        match primary_category(self.platform) {
            Some(category) => Some((category, link_state(&self.links, category))),
            None => None,
        }
    }

    /// The controls listed under the heading of `platform`, whatever the
    /// visitor's own platform is: one for each of its categories, in order.
    pub fn section(&self, platform: Platform) -> (controls: Vec<(DownloadCategory, LinkState)>)
        ensures
            controls_match(controls@, listed_under(platform), self.links@),
    {
        let categories = categories_for(platform);
        let mut controls: Vec<(DownloadCategory, LinkState)> = Vec::new();
        let mut i: usize = 0;
        while i < categories.len()
            invariant
                i <= categories.len(),
                categories@ == listed_under(platform),
                controls_match(controls@, categories@.subrange(0, i as int), self.links@),
            decreases categories.len() - i,
        {
            let category = categories[i];
            let state = link_state(&self.links, category);
            controls.push((category, state));
            i = i + 1;
        }
        assert(categories@.subrange(0, i as int) =~= categories@);
        controls
    }
}

/// The page for one visit. `release` is the latest release where it could be
/// had; without one no category has a link. `client` is the visitor's
/// identification string where there is one.
pub fn home(release: Option<&Vec<ReleaseAsset>>, client: Option<&str>) -> (page: HomePage)
    ensures
        page.platform == detected(
            match client {
                Some(text) => Some(text@),
                None => None,
            },
        ),
        page.links@ == match release {
            Some(assets) => links_of(assets@),
            None => Map::<DownloadCategory, Seq<char>>::empty(),
        },
{
    let links = match release {
        Some(assets) => classify(assets),
        None => CategoryLinkMap::new(),
    };
    HomePage { platform: detect(client), links }
}

} // verus!
