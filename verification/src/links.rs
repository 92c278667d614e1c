//! Release assets and the map from download category to link.

use vstd::prelude::*;
use crate::category::{
    category_of, first_matching, lemma_rules_in_order, rule_table, models_of, rules, DownloadCategory,
};
use crate::text::to_chars;

verus! {

/// One file of a release: its name and the link it is downloaded from.
#[derive(Clone, Debug)]
pub struct ReleaseAsset {
    pub name: String,
    pub url: String,
}

impl ReleaseAsset {
    pub fn new(name: String, url: String) -> (asset: Self)
        ensures
            asset.name == name,
            asset.url == url,
    {
        ReleaseAsset { name, url }
    }
}

/// At most one link for each download category.
#[derive(Debug)]
pub struct CategoryLinkMap {
    windows_installer: Option<String>,
    windows_portable: Option<String>,
    linux_debian_installer: Option<String>,
    linux_app_image: Option<String>,
    linux_portable: Option<String>,
    mac_installer: Option<String>,
    mac_portable: Option<String>,
}

impl View for CategoryLinkMap {
    type V = Map<DownloadCategory, Seq<char>>;

    closed spec fn view(&self) -> Map<DownloadCategory, Seq<char>> {
        Map::new(
            |category: DownloadCategory| self.slot(category) is Some,
            |category: DownloadCategory| self.slot(category)->0@,
        )
    }
}

impl CategoryLinkMap {
    spec fn slot(&self, category: DownloadCategory) -> Option<String> {
        match category {
            DownloadCategory::WindowsInstaller => self.windows_installer,
            DownloadCategory::WindowsPortable => self.windows_portable,
            DownloadCategory::LinuxDebianInstaller => self.linux_debian_installer,
            DownloadCategory::LinuxAppImage => self.linux_app_image,
            DownloadCategory::LinuxPortable => self.linux_portable,
            DownloadCategory::MacInstaller => self.mac_installer,
            DownloadCategory::MacPortable => self.mac_portable,
        }
    }

    /// A map with no link.
    pub fn new() -> (links: Self)
        ensures
            links@ == Map::<DownloadCategory, Seq<char>>::empty(),
    {
        let links = CategoryLinkMap {
            windows_installer: None,
            windows_portable: None,
            linux_debian_installer: None,
            linux_app_image: None,
            linux_portable: None,
            mac_installer: None,
            mac_portable: None,
        };
        assert(links@ =~= Map::<DownloadCategory, Seq<char>>::empty());
        links
    }

    /// Sets the link of `category`, replacing the one it had.
    pub fn insert(&mut self, category: DownloadCategory, url: String)
        ensures
            final(self)@ == old(self)@.insert(category, url@),
    {
        match category {
            DownloadCategory::WindowsInstaller => {
                self.windows_installer = Some(url);
            },
            DownloadCategory::WindowsPortable => {
                self.windows_portable = Some(url);
            },
            DownloadCategory::LinuxDebianInstaller => {
                self.linux_debian_installer = Some(url);
            },
            DownloadCategory::LinuxAppImage => {
                self.linux_app_image = Some(url);
            },
            DownloadCategory::LinuxPortable => {
                self.linux_portable = Some(url);
            },
            DownloadCategory::MacInstaller => {
                self.mac_installer = Some(url);
            },
            DownloadCategory::MacPortable => {
                self.mac_portable = Some(url);
            },
        }
        assert(final(self)@ =~= old(self)@.insert(category, url@));
    }

    /// The link of `category`, if it has one.
    pub fn get(&self, category: DownloadCategory) -> (link: Option<&String>)
        ensures
            link is Some <==> self@.dom().contains(category),
            link is Some ==> link->0@ == self@[category],
    {
        match category {
            DownloadCategory::WindowsInstaller => self.windows_installer.as_ref(),
            DownloadCategory::WindowsPortable => self.windows_portable.as_ref(),
            DownloadCategory::LinuxDebianInstaller => self.linux_debian_installer.as_ref(),
            DownloadCategory::LinuxAppImage => self.linux_app_image.as_ref(),
            DownloadCategory::LinuxPortable => self.linux_portable.as_ref(),
            DownloadCategory::MacInstaller => self.mac_installer.as_ref(),
            DownloadCategory::MacPortable => self.mac_portable.as_ref(),
        }
    }

    /// Whether `category` has a link.
    pub fn contains_key(&self, category: DownloadCategory) -> (present: bool)
        ensures
            present == self@.dom().contains(category),
    {
        self.get(category).is_some()
    }

    /// The number of categories that have a link: seven at most.
    pub fn len(&self) -> (count: usize)
        ensures
            self@.dom().finite(),
            count == self@.dom().len(),
            count <= 7,
    {
        let ghost mut seen = Set::<DownloadCategory>::empty();
        let mut count: usize = 0;
        if self.windows_installer.is_some() {
            count = count + 1;
            proof {
                seen = seen.insert(DownloadCategory::WindowsInstaller);
            }
        }
        if self.windows_portable.is_some() {
            count = count + 1;
            proof {
                seen = seen.insert(DownloadCategory::WindowsPortable);
            }
        }
        if self.linux_debian_installer.is_some() {
            count = count + 1;
            proof {
                seen = seen.insert(DownloadCategory::LinuxDebianInstaller);
            }
        }
        if self.linux_app_image.is_some() {
            count = count + 1;
            proof {
                seen = seen.insert(DownloadCategory::LinuxAppImage);
            }
        }
        if self.linux_portable.is_some() {
            count = count + 1;
            proof {
                seen = seen.insert(DownloadCategory::LinuxPortable);
            }
        }
        if self.mac_installer.is_some() {
            count = count + 1;
            proof {
                seen = seen.insert(DownloadCategory::MacInstaller);
            }
        }
        if self.mac_portable.is_some() {
            count = count + 1;
            proof {
                seen = seen.insert(DownloadCategory::MacPortable);
            }
        }
        assert(self@.dom() =~= seen);
        count
    }

    /// Whether no category has a link.
    pub fn is_empty(&self) -> (empty: bool)
        ensures
            empty == (self@ == Map::<DownloadCategory, Seq<char>>::empty()),
    {
        let empty = self.windows_installer.is_none() && self.windows_portable.is_none()
            && self.linux_debian_installer.is_none() && self.linux_app_image.is_none()
            && self.linux_portable.is_none() && self.mac_installer.is_none()
            && self.mac_portable.is_none();
        proof {
            if empty {
                assert(self@ =~= Map::<DownloadCategory, Seq<char>>::empty());
            } else {
                let witness = if self.windows_installer is Some {
                    DownloadCategory::WindowsInstaller
                } else if self.windows_portable is Some {
                    DownloadCategory::WindowsPortable
                } else if self.linux_debian_installer is Some {
                    DownloadCategory::LinuxDebianInstaller
                } else if self.linux_app_image is Some {
                    DownloadCategory::LinuxAppImage
                } else if self.linux_portable is Some {
                    DownloadCategory::LinuxPortable
                } else if self.mac_installer is Some {
                    DownloadCategory::MacInstaller
                } else {
                    DownloadCategory::MacPortable
                };
                assert(self@.dom().contains(witness));
            }
        }
        empty
    }
}

/// The links of a release: going through the assets in order, each asset
/// whose name has a category sets that category's link to its own.
pub open spec fn links_of(assets: Seq<ReleaseAsset>) -> Map<DownloadCategory, Seq<char>>
    decreases assets.len(),
{
    if assets.len() == 0 {
        Map::empty()
    } else {
        let earlier = links_of(assets.drop_last());
        match category_of(assets.last().name@) {
            Some(category) => earlier.insert(category, assets.last().url@),
            None => earlier,
        }
    }
}

/// `at` is the position of the last asset of `category`.
pub open spec fn is_last_of(assets: Seq<ReleaseAsset>, category: DownloadCategory, at: int) -> bool {
    &&& 0 <= at < assets.len()
    &&& category_of(assets[at].name@) == Some(category)
    &&& forall|later: int|
        at < later < assets.len() ==> category_of(#[trigger] assets[later].name@) != Some(
            category,
        )
}

/// The positions of the assets whose name has no category, in order.
pub open spec fn skipped_of(assets: Seq<ReleaseAsset>) -> Seq<usize>
    decreases assets.len(),
{
    if assets.len() == 0 {
        Seq::empty()
    } else {
        let earlier = skipped_of(assets.drop_last());
        if category_of(assets.last().name@) is None {
            earlier.push((assets.len() - 1) as usize)
        } else {
            earlier
        }
    }
}

/// Assigns each asset to its category and keeps, for each category, the link
/// of the last asset assigned to it. Assets without a category are passed
/// over.
pub fn classify(assets: &Vec<ReleaseAsset>) -> (links: CategoryLinkMap)
    ensures
        links@ == links_of(assets@),
        assets@.len() == 0 ==> links@ == Map::<DownloadCategory, Seq<char>>::empty(),
        forall|category: DownloadCategory| #[trigger]
            links@.dom().contains(category) <==> exists|at: int|
                is_last_of(assets@, category, at),
        forall|category: DownloadCategory, at: int|
            is_last_of(assets@, category, at) ==> links@[category] == assets@[at].url@,
{
    let table = rules();
    let mut links = CategoryLinkMap::new();
    let mut i: usize = 0;
    while i < assets.len()
        invariant
            i <= assets.len(),
            models_of(table@) == rule_table(),
            links@ == links_of(assets@.subrange(0, i as int)),
        decreases assets.len() - i,
    {
        let asset = &assets[i];
        proof {
            let upto = assets@.subrange(0, i + 1);
            assert(upto.drop_last() =~= assets@.subrange(0, i as int));
            assert(upto.last() == assets@[i as int]);
            lemma_rules_in_order(asset.name@);
        }
        let name = to_chars(asset.name.as_str());
        match first_matching(&table, &name) {
            Some(category) => {
                links.insert(category, asset.url.clone());
            },
            None => {},
        }
        i = i + 1;
    }
    proof {
        assert(assets@.subrange(0, i as int) =~= assets@);
        assert forall|category: DownloadCategory| #[trigger]
            links@.dom().contains(category) <==> exists|at: int|
                is_last_of(assets@, category, at) by {
            lemma_present_iff_matched(assets@, category);
        }
        assert forall|category: DownloadCategory, at: int|
            is_last_of(assets@, category, at) implies links@[category] == assets@[at].url@ by {
            lemma_last_wins(assets@, category, at);
        }
    }
    links
}

/// The positions of the assets that `classify` passes over, in order: those
/// whose name has no category.
pub fn unclassified(assets: &Vec<ReleaseAsset>) -> (skipped: Vec<usize>)
    ensures
        skipped@ == skipped_of(assets@),
        forall|k: int| 0 <= k < skipped@.len() ==> skipped@[k] < assets@.len(),
        forall|at: int|
            0 <= at < assets@.len() ==> (category_of(#[trigger] assets@[at].name@) is None
                <==> exists|k: int| 0 <= k < skipped@.len() && skipped@[k] == at),
        forall|j: int, k: int| 0 <= j < k < skipped@.len() ==> skipped@[j] < skipped@[k],
{
    let table = rules();
    let mut skipped: Vec<usize> = Vec::new();
    let mut i: usize = 0;
    while i < assets.len()
        invariant
            i <= assets.len(),
            models_of(table@) == rule_table(),
            skipped@ == skipped_of(assets@.subrange(0, i as int)),
        decreases assets.len() - i,
    {
        proof {
            let upto = assets@.subrange(0, i + 1);
            assert(upto.drop_last() =~= assets@.subrange(0, i as int));
            assert(upto.last() == assets@[i as int]);
            lemma_rules_in_order(assets@[i as int].name@);
        }
        let name = to_chars(assets[i].name.as_str());
        if first_matching(&table, &name).is_none() {
            skipped.push(i);
        }
        i = i + 1;
    }
    proof {
        assert(assets@.subrange(0, i as int) =~= assets@);
        lemma_skipped_exact(assets@);
    }
    skipped
}

/// A category has a link exactly when some asset's name has that category.
pub proof fn lemma_present_iff_matched(assets: Seq<ReleaseAsset>, category: DownloadCategory)
    ensures
        links_of(assets).dom().contains(category) <==> exists|at: int|
            is_last_of(assets, category, at),
        links_of(assets).dom().contains(category) <==> exists|at: int|
            0 <= at < assets.len() && category_of(#[trigger] assets[at].name@) == Some(category),
    decreases assets.len(),
{
    if assets.len() > 0 {
        let earlier = assets.drop_last();
        let n = assets.len() - 1;
        lemma_present_iff_matched(earlier, category);
        if category_of(assets.last().name@) == Some(category) {
            assert(is_last_of(assets, category, n));
        } else {
            if links_of(assets).dom().contains(category) {
                assert(links_of(earlier).dom().contains(category));
                let at = choose|at: int| is_last_of(earlier, category, at);
                assert(earlier[at] == assets[at]);
                assert forall|later: int| at < later < assets.len() implies category_of(
                    #[trigger] assets[later].name@,
                ) != Some(category) by {
                    if later < n {
                        assert(earlier[later] == assets[later]);
                    }
                }
                assert(is_last_of(assets, category, at));
            }
            if exists|at: int|
                0 <= at < assets.len() && category_of(#[trigger] assets[at].name@) == Some(
                    category,
                ) {
                let at = choose|at: int|
                    0 <= at < assets.len() && category_of(#[trigger] assets[at].name@) == Some(
                        category,
                    );
                assert(at < n);
                assert(earlier[at] == assets[at]);
                assert(links_of(earlier).dom().contains(category));
            }
        }
    }
}

/// The link of a category is that of the last asset whose name has that
/// category: where several assets share a category, the last one wins.
pub proof fn lemma_last_wins(assets: Seq<ReleaseAsset>, category: DownloadCategory, at: int)
    requires
        is_last_of(assets, category, at),
    ensures
        links_of(assets).dom().contains(category),
        links_of(assets)[category] == assets[at].url@,
    decreases assets.len(),
{
    let earlier = assets.drop_last();
    let n = assets.len() - 1;
    if at < n {
        assert(category_of(assets[n].name@) != Some(category));
        assert(earlier[at] == assets[at]);
        assert forall|later: int| at < later < earlier.len() implies category_of(
            #[trigger] earlier[later].name@,
        ) != Some(category) by {
            assert(earlier[later] == assets[later]);
        }
        lemma_last_wins(earlier, category, at);
    }
}

/// The positions passed over are in range, strictly increasing, and are
/// exactly those of the assets whose name has no category.
pub proof fn lemma_skipped_exact(assets: Seq<ReleaseAsset>)
    requires
        assets.len() <= usize::MAX,
    ensures
        forall|k: int|
            0 <= k < skipped_of(assets).len() ==> 0 <= #[trigger] skipped_of(assets)[k]
                < assets.len(),
        forall|at: int|
            0 <= at < assets.len() ==> (category_of(#[trigger] assets[at].name@) is None
                <==> exists|k: int|
                0 <= k < skipped_of(assets).len() && skipped_of(assets)[k] == at),
        forall|j: int, k: int|
            0 <= j < k < skipped_of(assets).len() ==> skipped_of(assets)[j] < skipped_of(
                assets,
            )[k],
    decreases assets.len(),
{
    if assets.len() > 0 {
        let earlier = assets.drop_last();
        let n = assets.len() - 1;
        let before = skipped_of(earlier);
        let now = skipped_of(assets);
        lemma_skipped_exact(earlier);
        assert forall|at: int| 0 <= at < assets.len() implies (category_of(
            #[trigger] assets[at].name@,
        ) is None <==> exists|k: int| 0 <= k < now.len() && now[k] == at) by {
            if at < n {
                assert(earlier[at] == assets[at]);
                if category_of(assets[at].name@) is None {
                    let k = choose|k: int| 0 <= k < before.len() && before[k] == at;
                    assert(now[k] == at);
                }
                if exists|k: int| 0 <= k < now.len() && now[k] == at {
                    let k = choose|k: int| 0 <= k < now.len() && now[k] == at;
                    assert(k < before.len());
                    assert(before[k] == at);
                }
            } else {
                if category_of(assets[at].name@) is None {
                    assert(now[now.len() - 1] == at);
                }
                if exists|k: int| 0 <= k < now.len() && now[k] == at {
                    let k = choose|k: int| 0 <= k < now.len() && now[k] == at;
                    if k < before.len() {
                        assert(before[k] < n);
                    }
                }
            }
        }
    }
}

/// Whatever the assets, every key of the links is one of the seven
/// categories, and is the category of some asset's name.
pub proof fn lemma_keys_are_categories(assets: Seq<ReleaseAsset>, key: DownloadCategory)
    requires
        links_of(assets).dom().contains(key),
    ensures
        key is WindowsInstaller || key is WindowsPortable || key is LinuxDebianInstaller
            || key is LinuxAppImage || key is LinuxPortable || key is MacInstaller
            || key is MacPortable,
        exists|at: int|
            0 <= at < assets.len() && category_of(#[trigger] assets[at].name@) == Some(key),
{
    lemma_present_iff_matched(assets, key);
}

/// An empty release has no link and passes over nothing.
pub proof fn lemma_empty_release(assets: Seq<ReleaseAsset>)
    requires
        assets.len() == 0,
    ensures
        links_of(assets) == Map::<DownloadCategory, Seq<char>>::empty(),
        skipped_of(assets) == Seq::<usize>::empty(),
{
}

/// Classifying the same assets twice gives the same links: the result
/// depends on the names and links of the assets alone, in their order.
pub proof fn lemma_same_assets_same_links(first: Seq<ReleaseAsset>, second: Seq<ReleaseAsset>)
    requires
        first.len() == second.len(),
        forall|i: int|
            0 <= i < first.len() ==> first[i].name@ == second[i].name@ && first[i].url@
                == second[i].url@,
    ensures
        links_of(first) == links_of(second),
        skipped_of(first) == skipped_of(second),
    decreases first.len(),
{
    if first.len() > 0 {
        lemma_same_assets_same_links(first.drop_last(), second.drop_last());
    }
}

} // verus!
