//! Download categories and the ordered rules that assign a file name to one.

use vstd::prelude::*;
use crate::text::{chars_contain, chars_end_with, is_substring, is_suffix, to_chars};

verus! {

/// The kinds of download a release offers. Used only as a key.
#[derive(Clone, Copy, Debug, PartialEq, Eq, Structural, Hash)]
pub enum DownloadCategory {
    WindowsInstaller,
    WindowsPortable,
    LinuxDebianInstaller,
    LinuxAppImage,
    LinuxPortable,
    MacInstaller,
    MacPortable,
}

/// The category of a file name: the first rule that matches decides, and a
/// name that no rule matches has none.
pub open spec fn category_of(name: Seq<char>) -> Option<DownloadCategory> {
    if is_suffix(".dmg"@, name) {
        Some(DownloadCategory::MacInstaller)
    } else if is_suffix(".AppImage"@, name) {
        Some(DownloadCategory::LinuxAppImage)
    } else if is_suffix(".deb"@, name) {
        Some(DownloadCategory::LinuxDebianInstaller)
    } else if is_suffix("-setup.exe"@, name) {
        Some(DownloadCategory::WindowsInstaller)
    } else if is_suffix(".exe"@, name) {
        Some(DownloadCategory::WindowsPortable)
    } else if is_substring("-macOS"@, name) {
        Some(DownloadCategory::MacPortable)
    } else if is_substring("-Linux"@, name) {
        Some(DownloadCategory::LinuxPortable)
    } else {
        None
    }
}

/// How a rule reads a file name.
#[derive(Clone, Copy, Debug, PartialEq, Eq, Structural)]
pub enum NameTest {
    /// The name ends with the pattern.
    EndsWith,
    /// The name holds the pattern somewhere.
    Contains,
}

/// One rule: a test on the file name, and the category of the names that
/// pass it.
#[derive(Debug)]
pub struct Rule {
    pub test: NameTest,
    pub pattern: Vec<char>,
    pub category: DownloadCategory,
}

/// A rule as plain values.
pub struct RuleModel {
    pub test: NameTest,
    pub pattern: Seq<char>,
    pub category: DownloadCategory,
}

impl View for Rule {
    type V = RuleModel;

    open spec fn view(&self) -> RuleModel {
        RuleModel { test: self.test, pattern: self.pattern@, category: self.category }
    }
}

impl RuleModel {
    /// Whether `name` passes the rule's test.
    pub open spec fn matches(self, name: Seq<char>) -> bool {
        match self.test {
            NameTest::EndsWith => is_suffix(self.pattern, name),
            NameTest::Contains => is_substring(self.pattern, name),
        }
    }
}

/// The rules of a list as plain values.
pub open spec fn models_of(rules: Seq<Rule>) -> Seq<RuleModel> {
    Seq::new(rules.len(), |i: int| rules[i]@)
}

/// The category of the first rule, from position `from` on, that `name`
/// passes.
pub open spec fn first_match(rules: Seq<RuleModel>, name: Seq<char>, from: int) -> Option<
    DownloadCategory,
>
    decreases rules.len() - from,
{
    if from < 0 || from >= rules.len() {
        None
    } else if rules[from].matches(name) {
        Some(rules[from].category)
    } else {
        first_match(rules, name, from + 1)
    }
}

/// The rules in their order of priority.
pub open spec fn rule_table() -> Seq<RuleModel> {
    seq![
        RuleModel {
            test: NameTest::EndsWith,
            pattern: ".dmg"@,
            category: DownloadCategory::MacInstaller,
        },
        RuleModel {
            test: NameTest::EndsWith,
            pattern: ".AppImage"@,
            category: DownloadCategory::LinuxAppImage,
        },
        RuleModel {
            test: NameTest::EndsWith,
            pattern: ".deb"@,
            category: DownloadCategory::LinuxDebianInstaller,
        },
        RuleModel {
            test: NameTest::EndsWith,
            pattern: "-setup.exe"@,
            category: DownloadCategory::WindowsInstaller,
        },
        RuleModel {
            test: NameTest::EndsWith,
            pattern: ".exe"@,
            category: DownloadCategory::WindowsPortable,
        },
        RuleModel {
            test: NameTest::Contains,
            pattern: "-macOS"@,
            category: DownloadCategory::MacPortable,
        },
        RuleModel {
            test: NameTest::Contains,
            pattern: "-Linux"@,
            category: DownloadCategory::LinuxPortable,
        },
    ]
}

impl Rule {
    /// The rule that gives `category` to the names that pass `test` on
    /// `pattern`.
    pub fn new(test: NameTest, pattern: &str, category: DownloadCategory) -> (rule: Rule)
        ensures
            rule@ == (RuleModel { test, pattern: pattern@, category }),
    {
        Rule { test, pattern: to_chars(pattern), category }
    }

    /// Whether `name` passes this rule's test.
    pub fn applies(&self, name: &Vec<char>) -> (passes: bool)
        ensures
            passes == self@.matches(name@),
    {
        match self.test {
            NameTest::EndsWith => chars_end_with(name, &self.pattern),
            NameTest::Contains => chars_contain(name, &self.pattern),
        }
    }
}

/// The rules in their order of priority.
pub fn rules() -> (table: Vec<Rule>)
    ensures
        models_of(table@) == rule_table(),
{
    let mut table: Vec<Rule> = Vec::new();
    table.push(Rule::new(NameTest::EndsWith, ".dmg", DownloadCategory::MacInstaller));
    table.push(Rule::new(NameTest::EndsWith, ".AppImage", DownloadCategory::LinuxAppImage));
    table.push(Rule::new(NameTest::EndsWith, ".deb", DownloadCategory::LinuxDebianInstaller));
    table.push(Rule::new(NameTest::EndsWith, "-setup.exe", DownloadCategory::WindowsInstaller));
    table.push(Rule::new(NameTest::EndsWith, ".exe", DownloadCategory::WindowsPortable));
    table.push(Rule::new(NameTest::Contains, "-macOS", DownloadCategory::MacPortable));
    table.push(Rule::new(NameTest::Contains, "-Linux", DownloadCategory::LinuxPortable));
    assert(models_of(table@) =~= rule_table());
    table
}

/// Tries the rules in order and gives the category of the first that
/// `name` passes, or none where it passes no rule.
pub fn first_matching(rules: &Vec<Rule>, name: &Vec<char>) -> (category: Option<DownloadCategory>)
    ensures
        category == first_match(models_of(rules@), name@, 0),
{
    let mut i: usize = 0;
    while i < rules.len()
        invariant
            i <= rules.len(),
            first_match(models_of(rules@), name@, 0) == first_match(
                models_of(rules@),
                name@,
                i as int,
            ),
        decreases rules.len() - i,
    {
        if rules[i].applies(name) {
            return Some(rules[i].category);
        }
        i = i + 1;
    }
    None
}

/// Going through the rules in order is the chain of tests that defines a
/// name's category.
pub proof fn lemma_rules_in_order(name: Seq<char>)
    ensures
        first_match(rule_table(), name, 0) == category_of(name),
{
    reveal_with_fuel(first_match, 8);
}

/// Assigns a file name to its category, or to none.
pub fn classify_name(name: &str) -> (category: Option<DownloadCategory>)
    ensures
        category == category_of(name@),
{
    let table = rules();
    let chars = to_chars(name);
    proof {
        lemma_rules_in_order(name@);
    }
    first_matching(&table, &chars)
}

/// The installer rule comes before the portable rule: a name that ends with
/// `-setup.exe` is a Windows installer, though it ends with `.exe` too.
pub proof fn lemma_setup_exe_is_installer(name: Seq<char>)
    requires
        is_suffix("-setup.exe"@, name),
    ensures
        is_suffix(".exe"@, name),
        category_of(name) == Some(DownloadCategory::WindowsInstaller),
{
    reveal_strlit("-setup.exe");
    reveal_strlit(".exe");
    reveal_strlit(".dmg");
    reveal_strlit(".AppImage");
    reveal_strlit(".deb");
    let n = name.len() as int;
    let tail = name.subrange(n - 10, n);
    assert(tail[9] == 'e' && tail[8] == 'x' && tail[7] == 'e' && tail[6] == '.');
    assert(name.subrange(n - 4, n) =~= ".exe"@);
    if is_suffix(".dmg"@, name) {
        assert(name.subrange(n - 4, n)[3] == 'g');
    }
    if is_suffix(".AppImage"@, name) {
        assert(name.subrange(n - 9, n)[7] == 'g');
    }
    if is_suffix(".deb"@, name) {
        assert(name.subrange(n - 4, n)[3] == 'b');
    }
}

/// Every rule asks for at least one character: the empty name has no
/// category.
pub proof fn lemma_empty_name_has_no_category()
    ensures
        category_of(Seq::<char>::empty()) is None,
{
    reveal_strlit(".dmg");
    reveal_strlit(".AppImage");
    reveal_strlit(".deb");
    reveal_strlit("-setup.exe");
    reveal_strlit(".exe");
    reveal_strlit("-macOS");
    reveal_strlit("-Linux");
}

} // verus!
