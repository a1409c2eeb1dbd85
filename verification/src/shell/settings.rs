//! The settings: directories, options of the port hunter, rules of the popup blocker.

use crate::config::{resolve_app_path, texts, DEFAULT_TERMINAL_LOG_DIR};
use crate::logging::DEFAULT_LOG_DIR;
use crate::paths::placed;
use crate::modules::popup_blocker::{
    compiled, law_every_rule_closes_its_windows, window_action,
};
use crate::text::{
    blank, copy_texts, decimal, decimal_of, law_trimmed_is_the_middle, lowercase, same_text, trim,
    trimmed, white_space,
};
use vstd::prelude::*;

verus! {

// ---------------------------------------------------------------------------
// Directories
// ---------------------------------------------------------------------------

/// Where pictures of blocked windows go by default, beside the executable.
pub const DEFAULT_SCREENSHOT_DIR: &'static str = "logs/popup_screenshots";

/// The directories that can be set.
#[derive(Debug, Clone, Copy, PartialEq, Eq, Structural)]
pub enum DirKey {
    AppLog,
    TerminalLog,
    PopupScreenshot,
}

/// The directory that a key names.
pub open spec fn key_of(text: Seq<char>) -> Option<DirKey> {
    if text == "app_log"@ {
        Some(DirKey::AppLog)
    } else if text == "terminal_log"@ {
        Some(DirKey::TerminalLog)
    } else if text == "popup_screenshot"@ {
        Some(DirKey::PopupScreenshot)
    } else {
        None
    }
}

/// The directory that a key names.
pub fn parse_dir_key(text: &str) -> (r: Option<DirKey>)
    ensures
        r == key_of(text@),
{
    if same_text(text, "app_log") {
        Some(DirKey::AppLog)
    } else if same_text(text, "terminal_log") {
        Some(DirKey::TerminalLog)
    } else if same_text(text, "popup_screenshot") {
        Some(DirKey::PopupScreenshot)
    } else {
        None
    }
}

/// The directories as they are set; one that is not set is the default one.
#[derive(Debug, PartialEq, Eq)]
pub struct DirSettings {
    pub app_log_dir: Option<String>,
    pub terminal_log_dir: Option<String>,
    pub popup_screenshot_dir: Option<String>,
}

impl DirSettings {
    /// The setting of one directory.
    pub open spec fn setting(self, key: DirKey) -> Option<String> {
        match key {
            DirKey::AppLog => self.app_log_dir,
            DirKey::TerminalLog => self.terminal_log_dir,
            DirKey::PopupScreenshot => self.popup_screenshot_dir,
        }
    }

    /// The path of one directory, before it is placed.
    pub open spec fn path_text(self, key: DirKey) -> Seq<char> {
        match self.setting(key) {
            Some(dir) => dir@,
            None => match key {
                DirKey::AppLog => DEFAULT_LOG_DIR@,
                DirKey::TerminalLog => DEFAULT_TERMINAL_LOG_DIR@,
                DirKey::PopupScreenshot => DEFAULT_SCREENSHOT_DIR@,
            },
        }
    }

    /// The path of one directory, before it is placed.
    pub fn sub_path(&self, key: DirKey) -> (r: &str)
        ensures
            r@ == self.path_text(key),
    {
        let setting = match key {
            DirKey::AppLog => &self.app_log_dir,
            DirKey::TerminalLog => &self.terminal_log_dir,
            DirKey::PopupScreenshot => &self.popup_screenshot_dir,
        };
        match setting {
            Some(dir) => dir.as_str(),
            None => match key {
                DirKey::AppLog => DEFAULT_LOG_DIR,
                DirKey::TerminalLog => DEFAULT_TERMINAL_LOG_DIR,
                DirKey::PopupScreenshot => DEFAULT_SCREENSHOT_DIR,
            },
        }
    }

    /// Where one directory is, as [`resolve_app_path`] places it. A key that names no
    /// directory is taken for that of the pictures.
    pub fn effective_dir_for_key(&self, key: &str, exe_dir: Option<&str>) -> (r: String)
        ensures
            placed(
                exe_dir,
                self.path_text(
                    match key_of(key@) {
                        Some(k) => k,
                        None => DirKey::PopupScreenshot,
                    },
                ),
                r@,
            ),
    {
        let named = match parse_dir_key(key) {
            Some(named) => named,
            None => DirKey::PopupScreenshot,
        };
        resolve_app_path(self.sub_path(named), exe_dir)
    }

    /// Sets the directory that a key names and returns whether it names one.
    pub fn set_dir_field(&mut self, key: &str, value: Option<String>) -> (r: bool)
        ensures
            r == (key_of(key@) is Some),
            forall|k: DirKey| #[trigger]
                final(self).setting(k) == (if key_of(key@) == Some(k) {
                    value
                } else {
                    old(self).setting(k)
                }),
    {
        match parse_dir_key(key) {
            Some(DirKey::AppLog) => {
                self.app_log_dir = value;
                true
            },
            Some(DirKey::TerminalLog) => {
                self.terminal_log_dir = value;
                true
            },
            Some(DirKey::PopupScreenshot) => {
                self.popup_screenshot_dir = value;
                true
            },
            None => false,
        }
    }
}

/// The title under which a directory is chosen.
pub fn dir_setting_title(key: &str) -> (r: &'static str)
    ensures
        r@ == (match key_of(key@) {
            Some(DirKey::AppLog) => "选择应用日志目录（程序运行日志 + 用户操作审计）"@,
            Some(DirKey::TerminalLog) =>
                "选择终端交互日志目录（PowerShell / bash / cmd 会话记录）"@,
            _ => "选择弹窗截图目录（拦截留痕 PNG）"@,
        }),
{
    match parse_dir_key(key) {
        Some(DirKey::AppLog) => "选择应用日志目录（程序运行日志 + 用户操作审计）",
        Some(DirKey::TerminalLog) => "选择终端交互日志目录（PowerShell / bash / cmd 会话记录）",
        _ => "选择弹窗截图目录（拦截留痕 PNG）",
    }
}

// ---------------------------------------------------------------------------
// Options of the port hunter
// ---------------------------------------------------------------------------

/// The options of the port hunter.
#[derive(Debug, Clone, Copy, PartialEq, Eq, Structural)]
pub struct PortHunterOptions {
    /// Ask before a process is ended.
    pub confirm_before_kill: bool,
    pub show_system_ports: bool,
}

impl PortHunterOptions {
    /// Sets the option that a field names and returns whether it names one.
    pub fn set_option(&mut self, field: &str, value: bool) -> (r: bool)
        ensures
            r == (field@ == "confirm"@ || field@ == "system"@),
            *final(self) == (if field@ == "confirm"@ {
                PortHunterOptions {
                    confirm_before_kill: value,
                    show_system_ports: old(self).show_system_ports,
                }
            } else if field@ == "system"@ {
                PortHunterOptions {
                    confirm_before_kill: old(self).confirm_before_kill,
                    show_system_ports: value,
                }
            } else {
                *old(self)
            }),
    {
        if same_text(field, "confirm") {
            self.confirm_before_kill = value;
            true
        } else if same_text(field, "system") {
            self.show_system_ports = value;
            true
        } else {
            false
        }
    }
}

/// Whether the ports are listed anew after an option was set: where it calls for that,
/// and only once it is saved.
pub fn rescans_after(rescan: bool, saved: &Result<(), String>) -> (r: bool)
    ensures
        r == (rescan && saved is Ok),
{
    match saved {
        Ok(_) => rescan,
        Err(_) => false,
    }
}

// ---------------------------------------------------------------------------
// Rules of the popup blocker
// ---------------------------------------------------------------------------

/// The rules with the text of one more at their end; nothing for a blank one.
pub open spec fn rules_with(rules: Seq<Seq<char>>, text: Seq<char>) -> Option<Seq<Seq<char>>> {
    if trimmed(text).len() > 0 {
        Some(rules.push(trimmed(text)))
    } else {
        None
    }
}

/// The rules with one more at their end; nothing for a blank one.
pub fn with_rule(rules: &[String], text: &str) -> (r: Option<Vec<String>>)
    ensures
        match r {
            Some(new) => rules_with(texts(rules@), text@) == Some(texts(new@)),
            None => rules_with(texts(rules@), text@) is None,
        },
{
    let keyword = trim(text);
    if keyword.as_str().is_empty() {
        return None;
    }
    let mut new = copy_texts(rules);
    new.push(keyword);
    assert(texts(new@) =~= texts(rules@).push(trimmed(text@)));
    Some(new)
}

/// The place of the first rule with this text.
pub open spec fn rule_at(rules: Seq<Seq<char>>, text: Seq<char>) -> Option<int>
    decreases rules.len(),
{
    if rules.len() == 0 {
        None
    } else {
        match rule_at(rules.drop_last(), text) {
            Some(i) => Some(i),
            None => if rules.last() == text {
                Some(rules.len() - 1)
            } else {
                None
            },
        }
    }
}

/// The place of the rule to remove: that of the text which the user saw in the row,
/// or else that of the row.
pub open spec fn removal_place(
    rules: Seq<Seq<char>>,
    visible: Option<Seq<char>>,
    row: int,
) -> int {
    match visible {
        Some(text) => match rule_at(rules, text) {
            Some(i) => i,
            None => row,
        },
        None => row,
    }
}

/// The place of the first rule with this text.
fn find_rule(rules: &[String], text: &str) -> (r: Option<usize>)
    ensures
        match r {
            Some(i) => i < rules@.len() && rule_at(texts(rules@), text@) == Some(i as int)
                && rules@[i as int]@ == text@,
            None => rule_at(texts(rules@), text@) is None,
        },
{
    let ghost list = texts(rules@);
    let mut i: usize = 0;
    while i < rules.len()
        invariant
            i <= rules@.len(),
            list == texts(rules@),
            rule_at(list.take(i as int), text@) is None,
        decreases rules@.len() - i,
    {
        proof {
            assert(list.take(i + 1).drop_last() =~= list.take(i as int));
            assert(list.take(i + 1).last() == rules@[i as int]@);
        }
        if same_text(rules[i].as_str(), text) {
            proof {
                lemma_rule_in_prefix(list, text@, i + 1);
            }
            return Some(i);
        }
        i = i + 1;
    }
    assert(list.take(i as int) =~= list);
    None
}

proof fn lemma_rule_in_prefix(rules: Seq<Seq<char>>, text: Seq<char>, n: int)
    requires
        0 <= n <= rules.len(),
        rule_at(rules.take(n), text) is Some,
    ensures
        rule_at(rules, text) == rule_at(rules.take(n), text),
    decreases rules.len() - n,
{
    if n < rules.len() {
        assert(rules.take(n + 1).drop_last() =~= rules.take(n));
        lemma_rule_in_prefix(rules, text, n + 1);
    } else {
        assert(rules.take(n) =~= rules);
    }
}

/// The rules without the one to remove, and that one; nothing where the row is beyond
/// the list.
pub fn without_rule(rules: &[String], visible: Option<&str>, row: usize) -> (r: Option<
    (Vec<String>, String),
>)
    ensures
        ({
            let place = removal_place(
                texts(rules@),
                match visible {
                    Some(text) => Some(text@),
                    None => None,
                },
                row as int,
            );
            match r {
                Some(result) => 0 <= place < rules@.len() && result.0@ == rules@.remove(place)
                    && result.1 == rules@[place],
                None => place >= rules@.len(),
            }
        }),
{
    let found = match visible {
        Some(text) => find_rule(rules, text),
        None => None,
    };
    let place: usize = match found {
        Some(i) => i,
        None => row,
    };
    if place >= rules.len() {
        return None;
    }
    let mut left = copy_texts(rules);
    let removed = left.remove(place);
    Some((left, removed))
}

/// A rule that the user saw is the one that is removed, whatever its row is by now.
pub proof fn law_visible_rule_is_removed(rules: Seq<Seq<char>>, text: Seq<char>, row: int)
    requires
        rules.contains(text),
    ensures
        0 <= removal_place(rules, Some(text), row) < rules.len(),
        rules[removal_place(rules, Some(text), row)] == text,
{
    lemma_rule_found(rules, text);
}

proof fn lemma_rule_found(rules: Seq<Seq<char>>, text: Seq<char>)
    ensures
        rules.contains(text) ==> rule_at(rules, text) is Some,
        rule_at(rules, text) matches Some(i) ==> 0 <= i < rules.len() && rules[i] == text,
    decreases rules.len(),
{
    if rules.len() > 0 {
        let before = rules.drop_last();
        lemma_rule_found(before, text);
        if rules.contains(text) && rules.last() != text {
            let k = choose|k: int| 0 <= k < rules.len() && rules[k] == text;
            assert(before[k] == text);
        }
    }
}

// ---------------------------------------------------------------------------
// Names of layouts
// ---------------------------------------------------------------------------

/// The name of a layout that is saved: what was entered, or one by the moment where that is
/// blank.
pub open spec fn name_of_layout(entered: Seq<char>, seconds: u64) -> Seq<char> {
    if trimmed(entered).len() > 0 {
        trimmed(entered)
    } else {
        "布局-"@ + decimal(seconds as nat)
    }
}

/// The name of a layout: what the user entered, or one made of the seconds since 1970
/// where that is blank.
pub fn profile_name(entered: &str, seconds: u64) -> (r: String)
    ensures
        r@ == name_of_layout(entered@, seconds),
{
    let name = trim(entered);
    if name.as_str().is_empty() {
        let mut r = "布局-".to_owned();
        r.append(decimal_of(seconds as u128).as_str());
        r
    } else {
        name
    }
}

/// A rule that is entered is added at the end as it is entered, without the white space
/// around it, and the others stay; a blank one is not.
pub proof fn law_entered_rule_is_added(
    rules: Seq<Seq<char>>,
    left: Seq<char>,
    keyword: Seq<char>,
    right: Seq<char>,
)
    requires
        blank(left),
        blank(right),
        keyword.len() > 0 ==> !white_space(keyword[0]) && !white_space(keyword.last()),
    ensures
        keyword.len() > 0 ==> rules_with(rules, left + keyword + right) == Some(
            rules.push(keyword),
        ),
        keyword.len() == 0 ==> rules_with(rules, left + keyword + right) is None,
{
    law_trimmed_is_the_middle(left, keyword, right);
}

/// A rule that was added closes the windows that hold its text.
pub proof fn law_added_rule_closes_windows(
    rules: Seq<Seq<char>>,
    text: Seq<char>,
    new: Seq<String>,
    title: Seq<char>,
    class_name: Seq<char>,
    before: Seq<char>,
    after: Seq<char>,
)
    requires
        rules_with(rules, text) == Some(texts(new)),
        lowercase(title) == before + lowercase(trimmed(text)) + after || lowercase(class_name)
            == before + lowercase(trimmed(text)) + after,
    ensures
        window_action(compiled(new), title, class_name, false) is Close,
{
    let keyword = trimmed(text);
    let last = new.len() - 1;
    assert(texts(new).len() == new.len());
    assert(texts(new)[last] == keyword);
    assert(new[last]@ == Seq::<char>::empty() + keyword + Seq::<char>::empty());
    crate::text::lemma_trimmed_ends(text);
    law_every_rule_closes_its_windows(
        new,
        last,
        Seq::empty(),
        keyword,
        Seq::empty(),
        title,
        class_name,
        false,
        before,
        after,
    );
}

/// The rule that is removed is the first with the text that the user sees; where no rule
/// has that text any more, or none is seen, it is the one in the row.
pub proof fn law_first_rule_with_the_text_is_removed(
    rules: Seq<Seq<char>>,
    text: Seq<char>,
    row: int,
    i: int,
)
    ensures
        0 <= i < rules.len() && rules[i] == text && (forall|k: int|
            0 <= k < i ==> #[trigger] rules[k] != text) ==> removal_place(rules, Some(text), row)
            == i,
        !rules.contains(text) ==> removal_place(rules, Some(text), row) == row,
        removal_place(rules, None, row) == row,
{
    lemma_first_rule(rules, text, i);
    lemma_rule_found(rules, text);
    if rule_at(rules, text) is Some {
        assert(rules.contains(text));
    }
}

proof fn lemma_first_rule(rules: Seq<Seq<char>>, text: Seq<char>, i: int)
    ensures
        0 <= i < rules.len() && rules[i] == text && (forall|k: int|
            0 <= k < i ==> #[trigger] rules[k] != text) ==> rule_at(rules, text) == Some(i),
    decreases rules.len(),
{
    if rules.len() > 0 {
        let front = rules.drop_last();
        assert forall|k: int| 0 <= k < front.len() implies #[trigger] front[k] == rules[k] by {}
        lemma_first_rule(front, text, i);
        lemma_rule_found(front, text);
    }
}

/// Each of the three keys names its directory, and no other text names one.
pub proof fn law_keys_of_directories(text: Seq<char>, dirs: DirSettings)
    ensures
        key_of("app_log"@) == Some(DirKey::AppLog),
        key_of("terminal_log"@) == Some(DirKey::TerminalLog),
        key_of("popup_screenshot"@) == Some(DirKey::PopupScreenshot),
        key_of(text) is Some ==> text == "app_log"@ || text == "terminal_log"@ || text
            == "popup_screenshot"@,
        dirs.app_log_dir matches Some(dir) ==> dirs.path_text(DirKey::AppLog) == dir@,
        dirs.terminal_log_dir matches Some(dir) ==> dirs.path_text(DirKey::TerminalLog) == dir@,
        dirs.popup_screenshot_dir matches Some(dir) ==> dirs.path_text(DirKey::PopupScreenshot)
            == dir@,
        dirs.app_log_dir is None ==> dirs.path_text(DirKey::AppLog) == "logs"@,
        dirs.terminal_log_dir is None ==> dirs.path_text(DirKey::TerminalLog)
            == "logs/terminals"@,
        dirs.popup_screenshot_dir is None ==> dirs.path_text(DirKey::PopupScreenshot)
            == "logs/popup_screenshots"@,
{
    reveal_strlit("app_log");
    reveal_strlit("terminal_log");
    reveal_strlit("popup_screenshot");
    assert("app_log"@.len() != "terminal_log"@.len());
    assert("app_log"@.len() != "popup_screenshot"@.len());
    assert("terminal_log"@.len() != "popup_screenshot"@.len());
}

/// A layout has the name that was entered, without the white space around it; only a blank
/// one is replaced by one that tells the moment.
pub proof fn law_layout_has_the_entered_name(
    left: Seq<char>,
    name: Seq<char>,
    right: Seq<char>,
    seconds: u64,
)
    requires
        blank(left),
        blank(right),
        name.len() > 0 ==> !white_space(name[0]) && !white_space(name.last()),
    ensures
        name.len() > 0 ==> name_of_layout(left + name + right, seconds) == name,
        name.len() == 0 ==> name_of_layout(left + name + right, seconds) == "布局-"@ + decimal(
            seconds as nat,
        ),
{
    law_trimmed_is_the_middle(left, name, right);
}

} // verus!
