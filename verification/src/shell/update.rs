//! Looking for a newer version.

use vstd::prelude::*;

verus! {

/// What came of asking for the latest release.
#[derive(Debug, PartialEq, Eq)]
pub enum ReleaseCheck {
    /// Its tag, and whether that is newer than this version.
    Tag { tag: String, newer: bool },
    /// There was no answer to be read.
    NoInfo,
    /// The request failed, for this reason.
    Failed(String),
    /// The task that made the request failed, for this reason.
    TaskFailed(String),
}

/// What the user is shown.
#[derive(Debug, PartialEq, Eq)]
pub struct UpdateStatus {
    pub text: String,
    /// Whether a newer version can be downloaded.
    pub available: bool,
    /// The tag of the newer version, or nothing.
    pub latest: String,
}

/// `s` without the letters `v` at its front.
pub open spec fn without_v(s: Seq<char>) -> Seq<char>
    decreases s.len(),
{
    if s.len() > 0 && s[0] == 'v' {
        without_v(s.drop_first())
    } else {
        s
    }
}

/// The version that a tag names.
pub fn version_of_tag(tag: &str) -> (r: String)
    ensures
        r@ == without_v(tag@),
{
    let v = crate::text::chars_of(tag);
    let mut from: usize = 0;
    assert(v@.subrange(0, v@.len() as int) =~= v@);
    while from < v.len() && v[from] == 'v'
        invariant
            v@ == tag@,
            from <= v@.len(),
            without_v(tag@) == without_v(v@.subrange(from as int, v@.len() as int)),
        decreases v@.len() - from,
    {
        assert(v@.subrange(from as int, v@.len() as int).drop_first() =~= v@.subrange(
            from + 1,
            v@.len() as int,
        ));
        from = from + 1;
    }
    crate::text::string_of(&v, from, v.len())
}

/// What the user is told.
pub open spec fn update_text(check: ReleaseCheck, current: Seq<char>) -> Seq<char> {
    match check {
        ReleaseCheck::Tag { tag, newer } => if newer {
            "发现新版本 "@ + tag@
        } else {
            "已是最新版本（v"@ + current + "）"@
        },
        ReleaseCheck::NoInfo => "无法获取版本信息（可能无网络或接口限流）"@,
        ReleaseCheck::Failed(reason) => "检查更新失败："@ + reason@,
        ReleaseCheck::TaskFailed(reason) => "检查更新任务异常："@ + reason@,
    }
}

/// What the user is shown, and what is noted of the check.
pub fn update_status(check: ReleaseCheck, current: &str) -> (r: (UpdateStatus, &'static str))
    ensures
        r.0.text@ == update_text(check, current@),
        r.0.available == (check matches ReleaseCheck::Tag { tag, newer } && newer),
        r.0.latest@ == (match check {
            ReleaseCheck::Tag { tag, newer } => if newer {
                tag@
            } else {
                Seq::empty()
            },
            _ => Seq::empty(),
        }),
        r.1@ == (if r.0.available {
            "发现新版本"@
        } else {
            "完成"@
        }),
{
    match check {
        ReleaseCheck::Tag { tag, newer } => {
            if newer {
                let mut text = "发现新版本 ".to_owned();
                text.append(tag.as_str());
                (UpdateStatus { text, available: true, latest: tag }, "发现新版本")
            } else {
                let mut text = "已是最新版本（v".to_owned();
                text.append(current);
                text.append("）");
                (UpdateStatus { text, available: false, latest: String::new() }, "完成")
            }
        },
        ReleaseCheck::NoInfo => (
            UpdateStatus {
                text: "无法获取版本信息（可能无网络或接口限流）".to_owned(),
                available: false,
                latest: String::new(),
            },
            "完成",
        ),
        ReleaseCheck::Failed(reason) => {
            let mut text = "检查更新失败：".to_owned();
            text.append(reason.as_str());
            (UpdateStatus { text, available: false, latest: String::new() }, "完成")
        },
        ReleaseCheck::TaskFailed(reason) => {
            let mut text = "检查更新任务异常：".to_owned();
            text.append(reason.as_str());
            (UpdateStatus { text, available: false, latest: String::new() }, "完成")
        },
    }
}

/// The version of a tag is the tag without every letter `v` at its front.
pub proof fn law_version_follows_the_letter(count: nat, version: Seq<char>)
    requires
        version.len() == 0 || version[0] != 'v',
    ensures
        without_v(Seq::new(count, |i: int| 'v') + version) == version,
    decreases count,
{
    let tag = Seq::new(count, |i: int| 'v') + version;
    if count == 0 {
        assert(tag =~= version);
    } else {
        let fewer = (count - 1) as nat;
        assert(tag.drop_first() =~= Seq::new(fewer, |i: int| 'v') + version);
        assert(tag[0] == 'v');
        law_version_follows_the_letter(fewer, version);
    }
}

/// The user is told of a newer version with its tag, and otherwise that the current one is
/// the newest, or why nothing is known.
pub proof fn law_newer_version_is_told(
    tag: String,
    reason: String,
    current: Seq<char>,
)
    ensures
        update_text(ReleaseCheck::Tag { tag, newer: true }, current) == "发现新版本 "@ + tag@,
        update_text(ReleaseCheck::Tag { tag, newer: false }, current) == "已是最新版本（v"@
            + current + "）"@,
        update_text(ReleaseCheck::Failed(reason), current) == "检查更新失败："@ + reason@,
        update_text(ReleaseCheck::TaskFailed(reason), current) == "检查更新任务异常："@ + reason@,
{
}

} // verus!
