//! The list of windows that can be kept on top.

use crate::seqs::{lemma_filter_all, lemma_filter_take};
use crate::text::{
    contains, has_substring, hex, hex_of, law_part_is_found, lowercase, to_lowercase, trim,
    trimmed,
};
use vstd::prelude::*;

verus! {

/// A window that can be kept on top.
#[derive(Debug, PartialEq, Eq)]
pub struct WindowInfo {
    pub hwnd: u64,
    pub process_name: String,
    pub title: String,
    /// Whether the system keeps it on top.
    pub topmost: bool,
}

/// A window that the module keeps on top.
#[derive(Debug, PartialEq, Eq)]
pub struct PinnedWindow {
    pub hwnd: u64,
    pub process_name: String,
    pub priority: u8,
}

/// One row of the list of windows.
#[derive(Debug, PartialEq, Eq)]
pub struct TopmostWindowItem {
    /// The handle as text.
    pub hwnd: String,
    /// The low half of the handle, by which a row is found again.
    pub hwnd_value: i32,
    pub process_name: String,
    pub title: String,
    pub topmost: bool,
    pub priority: i32,
    pub pinned: bool,
}

impl Clone for TopmostWindowItem {
    fn clone(&self) -> (r: Self)
        ensures
            r == *self,
    {
        TopmostWindowItem {
            hwnd: self.hwnd.clone(),
            hwnd_value: self.hwnd_value,
            process_name: self.process_name.clone(),
            title: self.title.clone(),
            topmost: self.topmost,
            priority: self.priority,
            pinned: self.pinned,
        }
    }
}

/// The low 32 bits of a handle, read as a signed number.
pub open spec fn low_half(hwnd: u64) -> int {
    let low = hwnd as int % 0x1_0000_0000;
    if low < 0x8000_0000 {
        low
    } else {
        low - 0x1_0000_0000
    }
}

/// The low 32 bits of a handle, read as a signed number.
pub fn handle_value(hwnd: u64) -> (r: i32)
    ensures
        r == low_half(hwnd),
{
    let low: i64 = (hwnd % 0x1_0000_0000) as i64;
    if low < 0x8000_0000 {
        low as i32
    } else {
        (low - 0x1_0000_0000) as i32
    }
}

/// The handle whose low 32 bits are this number, extended by its sign.
pub open spec fn handle_of(value: i32) -> int {
    if value >= 0 {
        value as int
    } else {
        value + 0x1_0000_0000_0000_0000
    }
}

/// The handle whose low 32 bits are this number, extended by its sign.
pub fn handle_from_value(value: i32) -> (r: u64)
    ensures
        r == handle_of(value),
{
    if value >= 0 {
        value as u64
    } else {
        (value as i128 + 0x1_0000_0000_0000_0000) as u64
    }
}

/// A row leads back to the window it was made of: window handles have 32 significant
/// bits, and of those no two have the same value.
pub proof fn law_handle_is_found_again(hwnd: u64, value: i32)
    ensures
        low_half(handle_of(value) as u64) == value,
        hwnd < 0x8000_0000 ==> handle_of(low_half(hwnd) as i32) == hwnd,
        hwnd >= 0xFFFF_FFFF_8000_0000 ==> handle_of(low_half(hwnd) as i32) == hwnd,
{
}

/// The first of the pinned windows with this handle.
pub open spec fn pinned_entry(pinned: Seq<PinnedWindow>, hwnd: u64) -> Option<PinnedWindow>
    decreases pinned.len(),
{
    if pinned.len() == 0 {
        None
    } else if pinned[0].hwnd == hwnd {
        Some(pinned[0])
    } else {
        pinned_entry(pinned.drop_first(), hwnd)
    }
}

/// The first of the pinned windows with this handle.
pub fn find_pinned(pinned: &[PinnedWindow], hwnd: u64) -> (r: Option<&PinnedWindow>)
    ensures
        match pinned_entry(pinned@, hwnd) {
            Some(entry) => r == Some(&entry),
            None => r is None,
        },
{
    let mut i: usize = 0;
    assert(pinned@.skip(0) =~= pinned@);
    while i < pinned.len()
        invariant
            i <= pinned@.len(),
            pinned_entry(pinned@, hwnd) == pinned_entry(pinned@.skip(i as int), hwnd),
        decreases pinned@.len() - i,
    {
        assert(pinned@.skip(i as int)[0] == pinned@[i as int]);
        if pinned[i].hwnd == hwnd {
            return Some(&pinned[i]);
        }
        assert(pinned@.skip(i as int).drop_first() =~= pinned@.skip(i + 1));
        i = i + 1;
    }
    None
}

/// The priority that a row shows: that of the pinned window, else the one that is
/// remembered for its process, else the default one.
pub open spec fn shown_priority(
    entry: Option<PinnedWindow>,
    remembered: Option<u8>,
    default_priority: u8,
) -> int {
    if entry is Some {
        entry->0.priority as int
    } else if remembered is Some {
        remembered->0 as int
    } else {
        default_priority as int
    }
}

/// The row of a window.
pub fn topmost_row_from(
    window: &WindowInfo,
    pinned: &[PinnedWindow],
    remembered: Option<u8>,
    default_priority: u8,
) -> (r: TopmostWindowItem)
    ensures
        r.hwnd@ == "0x"@ + hex(window.hwnd as nat),
        r.hwnd_value == low_half(window.hwnd),
        r.process_name == window.process_name,
        r.title == window.title,
        r.topmost == window.topmost,
        r.priority == shown_priority(
            pinned_entry(pinned@, window.hwnd),
            remembered,
            default_priority,
        ),
        r.pinned == pinned_entry(pinned@, window.hwnd) is Some,
{
    let entry = find_pinned(pinned, window.hwnd);
    let priority: i32 = match entry {
        Some(entry) => entry.priority as i32,
        None => match remembered {
            Some(priority) => priority as i32,
            None => default_priority as i32,
        },
    };
    let mut hwnd = "0x".to_owned();
    hwnd.append(hex_of(window.hwnd).as_str());
    TopmostWindowItem {
        hwnd,
        hwnd_value: handle_value(window.hwnd),
        process_name: window.process_name.clone(),
        title: window.title.clone(),
        topmost: window.topmost,
        priority,
        pinned: entry.is_some(),
    }
}

/// Whether a row, its texts given in lower case, holds the needle.
pub fn row_holds(lower_process: &str, lower_title: &str, lower_hwnd: &str, needle: &str) -> (r:
    bool)
    ensures
        r == (has_substring(lower_process@, needle@) || has_substring(lower_title@, needle@)
            || has_substring(lower_hwnd@, needle@)),
{
    contains(lower_process, needle) || contains(lower_title, needle) || contains(
        lower_hwnd,
        needle,
    )
}

/// What a search keeps of the rows: with a needle, those whose process, title or
/// handle holds it in any case.
pub open spec fn window_found(needle: Seq<char>) -> spec_fn(TopmostWindowItem) -> bool {
    |row: TopmostWindowItem|
        needle.len() == 0 || has_substring(lowercase(row.process_name@), needle) || has_substring(
            lowercase(row.title@),
            needle,
        ) || has_substring(lowercase(row.hwnd@), needle)
}

/// The rows that a search finds; a blank one finds all.
pub fn filter_topmost_rows(rows: &[TopmostWindowItem], search: &str) -> (r: Vec<TopmostWindowItem>)
    ensures
        r@ == rows@.filter(window_found(lowercase(trimmed(search@)))),
        trimmed(search@).len() == 0 ==> r@ == rows@,
{
    let needle = to_lowercase(trim(search).as_str());
    proof {
        if trimmed(search@).len() == 0 {
            assert(needle@.len() == 0);
            lemma_filter_all(rows@, window_found(needle@));
        }
    }
    let mut r: Vec<TopmostWindowItem> = Vec::new();
    let ghost p = window_found(needle@);
    let mut i: usize = 0;
    assert(rows@.take(0).filter(p) =~= Seq::<TopmostWindowItem>::empty()) by {
        reveal(Seq::filter);
    }
    while i < rows.len()
        invariant
            i <= rows@.len(),
            p == window_found(needle@),
            r@ == rows@.take(i as int).filter(p),
        decreases rows@.len() - i,
    {
        let row = &rows[i];
        proof {
            lemma_filter_take(rows@, p, i as int);
        }
        if needle.as_str().is_empty() || row_holds(
            to_lowercase(row.process_name.as_str()).as_str(),
            to_lowercase(row.title.as_str()).as_str(),
            to_lowercase(row.hwnd.as_str()).as_str(),
            needle.as_str(),
        ) {
            r.push(row.clone());
        }
        i = i + 1;
    }
    assert(rows@.take(i as int) =~= rows@);
    r
}

/// The priority of the row with this handle value, or the default one where there is
/// none.
pub open spec fn row_priority(
    rows: Seq<TopmostWindowItem>,
    hwnd_value: i32,
    default_priority: u8,
) -> int
    decreases rows.len(),
{
    if rows.len() == 0 {
        default_priority as int
    } else if rows[0].hwnd_value == hwnd_value {
        rows[0].priority as int
    } else {
        row_priority(rows.drop_first(), hwnd_value, default_priority)
    }
}

/// The priority with which a window is pinned: the one that its row shows.
pub fn priority_for(rows: &[TopmostWindowItem], hwnd_value: i32, default_priority: u8) -> (r: i32)
    ensures
        r == row_priority(rows@, hwnd_value, default_priority),
{
    let mut i: usize = 0;
    assert(rows@.skip(0) =~= rows@);
    while i < rows.len()
        invariant
            i <= rows@.len(),
            row_priority(rows@, hwnd_value, default_priority) == row_priority(
                rows@.skip(i as int),
                hwnd_value,
                default_priority,
            ),
        decreases rows@.len() - i,
    {
        assert(rows@.skip(i as int)[0] == rows@[i as int]);
        if rows[i].hwnd_value == hwnd_value {
            return rows[i].priority;
        }
        assert(rows@.skip(i as int).drop_first() =~= rows@.skip(i + 1));
        i = i + 1;
    }
    default_priority as i32
}

/// The number of a window in the list is the low half of its handle: it fits a signed
/// number and differs from the handle by a multiple of two to the thirty-second power.
pub proof fn law_number_is_the_low_half(hwnd: u64, other: u64)
    ensures
        i32::MIN <= low_half(hwnd) <= i32::MAX,
        (hwnd - low_half(hwnd)) % 0x1_0000_0000 == 0,
        low_half(hwnd) == low_half(other) ==> (hwnd - other) % 0x1_0000_0000 == 0,
{
}

/// A window is pinned where an entry has its handle; the first such entry counts.
pub proof fn law_first_entry_of_a_window_counts(pinned: Seq<PinnedWindow>, hwnd: u64, i: int)
    ensures
        0 <= i < pinned.len() && pinned[i].hwnd == hwnd && (forall|k: int|
            0 <= k < i ==> (#[trigger] pinned[k]).hwnd != hwnd) ==> pinned_entry(pinned, hwnd)
            == Some(pinned[i]),
        (forall|k: int| 0 <= k < pinned.len() ==> (#[trigger] pinned[k]).hwnd != hwnd)
            ==> pinned_entry(pinned, hwnd) is None,
    decreases pinned.len(),
{
    if pinned.len() > 0 {
        let rest = pinned.drop_first();
        assert forall|k: int| 0 <= k < rest.len() implies #[trigger] rest[k] == pinned[k + 1] by {}
        law_first_entry_of_a_window_counts(rest, hwnd, i - 1);
        if pinned[0].hwnd != hwnd {
            if 0 < i < pinned.len() && forall|k: int|
                0 <= k < i ==> (#[trigger] pinned[k]).hwnd != hwnd {
                assert forall|k: int| 0 <= k < i - 1 implies (#[trigger] rest[k]).hwnd != hwnd by {
                    assert(pinned[k + 1].hwnd != hwnd);
                }
            }
            if forall|k: int| 0 <= k < pinned.len() ==> (#[trigger] pinned[k]).hwnd != hwnd {
                assert forall|k: int| 0 <= k < rest.len() implies (#[trigger] rest[k]).hwnd
                    != hwnd by {
                    assert(pinned[k + 1].hwnd != hwnd);
                }
            }
        } else {
            assert(pinned[0].hwnd == hwnd);
        }
    }
}

/// The priority of a window is that of the first row with its number, and the usual one
/// where there is none.
pub proof fn law_priority_of_a_row(
    rows: Seq<TopmostWindowItem>,
    value: i32,
    usual: u8,
    i: int,
)
    ensures
        0 <= i < rows.len() && rows[i].hwnd_value == value && (forall|k: int|
            0 <= k < i ==> (#[trigger] rows[k]).hwnd_value != value) ==> row_priority(
            rows,
            value,
            usual,
        ) == rows[i].priority,
        (forall|k: int| 0 <= k < rows.len() ==> (#[trigger] rows[k]).hwnd_value != value)
            ==> row_priority(rows, value, usual) == usual,
    decreases rows.len(),
{
    if rows.len() > 0 {
        let rest = rows.drop_first();
        assert forall|k: int| 0 <= k < rest.len() implies #[trigger] rest[k] == rows[k + 1] by {}
        law_priority_of_a_row(rest, value, usual, i - 1);
        if rows[0].hwnd_value != value {
            if 0 < i < rows.len() && forall|k: int|
                0 <= k < i ==> (#[trigger] rows[k]).hwnd_value != value {
                assert forall|k: int| 0 <= k < i - 1 implies (#[trigger] rest[k]).hwnd_value
                    != value by {
                    assert(rows[k + 1].hwnd_value != value);
                }
            }
            if forall|k: int| 0 <= k < rows.len() ==> (#[trigger] rows[k]).hwnd_value != value {
                assert forall|k: int| 0 <= k < rest.len() implies (#[trigger] rest[k]).hwnd_value
                    != value by {
                    assert(rows[k + 1].hwnd_value != value);
                }
            }
        } else {
            assert(rows[0].hwnd_value == value);
        }
    }
}

/// The priority that is shown is that of the entry of a pinned window, else the one that
/// is remembered, else the usual one.
pub proof fn law_shown_priority(
    entry: PinnedWindow,
    remembered: u8,
    maybe: Option<u8>,
    usual: u8,
)
    ensures
        shown_priority(Some(entry), maybe, usual) == entry.priority,
        shown_priority(None, Some(remembered), usual) == remembered,
        shown_priority(None, None, usual) == usual,
{
}

/// A window is found where the needle stands anywhere in its process, in its title or in
/// its handle, in any case, and only there; without a needle every window is.
pub proof fn law_windows_are_found_by_any_part(
    row: TopmostWindowItem,
    needle: Seq<char>,
    before: Seq<char>,
    after: Seq<char>,
)
    ensures
        lowercase(row.process_name@) == before + needle + after || lowercase(row.title@) == before
            + needle + after || lowercase(row.hwnd@) == before + needle + after ==> window_found(
            needle,
        )(row),
        needle.len() == 0 ==> window_found(needle)(row),
        needle.len() > 0 && !has_substring(lowercase(row.process_name@), needle)
            && !has_substring(lowercase(row.title@), needle) && !has_substring(
            lowercase(row.hwnd@),
            needle,
        ) ==> !window_found(needle)(row),
{
    law_part_is_found(before, needle, after);
}

} // verus!
