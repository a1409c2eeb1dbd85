//! The icons of the desktop: recording where they are and working out where to put
//! them back.

use crate::config::{same_positions, IconCoordinate, IconMap, IconPosition};
use crate::text::{hex_of_width, hex_width};
use vstd::prelude::*;

verus! {

/// Why the icons could not be read or moved.
#[derive(Debug, PartialEq, Eq)]
pub enum ExplorerError {
    /// There is no such desktop on this platform.
    Unsupported,
    /// A call of the shell failed.
    Com(String),
}

impl ExplorerError {
    /// What the user is told.
    pub open spec fn text(self) -> Seq<char> {
        match self {
            ExplorerError::Unsupported => "桌面图标布局仅支持 Windows"@,
            ExplorerError::Com(message) => "Shell COM 操作失败: "@ + message@,
        }
    }

    /// What the user is told.
    pub fn to_string(&self) -> (r: String)
        ensures
            r@ == self.text(),
    {
        match self {
            ExplorerError::Unsupported => "桌面图标布局仅支持 Windows".to_owned(),
            ExplorerError::Com(message) => {
                let mut r = "Shell COM 操作失败: ".to_owned();
                r.append(message.as_str());
                r
            },
        }
    }
}

/// The error of a step of the shell that failed with this result code and message.
pub fn com_failure(step: &str, result_code: u32, message: &str) -> (r: ExplorerError)
    ensures
        r matches ExplorerError::Com(text) && text@ == step@ + "(HRESULT=0x"@ + hex_width(
            result_code as nat,
            8,
        ) + "): "@ + message@,
{
    let mut text = step.to_owned();
    text.append("(HRESULT=0x");
    text.append(hex_of_width(result_code, 8).as_str());
    text.append("): ");
    text.append(message);
    ExplorerError::Com(text)
}

/// What came of preparing a thread for the shell.
#[derive(Debug, Clone, Copy, PartialEq, Eq, Structural)]
pub enum Apartment {
    /// The thread is prepared and has to be cleaned up afterwards.
    Owned,
    /// Somebody else has prepared the thread; it is used as it is.
    Borrowed,
    /// The thread cannot be used.
    Failed,
}

/// The result code of a thread that somebody else has prepared: `0x80010106` read as a
/// signed number.
pub const RPC_E_CHANGED_MODE: i32 = -2147417850;

/// What came of preparing a thread, by the result code.
pub open spec fn apartment_by(result_code: i32) -> Apartment {
    if result_code >= 0 {
        Apartment::Owned
    } else if result_code == RPC_E_CHANGED_MODE {
        Apartment::Borrowed
    } else {
        Apartment::Failed
    }
}

/// What came of preparing a thread, by the result code.
pub fn apartment_of(result_code: i32) -> (r: Apartment)
    ensures
        r == apartment_by(result_code),
{
    if result_code >= 0 {
        Apartment::Owned
    } else if result_code == RPC_E_CHANGED_MODE {
        Apartment::Borrowed
    } else {
        Apartment::Failed
    }
}

/// Where the icons of a desktop are.
#[derive(Debug, PartialEq, Eq)]
pub struct DesktopLayout {
    pub positions: IconMap,
}

impl Clone for DesktopLayout {
    fn clone(&self) -> (r: Self)
        ensures
            same_positions(r.positions, self.positions),
            r.positions.count() == self.positions.count(),
    {
        DesktopLayout { positions: self.positions.clone() }
    }
}

impl Default for DesktopLayout {
    /// A desktop without icons.
    fn default() -> (r: Self)
        ensures
            forall|name: Seq<char>| r.positions.position(name) is None,
            r.positions.count() == 0,
    {
        DesktopLayout { positions: IconMap::new() }
    }
}

/// Reads where the icons are. Without Windows there are none to be read.
pub fn capture_layout() -> (r: Result<DesktopLayout, ExplorerError>)
    ensures
        r == Err::<DesktopLayout, ExplorerError>(ExplorerError::Unsupported),
{
    Err(ExplorerError::Unsupported)
}

/// Puts the icons where they were. Without Windows there are none to be moved.
pub fn restore_layout(layout: &DesktopLayout) -> (r: Result<(), ExplorerError>)
    ensures
        r == Err::<(), ExplorerError>(ExplorerError::Unsupported),
{
    let _ = layout;
    Err(ExplorerError::Unsupported)
}

/// The position of the last of `items` with this name.
pub open spec fn last_position(items: Seq<IconPosition>, name: Seq<char>) -> Option<IconCoordinate>
    decreases items.len(),
{
    if items.len() == 0 {
        None
    } else if items.last().name@ == name {
        Some(items.last().at)
    } else {
        last_position(items.drop_last(), name)
    }
}

/// The layout of the icons that were found. Of several with one name the last counts.
pub fn layout_of(items: &[IconPosition]) -> (r: DesktopLayout)
    ensures
        forall|name: Seq<char>| #[trigger]
            r.positions.position(name) == last_position(items@, name),
{
    let mut positions = IconMap::new();
    let mut i: usize = 0;
    while i < items.len()
        invariant
            i <= items@.len(),
            forall|name: Seq<char>| #[trigger]
                positions.position(name) == last_position(items@.take(i as int), name),
        decreases items@.len() - i,
    {
        let item = &items[i];
        proof {
            assert(items@.take(i + 1).drop_last() =~= items@.take(i as int));
            assert(items@.take(i + 1).last() == items@[i as int]);
        }
        positions.insert(item.name.clone(), item.at);
        i = i + 1;
    }
    assert(items@.take(i as int) =~= items@);
    DesktopLayout { positions }
}

/// Where to put the icons with these names: the number and the position of each that
/// the layout knows, in order.
pub open spec fn placements(layout: DesktopLayout, names: Seq<String>) -> Seq<
    (usize, IconCoordinate),
>
    decreases names.len(),
{
    if names.len() == 0 {
        Seq::empty()
    } else {
        let earlier = placements(layout, names.drop_last());
        match layout.positions.position(names.last()@) {
            Some(at) => earlier.push(((names.len() - 1) as usize, at)),
            None => earlier,
        }
    }
}

/// Where to put the icons with these names.
pub fn plan_placements(layout: &DesktopLayout, names: &[String]) -> (r: Vec<
    (usize, IconCoordinate),
>)
    ensures
        r@ == placements(*layout, names@),
{
    let mut r: Vec<(usize, IconCoordinate)> = Vec::new();
    let mut i: usize = 0;
    while i < names.len()
        invariant
            i <= names@.len(),
            r@ == placements(*layout, names@.take(i as int)),
        decreases names@.len() - i,
    {
        proof {
            assert(names@.take(i + 1).drop_last() =~= names@.take(i as int));
            assert(names@.take(i + 1).last() == names@[i as int]);
        }
        match layout.positions.get(names[i].as_str()) {
            Some(at) => r.push((i, at)),
            None => (),
        }
        i = i + 1;
    }
    assert(names@.take(i as int) =~= names@);
    r
}

/// Whether the icon with number `i` among `names` is put at `at`.
pub open spec fn is_placed(
    layout: DesktopLayout,
    names: Seq<String>,
    i: int,
    at: IconCoordinate,
) -> bool {
    exists|p: int|
        0 <= p < placements(layout, names).len() && #[trigger] placements(layout, names)[p] == (
            i as usize,
            at,
        )
}

/// Restoring a layout puts every icon that is still there where it was when the layout
/// was recorded, given that icons had different names then; and it moves no other icon.
pub proof fn law_restore_undoes_moves(
    layout: DesktopLayout,
    items: Seq<IconPosition>,
    names: Seq<String>,
)
    requires
        forall|name: Seq<char>| #[trigger]
            layout.positions.position(name) == last_position(items, name),
        forall|i: int, j: int|
            0 <= i < j < items.len() ==> (#[trigger] items[i]).name@ != (#[trigger] items[j]).name@,
        names.len() <= usize::MAX,
    ensures
        forall|i: int, k: int|
            0 <= i < names.len() && 0 <= k < items.len() && (#[trigger] names[i])@ == (
            #[trigger] items[k]).name@ ==> is_placed(layout, names, i, items[k].at),
        forall|p: int|
            0 <= p < placements(layout, names).len() ==> is_recorded(
                items,
                names,
                #[trigger] placements(layout, names)[p],
            ),
{
    assert forall|i: int, k: int|
        0 <= i < names.len() && 0 <= k < items.len() && (#[trigger] names[i])@ == (
        #[trigger] items[k]).name@ implies is_placed(layout, names, i, items[k].at) by {
        lemma_last_position(items, k);
        lemma_known_icon_is_placed(layout, names, i, items[k].at);
    }
    assert forall|p: int| 0 <= p < placements(layout, names).len() implies is_recorded(
        items,
        names,
        #[trigger] placements(layout, names)[p],
    ) by {
        lemma_placed_icon_is_known(layout, names, p);
        let (i, at) = placements(layout, names)[p];
        lemma_recorded(items, names[i as int]@);
    }
}

/// Whether an icon is put where one of its name was when the layout was recorded.
pub open spec fn is_recorded(
    items: Seq<IconPosition>,
    names: Seq<String>,
    placement: (usize, IconCoordinate),
) -> bool {
    &&& placement.0 < names.len()
    &&& exists|k: int|
        0 <= k < items.len() && (#[trigger] items[k]).name@ == names[placement.0 as int]@
            && items[k].at == placement.1
}

/// An icon whose name the layout knows is placed.
proof fn lemma_known_icon_is_placed(
    layout: DesktopLayout,
    names: Seq<String>,
    i: int,
    at: IconCoordinate,
)
    requires
        0 <= i < names.len(),
        layout.positions.position(names[i]@) == Some(at),
    ensures
        is_placed(layout, names, i, at),
    decreases names.len(),
{
    let before = names.drop_last();
    let placed = placements(layout, names);
    if i == names.len() - 1 {
        assert(placed[placed.len() - 1] == (i as usize, at));
    } else {
        lemma_known_icon_is_placed(layout, before, i, at);
        let p = choose|p: int|
            0 <= p < placements(layout, before).len() && #[trigger] placements(layout, before)[p]
                == (i as usize, at);
        assert(placed[p] == (i as usize, at));
    }
}

/// An icon that is placed has a name that the layout knows.
proof fn lemma_placed_icon_is_known(layout: DesktopLayout, names: Seq<String>, p: int)
    requires
        0 <= p < placements(layout, names).len(),
        names.len() <= usize::MAX,
    ensures
        placements(layout, names)[p].0 < names.len(),
        layout.positions.position(names[placements(layout, names)[p].0 as int]@) == Some(
            placements(layout, names)[p].1,
        ),
    decreases names.len(),
{
    let before = names.drop_last();
    if p < placements(layout, before).len() {
        lemma_placed_icon_is_known(layout, before, p);
        assert(placements(layout, names)[p] == placements(layout, before)[p]);
    }
}

/// A position that was recorded is that of an entry.
proof fn lemma_recorded(items: Seq<IconPosition>, name: Seq<char>)
    ensures
        last_position(items, name) matches Some(at) ==> exists|k: int|
            0 <= k < items.len() && (#[trigger] items[k]).name@ == name && items[k].at == at,
    decreases items.len(),
{
    if items.len() > 0 {
        let before = items.drop_last();
        lemma_recorded(before, name);
        if items.last().name@ == name {
            assert(items[items.len() - 1].name@ == name);
        } else if let Some(at) = last_position(before, name) {
            let k = choose|k: int|
                0 <= k < before.len() && (#[trigger] before[k]).name@ == name && before[k].at == at;
            assert(items[k].name@ == name && items[k].at == at);
        }
    }
}

/// The position of an icon whose name occurs once is that of its entry.
proof fn lemma_last_position(items: Seq<IconPosition>, i: int)
    requires
        0 <= i < items.len(),
        forall|a: int, b: int|
            0 <= a < b < items.len() ==> (#[trigger] items[a]).name@ != (#[trigger] items[b]).name@,
    ensures
        last_position(items, items[i].name@) == Some(items[i].at),
    decreases items.len(),
{
    let last = items.len() - 1;
    if i < last {
        let before = items.drop_last();
        assert(items[i].name@ != items[last].name@);
        assert forall|a: int, b: int| 0 <= a < b < before.len() implies (
        #[trigger] before[a]).name@ != (#[trigger] before[b]).name@ by {
            assert(items[a].name@ != items[b].name@);
        }
        lemma_last_position(before, i);
        assert(before[i] == items[i]);
    }
}

/// Of several icons with one name the last counts; a name that no icon has is not known.
pub proof fn law_last_icon_of_a_name_counts(items: Seq<IconPosition>, i: int, name: Seq<char>)
    ensures
        0 <= i < items.len() && items[i].name@ == name && (forall|k: int|
            i < k < items.len() ==> (#[trigger] items[k]).name@ != name) ==> last_position(
            items,
            name,
        ) == Some(items[i].at),
        (forall|k: int| 0 <= k < items.len() ==> (#[trigger] items[k]).name@ != name)
            ==> last_position(items, name) is None,
    decreases items.len(),
{
    if items.len() > 0 {
        let front = items.drop_last();
        assert forall|k: int| 0 <= k < front.len() implies #[trigger] front[k] == items[k] by {}
        law_last_icon_of_a_name_counts(front, i, name);
        if 0 <= i < items.len() - 1 && items[i].name@ == name {
            if forall|k: int| i < k < items.len() ==> (#[trigger] items[k]).name@ != name {
                assert(items[items.len() - 1].name@ != name);
            }
        }
        if forall|k: int| 0 <= k < items.len() ==> (#[trigger] items[k]).name@ != name {
            assert(items[items.len() - 1].name@ != name);
        }
    }
}

/// Every icon that the layout knows is moved to where the layout has it, once and in the
/// order of the names; the others are not moved.
pub proof fn law_known_icons_are_placed(layout: DesktopLayout, names: Seq<String>, name: String)
    requires
        names.len() < usize::MAX,
    ensures
        placements(layout, Seq::empty()).len() == 0,
        layout.positions.position(name@) is None ==> placements(layout, names.push(name))
            == placements(layout, names),
        layout.positions.position(name@) matches Some(at) ==> placements(layout, names.push(name))
            == placements(layout, names).push((names.len() as usize, at)),
{
    assert(names.push(name).drop_last() =~= names);
    assert(names.push(name).last() == name);
}

/// A thread is to be cleaned up if and only if preparing it succeeded, with whatever code;
/// of the failures only the one that says that somebody else prepared it is none.
pub proof fn law_only_success_is_cleaned_up(result_code: i32)
    ensures
        apartment_by(result_code) is Owned <==> result_code >= 0,
        apartment_by(result_code) is Borrowed <==> result_code as int == 0x80010106
            - 0x1_0000_0000,
{
}

} // verus!
