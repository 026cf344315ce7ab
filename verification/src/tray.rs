use vstd::prelude::*;
use crate::text::{concat2, i64_to_decimal, int_decimal};

verus! {

/// An entry of the tray menu.
#[derive(Debug)]
pub enum MenuEntry {
    Item { id: String, label: String },
    Separator,
}

/// `e` is the menu item `id` labelled `label`.
pub open spec fn is_item(e: MenuEntry, id: Seq<char>, label: Seq<char>) -> bool {
    e matches MenuEntry::Item { id: i, label: l } && i@ == id && l@ == label
}

/// The menu id of a pinned project: `proj:` and its id.
pub open spec fn project_item_id(id: i64) -> Seq<char> {
    seq!['p', 'r', 'o', 'j', ':'] + int_decimal(id as int)
}

/// The tray menu: "open" first and "quit" last; the pinned projects, when there are
/// any, in between and set off by a separator on each side.
pub fn tray_menu(pinned: &[(i64, String)]) -> (r: Vec<MenuEntry>)
    ensures
        pinned@.len() == 0 ==> r@.len() == 2,
        pinned@.len() > 0 ==> r@.len() == pinned@.len() + 4 && r@[1] is Separator
            && r@[r@.len() - 2] is Separator
            && forall|i: int| 0 <= i < pinned@.len() ==> is_item(#[trigger] r@[i + 2],
                project_item_id(pinned@[i].0), pinned@[i].1@),
        is_item(r@[0], "open"@, "Открыть DevDeck"@),
        is_item(r@[r@.len() - 1], "quit"@, "Выход"@),
{
    let mut r: Vec<MenuEntry> = Vec::new();
    r.push(MenuEntry::Item { id: String::from_str("open"), label: String::from_str("Открыть DevDeck") });
    let n = pinned.len();
    if n > 0 {
        r.push(MenuEntry::Separator);
        proof {
            reveal_strlit("proj:");
            assert("proj:"@ =~= seq!['p', 'r', 'o', 'j', ':']);
        }
        let mut i: usize = 0;
        while i < n
            invariant
                n == pinned@.len(),
                i <= n,
                r@.len() == i + 2,
                is_item(r@[0], "open"@, "Открыть DevDeck"@),
                r@[1] is Separator,
                "proj:"@ == seq!['p', 'r', 'o', 'j', ':'],
                forall|k: int| 0 <= k < i ==> is_item(#[trigger] r@[k + 2], project_item_id(pinned@[k].0), pinned@[k].1@),
            decreases n - i,
        {
            let d = i64_to_decimal(pinned[i].0);
            let id = concat2("proj:", d.as_str());
            r.push(MenuEntry::Item { id, label: pinned[i].1.clone() });
            proof {
                assert(is_item(r@[i + 2], project_item_id(pinned@[i as int].0), pinned@[i as int].1@));
            }
            i = i + 1;
        }
        r.push(MenuEntry::Separator);
    }
    r.push(MenuEntry::Item { id: String::from_str("quit"), label: String::from_str("Выход") });
    r
}

} // verus!
