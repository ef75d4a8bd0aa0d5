//! The rows of a list editor: one per item, laid out in a grid below the
//! list's header row.
use vstd::prelude::*;
use crate::text::{decimal, decimal_string, list_item_path};

verus! {

/// The largest number of items a list editor can lay out: grid rows are
/// numbered with `i16`, and the header takes the first row.
pub const MAX_LIST_ROWS: usize = 32767;

/// One item row: the grid row it occupies, the property path of the item
/// and the label shown for it.
pub struct ListRow {
    pub grid_row: i16,
    pub path: String,
    pub name: String,
}

/// The rows for the `len` items of the list at `list_path`: item `i` sits
/// in grid row `i + 1`, has path `list_path[i]` and is labelled `i`.
pub fn list_rows(list_path: &str, len: usize) -> (rows: Vec<ListRow>)
    requires
        len <= MAX_LIST_ROWS,
    ensures
        rows@.len() == len,
        forall|i: int|
            0 <= i < len ==> {
                &&& #[trigger] rows@[i].grid_row == i + 1
                &&& rows@[i].path@ == list_path@ + seq!['['] + decimal(i as nat) + seq![']']
                &&& rows@[i].name@ == decimal(i as nat)
            },
{
    let mut rows: Vec<ListRow> = Vec::new();
    let mut i: usize = 0;
    while i < len
        invariant
            len <= MAX_LIST_ROWS,
            i <= len,
            rows@.len() == i,
            forall|k: int|
                0 <= k < i ==> {
                    &&& #[trigger] rows@[k].grid_row == k + 1
                    &&& rows@[k].path@ == list_path@ + seq!['['] + decimal(k as nat) + seq![']']
                    &&& rows@[k].name@ == decimal(k as nat)
                },
        decreases len - i,
    {
        let row = (i + 1) as i16;
        rows.push(ListRow { grid_row: row, path: list_item_path(list_path, i), name: decimal_string(i) });
        i = i + 1;
    }
    rows
}

} // verus!
