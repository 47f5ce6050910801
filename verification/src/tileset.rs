//! Sprite sheets: where each named sprite sits on the sheet.
use vstd::prelude::*;

verus! {

/// A sprite's place on the sheet: its row and column of tiles.
#[derive(Debug, Clone, Copy, PartialEq, Eq, Structural)]
pub struct Sprite {
    pub row: u8,
    pub col: u8,
}

impl Sprite {
    pub fn new(row: u8, col: u8) -> (r: Sprite)
        ensures
            r == (Sprite { row, col }),
    {
        Sprite { row, col }
    }
}

/// A sheet as its description file gives it: the image's path and the
/// sprite names, row by row; an empty name leaves a tile unnamed.
pub struct DataTileset {
    pub path: String,
    pub sprites: Vec<Vec<String>>,
}

/// The named tiles of the first `x` tiles of row `y`, in order, with their
/// places (row and column numbers taken modulo 256).
pub open spec fn row_entries(row: Seq<String>, y: int, x: int) -> Seq<(Seq<char>, Sprite)>
    decreases x,
{
    if x <= 0 {
        Seq::empty()
    } else {
        let prev = row_entries(row, y, x - 1);
        if row[x - 1]@.len() == 0 {
            prev
        } else {
            prev.push((row[x - 1]@, Sprite { row: y as u8, col: (x - 1) as u8 }))
        }
    }
}

/// The named tiles of the first `y` rows, row by row.
pub open spec fn sheet_entries(rows: Seq<Vec<String>>, y: int) -> Seq<(Seq<char>, Sprite)>
    decreases y,
{
    if y <= 0 {
        Seq::empty()
    } else {
        sheet_entries(rows, y - 1) + row_entries(rows[y - 1]@, y - 1, rows[y - 1]@.len() as int)
    }
}

/// The entries as names and places.
pub open spec fn entry_views(v: Seq<(String, Sprite)>) -> Seq<(Seq<char>, Sprite)> {
    v.map_values(|e: (String, Sprite)| (e.0@, e.1))
}

impl DataTileset {
    /// Every named tile with its place, row by row and left to right; a
    /// name given twice appears twice, and the later place is the one that
    /// counts when the entries are looked up by name.
    pub fn sprite_entries(&self) -> (r: Vec<(String, Sprite)>)
        ensures
            entry_views(r@) == sheet_entries(self.sprites@, self.sprites@.len() as int),
    {
        let mut r: Vec<(String, Sprite)> = Vec::new();
        let mut y: usize = 0;
        while y < self.sprites.len()
            invariant
                y <= self.sprites@.len(),
                entry_views(r@) == sheet_entries(self.sprites@, y as int),
            decreases self.sprites@.len() - y,
        {
            let row = &self.sprites[y];
            let ghost start = entry_views(r@);
            let mut x: usize = 0;
            while x < row.len()
                invariant
                    x <= row@.len(),
                    *row == self.sprites@[y as int],
                    entry_views(r@) == start + row_entries(row@, y as int, x as int),
                decreases row@.len() - x,
            {
                let name = &row[x];
                if name.as_str().is_empty() {
                    proof {
                        assert(row_entries(row@, y as int, x + 1) == row_entries(row@, y as int, x as int));
                    }
                } else {
                    let ghost before = r@;
                    let row_num: u8 = #[verifier::truncate] (y as u8);
                    let col_num: u8 = #[verifier::truncate] (x as u8);
                    r.push((name.clone(), Sprite::new(row_num, col_num)));
                    proof {
                        assert(entry_views(r@) == entry_views(before).push((name@, Sprite { row: y as u8, col: x as u8 })));
                    }
                }
                x += 1;
            }
            y += 1;
        }
        r
    }
}

/// Only named tiles have entries: every entry of a row has a name.
pub proof fn law_row_entries_named(row: Seq<String>, y: int, x: int)
    ensures
        forall|i: int| 0 <= i < row_entries(row, y, x).len() ==> (#[trigger] row_entries(row, y, x)[i]).0.len() > 0,
    decreases x,
{
    if x > 0 {
        law_row_entries_named(row, y, x - 1);
        let prev = row_entries(row, y, x - 1);
        assert forall|i: int| 0 <= i < row_entries(row, y, x).len() implies (#[trigger] row_entries(row, y, x)[i]).0.len() > 0 by {
            if i < prev.len() {
                assert(row_entries(row, y, x)[i] == prev[i]);
            }
        }
    }
}

/// Only named tiles have entries: every entry of the sheet has a name.
pub proof fn law_entries_named(rows: Seq<Vec<String>>, y: int)
    ensures
        forall|i: int| 0 <= i < sheet_entries(rows, y).len() ==> (#[trigger] sheet_entries(rows, y)[i]).0.len() > 0,
    decreases y,
{
    if y > 0 {
        law_entries_named(rows, y - 1);
        law_row_entries_named(rows[y - 1]@, y - 1, rows[y - 1]@.len() as int);
        let a = sheet_entries(rows, y - 1);
        let b = row_entries(rows[y - 1]@, y - 1, rows[y - 1]@.len() as int);
        assert forall|i: int| 0 <= i < sheet_entries(rows, y).len() implies (#[trigger] sheet_entries(rows, y)[i]).0.len() > 0 by {
            if i < a.len() {
                assert(sheet_entries(rows, y)[i] == a[i]);
            } else {
                assert(sheet_entries(rows, y)[i] == b[i - a.len()]);
            }
        }
    }
}

} // verus!
