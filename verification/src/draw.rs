//! What the screen shows of the factions and their scents.
use vstd::prelude::*;
use crate::insect::ant::{ScentCell, Scents};
use crate::map::{Faction, WorldMap, FACTION_CENTIPEDE, FACTION_PILLBUG, FACTION_SPIDER, MAX_MAP_DIM};
use crate::pos::Pos;

verus! {

/// The factions that have a name on screen.
pub open spec fn is_named(faction: Faction) -> bool {
    faction == 0 || faction == 1 || faction == 2 || faction == FACTION_PILLBUG || faction == FACTION_SPIDER
        || faction == FACTION_CENTIPEDE
}

/// The name shown for a faction.
pub open spec fn faction_name(faction: Faction) -> Seq<char> {
    if faction == 0 {
        "UNKNOWN"@
    } else if faction == 1 {
        "BLUE ANTS"@
    } else if faction == 2 {
        "RED ANTS"@
    } else if faction == FACTION_PILLBUG {
        "PILLBUGS"@
    } else if faction == FACTION_SPIDER {
        "SPIDERS"@
    } else {
        "CENTIPEDE"@
    }
}

/// The name shown for `faction`; only the known factions have one.
pub fn name(faction: Faction) -> (r: &'static str)
    requires
        is_named(faction),
    ensures
        r@ == faction_name(faction),
{
    if faction == 0 {
        "UNKNOWN"
    } else if faction == 1 {
        "BLUE ANTS"
    } else if faction == 2 {
        "RED ANTS"
    } else if faction == FACTION_PILLBUG {
        "PILLBUGS"
    } else if faction == FACTION_SPIDER {
        "SPIDERS"
    } else {
        "CENTIPEDE"
    }
}

/// The scent shown for a cell, with its strength: attack before food
/// before nest; none when the cell smells of nothing.
pub open spec fn shown_scent(c: ScentCell) -> Option<(Scents, u8)> {
    if c.level(Scents::Attack) > 0 {
        Some((Scents::Attack, c.level(Scents::Attack)))
    } else if c.level(Scents::Food) > 0 {
        Some((Scents::Food, c.level(Scents::Food)))
    } else if c.level(Scents::Nest) > 0 {
        Some((Scents::Nest, c.level(Scents::Nest)))
    } else {
        None
    }
}

/// The place the `i`-th cell of a scent grid of width `w` is shown at: its
/// own slot, `i % w` across and `i / w` down.
pub open spec fn shown_at(i: int, w: int) -> Pos {
    Pos { x: (i % w) as i16, y: (i / w) as i16 }
}

/// The marks for the first `n` cells of `cells`, in order.
pub open spec fn scent_marks_of(cells: Seq<ScentCell>, w: int, n: int) -> Seq<(Pos, Scents, u8)>
    decreases n,
{
    if n <= 0 {
        Seq::empty()
    } else {
        let prev = scent_marks_of(cells, w, n - 1);
        match shown_scent(cells[n - 1]) {
            Some((s, v)) => prev.push((shown_at(n - 1, w), s, v)),
            None => prev,
        }
    }
}

/// Going from slot `i` to the next, on rows of `w` slots and `h` rows:
/// one further along the row, or the start of the next row.
proof fn lemma_next_slot(i: int, w: int, h: int)
    requires
        0 <= i < w * h,
        0 < w,
    ensures
        0 <= i % w < w,
        0 <= i / w < h,
        shown_at(i, w) == (Pos { x: (i % w) as i16, y: (i / w) as i16 }),
        i % w + 1 < w ==> (i + 1) % w == i % w + 1 && (i + 1) / w == i / w,
        i % w + 1 >= w ==> (i + 1) % w == 0 && (i + 1) / w == i / w + 1,
{
    vstd::arithmetic::div_mod::lemma_fundamental_div_mod(i, w);
    vstd::arithmetic::div_mod::lemma_mod_bound(i, w);
    let q = i / w;
    let r = i % w;
    assert(q < h) by (nonlinear_arith)
        requires
            i == w * q + r,
            0 <= r,
            i < w * h,
            0 < w,
    ;
    assert(q >= 0) by (nonlinear_arith)
        requires
            i == w * q + r,
            r < w,
            0 <= i,
            0 < w,
    ;
    assert(w * q == q * w) by (nonlinear_arith);
    if r + 1 < w {
        vstd::arithmetic::div_mod::lemma_fundamental_div_mod_converse(i + 1, w, q, r + 1);
    } else {
        assert((q + 1) * w == q * w + w) by (nonlinear_arith);
        vstd::arithmetic::div_mod::lemma_fundamental_div_mod_converse(i + 1, w, q + 1, 0);
    }
}

/// What the scents of `faction` show on the map: for each cell of its grid
/// that smells, the place it is shown at, the scent shown and its strength.
pub fn scent_marks(map: &WorldMap, faction: Faction) -> (r: Vec<(Pos, Scents, u8)>)
    requires
        map.wf(),
        (faction as int) < map.scent_grids@.len(),
    ensures
        r@ == scent_marks_of(
            map.scent_grids@[faction as int].cells(),
            map.size.x as int,
            map.scent_grids@[faction as int].cells().len() as int,
        ),
{
    let grid = map.get_scent_grid(faction);
    let ghost cells = grid.cells();
    let ghost w = map.size.x as int;
    let mut marks: Vec<(Pos, Scents, u8)> = Vec::new();
    let mut pos = Pos::new(0, 0);
    let n = grid.len();
    let mut i: usize = 0;
    while i < n
        invariant
            n == cells.len(),
            cells == grid.cells(),
            cells.len() == map.size.x * map.size.y,
            w == map.size.x,
            0 <= map.size.x <= MAX_MAP_DIM,
            0 <= map.size.y <= MAX_MAP_DIM,
            i <= n,
            w > 0 && i < n ==> pos == shown_at(i as int, w),
            marks@ == scent_marks_of(cells, w, i as int),
        decreases n - i,
    {
        proof {
            assert(w > 0) by (nonlinear_arith)
                requires
                    0 <= i < w * map.size.y,
                    0 <= w,
                    0 <= map.size.y,
            ;
            lemma_next_slot(i as int, w, map.size.y as int);
        }
        let cell = grid.cell_at(i);
        let attack = cell.get_scent(Scents::Attack);
        let food = cell.get_scent(Scents::Food);
        let nest = cell.get_scent(Scents::Nest);
        if attack > 0 {
            marks.push((pos, Scents::Attack, attack));
        } else if food > 0 {
            marks.push((pos, Scents::Food, food));
        } else if nest > 0 {
            marks.push((pos, Scents::Nest, nest));
        }
        pos.x = pos.x + 1;
        if pos.x >= map.size.x {
            pos.x = 0;
            pos.y = pos.y + 1;
        }
        i += 1;
    }
    marks
}

} // verus!
