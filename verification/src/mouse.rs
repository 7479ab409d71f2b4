//! Mouse hit-testing: the renderer records what it drew where (row lists,
//! panes, clickable spots) and a click is resolved against the topmost
//! zone under it.

use vstd::prelude::*;
use crate::config_panel::SettingsTab;

verus! {

/// A screen rectangle in terminal cells.
#[derive(Debug, Clone, Copy, PartialEq, Eq, Default, Structural)]
pub struct Rect {
    pub x: u16,
    pub y: u16,
    pub width: u16,
    pub height: u16,
}

/// What the mouse did.
#[derive(Debug, Clone, Copy, PartialEq, Eq, Structural)]
pub enum MouseKind {
    Click,
    WheelUp,
    WheelDown,
}

/// Which list a row belongs to.
#[derive(Debug, Clone, Copy, PartialEq, Eq, Structural)]
pub enum RowList {
    Worktrees,
    Config,
    ExecPicker,
    CleanPicker,
    OpenMenu,
    Palette,
    Detail,
}

/// A pane that takes focus on click.
#[derive(Debug, Clone, Copy, PartialEq, Eq, Structural)]
pub enum PaneId {
    Worktrees,
    Status,
    WorkingTree,
    Modal,
}

/// A small clickable target; `C` is the working-tree category type.
#[derive(Debug, Clone, Copy, PartialEq, Eq)]
pub enum Spot<C> {
    CommandLogs,
    Settings,
    ConfigTab(SettingsTab),
    WtCategory(C),
}

/// What a click landed on.
#[derive(Debug, Clone, Copy, PartialEq, Eq)]
pub enum Hit<C> {
    Row { list: RowList, index: usize },
    Pane(PaneId),
    Spot(Spot<C>),
}

/// One recorded zone.
#[derive(Debug, Clone)]
pub enum Zone<C> {
    /// Visible rows of a list: the first shows item `offset`, and `map`
    /// (when given) sends each visible line to an item or to none.
    Rows { list: RowList, offset: usize, len: usize, map: Option<Vec<Option<usize>>> },
    Pane(PaneId),
    Spot(Spot<C>),
}

/// Whether the cell `(col, row)` lies in `r` (edges saturate at the
/// screen's end).
pub open spec fn inside(r: Rect, col: u16, row: u16) -> bool {
    let right = if r.x + r.width > u16::MAX { u16::MAX as int } else { r.x + r.width };
    let bottom = if r.y + r.height > u16::MAX { u16::MAX as int } else { r.y + r.height };
    col >= r.x && col < right && row >= r.y && row < bottom
}

fn contains(r: Rect, col: u16, row: u16) -> (b: bool)
    ensures
        b == inside(r, col, row),
{
    col >= r.x && col < r.x.saturating_add(r.width) && row >= r.y && row < r.y.saturating_add(r.height)
}

/// What a click at `row` on zone `z` (drawn in `r`) resolves to.
pub open spec fn zone_hit<C>(r: Rect, z: Zone<C>, row: u16) -> Option<Hit<C>> {
    match z {
        Zone::Pane(p) => Some(Hit::Pane(p)),
        Zone::Spot(s) => Some(Hit::Spot(s)),
        Zone::Rows { list, offset, len, map } => {
            let line = offset + (row - r.y);
            let index: Option<int> = match map {
                Some(m) => if 0 <= line < m@.len() {
                    match m@[line] {
                        Some(i) => Some(i as int),
                        None => None,
                    }
                } else {
                    None
                },
                None => Some(line),
            };
            match index {
                Some(i) => if i < len { Some(Hit::Row { list, index: i as usize }) } else { None },
                None => None,
            }
        },
    }
}

/// The topmost (last recorded) zone among the first `n` that holds the
/// cell, resolved; `None` when none does.
pub open spec fn hit_spec<C>(zones: Seq<(Rect, Zone<C>)>, n: int, col: u16, row: u16) -> Option<Hit<C>>
    decreases n,
{
    if n <= 0 {
        None
    } else if inside(zones[n - 1].0, col, row) {
        zone_hit(zones[n - 1].0, zones[n - 1].1, row)
    } else {
        hit_spec(zones, n - 1, col, row)
    }
}

/// A row zone's offset leaves room for a screen's worth of lines.
pub open spec fn row_offset_fits<C>(z: Zone<C>) -> bool {
    match z {
        Zone::Rows { offset, .. } => offset + u16::MAX < usize::MAX,
        _ => true,
    }
}

/// Everything clickable on the last frame.
#[derive(Debug, Clone)]
pub struct MouseMap<C> {
    zones: Vec<(Rect, Zone<C>)>,
}

impl<C: Copy> MouseMap<C> {
    pub closed spec fn view(&self) -> Seq<(Rect, Zone<C>)> {
        self.zones@
    }

    /// Row offsets leave room for a screen's worth of lines.
    pub open spec fn wf(&self) -> bool {
        forall|i: int| 0 <= i < self.view().len() ==> row_offset_fits(#[trigger] self.view()[i].1)
    }

    pub fn new() -> (r: MouseMap<C>)
        ensures
            r.view().len() == 0,
            r.wf(),
    {
        MouseMap { zones: Vec::new() }
    }

    /// Forget the last frame.
    pub fn clear(&mut self)
        ensures
            final(self).view().len() == 0,
            final(self).wf(),
    {
        self.zones = Vec::new();
    }

    /// Record `len` items of `list` drawn in `rect`, item `offset` first.
    pub fn push_rows(&mut self, rect: Rect, list: RowList, offset: usize, len: usize)
        requires
            old(self).wf(),
            offset + u16::MAX < usize::MAX,
        ensures
            final(self).view() == old(self).view().push((rect, Zone::Rows { list, offset, len, map: None })),
            final(self).wf(),
    {
        let ghost before = self.zones@;
        self.zones.push((rect, Zone::Rows { list, offset, len, map: None }));
        proof {
            assert forall|i: int| 0 <= i < self.view().len() implies row_offset_fits(#[trigger] self.view()[i].1) by {
                if i < before.len() {
                    assert(self.view()[i] == before[i]);
                    assert(before[i] == old(self).view()[i]);
                    assert(row_offset_fits(old(self).view()[i].1));
                }
            }
        }
    }

    /// As [`MouseMap::push_rows`], with each visible line mapped to an
    /// item (or to none, for a header line).
    pub fn push_mapped_rows(&mut self, rect: Rect, list: RowList, offset: usize, len: usize, map: Vec<Option<usize>>)
        requires
            old(self).wf(),
            offset + u16::MAX < usize::MAX,
        ensures
            final(self).view() == old(self).view().push((rect, Zone::Rows { list, offset, len, map: Some(map) })),
            final(self).wf(),
    {
        let ghost before = self.zones@;
        self.zones.push((rect, Zone::Rows { list, offset, len, map: Some(map) }));
        proof {
            assert forall|i: int| 0 <= i < self.view().len() implies row_offset_fits(#[trigger] self.view()[i].1) by {
                if i < before.len() {
                    assert(self.view()[i] == before[i]);
                    assert(before[i] == old(self).view()[i]);
                    assert(row_offset_fits(old(self).view()[i].1));
                }
            }
        }
    }

    pub fn push_pane(&mut self, rect: Rect, pane: PaneId)
        requires
            old(self).wf(),
        ensures
            final(self).view() == old(self).view().push((rect, Zone::Pane(pane))),
            final(self).wf(),
    {
        let ghost before = self.zones@;
        self.zones.push((rect, Zone::Pane(pane)));
        proof {
            assert forall|i: int| 0 <= i < self.view().len() implies row_offset_fits(#[trigger] self.view()[i].1) by {
                if i < before.len() {
                    assert(self.view()[i] == before[i]);
                    assert(before[i] == old(self).view()[i]);
                    assert(row_offset_fits(old(self).view()[i].1));
                }
            }
        }
    }

    pub fn push_spot(&mut self, rect: Rect, spot: Spot<C>)
        requires
            old(self).wf(),
        ensures
            final(self).view() == old(self).view().push((rect, Zone::Spot(spot))),
            final(self).wf(),
    {
        let ghost before = self.zones@;
        self.zones.push((rect, Zone::Spot(spot)));
        proof {
            assert forall|i: int| 0 <= i < self.view().len() implies row_offset_fits(#[trigger] self.view()[i].1) by {
                if i < before.len() {
                    assert(self.view()[i] == before[i]);
                    assert(before[i] == old(self).view()[i]);
                    assert(row_offset_fits(old(self).view()[i].1));
                }
            }
        }
    }

    /// What a click at `(col, row)` lands on: the most recently recorded
    /// zone containing the cell decides, even when it resolves to nothing.
    pub fn hit(&self, col: u16, row: u16) -> (r: Option<Hit<C>>)
        requires
            self.wf(),
        ensures
            r == hit_spec(self.view(), self.view().len() as int, col, row),
    {
        let mut n = self.zones.len();
        while n > 0
            invariant
                self.wf(),
                n <= self.view().len(),
                hit_spec(self.view(), self.view().len() as int, col, row) == hit_spec(self.view(), n as int, col, row),
            decreases n,
        {
            let (rect, zone) = &self.zones[n - 1];
            if contains(*rect, col, row) {
                return match zone {
                    Zone::Pane(p) => Some(Hit::Pane(*p)),
                    Zone::Spot(s) => Some(Hit::Spot(*s)),
                    Zone::Rows { list, offset, len, map } => {
                        proof {
                            assert(row_offset_fits(self.view()[n - 1].1));
                        }
                        let line = *offset + (row - rect.y) as usize;
                        let index = match map {
                            Some(m) => if line < m.len() {
                                m[line]
                            } else {
                                None
                            },
                            None => Some(line),
                        };
                        match index {
                            Some(i) => if i < *len {
                                Some(Hit::Row { list: *list, index: i })
                            } else {
                                None
                            },
                            None => None,
                        }
                    },
                };
            }
            n -= 1;
        }
        None
    }

    pub fn is_empty(&self) -> (r: bool)
        ensures
            r == (self.view().len() == 0),
    {
        self.zones.len() == 0
    }
}

/// A zone recorded later covers the ones under it: after recording a pane
/// over a cell, a click there lands on that pane.
pub proof fn law_topmost_wins<C>(zones: Seq<(Rect, Zone<C>)>, rect: Rect, pane: PaneId, col: u16, row: u16)
    requires
        inside(rect, col, row),
    ensures
        hit_spec(zones.push((rect, Zone::Pane(pane))), zones.len() as int + 1, col, row) == Some(Hit::<C>::Pane(pane)),
{
}

} // verus!
