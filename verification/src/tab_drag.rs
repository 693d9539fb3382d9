//! Tab drag gestures: drop zones, selection and the drag state machine.
use vstd::prelude::*;

use crate::pane_layout::{strs_contain, strs_view};
use crate::seq_util::lemma_filter_take_step;

verus! {

/// Where a dragged pane or group lands relative to the target pane.
#[derive(Clone, Copy, Debug, PartialEq, Eq, Structural)]
pub enum DockZone {
    Center,
    Left,
    Right,
    Up,
    Down,
}

impl DockZone {
    /// Whether the zone splits the target pane, that is, anything but `Center`.
    pub fn is_split(self) -> (b: bool)
        ensures
            b == !(self is Center),
    {
        !matches!(self, DockZone::Center)
    }
}

/// What releasing a tab drag asks for.
#[derive(Debug)]
pub enum DropIntent {
    Nothing,
    Cancelled,
    Reorder { group_id: String, index: usize },
    Detach { group_id: String },
}

/// The state of a tab drag gesture and of the multi-selection of groups.
///
/// The press position is kept as the bits of its two `f32` coordinates; the
/// distance test that promotes a press into a drag is made by the caller.
#[derive(Debug)]
pub struct TabDragState {
    pending_group: Option<String>,
    start: Option<(u32, u32)>,
    dragging_group: Option<String>,
    reorder_index: Option<usize>,
    outside: bool,
    selected_groups: Vec<String>,
}

/// The state of a drag gesture, as plain values.
pub struct TabDragModel {
    pub pending_group: Option<String>,
    pub start: Option<(u32, u32)>,
    pub dragging_group: Option<String>,
    pub reorder_index: Option<usize>,
    pub outside: bool,
    pub selected_groups: Seq<Seq<char>>,
}

impl View for TabDragState {
    type V = TabDragModel;

    closed spec fn view(&self) -> TabDragModel {
        TabDragModel {
            pending_group: self.pending_group,
            start: self.start,
            dragging_group: self.dragging_group,
            reorder_index: self.reorder_index,
            outside: self.outside,
            selected_groups: strs_view(self.selected_groups@),
        }
    }
}

/// The model with the gesture (but not the selection) reset.
pub open spec fn gesture_reset(m: TabDragModel) -> TabDragModel {
    TabDragModel {
        pending_group: None,
        start: None,
        dragging_group: None,
        reorder_index: None,
        outside: false,
        ..m
    }
}

/// The ids of `ordered` that are selected, in that order; the anchor alone
/// when none is.
pub open spec fn ordered_selection(
    selected: Seq<Seq<char>>,
    anchor: Seq<char>,
    ordered: Seq<Seq<char>>,
) -> Seq<Seq<char>> {
    let chosen = ordered.filter(|id: Seq<char>| selected.contains(id));
    if chosen.len() == 0 {
        seq![anchor]
    } else {
        chosen
    }
}

impl Default for TabDragState {
    /// No gesture and no selection.
    fn default() -> (r: Self)
        ensures
            r@.pending_group is None,
            r@.start is None,
            r@.dragging_group is None,
            r@.reorder_index is None,
            !r@.outside,
            r@.selected_groups.len() == 0,
    {
        Self::new()
    }
}

impl TabDragState {
    /// No gesture and no selection.
    pub fn new() -> (r: Self)
        ensures
            r@.pending_group is None,
            r@.start is None,
            r@.dragging_group is None,
            r@.reorder_index is None,
            !r@.outside,
            r@.selected_groups.len() == 0,
    {
        let r = TabDragState {
            pending_group: None,
            start: None,
            dragging_group: None,
            reorder_index: None,
            outside: false,
            selected_groups: Vec::new(),
        };
        assert(strs_view(r.selected_groups@) =~= seq![]);
        r
    }

    fn reset_drag_target(&mut self)
        ensures
            final(self)@ == gesture_reset(old(self)@),
    {
        self.pending_group = None;
        self.start = None;
        self.dragging_group = None;
        self.reorder_index = None;
        self.outside = false;
    }

    /// Starts a press on `group_id` at `position` (the bits of its `f32`
    /// coordinates). An additive press adds the group to the selection; any
    /// other press makes it the only selected group.
    pub fn begin_with_selection(&mut self, group_id: String, position: (u32, u32), additive: bool)
        ensures
            final(self)@.pending_group == Some(group_id),
            final(self)@.start == Some(position),
            final(self)@.dragging_group is None,
            final(self)@.reorder_index is None,
            !final(self)@.outside,
            final(self)@.selected_groups == if !additive {
                seq![group_id@]
            } else if old(self)@.selected_groups.contains(group_id@) {
                old(self)@.selected_groups
            } else {
                old(self)@.selected_groups.push(group_id@)
            },
    {
        self.reset_drag_target();
        if additive {
            if !strs_contain(&self.selected_groups, group_id.as_str()) {
                self.selected_groups.push(group_id.clone());
                assert(strs_view(self.selected_groups@) =~= old(self)@.selected_groups.push(
                    group_id@,
                ));
            }
        } else {
            self.selected_groups.clear();
            self.selected_groups.push(group_id.clone());
            assert(strs_view(self.selected_groups@) =~= seq![group_id@]);
        }
        self.pending_group = Some(group_id);
        self.start = Some(position);
    }

    /// Starts a press on `group_id` that replaces the selection.
    pub fn begin(&mut self, group_id: String, position: (u32, u32))
        ensures
            final(self)@ == (TabDragModel {
                pending_group: Some(group_id),
                start: Some(position),
                dragging_group: None,
                reorder_index: None,
                outside: false,
                selected_groups: seq![group_id@],
            }),
    {
        self.begin_with_selection(group_id, position, false);
    }

    /// The press position, as the bits of its `f32` coordinates.
    pub fn start(&self) -> (r: Option<(u32, u32)>)
        ensures
            r == self@.start,
    {
        self.start
    }

    /// Turns a pending press into a drag once the pointer has moved beyond
    /// the drag threshold; returns whether it did.
    pub fn promote_if_needed(&mut self, beyond_threshold: bool) -> (promoted: bool)
        ensures
            promoted == (old(self)@.dragging_group is None && old(self)@.start is Some && old(
                self,
            )@.pending_group is Some && beyond_threshold),
            promoted ==> final(self)@ == (TabDragModel {
                dragging_group: old(self)@.pending_group,
                pending_group: None,
                ..old(self)@
            }),
            !promoted ==> final(self)@ == old(self)@,
    {
        if self.dragging_group.is_some() {
            return false;
        }
        if self.start.is_none() || self.pending_group.is_none() || !beyond_threshold {
            return false;
        }
        self.dragging_group = self.pending_group.take();
        true
    }

    /// Whether a drag is under way.
    pub fn is_dragging(&self) -> (b: bool)
        ensures
            b == self@.dragging_group is Some,
    {
        self.dragging_group.is_some()
    }

    /// The group being dragged.
    pub fn dragging_group(&self) -> (r: Option<&str>)
        ensures
            r matches Some(s) ==> (self@.dragging_group matches Some(g) && s@ == g@),
            r is None ==> self@.dragging_group is None,
    {
        match &self.dragging_group {
            Some(g) => Some(g.as_str()),
            None => None,
        }
    }

    /// Whether a press waits to become a drag.
    pub fn is_pending(&self) -> (b: bool)
        ensures
            b == self@.pending_group is Some,
    {
        self.pending_group.is_some()
    }

    /// Whether `group_id` is selected.
    pub fn is_selected(&self, group_id: &str) -> (b: bool)
        ensures
            b == self@.selected_groups.contains(group_id@),
    {
        strs_contain(&self.selected_groups, group_id)
    }

    /// The number of selected groups.
    pub fn selected_count(&self) -> (n: usize)
        ensures
            n == self@.selected_groups.len(),
    {
        self.selected_groups.len()
    }

    /// The selected groups in the order of `ordered_groups`, or the anchor
    /// alone when none of them is selected.
    pub fn ordered_drag_groups(&self, anchor: &str, ordered_groups: Vec<String>) -> (r: Vec<String>)
        ensures
            strs_view(r@) == ordered_selection(
                self@.selected_groups,
                anchor@,
                strs_view(ordered_groups@),
            ),
    {
        let ghost sel = strs_view(self.selected_groups@);
        let ghost p = |id: Seq<char>| sel.contains(id);
        let ghost ov = strs_view(ordered_groups@);
        let mut groups: Vec<String> = Vec::new();
        let mut i: usize = 0;
        while i < ordered_groups.len()
            invariant
                i <= ordered_groups@.len(),
                sel == strs_view(self.selected_groups@),
                p == (|id: Seq<char>| sel.contains(id)),
                ov == strs_view(ordered_groups@),
                strs_view(groups@) == ov.take(i as int).filter(p),
            decreases ordered_groups@.len() - i,
        {
            proof {
                lemma_filter_take_step(ov, p, i as int);
            }
            if strs_contain(&self.selected_groups, ordered_groups[i].as_str()) {
                let ghost before = strs_view(groups@);
                groups.push(ordered_groups[i].clone());
                assert(strs_view(groups@) =~= before.push(ov[i as int]));
            }
            i = i + 1;
        }
        assert(ov.take(ov.len() as int) =~= ov);
        if groups.len() == 0 {
            groups.push(crate::text::string_of(anchor));
            assert(strs_view(groups@) =~= seq![anchor@]);
        }
        groups
    }

    /// Sets where the dragged group would be reinserted; returns whether the
    /// value changed.
    pub fn set_reorder_index(&mut self, index: Option<usize>) -> (changed: bool)
        ensures
            changed == (old(self)@.reorder_index != index),
            final(self)@ == (TabDragModel { reorder_index: index, ..old(self)@ }),
    {
        let same = match (self.reorder_index, index) {
            (Some(a), Some(b)) => a == b,
            (None, None) => true,
            _ => false,
        };
        if same {
            return false;
        }
        self.reorder_index = index;
        true
    }

    /// Where the dragged group would be reinserted.
    pub fn reorder_index(&self) -> (r: Option<usize>)
        ensures
            r == self@.reorder_index,
    {
        self.reorder_index
    }

    /// Whether the pointer is outside the tab bar.
    pub fn outside(&self) -> (b: bool)
        ensures
            b == self@.outside,
    {
        self.outside
    }

    /// Records whether the pointer is outside the tab bar; returns whether the
    /// value changed.
    pub fn set_outside(&mut self, outside: bool) -> (changed: bool)
        ensures
            changed == (old(self)@.outside != outside),
            final(self)@ == (TabDragModel { outside: outside, ..old(self)@ }),
    {
        if self.outside == outside {
            return false;
        }
        self.outside = outside;
        true
    }

    /// Ends the gesture: a drag with a reorder index reorders, one released
    /// outside the tab bar detaches, any other drag is cancelled; without a
    /// drag nothing happens. The selection is kept.
    pub fn finish(&mut self) -> (r: DropIntent)
        ensures
            final(self)@ == gesture_reset(old(self)@),
            match old(self)@.dragging_group {
                None => r is Nothing,
                Some(g) => match old(self)@.reorder_index {
                    Some(index) => r == DropIntent::Reorder { group_id: g, index },
                    None => if old(self)@.outside {
                        r == DropIntent::Detach { group_id: g }
                    } else {
                        r is Cancelled
                    },
                },
            },
    {
        let dragging = self.dragging_group.take();
        let group_id = match dragging {
            Some(g) => g,
            None => {
                self.reset_drag_target();
                return DropIntent::Nothing;
            },
        };
        let reorder_index = self.reorder_index;
        let outside = self.outside;
        self.reset_drag_target();
        if let Some(index) = reorder_index {
            return DropIntent::Reorder { group_id, index };
        }
        if outside {
            return DropIntent::Detach { group_id };
        }
        DropIntent::Cancelled
    }

    /// Cancels the gesture, keeping the selection.
    pub fn cancel(&mut self)
        ensures
            final(self)@ == gesture_reset(old(self)@),
    {
        self.reset_drag_target();
    }
}

/// Whether the source window should close after a merge: only when the
/// merge succeeded, left the source without groups, and went to another
/// window.
pub fn should_close_empty_source(
    merge_succeeded: bool,
    source_is_empty: bool,
    source_window: u64,
    target_window: u64,
) -> (b: bool)
    ensures
        b == (merge_succeeded && source_is_empty && source_window != target_window),
{
    merge_succeeded && source_is_empty && source_window != target_window
}

/// After finishing, a gesture is over: a second release asks for nothing.
pub proof fn finished_drag_cannot_commit_twice(m: TabDragModel)
    ensures
        gesture_reset(m).dragging_group is None,
        gesture_reset(gesture_reset(m)) == gesture_reset(m),
        gesture_reset(m).selected_groups == m.selected_groups,
{
}

} // verus!
