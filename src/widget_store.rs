use vstd::prelude::*;

use std::collections::HashMap;

use crate::hierarchy::WidgetId;
use crate::state_box::StateBox;
use crate::system::WidgetLifecycleEvent;

verus! {

broadcast use vstd::std_specs::hash::group_hash_axioms;

/// A live widget instance and its persistent state cell.
#[derive(Debug)]
pub struct WidgetEntry<W, S> {
    pub widget: W,
    pub state: StateBox<S>,
}

/// One entry per live identity, kept across frames until collected.
#[derive(Debug)]
pub struct WidgetStore<W, S> {
    pub entries: HashMap<u64, WidgetEntry<W, S>>,
}

impl<W, S> WidgetStore<W, S> {
    pub fn new() -> (r: Self)
        ensures
            r.entries@.is_empty(),
    {
        let r = WidgetStore { entries: HashMap::new() };
        assert(r.entries@ =~= Map::empty());
        r
    }

    /// Stores the instance declared for `widget_id` this frame: a created
    /// widget (or one without an entry) gets a fresh, empty state cell; an
    /// updated one has its instance replaced and keeps its state.
    pub fn declare(&mut self, widget_id: WidgetId, event: WidgetLifecycleEvent, widget: W)
        ensures
            final(self).entries@.dom() == old(self).entries@.dom().insert(widget_id.0),
            forall|k: u64| k != widget_id.0 && #[trigger] old(self).entries@.contains_key(k) ==> final(self).entries@[k]
                == old(self).entries@[k],
            final(self).entries@[widget_id.0].widget == widget,
            final(self).entries@[widget_id.0].state.value == (if event == WidgetLifecycleEvent::Updated
                && old(self).entries@.contains_key(widget_id.0) {
                old(self).entries@[widget_id.0].state.value
            } else {
                None
            }),
    {
        let ghost before = self.entries@;
        let state = match event {
            WidgetLifecycleEvent::Updated => match self.entries.remove(&widget_id.0) {
                Some(e) => e.state,
                None => StateBox::empty(),
            },
            _ => StateBox::empty(),
        };
        self.entries.insert(widget_id.0, WidgetEntry { widget, state });
        assert(self.entries@.dom() =~= before.dom().insert(widget_id.0));
    }

    /// Takes the entry of a collected identity out of the store.
    pub fn destroy(&mut self, widget_id: WidgetId) -> (r: Option<WidgetEntry<W, S>>)
        ensures
            final(self).entries@ == old(self).entries@.remove(widget_id.0),
            r == (if old(self).entries@.contains_key(widget_id.0) {
                Some(old(self).entries@[widget_id.0])
            } else {
                None
            }),
    {
        self.entries.remove(&widget_id.0)
    }
}

} // verus!
