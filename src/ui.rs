use vstd::prelude::*;

use crate::hierarchy::{HierarchyError, WidgetId};
use crate::system::{System, WidgetLifecycleEvent};

verus! {

/// A broken usage invariant of the build API.
#[derive(Debug, Clone, Copy, PartialEq, Eq, Structural)]
pub enum UiError {
    /// A declaration broke an invariant of the hierarchy.
    Hierarchy(HierarchyError),
    /// A pop without a matching push.
    ParentStackEmpty,
    /// The innermost pushed parent was not declared in this frame.
    InvalidParent,
}

/// The declarative build API: declarations go under the innermost pushed parent.
#[derive(Debug)]
pub struct Ui {
    pub system: System,
    /// The parents pushed during this build, innermost last.
    pub stack: Vec<WidgetId>,
}

impl Ui {
    pub fn new() -> (r: Ui)
        ensures
            r.system.wf(),
            r.stack@.len() == 0,
    {
        Ui { system: System::new(), stack: Vec::new() }
    }

    /// The innermost pushed parent; `None` (the root) when nothing is pushed.
    pub fn parent_id(&self) -> (r: Option<WidgetId>)
        ensures
            r == (if self.stack@.len() == 0 {
                None
            } else {
                Some(self.stack@.last())
            }),
    {
        if self.stack.len() == 0 {
            None
        } else {
            Some(self.stack[self.stack.len() - 1])
        }
    }

    pub fn push_layout(&mut self, widget_id: WidgetId)
        ensures
            final(self).stack@ == old(self).stack@.push(widget_id),
            final(self).system == old(self).system,
    {
        self.stack.push(widget_id);
    }

    /// Pops the innermost parent; popping an empty stack is an error.
    pub fn pop_layout(&mut self) -> (r: Result<WidgetId, UiError>)
        ensures
            old(self).stack@.len() == 0 ==> r == Err::<WidgetId, UiError>(UiError::ParentStackEmpty)
                && final(self).stack@ == old(self).stack@,
            old(self).stack@.len() > 0 ==> r == Ok::<WidgetId, UiError>(old(self).stack@.last())
                && final(self).stack@ == old(self).stack@.drop_last(),
            final(self).system == old(self).system,
    {
        match self.stack.pop() {
            Some(id) => Ok(id),
            None => Err(UiError::ParentStackEmpty),
        }
    }

    /// Declares a widget under the innermost pushed parent, which must have been
    /// declared in this frame.
    pub fn add_widget(&mut self, type_tag: u64) -> (r: Result<(WidgetId, WidgetLifecycleEvent), UiError>)
        requires
            old(self).system.wf(),
        ensures
            final(self).system.wf(),
            final(self).stack@ == old(self).stack@,
            ({
                let parent = if old(self).stack@.len() == 0 {
                    None
                } else {
                    Some(old(self).stack@.last())
                };
                &&& !old(self).system.hierarchy@.can_declare_under(parent) ==> r == Err::<
                    (WidgetId, WidgetLifecycleEvent),
                    UiError,
                >(UiError::InvalidParent) && final(self).system.hierarchy@ == old(self).system.hierarchy@
                &&& old(self).system.hierarchy@.can_declare_under(parent) ==> final(self).system.hierarchy@
                    == old(self).system.hierarchy@.spec_add_or_update(type_tag, parent).0
                &&& old(self).system.hierarchy@.can_declare_under(parent) ==> match old(
                    self,
                ).system.hierarchy@.spec_add_or_update(type_tag, parent).1 {
                    Ok(u) => r == Ok::<(WidgetId, WidgetLifecycleEvent), UiError>(
                        (
                            u.widget_id,
                            if u.status == crate::hierarchy::NodeUpdateStatus::Added {
                                WidgetLifecycleEvent::Created
                            } else {
                                WidgetLifecycleEvent::Updated
                            },
                        ),
                    ),
                    Err(e) => r == Err::<(WidgetId, WidgetLifecycleEvent), UiError>(UiError::Hierarchy(e)),
                }
            }),
    {
        let parent = self.parent_id();
        if !self.system.hierarchy.can_declare_under(parent) {
            return Err(UiError::InvalidParent);
        }
        match self.system.add_widget_to(type_tag, parent) {
            Ok(r) => Ok(r),
            Err(e) => Err(UiError::Hierarchy(e)),
        }
    }
}

} // verus!
