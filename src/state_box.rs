use vstd::prelude::*;

verus! {

/// A widget's persistent state cell: empty until first requested, then kept
/// across frames until the widget is collected.
#[derive(Debug)]
pub struct StateBox<T> {
    pub value: Option<T>,
}

impl<T> StateBox<T> {
    pub fn empty() -> (r: Self)
        ensures
            r.value is None,
    {
        StateBox { value: None }
    }

    pub fn new(value: T) -> (r: Self)
        ensures
            r.value == Some(value),
    {
        StateBox { value: Some(value) }
    }

    /// Whether the cell holds a value.
    pub fn has(&self) -> (r: bool)
        ensures
            r == self.value is Some,
    {
        self.value.is_some()
    }

    pub fn set(&mut self, value: T)
        ensures
            final(self).value == Some(value),
    {
        self.value = Some(value);
    }

    /// The held value, after storing `create` if the cell was empty.
    pub fn get_or_insert(&mut self, create: T) -> (r: &mut T)
        ensures
            *r == match old(self).value {
                Some(v) => v,
                None => create,
            },
            final(self).value == Some(*final(r)),
    {
        if self.value.is_none() {
            self.value = Some(create);
        }
        match &mut self.value {
            Some(v) => v,
            None => vstd::pervasive::unreached(),
        }
    }

    /// The held value, after storing `T::default()` if the cell was empty.
    pub fn get_or_default(&mut self) -> (r: &mut T)
        where
            T: Default,
        ensures
            old(self).value matches Some(v) ==> *r == v,
            final(self).value == Some(*final(r)),
    {
        if self.value.is_none() {
            self.value = Some(T::default());
        }
        match &mut self.value {
            Some(v) => v,
            None => vstd::pervasive::unreached(),
        }
    }

    /// The held value; the cell must not be empty.
    pub fn get(&mut self) -> (r: &mut T)
        requires
            old(self).value is Some,
        ensures
            *r == old(self).value->Some_0,
            final(self).value == Some(*final(r)),
    {
        match &mut self.value {
            Some(v) => v,
            None => vstd::pervasive::unreached(),
        }
    }
}

} // verus!
