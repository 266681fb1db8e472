use vstd::prelude::*;

verus! {

/// A per-frame parameter: the first explicit `set` wins, otherwise the value
/// can be replaced by computed defaults through `set_default`.
#[derive(Debug, Clone, Copy, PartialEq, Eq, Structural)]
pub struct WidgetParameter<T> {
    value: T,
    set: bool,
}

impl<T: Copy> WidgetParameter<T> {
    /// The value held.
    pub closed spec fn spec_value(self) -> T {
        self.value
    }

    /// Whether the value was written explicitly.
    pub closed spec fn spec_is_set(self) -> bool {
        self.set
    }

    /// A parameter holding `initial_value`, not set explicitly.
    pub closed spec fn new_spec(initial_value: T) -> Self {
        WidgetParameter { value: initial_value, set: false }
    }

    pub broadcast proof fn lemma_new_spec(initial_value: T)
        ensures
            (#[trigger] Self::new_spec(initial_value)).spec_value() == initial_value,
            !Self::new_spec(initial_value).spec_is_set(),
    {
    }

    pub fn new(initial_value: T) -> (r: Self)
        ensures
            r == Self::new_spec(initial_value),
    {
        WidgetParameter { value: initial_value, set: false }
    }

    pub fn is_set(&self) -> (r: bool)
        ensures
            r == self.spec_is_set(),
    {
        self.set
    }

    /// The parameter after `set(value)`: the first explicit write of the frame
    /// wins, later ones leave it as it is.
    pub closed spec fn with_explicit(self, value: T) -> Self {
        if self.set {
            self
        } else {
            WidgetParameter { value, set: true }
        }
    }

    /// An explicit write: takes effect unless the parameter was already written
    /// explicitly, and marks it as set.
    pub fn set(&mut self, value: T)
        ensures
            *final(self) == old(self).with_explicit(value),
            old(self).spec_is_set() ==> *final(self) == *old(self),
            !old(self).spec_is_set() ==> final(self).spec_value() == value,
            final(self).spec_is_set(),
    {
        if !self.set {
            self.value = value;
            self.set = true;
        }
    }

    /// A computed default: takes effect only while nothing was set explicitly.
    pub fn set_default(&mut self, value: T)
        ensures
            *final(self) == old(self).with_default(value),
    {
        if !self.set {
            self.value = value;
        }
    }

    /// The parameter after `set_default(value)`.
    pub closed spec fn with_default(self, value: T) -> Self {
        if self.set {
            self
        } else {
            WidgetParameter { value, set: false }
        }
    }

    pub fn get(&self) -> (r: T)
        ensures
            r == self.spec_value(),
    {
        self.value
    }

    /// The explicit value if one was set, else `default`.
    pub fn get_or(&self, default: T) -> (r: T)
        ensures
            r == (if self.spec_is_set() { self.spec_value() } else { default }),
    {
        if self.set {
            self.value
        } else {
            default
        }
    }
}

impl<T: Copy> WidgetParameter<T> {
    /// A first explicit write takes effect; a later one leaves the parameter as it is.
    pub broadcast proof fn lemma_with_explicit(self, value: T)
        ensures
            self.spec_is_set() ==> #[trigger] self.with_explicit(value) == self,
            !self.spec_is_set() ==> self.with_explicit(value).spec_value() == value,
            self.with_explicit(value).spec_is_set(),
    {
    }

    /// An explicit value survives a default; otherwise the default replaces it.
    pub broadcast proof fn lemma_with_default(self, value: T)
        ensures
            self.spec_is_set() ==> #[trigger] self.with_default(value) == self,
            !self.spec_is_set() ==> self.with_default(value).spec_value() == value,
            self.with_default(value).spec_is_set() == self.spec_is_set(),
    {
    }
}

} // verus!

verus! {

/// What a widget declares about itself each frame besides its layout.
#[derive(Debug, Clone, Copy, PartialEq, Eq, Default, Structural)]
pub struct WidgetConfiguration {
    pub input: crate::input::InputBehaviour,
}

} // verus!
