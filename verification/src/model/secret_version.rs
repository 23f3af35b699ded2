//! Additional types related to [`SecretVersion`](crate::model::SecretVersion).

use vstd::prelude::*;

pub mod state;

verus! {

/// The state of a secret version, indicating if it can be accessed. Carried
/// as open text so that states added to the schema later are tolerated; the
/// known values are the constants in [`state`].
#[derive(Clone, Debug, Default, PartialEq)]
pub struct State(pub String);

impl View for State {
    type V = Seq<char>;

    open spec fn view(&self) -> Seq<char> {
        self.0@
    }
}

impl State {
    /// Sets the enum value.
    pub fn set_value(self, v: String) -> (r: Self)
        ensures
            r@ == v@,
    {
        State(v)
    }

    /// Gets the enum value.
    pub fn value(&self) -> (r: &str)
        ensures
            r@ == self@,
    {
        self.0.as_str()
    }
}

} // verus!
