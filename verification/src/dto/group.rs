use vstd::prelude::*;

verus! {

/// The envelope of every request and response about groups.
#[derive(Debug)]
pub struct GroupBody<T> {
    pub group: T,
}

/// A group as the identity store holds it: an id and a name that no other
/// group has.
#[derive(Debug)]
pub struct Group {
    pub id: u128,
    pub name: String,
}

/// What a `Group` is in contracts.
pub struct GroupView {
    pub id: u128,
    pub name: Seq<char>,
}

impl View for Group {
    type V = GroupView;

    open spec fn view(&self) -> GroupView {
        GroupView { id: self.id, name: self.name@ }
    }
}

/// The request to create a group.
#[derive(Debug)]
pub struct NewGroup {
    pub name: String,
}

/// The request to change a group: `None` keeps the name.
#[derive(Debug)]
pub struct UpdateGroup {
    pub name: Option<String>,
}

impl Default for UpdateGroup {
    fn default() -> (r: UpdateGroup)
        ensures
            r.name is None,
    {
        UpdateGroup { name: None }
    }
}

impl UpdateGroup {
    /// Whether the update names nothing to change.
    pub fn is_empty(&self) -> (r: bool)
        ensures
            r == (self.name is None),
    {
        self.name.is_none()
    }
}

} // verus!
