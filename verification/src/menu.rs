use vstd::prelude::*;

verus! {

/// An entry of a row's "⋯" menu.
#[derive(Debug, Clone)]
pub struct MenuAction {
    pub label: String,
    pub icon: String,
    /// Drawn in red: the action deletes something.
    pub destructive: bool,
}

impl MenuAction {
    /// An ordinary entry.
    pub fn new(label: String, icon: String) -> (r: MenuAction)
        ensures
            r.label == label,
            r.icon == icon,
            !r.destructive,
    {
        MenuAction { label, icon, destructive: false }
    }

    /// The same entry, marked destructive.
    pub fn destructive(self) -> (r: MenuAction)
        ensures
            r.label == self.label,
            r.icon == self.icon,
            r.destructive,
    {
        let mut this = self;
        this.destructive = true;
        this
    }
}

} // verus!
