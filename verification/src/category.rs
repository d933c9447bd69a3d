//! The fixed groups that partition a repository's content-addressed objects.

use vstd::prelude::*;

verus! {

/// One of the object groups of a repository.
///
/// The groups are synchronized one after another, in the order
/// `Data`, `Keys`, `Locks`, `Snapshots`, `Index`; they share no state.
#[derive(Clone, Copy, Debug, PartialEq, Eq, Structural)]
pub enum Category {
    Data,
    Keys,
    Locks,
    Snapshots,
    Index,
}

impl View for Category {
    type V = Category;

    open spec fn view(&self) -> Category {
        *self
    }
}

impl Category {
    /// The path segment under which the group is served.
    pub open spec fn label(self) -> Seq<char> {
        match self {
            Category::Data => "data"@,
            Category::Keys => "keys"@,
            Category::Locks => "locks"@,
            Category::Snapshots => "snapshots"@,
            Category::Index => "index"@,
        }
    }

    /// Position of the group in the synchronization order, starting at zero.
    pub open spec fn rank(self) -> nat {
        match self {
            Category::Data => 0,
            Category::Keys => 1,
            Category::Locks => 2,
            Category::Snapshots => 3,
            Category::Index => 4,
        }
    }

    /// The group that follows this one, if any.
    pub open spec fn successor(self) -> Option<Category> {
        match self {
            Category::Data => Some(Category::Keys),
            Category::Keys => Some(Category::Locks),
            Category::Locks => Some(Category::Snapshots),
            Category::Snapshots => Some(Category::Index),
            Category::Index => None,
        }
    }

    /// The group with which every run begins.
    pub fn first() -> (category: Category)
        ensures
            category == Category::Data,
            category.rank() == 0,
    {
        Category::Data
    }

    /// The group to synchronize after this one; `None` after the last.
    pub fn next(self) -> (following: Option<Category>)
        ensures
            following == self.successor(),
    {
        match self {
            Category::Data => Some(Category::Keys),
            Category::Keys => Some(Category::Locks),
            Category::Locks => Some(Category::Snapshots),
            Category::Snapshots => Some(Category::Index),
            Category::Index => None,
        }
    }

    /// The path segment under which the group is served.
    pub fn name(self) -> (text: &'static str)
        ensures
            text@ == self.label(),
    {
        match self {
            Category::Data => "data",
            Category::Keys => "keys",
            Category::Locks => "locks",
            Category::Snapshots => "snapshots",
            Category::Index => "index",
        }
    }
}

/// The successor relation walks the five groups in rank order, and only the
/// last group has no successor.
pub proof fn lemma_successor_follows_rank(category: Category)
    ensures
        category.rank() < 5,
        match category.successor() {
            Some(following) => following.rank() == category.rank() + 1,
            None => category.rank() == 4,
        },
{
}

} // verus!
