//! The receivers that this process announces itself: discovery passes them
//! over, so that a process does not cast to itself.

use vstd::prelude::*;
use vstd::string::*;

use crate::text_map::TextMap;

verus! {

/// The identifiers of the process's own receivers.
pub struct SelfFilter {
    ids: TextMap<()>,
}

impl View for SelfFilter {
    type V = Set<Seq<char>>;

    closed spec fn view(&self) -> Set<Seq<char>> {
        self.ids@.dom()
    }
}

impl SelfFilter {
    /// No receiver is announced.
    pub fn new() -> (filter: Self)
        ensures
            filter@ == Set::<Seq<char>>::empty(),
    {
        let filter = SelfFilter { ids: TextMap::new() };
        assert(filter@ =~= Set::<Seq<char>>::empty());
        filter
    }

    /// The receiver `id` is announced by this process.
    pub fn register(&mut self, id: &str)
        ensures
            final(self)@ == old(self)@.insert(id@),
    {
        self.ids.insert(id.to_owned(), ());
        assert(self@ =~= old(self)@.insert(id@));
    }

    /// The receiver `id` is not announced any more.
    pub fn unregister(&mut self, id: &str)
        ensures
            final(self)@ == old(self)@.remove(id@),
    {
        let _ = self.ids.remove(id);
        assert(self@ =~= old(self)@.remove(id@));
    }

    /// Whether the receiver `id` is announced by this process.
    pub fn contains(&self, id: &str) -> (held: bool)
        ensures
            held == self@.contains(id@),
    {
        self.ids.get(id).is_some()
    }
}

/// A receiver counts as the process's own from its registration until it is
/// unregistered, however often it was registered, and no other is touched.
pub proof fn registered_until_unregistered(ids: Set<Seq<char>>, id: Seq<char>, other: Seq<char>)
    requires
        other != id,
    ensures
        ids.insert(id).contains(id),
        ids.insert(id).insert(id) == ids.insert(id),
        !ids.insert(id).remove(id).contains(id),
        ids.insert(id).contains(other) == ids.contains(other),
        ids.remove(id).contains(other) == ids.contains(other),
{
    assert(ids.insert(id).insert(id) =~= ids.insert(id));
}

} // verus!
