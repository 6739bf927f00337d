//! A store that keeps its actions in memory.

use vstd::prelude::*;
use url::Url;
use crate::action::PlaceAction;
use crate::journal::{record, recorded_under, Journal};
use crate::store::Store;

verus! {

/// The actions recorded under one URL.
#[derive(Debug)]
struct Group {
    url: Url,
    actions: Vec<PlaceAction>,
}

/// A store that lives as long as the value does and forgets nothing.
///
/// It keeps one group of actions for each URL and finds the group of a URL
/// by comparing URLs, one group after another.
#[derive(Debug)]
pub struct MemoryStore {
    /// One group for each URL that was recorded, in the order in which the
    /// URLs were first seen.
    data: Vec<Group>,
    /// Always empty: what a query borrows for a URL that has no group.
    sentinel: Vec<PlaceAction>,
}

/// No group is empty, each holds only actions of its own URL, and no two
/// groups share a URL.
spec fn keyed(groups: Seq<Group>) -> bool {
    &&& forall|i: int| 0 <= i < groups.len() ==> (#[trigger] groups[i]).actions@.len() > 0
    &&& forall|i: int, j: int|
        0 <= i < groups.len() && 0 <= j < groups[i].actions@.len()
            ==> (#[trigger] groups[i].actions@[j]).url == groups[i].url
    &&& forall|i: int, j: int|
        0 <= i < j < groups.len() ==> (#[trigger] groups[i]).url != (#[trigger] groups[j]).url
}

/// Whether `groups[i]` is the group of `url`.
spec fn is_slot(groups: Seq<Group>, url: Url, i: int) -> bool {
    0 <= i < groups.len() && groups[i].url == url
}

/// Where the group of `url` stands, if there is one.
spec fn slot(groups: Seq<Group>, url: Url) -> int {
    choose|i: int| is_slot(groups, url, i)
}

/// The journal that a table of groups stands for.
spec fn journal_of(groups: Seq<Group>) -> Journal {
    Map::new(
        |url: Url| exists|i: int| is_slot(groups, url, i),
        |url: Url| groups[slot(groups, url)].actions@,
    )
}

impl MemoryStore {
    /// What holds of every store: the sentinel is empty and the table is
    /// keyed.
    #[verifier::type_invariant]
    spec fn well_formed(&self) -> bool {
        &&& self.sentinel@.len() == 0
        &&& keyed(self.data@)
    }

    /// Makes a store in which nothing is recorded.
    pub fn new() -> (store: MemoryStore)
        ensures
            store@ == Journal::empty(),
    {
        MemoryStore { data: Vec::new(), sentinel: Vec::new() }
    }

    /// Looks for the group of `url`.
    fn position(&self, url: &Url) -> (found: Option<usize>)
        ensures
            match found {
                Some(i) => is_slot(self.data@, *url, i as int),
                None => forall|j: int| !is_slot(self.data@, *url, j),
            },
    {
        let mut i: usize = 0;
        while i < self.data.len()
            invariant
                i <= self.data@.len(),
                forall|j: int| 0 <= j < i ==> !is_slot(self.data@, *url, j),
            decreases self.data@.len() - i,
        {
            if self.data[i].url == *url {
                return Some(i);
            }
            i += 1;
        }
        None
    }
}

impl Store for MemoryStore {
    /// The journal that the table of groups stands for.
    closed spec fn view(&self) -> Journal {
        journal_of(self.data@)
    }

    fn record_place_action(&mut self, action: PlaceAction) {
        proof {
            use_type_invariant(&*self);
        }
        let found = self.position(&action.url);
        // The table leaves the store while it changes, so that the store is
        // well formed at every moment at which it can be seen.
        let mut data: Vec<Group> = Vec::new();
        core::mem::swap(&mut data, &mut self.data);
        let ghost before = data@;
        match found {
            Some(i) => {
                data[i].actions.push(action);
                proof {
                    lemma_append_in_group(before, data@, i as int, action);
                }
            },
            None => {
                let group = Group { url: action.url.clone(), actions: vec![action] };
                proof {
                    assert(group.actions@ =~= seq![action]);
                    lemma_new_group(before, group, action);
                }
                data.push(group);
            },
        }
        self.data = data;
    }

    fn query_place_actions<'a>(&'a self, url: &Url) -> (actions: &'a [PlaceAction]) {
        proof {
            use_type_invariant(self);
        }
        match self.position(url) {
            Some(i) => self.data[i].actions.as_slice(),
            None => self.sentinel.as_slice(),
        }
    }
}

impl View for Group {
    type V = (Url, Seq<PlaceAction>);

    /// The URL of the group and its actions, oldest first.
    closed spec fn view(&self) -> (Url, Seq<PlaceAction>) {
        (self.url, self.actions@)
    }
}

impl Clone for Group {
    /// Copies the group: the copy has the same URL and the same actions.
    fn clone(&self) -> (copy: Group)
        ensures
            copy@ == self@,
    {
        Group { url: self.url.clone(), actions: self.actions.clone() }
    }
}

impl Clone for MemoryStore {
    /// Copies the store: the copy holds the same journal.
    fn clone(&self) -> (copy: MemoryStore)
        ensures
            copy@ == self@,
    {
        proof {
            use_type_invariant(self);
        }
        let data = self.data.clone();
        proof {
            lemma_alike_tables(self.data@, data@);
        }
        MemoryStore { data: data, sentinel: Vec::new() }
    }
}

/// Adding an action to the group of its URL records it in the journal and
/// keeps the table keyed.
proof fn lemma_append_in_group(groups: Seq<Group>, after: Seq<Group>, i: int, action: PlaceAction)
    requires
        keyed(groups),
        is_slot(groups, action.url, i),
        after.len() == groups.len(),
        after[i].url == groups[i].url,
        after[i].actions@ == groups[i].actions@.push(action),
        forall|j: int| 0 <= j < groups.len() && j != i ==> after[j] == groups[j],
    ensures
        keyed(after),
        journal_of(after) == record(journal_of(groups), action),
{
    assert forall|j: int| 0 <= j < after.len() implies (#[trigger] after[j]).url
        == groups[j].url by {}
    let recorded = record(journal_of(groups), action);
    assert forall|url: Url| #![trigger journal_of(after).contains_key(url)]
        journal_of(after).contains_key(url) == recorded.contains_key(url)
            && recorded_under(journal_of(after), url) == recorded_under(recorded, url) by {
        if exists|k: int| is_slot(groups, url, k) {
            let k = choose|k: int| is_slot(groups, url, k);
            assert(is_slot(after, url, k));
        }
        if exists|k: int| is_slot(after, url, k) {
            let k = choose|k: int| is_slot(after, url, k);
            assert(is_slot(groups, url, k));
        }
    }
}

/// Adding a group for a URL that had none records its one action in the
/// journal and keeps the table keyed.
proof fn lemma_new_group(groups: Seq<Group>, group: Group, action: PlaceAction)
    requires
        keyed(groups),
        forall|j: int| !is_slot(groups, action.url, j),
        group.url == action.url,
        group.actions@ == seq![action],
    ensures
        keyed(groups.push(group)),
        journal_of(groups.push(group)) == record(journal_of(groups), action),
{
    let after = groups.push(group);
    let last = groups.len() as int;
    assert forall|i: int, j: int| 0 <= i < j < after.len() implies (#[trigger] after[i]).url
        != (#[trigger] after[j]).url by {
        assert(!is_slot(groups, action.url, i));
    }
    let recorded = record(journal_of(groups), action);
    assert forall|url: Url| #![trigger journal_of(after).contains_key(url)]
        journal_of(after).contains_key(url) == recorded.contains_key(url)
            && recorded_under(journal_of(after), url) == recorded_under(recorded, url) by {
        assert(is_slot(after, action.url, last));
        if exists|k: int| is_slot(groups, url, k) {
            let k = choose|k: int| is_slot(groups, url, k);
            assert(is_slot(after, url, k));
        }
        if exists|k: int| is_slot(after, url, k) {
            let k = choose|k: int| is_slot(after, url, k);
            assert(k < last ==> is_slot(groups, url, k));
        }
    }
}

/// Two tables whose groups look alike, one by one, stand for one journal.
proof fn lemma_alike_tables(groups: Seq<Group>, copies: Seq<Group>)
    requires
        keyed(groups),
        copies.len() == groups.len(),
        forall|i: int| 0 <= i < groups.len() ==> (#[trigger] copies[i])@ == groups[i]@,
    ensures
        keyed(copies),
        journal_of(copies) == journal_of(groups),
{
    assert forall|i: int| 0 <= i < groups.len() implies (#[trigger] copies[i]).url
        == groups[i].url && copies[i].actions@ == groups[i].actions@ by {}
    assert forall|url: Url| #![trigger journal_of(copies).contains_key(url)]
        journal_of(copies).contains_key(url) == journal_of(groups).contains_key(url)
            && recorded_under(journal_of(copies), url)
            == recorded_under(journal_of(groups), url) by {
        if exists|k: int| is_slot(groups, url, k) {
            let k = choose|k: int| is_slot(groups, url, k);
            assert(is_slot(copies, url, k));
        }
        if exists|k: int| is_slot(copies, url, k) {
            let k = choose|k: int| is_slot(copies, url, k);
            assert(is_slot(groups, url, k));
        }
    }
}

} // verus!
