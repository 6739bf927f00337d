//! What any store of actions offers, whatever it keeps them in.

use vstd::prelude::*;
use url::Url;
use crate::action::PlaceAction;
use crate::journal::{record, recorded_under, Journal};

verus! {

/// A place to record actions in and to ask for the actions of one URL.
///
/// A store is specified by the journal it holds, its view. Recording changes
/// the journal as [`record`] says, and nothing else changes it.
pub trait Store {
    /// The journal that the store holds: under each URL that was recorded,
    /// the actions recorded under it, oldest first.
    spec fn view(&self) -> Journal;

    /// Takes `action` into the store, behind the actions that were recorded
    /// under its URL before it. What is held under other URLs stays.
    fn record_place_action(&mut self, action: PlaceAction)
        ensures
            final(self)@ == record(old(self)@, action),
    ;

    /// Gives every action recorded under exactly `url`, oldest first, and
    /// an empty slice where no action was recorded under it.
    fn query_place_actions<'a>(&'a self, url: &Url) -> (actions: &'a [PlaceAction])
        ensures
            actions@ == recorded_under(self@, *url),
            forall|i: int| 0 <= i < actions@.len() ==> (#[trigger] actions@[i]).url == *url,
    ;
}

/// Asking twice gives the same: any two answers that one store gives to a
/// query for one URL hold the same actions in the same order. A query takes
/// the store by shared reference, so the store is the same after it.
pub proof fn lemma_query_is_repeatable<S: Store>(
    store: &S,
    url: &Url,
    first: &[PlaceAction],
    second: &[PlaceAction],
)
    requires
        call_ensures(S::query_place_actions, (store, url), first),
        call_ensures(S::query_place_actions, (store, url), second),
    ensures
        first@ == second@,
{
}

} // verus!
