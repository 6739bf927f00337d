//! The mathematical model of a store, and what holds of it.
//!
//! A journal maps each URL that was ever recorded to the actions recorded
//! under it, oldest first. The stores of this library are specified by the
//! journal they hold. The lemmas here say what that means for a caller who
//! records a run of actions and then asks for one URL.

use vstd::prelude::*;
use url::Url;
use crate::action::PlaceAction;

verus! {

/// What a store holds: under each URL that was recorded, the actions
/// recorded under it, oldest first.
pub type Journal = Map<Url, Seq<PlaceAction>>;

/// The actions among `actions` that were made against `url`, in the order in
/// which they stand in `actions`.
pub open spec fn about(actions: Seq<PlaceAction>, url: Url) -> Seq<PlaceAction> {
    actions.filter(|action: PlaceAction| action.url == url)
}

/// What `journal` holds under `url`: nothing at all where no action was ever
/// recorded under it.
pub open spec fn recorded_under(journal: Journal, url: Url) -> Seq<PlaceAction> {
    if journal.contains_key(url) {
        journal[url]
    } else {
        Seq::empty()
    }
}

/// The journal after `action` was recorded in `journal`: the action stands
/// behind the others of its URL, and every other URL is left as it was.
pub open spec fn record(journal: Journal, action: PlaceAction) -> Journal {
    journal.insert(action.url, recorded_under(journal, action.url).push(action))
}

/// The journal after `actions` were recorded in `journal` one after another,
/// the first of them first.
pub open spec fn record_all(journal: Journal, actions: Seq<PlaceAction>) -> Journal
    decreases actions.len(),
{
    if actions.len() == 0 {
        journal
    } else {
        record(record_all(journal, actions.drop_last()), actions.last())
    }
}

/// Every action of `journal` is filed under its own URL, and so under no
/// other; and no URL is filed with nothing under it.
pub open spec fn grouped(journal: Journal) -> bool {
    &&& forall|url: Url| #[trigger] journal.contains_key(url) ==> journal[url].len() > 0
    &&& forall|url: Url, i: int|
        journal.contains_key(url) && 0 <= i < journal[url].len()
            ==> (#[trigger] journal[url][i]).url == url
}

/// Recording one action puts it behind the actions of its own URL and
/// changes what is held under no other URL.
pub proof fn lemma_record_appends(journal: Journal, action: PlaceAction, url: Url)
    ensures
        recorded_under(record(journal, action), url) == if action.url == url {
            recorded_under(journal, url).push(action)
        } else {
            recorded_under(journal, url)
        },
{
}

/// Recording one more action after a run of them is recording the longer
/// run: a store that started empty and took `actions` one by one holds
/// `record_all(Journal::empty(), actions)`.
pub proof fn lemma_record_all_push(journal: Journal, actions: Seq<PlaceAction>, action: PlaceAction)
    ensures
        record_all(journal, actions.push(action)) == record(record_all(journal, actions), action),
{
    assert(actions.push(action).drop_last() =~= actions);
}

/// After a run of actions was recorded, a query for `url` gives what it gave
/// before, followed by exactly the actions of the run that were made against
/// `url`, in the order in which they were recorded.
pub proof fn lemma_record_all_appends(journal: Journal, actions: Seq<PlaceAction>, url: Url)
    ensures
        recorded_under(record_all(journal, actions), url)
            == recorded_under(journal, url) + about(actions, url),
    decreases actions.len(),
{
    reveal(Seq::filter);
    if actions.len() > 0 {
        let earlier = actions.drop_last();
        let last = actions.last();
        lemma_record_all_appends(journal, earlier, url);
        if last.url == url {
            let before = recorded_under(journal, url);
            assert(before + about(earlier, url).push(last)
                =~= (before + about(earlier, url)).push(last));
        }
    }
}

/// In a store that started empty, a query for `url` gives exactly the
/// recorded actions that were made against `url`, in the order in which they
/// were recorded, and no others.
pub proof fn lemma_query_gives_the_actions_of_its_url(actions: Seq<PlaceAction>, url: Url)
    ensures
        recorded_under(record_all(Journal::empty(), actions), url) == about(actions, url),
{
    lemma_record_all_appends(Journal::empty(), actions, url);
}

/// A URL under which no action was ever recorded gives a query nothing.
pub proof fn lemma_unrecorded_url_gives_nothing(actions: Seq<PlaceAction>, url: Url)
    requires
        forall|i: int| 0 <= i < actions.len() ==> (#[trigger] actions[i]).url != url,
    ensures
        recorded_under(record_all(Journal::empty(), actions), url).len() == 0,
{
    lemma_query_gives_the_actions_of_its_url(actions, url);
    actions.lemma_all_neg_filter_empty(|action: PlaceAction| action.url == url);
}

/// One more recorded action raises the count of its own URL by exactly one
/// and leaves every other count as it was.
pub proof fn lemma_record_counts_one(journal: Journal, action: PlaceAction, url: Url)
    ensures
        action.url == url ==> recorded_under(record(journal, action), url).len()
            == recorded_under(journal, url).len() + 1,
        action.url != url ==> recorded_under(record(journal, action), url).len()
            == recorded_under(journal, url).len(),
{
}

/// Recording never takes an action away: what a query for `url` gave before
/// a run of actions was recorded is the beginning of what it gives after, and
/// the count has grown by the number of actions in the run made against
/// `url`.
pub proof fn lemma_recording_only_appends(journal: Journal, actions: Seq<PlaceAction>, url: Url)
    ensures
        recorded_under(journal, url).is_prefix_of(
            recorded_under(record_all(journal, actions), url),
        ),
        recorded_under(record_all(journal, actions), url).len()
            == recorded_under(journal, url).len() + about(actions, url).len(),
        recorded_under(record_all(journal, actions), url).len()
            >= recorded_under(journal, url).len(),
{
    lemma_record_all_appends(journal, actions, url);
}

/// Recording keeps a journal grouped: each action stays under its own URL.
pub proof fn lemma_record_keeps_grouped(journal: Journal, action: PlaceAction)
    requires
        grouped(journal),
    ensures
        grouped(record(journal, action)),
{
}

/// Recording a run of actions keeps a journal grouped.
pub proof fn lemma_record_all_keeps_grouped(journal: Journal, actions: Seq<PlaceAction>)
    requires
        grouped(journal),
    ensures
        grouped(record_all(journal, actions)),
    decreases actions.len(),
{
    if actions.len() > 0 {
        lemma_record_all_keeps_grouped(journal, actions.drop_last());
        lemma_record_keeps_grouped(record_all(journal, actions.drop_last()), actions.last());
    }
}

/// Every journal that a store which started empty can come to hold is
/// grouped.
pub proof fn lemma_journal_of_a_store_is_grouped(actions: Seq<PlaceAction>)
    ensures
        grouped(record_all(Journal::empty(), actions)),
{
    lemma_record_all_keeps_grouped(Journal::empty(), actions);
}

/// Whatever was recorded in a store that started empty, every action that a
/// query for `url` gives was made against `url`.
pub proof fn lemma_query_gives_only_its_url(actions: Seq<PlaceAction>, url: Url, i: int)
    requires
        0 <= i < recorded_under(record_all(Journal::empty(), actions), url).len(),
    ensures
        recorded_under(record_all(Journal::empty(), actions), url)[i].url == url,
{
    lemma_query_gives_the_actions_of_its_url(actions, url);
    actions.lemma_filter_pred(|action: PlaceAction| action.url == url, i);
}

} // verus!
