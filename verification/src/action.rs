//! One recorded event against one resource.

use vstd::prelude::*;
use time::Timespec;
use url::Url;
use crate::trusted::current_time;

verus! {

/// One observed event against one resource.
#[derive(Debug)]
pub struct PlaceAction {
    /// The resource the event happened to.
    pub url: Url,
    /// The instant at which the action was made.
    pub when: Timespec,
    /// The kind of event, free-form.
    pub event: String,
    /// The payload, free-form.
    pub data: String,
}

impl Clone for PlaceAction {
    /// Copies the action, field by field.
    fn clone(&self) -> (copy: PlaceAction)
        ensures
            copy == *self,
    {
        PlaceAction {
            url: self.url.clone(),
            when: self.when,
            event: self.event.clone(),
            data: self.data.clone(),
        }
    }
}

impl PlaceAction {
    /// Makes the action that was observed at the instant `when`.
    pub fn at(url: Url, when: Timespec, event: &str, data: &str) -> (action: PlaceAction)
        ensures
            action.url == url,
            action.when == when,
            action.event@ == event@,
            action.data@ == data@,
    {
        PlaceAction { url: url, when: when, event: event.to_owned(), data: data.to_owned() }
    }

    /// Makes an action and stamps it with the time that the system's clock
    /// shows now. Which instant that is lies with the clock.
    pub fn new(url: Url, event: &str, data: &str) -> (action: PlaceAction)
        ensures
            action.url == url,
            action.event@ == event@,
            action.data@ == data@,
    {
        PlaceAction::at(url, current_time(), event, data)
    }
}

} // verus!
