//! Failed requests described without the address they went to.

use vstd::prelude::*;

use crate::text::{join, joined, views};

verus! {

/// One cause in the chain of causes of a failed request.
#[derive(Debug)]
pub struct Cause {
    /// What it says.
    pub text: String,
    /// Whether it is itself a failed request, and may name an address.
    pub is_request_error: bool,
}

/// What the causes say that name no address.
pub open spec fn told(causes: Seq<Cause>) -> Seq<Seq<char>>
    decreases causes.len(),
{
    if causes.len() == 0 {
        Seq::empty()
    } else if causes.last().is_request_error {
        told(causes.drop_last())
    } else {
        told(causes.drop_last()).push(causes.last().text@)
    }
}

/// The description of a failed request: the failure with its address removed, then its
/// causes but for those that may name an address.
pub open spec fn description(failure: Seq<char>, causes: Seq<Cause>) -> Seq<char> {
    joined(Seq::empty().push(failure) + told(causes), ": "@)
}

/// Describes a failed request, from the failure with its address removed and its
/// causes, the nearest first.
pub fn describe_request_error(failure: &str, causes: &Vec<Cause>) -> (text: String)
    ensures
        text@ == description(failure@, causes@),
{
    let mut parts: Vec<String> = Vec::new();
    parts.push(failure.to_owned());
    assert(views(parts@) =~= Seq::empty().push(failure@) + told(causes@.take(0)));
    let mut i: usize = 0;
    while i < causes.len()
        invariant
            i <= causes.len(),
            views(parts@) == Seq::empty().push(failure@) + told(causes@.take(i as int)),
        decreases causes.len() - i,
    {
        let ghost before = views(parts@);
        proof {
            assert(causes@.take(i + 1).drop_last() =~= causes@.take(i as int));
            assert(causes@.take(i + 1).last() == causes@[i as int]);
        }
        if !causes[i].is_request_error {
            parts.push(causes[i].text.clone());
            assert(views(parts@) =~= before.push(causes@[i as int].text@));
            assert(views(parts@) =~= Seq::empty().push(failure@) + told(causes@.take(i + 1)));
        }
        i += 1;
    }
    assert(causes@.take(i as int) =~= causes@);
    join(&parts, ": ")
}

/// A request that failed.
#[derive(Debug)]
pub struct RequestFailure {
    /// What the failure says, with its address removed.
    pub failure: String,
    /// Its causes, the nearest first.
    pub causes: Vec<Cause>,
}

impl RequestFailure {
    /// The description of the failure.
    pub open spec fn described(self) -> Seq<char> {
        description(self.failure@, self.causes@)
    }

    /// Describes the failure.
    pub fn describe(&self) -> (text: String)
        ensures
            text@ == self.described(),
    {
        describe_request_error(self.failure.as_str(), &self.causes)
    }
}

/// The description of an answer whose body cannot be read as JSON, given why not.
pub open spec fn undecodable(words: Seq<char>) -> Seq<char> {
    "error decoding response body: "@ + words
}

/// Describes an answer whose body cannot be read as JSON.
pub fn describe_undecodable(words: &str) -> (text: String)
    ensures
        text@ == undecodable(words@),
{
    "error decoding response body: ".to_owned().concat(words)
}

/// What a cause that may name an address says does not matter to the description.
pub proof fn addresses_are_never_told(
    failure: Seq<char>,
    before: Seq<Cause>,
    hidden: Cause,
    other: Cause,
)
    requires
        hidden.is_request_error,
        other.is_request_error,
    ensures
        description(failure, before.push(hidden)) == description(failure, before.push(other)),
        description(failure, before.push(hidden)) == description(failure, before),
{
    assert(before.push(hidden).drop_last() =~= before);
    assert(before.push(other).drop_last() =~= before);
}

} // verus!
