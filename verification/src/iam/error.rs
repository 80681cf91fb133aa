//! What can go wrong with an identity token.

use vstd::prelude::*;

verus! {

/// What can go wrong when an identity token is minted or checked.
#[derive(Debug)]
pub enum IamError {
    /// The metadata server could not be reached, or declined.
    MetadataUnavailable(String),
    /// The metadata server answered, but not with a token.
    MalformedToken(String),
    /// The signing keys could not be fetched.
    JwksUnavailable(String),
    /// The token was refused. Why is for the server's log, never for the caller.
    Rejected(String),
}

/// What can go wrong when an identity token is minted or checked.
pub enum IamErrorView {
    /// The metadata server could not be reached, or declined.
    MetadataUnavailable(Seq<char>),
    /// The metadata server answered, but not with a token.
    MalformedToken(Seq<char>),
    /// The signing keys could not be fetched.
    JwksUnavailable(Seq<char>),
    /// The token was refused.
    Rejected(Seq<char>),
}

impl View for IamError {
    type V = IamErrorView;

    open spec fn view(&self) -> IamErrorView {
        match *self {
            IamError::MetadataUnavailable(why) => IamErrorView::MetadataUnavailable(why@),
            IamError::MalformedToken(why) => IamErrorView::MalformedToken(why@),
            IamError::JwksUnavailable(why) => IamErrorView::JwksUnavailable(why@),
            IamError::Rejected(why) => IamErrorView::Rejected(why@),
        }
    }
}

/// What an error says.
pub open spec fn iam_error_text(error: IamErrorView) -> Seq<char> {
    match error {
        IamErrorView::MetadataUnavailable(why) =>
            "identity token unavailable from the metadata server: "@ + why,
        IamErrorView::MalformedToken(why) => "metadata server returned an unusable token: "@ + why,
        IamErrorView::JwksUnavailable(why) => "could not fetch Google signing keys: "@ + why,
        IamErrorView::Rejected(why) => "identity token rejected: "@ + why,
    }
}

impl IamError {
    /// What the error says.
    pub fn message(&self) -> (text: String)
        ensures
            text@ == iam_error_text(self@),
    {
        match self {
            IamError::MetadataUnavailable(why) =>
                "identity token unavailable from the metadata server: ".to_owned().concat(
            why.as_str()),
            IamError::MalformedToken(why) =>
                "metadata server returned an unusable token: ".to_owned().concat(why.as_str()),
            IamError::JwksUnavailable(why) => "could not fetch Google signing keys: ".to_owned().concat(
            why.as_str()),
            IamError::Rejected(why) => "identity token rejected: ".to_owned().concat(why.as_str()),
        }
    }
}

} // verus!
