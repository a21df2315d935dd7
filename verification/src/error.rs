use vstd::prelude::*;

verus! {

/// Why a qualified domain name was refused.
#[derive(Debug)]
pub enum DomainError {
    DomainValidationError(String),
}

impl DomainError {
    /// The reason carried by the error, without the prefix that `message` adds.
    pub open spec fn reason(&self) -> Seq<char> {
        match self {
            DomainError::DomainValidationError(reason) => reason@,
        }
    }

    /// The text shown for this error.
    pub open spec fn message_text(&self) -> Seq<char> {
        "Domain validation error: "@ + self.reason()
    }

    pub fn message(&self) -> (text: String)
        ensures
            text@ == self.message_text(),
    {
        match self {
            DomainError::DomainValidationError(reason) => {
                let mut text = "Domain validation error: ".to_owned();
                text.append(reason.as_str());
                text
            },
        }
    }
}

/// Why an update was not carried out.
#[derive(Debug)]
pub enum UpdateError {
    /// The request itself is wrong; the provider was never asked.
    Validation(String),
    /// The provider could not be reached or reported a failure.
    Provider(String),
}

pub enum UpdateErrorView {
    Validation(Seq<char>),
    Provider(Seq<char>),
}

impl View for UpdateError {
    type V = UpdateErrorView;

    open spec fn view(&self) -> UpdateErrorView {
        match self {
            UpdateError::Validation(text) => UpdateErrorView::Validation(text@),
            UpdateError::Provider(text) => UpdateErrorView::Provider(text@),
        }
    }
}

impl UpdateErrorView {
    /// The status that the error is answered with: the caller's fault or
    /// the provider's.
    pub open spec fn status_code(self) -> u16 {
        match self {
            UpdateErrorView::Validation(_) => 400,
            UpdateErrorView::Provider(_) => 500,
        }
    }

    pub open spec fn text(self) -> Seq<char> {
        match self {
            UpdateErrorView::Validation(text) => text,
            UpdateErrorView::Provider(text) => text,
        }
    }
}

impl UpdateError {
    pub fn status_code(&self) -> (code: u16)
        ensures
            code == self@.status_code(),
    {
        match self {
            UpdateError::Validation(_) => 400,
            UpdateError::Provider(_) => 500,
        }
    }

    pub fn text(&self) -> (text: &str)
        ensures
            text@ == self@.text(),
    {
        match self {
            UpdateError::Validation(text) => text.as_str(),
            UpdateError::Provider(text) => text.as_str(),
        }
    }
}

} // verus!
