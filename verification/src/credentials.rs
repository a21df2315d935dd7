//! The caller's provider credentials. They are carried through to the
//! provider and never inspected.

use vstd::prelude::*;

verus! {

/// The two texts that `Credentials` hold.
pub struct CredentialsView {
    pub api_key: Seq<char>,
    pub secret_key: Seq<char>,
}

#[derive(Debug)]
pub struct Credentials {
    api_key: String,
    secret_key: String,
}

impl View for Credentials {
    type V = CredentialsView;

    closed spec fn view(&self) -> CredentialsView {
        CredentialsView { api_key: self.api_key@, secret_key: self.secret_key@ }
    }
}

impl Clone for Credentials {
    fn clone(&self) -> (copy: Self)
        ensures
            copy@ == self@,
    {
        Credentials { api_key: self.api_key.clone(), secret_key: self.secret_key.clone() }
    }
}

impl Credentials {
    pub fn new(api_key: String, secret_key: String) -> (credentials: Self)
        ensures
            credentials@.api_key == api_key@,
            credentials@.secret_key == secret_key@,
    {
        Self { api_key, secret_key }
    }

    pub fn api_key(&self) -> (key: &str)
        ensures
            key@ == self@.api_key,
    {
        self.api_key.as_str()
    }

    pub fn secret_key(&self) -> (key: &str)
        ensures
            key@ == self@.secret_key,
    {
        self.secret_key.as_str()
    }
}

} // verus!
