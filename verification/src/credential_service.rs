use vstd::prelude::*;

use crate::errors::OAuthError;
use crate::models::{credential_matches_payload, AddCredentialPayload, ServiceCredential};
use crate::repositories::CredentialRepository;

verus! {

/// Application-facing credential operations over a pluggable store.
pub struct CredentialService<R: CredentialRepository> {
    pub repo: R,
}

impl<R: CredentialRepository> CredentialService<R> {
    pub fn new(repo: R) -> (r: Self)
        ensures
            r.repo == repo,
    {
        CredentialService { repo }
    }

    /// Every stored credential, in store order.
    pub fn get_all_credentials(&self) -> (r: Result<Vec<ServiceCredential>, OAuthError>)
        requires
            self.repo.wf(),
        ensures
            r matches Ok(v) && v@ == self.repo.credentials(),
    {
        self.repo.get_all_credentials()
    }

    /// Store a new credential, under an id that no stored row carries.
    pub fn add_credential(&mut self, payload: AddCredentialPayload) -> (r: Result<
        ServiceCredential,
        OAuthError,
    >)
        requires
            old(self).repo.wf(),
        ensures
            final(self).repo.wf(),
            match r {
                Ok(c) => credential_matches_payload(c, payload) && final(self).repo.credentials()
                    == old(self).repo.credentials().push(c) && (forall|j: int|
                    0 <= j < old(self).repo.credentials().len() ==> #[trigger] old(
                        self,
                    ).repo.credentials()[j].id != c.id),
                Err(_) => final(self).repo.credentials() == old(self).repo.credentials(),
            },
    {
        self.repo.add_credential(payload)
    }

    /// The service names of every stored credential, in store order.
    pub fn get_credential_names(&self) -> (r: Result<Vec<String>, OAuthError>)
        requires
            self.repo.wf(),
        ensures
            r is Ok,
            r matches Ok(names) ==> names@.len() == self.repo.credentials().len() && (forall|
                i: int,
            |
                0 <= i < names@.len() ==> names@[i]@ == self.repo.credentials()[i].service_name@),
    {
        let creds = match self.get_all_credentials() {
            Ok(v) => v,
            Err(_) => {
                return Err(OAuthError::PersistenceError);
            },
        };
        let mut names: Vec<String> = Vec::new();
        let mut i: usize = 0;
        while i < creds.len()
            invariant
                i <= creds@.len(),
                names@.len() == i,
                forall|j: int| 0 <= j < i ==> names@[j]@ == creds@[j].service_name@,
            decreases creds@.len() - i,
        {
            names.push(creds[i].service_name.clone());
            i = i + 1;
        }
        Ok(names)
    }
}

} // verus!
