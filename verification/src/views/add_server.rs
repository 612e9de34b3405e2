//! State of the add-server form.

use vstd::prelude::*;

verus! {

/// The field of the form that typed keys go to.
#[derive(PartialEq, Eq, Structural, Clone, Copy, Debug)]
pub enum AddServerField {
    Name,
    Url,
    ClientCert,
    ClientKey,
    CaCert,
}

impl AddServerField {
    pub open spec fn next_spec(self) -> Self {
        match self {
            AddServerField::Name => AddServerField::Url,
            AddServerField::Url => AddServerField::ClientCert,
            AddServerField::ClientCert => AddServerField::ClientKey,
            AddServerField::ClientKey => AddServerField::CaCert,
            AddServerField::CaCert => AddServerField::Name,
        }
    }

    /// The field Tab moves to: name → URL → client certificate → client key → CA
    /// certificate → name.
    pub fn next(self) -> (r: Self)
        ensures
            r == self.next_spec(),
    {
        match self {
            AddServerField::Name => AddServerField::Url,
            AddServerField::Url => AddServerField::ClientCert,
            AddServerField::ClientCert => AddServerField::ClientKey,
            AddServerField::ClientKey => AddServerField::CaCert,
            AddServerField::CaCert => AddServerField::Name,
        }
    }
}

impl Default for AddServerField {
    fn default() -> (r: Self)
        ensures
            r == AddServerField::Name,
    {
        AddServerField::Name
    }
}

pub struct AddServerState {
    pub name: String,
    pub url: String,
    /// Path of a client certificate (PEM), optional.
    pub client_cert: String,
    /// Path of the client certificate's key (PEM), optional.
    pub client_key: String,
    /// Path of a CA certificate (PEM) to trust, optional.
    pub ca_cert: String,
    pub field: AddServerField,
}

impl AddServerState {
    /// Whether every field is empty and the name field is active.
    pub open spec fn blank(&self) -> bool {
        &&& self.name@.len() == 0
        &&& self.url@.len() == 0
        &&& self.client_cert@.len() == 0
        &&& self.client_key@.len() == 0
        &&& self.ca_cert@.len() == 0
        &&& self.field == AddServerField::Name
    }
}

impl Default for AddServerState {
    fn default() -> (s: Self)
        ensures
            s.blank(),
    {
        AddServerState {
            name: String::new(),
            url: String::new(),
            client_cert: String::new(),
            client_key: String::new(),
            ca_cert: String::new(),
            field: AddServerField::Name,
        }
    }
}

} // verus!
