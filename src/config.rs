//! The client credentials used to reach the remote API.
use vstd::prelude::*;

verus! {

/// Client credentials, as read from the user's configuration file.
pub struct ClientConfig {
    pub client_id: String,
    pub client_secret: String,
    pub device_id: Option<String>,
}

impl ClientConfig {
    /// Empty credentials, to be filled from the configuration file.
    pub fn new() -> (r: Self)
        ensures
            r.client_id@ == Seq::<char>::empty(),
            r.client_secret@ == Seq::<char>::empty(),
            r.device_id is None,
    {
        ClientConfig { client_id: String::new(), client_secret: String::new(), device_id: None }
    }

    /// Replaces the credentials with those read from the configuration file.
    pub fn load(&mut self, read: ClientConfig)
        ensures
            final(self).client_id@ == read.client_id@,
            final(self).client_secret@ == read.client_secret@,
            final(self).device_id == read.device_id,
    {
        self.client_id = read.client_id;
        self.client_secret = read.client_secret;
        self.device_id = read.device_id;
    }
}

} // verus!
