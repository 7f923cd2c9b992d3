//! The settings of the mail relay.

use vstd::prelude::*;

verus! {

/// The delay between two sends of a batch, in milliseconds, where the
/// settings name none.
pub const DEFAULT_SEND_DELAY_MS: u64 = 2000;

/// Where and as whom messages are handed in, and how long a batch pauses
/// between two of them.
#[derive(Debug, Clone)]
pub struct SmtpConfig {
    pub host: String,
    pub username: String,
    pub password: String,
    pub from_name: String,
    pub send_delay_ms: u64,
}

/// The inter-send delay of settings that leave it out.
pub fn default_delay() -> (millis: u64)
    ensures
        millis == DEFAULT_SEND_DELAY_MS,
{
    DEFAULT_SEND_DELAY_MS
}

impl SmtpConfig {
    /// A copy of these settings.
    pub fn snapshot(&self) -> (copy: Self)
        ensures
            copy == *self,
    {
        SmtpConfig {
            host: self.host.clone(),
            username: self.username.clone(),
            password: self.password.clone(),
            from_name: self.from_name.clone(),
            send_delay_ms: self.send_delay_ms,
        }
    }

    /// The settings made of the four texts that a settings file must hold
    /// and of the delay that it may hold: where `send_delay_ms` is `None`,
    /// the delay is the default.
    pub fn new(
        host: String,
        username: String,
        password: String,
        from_name: String,
        send_delay_ms: Option<u64>,
    ) -> (config: Self)
        ensures
            config.host == host,
            config.username == username,
            config.password == password,
            config.from_name == from_name,
            config.send_delay_ms == match send_delay_ms {
                Some(millis) => millis,
                None => DEFAULT_SEND_DELAY_MS,
            },
    {
        let delay = match send_delay_ms {
            Some(millis) => millis,
            None => default_delay(),
        };
        SmtpConfig { host, username, password, from_name, send_delay_ms: delay }
    }
}

} // verus!
