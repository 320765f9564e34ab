use vstd::prelude::*;

verus! {

/// Where and how to connect.
#[derive(Debug)]
pub struct MqttOptions {
    /// Broker address, `host:port`.
    pub addr: String,
    /// Keep-alive interval in seconds; `None` sends no pings.
    pub keep_alive: Option<u16>,
    /// Whether the broker should forget the session on disconnection.
    pub clean_session: bool,
    /// The client identifier sent in the CONNECT packet.
    pub client_id: Option<String>,
    /// User name and password.
    pub credentials: Option<(String, String)>,
    /// Largest payload, in bytes, that is queued for publishing.
    pub storepack_sz: usize,
    /// Most publishes kept in memory while they wait for their PUBACK;
    /// further publishes go to the backlog.
    pub queue_limit: usize,
    /// Most publishes the backlog takes before new ones are dropped.
    pub backlog_limit: usize,
    /// File that keeps the backlog across restarts; `None` keeps it in
    /// memory only.
    pub backup_path: Option<String>,
}

impl MqttOptions {
    /// Options with a 5 second keep-alive, a clean session, no client
    /// identifier, no credentials, a 100 KiB payload limit, room for 2500
    /// unacknowledged publishes in memory and 10000 in the backlog, no
    /// backup file, and the broker at `localhost:1883`.
    pub fn new() -> (r: MqttOptions)
        ensures
            r.addr@ == "localhost:1883"@,
            r.keep_alive == Some(5u16),
            r.clean_session,
            r.client_id is None,
            r.credentials is None,
            r.storepack_sz == 100 * 1024,
            r.queue_limit == 2500,
            r.backlog_limit == 10000,
            r.backup_path is None,
    {
        MqttOptions {
            addr: "localhost:1883".to_owned(),
            keep_alive: Some(5),
            clean_session: true,
            client_id: None,
            credentials: None,
            storepack_sz: 100 * 1024,
            queue_limit: 2500,
            backlog_limit: 10000,
            backup_path: None,
        }
    }

    /// Sets the client identifier.
    pub fn set_client_id(self, client_id: &str) -> (r: MqttOptions)
        ensures
            r.client_id matches Some(id) && id@ == client_id@,
            r.addr == self.addr,
            r.keep_alive == self.keep_alive,
            r.clean_session == self.clean_session,
            r.credentials == self.credentials,
            r.storepack_sz == self.storepack_sz,
            r.queue_limit == self.queue_limit,
            r.backlog_limit == self.backlog_limit,
            r.backup_path == self.backup_path,
    {
        MqttOptions { client_id: Some(client_id.to_owned()), ..self }
    }

    /// Sets the broker address.
    pub fn set_broker(self, addr: &str) -> (r: MqttOptions)
        ensures
            r.addr@ == addr@,
            r.keep_alive == self.keep_alive,
            r.clean_session == self.clean_session,
            r.client_id == self.client_id,
            r.credentials == self.credentials,
            r.storepack_sz == self.storepack_sz,
            r.queue_limit == self.queue_limit,
            r.backlog_limit == self.backlog_limit,
            r.backup_path == self.backup_path,
    {
        MqttOptions { addr: addr.to_owned(), ..self }
    }

    /// Sets the keep-alive interval in seconds.
    pub fn set_keep_alive(self, secs: u16) -> (r: MqttOptions)
        ensures
            r == (MqttOptions { keep_alive: Some(secs), ..self }),
    {
        MqttOptions { keep_alive: Some(secs), ..self }
    }

    /// Sets whether the session is clean.
    pub fn set_clean_session(self, clean_session: bool) -> (r: MqttOptions)
        ensures
            r == (MqttOptions { clean_session, ..self }),
    {
        MqttOptions { clean_session, ..self }
    }

    /// Sets the user name and the password.
    pub fn set_credentials(self, user: &str, password: &str) -> (r: MqttOptions)
        ensures
            r.credentials matches Some((u, p)) && u@ == user@ && p@ == password@,
            r.addr == self.addr,
            r.keep_alive == self.keep_alive,
            r.clean_session == self.clean_session,
            r.client_id == self.client_id,
            r.storepack_sz == self.storepack_sz,
            r.queue_limit == self.queue_limit,
            r.backlog_limit == self.backlog_limit,
            r.backup_path == self.backup_path,
    {
        MqttOptions { credentials: Some((user.to_owned(), password.to_owned())), ..self }
    }

    /// Sets the largest payload that is queued for publishing.
    pub fn set_storepack_sz(self, size: usize) -> (r: MqttOptions)
        ensures
            r == (MqttOptions { storepack_sz: size, ..self }),
    {
        MqttOptions { storepack_sz: size, ..self }
    }

    /// Sets how many unacknowledged publishes are kept in memory.
    pub fn set_queue_limit(self, limit: usize) -> (r: MqttOptions)
        ensures
            r == (MqttOptions { queue_limit: limit, ..self }),
    {
        MqttOptions { queue_limit: limit, ..self }
    }

    /// Sets how many publishes the backlog takes before dropping new ones.
    pub fn set_backlog_limit(self, limit: usize) -> (r: MqttOptions)
        ensures
            r == (MqttOptions { backlog_limit: limit, ..self }),
    {
        MqttOptions { backlog_limit: limit, ..self }
    }

    /// Sets the file that keeps the backlog across restarts.
    pub fn set_backup_path(self, path: &str) -> (r: MqttOptions)
        ensures
            r.backup_path matches Some(p) && p@ == path@,
            r.addr == self.addr,
            r.keep_alive == self.keep_alive,
            r.clean_session == self.clean_session,
            r.client_id == self.client_id,
            r.credentials == self.credentials,
            r.storepack_sz == self.storepack_sz,
            r.queue_limit == self.queue_limit,
            r.backlog_limit == self.backlog_limit,
    {
        MqttOptions { backup_path: Some(path.to_owned()), ..self }
    }
}

} // verus!
