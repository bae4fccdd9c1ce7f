//! The SFTP connector: its settings, the address it connects to, and how it
//! signs in. The session itself is run by the caller.

use vstd::prelude::*;

use crate::text::{append_str, append_vec, chars_of, decimal, decimal_vec, string_of};

verus! {

/// An SFTP server account.
pub struct SftpConnector {
    host: String,
    port: u16,
    username: String,
    password: Option<String>,
    key_path: Option<String>,
}

/// How a session signs in: with the password where one is set, else with the
/// key file where one is set, else not at all.
#[derive(Debug)]
pub enum SftpAuth {
    Password(String),
    KeyFile(String),
    Anonymous,
}

impl SftpConnector {
    pub closed spec fn spec_host(&self) -> Seq<char> {
        self.host@
    }

    pub closed spec fn spec_port(&self) -> u16 {
        self.port
    }

    pub closed spec fn spec_username(&self) -> Seq<char> {
        self.username@
    }

    pub closed spec fn spec_password(&self) -> Option<Seq<char>> {
        match &self.password {
            Some(p) => Some(p@),
            None => None,
        }
    }

    pub closed spec fn spec_key_path(&self) -> Option<Seq<char>> {
        match &self.key_path {
            Some(p) => Some(p@),
            None => None,
        }
    }

    pub fn new(host: String, username: String) -> (r: Self)
        ensures
            r.spec_host() == host@,
            r.spec_username() == username@,
            r.spec_port() == 22,
            r.spec_password() is None,
            r.spec_key_path() is None,
    {
        SftpConnector { host, port: 22, username, password: None, key_path: None }
    }

    pub fn with_password(self, password: String) -> (r: Self)
        ensures
            r.spec_host() == self.spec_host(),
            r.spec_username() == self.spec_username(),
            r.spec_port() == self.spec_port(),
            r.spec_password() == Some(password@),
            r.spec_key_path() == self.spec_key_path(),
    {
        SftpConnector { password: Some(password), ..self }
    }

    pub fn with_key(self, key_path: String) -> (r: Self)
        ensures
            r.spec_host() == self.spec_host(),
            r.spec_username() == self.spec_username(),
            r.spec_port() == self.spec_port(),
            r.spec_password() == self.spec_password(),
            r.spec_key_path() == Some(key_path@),
    {
        SftpConnector { key_path: Some(key_path), ..self }
    }

    pub fn with_port(self, port: u16) -> (r: Self)
        ensures
            r.spec_host() == self.spec_host(),
            r.spec_username() == self.spec_username(),
            r.spec_port() == port,
            r.spec_password() == self.spec_password(),
            r.spec_key_path() == self.spec_key_path(),
    {
        SftpConnector { port, ..self }
    }

    pub fn username(&self) -> (r: &str)
        ensures
            r@ == self.spec_username(),
    {
        self.username.as_str()
    }

    pub fn name(&self) -> (r: &'static str)
        ensures
            r@ == "sftp"@,
    {
        "sftp"
    }

    /// The address a session connects to: `host:port`.
    pub fn address(&self) -> (r: String)
        ensures
            r@ == self.spec_host() + ":"@ + decimal(self.spec_port() as nat),
    {
        let mut out = chars_of(self.host.as_str());
        append_str(&mut out, ":");
        append_vec(&mut out, &decimal_vec(self.port as usize));
        string_of(out.as_slice())
    }

    /// How a session signs in.
    pub fn auth(&self) -> (r: SftpAuth)
        ensures
            match self.spec_password() {
                Some(p) => r matches SftpAuth::Password(x) && x@ == p,
                None => match self.spec_key_path() {
                    Some(k) => r matches SftpAuth::KeyFile(x) && x@ == k,
                    None => r is Anonymous,
                },
            },
    {
        match &self.password {
            Some(p) => SftpAuth::Password(p.clone()),
            None => match &self.key_path {
                Some(k) => SftpAuth::KeyFile(k.clone()),
                None => SftpAuth::Anonymous,
            },
        }
    }
}

} // verus!
