use vstd::prelude::*;
use crate::number::{int_in_range, parse_int};
use crate::uri::AmqpUri;

verus! {

/// The port that `s` names, as `u16`'s `FromStr` reads it: an optional `+`,
/// then one or more decimal digits whose value fits in 16 bits.
pub open spec fn port_value(s: Seq<char>) -> Option<u16> {
    match int_in_range(s, false, 0, u16::MAX as int) {
        Some(v) => Some(v as u16),
        None => None,
    }
}

/// Reads a port number as `u16`'s `FromStr` does.
pub fn parse_port(s: &str) -> (r: Option<u16>)
    ensures
        r == port_value(s@),
{
    match parse_int(s, false, 0, 65535) {
        Some(v) => Some(v as u16),
        None => None,
    }
}

/// What the connection dialog holds: where and how to connect.
#[derive(Clone, Debug)]
pub struct ConnectionParams {
    pub hostname: String,
    pub vhost: String,
    pub exchange: String,
    pub username: String,
    pub password: String,
    pub tls: bool,
    /// Whether to subscribe to everything on the exchange once connected.
    pub wildcard: bool,
    /// The port as typed; usually 5672.
    pub port: String,
    /// Why the parameters cannot be used, if they cannot.
    pub validation_error: Option<String>,
}

impl ConnectionParams {
    /// Checks the port and records the outcome in `validation_error`.
    pub fn validate(&mut self)
        ensures
            final(self).hostname == old(self).hostname,
            final(self).vhost == old(self).vhost,
            final(self).exchange == old(self).exchange,
            final(self).username == old(self).username,
            final(self).password == old(self).password,
            final(self).tls == old(self).tls,
            final(self).wildcard == old(self).wildcard,
            final(self).port == old(self).port,
            port_value(old(self).port@) is Some ==> final(self).validation_error is None,
            port_value(old(self).port@) is None ==> final(self).validation_error is Some
                && final(self).validation_error->0@ == "Port must be a valid integer < 65535"@,
    {
        match parse_port(self.port.as_str()) {
            Some(_) => {
                self.validation_error = None;
            },
            None => {
                self.validation_error = Some("Port must be a valid integer < 65535".to_owned());
            },
        }
    }

    /// The connection URI these parameters describe: `amqps` when `tls` is set,
    /// `amqp` otherwise.
    pub fn build_url(&self) -> (r: AmqpUri)
        requires
            port_value(self.port@) is Some,
        ensures
            r.tls == self.tls,
            r.username == self.username,
            r.password == self.password,
            r.host == self.hostname,
            Some(r.port) == port_value(self.port@),
            r.vhost == self.vhost,
    {
        let port = match parse_port(self.port.as_str()) {
            Some(p) => p,
            None => 0,
        };
        AmqpUri {
            tls: self.tls,
            username: self.username.clone(),
            password: self.password.clone(),
            host: self.hostname.clone(),
            port,
            vhost: self.vhost.clone(),
        }
    }
}

impl Default for ConnectionParams {
    fn default() -> (r: Self)
        ensures
            r.hostname@ == "localhost"@,
            r.username@ == "guest"@,
            r.password@ == Seq::<char>::empty(),
            r.vhost@ == "/"@,
            r.tls,
            r.port@ == "5672"@,
            r.validation_error is None,
            r.wildcard,
            r.exchange@ == Seq::<char>::empty(),
    {
        ConnectionParams {
            hostname: "localhost".to_owned(),
            username: "guest".to_owned(),
            password: String::new(),
            vhost: "/".to_owned(),
            tls: true,
            port: "5672".to_owned(),
            validation_error: None,
            wildcard: true,
            exchange: String::new(),
        }
    }
}

} // verus!
