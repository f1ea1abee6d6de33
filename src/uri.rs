use vstd::prelude::*;

verus! {

/// The parts of a broker connection URI: scheme (`amqps` when `tls`),
/// credentials, host, port and virtual host.
#[derive(Debug)]
pub struct AmqpUri {
    pub tls: bool,
    pub username: String,
    pub password: String,
    pub host: String,
    pub port: u16,
    pub vhost: String,
}

} // verus!
