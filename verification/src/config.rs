//! The settings that the protocol logic reads, and the addresses that the
//! servers listen on.

use vstd::prelude::*;
use vstd::string::StringExecFns;
use crate::text::{decimal, push_decimal};

verus! {

/// The settings of a server.
#[derive(Clone, Debug)]
pub struct Config {
    /// The host name that the server announces.
    pub hostname: String,
    /// The addresses to listen on; `None` stands for every interface.
    pub listen_ips: Option<Vec<String>>,
    /// Whether a login is accepted over a connection without TLS.
    pub allow_plaintext: bool,
}

/// The port for IMAP without TLS.
pub const IMAP_PORT: u16 = 143;

/// The port for IMAP over TLS.
pub const IMAPS_PORT: u16 = 993;

/// The port for SMTP between servers, without TLS.
pub const SMTP_PORT: u16 = 25;

/// The port on which clients hand in mail, without TLS.
pub const SUBMISSION_PORT: u16 = 587;

/// The port for SMTP over TLS.
pub const SMTPS_PORT: u16 = 465;

/// The seconds after which an idle IMAP connection is closed.
pub const IMAP_IDLE_SECONDS: u64 = 1800;

/// The seconds after which an idle SMTP connection is closed.
pub const SMTP_IDLE_SECONDS: u64 = 300;

/// An address and a port as one socket address.
pub open spec fn socket_address(ip: Seq<char>, port: u16) -> Seq<char> {
    ip + ":"@ + decimal(port as nat)
}

/// What optional addresses stand for.
pub open spec fn ips_view(ips: Option<Vec<String>>) -> Option<Seq<Seq<char>>> {
    match ips {
        Some(list) => Some(list.deep_view()),
        None => None,
    }
}

/// The socket addresses to listen on for `port`: one for each address of
/// the settings, or every interface where the settings name none.
pub open spec fn listen_on(ips: Option<Seq<Seq<char>>>, port: u16) -> Seq<Seq<char>> {
    match ips {
        Some(list) => Seq::new(list.len(), |i: int| socket_address(list[i], port)),
        None => seq![socket_address("0.0.0.0"@, port)],
    }
}

fn socket_text(ip: &str, port: u16) -> (r: String)
    ensures
        r@ == socket_address(ip@, port),
{
    let mut r = String::from_str(ip);
    r.append(":");
    push_decimal(&mut r, port as u64);
    r
}

/// The socket addresses to listen on for `port`.
pub fn listen_addresses(config: &Config, port: u16) -> (r: Vec<String>)
    ensures
        r.deep_view() == listen_on(ips_view(config.listen_ips), port),
{
    let mut r: Vec<String> = Vec::new();
    match &config.listen_ips {
        Some(list) => {
            let mut i: usize = 0;
            while i < list.len()
                invariant
                    i <= list.len(),
                    r.len() == i,
                    forall|j: int|
                        0 <= j < i ==> (#[trigger] r@[j])@ == socket_address(list@[j]@, port),
                decreases list.len() - i,
            {
                r.push(socket_text(list[i].as_str(), port));
                i += 1;
            }
            assert(r.deep_view() =~= listen_on(Some(list.deep_view()), port));
        },
        None => {
            r.push(socket_text("0.0.0.0", port));
            assert(r.deep_view() =~= listen_on(None, port));
        },
    }
    r
}

} // verus!
