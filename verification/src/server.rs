//! The local server: where it listens, and how its commands are read.
use vstd::prelude::*;

use crate::net::{address_of, ip_text, read_address, AddressView, SocketAddress};
use crate::net_laws::{
    address_reads_back, address_text, colon_tells_kind, read_address_is_well_formed,
};
use crate::number::{decimal, decimal_text};
use crate::text::{
    ascii_lower_text, chars_of, joined, same_ignoring_ascii_case, trim,
    trim_is_idempotent, trimmed,
};

verus! {

// ---------------------------------------------------------------------------
// Where the server listens
// ---------------------------------------------------------------------------
/// The host and port that the server listens on.
#[derive(Debug, PartialEq, Eq)]
pub struct ServerConfig {
    pub host: String,
    pub port: u16,
}

/// What is wrong with a server command.
#[derive(Debug, PartialEq, Eq)]
pub enum ServerError {
    InvalidAddress(String),
}

impl ServerError {
    /// The address that could not be read.
    pub open spec fn address(&self) -> Seq<char> {
        match self {
            ServerError::InvalidAddress(address) => address@,
        }
    }

    /// The message for the user.
    pub fn message(&self) -> (text: String)
        ensures
            text@ == "invalid server address: "@ + self.address(),
    {
        match self {
            ServerError::InvalidAddress(address) => joined(
                "invalid server address: ",
                address.as_str(),
            ),
        }
    }
}

/// The host and port that an address stands for. A scope is not part of them.
pub open spec fn host_and_port(address: AddressView) -> (Seq<char>, nat) {
    (ip_text(address.v6, address.parts), address.port)
}

/// A host with a port, in brackets where it has colons.
pub open spec fn endpoint(host: Seq<char>, port: nat) -> Seq<char> {
    if host.contains(':') {
        seq!['['] + host + seq![']', ':'] + decimal(port)
    } else {
        host + seq![':'] + decimal(port)
    }
}

/// Whether a text has the given character in it.
fn has_char(text: &str, ch: char) -> (found: bool)
    ensures
        found == text@.contains(ch),
{
    let chars: Vec<char> = chars_of(text);
    let mut i: usize = 0;
    while i < chars.len()
        invariant
            i <= chars.len(),
            chars@ == text@,
            forall|k: int| 0 <= k < i ==> chars@[k] != ch,
        decreases chars.len() - i,
    {
        if chars[i] == ch {
            assert(text@[i as int] == ch);
            return true;
        }
        i += 1;
    }
    false
}

impl Default for ServerConfig {
    fn default() -> (config: ServerConfig)
        ensures
            config@ == ("127.0.0.1"@, 3000nat),
    {
        ServerConfig { host: "127.0.0.1".to_owned(), port: 3000 }
    }
}

impl Clone for ServerConfig {
    fn clone(&self) -> (copy: ServerConfig)
        ensures
            copy@ == self@,
    {
        ServerConfig { host: self.host.clone(), port: self.port }
    }
}

impl ServerConfig {
    /// The host and port.
    pub open spec fn view(&self) -> (Seq<char>, nat) {
        (self.host@, self.port as nat)
    }

    /// Reads a host and port out of a socket address. It fails where the text
    /// without the white space around it is no socket address.
    pub fn parse(value: &str) -> (config: Result<ServerConfig, ServerError>)
        ensures
            config is Ok <==> address_of(trim(value@)) is Some,
            config matches Ok(config) ==> config@ == host_and_port(address_of(trim(value@))->0),
            config matches Err(error) ==> error.address() == trim(value@),
    {
        let text: &str = trimmed(value);
        match read_address(text) {
            Some(address) => Ok(
                ServerConfig { host: address.ip.to_text(), port: address.port },
            ),
            None => Err(ServerError::InvalidAddress(text.to_owned())),
        }
    }

    /// The socket address to listen on. It fails where the host is no address.
    pub fn socket_addr(&self) -> (address: Result<SocketAddress, ServerError>)
        ensures
            address is Ok <==> address_of(endpoint(self@.0, self@.1)) is Some,
            address matches Ok(address) ==> address@ == address_of(
                endpoint(self@.0, self@.1),
            )->0,
            address matches Err(error) ==> error.address() == self@.0 + seq![':'] + decimal(
                self@.1,
            ),
    {
        let port: String = decimal_text(self.port as u64);
        let mut plain: String = self.host.clone();
        plain.push(':');
        plain.append(port.as_str());
        assert(plain@ =~= self@.0 + seq![':'] + decimal(self@.1));
        let text: String = if has_char(self.host.as_str(), ':') {
            let mut text: String = String::new();
            text.push('[');
            text.append(self.host.as_str());
            text.push(']');
            text.push(':');
            text.append(port.as_str());
            text
        } else {
            plain.clone()
        };
        assert(text@ =~= endpoint(self@.0, self@.1));
        match read_address(text.as_str()) {
            Some(address) => Ok(address),
            None => Err(ServerError::InvalidAddress(plain)),
        }
    }
}

/// A configuration that was read from an address gives that address again,
/// without its scope: the same kind, the same octets or groups, the same port.
pub proof fn configured_address_is_kept(text: Seq<char>)
    requires
        address_of(text) is Some,
    ensures
        ({
            let address = address_of(text)->0;
            let (host, port) = host_and_port(address);
            address_of(endpoint(host, port)) == Some(
                (AddressView {
                    v6: address.v6,
                    parts: address.parts,
                    scope: 0,
                    port: address.port,
                }),
            )
        }),
{
    let address = address_of(text)->0;
    read_address_is_well_formed(text);
    colon_tells_kind(address.v6, address.parts);
    address_reads_back(address.v6, address.parts, address.port);
    let (host, port) = host_and_port(address);
    assert(endpoint(host, port) == address_text(address.v6, address.parts, port));
}

// ---------------------------------------------------------------------------
// Commands
// ---------------------------------------------------------------------------
/// What is to be done with the server.
#[derive(Debug, PartialEq, Eq)]
pub enum ServerCommand {
    Start(ServerConfig),
    Status,
    Stop,
}

/// What a command is.
pub enum ServerCommandView {
    Start(Seq<char>, nat),
    Status,
    Stop,
}

impl ServerCommand {
    /// What the command is.
    pub open spec fn view(&self) -> ServerCommandView {
        match self {
            ServerCommand::Start(config) => ServerCommandView::Start(config@.0, config@.1),
            ServerCommand::Status => ServerCommandView::Status,
            ServerCommand::Stop => ServerCommandView::Stop,
        }
    }
}

/// The command that the arguments stand for: nothing starts the server at its
/// default place, `status` and `stop` in any case are themselves, and
/// everything else has to be a socket address to start at.
pub open spec fn server_command(args: Seq<char>) -> Option<ServerCommandView> {
    let arg = trim(args);
    if arg.len() == 0 {
        Some(ServerCommandView::Start("127.0.0.1"@, 3000))
    } else if ascii_lower_text(arg) == ascii_lower_text("status"@) {
        Some(ServerCommandView::Status)
    } else if ascii_lower_text(arg) == ascii_lower_text("stop"@) {
        Some(ServerCommandView::Stop)
    } else {
        match address_of(arg) {
            Some(address) => Some(
                ServerCommandView::Start(host_and_port(address).0, host_and_port(address).1),
            ),
            None => None,
        }
    }
}

/// Reads the arguments of a server command.
pub fn parse_server_command(args: &str) -> (command: Result<ServerCommand, ServerError>)
    ensures
        command is Ok <==> server_command(args@) is Some,
        command matches Ok(command) ==> command@ == server_command(args@)->0,
        command matches Err(error) ==> error.address() == trim(args@),
{
    proof {
        trim_is_idempotent(args@);
    }
    let arg: &str = trimmed(args);
    if arg.is_empty() {
        return Ok(ServerCommand::Start(ServerConfig::default()));
    }
    if same_ignoring_ascii_case(arg, "status") {
        return Ok(ServerCommand::Status);
    }
    if same_ignoring_ascii_case(arg, "stop") {
        return Ok(ServerCommand::Stop);
    }
    match ServerConfig::parse(arg) {
        Ok(config) => Ok(ServerCommand::Start(config)),
        Err(error) => Err(error),
    }
}

} // verus!
