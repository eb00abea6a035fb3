//! What the user enters to connect, and what follows from it.

use crate::text::{decimal, decimal_text, join2, join3, same_text, uppercase, uppercase_text};
use vstd::prelude::*;

verus! {

/// The connection data that the user enters.
#[derive(Debug, Clone)]
pub struct ConnConfig {
    /// "sftp", "ftp" or "ftps".
    pub protocol: String,
    pub host: String,
    pub port: u16,
    pub username: String,
    pub password: String,
    /// Passive mode (FTP and FTPS only); on unless it is switched off.
    pub passive: bool,
    /// Address of the S3-compatible service.
    pub endpoint: String,
    pub region: String,
    pub bucket: String,
    pub access_key: String,
    pub secret_key: String,
    /// Whether the bucket goes into the path rather than into the host name.
    pub path_style: bool,
}

/// What a switch that is on unless it is set is when it is not set.
pub fn default_true() -> (r: bool)
    ensures
        r,
{
    true
}

/// Which provider serves a connection.
#[derive(Debug, Clone, Copy, PartialEq, Eq, Structural)]
pub enum Provider {
    Ftp,
    Sftp,
}

/// The provider for a protocol; `None` where there is none.
pub open spec fn provider_of(protocol: Seq<char>) -> Option<Provider> {
    if protocol == "ftp"@ || protocol == "ftps"@ {
        Some(Provider::Ftp)
    } else if protocol == "sftp"@ {
        Some(Provider::Sftp)
    } else {
        None
    }
}

/// Picks the provider for a protocol, or says that it is not supported.
pub fn select_provider(protocol: &str) -> (r: Result<Provider, String>)
    ensures
        match provider_of(protocol@) {
            Some(p) => r == Ok::<Provider, String>(p),
            None => r matches Err(e) && e@ == "Protocolo no soportado: "@ + protocol@,
        },
{
    if same_text(protocol, "ftp") || same_text(protocol, "ftps") {
        Ok(Provider::Ftp)
    } else if same_text(protocol, "sftp") {
        Ok(Provider::Sftp)
    } else {
        Err(join2("Protocolo no soportado: ", protocol))
    }
}

/// `host:port`.
pub open spec fn address_of(host: Seq<char>, port: u16) -> Seq<char> {
    host + ":"@ + decimal(port as nat)
}

/// `host:port`.
pub fn address(host: &str, port: u16) -> (r: String)
    ensures
        r@ == address_of(host@, port),
{
    join3(host, ":", decimal_text(port as u64).as_str())
}

/// What is announced before connecting.
pub open spec fn connecting_text(host: Seq<char>, port: u16, protocol: Seq<char>) -> Seq<char> {
    "Conectando a "@ + address_of(host, port) + " por "@ + uppercase(protocol) + " ..."@
}

/// What is announced before connecting.
pub fn announce_connecting(cfg: &ConnConfig) -> (r: String)
    ensures
        r@ == connecting_text(cfg.host@, cfg.port, cfg.protocol@),
{
    let mut r = join3(
        "Conectando a ",
        address(cfg.host.as_str(), cfg.port).as_str(),
        " por ",
    );
    r.append(uppercase_text(cfg.protocol.as_str()).as_str());
    r.append(" ...");
    r
}

/// How an FTP session is set up once the connection stands.
#[derive(Debug, Clone, Copy, PartialEq, Eq, Structural)]
pub struct FtpSetup {
    /// Whether the session is raised to TLS before logging in.
    pub secure: bool,
    /// Passive rather than active mode.
    pub passive: bool,
    /// Whether the address of the control connection replaces the one that the
    /// server announces for data.
    pub nat_workaround: bool,
}

/// How an FTP session is set up: TLS for "ftps" alone; in passive mode the
/// announced address is not trusted.
pub fn ftp_setup(cfg: &ConnConfig) -> (r: FtpSetup)
    ensures
        r.secure == (cfg.protocol@ == "ftps"@),
        r.passive == cfg.passive,
        r.nat_workaround == cfg.passive,
{
    FtpSetup {
        secure: same_text(cfg.protocol.as_str(), "ftps"),
        passive: cfg.passive,
        nat_workaround: cfg.passive,
    }
}

/// What an S3 client is built from.
#[derive(Debug)]
pub struct ClientSettings {
    pub endpoint: String,
    pub region: String,
    pub access_key: String,
    pub secret_key: String,
    pub path_style: bool,
    /// Name under which the credentials are handed over.
    pub provider_name: &'static str,
    /// How often a request is tried.
    pub max_attempts: u32,
}

/// What an S3 client is built from. A connection without a region uses
/// "us-east-1".
pub fn client_settings(cfg: &ConnConfig) -> (r: ClientSettings)
    ensures
        r.endpoint@ == cfg.endpoint@,
        r.region@ == if cfg.region@.len() == 0 {
            "us-east-1"@
        } else {
            cfg.region@
        },
        r.access_key@ == cfg.access_key@,
        r.secret_key@ == cfg.secret_key@,
        r.path_style == cfg.path_style,
        r.provider_name@ == "carrybox"@,
        r.max_attempts == 6,
{
    ClientSettings {
        endpoint: cfg.endpoint.clone(),
        region: if cfg.region.as_str().is_empty() {
            "us-east-1".to_owned()
        } else {
            cfg.region.clone()
        },
        access_key: cfg.access_key.clone(),
        secret_key: cfg.secret_key.clone(),
        path_style: cfg.path_style,
        provider_name: "carrybox",
        max_attempts: 6,
    }
}

/// FTP and FTPS are served by one provider, SFTP by the other, and nothing else is
/// served.
pub proof fn law_providers(protocol: Seq<char>)
    ensures
        provider_of(protocol) == Some(Provider::Ftp) <==> protocol == "ftp"@ || protocol
            == "ftps"@,
        provider_of(protocol) == Some(Provider::Sftp) <==> protocol == "sftp"@,
{
    reveal_strlit("ftp");
    reveal_strlit("ftps");
    reveal_strlit("sftp");
    assert("sftp"@.len() == 4 && "ftps"@.len() == 4 && "ftp"@.len() == 3);
    assert("sftp"@[0] == 's' && "ftps"@[0] == 'f');
}

/// What is announced names the host, the port in decimal, and the protocol in
/// upper case.
pub proof fn law_announcement(host: Seq<char>, port: u16, protocol: Seq<char>)
    ensures
        address_of(host, port) == host + ":"@ + decimal(port as nat),
        connecting_text(host, port, protocol) == "Conectando a "@ + (host + ":"@ + decimal(
            port as nat,
        )) + " por "@ + uppercase(protocol) + " ..."@,
{
}

} // verus!
