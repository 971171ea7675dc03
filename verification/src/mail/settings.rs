//! How the mail server and the shop's own server are configured.

use vstd::prelude::*;
use crate::error::NotificationError;
use crate::text::{parse_port, port_number};

verus! {

/// The port that mail is handed to when none is configured.
pub const DEFAULT_SMTP_PORT: u16 = 587;

/// The address under which the server is reached when none is configured.
pub const DEFAULT_SERVER_ADDRESS: &'static str = "127.0.0.1";

/// The port under which the server is reached when none is configured.
pub const DEFAULT_SERVER_PORT: &'static str = "8181";

/// Where mail is handed in, and as whom.
#[derive(Debug, PartialEq, Eq)]
pub struct MailSettings {
    pub smtp_server: String,
    pub smtp_port: u16,
    pub username: String,
    pub password: String,
}

impl Clone for MailSettings {
    fn clone(&self) -> (r: Self)
        ensures
            r == *self,
    {
        MailSettings {
            smtp_server: self.smtp_server.clone(),
            smtp_port: self.smtp_port,
            username: self.username.clone(),
            password: self.password.clone(),
        }
    }
}

/// The port that a configured value stands for: the default when nothing is
/// configured, else the number that the value is.
pub open spec fn configured_port(raw: Option<String>) -> Option<u16> {
    match raw {
        Some(text) => port_number(text@),
        None => Some(DEFAULT_SMTP_PORT),
    }
}

/// Makes the mail settings out of what the configuration holds. The server,
/// the user name and the password must be there, and the port, if there is
/// one, must be a port number: otherwise the settings are refused.
pub fn mail_settings(
    smtp_server: Option<String>,
    smtp_port: Option<String>,
    username: Option<String>,
    password: Option<String>,
) -> (r: Result<MailSettings, NotificationError>)
    ensures
        match r {
            Ok(settings) => {
                &&& smtp_server == Some(settings.smtp_server)
                &&& configured_port(smtp_port) == Some(settings.smtp_port)
                &&& username == Some(settings.username)
                &&& password == Some(settings.password)
            },
            Err(e) => {
                &&& e == NotificationError::Settings
                &&& smtp_server is None || configured_port(smtp_port) is None || username is None
                    || password is None
            },
        },
{
    let server = match smtp_server {
        Some(server) => server,
        None => {
            return Err(NotificationError::Settings);
        },
    };
    let port: u16 = match smtp_port {
        Some(text) => match parse_port(text.as_str()) {
            Some(port) => port,
            None => {
                return Err(NotificationError::Settings);
            },
        },
        None => DEFAULT_SMTP_PORT,
    };
    let user = match username {
        Some(user) => user,
        None => {
            return Err(NotificationError::Settings);
        },
    };
    let secret = match password {
        Some(secret) => secret,
        None => {
            return Err(NotificationError::Settings);
        },
    };
    Ok(MailSettings { smtp_server: server, smtp_port: port, username: user, password: secret })
}

/// A configured text, or the fallback when nothing is configured.
pub open spec fn text_or(value: Option<&str>, fallback: Seq<char>) -> Seq<char> {
    match value {
        Some(text) => text@,
        None => fallback,
    }
}

/// The link that activates an account.
pub open spec fn registration_link_text(
    address: Seq<char>,
    port: Seq<char>,
    token: Seq<char>,
) -> Seq<char> {
    "http://"@ + address + ":"@ + port + "/api/registration?token="@ + token
}

/// Writes the link that activates the account behind `token`, on the server
/// as it is configured, or on the default address and port where nothing is
/// configured.
pub fn generate_registration_link(
    server_address: Option<&str>,
    server_port: Option<&str>,
    token: &str,
) -> (r: String)
    ensures
        r@ == registration_link_text(
            text_or(server_address, DEFAULT_SERVER_ADDRESS@),
            text_or(server_port, DEFAULT_SERVER_PORT@),
            token@,
        ),
{
    let address: &str = match server_address {
        Some(text) => text,
        None => DEFAULT_SERVER_ADDRESS,
    };
    let port: &str = match server_port {
        Some(text) => text,
        None => DEFAULT_SERVER_PORT,
    };
    let mut out = String::new();
    out.append("http://");
    out.append(address);
    out.append(":");
    out.append(port);
    out.append("/api/registration?token=");
    out.append(token);
    proof {
        assert(out@ =~= registration_link_text(address@, port@, token@));
    }
    out
}

} // verus!
