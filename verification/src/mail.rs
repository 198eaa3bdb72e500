//! Outgoing mail: the SMTP settings and the subject and text of each message.
use vstd::prelude::*;

use crate::error::lit;
use crate::text::{chars_of, parse_u64, parse_u64_spec};

verus! {

/// Where and as whom mail is sent.
pub struct MailSettings {
    pub host: String,
    pub port: u16,
    pub from: String,
    pub credentials: Option<(String, String)>,
}

/// A message to send.
pub struct Mail {
    pub subject: String,
    pub body: String,
}

/// The mail settings from `SMTP_HOST` (default `localhost`), `SMTP_PORT`
/// (when it parses as a port, else 1025), `MAIL_FROM` (default
/// `noreply@simu.local`), and `SMTP_USER` with `SMTP_PASSWORD` (credentials
/// only when both are set).
pub fn mail_settings(
    host: Option<String>,
    port: Option<&str>,
    from: Option<String>,
    user: Option<String>,
    password: Option<String>,
) -> (r: MailSettings)
    ensures
        r.host@ == match host {
            Some(h) => h@,
            None => "localhost"@,
        },
        r.port == match port {
            Some(p) => match parse_u64_spec(p@) {
                Some(v) => if v <= 65535 {
                    v as u16
                } else {
                    1025u16
                },
                None => 1025u16,
            },
            None => 1025u16,
        },
        r.from@ == match from {
            Some(f) => f@,
            None => "noreply@simu.local"@,
        },
        r.credentials == match (user, password) {
            (Some(u), Some(p)) => Some((u, p)),
            _ => None,
        },
{
    let h = match host {
        Some(h) => h,
        None => lit("localhost"),
    };
    let p: u16 = match port {
        Some(s) => match parse_u64(&chars_of(s)) {
            Some(v) => if v <= 65535 {
                v as u16
            } else {
                1025
            },
            None => 1025,
        },
        None => 1025,
    };
    let f = match from {
        Some(f) => f,
        None => lit("noreply@simu.local"),
    };
    let credentials = match (user, password) {
        (Some(u), Some(pw)) => Some((u, pw)),
        _ => None,
    };
    MailSettings { host: h, port: p, from: f, credentials }
}

/// The password reset message carrying `url`.
pub fn password_reset_mail(url: &str) -> (r: Mail)
    ensures
        r.subject@ == "Reset your simu password"@,
        r.body@ == "Hello,\n\nClick this link to reset your password:\n\n  "@ + url@
            + "\n\nLink expires in 60 minutes.\n\nIf you didn't request this, ignore this email.\n\n— simu"@,
{
    let mut body = lit("Hello,\n\nClick this link to reset your password:\n\n  ");
    body.append(url);
    body.append(
        "\n\nLink expires in 60 minutes.\n\nIf you didn't request this, ignore this email.\n\n— simu",
    );
    Mail { subject: lit("Reset your simu password"), body }
}

/// The warning about a sign-in from a new address.
pub fn new_ip_login_mail(ip: &str, user_agent: &str) -> (r: Mail)
    ensures
        r.subject@ == "New sign-in to your simu account"@,
        r.body@ == "A new sign-in to your simu account was just detected.\n\n  IP:         "@ + ip@
            + "\n  Device/UA:  "@ + user_agent@
            + "\n\nIf this wasn't you, change your password and revoke sessions immediately.\n\n— simu"@,
{
    let mut body = lit("A new sign-in to your simu account was just detected.\n\n  IP:         ");
    body.append(ip);
    body.append("\n  Device/UA:  ");
    body.append(user_agent);
    body.append(
        "\n\nIf this wasn't you, change your password and revoke sessions immediately.\n\n— simu",
    );
    Mail { subject: lit("New sign-in to your simu account"), body }
}

/// The address confirmation message carrying `url`.
pub fn email_verification_mail(url: &str) -> (r: Mail)
    ensures
        r.subject@ == "Confirm your simu email"@,
        r.body@ == "Welcome to simu!\n\nConfirm your email by clicking:\n\n  "@ + url@
            + "\n\nLink expires in 48 hours.\n\n— simu"@,
{
    let mut body = lit("Welcome to simu!\n\nConfirm your email by clicking:\n\n  ");
    body.append(url);
    body.append("\n\nLink expires in 48 hours.\n\n— simu");
    Mail { subject: lit("Confirm your simu email"), body }
}

} // verus!
