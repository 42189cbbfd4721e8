//! SMTP command types.
//!
//! This module defines the commands that an SMTP client sends to a server
//! as specified in RFC 5321.

use vstd::prelude::*;

use crate::auth::AuthMechanism;
use crate::core_types::{Domain, EhloDomain, ForwardPath, Parameter, ReversePath};
use crate::secret::Secret;

verus! {

/// An SMTP command.
///
/// # Reference
///
/// RFC 5321 Section 4.1: SMTP Commands
#[derive(Debug, Clone, PartialEq, Eq, Hash)]
#[non_exhaustive]
pub enum Command {
    /// Extended HELLO - identifies the client and requests extended features.
    ///
    /// `ehlo = "EHLO" SP ( Domain / address-literal ) CRLF`
    Ehlo {
        /// The client's domain or address literal
        domain: EhloDomain,
    },
    /// HELLO - identifies the client to the server (legacy).
    ///
    /// `helo = "HELO" SP Domain CRLF`
    Helo {
        /// The client's domain
        domain: Domain,
    },
    /// MAIL FROM - initiates a mail transaction with the sender's address.
    ///
    /// `mail = "MAIL FROM:" Reverse-path [SP Mail-parameters] CRLF`
    Mail {
        /// The sender's reverse path (can be null <>)
        reverse_path: ReversePath,
        /// Optional ESMTP parameters (e.g., SIZE, BODY)
        parameters: Vec<Parameter>,
    },
    /// RCPT TO - specifies a recipient for the mail.
    ///
    /// `rcpt = "RCPT TO:" ( "<Postmaster@" Domain ">" / "<Postmaster>" / Forward-path ) [SP Rcpt-parameters] CRLF`
    Rcpt {
        /// The recipient's forward path
        forward_path: ForwardPath,
        /// Optional ESMTP parameters
        parameters: Vec<Parameter>,
    },
    /// DATA - begins the mail data transfer.
    Data,
    /// RSET - aborts the current mail transaction.
    Rset,
    /// QUIT - requests connection termination.
    Quit,
    /// NOOP - no operation (used to keep connection alive).
    Noop {
        /// Optional string argument (ignored by server)
        string: Option<String>,
    },
    /// VRFY - verifies a user or mailbox name.
    Vrfy {
        /// The string to verify (usually a user name or address)
        string: String,
    },
    /// EXPN - expands a mailing list.
    Expn {
        /// The mailing list name to expand
        string: String,
    },
    /// HELP - requests help information.
    Help {
        /// Optional topic for specific help
        topic: Option<String>,
    },
    /// STARTTLS - initiates TLS encryption (RFC 3207).
    StartTls,
    /// AUTH - initiates SASL authentication (RFC 4954).
    ///
    /// `auth = "AUTH" SP sasl-mech [SP initial-response] CRLF`
    Auth {
        /// The SASL mechanism to use
        mechanism: AuthMechanism,
        /// Optional initial response (base64-encoded by encoder)
        initial_response: Option<Secret<Vec<u8>>>,
    },
}

impl Command {
    /// Creates an EHLO command.
    pub fn ehlo<D: Into<EhloDomain>>(domain: D) -> (r: Command)
        ensures
            r matches Command::Ehlo { domain: d } && call_ensures(D::into, (domain,), d),
    {
        Command::Ehlo { domain: domain.into() }
    }

    /// Creates a HELO command.
    pub fn helo(domain: Domain) -> (r: Command)
        ensures
            r == (Command::Helo { domain }),
    {
        Command::Helo { domain }
    }

    /// Creates a MAIL FROM command with no parameters.
    pub fn mail(reverse_path: ReversePath) -> (r: Command)
        ensures
            r matches Command::Mail { reverse_path: p, parameters: ps } && p == reverse_path
                && ps@ == Seq::<Parameter>::empty(),
    {
        Command::Mail { reverse_path, parameters: Vec::new() }
    }

    /// Creates a MAIL FROM command with parameters.
    pub fn mail_with_params(reverse_path: ReversePath, parameters: Vec<Parameter>) -> (r: Command)
        ensures
            r == (Command::Mail { reverse_path, parameters }),
    {
        Command::Mail { reverse_path, parameters }
    }

    /// Creates a RCPT TO command with no parameters.
    pub fn rcpt(forward_path: ForwardPath) -> (r: Command)
        ensures
            r matches Command::Rcpt { forward_path: p, parameters: ps } && p == forward_path
                && ps@ == Seq::<Parameter>::empty(),
    {
        Command::Rcpt { forward_path, parameters: Vec::new() }
    }

    /// Creates a RCPT TO command with parameters.
    pub fn rcpt_with_params(forward_path: ForwardPath, parameters: Vec<Parameter>) -> (r: Command)
        ensures
            r == (Command::Rcpt { forward_path, parameters }),
    {
        Command::Rcpt { forward_path, parameters }
    }

    /// Creates a DATA command.
    pub fn data() -> (r: Command)
        ensures
            r == Command::Data,
    {
        Command::Data
    }

    /// Creates a RSET command.
    pub fn rset() -> (r: Command)
        ensures
            r == Command::Rset,
    {
        Command::Rset
    }

    /// Creates a QUIT command.
    pub fn quit() -> (r: Command)
        ensures
            r == Command::Quit,
    {
        Command::Quit
    }

    /// Creates a NOOP command with no argument.
    pub fn noop() -> (r: Command)
        ensures
            r == (Command::Noop { string: None }),
    {
        Command::Noop { string: None }
    }

    /// Creates a NOOP command with an argument.
    pub fn noop_with_string(string: &str) -> (r: Command)
        ensures
            r matches Command::Noop { string: Some(s) } && s@ == string@,
    {
        Command::Noop { string: Some(string.to_owned()) }
    }

    /// Creates a VRFY command.
    pub fn vrfy(string: &str) -> (r: Command)
        ensures
            r matches Command::Vrfy { string: s } && s@ == string@,
    {
        Command::Vrfy { string: string.to_owned() }
    }

    /// Creates an EXPN command.
    pub fn expn(string: &str) -> (r: Command)
        ensures
            r matches Command::Expn { string: s } && s@ == string@,
    {
        Command::Expn { string: string.to_owned() }
    }

    /// Creates a HELP command with no topic.
    pub fn help() -> (r: Command)
        ensures
            r == (Command::Help { topic: None }),
    {
        Command::Help { topic: None }
    }

    /// Creates a HELP command with a specific topic.
    pub fn help_with_topic(topic: &str) -> (r: Command)
        ensures
            r matches Command::Help { topic: Some(t) } && t@ == topic@,
    {
        Command::Help { topic: Some(topic.to_owned()) }
    }

    /// Creates a STARTTLS command.
    pub fn starttls() -> (r: Command)
        ensures
            r == Command::StartTls,
    {
        Command::StartTls
    }

    /// Creates an AUTH command with no initial response.
    pub fn auth(mechanism: AuthMechanism) -> (r: Command)
        ensures
            r == (Command::Auth { mechanism, initial_response: None }),
    {
        Command::Auth { mechanism, initial_response: None }
    }

    /// Creates an AUTH command with an initial response.
    pub fn auth_with_initial_response(mechanism: AuthMechanism, initial_response: Vec<u8>) -> (r:
        Command)
        ensures
            r == (Command::Auth {
                mechanism,
                initial_response: Some(Secret::wrap(initial_response)),
            }),
    {
        Command::Auth { mechanism, initial_response: Some(Secret::new(initial_response)) }
    }

    /// The name of the command.
    pub open spec fn name_chars(self) -> Seq<char> {
        match self {
            Command::Ehlo { .. } => "EHLO"@,
            Command::Helo { .. } => "HELO"@,
            Command::Mail { .. } => "MAIL"@,
            Command::Rcpt { .. } => "RCPT"@,
            Command::Data => "DATA"@,
            Command::Rset => "RSET"@,
            Command::Quit => "QUIT"@,
            Command::Noop { .. } => "NOOP"@,
            Command::Vrfy { .. } => "VRFY"@,
            Command::Expn { .. } => "EXPN"@,
            Command::Help { .. } => "HELP"@,
            Command::StartTls => "STARTTLS"@,
            Command::Auth { .. } => "AUTH"@,
        }
    }

    /// Returns the command name as a string.
    pub fn name(&self) -> (r: &'static str)
        ensures
            r@ == self.name_chars(),
    {
        match self {
            Command::Ehlo { .. } => "EHLO",
            Command::Helo { .. } => "HELO",
            Command::Mail { .. } => "MAIL",
            Command::Rcpt { .. } => "RCPT",
            Command::Data => "DATA",
            Command::Rset => "RSET",
            Command::Quit => "QUIT",
            Command::Noop { .. } => "NOOP",
            Command::Vrfy { .. } => "VRFY",
            Command::Expn { .. } => "EXPN",
            Command::Help { .. } => "HELP",
            Command::StartTls => "STARTTLS",
            Command::Auth { .. } => "AUTH",
        }
    }
}

} // verus!
