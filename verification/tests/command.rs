use smtp_types::auth::AuthMechanism;
use smtp_types::command::Command;
use smtp_types::core_types::{Domain, ForwardPath, LocalPart, Mailbox, Parameter, ReversePath};
use smtp_types::core_types::Atom;

#[test]
fn test_command_creation() {
    // EHLO
    let domain = Domain::try_from("example.com").unwrap();
    let cmd = Command::ehlo(domain);
    assert!(matches!(cmd, Command::Ehlo { .. }));
    assert_eq!(cmd.name(), "EHLO");

    // MAIL FROM with null path
    let cmd = Command::mail(ReversePath::Null);
    assert!(matches!(
        cmd,
        Command::Mail {
            reverse_path: ReversePath::Null,
            ..
        }
    ));
    assert_eq!(cmd.name(), "MAIL");

    // RCPT TO
    let local = LocalPart::try_from("user").unwrap();
    let domain = Domain::try_from("example.com").unwrap();
    let mailbox = Mailbox::new(local, domain.into());
    let cmd = Command::rcpt(ForwardPath::from(mailbox));
    assert!(matches!(cmd, Command::Rcpt { .. }));
    assert_eq!(cmd.name(), "RCPT");

    // Simple commands
    assert!(matches!(Command::data(), Command::Data));
    assert_eq!(Command::data().name(), "DATA");
    assert!(matches!(Command::rset(), Command::Rset));
    assert_eq!(Command::rset().name(), "RSET");
    assert!(matches!(Command::quit(), Command::Quit));
    assert_eq!(Command::quit().name(), "QUIT");
    assert!(matches!(Command::noop(), Command::Noop { string: None }));
    assert_eq!(Command::noop().name(), "NOOP");
    assert!(matches!(Command::help(), Command::Help { topic: None }));
    assert_eq!(Command::help().name(), "HELP");
}

#[test]
fn test_noop_with_string() {
    let cmd = Command::noop_with_string("test");
    match cmd {
        Command::Noop { string } => {
            assert_eq!(string, Some(String::from("test")));
        }
        _ => panic!("Expected Noop command"),
    }
}

#[test]
fn test_vrfy_expn() {
    let cmd = Command::vrfy("postmaster");
    assert!(matches!(cmd, Command::Vrfy { .. }));
    assert_eq!(cmd.name(), "VRFY");

    let cmd = Command::expn("users");
    assert!(matches!(cmd, Command::Expn { .. }));
    assert_eq!(cmd.name(), "EXPN");
}

#[test]
fn test_other_commands() {
    let domain = Domain::try_from("client.example.org").unwrap();
    let cmd = Command::helo(domain.clone());
    assert_eq!(cmd, Command::Helo { domain });
    assert_eq!(cmd.name(), "HELO");

    let size = Parameter::with_value(Atom::try_from("SIZE").unwrap(), "1000");
    let cmd = Command::mail_with_params(ReversePath::Null, vec![size.clone()]);
    match &cmd {
        Command::Mail { parameters, .. } => assert_eq!(parameters, &vec![size]),
        _ => panic!("Expected Mail command"),
    }

    assert_eq!(Command::starttls().name(), "STARTTLS");
    assert_eq!(Command::help_with_topic("MAIL").name(), "HELP");
    let cmd = Command::auth(AuthMechanism::Plain);
    assert_eq!(cmd.name(), "AUTH");
    let cmd = Command::auth_with_initial_response(AuthMechanism::Plain, b"\x00user\x00pass".to_vec());
    match cmd {
        Command::Auth { mechanism, initial_response } => {
            assert_eq!(mechanism, AuthMechanism::Plain);
            assert_eq!(initial_response.unwrap().declassify(), &b"\x00user\x00pass".to_vec());
        }
        _ => panic!("Expected Auth command"),
    }
}
