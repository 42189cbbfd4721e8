use smtp_types::command::Command;
use smtp_types::core_types::{Domain, ForwardPath, LocalPart, Mailbox, ReversePath};

#[test]
fn test_readme_usage() {
    // Create an EHLO command
    let domain = Domain::try_from("client.example.com").unwrap();
    let cmd = Command::ehlo(domain);
    assert_eq!(cmd.name(), "EHLO");

    // Create a MAIL FROM command with null path (bounce message)
    let cmd = Command::mail(ReversePath::Null);
    assert_eq!(cmd.name(), "MAIL");

    // Create a RCPT TO command
    let local = LocalPart::try_from("user").unwrap();
    let domain = Domain::try_from("example.com").unwrap();
    let mailbox = Mailbox::new(local, domain.into());
    let cmd = Command::rcpt(ForwardPath::from(mailbox));
    match &cmd {
        Command::Rcpt { forward_path, .. } => {
            assert_eq!(forward_path.to_string(), "<user@example.com>")
        }
        _ => panic!("Expected Rcpt command"),
    }

    // Simple commands
    assert_eq!(Command::data(), Command::Data);
    assert_eq!(Command::quit(), Command::Quit);
}
