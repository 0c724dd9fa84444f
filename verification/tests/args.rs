use chat_room::{parse_args, ArgsError, Mode};

fn parse(args: &[&str]) -> Result<Mode, ArgsError> {
    parse_args(&args.iter().map(|arg| arg.to_string()).collect::<Vec<String>>())
}

#[test]
fn client_mode() {
    let expected =
        Ok(Mode::Client { addr: "host:1".to_owned(), name: "ann".to_owned() });
    assert_eq!(parse(&["chat", "--client", "host:1", "--name", "ann"]), expected);
    assert_eq!(parse(&["chat", "--name", "ann", "--client", "host:1"]), expected);
    assert_eq!(
        parse(&["chat", "--server", "--client", "host:1", "--name", "ann", "--name", "bob"]),
        expected
    );
}

#[test]
fn server_mode() {
    let expected = Ok(Mode::Server { addr: "127.0.0.1:1234".to_owned() });
    assert_eq!(parse(&["chat", "--server"]), expected);
    assert_eq!(parse(&["chat", "-x", "--server", "--name"]), expected);
    assert_eq!(parse(&["--server", "x"]), expected);
}

#[test]
fn flags_may_be_taken_for_values() {
    assert_eq!(
        parse(&["chat", "--client", "--name", "ann"]),
        Ok(Mode::Client { addr: "--name".to_owned(), name: "ann".to_owned() })
    );
}

#[test]
fn wrong_command_lines() {
    assert_eq!(parse(&[]), Err(ArgsError::TooFew));
    assert_eq!(parse(&["chat"]), Err(ArgsError::TooFew));
    assert_eq!(parse(&["chat", "--client"]), Err(ArgsError::ClientWithoutAddress));
    assert_eq!(parse(&["chat", "--client", "a"]), Err(ArgsError::MissingName));
    assert_eq!(
        parse(&["chat", "--client", "a", "--name"]),
        Err(ArgsError::NameWithoutValue)
    );
    assert_eq!(parse(&["chat", "client"]), Err(ArgsError::MissingMode));
}

#[test]
fn what_users_are_told() {
    assert_eq!(ArgsError::TooFew.message(), "Not enough arguments");
    assert_eq!(
        ArgsError::ClientWithoutAddress.message(),
        "--client requires an argument after"
    );
    assert_eq!(ArgsError::NameWithoutValue.message(), "--name requires an argument after");
    assert_eq!(ArgsError::MissingName.message(), "Missing --name argument");
    assert_eq!(ArgsError::MissingMode.message(), "Missing --client or --server argument");
}
