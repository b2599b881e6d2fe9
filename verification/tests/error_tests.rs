use ghbox::error::Error;

#[test]
fn messages_name_the_kind_of_error() {
    assert_eq!(Error::Api("x".into()).message(), "GitHub API error: x");
    assert_eq!(Error::Token("x".into()).message(), "failed to get token via `gh auth token`: x");
    assert_eq!(Error::Config("x".into()).message(), "config error: x");
    assert_eq!(Error::Schema("x".into()).message(), "db schema error: x");
}

#[test]
fn wrapped_errors_show_their_own_message() {
    assert_eq!(Error::Filter("command filter timed out".into()).message(), "command filter timed out");
    assert_eq!(Error::Json("expected value".into()).message(), "expected value");
    assert_eq!(Error::Http("timeout".into()).message(), "timeout");
    assert_eq!(Error::Db("locked".into()).message(), "locked");
    assert_eq!(Error::Io("denied".into()).message(), "denied");
}
