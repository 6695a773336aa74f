use mcp_servers::notify::error::Error;
use mcp_servers::notify::notify_client::{NotifyClient, Urgency};
use mcp_servers::notify::notify_server::{notify_reply, parse_urgency};

#[test]
fn urgency_defaults_to_normal() {
    let client = NotifyClient::new();
    assert_eq!(client.effective_urgency(None), Urgency::Normal);
    assert_eq!(client.effective_urgency(Some(Urgency::Critical)), Urgency::Critical);
    assert_eq!(client.effective_urgency(Some(Urgency::Low)), Urgency::Low);
}

#[test]
fn urgency_text_ignores_case() {
    assert_eq!(parse_urgency(None), Ok(None));
    assert_eq!(parse_urgency(Some("low")), Ok(Some(Urgency::Low)));
    assert_eq!(parse_urgency(Some("NORMAL")), Ok(Some(Urgency::Normal)));
    assert_eq!(parse_urgency(Some("Critical")), Ok(Some(Urgency::Critical)));
}

#[test]
fn unknown_urgency_is_rejected() {
    assert_eq!(
        parse_urgency(Some("urgent")),
        Err("Error: invalid urgency \"urgent\" (expected \"low\", \"normal\", or \"critical\")".to_string())
    );
    assert!(parse_urgency(Some(" low")).is_err());
}

#[test]
fn notify_replies() {
    assert_eq!(notify_reply("Hi", &Ok(())), "Notification sent: Hi");
    assert_eq!(
        notify_reply("Hi", &Err(Error::Notify("no daemon".to_string()))),
        "Error: notification error: no daemon"
    );
}
