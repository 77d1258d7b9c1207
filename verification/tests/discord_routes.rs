use ed25519_dalek::{Signer, SigningKey};
use srs_worker::discord::{
    bot_authorization, check_discord_status, discord_interaction, message_body, message_post_url,
    messages_page_url, next_messages_page, pong_json, report_payload_json, route_interaction,
    Interaction, InteractionEvent, InteractionRoute, PageStep,
};

fn interaction(channel: Option<&str>, kind: Option<u64>, command: Option<&str>, argument: Option<&str>) -> Interaction {
    Interaction {
        channel_id: channel.map(|s| s.to_string()),
        kind,
        command: command.map(|s| s.to_string()),
        argument: argument.map(|s| s.to_string()),
    }
}

#[test]
fn ping_from_bot_channel_is_answered() {
    let i = interaction(Some("42"), Some(1), None, None);
    assert_eq!(route_interaction(Some(i), Some("42")), InteractionRoute::Pong);
    assert_eq!(pong_json(), "{\"type\":1}");
}

#[test]
fn report_command_routes_with_its_argument() {
    let i = interaction(Some("42"), Some(2), Some("report"), Some("seattle"));
    assert_eq!(
        route_interaction(Some(i), Some("42")),
        InteractionRoute::Report { argument: "seattle".to_string() }
    );
}

#[test]
fn bad_commands_are_rejected() {
    let cases = vec![
        interaction(Some("42"), Some(2), Some("other"), Some("seattle")),
        interaction(Some("42"), Some(2), Some("report"), Some("")),
        interaction(Some("42"), Some(2), Some("report"), None),
        interaction(Some("42"), Some(2), None, Some("seattle")),
        interaction(Some("42"), Some(3), Some("report"), Some("seattle")),
        interaction(Some("42"), None, Some("report"), Some("seattle")),
        interaction(Some("7"), Some(1), None, None),
    ];
    for i in cases {
        assert_eq!(route_interaction(Some(i), Some("42")), InteractionRoute::Reject(400));
    }
    assert_eq!(route_interaction(None, Some("42")), InteractionRoute::Reject(400));
    let i = interaction(Some("42"), Some(1), None, None);
    assert_eq!(route_interaction(Some(i), None), InteractionRoute::Reject(400));
}

#[test]
fn missing_channel_aborts() {
    let i = interaction(None, Some(1), None, None);
    assert_eq!(route_interaction(Some(i), Some("42")), InteractionRoute::Abort);
}

fn hex(bytes: &[u8]) -> String {
    bytes.iter().map(|b| format!("{:02x}", b)).collect()
}

/// A key text and the signature text of `timestamp` followed by `body`.
fn sign(timestamp: &str, body: &str) -> (String, String) {
    let signing = SigningKey::from_bytes(&[7u8; 32]);
    let mut message = timestamp.as_bytes().to_vec();
    message.extend_from_slice(body.as_bytes());
    (hex(signing.verifying_key().as_bytes()), hex(&signing.sign(&message).to_bytes()))
}

fn answer(body: &str) -> InteractionRoute {
    let (key, sig) = sign("1700", body);
    request(Some(&sig), Some("1700"), Some(&key), body.as_bytes())
}

fn request(signature: Option<&str>, timestamp: Option<&str>, public_key: Option<&str>, body: &[u8]) -> InteractionRoute {
    discord_interaction(InteractionEvent::Request { signature, timestamp, public_key, body, bot_channel: Some("42") })
}

#[test]
fn unsigned_interaction_is_rejected_before_its_body() {
    let body = "{\"channel_id\":\"42\",\"type\":1}";
    let (key, _) = sign("1700", body);
    assert_eq!(
        request(None, Some("1700"), Some(&key), body.as_bytes()),
        InteractionRoute::Reject(401)
    );
    // A signature over another body does not verify.
    let (key, sig) = sign("1700", "{}");
    assert_eq!(
        request(Some(&sig), Some("1700"), Some(&key), body.as_bytes()),
        InteractionRoute::Reject(401)
    );
}

#[test]
fn signed_ping_is_answered() {
    assert_eq!(answer("{\"channel_id\":\"42\",\"type\":1}"), InteractionRoute::Pong);
}

#[test]
fn signed_report_reads_its_argument_from_the_body() {
    let body = "{\"channel_id\":\"42\",\"type\":2,\"data\":{\"name\":\"report\",\"options\":[{\"name\":\"city\",\"value\":\"seattle\"},{\"value\":\"x\"}]}}";
    assert_eq!(answer(body), InteractionRoute::Report { argument: "seattle".to_string() });
}

#[test]
fn signed_bodies_that_do_not_route() {
    assert_eq!(answer("not json"), InteractionRoute::Reject(400));
    assert_eq!(answer("{\"channel_id\":\"7\",\"type\":1}"), InteractionRoute::Reject(400));
    assert_eq!(answer("{\"channel_id\":\"42\",\"type\":\"1\"}"), InteractionRoute::Reject(400));
    assert_eq!(answer("{\"channel_id\":42,\"type\":1}"), InteractionRoute::Abort);
    assert_eq!(answer("{\"type\":1}"), InteractionRoute::Abort);
    let no_array = "{\"channel_id\":\"42\",\"type\":2,\"data\":{\"name\":\"report\",\"options\":{\"value\":\"x\"}}}";
    assert_eq!(answer(no_array), InteractionRoute::Reject(400));
    let empty = "{\"channel_id\":\"42\",\"type\":2,\"data\":{\"name\":\"report\",\"options\":[]}}";
    assert_eq!(answer(empty), InteractionRoute::Reject(400));
}

#[test]
fn report_payload_text() {
    assert_eq!(
        report_payload_json(),
        "{\"data\":{\"attachments\":[{\"filename\":\"export.csv\",\"id\":0}],\"content\":\"Contacts export from last 7 days\"},\"type\":4}"
    );
}

#[test]
fn request_texts() {
    assert_eq!(message_post_url("123"), "https://discord.com/api/v10/channels/123/messages");
    assert_eq!(messages_page_url("123", None), "https://discord.com/api/v10/channels/123/messages?limit=100");
    assert_eq!(
        messages_page_url("123", Some("99")),
        "https://discord.com/api/v10/channels/123/messages?limit=100&before=99"
    );
    assert_eq!(bot_authorization("tok"), "Bot tok");
    assert_eq!(
        message_body("say \"hi\"\n"),
        "{\"allowed_mentions\":{\"parse\":[]},\"content\":\"say \\\"hi\\\"\\n\"}"
    );
}

#[test]
fn discord_status() {
    assert_eq!(check_discord_status(200), Ok(()));
    assert_eq!(check_discord_status(204), Ok(()));
    assert_eq!(check_discord_status(299), Ok(()));
    assert_eq!(check_discord_status(300), Err(300));
    assert_eq!(check_discord_status(403), Err(403));
    assert_eq!(check_discord_status(199), Err(199));
}

#[test]
fn paging_follows_the_last_message() {
    assert_eq!(next_messages_page(100, Some("55".to_string())), PageStep::Next { before: "55".to_string() });
    assert_eq!(next_messages_page(99, Some("55".to_string())), PageStep::Done);
    assert_eq!(next_messages_page(0, None), PageStep::Done);
    assert_eq!(next_messages_page(100, None), PageStep::Done);
}
