use mqtt_broker::management::{
    error_message, error_reply, error_response, reply_or_error, ContentType, ErrorReply,
    ReplyError, ERROR_STATUS,
};

#[test]
fn message_without_causes_is_the_message_itself() {
    assert_eq!(error_message("disk full".to_string(), &vec![]), "disk full");
}

#[test]
fn message_lists_each_cause_on_its_own_line() {
    let causes = vec!["write failed".to_string(), "no space left".to_string()];
    assert_eq!(
        error_message("cannot create identity".to_string(), &causes),
        "cannot create identity\n\tcaused by: write failed\n\tcaused by: no space left"
    );
}

#[test]
fn reply_frames_the_quoted_message() {
    let reply = error_reply("\"boom\"".to_string());
    assert_eq!(
        reply,
        ErrorReply {
            status: 500,
            content_length: 18,
            content_type: ContentType::Json,
            body: "{\"message\":\"boom\"}".to_string(),
        }
    );
    assert_eq!(ERROR_STATUS, 500);
}

#[test]
fn reply_announces_length_in_bytes() {
    let reply = error_reply("\"h\u{e9}\"".to_string());
    assert_eq!(reply.body, "{\"message\":\"h\u{e9}\"}");
    assert_eq!(reply.body.chars().count(), 16);
    assert_eq!(reply.content_length, 17);
}

#[test]
fn response_carries_the_message_as_json() {
    let reply = error_response("General error".to_string(), &vec![]).unwrap();
    assert_eq!(reply.status, 500);
    assert_eq!(reply.content_type, ContentType::Json);
    assert_eq!(reply.body, "{\"message\":\"General error\"}");
    assert_eq!(reply.content_length, 27);
}

#[test]
fn response_escapes_what_json_cannot_hold() {
    let causes = vec!["path \"C:\\tmp\" missing".to_string()];
    let reply = error_response("boom".to_string(), &causes).unwrap();
    assert_eq!(
        reply.body,
        "{\"message\":\"boom\\n\\tcaused by: path \\\"C:\\\\tmp\\\" missing\"}"
    );
    assert_eq!(reply.content_length, reply.body.len() as u64);
}

#[test]
fn serialized_message_is_framed() {
    let reply = reply_or_error(Ok("\"x\"".to_string())).unwrap();
    assert_eq!(reply, error_reply("\"x\"".to_string()));
    assert_eq!(reply.body, "{\"message\":\"x\"}");
}

#[test]
fn failed_serialization_is_reported() {
    let failure = serde_json::from_str::<u8>("?").unwrap_err();
    assert_eq!(reply_or_error(Err(failure)), Err(ReplyError::Serialization));
}
