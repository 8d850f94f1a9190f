use calendar_events::dispatch::dispatch_body;

#[test]
fn body_has_message_channel_and_roles() {
    let roles = vec![1, 2];
    assert_eq!(
        dispatch_body("hola", 5, &roles),
        "{\"message\":\"hola\",\"channelId\":5,\"roles\":[1,2]}"
    );
}

#[test]
fn body_with_no_roles() {
    let roles: Vec<i64> = Vec::new();
    assert_eq!(
        dispatch_body("m", 7, &roles),
        "{\"message\":\"m\",\"channelId\":7,\"roles\":[]}"
    );
}

#[test]
fn body_escapes_message() {
    let roles = vec![9];
    assert_eq!(
        dispatch_body("a\"b\\c\nd", 1, &roles),
        "{\"message\":\"a\\\"b\\\\c\\nd\",\"channelId\":1,\"roles\":[9]}"
    );
    assert_eq!(
        dispatch_body("t\tr\ru\u{1}", 1, &roles),
        "{\"message\":\"t\\tr\\ru\\u0001\",\"channelId\":1,\"roles\":[9]}"
    );
}

#[test]
fn body_with_negative_identifiers() {
    let roles = vec![-3, 0];
    assert_eq!(
        dispatch_body("m", -12, &roles),
        "{\"message\":\"m\",\"channelId\":-12,\"roles\":[-3,0]}"
    );
}

#[test]
fn body_keeps_unicode_verbatim() {
    let roles = vec![1];
    assert_eq!(
        dispatch_body("señal 📢", 1, &roles),
        "{\"message\":\"señal 📢\",\"channelId\":1,\"roles\":[1]}"
    );
}
