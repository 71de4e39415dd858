use cogfer::message::Message;
use cogfer::request::Request;

#[test]
fn repeated_system_calls_append_in_order() {
    let request = Request::builder()
        .message(Message::user("hi"))
        .system("first")
        .system("second")
        .build();
    assert_eq!(request.system_prompt(), Some("first\n\nsecond"));
    assert_eq!(request.messages.len(), 1);
}

#[test]
fn replacing_the_history_keeps_the_system_prompt() {
    let mut request = Request::builder().system("stay").build();
    request.messages = vec![Message::user("hi")];
    assert_eq!(request.system_prompt(), Some("stay"));
}

#[test]
fn blank_system_prompt_reads_as_absent() {
    let request = Request::builder().system("  \n ").build();
    assert!(request.system.is_some());
    assert_eq!(request.system_prompt(), None);
}
