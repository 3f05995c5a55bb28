use neonia_swarm::queue::{item_from_text, popped_item_of};

fn reply(text: &str) -> String {
    format!(
        "{{\"jsonrpc\":\"2.0\",\"id\":1,\"result\":{{\"content\":[{{\"type\":\"text\",\"text\":{}}}]}}}}",
        serde_json::to_string(text).unwrap()
    )
}

#[test]
fn payload_is_taken_from_json_text() {
    let body = reply("{\"payload\": \"{\\\"name\\\":\\\"SMELTER\\\"}\"}");
    assert_eq!(popped_item_of(&body).unwrap(), "{\"name\":\"SMELTER\"}");
}

#[test]
fn plain_text_is_the_item() {
    assert_eq!(popped_item_of(&reply("hello")).unwrap(), "hello");
    assert_eq!(popped_item_of(&reply("{\"other\": 1}")).unwrap(), "{\"other\": 1}");
}

#[test]
fn empty_queue_gives_nothing() {
    assert!(popped_item_of(&reply("Queue is empty")).is_none());
    assert!(popped_item_of(&reply("  \n ")).is_none());
    assert!(popped_item_of("not json").is_none());
    assert!(popped_item_of("{\"result\": {}}").is_none());
}

#[test]
fn item_from_answer_text() {
    assert!(item_from_text("Queue is empty".to_string()).is_none());
    assert!(item_from_text(" \t".to_string()).is_none());
    assert_eq!(item_from_text("{\"payload\":\"p\"}".to_string()).unwrap(), "p");
    assert_eq!(item_from_text("x".to_string()).unwrap(), "x");
}
