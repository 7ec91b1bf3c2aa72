use ai_switch::process_manager::HttpReply;
use ai_switch::slots::at_least_percent;
use ai_switch::slots::parse_slots_response;
use ai_switch::slots::read_slots;
use ai_switch::slots::slots_url;
use ai_switch::slots::total_tokens;
use ai_switch::slots::Field;
use ai_switch::slots::SlotFields;
use ai_switch::slots::SlotInfo;
use ai_switch::slots::SlotsReply;
use ai_switch::window::poll_due;
use ai_switch::window::slots_polled;
use ai_switch::window::slots_told;

fn info(tokens_used: usize, n_ctx: usize) -> Option<SlotInfo> {
    Some(SlotInfo { tokens_used, n_ctx })
}

fn slot(n_past: u64, n_decoded: u64) -> SlotFields {
    SlotFields {
        n_ctx: Field::Absent,
        n_prompt_tokens: Field::Absent,
        prompt_tokens_total: Field::Absent,
        n_past: Field::Number(n_past),
        next_decoded: Field::Absent,
        generation_tokens_total: Field::Absent,
        n_decoded: Field::Number(n_decoded),
    }
}

#[test]
fn an_array_of_slots_is_read() {
    let body = "[{\"id\": 0, \"n_ctx\": 32000, \"n_past\": 100}, {\"n_ctx\": 5, \"n_past\": 1}]";
    assert_eq!(parse_slots_response(body), info(101, 32000));
}

#[test]
fn an_object_with_slots_is_read() {
    let body = "{\"n_ctx\": 32000, \"slots\": [{\"prompt_tokens_total\": 7, \"generation_tokens_total\": 5}, {\"n_prompt_tokens\": 3}]}";
    assert_eq!(parse_slots_response(body), info(15, 32000));
    assert_eq!(parse_slots_response("{\"n_ctx\": 10}"), info(0, 10));
}

#[test]
fn entries_have_their_precedence() {
    let first = "[{\"n_ctx\": 9, \"n_past\": 100, \"prompt_tokens_total\": 10, \"n_prompt_tokens\": 1}]";
    assert_eq!(parse_slots_response(first), info(1, 9));
    let second = "[{\"n_ctx\": 9, \"n_past\": 100, \"prompt_tokens_total\": 10}]";
    assert_eq!(parse_slots_response(second), info(10, 9));
    let present = "[{\"n_ctx\": 9, \"n_prompt_tokens\": null, \"n_past\": 100}]";
    assert_eq!(parse_slots_response(present), info(0, 9));
    let next = "[{\"n_ctx\": 9, \"next_token\": [{\"n_decoded\": 4}], \"generation_tokens_total\": 5, \"n_decoded\": 6}]";
    assert_eq!(parse_slots_response(next), info(4, 9));
    let empty = "[{\"n_ctx\": 9, \"next_token\": [], \"generation_tokens_total\": 5, \"n_decoded\": 6}]";
    assert_eq!(parse_slots_response(empty), info(5, 9));
    let object = "[{\"n_ctx\": 9, \"next_token\": {\"0\": {\"n_decoded\": 4}}, \"n_decoded\": 6}]";
    assert_eq!(parse_slots_response(object), info(6, 9));
}

#[test]
fn answers_without_a_context_say_nothing() {
    assert_eq!(parse_slots_response("no json"), None);
    assert_eq!(parse_slots_response("[]"), None);
    assert_eq!(parse_slots_response("[{\"n_past\": 3}]"), None);
    assert_eq!(parse_slots_response("[{\"n_ctx\": 0, \"n_past\": 3}]"), None);
    assert_eq!(parse_slots_response("{\"n_ctx\": -4, \"slots\": []}"), None);
    assert_eq!(parse_slots_response("{\"n_ctx\": 4.5}"), None);
    assert_eq!(parse_slots_response("7"), None);
}

#[test]
fn tokens_that_cannot_be_counted_are_not() {
    let body = "[{\"n_ctx\": 9, \"n_past\": 18446744073709551615, \"n_decoded\": 1}]";
    assert_eq!(parse_slots_response(body), None);
    assert!(!read_slots(body).unwrap().is_countable());
    let most = "[{\"n_ctx\": 9, \"n_past\": 18446744073709551614, \"n_decoded\": 1}]";
    assert_eq!(parse_slots_response(most), info(usize::MAX, 9));
    assert_eq!(total_tokens(&vec![slot(u64::MAX, 0), slot(0, 1)]), None);
    assert_eq!(total_tokens(&vec![slot(2, 3), slot(4, 5)]), Some(14));
}

#[test]
fn the_array_goes_before_the_object() {
    let mut with_context = slot(2, 3);
    with_context.n_ctx = Field::Number(100);
    let reply = SlotsReply {
        array: Some(vec![with_context]),
        n_ctx: Field::Number(7),
        slots: vec![slot(1, 1)],
    };
    assert_eq!(reply.slot_info(), info(5, 100));
    let without = SlotsReply {
        array: Some(vec![slot(2, 3)]),
        n_ctx: Field::Number(7),
        slots: vec![slot(1, 1)],
    };
    assert_eq!(without.slot_info(), info(2, 7));
}

#[test]
fn what_is_read_is_what_the_answer_says() {
    let reply = read_slots("{\"n_ctx\": 3, \"slots\": [{\"n_past\": \"x\"}]}").unwrap();
    assert!(reply.array.is_none());
    assert_eq!(reply.n_ctx, Field::Number(3));
    assert_eq!(reply.slots.len(), 1);
    assert_eq!(reply.slots[0].n_past, Field::Other);
    assert_eq!(reply.slots[0].n_ctx, Field::Absent);
    assert_eq!(slots_url(8081), "http://127.0.0.1:8081/slots");
}

#[test]
fn a_full_context_asks_for_a_restart() {
    assert!(at_least_percent(98, 100, 98));
    assert!(!at_least_percent(97, 100, 98));
    assert!(!at_least_percent(97, 0, 98));
    assert!(at_least_percent(usize::MAX, usize::MAX, 100));
    let full = SlotInfo { tokens_used: 31360, n_ctx: 32000 };
    assert!(slots_told("a", full, true).restart);
    assert!(!slots_told("a", full, false).restart);
    let almost = SlotInfo { tokens_used: 31359, n_ctx: 32000 };
    let told = slots_told("a", almost, true);
    assert!(!told.restart);
    assert_eq!(told.update.model_id, "a");
    assert_eq!((told.update.tokens_used, told.update.n_ctx), (31359, 32000));
}

#[test]
fn polls_read_successful_replies_alone() {
    let body = "[{\"n_ctx\": 100, \"n_past\": 99}]".to_string();
    let good = HttpReply { status: 200, body: Some(body.clone()) };
    let outcome = slots_polled("a", &good, true).unwrap();
    assert!(outcome.restart);
    assert_eq!(outcome.update.tokens_used, 99);
    let bad = HttpReply { status: 501, body: Some(body) };
    assert!(slots_polled("a", &bad, true).is_none());
    assert!(slots_polled("a", &HttpReply { status: 200, body: None }, true).is_none());
    assert!(poll_due(1000));
    assert!(!poll_due(999));
}
