use anchor_lang::{AnchorDeserialize, AnchorSerialize};
use ario_gar::event_log::{decoded_event_blobs, has_event, parse_all_events, parse_event};
use base64::engine::general_purpose::STANDARD as B64;
use base64::Engine as _;

fn discriminator(name: &str) -> Vec<u8> {
    let digest = anchor_lang::solana_program::hash::hash(format!("event:{}", name).as_bytes());
    digest.to_bytes()[..8].to_vec()
}

fn dummy() -> Vec<u8> {
    discriminator("DummyEvent")
}

fn other() -> Vec<u8> {
    discriminator("OtherEvent")
}

fn emit_dummy_log(a: u64, b: i64, c: &str) -> String {
    let mut payload = dummy();
    AnchorSerialize::serialize(&(a, b, c.to_string()), &mut payload).unwrap();
    format!("Program data: {}", B64.encode(payload))
}

fn decode(payload: &Vec<u8>) -> Option<(u64, i64, String)> {
    <(u64, i64, String) as AnchorDeserialize>::try_from_slice(payload).ok()
}

#[test]
fn parses_basic_event_from_logs() {
    let logs = vec![
        "Program 11111111111111111111111111111111 invoke [1]".to_string(),
        emit_dummy_log(42, -7, "hello"),
        "Program 11111111111111111111111111111111 success".to_string(),
    ];
    let ev = parse_event(&logs, &dummy(), decode).expect("dummy event missing");
    assert_eq!(ev, (42, -7, "hello".to_string()));
}

#[test]
fn ignores_non_matching_discriminators() {
    let logs = vec![emit_dummy_log(1, 1, "x")];
    assert!(parse_event(&logs, &other(), decode).is_none());
}

#[test]
fn ignores_non_program_data_lines() {
    let logs = vec!["Program log: not an event".to_string(), "random noise".to_string()];
    assert!(parse_event(&logs, &dummy(), decode).is_none());
}

#[test]
fn parses_multiple_same_type() {
    let logs = vec![emit_dummy_log(1, 2, "a"), emit_dummy_log(3, 4, "b")];
    let evs = parse_all_events(&logs, &dummy(), decode);
    assert_eq!(evs.len(), 2);
    assert_eq!(evs[0].0, 1);
    assert_eq!(evs[1].2, "b");
}

#[test]
fn has_event_true_and_false() {
    let logs_with = vec![emit_dummy_log(1, 2, "x")];
    let logs_without: Vec<String> = vec![];
    assert!(has_event(&logs_with, &dummy(), decode));
    assert!(!has_event(&logs_without, &dummy(), decode));
}

#[test]
fn assert_no_event_passes_when_absent() {
    let logs: Vec<String> = vec![];
    assert!(!has_event(&logs, &dummy(), decode));
}

#[test]
fn expect_event_count_returns_events() {
    let logs = vec![emit_dummy_log(1, 1, "a"), emit_dummy_log(2, 2, "b")];
    let events = parse_all_events(&logs, &dummy(), decode);
    assert_eq!(events.len(), 2);
    assert_eq!(events[0].0, 1);
    assert_eq!(events[1].0, 2);
}

#[test]
fn ignores_truncated_blobs() {
    let logs = vec![format!("Program data: {}", B64.encode([0u8; 4]))];
    assert!(parse_event(&logs, &dummy(), decode).is_none());
    assert_eq!(decoded_event_blobs(&logs), vec![vec![0u8; 4]]);
}

#[test]
fn payloads_that_cannot_be_read_are_passed_over() {
    let mut short = dummy();
    short.extend_from_slice(&[1, 2, 3]);
    let malformed = format!("Program data: {}", B64.encode(short));
    let logs = vec![malformed.clone(), emit_dummy_log(5, 6, "c"), malformed.clone(), emit_dummy_log(7, 8, "d")];
    assert_eq!(parse_event(&logs, &dummy(), decode), Some((5, 6, "c".to_string())));
    assert!(has_event(&logs, &dummy(), decode));
    assert_eq!(
        parse_all_events(&logs, &dummy(), decode),
        vec![(5, 6, "c".to_string()), (7, 8, "d".to_string())]
    );
    assert_eq!(parse_event(&vec![malformed.clone()], &dummy(), decode), None);
    assert!(!has_event(&vec![malformed], &dummy(), decode));
}

#[test]
fn white_space_and_bad_base64_are_dealt_with() {
    let logs = vec![
        "Program data:   AQID  ".to_string(),
        "Program data: not base64!".to_string(),
        " Program data: AQID".to_string(),
    ];
    assert_eq!(decoded_event_blobs(&logs), vec![vec![1u8, 2, 3]]);
}
