use airgap_sync::collector::{collect_texts, declines_retry, is_sentinel, wants_stop, Collector, Event, Phase, Report};
use airgap_sync::transport::{emit_chunks, CHUNK_SIZE};

#[test]
fn sentinel_ignores_case() {
    assert!(is_sentinel("done"));
    assert!(is_sentinel("DoNe"));
    assert!(!is_sentinel("done."));
    assert!(!is_sentinel("don"));
    assert!(!is_sentinel(""));
}

#[test]
fn answers_that_stop() {
    assert!(wants_stop("n"));
    assert!(wants_stop("N"));
    assert!(wants_stop("DONE"));
    assert!(!wants_stop("y"));
    assert!(!wants_stop("no"));
    assert!(declines_retry("n"));
    assert!(!declines_retry("done"));
    assert!(!declines_retry("y"));
}

#[test]
fn manual_collection_appends_in_order() {
    let mut c = Collector::new(false);
    assert_eq!(c.step(&Event::Acquired("aGk=".to_string())), Report::Appended(2));
    assert_eq!(c.phase(), Phase::AwaitingInput);
    assert_eq!(c.step(&Event::Acquired("IQ==".to_string())), Report::Appended(1));
    assert_eq!(c.step(&Event::Acquired("Done".to_string())), Report::Finished);
    assert_eq!(c.phase(), Phase::Done);
    assert_eq!(c.bytes(), &b"hi!".to_vec());
}

#[test]
fn invalid_base64_leaves_buffer() {
    let mut c = Collector::new(false);
    assert_eq!(c.step(&Event::Acquired("aGk=".to_string())), Report::Appended(2));
    assert_eq!(c.step(&Event::Acquired("***".to_string())), Report::InvalidEncoding);
    assert_eq!(c.phase(), Phase::AwaitingInput);
    assert_eq!(c.bytes(), &b"hi".to_vec());
}

#[test]
fn confirmed_collection_asks_after_each_chunk() {
    let mut c = Collector::new(true);
    assert_eq!(c.step(&Event::Acquired("aGk=".to_string())), Report::Appended(2));
    assert_eq!(c.phase(), Phase::AwaitingContinue);
    assert_eq!(c.step(&Event::Acquired("aGk=".to_string())), Report::Ignored);
    assert_eq!(c.step(&Event::Answer("y".to_string())), Report::Resume);
    assert_eq!(c.step(&Event::NotAcquired), Report::AskRetry);
    assert_eq!(c.phase(), Phase::AwaitingRetry);
    assert_eq!(c.step(&Event::Answer("y".to_string())), Report::Resume);
    assert_eq!(c.step(&Event::Acquired("IQ==".to_string())), Report::Appended(1));
    assert_eq!(c.step(&Event::Answer("n".to_string())), Report::Finished);
    assert_eq!(c.phase(), Phase::Done);
    assert_eq!(c.step(&Event::Acquired("aGk=".to_string())), Report::Ignored);
    assert_eq!(c.bytes(), &b"hi!".to_vec());
}

#[test]
fn declining_retry_ends_collection() {
    let mut c = Collector::new(true);
    assert_eq!(c.step(&Event::NotAcquired), Report::AskRetry);
    assert_eq!(c.step(&Event::Answer("N".to_string())), Report::Finished);
    assert_eq!(c.phase(), Phase::Done);
    assert!(c.bytes().is_empty());
}

fn texts(items: &[&str]) -> Vec<String> {
    items.iter().map(|t| t.to_string()).collect()
}

#[test]
fn collect_texts_skips_invalid_and_stops_at_sentinel() {
    assert_eq!(collect_texts(&texts(&["aGk=", "***", "IQ==", "DONE", "aGk="])), b"hi!".to_vec());
    assert_eq!(collect_texts(&texts(&[])), Vec::<u8>::new());
    assert_eq!(collect_texts(&texts(&["aGk="])), b"hi".to_vec());
}

#[test]
fn collect_texts_rebuilds_emitted_frame() {
    let frame: Vec<u8> = (0..3456u32).map(|i| (i * 7 + 1) as u8).collect();
    let sent: Vec<String> = emit_chunks(&frame, CHUNK_SIZE).into_iter().map(|c| c.text).collect();
    assert_eq!(collect_texts(&sent), frame);
}

#[test]
fn chunk_that_encodes_as_sentinel_ends_collection() {
    let chunks = emit_chunks(&[0x76, 0x89, 0xde], CHUNK_SIZE);
    assert_eq!(chunks[0].text, "done");
    assert_eq!(collect_texts(&vec![chunks[0].text.clone()]), Vec::<u8>::new());
}
