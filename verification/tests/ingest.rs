use std::time::Instant;

use spinal_tap::ingest::{after_receive, after_send, missing_room, IngestStep, BUFFER_SIZE};

fn value_of(text: &str) -> Option<f64> {
    text.parse::<f64>().ok()
}

#[test]
fn a_datagram_is_handed_on_as_samples() {
    let before = Instant::now();
    match after_receive(Some(b"a:1|c\nnope\nb:2|g".as_slice()), value_of) {
        IngestStep::Send(samples) => {
            assert_eq!(samples.len(), 2);
            assert_eq!(samples[0].name, "a");
            assert_eq!(samples[1].value, 2.0);
            assert!(samples[0].received_at >= before);
            assert_eq!(samples[0].received_at, samples[1].received_at);
        }
        step => panic!("{step:?}"),
    }
}

#[test]
fn a_failed_receive_is_tried_again() {
    assert!(matches!(after_receive(None, value_of), IngestStep::Receive));
}

#[test]
fn samples_that_nobody_takes_end_the_work() {
    assert!(matches!(after_send::<f64>(true), IngestStep::Refill));
    assert!(matches!(after_send::<f64>(false), IngestStep::Stop));
}

#[test]
fn the_buffer_is_filled_up() {
    assert_eq!(BUFFER_SIZE, 8192);
    assert_eq!(missing_room(0), 8192);
    assert_eq!(missing_room(8000), 192);
    assert_eq!(missing_room(8192), 0);
    assert_eq!(missing_room(10_000), 0);
}
