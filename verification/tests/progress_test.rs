use learning_rust::progress::{ProgressReport, StreamedBody, Transfer};

#[test]
fn percentage_shown_when_total_known() {
    let mut t = Transfer::new(Some(4096));
    assert_eq!(
        t.record(1024),
        ProgressReport::Fraction { received: 1024, total: 4096, percent: 25 }
    );
    assert_eq!(
        t.record(3072),
        ProgressReport::Fraction { received: 4096, total: 4096, percent: 100 }
    );
    assert_eq!(t.received(), 4096);
}

#[test]
fn percentage_rounds_down() {
    let mut t = Transfer::new(Some(3));
    assert_eq!(t.record(1), ProgressReport::Fraction { received: 1, total: 3, percent: 33 });
    assert_eq!(t.record(1), ProgressReport::Fraction { received: 2, total: 3, percent: 66 });
}

#[test]
fn count_only_without_total_or_with_zero_total() {
    let mut t = Transfer::new(None);
    assert_eq!(t.record(10), ProgressReport::Count { received: 10 });
    let mut z = Transfer::new(Some(0));
    assert_eq!(z.record(7), ProgressReport::Count { received: 7 });
}

#[test]
fn overflowing_chunk_is_refused() {
    let mut t = Transfer::new(None);
    t.record(usize::MAX);
    assert!(!t.can_record(1));
    let mut p = Transfer::new(Some(1));
    assert!(p.can_record(1000));
    p.record(1000);
    assert!(!p.can_record(usize::MAX / 50));
}

#[test]
fn rejected_status_yields_status_error() {
    let err = Transfer::from_response(404, Some(b"10")).err().expect("404 is not accepted");
    assert_eq!(err.code, 404);
    assert!(StreamedBody::from_response(500, None).is_err());
}

#[test]
fn accepted_response_reads_content_length() {
    let t = Transfer::from_response(200, Some(b"256")).ok().expect("200 is accepted");
    assert_eq!(t.total(), Some(256));
    assert_eq!(t.received(), 0);
    let u = Transfer::from_response(200, Some(b"n/a")).ok().expect("200 is accepted");
    assert_eq!(u.total(), None);
}

#[test]
fn streamed_body_is_concatenation_of_chunks() {
    // 256 bytes arriving in uneven chunks, as from a `/bytes/256` endpoint.
    let data: Vec<u8> = (0..=255u8).collect();
    let mut body = StreamedBody::from_response(200, Some(b"256")).ok().expect("accepted");
    let mut reports = Vec::new();
    let mut so_far = 0usize;
    for chunk in [&data[..100], &data[100..101], &data[101..]] {
        assert!(body.can_push(chunk.len()));
        reports.push(body.push_chunk(chunk));
        so_far += chunk.len();
        assert_eq!(body.received() as usize, so_far);
    }
    assert_eq!(body.received(), 256);
    assert_eq!(
        reports,
        vec![
            ProgressReport::Fraction { received: 100, total: 256, percent: 39 },
            ProgressReport::Fraction { received: 101, total: 256, percent: 39 },
            ProgressReport::Fraction { received: 256, total: 256, percent: 100 },
        ]
    );
    let collected = body.into_body();
    assert_eq!(collected.len(), 256);
    assert_eq!(collected, data);
}
