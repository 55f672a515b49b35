use xiler_sync::publisher::{
    defer_failed, embed_description, response_outcome, split_into_chunks, CHUNK_SIZE,
};

#[test]
fn chunks_of_ten() {
    let items: Vec<u32> = (0..25).collect();
    let chunks = split_into_chunks(items);
    assert_eq!(chunks.len(), 3);
    assert_eq!(chunks[0], (0..10).collect::<Vec<u32>>());
    assert_eq!(chunks[1], (10..20).collect::<Vec<u32>>());
    assert_eq!(chunks[2], (20..25).collect::<Vec<u32>>());
}

#[test]
fn chunk_counts_round_up() {
    for n in [0u32, 1, 9, 10, 11, 20, 21, 100] {
        let items: Vec<u32> = (0..n).collect();
        let chunks = split_into_chunks(items);
        assert_eq!(chunks.len() as u32, (n + 9) / 10);
        assert!(chunks.iter().all(|c| !c.is_empty() && c.len() <= CHUNK_SIZE));
    }
}

#[test]
fn failed_chunks_are_deferred_and_delivered_ones_are_not() {
    let items: Vec<u32> = (0..25).collect();
    let chunks = split_into_chunks(items);
    let next = defer_failed(chunks, &vec![true, false, true]);
    assert_eq!(next, (10..20).collect::<Vec<u32>>());
    let chunks = split_into_chunks(next);
    assert_eq!(chunks.len(), 1);
    let last = defer_failed(chunks, &vec![true]);
    assert!(last.is_empty());
}

#[test]
fn all_failed_sends_everything_again() {
    let items: Vec<u32> = (0..12).collect();
    let chunks = split_into_chunks(items.clone());
    assert_eq!(defer_failed(chunks, &vec![false, false]), items);
}

#[test]
fn response_success_and_failure() {
    assert_eq!(response_outcome(200, "200 OK", ""), Ok(()));
    assert_eq!(response_outcome(204, "204 No Content", ""), Ok(()));
    assert_eq!(
        response_outcome(500, "500 Internal Server Error", "boom"),
        Err("500 Internal Server Error: boom".to_string())
    );
    assert!(response_outcome(301, "301 Moved Permanently", "").is_err());
}

#[test]
fn notification_text() {
    assert_eq!(
        embed_description("xiler.o", "tx1i0"),
        "`xiler.o` has just been registered!\n[tx1i0](https://ordinalswallet.com/inscription/tx1i0)"
            .to_string()
    );
}

#[test]
fn every_unit_delivered_once_over_passes() {
    let items: Vec<u32> = (0..35).collect();
    let mut pending = items.clone();
    let mut sent_ok: Vec<u32> = Vec::new();
    let mut pass = 0;
    while !pending.is_empty() {
        let chunks = split_into_chunks(pending);
        let delivered: Vec<bool> = (0..chunks.len()).map(|k| (k + pass) % 2 == 0).collect();
        for (chunk, ok) in chunks.iter().zip(&delivered) {
            if *ok {
                sent_ok.extend(chunk.iter().copied());
            }
        }
        pending = defer_failed(chunks, &delivered);
        pass += 1;
    }
    sent_ok.sort();
    assert_eq!(sent_ok, items);
}
