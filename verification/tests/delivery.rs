use news_relay::delivery::DeliveryRun;

#[test]
fn messages_are_sent_oldest_first() {
    // Composed newest first: X, Y, Z.  The sender must see Z, Y, X.
    let composed = vec![b"X".to_vec(), b"Y".to_vec(), b"Z".to_vec()];
    let mut run = DeliveryRun::new(composed, Some(b"X".to_vec()));
    let mut observed: Vec<Vec<u8>> = Vec::new();
    loop {
        let m = match run.next_to_send() {
            Some(m) => m.clone(),
            None => break,
        };
        observed.push(m);
        run.record_success();
    }
    assert_eq!(observed, vec![b"Z".to_vec(), b"Y".to_vec(), b"X".to_vec()]);
    assert_eq!(run.watermark_to_persist(), Some(&b"X".to_vec()));
}

#[test]
fn failed_send_withholds_watermark() {
    // The second of three sends fails: the watermark must never be written,
    // and no further message is handed out.
    let composed = vec![b"X".to_vec(), b"Y".to_vec(), b"Z".to_vec()];
    let mut run = DeliveryRun::new(composed, Some(b"X".to_vec()));
    assert_eq!(run.next_to_send(), Some(&b"Z".to_vec()));
    run.record_success();
    assert_eq!(run.next_to_send(), Some(&b"Y".to_vec()));
    run.record_failure();
    assert_eq!(run.next_to_send(), None);
    assert_eq!(run.watermark_to_persist(), None);
}

#[test]
fn empty_run_persists_nothing() {
    let run = DeliveryRun::new(Vec::new(), None);
    assert_eq!(run.next_to_send(), None);
    assert_eq!(run.watermark_to_persist(), None);
}

#[test]
fn complete_run_without_candidate_persists_nothing() {
    let mut run = DeliveryRun::new(vec![b"M".to_vec()], None);
    assert_eq!(run.next_to_send(), Some(&b"M".to_vec()));
    run.record_success();
    assert_eq!(run.watermark_to_persist(), None);
}
