use scribe::printer::{
    chunk_text, decode_job, inbound_jobs, init_commands, submission_job, JobQueue, CHANNEL_SIZE,
    DATA_SIZE,
};

#[test]
fn queue_bound_suspends_the_extra_job() {
    let mut q = JobQueue::new();
    for i in 0..CHANNEL_SIZE {
        assert_eq!(q.try_enqueue(format!("job {}", i)), Ok(()));
    }
    assert!(q.is_full());
    let extra = "job 8".to_string();
    assert_eq!(q.try_enqueue(extra.clone()), Err(extra.clone()));
    assert_eq!(q.len(), CHANNEL_SIZE);
    assert_eq!(q.dequeue(), Some("job 0".to_string()));
    assert_eq!(q.try_enqueue(extra), Ok(()));
    for i in 1..=CHANNEL_SIZE {
        assert_eq!(q.dequeue(), Some(format!("job {}", i)));
    }
    assert_eq!(q.dequeue(), None);
    assert!(q.is_empty());
}

#[test]
fn queue_keeps_fifo_order() {
    let mut q = JobQueue::new();
    assert_eq!(q.try_enqueue("a".to_string()), Ok(()));
    assert_eq!(q.try_enqueue("b".to_string()), Ok(()));
    assert_eq!(q.dequeue(), Some("a".to_string()));
    assert_eq!(q.try_enqueue("c".to_string()), Ok(()));
    assert_eq!(q.dequeue(), Some("b".to_string()));
    assert_eq!(q.dequeue(), Some("c".to_string()));
    assert_eq!(q.dequeue(), None);
}

#[test]
fn short_text_is_one_job() {
    assert_eq!(chunk_text("hello"), vec!["hello".to_string()]);
    assert!(chunk_text("").is_empty());
}

#[test]
fn long_text_is_cut_at_the_size_limit() {
    let text = "a".repeat(5000);
    let jobs = chunk_text(&text);
    assert_eq!(jobs.len(), 3);
    assert_eq!(jobs[0].len(), DATA_SIZE);
    assert_eq!(jobs[1].len(), DATA_SIZE);
    assert_eq!(jobs[2].len(), 5000 - 2 * DATA_SIZE);
    assert_eq!(jobs.concat(), text);
}

#[test]
fn cut_never_splits_a_character() {
    // 2047 one-byte characters and then a two-byte one: the latter starts the next job
    let text = format!("{}é", "a".repeat(DATA_SIZE - 1));
    let jobs = chunk_text(&text);
    assert_eq!(jobs, vec!["a".repeat(DATA_SIZE - 1), "é".to_string()]);
}

#[test]
fn exact_size_text_is_one_job() {
    let text = "b".repeat(DATA_SIZE);
    assert_eq!(chunk_text(&text), vec![text.clone()]);
}

#[test]
fn inbound_message_becomes_jobs() {
    assert_eq!(inbound_jobs(b"print me"), Some(vec!["print me".to_string()]));
    assert_eq!(inbound_jobs(b""), Some(vec![]));
}

#[test]
fn inbound_invalid_utf8_is_dropped() {
    assert_eq!(inbound_jobs(&[0xC3, 0x28]), None);
}

#[test]
fn decode_job_reads_utf8() {
    assert_eq!(decode_job("héllo".as_bytes()), Some("héllo"));
    assert_eq!(decode_job(b"line\r"), Some("line"));
    assert_eq!(decode_job(b"line\r\r"), Some("line\r"));
    assert_eq!(decode_job(&[0xE2, 0x82]), None);
}

#[test]
fn submission_within_limit_is_accepted() {
    assert_eq!(submission_job("hello"), Some("hello".to_string()));
    let max = "x".repeat(DATA_SIZE);
    assert_eq!(submission_job(&max), Some(max.clone()));
}

#[test]
fn submission_over_limit_is_refused() {
    assert_eq!(submission_job(&"x".repeat(DATA_SIZE + 1)), None);
    // 1025 two-byte characters are over the byte limit
    assert_eq!(submission_job(&"é".repeat(1025)), None);
}

#[test]
fn printer_init_sequence() {
    assert_eq!(
        init_commands(),
        vec![vec![0x1B, b'@'], vec![0x1B, b'7', 15, 150, 250], vec![0x1B, b'{', 0x01]]
    );
}
