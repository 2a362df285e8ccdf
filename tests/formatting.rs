use scribe::format::format as wrap;
use scribe::printer::{job_chunks, LINE_FEED, MAX_CHARACTERS_PER_LINE};

fn is_ws(c: char) -> bool {
    c.is_whitespace()
}

fn visible(s: &str) -> String {
    s.chars().filter(|c| !is_ws(*c)).collect()
}

#[test]
fn reversal_example_lines() {
    let lines = wrap("A B C D E", 3);
    assert_eq!(lines, vec!["A B".to_string(), "C D".to_string(), "E".to_string()]);
}

#[test]
fn reversal_example_transport_order() {
    let chunks = job_chunks(b"A B C D E", 3);
    let expected: Vec<Vec<u8>> = vec![
        b"E".to_vec(),
        vec![LINE_FEED],
        b"C D".to_vec(),
        vec![LINE_FEED],
        b"A B".to_vec(),
        vec![LINE_FEED],
        vec![LINE_FEED],
    ];
    assert_eq!(chunks, expected);
}

#[test]
fn empty_text_gives_no_lines() {
    assert!(wrap("", 30).is_empty());
    assert!(wrap("   \n\t  \r\n", 30).is_empty());
}

#[test]
fn empty_job_advances_no_paper() {
    assert!(job_chunks(b"", 30).is_empty());
    assert!(job_chunks(b"  \t \r\n  ", 30).is_empty());
    assert!(job_chunks(b"\r", 30).is_empty());
}

#[test]
fn words_are_neither_split_nor_joined_when_they_fit() {
    let text = "alpha  beta gamma\tdelta epsilon zeta eta theta iota kappa";
    // the longest word, "epsilon", has seven characters
    for w in 7..30usize {
        let lines = wrap(text, w);
        let from_lines: Vec<String> = lines
            .iter()
            .flat_map(|l| l.split_whitespace().map(|s| s.to_string()).collect::<Vec<_>>())
            .collect();
        let from_text: Vec<String> = text.split_whitespace().map(|s| s.to_string()).collect();
        assert_eq!(from_lines, from_text, "width {}", w);
    }
}

#[test]
fn long_word_cut_at_exactly_the_width_and_resumed() {
    assert_eq!(
        wrap("  xy abcdefghijk lm", 4),
        vec!["xy".to_string(), "abcd".to_string(), "efgh".to_string(), "ijk".to_string(), "lm".to_string()]
    );
}

#[test]
fn short_text_is_one_trimmed_line() {
    assert_eq!(wrap("  hello world  ", 30), vec!["hello world".to_string()]);
}

#[test]
fn wraps_at_last_space_inside_width() {
    assert_eq!(
        wrap("the quick brown fox", 10),
        vec!["the quick".to_string(), "brown fox".to_string()]
    );
}

#[test]
fn word_ending_at_width_is_kept_whole() {
    assert_eq!(wrap("abcde fgh", 5), vec!["abcde".to_string(), "fgh".to_string()]);
}

#[test]
fn long_word_is_hard_cut() {
    assert_eq!(
        wrap("abcdefghij", 4),
        vec!["abcd".to_string(), "efgh".to_string(), "ij".to_string()]
    );
}

#[test]
fn long_word_after_short_one() {
    assert_eq!(
        wrap("a bcdefgh", 4),
        vec!["a".to_string(), "bcde".to_string(), "fgh".to_string()]
    );
}

#[test]
fn explicit_newlines_start_new_lines() {
    assert_eq!(
        wrap("one\ntwo three\r\n\n  four", 30),
        vec!["one".to_string(), "two three".to_string(), "four".to_string()]
    );
}

#[test]
fn width_counts_characters() {
    assert_eq!(wrap("héllo wörld", 5), vec!["héllo".to_string(), "wörld".to_string()]);
}

#[test]
fn wrapped_lines_respect_width_and_keep_words() {
    let text = "  Lorem ipsum dolor sit amet, consectetur adipiscing elit, sed do \
                eiusmod tempor incididunt ut labore et dolore magna aliqua.\n\
                Supercalifragilisticexpialidocious-and-then-some words   here ";
    for w in 1..40usize {
        let lines = wrap(text, w);
        for l in &lines {
            let n = l.chars().count();
            assert!(n >= 1 && n <= w, "line {:?} at width {}", l, w);
            assert!(!l.starts_with(is_ws) && !l.ends_with(is_ws));
        }
        assert_eq!(visible(&lines.concat()), visible(text));
    }
}

#[test]
fn printer_width_lines() {
    let text = "This message is longer than thirty characters for sure";
    let lines = wrap(text, MAX_CHARACTERS_PER_LINE);
    assert_eq!(
        lines,
        vec!["This message is longer than".to_string(), "thirty characters for sure".to_string()]
    );
}

#[test]
fn job_drops_one_trailing_carriage_return() {
    assert_eq!(job_chunks(b"hi\r", 30), vec![b"hi".to_vec(), vec![LINE_FEED], vec![LINE_FEED]]);
}

#[test]
fn invalid_utf8_job_sends_nothing() {
    assert!(job_chunks(&[0x66, 0xFF, 0x6F], 30).is_empty());
}

#[test]
fn multibyte_lines_are_sent_as_utf8() {
    assert_eq!(
        job_chunks("née".as_bytes(), 30),
        vec!["née".as_bytes().to_vec(), vec![LINE_FEED], vec![LINE_FEED]]
    );
}
