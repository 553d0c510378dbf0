use cc_wc::accumulate::{compute_statistics, step, ReadEvent, Step};
use cc_wc::counts::WcCounts;
use cc_wc::error::WcError;
use cc_wc::options::WcOptions;

fn options(count_lines: bool, count_words: bool, count_bytes: bool, count_chars: bool) -> WcOptions {
    WcOptions { count_lines, count_words, count_bytes, count_chars }
}

/// Runs the accumulator over the chunks, as a reader would deliver them.
fn run(wc_args: &WcOptions, chunks: &[&[u8]]) -> Result<WcCounts, WcError> {
    let mut counts = WcCounts::new();
    let mut reads = chunks.iter();
    loop {
        let chunk: &[u8] = reads.next().copied().unwrap_or(&[]);
        assert!(counts.has_room(chunk.len()));
        match step(wc_args, counts, ReadEvent::Delivered(chunk)) {
            Step::Continue(next) => counts = next,
            Step::Finished(total) => return Ok(total),
            Step::Failed(error) => return Err(error),
        }
    }
}

#[test]
fn a_read_of_nothing_ends_the_run() {
    let counts = WcCounts { num_lines: 1, num_words: 2, num_bytes: 3, num_chars: 4 };
    let all = WcOptions::all();
    assert_eq!(step(&all, counts, ReadEvent::Delivered(&[])), Step::Finished(counts));
    assert_eq!(
        step(&all, WcCounts::new(), ReadEvent::Delivered(&[])),
        Step::Finished(WcCounts { num_lines: 0, num_words: 0, num_bytes: 0, num_chars: 0 })
    );
}

#[test]
fn a_failed_read_fails_the_run() {
    let counts = WcCounts { num_lines: 1, num_words: 2, num_bytes: 3, num_chars: 4 };
    assert_eq!(
        step(&WcOptions::all(), counts, ReadEvent::Failed),
        Step::Failed(WcError::StreamRead)
    );
    assert_eq!(
        step(&WcOptions::new(), WcCounts::new(), ReadEvent::Failed),
        Step::Failed(WcError::StreamRead)
    );
}

#[test]
fn a_line_adds_its_statistics() {
    let counts = WcCounts { num_lines: 10, num_words: 20, num_bytes: 30, num_chars: 40 };
    assert_eq!(
        step(&WcOptions::all(), counts, ReadEvent::Delivered("na\u{00EF}ve words here\n".as_bytes())),
        Step::Continue(WcCounts { num_lines: 11, num_words: 23, num_bytes: 48, num_chars: 57 })
    );
    assert_eq!(
        step(&options(false, true, false, false), counts, ReadEvent::Delivered(b"one two")),
        Step::Continue(WcCounts { num_lines: 10, num_words: 22, num_bytes: 30, num_chars: 40 })
    );
}

#[test]
fn a_malformed_line_fails_the_run_where_characters_are_counted() {
    let counts = WcCounts { num_lines: 1, num_words: 2, num_bytes: 3, num_chars: 4 };
    let line: [u8; 3] = [b'a', 0xC3, b'\n'];
    assert_eq!(
        step(&WcOptions::all(), counts, ReadEvent::Delivered(&line)),
        Step::Failed(WcError::Decoding)
    );
    assert_eq!(
        step(&options(true, true, true, false), counts, ReadEvent::Delivered(&line)),
        Step::Continue(WcCounts { num_lines: 2, num_words: 3, num_bytes: 6, num_chars: 4 })
    );
}

#[test]
fn counters_never_decrease() {
    let all = WcOptions::all();
    let mut counts = WcCounts::new();
    for line in ["first line\n", "\n", "   \n", "\u{20AC}\u{20AC}\n", "last"] {
        match step(&all, counts, ReadEvent::Delivered(line.as_bytes())) {
            Step::Continue(next) => {
                assert!(next.num_lines >= counts.num_lines);
                assert!(next.num_words >= counts.num_words);
                assert!(next.num_bytes >= counts.num_bytes);
                assert!(next.num_chars >= counts.num_chars);
                counts = next;
            }
            other => panic!("{:?}", other),
        }
    }
    assert_eq!(counts, WcCounts { num_lines: 5, num_words: 4, num_bytes: 27, num_chars: 23 });
}

#[test]
fn a_run_line_by_line_gives_the_statistics_of_the_whole() {
    let content = "hello world\nline two\nline three";
    let chunks: [&[u8]; 3] = [b"hello world\n", b"line two\n", b"line three"];
    for mask in 0..16u8 {
        let wc_args = options(mask & 1 != 0, mask & 2 != 0, mask & 4 != 0, mask & 8 != 0);
        assert_eq!(run(&wc_args, &chunks), compute_statistics(wc_args, content.as_bytes()));
    }
    assert_eq!(
        run(&WcOptions::all(), &chunks),
        Ok(WcCounts { num_lines: 3, num_words: 6, num_bytes: 31, num_chars: 31 })
    );
}

#[test]
fn a_run_stops_at_the_first_malformed_line() {
    let chunks: [&[u8]; 3] = [b"fine\n", &[0xFF, b'\n'], b"fine again\n"];
    assert_eq!(run(&WcOptions::all(), &chunks), Err(WcError::Decoding));
    assert_eq!(
        run(&options(true, true, true, false), &chunks),
        Ok(WcCounts { num_lines: 3, num_words: 4, num_bytes: 18, num_chars: 0 })
    );
}

#[test]
fn several_lines_may_come_in_one_read() {
    let chunks: [&[u8]; 2] = [b"a b\n\xC3\xA9\n", b"c\nd"];
    assert_eq!(
        run(&WcOptions::all(), &chunks),
        Ok(WcCounts { num_lines: 4, num_words: 5, num_bytes: 10, num_chars: 9 })
    );
    assert_eq!(
        run(&WcOptions::all(), &chunks),
        compute_statistics(WcOptions::all(), b"a b\n\xC3\xA9\nc\nd")
    );
}

#[test]
fn counts_add_up_counter_by_counter() {
    let a = WcCounts { num_lines: 1, num_words: 2, num_bytes: 3, num_chars: 4 };
    let b = WcCounts { num_lines: 10, num_words: 20, num_bytes: 30, num_chars: 40 };
    assert_eq!(a.plus(b), WcCounts { num_lines: 11, num_words: 22, num_bytes: 33, num_chars: 44 });
    assert_eq!(a.plus(WcCounts::new()), a);
}

#[test]
fn room_is_what_is_left_below_the_limit() {
    let counts = WcCounts { num_lines: 1, num_words: 2, num_bytes: usize::MAX - 10, num_chars: 4 };
    assert!(counts.has_room(0));
    assert!(counts.has_room(10));
    assert!(!counts.has_room(11));
    assert!(!counts.has_room(usize::MAX));
    assert!(WcCounts::new().has_room(usize::MAX));
}

#[test]
fn new_counts_are_zero() {
    assert_eq!(
        WcCounts::new(),
        WcCounts { num_lines: 0, num_words: 0, num_bytes: 0, num_chars: 0 }
    );
}

#[test]
fn new_options_select_nothing() {
    let wc_args = WcOptions::new();
    assert!(!wc_args.count_lines);
    assert!(!wc_args.count_words);
    assert!(!wc_args.count_bytes);
    assert!(!wc_args.count_chars);
    assert!(wc_args.is_empty());
    assert!(!WcOptions::all().is_empty());
    assert_eq!(WcOptions::all(), options(true, true, true, true));
    assert!(!options(false, false, true, false).is_empty());
}
