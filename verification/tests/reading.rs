use optional_take::io::{OptionalTake, Takable};
use optional_take::stream::Read;
use std::io::{Error, ErrorKind};

/// A source that must never be asked for bytes.
struct Untouchable;

impl Read for Untouchable {
    fn read(&mut self, _buf: &mut [u8]) -> Result<usize, Error> {
        panic!("the source was read");
    }
}

/// A source that fails every read, and counts them.
struct Failing {
    kind: ErrorKind,
    calls: usize,
}

impl Read for Failing {
    fn read(&mut self, _buf: &mut [u8]) -> Result<usize, Error> {
        self.calls += 1;
        Err(Error::new(self.kind, "no bytes today"))
    }
}

/// A source that hands out at most `step` bytes per read, and records how
/// long each buffer was that it was given.
struct Trickle {
    data: Vec<u8>,
    at: usize,
    step: usize,
    asked: Vec<usize>,
}

impl Trickle {
    fn new(data: &[u8], step: usize) -> Trickle {
        Trickle { data: data.to_vec(), at: 0, step, asked: Vec::new() }
    }
}

impl Read for Trickle {
    fn read(&mut self, buf: &mut [u8]) -> Result<usize, Error> {
        self.asked.push(buf.len());
        let left: usize = self.data.len() - self.at;
        let n: usize = buf.len().min(self.step).min(left);
        buf[..n].copy_from_slice(&self.data[self.at..self.at + n]);
        self.at += n;
        Ok(n)
    }
}

/// A source that fails its first read and then reads as a slice does.
struct FailsOnce {
    data: Vec<u8>,
    at: usize,
    failed: bool,
}

impl Read for FailsOnce {
    fn read(&mut self, buf: &mut [u8]) -> Result<usize, Error> {
        if !self.failed {
            self.failed = true;
            return Err(Error::new(ErrorKind::Interrupted, "try again"));
        }
        let n: usize = buf.len().min(self.data.len() - self.at);
        buf[..n].copy_from_slice(&self.data[self.at..self.at + n]);
        self.at += n;
        Ok(n)
    }
}

#[test]
fn limit_of_five_on_hello_world() {
    let source: &[u8] = b"hello, world";
    let mut take = source.take_optional(Some(5));
    let mut buf = [0u8; 10];

    let len: usize = take.read(&mut buf).unwrap();
    assert_eq!(len, 5);
    assert_eq!(&buf[..len], b"hello");

    assert_eq!(take.read(&mut buf).unwrap(), 0);

    take.set_limit(None);
    let len: usize = take.read(&mut buf).unwrap();
    assert_eq!(len, 7);
    assert_eq!(&buf[..len], b", world");
}

#[test]
fn zero_limit_reads_nothing_and_leaves_the_source_alone() {
    let mut take = OptionalTake::from_read(Untouchable, Some(0));
    let mut buf = [7u8; 4];
    assert_eq!(take.read(&mut buf).unwrap(), 0);
    assert_eq!(take.read(&mut buf).unwrap(), 0);
    assert_eq!(buf, [7u8; 4]);
    assert_eq!(take.limit(), Some(0));
}

#[test]
fn zero_limit_succeeds_where_the_source_would_fail() {
    let mut take = Failing { kind: ErrorKind::BrokenPipe, calls: 0 }.take_optional(Some(0));
    let mut buf = [0u8; 8];
    assert_eq!(take.read(&mut buf).unwrap(), 0);
    assert_eq!(take.get_ref().calls, 0);
}

#[test]
fn no_limit_reads_the_whole_source() {
    let source: &[u8] = b"hello, world";
    let mut take = source.take_optional(None);
    assert_eq!(take.limit(), None);
    let mut buf = [0u8; 64];
    let len: usize = take.read(&mut buf).unwrap();
    assert_eq!(len, 12);
    assert_eq!(&buf[..len], b"hello, world");
    assert_eq!(take.read(&mut buf).unwrap(), 0);
    assert_eq!(take.limit(), None);
}

#[test]
fn reads_under_a_limit_never_deliver_more_than_the_limit() {
    let source: &[u8] = b"abcdefghijklmnopqrstuvwxyz";
    let mut take = source.take_optional(Some(7));
    let mut buf = [0u8; 3];
    let mut got = Vec::new();
    let mut counts = Vec::new();
    for _ in 0..6 {
        let n: usize = take.read(&mut buf).unwrap();
        counts.push(n);
        got.extend_from_slice(&buf[..n]);
    }
    assert_eq!(counts, vec![3, 3, 1, 0, 0, 0]);
    assert_eq!(got, b"abcdefg".to_vec());
    assert_eq!(take.limit(), Some(0));
}

#[test]
fn limit_counts_down_by_what_was_delivered() {
    let source: &[u8] = b"abcdefghij";
    let mut take = source.take_optional(Some(8));
    let mut buf = [0u8; 3];
    assert_eq!(take.read(&mut buf).unwrap(), 3);
    assert_eq!(take.limit(), Some(5));
    assert_eq!(take.read(&mut buf).unwrap(), 3);
    assert_eq!(take.limit(), Some(2));
    assert_eq!(take.read(&mut buf).unwrap(), 2);
    assert_eq!(take.limit(), Some(0));
}

#[test]
fn lifting_the_limit_leaves_no_truncation() {
    let source: &[u8] = b"abcdefghijklmnop";
    let mut take = source.take_optional(Some(4));
    let mut buf = [0u8; 6];
    assert_eq!(take.read(&mut buf).unwrap(), 4);
    assert_eq!(take.read(&mut buf).unwrap(), 0);
    take.set_limit(None);

    let mut plain: &[u8] = b"efghijklmnop";
    let mut other = [0u8; 6];
    loop {
        let through: usize = take.read(&mut buf).unwrap();
        let direct: usize = plain.read(&mut other).unwrap();
        assert_eq!(through, direct);
        assert_eq!(buf[..through], other[..direct]);
        if direct == 0 {
            break;
        }
    }
    assert_eq!(take.limit(), None);
}

#[test]
fn a_new_limit_replaces_the_old_one() {
    let source: &[u8] = b"abcdefghijklmnop";
    let mut take = source.take_optional(Some(5));
    let mut buf = [0u8; 3];
    assert_eq!(take.read(&mut buf).unwrap(), 3);
    assert_eq!(take.limit(), Some(2));

    take.set_limit(Some(4));
    assert_eq!(take.limit(), Some(4));
    let mut wide = [0u8; 16];
    let n: usize = take.read(&mut wide).unwrap();
    assert_eq!(n, 4);
    assert_eq!(&wide[..n], b"defg");
    assert_eq!(take.read(&mut wide).unwrap(), 0);

    take.set_limit(Some(1));
    assert_eq!(take.read(&mut wide).unwrap(), 1);
    assert_eq!(wide[0], b'h');
    assert_eq!(take.limit(), Some(0));
}

#[test]
fn a_new_limit_may_be_larger_than_the_old_one() {
    let source: &[u8] = b"abcdef";
    let mut take = source.take_optional(Some(1));
    take.set_limit(Some(100));
    assert_eq!(take.limit(), Some(100));
    let mut buf = [0u8; 16];
    assert_eq!(take.read(&mut buf).unwrap(), 6);
    assert_eq!(take.limit(), Some(94));
}

#[test]
fn set_limit_in_each_of_the_four_cases() {
    let source: &[u8] = b"abc";
    let mut take = OptionalTake::from_read(source, None);
    take.set_limit(None);
    assert_eq!(take.limit(), None);
    take.set_limit(Some(2));
    assert_eq!(take.limit(), Some(2));
    take.set_limit(Some(9));
    assert_eq!(take.limit(), Some(9));
    take.set_limit(None);
    assert_eq!(take.limit(), None);
    assert_eq!(*take.get_ref(), b"abc");
}

#[test]
fn from_read_reads_nothing() {
    let take = OptionalTake::from_read(Untouchable, Some(3));
    assert_eq!(take.limit(), Some(3));
    let take = OptionalTake::from_read(Untouchable, None);
    assert_eq!(take.limit(), None);
    let _source: Untouchable = take.into_inner();
}

#[test]
fn take_optional_is_from_read() {
    let source: &[u8] = b"abc";
    let by_method = source.take_optional(Some(2));
    let by_function = OptionalTake::from_read(source, Some(2));
    assert_eq!(by_method.limit(), by_function.limit());
    assert_eq!(by_method.into_inner(), by_function.into_inner());
}

#[test]
fn into_inner_gives_the_stream_where_the_adapter_left_it() {
    let source: &[u8] = b"hello, world";
    let mut take = source.take_optional(Some(5));
    let mut buf = [0u8; 3];
    let mut got = Vec::new();
    loop {
        let n: usize = take.read(&mut buf).unwrap();
        if n == 0 {
            break;
        }
        got.extend_from_slice(&buf[..n]);
    }
    let rest = take.into_inner();
    assert_eq!(got, b"hello".to_vec());
    assert_eq!(rest, b", world");
    got.extend_from_slice(rest);
    assert_eq!(got, b"hello, world".to_vec());
}

#[test]
fn get_ref_shows_the_stream() {
    let source: &[u8] = b"abcdef";
    let mut take = source.take_optional(Some(4));
    assert_eq!(*take.get_ref(), b"abcdef");
    let mut buf = [0u8; 2];
    take.read(&mut buf).unwrap();
    assert_eq!(*take.get_ref(), b"cdef");
    assert_eq!(take.limit(), Some(2));
}

#[test]
fn get_mut_reads_beside_the_limit() {
    let source: &[u8] = b"abcdef";
    let mut take = source.take_optional(Some(2));
    let mut buf = [0u8; 3];
    assert_eq!(take.get_mut().read(&mut buf).unwrap(), 3);
    assert_eq!(&buf, b"abc");
    assert_eq!(take.limit(), Some(2));
    assert_eq!(take.read(&mut buf).unwrap(), 2);
    assert_eq!(&buf[..2], b"de");
    assert_eq!(take.limit(), Some(0));
}

#[test]
fn buffer_past_the_limit_is_left_alone() {
    let source: &[u8] = b"hello, world";
    let mut take = source.take_optional(Some(5));
    let mut buf = [b'.'; 10];
    assert_eq!(take.read(&mut buf).unwrap(), 5);
    assert_eq!(&buf, b"hello.....");
}

#[test]
fn the_source_is_asked_for_no_more_than_may_pass() {
    let mut take = Trickle::new(b"abcdefghij", 100).take_optional(Some(4));
    let mut buf = [0u8; 10];
    assert_eq!(take.read(&mut buf).unwrap(), 4);
    assert_eq!(take.read(&mut buf).unwrap(), 0);
    take.set_limit(Some(20));
    assert_eq!(take.read(&mut buf).unwrap(), 6);
    take.set_limit(None);
    assert_eq!(take.read(&mut buf).unwrap(), 0);
    assert_eq!(take.get_ref().asked, vec![4, 10, 10]);
}

#[test]
fn short_reads_take_off_only_what_came() {
    let mut take = Trickle::new(b"abcdefghij", 2).take_optional(Some(5));
    let mut buf = [0u8; 10];
    assert_eq!(take.read(&mut buf).unwrap(), 2);
    assert_eq!(take.limit(), Some(3));
    assert_eq!(take.read(&mut buf).unwrap(), 2);
    assert_eq!(take.limit(), Some(1));
    assert_eq!(take.read(&mut buf).unwrap(), 1);
    assert_eq!(buf[0], b'e');
    assert_eq!(take.limit(), Some(0));
    assert_eq!(take.read(&mut buf).unwrap(), 0);
    assert_eq!(take.get_ref().asked, vec![5, 3, 1]);
}

#[test]
fn an_empty_buffer_still_reaches_the_source() {
    let mut take = Trickle::new(b"abc", 5).take_optional(Some(2));
    let mut none = [0u8; 0];
    assert_eq!(take.read(&mut none).unwrap(), 0);
    assert_eq!(take.limit(), Some(2));
    assert_eq!(take.get_ref().asked, vec![0]);
}

#[test]
fn a_limit_beyond_the_source_ends_with_the_source() {
    let source: &[u8] = b"abc";
    let mut take = source.take_optional(Some(u64::MAX));
    let mut buf = [0u8; 8];
    assert_eq!(take.read(&mut buf).unwrap(), 3);
    assert_eq!(take.limit(), Some(u64::MAX - 3));
    assert_eq!(take.read(&mut buf).unwrap(), 0);
    assert_eq!(take.limit(), Some(u64::MAX - 3));
}

#[test]
fn a_failure_comes_through_as_it_is() {
    let mut take = Failing { kind: ErrorKind::BrokenPipe, calls: 0 }.take_optional(None);
    let mut buf = [0u8; 4];
    let err = take.read(&mut buf).unwrap_err();
    assert_eq!(err.kind(), ErrorKind::BrokenPipe);
    assert_eq!(format!("{}", err), "no bytes today");
    assert_eq!(take.get_ref().calls, 1);
}

#[test]
fn a_failure_under_a_limit_leaves_the_limit() {
    let mut take = Failing { kind: ErrorKind::TimedOut, calls: 0 }.take_optional(Some(9));
    let mut buf = [0u8; 4];
    let err = take.read(&mut buf).unwrap_err();
    assert_eq!(err.kind(), ErrorKind::TimedOut);
    assert_eq!(take.limit(), Some(9));
    assert_eq!(take.get_ref().calls, 1);
}

#[test]
fn reading_goes_on_after_a_failure() {
    let source = FailsOnce { data: b"abcdef".to_vec(), at: 0, failed: false };
    let mut take = source.take_optional(Some(4));
    let mut buf = [0u8; 3];
    assert_eq!(take.read(&mut buf).unwrap_err().kind(), ErrorKind::Interrupted);
    assert_eq!(take.limit(), Some(4));
    assert_eq!(take.read(&mut buf).unwrap(), 3);
    assert_eq!(&buf, b"abc");
    assert_eq!(take.read(&mut buf).unwrap(), 1);
    assert_eq!(buf[0], b'd');
    assert_eq!(take.read(&mut buf).unwrap(), 0);
}

#[test]
fn an_adapter_can_wrap_an_adapter() {
    let source: &[u8] = b"abcdefghij";
    let inner = source.take_optional(Some(6));
    let mut outer = inner.take_optional(Some(4));
    let mut buf = [0u8; 10];
    assert_eq!(outer.read(&mut buf).unwrap(), 4);
    assert_eq!(outer.get_ref().limit(), Some(2));
    outer.set_limit(None);
    assert_eq!(outer.read(&mut buf).unwrap(), 2);
    assert_eq!(&buf[..2], b"ef");
    assert_eq!(outer.read(&mut buf).unwrap(), 0);
    assert_eq!(outer.into_inner().into_inner(), b"ghij");
}

#[test]
fn the_adapter_can_be_printed() {
    let source: &[u8] = b"ab";
    let take = source.take_optional(Some(1));
    let text = format!("{:?}", take);
    assert!(text.contains("OptionalTake"));
}
