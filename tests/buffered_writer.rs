use fd_read_write::{
    BufWriteFD, Error, ErrorKind, IoResult, Poll, RawFdContainer, ReadFD, WriteFD,
    DEFAULT_CAPACITY,
};

/// Accepts up to `limit` bytes per call and every descriptor; records all of it.
struct RecordingWriter {
    limit: usize,
    bytes: Vec<u8>,
    fds: Vec<i32>,
    calls: usize,
    flushes: usize,
}

impl RecordingWriter {
    fn new(limit: usize) -> RecordingWriter {
        RecordingWriter { limit, bytes: Vec::new(), fds: Vec::new(), calls: 0, flushes: 0 }
    }
}

impl WriteFD for RecordingWriter {
    fn sent(&self) -> vstd::seq::Seq<u8> {
        panic!("the accepted-bytes model is for proofs only")
    }

    fn sent_fds(&self) -> vstd::seq::Seq<RawFdContainer> {
        panic!("the accepted-descriptors model is for proofs only")
    }

    fn write(&mut self, buf: &[u8], fds: &mut Vec<RawFdContainer>) -> IoResult<usize> {
        self.calls += 1;
        for fd in fds.drain(..) {
            self.fds.push(fd.into_raw_fd());
        }
        let n = buf.len().min(self.limit);
        self.bytes.extend_from_slice(&buf[..n]);
        Ok(n)
    }

    fn flush(&mut self) -> IoResult<()> {
        self.flushes += 1;
        Ok(())
    }
}

impl Poll for RecordingWriter {
    fn poll(&mut self, _read: bool, write: bool) -> IoResult<(bool, bool)> {
        Ok((false, write))
    }
}

/// Always blocks.
struct BlockedWriter {
    calls: usize,
}

impl WriteFD for BlockedWriter {
    fn sent(&self) -> vstd::seq::Seq<u8> {
        panic!("the accepted-bytes model is for proofs only")
    }

    fn sent_fds(&self) -> vstd::seq::Seq<RawFdContainer> {
        panic!("the accepted-descriptors model is for proofs only")
    }

    fn write(&mut self, _buf: &[u8], _fds: &mut Vec<RawFdContainer>) -> IoResult<usize> {
        self.calls += 1;
        Err(Error::new(ErrorKind::WouldBlock, "would block"))
    }

    fn flush(&mut self) -> IoResult<()> {
        Ok(())
    }
}

impl Poll for BlockedWriter {
    fn poll(&mut self, _read: bool, _write: bool) -> IoResult<(bool, bool)> {
        Ok((false, false))
    }
}

/// Reports every write as zero bytes.
struct ZeroWriter;

impl WriteFD for ZeroWriter {
    fn sent(&self) -> vstd::seq::Seq<u8> {
        panic!("the accepted-bytes model is for proofs only")
    }

    fn sent_fds(&self) -> vstd::seq::Seq<RawFdContainer> {
        panic!("the accepted-descriptors model is for proofs only")
    }

    fn write(&mut self, _buf: &[u8], _fds: &mut Vec<RawFdContainer>) -> IoResult<usize> {
        Ok(0)
    }

    fn flush(&mut self) -> IoResult<()> {
        Ok(())
    }
}

impl Poll for ZeroWriter {
    fn poll(&mut self, _read: bool, _write: bool) -> IoResult<(bool, bool)> {
        Ok((false, true))
    }
}

/// Plays back a script of read outcomes, one per call.
struct ScriptedReader {
    script: Vec<Result<Vec<u8>, ErrorKind>>,
    next: usize,
}

impl ReadFD for ScriptedReader {
    fn read(&mut self, buf: &mut [u8], fd_storage: &mut Vec<RawFdContainer>) -> IoResult<usize> {
        let step = self.script[self.next].clone();
        self.next += 1;
        match step {
            Ok(chunk) => {
                let n = chunk.len().min(buf.len());
                buf[..n].copy_from_slice(&chunk[..n]);
                fd_storage.push(RawFdContainer::new(40 + self.next as i32));
                Ok(n)
            }
            Err(kind) => Err(Error::new(kind, "scripted failure")),
        }
    }
}

impl Poll for ScriptedReader {
    fn poll(&mut self, read: bool, _write: bool) -> IoResult<(bool, bool)> {
        Ok((read, false))
    }
}

fn fds(raw: &[i32]) -> Vec<RawFdContainer> {
    raw.iter().map(|&fd| RawFdContainer::new(fd)).collect()
}

#[test]
fn default_capacity_is_16384() {
    assert_eq!(DEFAULT_CAPACITY, 16384);
}

#[test]
fn small_writes_then_flush_deliver_in_order() {
    let mut w = BufWriteFD::with_capacity(8, RecordingWriter::new(100));
    let mut first = fds(&[3, 4]);
    assert_eq!(w.write(b"abc", &mut first).unwrap(), 3);
    assert!(first.is_empty());
    let mut second = fds(&[5]);
    assert_eq!(w.write(b"de", &mut second).unwrap(), 2);
    let bufs: &[&[u8]] = &[b"f", b"gh"];
    assert_eq!(w.write_vectored(bufs, &mut fds(&[6])).unwrap(), 3);
    assert_eq!(w.get_ref().calls, 0);
    w.flush().unwrap();
    assert_eq!(w.get_ref().bytes, b"abcdefgh".to_vec());
    assert_eq!(w.get_ref().fds, vec![3, 4, 5, 6]);
    assert_eq!(w.get_ref().flushes, 1);
}

#[test]
fn flush_of_empty_writer_is_noop() {
    let mut w = BufWriteFD::with_capacity(8, RecordingWriter::new(100));
    w.flush().unwrap();
    w.flush().unwrap();
    assert_eq!(w.get_ref().calls, 0);
    assert!(w.get_ref().bytes.is_empty());
}

#[test]
fn write_filling_free_space_does_not_touch_transport() {
    let mut w = BufWriteFD::with_capacity(8, BlockedWriter { calls: 0 });
    assert_eq!(w.write(b"abc", &mut Vec::new()).unwrap(), 3);
    assert_eq!(w.write(b"defgh", &mut Vec::new()).unwrap(), 5);
    assert_eq!(w.get_ref().calls, 0);
}

#[test]
fn large_write_goes_directly_to_transport() {
    let mut w = BufWriteFD::with_capacity(4, RecordingWriter::new(100));
    assert_eq!(w.write(b"abcdefgh", &mut Vec::new()).unwrap(), 8);
    assert_eq!(w.get_ref().calls, 1);
    assert_eq!(w.get_ref().bytes, b"abcdefgh".to_vec());
    // Nothing was left in the buffer: a flush sends nothing more.
    w.flush().unwrap();
    assert_eq!(w.get_ref().calls, 1);
}

#[test]
fn large_write_reports_partial_transport_write() {
    let mut w = BufWriteFD::with_capacity(4, RecordingWriter::new(5));
    assert_eq!(w.write(b"abcdefgh", &mut Vec::new()).unwrap(), 5);
    assert_eq!(w.get_ref().bytes, b"abcde".to_vec());
}

#[test]
fn blocked_flush_buffers_what_fits() {
    let mut w = BufWriteFD::with_capacity(4, BlockedWriter { calls: 0 });
    assert_eq!(w.write(b"abc", &mut Vec::new()).unwrap(), 3);
    assert_eq!(w.write(b"defgh", &mut Vec::new()).unwrap(), 1);
    let e = w.write(b"ij", &mut Vec::new()).unwrap_err();
    assert_eq!(e.kind(), ErrorKind::WouldBlock);
}

#[test]
fn vectored_write_with_leading_empty_span_is_not_zero() {
    let mut w = BufWriteFD::with_capacity(4, BlockedWriter { calls: 0 });
    assert_eq!(w.write(b"ab", &mut Vec::new()).unwrap(), 2);
    let empty: &[u8] = &[];
    let bufs: &[&[u8]] = &[empty, b"wxyz"];
    assert_eq!(w.write_vectored(bufs, &mut Vec::new()).unwrap(), 2);
}

#[test]
fn empty_vectored_write_is_zero() {
    let mut w = BufWriteFD::with_capacity(4, BlockedWriter { calls: 0 });
    let bufs: &[&[u8]] = &[];
    assert_eq!(w.write_vectored(bufs, &mut Vec::new()).unwrap(), 0);
    assert_eq!(w.get_ref().calls, 0);
}

#[test]
fn flush_of_stuck_data_is_write_zero() {
    let mut w = BufWriteFD::with_capacity(4, ZeroWriter);
    assert_eq!(w.write(b"ab", &mut Vec::new()).unwrap(), 2);
    let e = w.flush().unwrap_err();
    assert_eq!(e.kind(), ErrorKind::WriteZero);
    assert_eq!(e.message(), "failed to write the buffered data");
}

#[test]
fn flush_of_stuck_fds_is_write_zero() {
    let mut w = BufWriteFD::with_capacity(4, ZeroWriter);
    assert_eq!(w.write(b"", &mut fds(&[7])).unwrap(), 0);
    let e = w.flush().unwrap_err();
    assert_eq!(e.kind(), ErrorKind::WriteZero);
    assert_eq!(e.message(), "failed to write the buffered FDs");
}

#[test]
fn flush_passes_other_errors_through() {
    let mut w = BufWriteFD::with_capacity(4, BlockedWriter { calls: 0 });
    w.write(b"ab", &mut Vec::new()).unwrap();
    let e = w.flush().unwrap_err();
    assert_eq!(e.kind(), ErrorKind::WouldBlock);
    assert_eq!(e.message(), "would block");
}

#[test]
fn descriptors_are_queued_even_when_blocked() {
    let mut w = BufWriteFD::with_capacity(4, RecordingWriter::new(100));
    w.get_mut().limit = 0;
    assert_eq!(w.write(b"ab", &mut fds(&[8, 9])).unwrap(), 2);
    assert!(w.get_ref().fds.is_empty());
    w.get_mut().limit = 100;
    w.flush().unwrap();
    assert_eq!(w.get_ref().fds, vec![8, 9]);
    assert_eq!(w.get_ref().bytes, b"ab".to_vec());
}

#[test]
fn poll_asks_the_transport() {
    let mut w = BufWriteFD::with_capacity(4, BlockedWriter { calls: 0 });
    assert_eq!(w.poll(false, true).unwrap(), (false, false));
    let mut r = BufWriteFD::new(RecordingWriter::new(1));
    assert_eq!(r.poll(true, true).unwrap(), (false, true));
}

#[test]
fn read_exact_fills_buffer_across_retries() {
    let mut reader = ScriptedReader {
        script: vec![
            Ok(b"ab".to_vec()),
            Err(ErrorKind::WouldBlock),
            Err(ErrorKind::Interrupted),
            Ok(b"cde".to_vec()),
        ],
        next: 0,
    };
    let mut buf = [0u8; 5];
    let mut received = Vec::new();
    reader.read_exact(&mut buf, &mut received).unwrap();
    assert_eq!(&buf, b"abcde");
    assert_eq!(received.len(), 2);
}

#[test]
fn read_exact_reports_premature_end() {
    let mut reader = ScriptedReader { script: vec![Ok(b"ab".to_vec()), Ok(Vec::new())], next: 0 };
    let mut buf = [9u8; 5];
    let mut received = Vec::new();
    let e = reader.read_exact(&mut buf, &mut received).unwrap_err();
    assert_eq!(e.kind(), ErrorKind::UnexpectedEof);
    assert_eq!(e.message(), "failed to fill the whole buffer");
    assert_eq!(buf, [b'a', b'b', 9, 9, 9]);
}

#[test]
fn read_exact_passes_other_errors_through() {
    let mut reader = ScriptedReader { script: vec![Err(ErrorKind::Other)], next: 0 };
    let mut buf = [0u8; 2];
    let e = reader.read_exact(&mut buf, &mut Vec::new()).unwrap_err();
    assert_eq!(e.kind(), ErrorKind::Other);
}

#[test]
fn read_exact_of_empty_buffer_reads_nothing() {
    let mut reader = ScriptedReader { script: Vec::new(), next: 0 };
    let mut buf = [0u8; 0];
    reader.read_exact(&mut buf, &mut Vec::new()).unwrap();
}

#[test]
fn fd_container_keeps_number() {
    let fd = RawFdContainer::new(17);
    assert_eq!(fd.as_raw_fd(), 17);
    assert_eq!(fd.into_raw_fd(), 17);
}
