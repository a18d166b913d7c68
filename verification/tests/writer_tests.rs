use ring_reactor::{
    cursor_move, u64_to_dec, write_u64, ArrayWriter, BufWriter, Direction, FdReader, FdWriter,
};

#[test]
fn test_copy() {
    let src = b"hello";
    let mut dst = ArrayWriter::new(vec![0u8; 18]);
    dst.write_bytes_unchecked(src);
    assert_eq!(dst.buffer()[..src.len()], src[..])
}

#[test]
fn descriptors_are_the_standard_ones() {
    assert_eq!(FdWriter::stdout().raw_fd(), 1);
    assert_eq!(FdWriter::stderr().raw_fd(), 2);
    assert_eq!(FdReader::stdin().raw_fd(), 0);
}

#[test]
fn decimal_rendering_is_exact() {
    assert_eq!(u64_to_dec(0), b"0");
    assert_eq!(u64_to_dec(7), b"7");
    assert_eq!(u64_to_dec(10), b"10");
    assert_eq!(u64_to_dec(1234567890), b"1234567890");
    assert_eq!(u64_to_dec(u64::MAX), b"18446744073709551615");
}

#[test]
fn write_u64_reports_the_digit_count() {
    let mut w = ArrayWriter::new(vec![0u8; 32]);
    let n = write_u64(&mut w, 1000).unwrap();
    assert_eq!(n, 4);
    assert_eq!(w.len(), 4);
    assert_eq!(&w.buffer()[..4], b"1000");
}

#[test]
fn cursor_move_emits_the_escape_sequence() {
    let mut w = ArrayWriter::new(vec![0u8; 32]);
    cursor_move(&mut w, 3, Direction::Right).unwrap();
    assert_eq!(&w.buffer()[..w.len()], &[0x1b, b'[', b'3', b'C']);

    let mut w = ArrayWriter::new(vec![0u8; 32]);
    cursor_move(&mut w, 12, Direction::Down).unwrap();
    assert_eq!(&w.buffer()[..w.len()], &[0x1b, b'[', b'1', b'2', b'B']);
}

#[test]
fn array_writer_places_bytes_in_order() {
    let mut w = ArrayWriter::new(vec![0u8; 8]);
    w.write_byte_unchecked(b'a');
    w.write_bytes_unchecked(b"bc");
    w.write_u64_unchecked(0);
    assert_eq!(w.len(), 4);
    assert_eq!(&w.buffer()[..4], b"abc0");
}

#[test]
fn buf_writer_collects_short_runs_until_flushed() {
    let inner = ArrayWriter::new(vec![0u8; 64]);
    let mut bw = BufWriter::new(inner, vec![0u8; 8]);
    assert_eq!(bw.write(b"ab").unwrap(), 2);
    assert_eq!(bw.write(b"cd").unwrap(), 2);
    // nothing handed to the sink yet
    let flushed = bw.flush().unwrap();
    assert_eq!(flushed, 4);
    let inner = bw.into_inner();
    assert_eq!(&inner.buffer()[..inner.len()], b"abcd");
}

#[test]
fn buf_writer_spills_when_the_buffer_fills() {
    let inner = ArrayWriter::new(vec![0u8; 64]);
    let mut bw = BufWriter::new(inner, vec![0u8; 4]);
    assert_eq!(bw.write(b"abc").unwrap(), 3);
    // crossing the buffer boundary flushes the first part
    assert_eq!(bw.write(b"defgh").unwrap(), 5);
    bw.flush().unwrap();
    let inner = bw.into_inner();
    assert_eq!(&inner.buffer()[..inner.len()], b"abcdefgh");
}

#[test]
fn buf_writer_passes_oversized_runs_through() {
    let inner = ArrayWriter::new(vec![0u8; 64]);
    let mut bw = BufWriter::new(inner, vec![0u8; 4]);
    assert_eq!(bw.write(b"abcdefghij").unwrap(), 10);
    let inner = bw.into_inner();
    assert_eq!(&inner.buffer()[..inner.len()], b"abcdefghij");
}
