use redshirt::mem::MemStream;
use redshirt::stream::{SeekFrom, Stream};
use redshirt::v2::{decode, Reader, Writer, HEADER_LEN};
use redshirt::{Error, ErrorKind, IoError};

const MSG_DEC: &[u8] = b"Hello world!";
const MSG_ENC: &[u8] = b"REDSHRT2\x00\x34\x54\x26\x2B\x4A\xBF\x29\x1D\x0B\x8E\x60\xD9\xA1\x76\xE1\x14\x7D\xDF\x05\xD4\xC8\xE5\xEC\xEC\xEF\xA0\xF7\xEF\xF2\xEC\xE4\xA1";
const MSG_LEN: usize = 12;
const MSG_LEN_U64: u64 = MSG_LEN as u64;
const MSG_LEN_I64: i64 = MSG_LEN as i64;

#[test]
fn v2_reader_read() {
    let mut reader = Reader::new(MemStream::new(MSG_ENC.to_vec())).unwrap();
    let mut buffer = [0u8; MSG_LEN];
    let (left, right) = buffer.split_at_mut(MSG_LEN / 2);
    assert_eq!(
        reader.seek(SeekFrom::Current(MSG_LEN_I64 / 2)).unwrap(),
        MSG_LEN_U64 / 2
    );
    reader.read_exact(right).unwrap();
    assert_eq!(reader.seek(SeekFrom::Current(-MSG_LEN_I64)).unwrap(), 0);
    reader.read_exact(left).unwrap();
    assert_eq!(buffer, MSG_DEC);
}

#[test]
fn v2_reader_seek_start() {
    let mut reader = Reader::new(MemStream::new(MSG_ENC.to_vec())).unwrap();
    assert_eq!(reader.seek(SeekFrom::Start(0)).unwrap(), 0);
    assert_eq!(
        reader.seek(SeekFrom::Start(MSG_LEN_U64)).unwrap(),
        MSG_LEN_U64
    );
    assert_eq!(reader.seek(SeekFrom::Start(0)).unwrap(), 0);
    assert_eq!(
        reader.seek(SeekFrom::Start(MSG_LEN_U64 / 2)).unwrap(),
        MSG_LEN_U64 / 2
    );
    assert_eq!(reader.seek(SeekFrom::Start(0)).unwrap(), 0);
}

#[test]
fn v2_reader_seek_current() {
    let mut reader = Reader::new(MemStream::new(MSG_ENC.to_vec())).unwrap();
    assert_eq!(reader.seek(SeekFrom::Current(0)).unwrap(), 0);
    assert_eq!(
        reader.seek(SeekFrom::Current(MSG_LEN_I64)).unwrap(),
        MSG_LEN_U64
    );
    assert_eq!(reader.seek(SeekFrom::Current(-MSG_LEN_I64)).unwrap(), 0);
    assert_eq!(
        reader.seek(SeekFrom::Current(MSG_LEN_I64 / 2)).unwrap(),
        MSG_LEN_U64 / 2
    );
    assert_eq!(
        reader.seek(SeekFrom::Current(-(MSG_LEN_I64 / 2))).unwrap(),
        0
    );
}

#[test]
fn v2_reader_seek_end() {
    let mut reader = Reader::new(MemStream::new(MSG_ENC.to_vec())).unwrap();
    assert_eq!(reader.seek(SeekFrom::End(-MSG_LEN_I64)).unwrap(), 0);
    assert_eq!(reader.seek(SeekFrom::End(0)).unwrap(), MSG_LEN_U64);
    assert_eq!(reader.seek(SeekFrom::End(-MSG_LEN_I64)).unwrap(), 0);
    assert_eq!(
        reader.seek(SeekFrom::End(-MSG_LEN_I64 / 2)).unwrap(),
        MSG_LEN_U64 / 2
    );
    assert_eq!(reader.seek(SeekFrom::End(-MSG_LEN_I64)).unwrap(), 0);
}

#[test]
#[should_panic]
fn v2_reader_seek_positive_overflow() {
    let mut reader = Reader::new(MemStream::new(MSG_ENC.to_vec())).unwrap();
    let _ = reader.seek(SeekFrom::Start(u64::max_value())).unwrap();
}

#[test]
#[should_panic]
fn v2_reader_seek_negative_overflow() {
    let mut reader = Reader::new(MemStream::new(MSG_ENC.to_vec())).unwrap();
    let _ = reader.seek(SeekFrom::Current(-1)).unwrap();
}

#[test]
fn v2_writer_write() {
    let buffer = vec![0u8; HEADER_LEN + MSG_LEN];
    let buffer = {
        let mut writer = Writer::new(MemStream::new(buffer)).unwrap();
        writer.write_all(MSG_DEC).unwrap();
        writer.into_inner().unwrap().into_inner()
    };
    assert_eq!(&buffer[..], &MSG_ENC[..]);
}

fn pattern(len: usize) -> Vec<u8> {
    (0..len).map(|i| (i * 7 + 3) as u8).collect()
}

#[test]
fn writer_puts_the_digest_in_the_header_once() {
    let mut writer = Writer::new(MemStream::new(Vec::new())).unwrap();
    assert_eq!(writer.write(MSG_DEC), Ok(MSG_LEN));
    let mut stream = writer.write_digest().unwrap().unwrap();
    assert_eq!(stream.get_ref(), &MSG_ENC.to_vec());
    assert_eq!(stream.seek(SeekFrom::Current(0)), Ok((HEADER_LEN + MSG_LEN) as u64));
    assert!(writer.write_digest().unwrap().is_none());
    assert!(writer.write_digest().unwrap().is_none());
}

#[test]
fn writer_starts_with_a_blank_digest() {
    let writer = Writer::new(MemStream::new(Vec::new())).unwrap();
    assert_eq!(
        writer.digest(),
        [
            0xEE, 0xA3, 0x39, 0xDA, 0x0D, 0x4B, 0x6B, 0x5E, 0xEF, 0xBF, 0x55, 0x32, 0x90, 0x18,
            0x60, 0x95, 0x09, 0x07, 0xD8, 0xAF
        ]
    );
    let mut writer = writer;
    let stream = writer.write_digest().unwrap().unwrap();
    let stored = stream.into_inner();
    assert_eq!(&stored[..9], b"REDSHRT2\x00");
    assert_eq!(stored.len(), HEADER_LEN);
}

#[test]
fn writer_digest_follows_what_is_written() {
    let mut writer = Writer::new(MemStream::new(Vec::new())).unwrap();
    assert_eq!(writer.write_all(&MSG_DEC[..5]), Ok(()));
    assert_eq!(writer.flush(), Ok(()));
    assert_eq!(writer.write_all(&MSG_DEC[5..]), Ok(()));
    assert_eq!(&writer.digest()[..], &MSG_ENC[9..29]);
    assert_eq!(&writer.digest()[..], &MSG_ENC[9..29]);
    let stored = writer.into_inner().unwrap().into_inner();
    assert_eq!(stored, MSG_ENC);
}

#[test]
fn writer_takes_one_chunk_at_a_time() {
    let data = pattern(40000);
    let mut writer = Writer::new(MemStream::new(Vec::new())).unwrap();
    assert_eq!(writer.write(&data), Ok(16384));
    assert_eq!(writer.write(&data[16384..]), Ok(16384));
    assert_eq!(writer.write(&data[32768..]), Ok(40000 - 32768));
    assert_eq!(writer.write(&[]), Ok(0));
    let stored = writer.into_inner().unwrap().into_inner();
    assert_eq!(
        &stored[9..29],
        &[
            0x95, 0x9A, 0xDE, 0x75, 0xF2, 0xF1, 0x93, 0x44, 0x35, 0x76, 0x4D, 0x81, 0xDC, 0xDF,
            0x66, 0x89, 0x41, 0xB8, 0xD3, 0x9C
        ]
    );
    assert_eq!(decode(&stored), Ok(data));
}

#[test]
fn writer_leaves_the_stream_behind_the_payload() {
    let data = pattern(100);
    let mut writer = Writer::new(MemStream::new(Vec::new())).unwrap();
    assert_eq!(writer.write_all(&data), Ok(()));
    let mut stream = writer.into_inner().unwrap();
    assert_eq!(stream.seek(SeekFrom::Current(0)), Ok(129));
    let mut reader = Reader::new(MemStream::new(stream.into_inner())).unwrap();
    let mut back = vec![0u8; 100];
    assert_eq!(reader.read_exact(&mut back), Ok(()));
    assert_eq!(back, data);
    let mut stream = reader.into_inner();
    assert_eq!(stream.seek(SeekFrom::Current(0)), Ok(129));
}

#[test]
fn reader_stands_behind_the_header() {
    let reader = Reader::new(MemStream::new(MSG_ENC.to_vec())).unwrap();
    let mut stream = reader.into_inner();
    assert_eq!(stream.seek(SeekFrom::Current(0)), Ok(HEADER_LEN as u64));
}

#[test]
fn reader_refuses_what_is_wrong() {
    let mut wrong_marker = MSG_ENC.to_vec();
    wrong_marker[7] = b'1';
    assert!(matches!(
        Reader::new(MemStream::new(wrong_marker)),
        Err(Error::BadHeader)
    ));
    let mut wrong_digest = MSG_ENC.to_vec();
    wrong_digest[9] ^= 0x80;
    assert!(matches!(
        Reader::new(MemStream::new(wrong_digest)),
        Err(Error::BadChecksum)
    ));
    let mut wrong_payload = MSG_ENC.to_vec();
    wrong_payload[29] ^= 0x80;
    assert!(matches!(
        Reader::new(MemStream::new(wrong_payload)),
        Err(Error::BadChecksum)
    ));
    assert!(matches!(
        Reader::new(MemStream::new(MSG_ENC[..28].to_vec())),
        Err(Error::Io(IoError {
            kind: ErrorKind::UnexpectedEof
        }))
    ));
}

#[test]
fn error_texts() {
    assert_eq!(Error::BadHeader.to_string(), "bad header");
    assert_eq!(Error::BadChecksum.to_string(), "bad checksum");
    assert_eq!(
        Error::Io(IoError::new(ErrorKind::InvalidInput)).to_string(),
        "invalid seek to a negative or overflowing position"
    );
    assert_eq!(
        Error::Io(IoError::new(ErrorKind::UnexpectedEof)).to_string(),
        "failed to fill whole buffer"
    );
    assert_eq!(
        IoError::new(ErrorKind::WriteZero).description(),
        "failed to write whole buffer"
    );
    assert_eq!(
        IoError::new(ErrorKind::Interrupted).description(),
        "operation interrupted"
    );
    assert_eq!(IoError::new(ErrorKind::Other).description(), "other error");
    assert_eq!(Error::BadHeader.source(), None);
    assert_eq!(Error::BadChecksum.source(), None);
    assert_eq!(
        Error::Io(IoError::new(ErrorKind::Other)).source(),
        Some(IoError::new(ErrorKind::Other))
    );
}
