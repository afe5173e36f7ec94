use redshirt::mem::MemStream;
use redshirt::stream::{SeekFrom, Stream};
use redshirt::v1::{Reader, Writer, MARKER_LEN};

const MSG_DEC: &[u8] = b"Hello world!";
const MSG_ENC: &[u8] = b"REDSHIRT\x00\xC8\xE5\xEC\xEC\xEF\xA0\xF7\xEF\xF2\xEC\xE4\xA1";
const MSG_LEN: usize = 12;
const MSG_LEN_U64: u64 = MSG_LEN as u64;
const MSG_LEN_I64: i64 = MSG_LEN as i64;

#[test]
fn v1_reader_read() {
    let mut reader = Reader::new(MemStream::new(MSG_ENC.to_vec())).unwrap();
    let mut buffer = [0u8; MSG_LEN];
    let (left, right) = buffer.split_at_mut(MSG_LEN / 2);
    assert_eq!(
        reader.seek(SeekFrom::Current(MSG_LEN_I64 / 2)).unwrap(),
        MSG_LEN_U64 / 2
    );
    reader.read_exact(right).unwrap();
    assert_eq!(reader.seek(SeekFrom::Current(-MSG_LEN_I64)).unwrap(), 0);
    reader.read_exact(left).unwrap();
    assert_eq!(buffer, MSG_DEC);
}

#[test]
fn v1_reader_seek_start() {
    let mut reader = Reader::new(MemStream::new(MSG_ENC.to_vec())).unwrap();
    assert_eq!(reader.seek(SeekFrom::Start(0)).unwrap(), 0);
    assert_eq!(
        reader.seek(SeekFrom::Start(MSG_LEN_U64)).unwrap(),
        MSG_LEN_U64
    );
    assert_eq!(reader.seek(SeekFrom::Start(0)).unwrap(), 0);
    assert_eq!(
        reader.seek(SeekFrom::Start(MSG_LEN_U64 / 2)).unwrap(),
        MSG_LEN_U64 / 2
    );
    assert_eq!(reader.seek(SeekFrom::Start(0)).unwrap(), 0);
}

#[test]
fn v1_reader_seek_current() {
    let mut reader = Reader::new(MemStream::new(MSG_ENC.to_vec())).unwrap();
    assert_eq!(reader.seek(SeekFrom::Current(0)).unwrap(), 0);
    assert_eq!(
        reader.seek(SeekFrom::Current(MSG_LEN_I64)).unwrap(),
        MSG_LEN_U64
    );
    assert_eq!(reader.seek(SeekFrom::Current(-MSG_LEN_I64)).unwrap(), 0);
    assert_eq!(
        reader.seek(SeekFrom::Current(MSG_LEN_I64 / 2)).unwrap(),
        MSG_LEN_U64 / 2
    );
    assert_eq!(
        reader.seek(SeekFrom::Current(-(MSG_LEN_I64 / 2))).unwrap(),
        0
    );
}

#[test]
fn v1_reader_seek_end() {
    let mut reader = Reader::new(MemStream::new(MSG_ENC.to_vec())).unwrap();
    assert_eq!(reader.seek(SeekFrom::End(-MSG_LEN_I64)).unwrap(), 0);
    assert_eq!(reader.seek(SeekFrom::End(0)).unwrap(), MSG_LEN_U64);
    assert_eq!(reader.seek(SeekFrom::End(-MSG_LEN_I64)).unwrap(), 0);
    assert_eq!(
        reader.seek(SeekFrom::End(-MSG_LEN_I64 / 2)).unwrap(),
        MSG_LEN_U64 / 2
    );
    assert_eq!(reader.seek(SeekFrom::End(-MSG_LEN_I64)).unwrap(), 0);
}

#[test]
#[should_panic]
fn v1_reader_seek_positive_overflow() {
    let mut reader = Reader::new(MemStream::new(MSG_ENC.to_vec())).unwrap();
    let _ = reader.seek(SeekFrom::Start(u64::max_value())).unwrap();
}

#[test]
#[should_panic]
fn v1_reader_seek_negative_overflow() {
    let mut reader = Reader::new(MemStream::new(MSG_ENC.to_vec())).unwrap();
    let _ = reader.seek(SeekFrom::Current(-1)).unwrap();
}

#[test]
fn v1_writer_write() {
    let buffer = vec![0u8; MARKER_LEN + MSG_LEN];
    let mut writer = Writer::new(MemStream::new(buffer)).unwrap();
    let (left, right) = MSG_DEC.split_at(MSG_LEN / 2);
    assert_eq!(
        writer.seek(SeekFrom::Current(MSG_LEN_I64 / 2)).unwrap(),
        MSG_LEN_U64 / 2
    );
    writer.write_all(right).unwrap();
    assert_eq!(writer.seek(SeekFrom::Current(-MSG_LEN_I64)).unwrap(), 0);
    writer.write_all(left).unwrap();
    let buffer = writer.into_inner().into_inner();
    assert_eq!(buffer, MSG_ENC);
}

#[test]
fn writer_seek_start() {
    let buffer = vec![0u8; MARKER_LEN + MSG_LEN];
    let mut writer = Writer::new(MemStream::new(buffer)).unwrap();
    assert_eq!(writer.seek(SeekFrom::Start(0)).unwrap(), 0);
    assert_eq!(
        writer.seek(SeekFrom::Start(MSG_LEN_U64)).unwrap(),
        MSG_LEN_U64
    );
    assert_eq!(writer.seek(SeekFrom::Start(0)).unwrap(), 0);
    assert_eq!(
        writer.seek(SeekFrom::Start(MSG_LEN_U64 / 2)).unwrap(),
        MSG_LEN_U64 / 2
    );
    assert_eq!(writer.seek(SeekFrom::Start(0)).unwrap(), 0);
}

#[test]
fn writer_seek_current() {
    let buffer = vec![0u8; MARKER_LEN + MSG_LEN];
    let mut writer = Writer::new(MemStream::new(buffer)).unwrap();
    assert_eq!(writer.seek(SeekFrom::Current(0)).unwrap(), 0);
    assert_eq!(
        writer.seek(SeekFrom::Current(MSG_LEN_I64)).unwrap(),
        MSG_LEN_U64
    );
    assert_eq!(writer.seek(SeekFrom::Current(-MSG_LEN_I64)).unwrap(), 0);
    assert_eq!(
        writer.seek(SeekFrom::Current(MSG_LEN_I64 / 2)).unwrap(),
        MSG_LEN_U64 / 2
    );
    assert_eq!(
        writer.seek(SeekFrom::Current(-(MSG_LEN_I64 / 2))).unwrap(),
        0
    );
}

#[test]
fn writer_seek_end() {
    let buffer = vec![0u8; MARKER_LEN + MSG_LEN];
    let mut writer = Writer::new(MemStream::new(buffer)).unwrap();
    assert_eq!(writer.seek(SeekFrom::End(-MSG_LEN_I64)).unwrap(), 0);
    assert_eq!(writer.seek(SeekFrom::End(0)).unwrap(), MSG_LEN_U64);
    assert_eq!(writer.seek(SeekFrom::End(-MSG_LEN_I64)).unwrap(), 0);
    assert_eq!(
        writer.seek(SeekFrom::End(-MSG_LEN_I64 / 2)).unwrap(),
        MSG_LEN_U64 / 2
    );
    assert_eq!(writer.seek(SeekFrom::End(-MSG_LEN_I64)).unwrap(), 0);
}

#[test]
#[should_panic]
fn writer_seek_positive_overflow() {
    let buffer = vec![0u8; MARKER_LEN + MSG_LEN];
    let mut writer = Reader::new(MemStream::new(buffer)).unwrap();
    let _ = writer.seek(SeekFrom::Start(u64::max_value())).unwrap();
}

#[test]
#[should_panic]
fn writer_seek_negative_overflow() {
    let buffer = vec![0u8; MARKER_LEN + MSG_LEN];
    let mut writer = Reader::new(MemStream::new(buffer)).unwrap();
    let _ = writer.seek(SeekFrom::Current(-1)).unwrap();
}

#[test]
fn v1_reader_and_writer_give_the_stream_back() {
    let reader = Reader::new(MemStream::new(MSG_ENC.to_vec())).unwrap();
    let mut stream = reader.into_inner();
    assert_eq!(stream.seek(SeekFrom::Current(0)), Ok(MARKER_LEN as u64));
    assert_eq!(stream.get_ref(), &MSG_ENC.to_vec());

    let writer = Writer::new(MemStream::new(Vec::new())).unwrap();
    let mut stream = writer.into_inner();
    assert_eq!(stream.seek(SeekFrom::Current(0)), Ok(MARKER_LEN as u64));
    assert_eq!(stream.into_inner(), b"REDSHIRT\x00");
}

#[test]
fn v1_reader_begins_where_the_stream_stands() {
    let mut bytes = vec![0xEE; 4];
    bytes.extend_from_slice(MSG_ENC);
    let mut stream = MemStream::new(bytes);
    assert_eq!(stream.seek(SeekFrom::Start(4)), Ok(4));
    let mut reader = Reader::new(stream).unwrap();
    assert_eq!(reader.seek(SeekFrom::End(-1)), Ok(MSG_LEN_U64 - 1));
    let mut last = [0u8; 1];
    assert_eq!(reader.read(&mut last), Ok(1));
    assert_eq!(last, [b'!']);
    assert_eq!(reader.seek(SeekFrom::Start(0)), Ok(0));
    assert_eq!(reader.read(&mut last), Ok(1));
    assert_eq!(last, [b'H']);
}

#[test]
fn v1_writer_overwrites_in_place() {
    let mut writer = Writer::new(MemStream::new(Vec::new())).unwrap();
    assert_eq!(writer.write(b"Jello world!"), Ok(12));
    assert_eq!(writer.seek(SeekFrom::Start(0)), Ok(0));
    assert_eq!(writer.write(b"H"), Ok(1));
    assert_eq!(writer.seek(SeekFrom::End(0)), Ok(12));
    assert_eq!(writer.into_inner().into_inner(), MSG_ENC);
}
