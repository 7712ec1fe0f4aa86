use std::sync::mpsc::sync_channel;

use netstring::{
    Channel, ChannelError, FrameError, NetstringReader, ReaderStep, TransportError, WriterStep,
};

#[test]
fn reader() {
    let reader = NetstringReader::from_bytes("5:hello,".as_bytes());
    let (tx, rx) = sync_channel(10);
    let (_c, mut rp, _wp) = Channel::new(reader, Vec::<u8>::new(), tx, 10);
    assert_eq!(rp.step(), ReaderStep::Delivered);
    let x = rx.recv().unwrap();
    assert_eq!("hello", x);
    assert_eq!(rp.step(), ReaderStep::Ended(FrameError::ConnectionClosed));
    assert!(!rp.running());
}

#[test]
fn send() {
    let reader = NetstringReader::from_bytes("".as_bytes());
    let (tx, _) = sync_channel(10);
    let (c, _rp, mut wp) = Channel::new(reader, Vec::<u8>::new(), tx, 10);
    c.send("hello").unwrap();
    let ack = c.begin_flush().unwrap();
    assert_eq!(wp.step(), WriterStep::Wrote);
    assert_eq!(wp.step(), WriterStep::FlushRequested);
    assert_eq!(wp.sent(Ok(())), WriterStep::Flushed);
    ack.wait().unwrap();
    assert_eq!(wp.writer().as_slice(), b"5:hello,");
}

#[test]
fn send_last() {
    let reader = NetstringReader::from_bytes("".as_bytes());
    let (tx, _) = sync_channel(10);
    let (c, _rp, mut wp) = Channel::new(reader, Vec::<u8>::new(), tx, 10);
    let ack = c.begin_send_last("hello").unwrap();
    assert_eq!(wp.step(), WriterStep::FinishRequested);
    assert_eq!(wp.sent(Ok(())), WriterStep::Finished);
    ack.wait().unwrap();
    assert_eq!(wp.writer().as_slice(), b"5:hello,");
}

#[test]
fn last_message_stops_both_pumps() {
    let reader = NetstringReader::from_bytes("5:hello,".as_bytes());
    let (tx, _rx) = sync_channel(10);
    let (c, mut rp, mut wp) = Channel::new(reader, Vec::<u8>::new(), tx, 10);
    c.send("hi").unwrap();
    let ack = c.begin_send_last("bye").unwrap();
    assert_eq!(wp.step(), WriterStep::Wrote);
    assert_eq!(wp.step(), WriterStep::FinishRequested);
    let done = wp.sent(Ok(()));
    assert_eq!(done, WriterStep::Finished);
    assert!(done.shuts_down_stream());
    assert!(!wp.running());
    ack.wait().unwrap();
    assert_eq!(wp.writer().as_slice(), b"2:hi,3:bye,");
    assert_eq!(rp.step(), ReaderStep::StopRequested);
    assert!(!rp.running());
}

#[test]
fn operations_keep_queue_order() {
    let reader = NetstringReader::from_bytes("".as_bytes());
    let (tx, _rx) = sync_channel(10);
    let (c, _rp, mut wp) = Channel::new(reader, Vec::<u8>::new(), tx, 10);
    let other = c.clone();
    c.send("a").unwrap();
    other.send("bb").unwrap();
    c.send("ccc").unwrap();
    let ack = other.begin_flush().unwrap();
    for _ in 0..3 {
        assert_eq!(wp.step(), WriterStep::Wrote);
    }
    assert_eq!(wp.step(), WriterStep::FlushRequested);
    assert_eq!(wp.sent(Ok(())), WriterStep::Flushed);
    ack.wait().unwrap();
    assert_eq!(wp.writer().as_slice(), b"1:a,2:bb,3:ccc,");
}

#[test]
fn closed_channel_hands_text_back() {
    let reader = NetstringReader::from_bytes("".as_bytes());
    let (tx, _rx) = sync_channel(10);
    let (c, _rp, wp) = Channel::new(reader, Vec::<u8>::new(), tx, 10);
    drop(wp);
    assert_eq!(c.send("hello"), Err(ChannelError::ChannelClosed(Some("hello".to_string()))));
    assert_eq!(c.flush(), Err(ChannelError::ChannelClosed(None)));
    assert_eq!(c.send_last("bye"), Err(ChannelError::ChannelClosed(Some("bye".to_string()))));
}

#[test]
fn writer_stops_when_every_handle_is_gone() {
    let reader = NetstringReader::from_bytes("".as_bytes());
    let (tx, _rx) = sync_channel(10);
    let (c, _rp, mut wp) = Channel::new(reader, Vec::<u8>::new(), tx, 10);
    c.send("x").unwrap();
    drop(c);
    assert_eq!(wp.step(), WriterStep::Wrote);
    assert_eq!(wp.step(), WriterStep::Closed);
    assert!(!wp.running());
}

#[test]
fn dropped_flush_request_reports_closed() {
    let reader = NetstringReader::from_bytes("".as_bytes());
    let (tx, _rx) = sync_channel(10);
    let (c, _rp, wp) = Channel::new(reader, Vec::<u8>::new(), tx, 10);
    let ack = c.begin_flush().unwrap();
    drop(wp);
    assert_eq!(ack.wait(), Err(ChannelError::ChannelClosed(None)));
}

#[test]
fn reader_stops_when_nobody_listens() {
    let reader = NetstringReader::from_bytes("5:hello,".as_bytes());
    let (tx, rx) = sync_channel(10);
    drop(rx);
    let (_c, mut rp, _wp) = Channel::new(reader, Vec::<u8>::new(), tx, 10);
    assert_eq!(rp.step(), ReaderStep::ListenerGone);
    assert!(!rp.running());
}

#[test]
fn reader_stops_on_invalid_frame() {
    let reader = NetstringReader::from_bytes("5:hello?".as_bytes());
    let (tx, _rx) = sync_channel::<String>(10);
    let (_c, mut rp, _wp) = Channel::new(reader, Vec::<u8>::new(), tx, 10);
    assert_eq!(rp.step(), ReaderStep::Ended(FrameError::InvalidFrame));
}

#[test]
fn mapped_reader_skips_and_transforms() {
    let reader = NetstringReader::from_bytes("3:one,4:skip,5:three,".as_bytes());
    let (tx, rx) = sync_channel(10);
    let (_c, mut rp, _wp) = Channel::map(reader, Vec::<u8>::new(), tx, 10, |s: String| {
        if s == "skip" { None } else { Some(s.len()) }
    });
    assert_eq!(rp.step(), ReaderStep::Delivered);
    assert_eq!(rp.step(), ReaderStep::Skipped);
    assert_eq!(rp.step(), ReaderStep::Delivered);
    assert_eq!(rx.recv().unwrap(), 3);
    assert_eq!(rx.recv().unwrap(), 5);
    assert!(rp.step().keeps_running() == false);
}

#[test]
fn channel_error_description() {
    let e = ChannelError::ChannelClosed(None);
    assert_eq!(e.description(), "Channel is closed");
}

#[test]
fn unsent_operations_become_errors() {
    let e = ChannelError::from_unsent(netstring::Op::Message("m".to_string()));
    assert_eq!(e, ChannelError::ChannelClosed(Some("m".to_string())));
}

#[test]
fn queue_holds_capacity_operations() {
    let reader = NetstringReader::from_bytes("".as_bytes());
    let (tx, _rx) = sync_channel::<String>(10);
    let (c, _rp, mut wp) = Channel::new(reader, Vec::<u8>::new(), tx, 2);
    c.send("a").unwrap();
    c.send("b").unwrap();
    assert_eq!(wp.step(), WriterStep::Wrote);
    c.send("c").unwrap();
    assert_eq!(wp.step(), WriterStep::Wrote);
    assert_eq!(wp.step(), WriterStep::Wrote);
    assert_eq!(wp.writer().as_slice(), b"1:a,1:b,1:c,");
}

#[test]
fn reader_waits_for_bytes() {
    let (tx, rx) = sync_channel(10);
    let (_c, mut rp, _wp) = Channel::new(NetstringReader::new(), Vec::<u8>::new(), tx, 10);
    assert_eq!(rp.step(), ReaderStep::NeedBytes);
    assert!(rp.running());
    rp.feed(b"5:hel");
    assert_eq!(rp.step(), ReaderStep::NeedBytes);
    rp.feed(b"lo,");
    assert_eq!(rp.step(), ReaderStep::Delivered);
    assert_eq!(rx.recv().unwrap(), "hello");
    rp.end_of_stream();
    let last = rp.step();
    assert_eq!(last, ReaderStep::Ended(FrameError::ConnectionClosed));
    assert!(last.shuts_down_stream());
}

#[test]
fn failed_flush_stops_writer() {
    let (tx, _rx) = sync_channel::<String>(10);
    let (c, _rp, mut wp) = Channel::new(NetstringReader::new(), Vec::<u8>::new(), tx, 10);
    let ack = c.begin_flush().unwrap();
    assert_eq!(wp.step(), WriterStep::FlushRequested);
    assert!(wp.awaiting());
    let failed = wp.sent(Err(TransportError));
    assert_eq!(failed, WriterStep::StreamFailed);
    assert!(!wp.running());
    drop(wp);
    assert_eq!(ack.wait(), Err(ChannelError::ChannelClosed(None)));
    assert_eq!(c.send("x"), Err(ChannelError::ChannelClosed(Some("x".to_string()))));
}

#[test]
fn written_bytes_are_taken_out() {
    let (tx, _rx) = sync_channel::<String>(10);
    let (c, _rp, mut wp) = Channel::new(NetstringReader::new(), b"0:,".to_vec(), tx, 10);
    c.send("ab").unwrap();
    assert_eq!(wp.step(), WriterStep::Wrote);
    assert_eq!(wp.take_output(), b"0:,2:ab,".to_vec());
    assert!(wp.writer().is_empty());
    assert_eq!(wp.sent(Ok(())), WriterStep::Sent);
}

#[test]
fn operation_builders() {
    assert!(matches!(netstring::message_op("m"), netstring::Op::Message(ref m) if m == "m"));
}

#[test]
fn stop_signal_decides_reader_step() {
    let reader = NetstringReader::from_bytes("5:hello,".as_bytes());
    let (tx, rx) = sync_channel(10);
    let (_c, mut rp, _wp) = Channel::new(reader, Vec::<u8>::new(), tx, 10);
    assert_eq!(rp.step_with(false), ReaderStep::Delivered);
    assert_eq!(rx.recv().unwrap(), "hello");
    assert_eq!(rp.step_with(true), ReaderStep::StopRequested);
    assert!(!rp.running());
}

#[test]
fn fresh_reader_is_not_asked_to_stop() {
    let reader = NetstringReader::from_bytes("2:hi,".as_bytes());
    let (tx, _rx) = sync_channel(10);
    let (_c, mut rp, _wp) = Channel::new(reader, Vec::<u8>::new(), tx, 10);
    assert_eq!(rp.step(), ReaderStep::Delivered);
}

#[test]
fn failed_last_write_fails_send_last() {
    let (tx, _rx) = sync_channel::<String>(10);
    let (c, _rp, mut wp) = Channel::new(NetstringReader::new(), Vec::<u8>::new(), tx, 10);
    let ack = c.begin_send_last("bye").unwrap();
    assert_eq!(wp.step(), WriterStep::FinishRequested);
    assert_eq!(wp.sent(Err(TransportError)), WriterStep::StreamFailed);
    drop(wp);
    assert_eq!(ack.wait(), Err(ChannelError::ChannelClosed(None)));
}
