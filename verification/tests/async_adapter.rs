use funder::async_adapter::{
    AsyncReader, AsyncWriter, ReadStep, ReceiverEvent, SenderEvent, WriteStep,
};
use futures::channel::mpsc;

#[test]
fn test_basic_stream_receiver() {
    let (sender, receiver) = mpsc::channel::<Vec<u8>>(0);
    let async_reader: AsyncReader<_> = AsyncReader::new(receiver);
    let async_writer: AsyncWriter<_> = AsyncWriter::new(sender, 0x20);
    assert!(async_reader.opt_receiver.is_some());
    assert!(async_reader.pending_in.is_empty());
    assert!(async_writer.opt_sender.is_some());
    assert!(async_writer.pending_out.is_empty());
    assert_eq!(async_writer.max_frame_len, 0x20);
}

#[test]
fn reader_hands_out_pending_bytes() {
    let mut reader = AsyncReader::new(());
    let receiver = reader.take_receiver().unwrap();
    assert!(reader.opt_receiver.is_none());
    assert!(reader.take_receiver().is_none());
    let step = reader.after_poll(ReceiverEvent::Frame(vec![1, 2, 3, 4, 5], receiver), 0);
    assert_eq!(step, ReadStep::Continue);
    assert!(reader.opt_receiver.is_some());

    let mut buf = vec![0u8; 3];
    assert_eq!(reader.read_pending(&mut buf, 0), 3);
    assert_eq!(buf, vec![1, 2, 3]);
    assert_eq!(reader.pending_in, vec![4, 5]);

    let mut buf = vec![9u8; 6];
    assert_eq!(reader.read_pending(&mut buf, 1), 2);
    assert_eq!(buf, vec![9, 4, 5, 9, 9, 9]);
    assert!(reader.pending_in.is_empty());
    assert_eq!(reader.read_pending(&mut buf, 3), 0);
    assert_eq!(reader.read_pending(&mut buf, 6), 0);
    assert_eq!(buf, vec![9, 4, 5, 9, 9, 9]);
}

#[test]
fn reader_decides_after_poll() {
    let mut reader = AsyncReader::new(7u8);
    let receiver = reader.take_receiver().unwrap();
    assert_eq!(reader.after_poll(ReceiverEvent::NotReady(receiver), 0), ReadStep::WouldBlock);
    assert_eq!(reader.opt_receiver, Some(7));
    let receiver = reader.take_receiver().unwrap();
    assert_eq!(reader.after_poll(ReceiverEvent::NotReady(receiver), 4), ReadStep::Done(4));
    let _ = reader.take_receiver();
    assert_eq!(reader.after_poll(ReceiverEvent::End, 2), ReadStep::Done(2));
    assert!(reader.opt_receiver.is_none());
    assert_eq!(reader.after_poll(ReceiverEvent::End, 0), ReadStep::Done(0));
    assert_eq!(reader.after_poll(ReceiverEvent::Failed, 5), ReadStep::BrokenPipe);
    assert!(reader.opt_receiver.is_none());
}

#[test]
fn writer_fills_frames() {
    let mut writer = AsyncWriter::new((), 4);
    let data = [1u8, 2, 3, 4, 5, 6];
    assert_eq!(writer.buffer(&data, 0), 4);
    assert_eq!(writer.pending_out, vec![1, 2, 3, 4]);
    assert_eq!(writer.buffer(&data, 4), 0);
    let frame = writer.take_frame();
    assert_eq!(frame, vec![1, 2, 3, 4]);
    assert!(writer.pending_out.is_empty());
    assert_eq!(writer.after_send(SenderEvent::Ready, 4), WriteStep::Continue);
    assert_eq!(writer.buffer(&data, 4), 2);
    assert_eq!(writer.pending_out, vec![5, 6]);
    assert_eq!(writer.buffer(&data, 6), 0);
    assert_eq!(writer.buffer(&data, 1), 2);
    assert_eq!(writer.pending_out, vec![5, 6, 2, 3]);
}

#[test]
fn writer_decides_after_send() {
    let mut writer = AsyncWriter::new(3u8, 4);
    let sender = writer.take_sender().unwrap();
    assert!(writer.take_sender().is_none());
    writer.restore_sender(sender);
    assert_eq!(writer.opt_sender, Some(3));

    assert_eq!(writer.after_send(SenderEvent::NotReady(vec![1, 2]), 0), WriteStep::WouldBlock);
    assert_eq!(writer.pending_out, vec![1, 2]);
    let frame = writer.take_frame();
    assert_eq!(writer.after_send(SenderEvent::NotReady(frame), 2), WriteStep::Done(2));
    assert_eq!(writer.pending_out, vec![1, 2]);
    let _ = writer.take_frame();
    assert_eq!(writer.after_send(SenderEvent::Failed, 2), WriteStep::BrokenPipe);
    assert!(writer.pending_out.is_empty());
}
