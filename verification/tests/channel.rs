use relay_server::{
    Channel, ChannelId, ChannelMessage, ChannelReceiver, ChannelSender, Received, SendOutcome,
};

fn data(text: &str) -> ChannelMessage {
    ChannelMessage::Data(text.as_bytes().to_vec())
}

fn media(bytes: &[u8]) -> ChannelMessage {
    ChannelMessage::Media(bytes.to_vec())
}

#[test]
fn split_gives_the_endpoints_of_the_channel() {
    let channel = Channel::new(ChannelId(7));
    let (sender, receiver) = channel.split();
    assert_eq!(sender.channel_id(), ChannelId(7));
    assert_eq!(receiver.channel_id(), ChannelId(7));
    assert_eq!(channel.channel_id(), ChannelId(7));
}

#[test]
fn frames_before_a_receiver_are_dropped() {
    let mut channel = Channel::new(ChannelId(0));
    let (sender, receiver) = channel.split();
    assert_eq!(sender.send(&mut channel, data("lost")), SendOutcome::NoReceiver);
    assert_eq!(sender.send(&mut channel, media(&[1, 2, 3])), SendOutcome::NoReceiver);
    assert_eq!(channel.len(), 0);
    assert!(!channel.has_receiver());
    assert_eq!(receiver.recv(&mut channel), Received::Pending);
    assert!(channel.has_receiver());
    assert_eq!(sender.send(&mut channel, data("kept")), SendOutcome::Enqueued);
    assert_eq!(channel.len(), 1);
    assert_eq!(receiver.recv(&mut channel), Received::Frame(data("kept")));
    assert_eq!(receiver.recv(&mut channel), Received::Pending);
}

#[test]
fn frames_arrive_in_order() {
    let mut channel = Channel::new(ChannelId(0));
    let (sender, receiver) = channel.split();
    assert_eq!(receiver.recv(&mut channel), Received::Pending);
    let frames = vec![data("a"), media(&[0x80, 0x60]), data(""), media(&[]), data("b")];
    for frame in frames.clone() {
        assert_eq!(sender.send(&mut channel, frame), SendOutcome::Enqueued);
    }
    assert_eq!(channel.len(), 5);
    for frame in frames {
        assert_eq!(receiver.recv(&mut channel), Received::Frame(frame));
    }
    assert_eq!(channel.len(), 0);
    assert_eq!(receiver.recv(&mut channel), Received::Pending);
}

#[test]
fn admission_is_sticky() {
    let mut channel = Channel::new(ChannelId(0));
    let (sender, receiver) = channel.split();
    assert_eq!(receiver.recv(&mut channel), Received::Pending);
    drop(receiver);
    // the consumer is gone, the frames still queue up
    assert_eq!(sender.send(&mut channel, data("one")), SendOutcome::Enqueued);
    assert_eq!(sender.send(&mut channel, data("two")), SendOutcome::Enqueued);
    assert!(channel.has_receiver());
    assert_eq!(channel.len(), 2);
}

#[test]
fn end_of_stream_follows_the_frames_in_flight() {
    let mut channel = Channel::new(ChannelId(3));
    let (sender, receiver) = channel.split();
    assert_eq!(receiver.recv(&mut channel), Received::Pending);
    assert_eq!(sender.send(&mut channel, data("last words")), SendOutcome::Enqueued);
    assert!(sender.close(&mut channel));
    assert!(channel.is_closed());
    assert_eq!(receiver.recv(&mut channel), Received::Frame(data("last words")));
    assert_eq!(receiver.recv(&mut channel), Received::EndOfStream);
    assert_eq!(receiver.recv(&mut channel), Received::EndOfStream);
}

#[test]
fn nothing_is_admitted_after_close() {
    let mut channel = Channel::new(ChannelId(3));
    let (sender, receiver) = channel.split();
    assert_eq!(receiver.recv(&mut channel), Received::Pending);
    channel.close();
    assert_eq!(sender.send(&mut channel, data("late")), SendOutcome::Closed);
    assert_eq!(channel.len(), 0);
    assert_eq!(receiver.recv(&mut channel), Received::EndOfStream);
}

#[test]
fn closed_before_any_receiver() {
    let mut channel = Channel::new(ChannelId(3));
    let (sender, receiver) = channel.split();
    assert!(sender.close(&mut channel));
    assert_eq!(sender.send(&mut channel, data("late")), SendOutcome::Closed);
    assert_eq!(receiver.recv(&mut channel), Received::EndOfStream);
}

#[test]
fn foreign_endpoints_touch_nothing() {
    let mut channel = Channel::new(ChannelId(1));
    let own = ChannelReceiver::new(ChannelId(1));
    let foreign_sender = ChannelSender::new(ChannelId(2));
    let foreign_receiver = ChannelReceiver::new(ChannelId(2));
    assert_eq!(foreign_receiver.recv(&mut channel), Received::Foreign);
    assert!(!channel.has_receiver());
    assert_eq!(own.recv(&mut channel), Received::Pending);
    assert_eq!(foreign_sender.send(&mut channel, data("x")), SendOutcome::Foreign);
    assert_eq!(channel.len(), 0);
    assert!(!foreign_sender.close(&mut channel));
    assert!(!channel.is_closed());
}

#[test]
fn payload_bytes_are_untouched() {
    let mut channel = Channel::new(ChannelId(0));
    let (sender, receiver) = channel.split();
    assert_eq!(receiver.recv(&mut channel), Received::Pending);
    let all: Vec<u8> = (0..=255).collect();
    assert_eq!(sender.send(&mut channel, ChannelMessage::Data(all.clone())), SendOutcome::Enqueued);
    assert_eq!(
        sender.send(&mut channel, ChannelMessage::Media(all.clone())),
        SendOutcome::Enqueued
    );
    assert_eq!(receiver.recv(&mut channel), Received::Frame(ChannelMessage::Data(all.clone())));
    assert_eq!(receiver.recv(&mut channel), Received::Frame(ChannelMessage::Media(all)));
}
