use rabbit_digger::stream::{
    InnerCall, InnerReply, PeekableTcpStream, PushState, PushingStream, SendHead, SpliceState,
    WebSocketStream, WriteOutcome, WsMessage, WsNext, PIPE_BUFFER_SIZE,
};

#[test]
fn pushing_stream_flushes_before_reporting() {
    let mut s = PushingStream::new(());
    assert_eq!(s.next_call(), InnerCall::Write);
    assert_eq!(s.on_reply(InnerReply::Pending), WriteOutcome::Pending);
    assert_eq!(s.next_call(), InnerCall::Write);
    assert_eq!(s.on_reply(InnerReply::Ready(5)), WriteOutcome::Continue);
    assert_eq!(s.next_call(), InnerCall::Flush);
    assert_eq!(s.on_reply(InnerReply::Pending), WriteOutcome::Pending);
    assert_eq!(s.next_call(), InnerCall::Flush);
    assert_eq!(s.on_reply(InnerReply::Failed), WriteOutcome::Failed);
    assert_eq!(s.next_call(), InnerCall::Flush);
    assert_eq!(s.on_reply(InnerReply::Ready(0)), WriteOutcome::Wrote(5));
    assert_eq!(s.next_call(), InnerCall::Write);
    let _ = PushState::Write;
}

#[test]
fn splice_counts_bytes() {
    let mut st = SpliceState::new(3, 4);
    assert_eq!(st.read_end(), 3);
    assert_eq!(st.write_end(), 4);
    assert_eq!(st.fill_request(), Some(PIPE_BUFFER_SIZE));
    assert_eq!(st.drain_request(), None);
    st.on_filled(100);
    st.on_filled(PIPE_BUFFER_SIZE - 100);
    assert_eq!(st.fill_request(), None);
    assert_eq!(st.drain_request(), Some(PIPE_BUFFER_SIZE));
    st.on_drained(PIPE_BUFFER_SIZE - 1);
    assert_eq!(st.drain_request(), Some(1));
    assert_eq!(st.take_read(), PIPE_BUFFER_SIZE);
    assert_eq!(st.take_read(), 0);
    assert_eq!(st.fill_request(), Some(PIPE_BUFFER_SIZE - 1));
}

#[test]
fn send_head_appends_first_write() {
    let mut h = SendHead::new(vec![1, 2]);
    h.start(&[3, 4]);
    assert_eq!(h.pending(), Some(&[1u8, 2, 3, 4][..]));
    assert_eq!(h.on_sent(1, 2), None);
    assert_eq!(h.pending(), Some(&[2u8, 3, 4][..]));
    h.start(&[9]);
    assert_eq!(h.pending(), Some(&[2u8, 3, 4][..]));
    assert_eq!(h.on_sent(3, 2), Some(2));
    assert_eq!(h.pending(), None);
}

#[test]
fn peekable_stream_peek_then_read() {
    let mut p = PeekableTcpStream::new("socket");
    assert_eq!(p.missing(3), 3);
    p.fill(&[1, 2]);
    assert_eq!(p.missing(3), 1);
    p.fill(&[3]);
    assert_eq!(p.missing(3), 0);
    assert_eq!(p.peek(3), &[1, 2, 3]);
    assert_eq!(p.read_buffered(2), Some(vec![1, 2]));
    assert_eq!(p.read_buffered(10), Some(vec![3]));
    assert_eq!(p.read_buffered(10), None);
    p.fill(&[4]);
    let (tcp, rest) = p.into_inner();
    assert_eq!(tcp, "socket");
    assert_eq!(rest, vec![4]);
}

#[test]
fn websocket_stream_buffers_binary_messages() {
    let mut ws = WebSocketStream::new(());
    assert!(ws.needs_message());
    assert_eq!(ws.on_message(Some(WsMessage::Other)), WsNext::Skip);
    assert_eq!(ws.on_message(Some(WsMessage::Binary(vec![1, 2, 3]))), WsNext::Data);
    assert!(!ws.needs_message());
    assert_eq!(ws.take_read(2), vec![1, 2]);
    assert_eq!(ws.take_read(2), vec![3]);
    assert!(ws.needs_message());
    assert_eq!(ws.on_message(Some(WsMessage::Close)), WsNext::Eof);
    assert_eq!(ws.on_message(None), WsNext::Eof);

    assert!(ws.needs_send());
    ws.on_sent(7);
    assert!(!ws.needs_send());
    assert_eq!(ws.on_flushed(), 7);
    assert!(ws.needs_send());
}

#[test]
fn splice_read_count() {
    let mut st = SpliceState::new(0, 1);
    st.on_filled(5);
    assert_eq!(st.read_so_far(), 5);
    assert_eq!(st.take_read(), 5);
    assert_eq!(st.read_so_far(), 0);
}

#[test]
fn send_head_goes_out_whole_in_pieces() {
    let mut h = SendHead::new(vec![1, 2, 3]);
    h.start(&[4, 5]);
    let mut out = Vec::new();
    let mut answers = Vec::new();
    for n in [1usize, 0, 2, 2] {
        let piece = h.pending().unwrap()[..n].to_vec();
        out.extend(piece);
        answers.push(h.on_sent(n, 2));
    }
    assert_eq!(out, vec![1, 2, 3, 4, 5]);
    assert_eq!(answers, vec![None, None, None, Some(2)]);
    assert_eq!(h.pending(), None);
    h.start(&[7]);
    assert_eq!(h.pending(), None);
}
