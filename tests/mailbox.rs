use foxy::mailbox::{Mailbox, MailboxError};

#[test]
fn messages_arrive_in_send_order() {
    let mut m: Mailbox<u32, i64> = Mailbox::new_entangled_pair();
    assert_eq!(m.send_to_render(1), Ok(()));
    assert_eq!(m.send_to_render(2), Ok(()));
    assert_eq!(m.send_to_render(3), Ok(()));
    assert_eq!(m.recv_at_render(), Ok(Some(1)));
    assert_eq!(m.recv_at_render(), Ok(Some(2)));
    assert_eq!(m.recv_at_render(), Ok(Some(3)));
    assert_eq!(m.recv_at_render(), Ok(None));
}

#[test]
fn every_request_gets_its_reply_in_order() {
    let mut m: Mailbox<u32, u64> = Mailbox::new_entangled_pair();
    let mut replies = Vec::new();
    for q in 0..100u32 {
        m.send_to_render(q).unwrap();
        let got = m.recv_at_render().unwrap().unwrap();
        m.send_to_game(got as u64 * 10).unwrap();
        replies.push(m.recv_at_game().unwrap().unwrap());
    }
    let expected: Vec<u64> = (0..100u64).map(|q| q * 10).collect();
    assert_eq!(replies, expected);
    assert_eq!(m.recv_at_game(), Ok(None));
}

#[test]
fn send_to_dropped_peer_fails() {
    let mut m: Mailbox<u32, u32> = Mailbox::new_entangled_pair();
    m.close_render_end();
    assert!(!m.render_open());
    assert_eq!(m.send_to_render(7), Err(MailboxError::Disconnected));
    m.close_game_end();
    assert!(!m.game_open());
    assert_eq!(m.send_to_game(7), Err(MailboxError::Disconnected));
}

#[test]
fn queued_messages_outlive_the_sender() {
    let mut m: Mailbox<u32, u32> = Mailbox::new_entangled_pair();
    m.send_to_render(5).unwrap();
    m.close_game_end();
    assert_eq!(m.recv_at_render(), Ok(Some(5)));
    assert_eq!(m.recv_at_render(), Err(MailboxError::Disconnected));
}

#[test]
fn game_receive_from_dropped_render_end_fails() {
    let mut m: Mailbox<u32, u32> = Mailbox::new_entangled_pair();
    assert_eq!(m.recv_at_game(), Ok(None));
    m.close_render_end();
    assert_eq!(m.recv_at_game(), Err(MailboxError::Disconnected));
}
