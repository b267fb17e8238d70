use chat_relay::client::{
    clean_line, client_recv_step, client_send_step, is_quit_command, RecvAction, SendAction,
};
use chat_relay::codec::{decode, encode, Frame};
use chat_relay::relay::ReadEvent;

#[test]
fn test_message_trim() {
    let input = "  mensagem teste  ";
    let trimmed = clean_line(input);
    assert_eq!(trimmed, "mensagem teste", "Espa\u{e7}os devem ser removidos");
}

#[test]
fn test_quit_commands() {
    let quit_commands = vec![":quit", ":q"];
    for cmd in quit_commands {
        assert!(
            is_quit_command(cmd),
            "Comando deve ser reconhecido como de sa\u{ed}da"
        );
    }
}

#[test]
fn quit_is_not_any_other_line() {
    assert!(!is_quit_command("quit"));
    assert!(!is_quit_command(":quitter"));
    assert!(!is_quit_command(""));
    assert!(!is_quit_command("ping"));
}

#[test]
fn send_step_quit_transmits_no_frame() {
    assert!(matches!(client_send_step(":quit"), SendAction::Quit));
    assert!(matches!(client_send_step(":q"), SendAction::Quit));
    assert!(matches!(client_send_step("  :quit\n"), SendAction::Quit));
}

#[test]
fn send_step_encodes_trimmed_line() {
    match client_send_step(" ping \n") {
        SendAction::Quit => panic!("linha comum n\u{e3}o deve encerrar o cliente"),
        SendAction::Send(frame) => {
            assert_eq!(frame.bytes().len(), 32);
            assert_eq!(decode(&frame), Ok(String::from("ping")));
        }
    }
}

#[test]
fn recv_step_shows_decoded_text() {
    let frame = encode("hello");
    match client_recv_step(ReadEvent::Frame(frame)) {
        RecvAction::Show(msg) => assert_eq!(msg, "hello"),
        _ => panic!("quadro v\u{e1}lido deve ser exibido"),
    }
}

#[test]
fn recv_step_ignores_invalid_utf8() {
    let mut bytes = vec![0u8; 32];
    bytes[0] = 0xc0;
    bytes[1] = 0xaf;
    let frame = Frame::from_vec(bytes);
    assert!(matches!(
        client_recv_step(ReadEvent::Frame(frame)),
        RecvAction::Ignore
    ));
}

#[test]
fn recv_step_stops_on_closed_connection() {
    assert!(matches!(client_recv_step(ReadEvent::Closed), RecvAction::Stop));
}
