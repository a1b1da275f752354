use fun_together::adapter::{adapter_translate, AdapterAction, Frame};
use fun_together::comm::{Command, HostComm};

#[test]
fn text_frame_becomes_stamped_from_str() {
    let action = adapter_translate(42, Frame::Text("hello".to_string()));
    assert_eq!(
        action,
        AdapterAction::Forward(HostComm::Command(Command::FromStr {
            from: 42,
            data: "hello".to_string(),
        }))
    );
}

#[test]
fn binary_frame_becomes_stamped_from() {
    let action = adapter_translate(7, Frame::Binary(vec![1, 2, 3]));
    assert_eq!(
        action,
        AdapterAction::Forward(HostComm::Command(Command::From {
            from: 7,
            data: vec![1, 2, 3],
        }))
    );
}

#[test]
fn sender_id_is_the_adapters_own() {
    // Whatever the frame holds, the stamped id is the server-assigned one.
    let action = adapter_translate(3, Frame::Text("from: 99".to_string()));
    match action {
        AdapterAction::Forward(HostComm::Command(Command::FromStr { from, .. })) => {
            assert_eq!(from, 3)
        }
        other => panic!("unexpected action {:?}", other),
    }
}

#[test]
fn close_frame_disconnects() {
    assert_eq!(adapter_translate(1, Frame::Close), AdapterAction::Disconnect);
}

#[test]
fn control_frames_are_ignored() {
    assert_eq!(adapter_translate(1, Frame::Other), AdapterAction::Ignore);
}
