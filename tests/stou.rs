use proxy_switchboard::session::{DataChanCmd, DataSlot, Session};
use proxy_switchboard::reply::ReplyCode;
use proxy_switchboard::stou::{join_path_text, Stou};

fn is_uuid_shape(s: &str) -> bool {
    s.len() == 36
        && s.chars().enumerate().all(|(i, c)| {
            if i == 8 || i == 13 || i == 18 || i == 23 {
                c == '-'
            } else {
                c.is_ascii_digit() || ('a'..='f').contains(&c)
            }
        })
}

#[test]
fn stou_without_data_connection() {
    let mut session: Session<u32> = Session::new(String::from("/incoming"), None);
    let out = Stou.handle(&mut session);
    assert_eq!(out.reply.code, ReplyCode::CantOpenDataConnection);
    assert_eq!(out.reply.message, "No data connection established");
    assert!(out.dispatch.is_none());
    assert!(!session.data_slot.is_armed());
    assert_eq!(session.cwd, "/incoming");
}

#[test]
fn stou_with_armed_slot_dispatches_once() {
    let mut session: Session<u32> = Session::new(String::from("/incoming"), None);
    session.data_slot.arm(42);
    let out = Stou.handle(&mut session);
    assert_eq!(out.reply.code, ReplyCode::FileStatusOkay);
    let name = out.reply.message.clone();
    assert!(is_uuid_shape(&name));
    let dispatch = out.dispatch.expect("a store request");
    assert_eq!(dispatch.sender, 42);
    match dispatch.command {
        DataChanCmd::StoreAtPath { path } => assert_eq!(path, format!("/incoming/{}", name)),
    }
    assert!(!session.data_slot.is_armed());
    let second = Stou.handle(&mut session);
    assert_eq!(second.reply.code, ReplyCode::CantOpenDataConnection);
    assert_eq!(second.reply.message, "No data connection established");
    assert!(second.dispatch.is_none());
}

#[test]
fn stou_names_differ_between_grants() {
    let mut session: Session<u32> = Session::new(String::from("/"), None);
    session.data_slot.arm(1);
    let first = Stou.handle(&mut session).reply.message;
    session.data_slot.arm(2);
    let second = Stou.handle(&mut session).reply.message;
    assert_ne!(first, second);
}

#[test]
fn stou_with_given_name() {
    let mut session: Session<&str> = Session::new(String::from("/data/up"), None);
    session.data_slot.arm("tx");
    let out = Stou.handle_with_name(&mut session, String::from("abc"));
    assert_eq!(out.reply.message, "abc");
    let d = out.dispatch.unwrap();
    assert_eq!(d.sender, "tx");
    match d.command {
        DataChanCmd::StoreAtPath { path } => assert_eq!(path, "/data/up/abc"),
    }
}

#[test]
fn join_paths() {
    assert_eq!(join_path_text("/incoming", "f"), "/incoming/f");
    assert_eq!(join_path_text("/incoming/", "f"), "/incoming/f");
    assert_eq!(join_path_text("/", "f"), "/f");
    assert_eq!(join_path_text("", "f"), "f");
    assert_eq!(join_path_text("/incoming", "/abs"), "/abs");
}

#[test]
fn data_slot_is_one_shot() {
    let mut slot: DataSlot<u8> = DataSlot::empty();
    assert_eq!(slot.take(), None);
    slot.arm(5);
    assert!(slot.is_armed());
    assert_eq!(slot.take(), Some(5));
    assert_eq!(slot.take(), None);
}
