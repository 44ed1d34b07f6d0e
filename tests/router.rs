use proxy_switchboard::endpoint::{Endpoint, IpAddress, ProxyConnection};
use proxy_switchboard::reply::ReplyCode;
use proxy_switchboard::router::{PassiveHost, Router, RouterAction, RouterConfig, RouterMsg};
use proxy_switchboard::switchboard::Switchboard;

fn conn(src: IpAddress, src_port: u16, dst_port: u16) -> ProxyConnection {
    ProxyConnection::new(
        Endpoint { ip: src, port: src_port },
        Endpoint { ip: IpAddress::V4(198, 51, 100, 1), port: dst_port },
    )
}

fn router(host: PassiveHost) -> Router {
    Router::new(RouterConfig { control_port: 21, passive_host: host }, Switchboard::new(40000, 40001, 60))
}

#[test]
fn control_port_spawns_control_loop() {
    let mut r = router(PassiveHost::FromConnection);
    let a = r.step(RouterMsg::HeaderReceived(conn(IpAddress::V4(10, 0, 0, 5), 5555, 21)), 0);
    assert!(matches!(a, RouterAction::SpawnControlLoop));
}

#[test]
fn port_outside_passive_range_is_closed() {
    let mut r = router(PassiveHost::FromConnection);
    let control = conn(IpAddress::V4(10, 0, 0, 5), 5555, 21);
    let a = r.step(RouterMsg::AssignPort { session: 1, control: Some(control) }, 0);
    assert!(matches!(a, RouterAction::SendReply { session: 1, .. }));
    let a = r.step(RouterMsg::HeaderReceived(conn(IpAddress::V4(10, 0, 0, 5), 6000, 8080)), 1);
    assert!(matches!(a, RouterAction::Close));
    assert_eq!(r.board.lookup(IpAddress::V4(10, 0, 0, 5), 40000, 2), Some(1));
}

#[test]
fn assign_then_data_connection_matches_session() {
    let mut r = router(PassiveHost::Ip(203, 0, 113, 9));
    let control = conn(IpAddress::V4(10, 0, 0, 5), 5555, 21);
    match r.step(RouterMsg::AssignPort { session: 9, control: Some(control) }, 100) {
        RouterAction::SendReply { session, reply } => {
            assert_eq!(session, 9);
            assert_eq!(reply.code, ReplyCode::EnteringPassiveMode);
            assert_eq!(reply.message, "Entering Passive Mode (203,0,113,9,156,64)");
        }
        _ => panic!("expected a reply"),
    }
    let data = conn(IpAddress::V4(10, 0, 0, 5), 6001, 40000);
    let a = r.step(RouterMsg::HeaderReceived(data), 101);
    assert!(matches!(a, RouterAction::HandToDataHandler { session: 9 }));
    let again = r.step(RouterMsg::HeaderReceived(data), 102);
    assert!(matches!(again, RouterAction::Close));
}

#[test]
fn advertised_host_from_connection() {
    let mut r = router(PassiveHost::FromConnection);
    let control = conn(IpAddress::V4(10, 0, 0, 5), 5555, 21);
    match r.step(RouterMsg::AssignPort { session: 2, control: Some(control) }, 0) {
        RouterAction::SendReply { reply, .. } => {
            assert_eq!(reply.message, "Entering Passive Mode (198,51,100,1,156,64)")
        }
        _ => panic!("expected a reply"),
    }
}

#[test]
fn unmatched_data_connection_is_closed() {
    let mut r = router(PassiveHost::FromConnection);
    let a = r.step(RouterMsg::HeaderReceived(conn(IpAddress::V4(10, 0, 0, 7), 6000, 40001)), 0);
    assert!(matches!(a, RouterAction::Close));
}

#[test]
fn exhausted_range_gives_local_error() {
    let mut r = router(PassiveHost::FromConnection);
    let control = conn(IpAddress::V4(10, 0, 0, 5), 5555, 21);
    for s in 0..2 {
        r.step(RouterMsg::AssignPort { session: s, control: Some(control) }, 0);
    }
    match r.step(RouterMsg::AssignPort { session: 3, control: Some(control) }, 0) {
        RouterAction::SendReply { session, reply } => {
            assert_eq!(session, 3);
            assert_eq!(reply.code, ReplyCode::CantOpenDataConnection);
            assert_eq!(reply.message, "Local error");
        }
        _ => panic!("expected a reply"),
    }
}

#[test]
fn release_port_frees_bound_connection() {
    let mut r = router(PassiveHost::FromConnection);
    let control = conn(IpAddress::V4(10, 0, 0, 5), 5555, 21);
    r.step(RouterMsg::AssignPort { session: 1, control: Some(control) }, 0);
    let active = conn(IpAddress::V4(10, 0, 0, 5), 6000, 40000);
    let a = r.step(RouterMsg::ReleasePort { active: Some(active) }, 1);
    assert!(matches!(a, RouterAction::Nothing));
    assert_eq!(r.board.lookup(IpAddress::V4(10, 0, 0, 5), 40000, 2), None);
    let a = r.step(RouterMsg::ReleasePort { active: None }, 2);
    assert!(matches!(a, RouterAction::Nothing));
}

#[test]
fn assign_without_control_connection_does_nothing() {
    let mut r = router(PassiveHost::FromConnection);
    let a = r.step(RouterMsg::AssignPort { session: 1, control: None }, 0);
    assert!(matches!(a, RouterAction::Nothing));
    assert_eq!(r.board.reserve(2, IpAddress::V4(1, 1, 1, 1), 0), Ok(40000));
}
