use vstd::prelude::*;

use crate::endpoint::{IpAddress, ProxyConnection};
use crate::reply::{make_pasv_reply, pasv_message, Reply, ReplyCode};
use crate::switchboard::Switchboard;

verus! {

/// The address advertised to clients in passive-mode replies.
#[derive(Clone, Copy, Debug, PartialEq, Eq, Structural)]
pub enum PassiveHost {
    /// This IPv4 address.
    Ip(u8, u8, u8, u8),
    /// The address that the client's control connection was made to.
    FromConnection,
}

#[derive(Clone, Copy, Debug, PartialEq, Eq, Structural)]
pub struct RouterConfig {
    /// The external port that carries control connections.
    pub control_port: u16,
    pub passive_host: PassiveHost,
}

/// What the router is told: a proxied connection whose header was read, or
/// a request from a session's control loop.
#[derive(Clone, Copy, Debug, PartialEq, Eq, Structural)]
pub enum RouterMsg {
    HeaderReceived(ProxyConnection),
    /// A session asks for a passive port; `control` is its control connection.
    AssignPort { session: u64, control: Option<ProxyConnection> },
    /// A session's control loop ends; `active` is its bound data connection.
    ReleasePort { active: Option<ProxyConnection> },
}

/// What the router decided to do about one message.
#[derive(Clone, Debug)]
pub enum RouterAction {
    /// Run a control loop on the connection whose header was received.
    SpawnControlLoop,
    /// Close the connection whose header was received.
    Close,
    /// Hand the connection whose header was received to this session's data
    /// handler.
    HandToDataHandler { session: u64 },
    /// Send this reply over the session's reply channel.
    SendReply { session: u64, reply: Reply },
    Nothing,
}

/// The IPv4 address that a passive-mode reply advertises to a client whose
/// control connection is `control`.
pub open spec fn advertised_host(host: PassiveHost, control: ProxyConnection) -> (u8, u8, u8, u8) {
    match host {
        PassiveHost::Ip(a, b, c, d) => (a, b, c, d),
        PassiveHost::FromConnection => match control.destination.ip {
            IpAddress::V4(a, b, c, d) => (a, b, c, d),
            IpAddress::V6(..) => (0, 0, 0, 0),
        },
    }
}

pub open spec fn local_error_text() -> Seq<char> {
    "Local error"@
}

/// Only IPv4 destinations reach the passive-port path.
pub open spec fn msg_ok(msg: RouterMsg) -> bool {
    msg matches RouterMsg::AssignPort { control: Some(c), .. } ==> c.destination.ip is V4
}

/// The event loop's state: its configuration and the switchboard that it
/// alone drives.
pub struct Router {
    pub config: RouterConfig,
    pub board: Switchboard,
}

impl Router {
    pub fn new(config: RouterConfig, board: Switchboard) -> (r: Router)
        requires
            board@.wf(),
        ensures
            r.config == config,
            r.board@ == board@,
            r.board@.wf(),
    {
        Router { config, board }
    }

    fn advertised(&self, control: &ProxyConnection) -> (r: (u8, u8, u8, u8))
        requires
            control.destination.ip is V4,
        ensures
            r == advertised_host(self.config.passive_host, *control),
    {
        match self.config.passive_host {
            PassiveHost::Ip(a, b, c, d) => (a, b, c, d),
            PassiveHost::FromConnection => match control.destination.ip {
                IpAddress::V4(a, b, c, d) => (a, b, c, d),
                IpAddress::V6(..) => (0, 0, 0, 0),
            },
        }
    }

    /// Handles one message at time `now`. A connection to the control port
    /// gets a control loop; one to a port outside the passive range is
    /// closed without touching the switchboard; one to a passive port goes to
    /// the session whose live reservation it matches, and that reservation is
    /// released, or else it is closed. A port request reserves a port keyed
    /// by the control connection's source address and answers 227 with it,
    /// or 425 when the range is exhausted. A release frees the bound data
    /// connection's port.
    pub fn step(&mut self, msg: RouterMsg, now: u64) -> (r: RouterAction)
        requires
            old(self).board@.wf(),
            msg_ok(msg),
        ensures
            final(self).config == old(self).config,
            final(self).board@.wf(),
            match msg {
                RouterMsg::HeaderReceived(c) => {
                    let port = c.destination.port;
                    if port == old(self).config.control_port {
                        r is SpawnControlLoop && final(self).board@ == old(self).board@
                    } else if !old(self).board@.in_range(port as int) {
                        r is Close && final(self).board@ == old(self).board@
                    } else {
                        match old(self).board@.lookup(c.source.ip, port, now) {
                            Some(s) => {
                                &&& r == (RouterAction::HandToDataHandler { session: s })
                                &&& final(self).board@ == old(self).board@.release(c.source.ip, port)
                            },
                            None => r is Close && final(self).board@ == old(self).board@,
                        }
                    }
                },
                RouterMsg::AssignPort { session, control: None } => {
                    r is Nothing && final(self).board@ == old(self).board@
                },
                RouterMsg::AssignPort { session, control: Some(c) } => {
                    let (b1, res) = old(self).board@.reserve(session, c.source.ip, now);
                    &&& final(self).board@ == b1
                    &&& r matches RouterAction::SendReply { session: s, reply } && s == session && reply@ == match res {
                        Ok(p) => (
                            ReplyCode::EnteringPassiveMode,
                            pasv_message(advertised_host(old(self).config.passive_host, c), p),
                        ),
                        Err(_) => (ReplyCode::CantOpenDataConnection, local_error_text()),
                    }
                },
                RouterMsg::ReleasePort { active: None } => {
                    r is Nothing && final(self).board@ == old(self).board@
                },
                RouterMsg::ReleasePort { active: Some(c) } => {
                    &&& r is Nothing
                    &&& final(self).board@ == old(self).board@.release(c.source.ip, c.destination.port)
                },
            },
    {
        match msg {
            RouterMsg::HeaderReceived(c) => {
                let port = c.destination.port;
                if port == self.config.control_port {
                    RouterAction::SpawnControlLoop
                } else if !self.board.in_range(port) {
                    RouterAction::Close
                } else {
                    match self.board.match_connection(&c, now) {
                        Some(s) => {
                            self.board.release_connection(&c);
                            RouterAction::HandToDataHandler { session: s }
                        },
                        None => RouterAction::Close,
                    }
                }
            },
            RouterMsg::AssignPort { session, control: None } => RouterAction::Nothing,
            RouterMsg::AssignPort { session, control: Some(c) } => {
                let host = self.advertised(&c);
                let reply = match self.board.reserve(session, c.source.ip, now) {
                    Ok(p) => make_pasv_reply(host, p),
                    Err(_) => Reply::new(ReplyCode::CantOpenDataConnection, "Local error"),
                };
                RouterAction::SendReply { session, reply }
            },
            RouterMsg::ReleasePort { active: None } => RouterAction::Nothing,
            RouterMsg::ReleasePort { active: Some(c) } => {
                self.board.release_connection(&c);
                RouterAction::Nothing
            },
        }
    }
}

} // verus!
