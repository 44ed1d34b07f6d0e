use vstd::prelude::*;

use crate::text::{decimal, push_decimal, push_str, string_from_chars};

verus! {

/// The FTP reply codes that this core sends.
#[derive(Clone, Copy, Debug, PartialEq, Eq, Structural)]
pub enum ReplyCode {
    /// 150: file status okay, about to open the data connection.
    FileStatusOkay,
    /// 227: entering passive mode.
    EnteringPassiveMode,
    /// 425: cannot open data connection.
    CantOpenDataConnection,
}

impl ReplyCode {
    pub open spec fn spec_number(self) -> u32 {
        match self {
            ReplyCode::FileStatusOkay => 150,
            ReplyCode::EnteringPassiveMode => 227,
            ReplyCode::CantOpenDataConnection => 425,
        }
    }

    /// The three-digit number sent on the wire.
    pub fn number(&self) -> (r: u32)
        ensures
            r == self.spec_number(),
    {
        match self {
            ReplyCode::FileStatusOkay => 150,
            ReplyCode::EnteringPassiveMode => 227,
            ReplyCode::CantOpenDataConnection => 425,
        }
    }
}

/// A reply to the client on its control channel.
#[derive(Clone, Debug)]
pub struct Reply {
    pub code: ReplyCode,
    pub message: String,
}

impl View for Reply {
    type V = (ReplyCode, Seq<char>);

    open spec fn view(&self) -> (ReplyCode, Seq<char>) {
        (self.code, self.message@)
    }
}

impl Reply {
    pub fn new(code: ReplyCode, message: &str) -> (r: Reply)
        ensures
            r@ == (code, message@),
    {
        Reply { code, message: message.to_owned() }
    }

    pub fn new_with_string(code: ReplyCode, message: String) -> (r: Reply)
        ensures
            r@ == (code, message@),
    {
        Reply { code, message }
    }
}

/// The host octets and the port, big-endian, as a passive-mode reply lists
/// them: `(h1,h2,h3,h4,high,low)`.
pub open spec fn pasv_address(host: (u8, u8, u8, u8), port: u16) -> Seq<char> {
    "("@ + decimal(host.0 as nat) + ","@ + decimal(host.1 as nat) + ","@ + decimal(host.2 as nat) + ","@
        + decimal(host.3 as nat) + ","@ + decimal((port / 256) as nat) + ","@ + decimal((port % 256) as nat)
        + ")"@
}

pub open spec fn pasv_message(host: (u8, u8, u8, u8), port: u16) -> Seq<char> {
    "Entering Passive Mode "@ + pasv_address(host, port)
}

/// The text of the passive-mode reply that advertises `host` and `port`.
pub fn pasv_text(host: (u8, u8, u8, u8), port: u16) -> (r: String)
    ensures
        r@ == pasv_message(host, port),
{
    let mut out: Vec<char> = Vec::new();
    push_str(&mut out, "Entering Passive Mode (");
    push_decimal(&mut out, host.0);
    push_str(&mut out, ",");
    push_decimal(&mut out, host.1);
    push_str(&mut out, ",");
    push_decimal(&mut out, host.2);
    push_str(&mut out, ",");
    push_decimal(&mut out, host.3);
    push_str(&mut out, ",");
    push_decimal(&mut out, (port / 256) as u8);
    push_str(&mut out, ",");
    push_decimal(&mut out, (port % 256) as u8);
    push_str(&mut out, ")");
    proof {
        reveal_strlit("Entering Passive Mode (");
        reveal_strlit("Entering Passive Mode ");
        reveal_strlit("(");
        reveal_strlit(",");
        reveal_strlit(")");
        assert(out@ =~= pasv_message(host, port));
    }
    string_from_chars(out)
}

/// The 227 reply that tells the client where to open its data connection.
pub fn make_pasv_reply(host: (u8, u8, u8, u8), port: u16) -> (r: Reply)
    ensures
        r@ == (ReplyCode::EnteringPassiveMode, pasv_message(host, port)),
{
    Reply::new_with_string(ReplyCode::EnteringPassiveMode, pasv_text(host, port))
}

} // verus!
