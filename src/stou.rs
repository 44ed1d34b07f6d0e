use vstd::prelude::*;

use crate::reply::{Reply, ReplyCode};
use crate::session::{DataChanCmd, Session, SessionView};
use crate::text::{chars_of, push_str, string_from_chars};

verus! {

pub open spec fn is_lower_hex_digit(c: char) -> bool {
    (48 <= c as u32 && c as u32 <= 57) || (97 <= c as u32 && c as u32 <= 102)
}

/// A UUID in its hyphenated lower-case text form, 8-4-4-4-12 hex digits.
pub open spec fn is_uuid_text(s: Seq<char>) -> bool {
    &&& s.len() == 36
    &&& forall|i: int|
        0 <= i < 36 ==> if i == 8 || i == 13 || i == 18 || i == 23 {
            s[i] == '-'
        } else {
            is_lower_hex_digit(#[trigger] s[i])
        }
}

/// Relies on uuid's `Uuid::new_v4` and its `Display`, which writes the
/// hyphenated lower-case form: a fresh random name.
#[verifier::external_body]
fn fresh_unique_name() -> (r: String)
    ensures
        is_uuid_text(r@),
{
    uuid::Uuid::new_v4().to_string()
}

/// `name` joined onto the directory `dir`, as a Unix path: an absolute name
/// replaces the directory, and one separator stands between the two.
pub open spec fn join_path(dir: Seq<char>, name: Seq<char>) -> Seq<char> {
    if name.len() > 0 && name[0] == '/' {
        name
    } else if dir.len() == 0 || dir.last() == '/' {
        dir + name
    } else {
        dir + seq!['/'] + name
    }
}

/// `name` joined onto the directory `dir`.
pub fn join_path_text(dir: &str, name: &str) -> (r: String)
    ensures
        r@ == join_path(dir@, name@),
{
    let name_chars = chars_of(name);
    if name_chars.len() > 0 && name_chars[0] == '/' {
        return string_from_chars(name_chars);
    }
    let mut out = chars_of(dir);
    if out.len() > 0 && out[out.len() - 1] != '/' {
        out.push('/');
    }
    push_str(&mut out, name);
    proof {
        assert(out@ =~= join_path(dir@, name@));
    }
    string_from_chars(out)
}

/// A data command for the data handler, and the sender that carries it.
pub struct Dispatch<T> {
    pub sender: T,
    pub command: DataChanCmd,
}

impl<T> View for Dispatch<T> {
    /// The sender, and the path to store at.
    type V = (T, Seq<char>);

    open spec fn view(&self) -> (T, Seq<char>) {
        match self.command {
            DataChanCmd::StoreAtPath { path } => (self.sender, path@),
        }
    }
}

/// What the store-unique command answers, and what it hands to the data
/// handler, if anything.
pub struct StouOutcome<T> {
    pub reply: Reply,
    pub dispatch: Option<Dispatch<T>>,
}

impl<T> View for StouOutcome<T> {
    type V = ((ReplyCode, Seq<char>), Option<(T, Seq<char>)>);

    open spec fn view(&self) -> ((ReplyCode, Seq<char>), Option<(T, Seq<char>)>) {
        (
            self.reply@,
            match self.dispatch {
                Some(d) => Some(d@),
                None => None,
            },
        )
    }
}

pub open spec fn no_data_connection_text() -> Seq<char> {
    "No data connection established"@
}

/// The store-unique command on a session, with `name` as the chosen name:
/// the session afterwards, the reply, and the store request handed to the
/// data handler. An armed slot is emptied and its sender carries a store at
/// the name joined onto the working directory, answered 150 with the name;
/// an empty slot gives 425 and changes nothing.
pub open spec fn stou_step<T>(s: SessionView<T>, name: Seq<char>) -> (
    SessionView<T>,
    ((ReplyCode, Seq<char>), Option<(T, Seq<char>)>),
) {
    match s.data_slot {
        None => (s, ((ReplyCode::CantOpenDataConnection, no_data_connection_text()), None)),
        Some(tx) => (
            SessionView { data_slot: None, ..s },
            ((ReplyCode::FileStatusOkay, name), Some((tx, join_path(s.cwd, name)))),
        ),
    }
}

/// The store-unique command: the server chooses the file's name.
#[derive(Clone, Copy, Debug)]
pub struct Stou;

impl Stou {
    /// Stores under `name` in the session's directory, as `stou_step` says.
    pub fn handle_with_name<T>(&self, session: &mut Session<T>, name: String) -> (r: StouOutcome<T>)
        ensures
            (final(session)@, r@) == stou_step(old(session)@, name@),
    {
        match session.data_slot.take() {
            Some(tx) => {
                let path = join_path_text(session.cwd.as_str(), name.as_str());
                StouOutcome {
                    reply: Reply::new_with_string(ReplyCode::FileStatusOkay, name),
                    dispatch: Some(Dispatch { sender: tx, command: DataChanCmd::StoreAtPath { path } }),
                }
            },
            None => StouOutcome {
                reply: Reply::new(ReplyCode::CantOpenDataConnection, "No data connection established"),
                dispatch: None,
            },
        }
    }

    /// Handles the command under a freshly generated UUID as the name.
    pub fn handle<T>(&self, session: &mut Session<T>) -> (r: StouOutcome<T>)
        ensures
            exists|name: Seq<char>|
                is_uuid_text(name) && (final(session)@, r@) == stou_step(old(session)@, name),
    {
        let name = fresh_unique_name();
        let r = self.handle_with_name(session, name);
        assert(is_uuid_text(name@));
        r
    }
}

/// With an empty data slot the command answers that no data connection is
/// established, hands nothing to the data handler, and leaves the session
/// as it was.
pub proof fn lemma_stou_without_data_connection<T>(s: SessionView<T>, name: Seq<char>)
    requires
        s.data_slot is None,
    ensures
        stou_step(s, name) == (s, ((ReplyCode::CantOpenDataConnection, no_data_connection_text()), None::<(T, Seq<char>)>)),
{
}

/// With an armed slot the command answers with the chosen name, hands
/// exactly one store at the name joined onto the working directory to the
/// slot's sender, and empties the slot, so that a second invocation behaves
/// as with an empty slot.
pub proof fn lemma_stou_slot_is_one_shot<T>(s: SessionView<T>, name: Seq<char>, second_name: Seq<char>)
    requires
        s.data_slot is Some,
    ensures
        ({
            let (s1, (reply1, dispatch1)) = stou_step(s, name);
            let (s2, (reply2, dispatch2)) = stou_step(s1, second_name);
            &&& reply1 == (ReplyCode::FileStatusOkay, name)
            &&& dispatch1 == Some((s.data_slot->Some_0, join_path(s.cwd, name)))
            &&& s1.data_slot is None
            &&& s1.cwd == s.cwd
            &&& reply2 == (ReplyCode::CantOpenDataConnection, no_data_connection_text())
            &&& dispatch2 is None
            &&& s2 == s1
        }),
{
}

} // verus!
