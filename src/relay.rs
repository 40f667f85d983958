use vstd::prelude::*;
use tokio::sync::mpsc::UnboundedSender;
use uuid::Uuid;
use crate::registry::{ConnectionRegistry, Delivery};

verus! {

/// The ways a request or a message can fail.
#[derive(Clone, Copy, Debug, PartialEq, Eq, Structural)]
pub enum ChatError {
    /// No session, or one that is unknown or expired.
    Unauthenticated,
    /// A valid user who is not a member of the room.
    Forbidden,
    /// The store could not be read or written.
    Persistence,
    /// The peer went away or a frame could not be written.
    Transport,
}

/// The identity behind a valid session.
pub struct AuthenticatedUser {
    pub user_id: i64,
    pub username: String,
}

/// The text that the other members of a room receive for a message.
pub open spec fn payload_text(sender: Seq<char>, text: Seq<char>) -> Seq<char> {
    sender + seq![':', ' '] + text
}

/// `"{sender}: {text}"`.
pub fn format_payload(sender: &str, text: &str) -> (r: String)
    ensures
        r@ == payload_text(sender@, text@),
{
    let mut r = String::from_str(sender);
    r.append(": ");
    proof {
        reveal_strlit(": ");
    }
    r.append(text);
    r
}

/// The outcome of an upgrade request, given what the session lookup and the
/// membership lookup returned.
pub open spec fn upgrade_outcome(
    session: Option<AuthenticatedUser>,
    membership: Result<bool, ChatError>,
) -> Result<AuthenticatedUser, ChatError> {
    match session {
        None => Err(ChatError::Unauthenticated),
        Some(u) => match membership {
            Ok(true) => Ok(u),
            Ok(false) => Err(ChatError::Forbidden),
            Err(_) => Err(ChatError::Persistence),
        },
    }
}

/// What opening a connection in `room` with `grant` did: `r` is the new
/// connection's id, which was not live before, and `after` is `before` with
/// it added; or nothing was opened and nothing changed. A refused grant
/// opens nothing.
pub open spec fn opened(
    before: ConnectionRegistry,
    after: ConnectionRegistry,
    room: i64,
    grant: Result<AuthenticatedUser, ChatError>,
    r: Option<u128>,
) -> bool {
    &&& grant.is_err() ==> r.is_none()
    &&& match r {
        Some(id) => {
            &&& !before.has(id)
            &&& before.after_register(&after, id, room)
            &&& after@.len() == before@.len() + 1
        },
        None => after == before,
    }
}

/// Decides a connection upgrade from the session lookup and the membership
/// lookup. Only a member with a valid session gets through.
pub fn authorize_upgrade(
    session: Option<AuthenticatedUser>,
    membership: Result<bool, ChatError>,
) -> (r: Result<AuthenticatedUser, ChatError>)
    ensures
        r == upgrade_outcome(session, membership),
{
    match session {
        None => Err(ChatError::Unauthenticated),
        Some(u) => match membership {
            Ok(true) => Ok(u),
            Ok(false) => Err(ChatError::Forbidden),
            Err(_) => Err(ChatError::Persistence),
        },
    }
}

/// Relies on uuid's `Uuid::new_v4` read as a `u128`: a random
/// connection id. Nothing is known of its value.
#[verifier::external_body]
fn random_connection_id() -> (id: u128) {
    Uuid::new_v4().as_u128()
}

/// Registers a new connection in `room` under a freshly drawn id when the
/// upgrade was granted, and leaves the registry untouched when it was
/// refused. A drawn id that is already live is not reused: the connection
/// is then refused too.
pub fn open_connection(
    registry: &mut ConnectionRegistry,
    room: i64,
    grant: &Result<AuthenticatedUser, ChatError>,
    outbound: UnboundedSender<String>,
) -> (r: Option<u128>)
    requires
        old(registry).wf(),
    ensures
        opened(*old(registry), *final(registry), room, *grant, r),
{
    match grant {
        Ok(_) => {
            let id = random_connection_id();
            if registry.contains(id) {
                None
            } else {
                registry.register(id, room, outbound);
                Some(id)
            }
        },
        Err(_) => None,
    }
}

/// A message that was stored and handed to the room.
pub struct Relayed {
    pub message_id: i64,
    pub payload: String,
    pub deliveries: Vec<Delivery>,
}

/// Relays a text frame of connection `from` in `room`, once the store has
/// answered for it (`stored`: the new message's id, or the failure). A
/// message that was not stored reaches nobody and leaves the registry as it
/// was. A stored one is handed as `"{sender}: {text}"` to every other
/// connection of the room once, and to no other connection.
pub fn relay_message(
    registry: &mut ConnectionRegistry,
    from: u128,
    room: i64,
    sender: &str,
    text: &str,
    stored: Result<i64, ChatError>,
) -> (r: Result<Relayed, ChatError>)
    requires
        old(registry).wf(),
    ensures
        match r {
            Err(e) => {
                &&& stored == Err::<i64, ChatError>(e)
                &&& *final(registry) == *old(registry)
            },
            Ok(out) => {
                &&& stored == Ok::<i64, ChatError>(out.message_id)
                &&& out.payload@ == payload_text(sender@, text@)
                &&& old(registry).fan_out(room, from, out.deliveries@)
                &&& old(registry).handed_out(final(registry), room, from, payload_text(sender@, text@))
            },
        },
{
    match stored {
        Err(e) => Err(e),
        Ok(message_id) => {
            let payload = format_payload(sender, text);
            let deliveries = registry.broadcast(room, from, &payload);
            Ok(Relayed { message_id, payload, deliveries })
        },
    }
}

/// Removing a connection a second time, or one that was never registered,
/// leaves the registry as it was, so the count does not change.
pub proof fn deregister_is_idempotent(
    first: ConnectionRegistry,
    second: ConnectionRegistry,
    third: ConnectionRegistry,
    id: u128,
)
    requires
        first.wf(),
        first.after_deregister(&second, id),
        second.after_deregister(&third, id),
    ensures
        third@ == second@,
        third.logs() == second.logs(),
        !first.has(id) ==> second@ == first@ && second.logs() == first.logs(),
{
}

/// A signed-in member's upgrade is granted, and a connection it opens is a
/// new one of the room, which adds one to the count; a non-member's upgrade
/// is refused and leaves the registry as it was.
pub proof fn upgrade_admits_members_only(
    user: AuthenticatedUser,
    member: bool,
    room: i64,
    before: ConnectionRegistry,
    after: ConnectionRegistry,
    r: Option<u128>,
)
    requires
        before.wf(),
        opened(before, after, room, upgrade_outcome(Some(user), Ok(member)), r),
    ensures
        member ==> upgrade_outcome(Some(user), Ok(member)) == Ok::<AuthenticatedUser, ChatError>(user),
        !member ==> upgrade_outcome(Some(user), Ok(member))
            == Err::<AuthenticatedUser, ChatError>(ChatError::Forbidden),
        !member ==> r is None && after == before,
        r is Some ==> {
            &&& member
            &&& !before.has(r->Some_0)
            &&& after.holds(r->Some_0, room)
            &&& after@.len() == before@.len() + 1
        },
{
}

} // verus!
