use vstd::prelude::*;
use crate::history::MessageView;
use crate::registry::ConnectionRegistry;

verus! {

/// A room as the room list shows it.
pub struct ChatView {
    pub id: i64,
    pub name: String,
}

/// The start page: who is signed in and the rooms they belong to.
pub struct IndexTemplate<'a> {
    pub username: &'a str,
    pub chats: Vec<ChatView>,
}

/// A room page: who is signed in, the room's history oldest first, and the
/// rooms they belong to.
pub struct ChatTemplate<'a> {
    pub username: &'a str,
    pub messages: Vec<MessageView>,
    pub chats: Vec<ChatView>,
}

/// The status report.
pub struct StatusResponse {
    pub connected_clients: usize,
}

/// The body of a request that creates a room.
pub struct NewChatPayload {
    pub chat_name: String,
}

/// The sign-in form.
pub struct AuthForm {
    pub username: String,
    pub password: String,
}

/// The room list entries for `(id, name)` pairs, in the same order.
pub fn chat_views(chats: Vec<(i64, String)>) -> (r: Vec<ChatView>)
    ensures
        r@.len() == chats@.len(),
        forall|j: int| 0 <= j < r@.len() ==> {
            &&& (#[trigger] r@[j]).id == chats@[j].0
            &&& r@[j].name == chats@[j].1
        },
{
    let mut r: Vec<ChatView> = Vec::new();
    let mut k: usize = 0;
    while k < chats.len()
        invariant
            k <= chats@.len(),
            r@.len() == k,
            forall|j: int| 0 <= j < k ==> {
                &&& (#[trigger] r@[j]).id == chats@[j].0
                &&& r@[j].name == chats@[j].1
            },
        decreases chats.len() - k,
    {
        let (id, name) = &chats[k];
        r.push(ChatView { id: *id, name: name.clone() });
        k = k + 1;
    }
    r
}

/// The status report: how many connections are live across all rooms.
pub fn status(registry: &ConnectionRegistry) -> (r: StatusResponse)
    ensures
        r.connected_clients == registry@.len(),
{
    StatusResponse { connected_clients: registry.count() }
}

} // verus!
