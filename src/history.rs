use vstd::prelude::*;

verus! {

/// How many messages a room page shows.
pub const HISTORY_LIMIT: usize = 50;

/// One stored message: its id in order of insertion, its room, who sent it,
/// what it says and when it was stored (seconds).
pub struct StoredMessage {
    pub id: i64,
    pub room: i64,
    pub sender: String,
    pub text: String,
    pub timestamp: i64,
}

/// A message as a page shows it.
pub struct MessageView {
    pub username: String,
    pub text: String,
}

impl StoredMessage {
    pub fn duplicate(&self) -> (r: Self)
        ensures
            r == *self,
    {
        StoredMessage {
            id: self.id,
            room: self.room,
            sender: self.sender.clone(),
            text: self.text.clone(),
            timestamp: self.timestamp,
        }
    }
}

/// `a` comes after `b` in a room's order: a later timestamp, or the same
/// timestamp and a later id.
pub open spec fn newer(a: StoredMessage, b: StoredMessage) -> bool {
    a.timestamp > b.timestamp || (a.timestamp == b.timestamp && a.id > b.id)
}

/// No two stored messages share an id.
pub open spec fn unique_ids(rows: Seq<StoredMessage>) -> bool {
    forall|i: int, j: int| 0 <= i < j < rows.len() ==> rows[i].id != rows[j].id
}

/// Message `m` stands in `rec`.
pub open spec fn listed(rec: Seq<StoredMessage>, m: StoredMessage) -> bool {
    exists|j: int| 0 <= j < rec.len() && #[trigger] rec[j] == m
}

/// `rec` holds the `limit` newest messages of `room` among `rows` (all of
/// them if there are fewer), newest first.
pub open spec fn is_recent(rows: Seq<StoredMessage>, room: i64, limit: nat, rec: Seq<StoredMessage>) -> bool {
    &&& rec.len() <= limit
    &&& forall|j: int, k: int| 0 <= j < k < rec.len() ==> newer(rec[j], rec[k])
    &&& forall|j: int| 0 <= j < rec.len() ==> #[trigger] rec[j].room == room && rows.contains(rec[j])
    &&& forall|i: int| 0 <= i < rows.len() && #[trigger] rows[i].room == room ==> {
        ||| listed(rec, rows[i])
        ||| (rec.len() == limit && (limit == 0 || newer(rec[limit - 1], rows[i])))
    }
}

/// Newest first: the `limit` most recent messages of `room`, ordered by
/// timestamp and then by id, both descending.
pub fn recent_messages(rows: &Vec<StoredMessage>, room: i64, limit: usize) -> (r: Vec<StoredMessage>)
    requires
        unique_ids(rows@),
    ensures
        is_recent(rows@, room, limit as nat, r@),
{
    let mut r: Vec<StoredMessage> = Vec::new();
    while r.len() < limit
        invariant
            unique_ids(rows@),
            r@.len() <= limit,
            forall|j: int, k: int| 0 <= j < k < r@.len() ==> newer(r@[j], r@[k]),
            forall|j: int| 0 <= j < r@.len() ==> #[trigger] r@[j].room == room && rows@.contains(r@[j]),
            forall|i: int| 0 <= i < rows@.len() && #[trigger] rows@[i].room == room
                && (r@.len() > 0 && !newer(r@.last(), rows@[i])) ==> listed(r@, rows@[i]),
        ensures
            is_recent(rows@, room, limit as nat, r@),
        decreases limit - r@.len(),
    {
        let n = r.len();
        let mut best: Option<usize> = None;
        let mut i: usize = 0;
        while i < rows.len()
            invariant
                n == r@.len(),
                i <= rows@.len(),
                match best {
                    Some(b) => {
                        &&& b < i
                        &&& rows@[b as int].room == room
                        &&& (n == 0 || newer(r@.last(), rows@[b as int]))
                        &&& forall|k: int| 0 <= k < i && #[trigger] rows@[k].room == room
                            && (n == 0 || newer(r@.last(), rows@[k])) ==> !newer(rows@[k], rows@[b as int])
                    },
                    None => forall|k: int| 0 <= k < i && #[trigger] rows@[k].room == room
                        ==> !(n == 0 || newer(r@.last(), rows@[k])),
                },
            decreases rows.len() - i,
        {
            let row = &rows[i];
            if row.room == room {
                let candidate = n == 0 || row.timestamp < r[n - 1].timestamp
                    || (row.timestamp == r[n - 1].timestamp && row.id < r[n - 1].id);
                if candidate {
                    match best {
                        None => {
                            best = Some(i);
                        },
                        Some(b) => {
                            if row.timestamp > rows[b].timestamp
                                || (row.timestamp == rows[b].timestamp && row.id > rows[b].id) {
                                best = Some(i);
                            }
                        },
                    }
                }
            }
            i = i + 1;
        }
        match best {
            None => {
                proof {
                    assert forall|k: int| 0 <= k < rows@.len() && #[trigger] rows@[k].room == room
                        implies listed(r@, rows@[k]) by {
                        assert(n > 0 && !newer(r@.last(), rows@[k]));
                    }
                }
                break;
            },
            Some(b) => {
                let ghost old_r = r@;
                let m = rows[b].duplicate();
                r.push(m);
                proof {
                    assert(r@.last() == rows@[b as int]);
                    assert(rows@.contains(rows@[b as int]));
                    assert forall|j: int| 0 <= j < r@.len() implies #[trigger] r@[j].room == room && rows@.contains(r@[j]) by {
                        if j < n {
                            assert(r@[j] == old_r[j]);
                        }
                    }
                    assert forall|j: int, k: int| 0 <= j < k < r@.len() implies newer(r@[j], r@[k]) by {
                        if k < n {
                            assert(r@[j] == old_r[j] && r@[k] == old_r[k]);
                        } else if j < n - 1 {
                            assert(newer(old_r[j], old_r[n - 1]));
                        }
                    }
                    assert forall|i2: int| 0 <= i2 < rows@.len() && #[trigger] rows@[i2].room == room
                        && (r@.len() > 0 && !newer(r@.last(), rows@[i2])) implies listed(r@, rows@[i2]) by {
                        if i2 == b as int {
                            assert(r@[n as int] == rows@[i2]);
                        } else {
                            if b as int <= i2 {
                                assert(rows@[b as int].id != rows@[i2].id);
                            } else {
                                assert(rows@[i2].id != rows@[b as int].id);
                            }
                            if n > 0 && !newer(old_r.last(), rows@[i2]) {
                                let j = choose|j: int| 0 <= j < old_r.len() && #[trigger] old_r[j] == rows@[i2];
                                assert(r@[j] == rows@[i2]);
                            }
                        }
                    }
                }
            },
        }
    }
    r
}

/// What a room page shows: the newest `HISTORY_LIMIT` messages of `room`,
/// oldest first.
pub fn chat_history(rows: &Vec<StoredMessage>, room: i64) -> (r: Vec<StoredMessage>)
    requires
        unique_ids(rows@),
    ensures
        is_recent(rows@, room, HISTORY_LIMIT as nat, r@.reverse()),
{
    let rec = recent_messages(rows, room, HISTORY_LIMIT);
    let n = rec.len();
    let mut out: Vec<StoredMessage> = Vec::new();
    let mut k: usize = 0;
    while k < n
        invariant
            n == rec@.len(),
            k <= n,
            out@.len() == k,
            forall|j: int| 0 <= j < k ==> #[trigger] out@[j] == rec@[n - 1 - j],
        decreases n - k,
    {
        out.push(rec[n - 1 - k].duplicate());
        k = k + 1;
    }
    assert(out@.reverse() =~= rec@);
    out
}

/// The page form of each message, in the same order.
pub fn message_views(msgs: &Vec<StoredMessage>) -> (r: Vec<MessageView>)
    ensures
        r@.len() == msgs@.len(),
        forall|j: int| 0 <= j < r@.len() ==> {
            &&& (#[trigger] r@[j]).username@ == msgs@[j].sender@
            &&& r@[j].text@ == msgs@[j].text@
        },
{
    let mut r: Vec<MessageView> = Vec::new();
    let mut k: usize = 0;
    while k < msgs.len()
        invariant
            k <= msgs@.len(),
            r@.len() == k,
            forall|j: int| 0 <= j < k ==> {
                &&& (#[trigger] r@[j]).username@ == msgs@[j].sender@
                &&& r@[j].text@ == msgs@[j].text@
            },
        decreases msgs.len() - k,
    {
        let m = &msgs[k];
        r.push(MessageView { username: m.sender.clone(), text: m.text.clone() });
        k = k + 1;
    }
    r
}

/// A recent list holds at most `limit` messages with timestamps that never
/// rise; read backwards it is in chronological order, messages stored in
/// the same second following their insertion ids.
pub proof fn recent_reversed_is_chronological(
    rows: Seq<StoredMessage>,
    room: i64,
    limit: nat,
    rec: Seq<StoredMessage>,
)
    requires
        is_recent(rows, room, limit, rec),
    ensures
        rec.len() <= limit,
        forall|j: int, k: int| 0 <= j < k < rec.len() ==> rec[j].timestamp >= rec[k].timestamp,
        forall|j: int, k: int| 0 <= j < k < rec.len() ==> {
            ||| rec.reverse()[j].timestamp < rec.reverse()[k].timestamp
            ||| (rec.reverse()[j].timestamp == rec.reverse()[k].timestamp
                && rec.reverse()[j].id < rec.reverse()[k].id)
        },
{
    let n = rec.len() as int;
    assert forall|j: int, k: int| 0 <= j < k < n implies rec[j].timestamp >= rec[k].timestamp by {
        assert(newer(rec[j], rec[k]));
    }
    assert forall|j: int, k: int| 0 <= j < k < n implies {
        ||| rec.reverse()[j].timestamp < rec.reverse()[k].timestamp
        ||| (rec.reverse()[j].timestamp == rec.reverse()[k].timestamp
            && rec.reverse()[j].id < rec.reverse()[k].id)
    } by {
        assert(rec.reverse()[j] == rec[n - 1 - j]);
        assert(rec.reverse()[k] == rec[n - 1 - k]);
        assert(newer(rec[n - 1 - k], rec[n - 1 - j]));
    }
}

} // verus!
