//! The key-value store behind the Redis-like server, and how it answers the
//! commands decoded from request frames.
use vstd::prelude::*;
use crate::bytes_util::append_bytes;
use crate::resp::RespFrame;

verus! {

/// A command the server acts on.
#[derive(Debug)]
pub enum ServerCommand {
    /// Read the value stored under `key`.
    Get { key: String },
    /// Store `value` under `key`.
    Put { key: String, value: Vec<u8> },
    /// Any other command; its description.
    Other { description: String },
}

/// A command, over the views of its fields.
pub enum CommandModel {
    Get(Seq<char>),
    Put(Seq<char>, Seq<u8>),
    /// Any other command, with its description.
    Other(Seq<char>),
}

/// The answer to a command, over the views of its fields.
pub enum ReplyModel {
    /// `+OK`.
    Done,
    /// A bulk frame holding a stored value.
    Value(Seq<u8>),
    /// The null frame.
    Nil,
}

impl ServerCommand {
    /// The command over the views of its fields.
    pub open spec fn model(&self) -> CommandModel {
        match self {
            ServerCommand::Get { key } => CommandModel::Get(key@),
            ServerCommand::Put { key, value } => CommandModel::Put(key@, value@),
            ServerCommand::Other { description } => CommandModel::Other(description@),
        }
    }
}

/// A frame stands for a reply.
pub open spec fn frame_is_reply(frame: RespFrame, reply: ReplyModel) -> bool {
    match reply {
        ReplyModel::Done => frame matches RespFrame::Simple(s) && s@ == seq!['O', 'K'],
        ReplyModel::Value(v) => frame matches RespFrame::Bulk(b) && b@ == v,
        ReplyModel::Nil => frame is Null,
    }
}

/// How a store answers a command: its contents afterwards and its reply. `SET`
/// stores and answers `OK`; `GET` answers the stored value or null; anything else
/// is answered with null.
pub open spec fn apply_command(store: Map<Seq<char>, Seq<u8>>, cmd: CommandModel) -> (
    Map<Seq<char>, Seq<u8>>,
    ReplyModel,
) {
    match cmd {
        CommandModel::Put(k, v) => (store.insert(k, v), ReplyModel::Done),
        CommandModel::Get(k) => (
            store,
            if store.contains_key(k) {
                ReplyModel::Value(store[k])
            } else {
                ReplyModel::Nil
            },
        ),
        CommandModel::Other(_) => (store, ReplyModel::Nil),
    }
}

// ---------------------------------------------------------------------------
// Decoding commands with mini-redis
// ---------------------------------------------------------------------------

/// What `mini_redis::Command::from_frame` makes of a frame: a `GET` or `SET` with
/// its key and value, another command described by its `Debug` text, or the
/// parser's message.
pub uninterp spec fn command_of_frame(frame: RespFrame) -> Result<ServerCommand, Seq<char>>;

/// Converts the library's frame into a frame of mini-redis, variant by variant.
#[verifier::external_body]
fn mini_redis_from_resp(frame: &RespFrame) -> mini_redis::Frame {
    match frame {
        RespFrame::Simple(s) => mini_redis::Frame::Simple(s.clone()),
        RespFrame::Error(s) => mini_redis::Frame::Error(s.clone()),
        RespFrame::Integer(n) => mini_redis::Frame::Integer(*n),
        RespFrame::Bulk(b) => mini_redis::Frame::Bulk(bytes::Bytes::copy_from_slice(b)),
        RespFrame::Null => mini_redis::Frame::Null,
        RespFrame::Array(v) => mini_redis::Frame::Array(v.iter().map(mini_redis_from_resp).collect()),
    }
}

/// `mini_redis::Command::from_frame`, with `GET` and `SET` carried over with their
/// key and value (the expiry of a `SET` is dropped), any other command described by
/// its `Debug` text, and an error by its message.
#[verifier::external_body]
fn command_from_frame(frame: &RespFrame) -> (r: Result<ServerCommand, String>)
    ensures
        match r {
            Ok(c) => command_of_frame(*frame) == Ok::<ServerCommand, Seq<char>>(c),
            Err(m) => command_of_frame(*frame) == Err::<ServerCommand, Seq<char>>(m@),
        },
{
    match mini_redis::Command::from_frame(mini_redis_from_resp(frame)) {
        Ok(mini_redis::Command::Get(cmd)) => Ok(ServerCommand::Get { key: cmd.key().to_string() }),
        Ok(mini_redis::Command::Set(cmd)) => Ok(
            ServerCommand::Put { key: cmd.key().to_string(), value: cmd.value().to_vec() },
        ),
        Ok(cmd) => Ok(ServerCommand::Other { description: format!("{:?}", cmd) }),
        Err(e) => Err(e.to_string()),
    }
}

/// Decodes a request frame into a command, as `mini_redis::Command::from_frame` does.
pub fn decode_command(frame: &RespFrame) -> (r: Result<ServerCommand, String>)
    ensures
        match r {
            Ok(c) => command_of_frame(*frame) == Ok::<ServerCommand, Seq<char>>(c),
            Err(m) => command_of_frame(*frame) == Err::<ServerCommand, Seq<char>>(m@),
        },
{
    command_from_frame(frame)
}

// ---------------------------------------------------------------------------
// The store
// ---------------------------------------------------------------------------

/// A map from string keys to byte values, each key stored once.
pub struct Db {
    entries: Vec<(String, Vec<u8>)>,
}

impl View for Db {
    type V = Map<Seq<char>, Seq<u8>>;

    closed spec fn view(&self) -> Map<Seq<char>, Seq<u8>> {
        Map::new(
            |k: Seq<char>| exists|i: int| 0 <= i < self.entries@.len() && self.entries@[i].0@ == k,
            |k: Seq<char>|
                self.entries@[choose|i: int|
                    0 <= i < self.entries@.len() && self.entries@[i].0@ == k].1@,
        )
    }
}

/// A copy of the bytes of `v`.
fn copy_bytes(v: &Vec<u8>) -> (r: Vec<u8>)
    ensures
        r@ == v@,
{
    let mut out: Vec<u8> = Vec::new();
    append_bytes(&mut out, v.as_slice());
    out
}

impl Db {
    /// No key is stored twice.
    pub closed spec fn wf(&self) -> bool {
        forall|i: int, j: int|
            0 <= i < j < self.entries@.len() ==> #[trigger] self.entries@[i].0@
                != #[trigger] self.entries@[j].0@
    }

    /// An empty store.
    pub fn new() -> (r: Self)
        ensures
            r.wf(),
            r@ == Map::<Seq<char>, Seq<u8>>::empty(),
    {
        let r = Db { entries: Vec::new() };
        assert(r@ =~= Map::<Seq<char>, Seq<u8>>::empty());
        r
    }

    /// The index of the entry for `key`, if there is one.
    fn find(&self, key: &String) -> (r: Option<usize>)
        requires
            self.wf(),
        ensures
            match r {
                Some(i) => i < self.entries@.len() && self.entries@[i as int].0@ == key@,
                None => forall|i: int|
                    0 <= i < self.entries@.len() ==> self.entries@[i].0@ != key@,
            },
    {
        let mut i: usize = 0;
        while i < self.entries.len()
            invariant
                i <= self.entries@.len(),
                forall|j: int| 0 <= j < i ==> self.entries@[j].0@ != key@,
            decreases self.entries@.len() - i,
        {
            if self.entries[i].0 == *key {
                return Some(i);
            }
            i = i + 1;
        }
        None
    }

    proof fn lemma_lookup(&self, i: int)
        requires
            self.wf(),
            0 <= i < self.entries@.len(),
        ensures
            self@.contains_key(self.entries@[i].0@),
            self@[self.entries@[i].0@] == self.entries@[i].1@,
    {
        let k = self.entries@[i].0@;
        assert(exists|j: int| 0 <= j < self.entries@.len() && self.entries@[j].0@ == k);
        let c = choose|j: int| 0 <= j < self.entries@.len() && self.entries@[j].0@ == k;
        assert(c == i);
    }

    /// The value stored under `key`, if any.
    pub fn get(&self, key: &String) -> (r: Option<Vec<u8>>)
        requires
            self.wf(),
        ensures
            match r {
                Some(v) => self@.contains_key(key@) && v@ == self@[key@],
                None => !self@.contains_key(key@),
            },
    {
        match self.find(key) {
            Some(i) => {
                proof {
                    self.lemma_lookup(i as int);
                }
                Some(copy_bytes(&self.entries[i].1))
            },
            None => None,
        }
    }

    /// Stores `value` under `key`, replacing what was there.
    pub fn insert(&mut self, key: String, value: Vec<u8>)
        requires
            old(self).wf(),
        ensures
            final(self).wf(),
            final(self)@ == old(self)@.insert(key@, value@),
    {
        let ghost k = key@;
        let ghost v = value@;
        match self.find(&key) {
            Some(i) => {
                self.entries.set(i, (key, value));
                proof {
                    assert forall|a: int, b: int|
                        0 <= a < b < self.entries@.len() implies #[trigger] self.entries@[a].0@
                        != #[trigger] self.entries@[b].0@ by {
                        assert(old(self).entries@[a].0@ != old(self).entries@[b].0@);
                    }
                    self.lemma_view_after_update(*old(self), i as int, k, v);
                }
            },
            None => {
                self.entries.push((key, value));
                proof {
                    let n = old(self).entries@.len() as int;
                    assert forall|a: int, b: int|
                        0 <= a < b < self.entries@.len() implies #[trigger] self.entries@[a].0@
                        != #[trigger] self.entries@[b].0@ by {
                        if b < n {
                            assert(old(self).entries@[a].0@ != old(self).entries@[b].0@);
                        } else {
                            assert(self.entries@[a] == old(self).entries@[a]);
                        }
                    }
                    self.lemma_view_after_update(*old(self), n, k, v);
                }
            },
        }
    }

    /// After the entry at `i` of `before` becomes `(k, v)` (or `(k, v)` is appended
    /// when `i` is its length), with keys still distinct, the view gains `k -> v`.
    proof fn lemma_view_after_update(&self, before: Db, i: int, k: Seq<char>, v: Seq<u8>)
        requires
            self.wf(),
            before.wf(),
            0 <= i <= before.entries@.len(),
            i < before.entries@.len() ==> before.entries@[i].0@ == k,
            i == before.entries@.len() ==> forall|j: int|
                0 <= j < before.entries@.len() ==> before.entries@[j].0@ != k,
            self.entries@.len() == if i < before.entries@.len() {
                before.entries@.len()
            } else {
                before.entries@.len() + 1
            },
            self.entries@[i].0@ == k,
            self.entries@[i].1@ == v,
            forall|j: int|
                0 <= j < before.entries@.len() && j != i ==> self.entries@[j]
                    == before.entries@[j],
        ensures
            self@ == before@.insert(k, v),
    {
        self.lemma_lookup(i);
        assert forall|key: Seq<char>| #[trigger] self@.contains_key(key) <==> before@.insert(
            k,
            v,
        ).contains_key(key) by {
            if key != k {
                if self@.contains_key(key) {
                    let j = choose|j: int|
                        0 <= j < self.entries@.len() && self.entries@[j].0@ == key;
                    assert(j != i);
                    assert(before.entries@[j].0@ == key);
                }
                if before@.contains_key(key) {
                    let j = choose|j: int|
                        0 <= j < before.entries@.len() && before.entries@[j].0@ == key;
                    assert(j != i);
                    assert(self.entries@[j].0@ == key);
                }
            }
        }
        assert forall|key: Seq<char>| #[trigger] self@.contains_key(key) implies self@[key]
            == before@.insert(k, v)[key] by {
            if key != k {
                let j = choose|j: int|
                    0 <= j < self.entries@.len() && self.entries@[j].0@ == key;
                assert(j != i);
                self.lemma_lookup(j);
                before.lemma_lookup(j);
            }
        }
        assert(self@ =~= before@.insert(k, v));
    }

    /// Answers one command: `SET` stores and answers `+OK`, `GET` answers the stored
    /// value as a bulk frame or the null frame, anything else the null frame.
    pub fn apply(&mut self, cmd: ServerCommand) -> (r: RespFrame)
        requires
            old(self).wf(),
        ensures
            final(self).wf(),
            final(self)@ == apply_command(old(self)@, cmd.model()).0,
            frame_is_reply(r, apply_command(old(self)@, cmd.model()).1),
            match cmd {
                ServerCommand::Put { key, value } => {
                    &&& final(self)@ == old(self)@.insert(key@, value@)
                    &&& r matches RespFrame::Simple(s) && s@ == seq!['O', 'K']
                },
                ServerCommand::Get { key } => {
                    &&& final(self)@ == old(self)@
                    &&& if old(self)@.contains_key(key@) {
                        r matches RespFrame::Bulk(b) && b@ == old(self)@[key@]
                    } else {
                        r is Null
                    }
                },
                ServerCommand::Other { .. } => final(self)@ == old(self)@ && r is Null,
            },
    {
        match cmd {
            ServerCommand::Put { key, value } => {
                self.insert(key, value);
                let ok = String::from_str("OK");
                proof {
                    reveal_strlit("OK");
                    assert(ok@ =~= seq!['O', 'K']);
                }
                RespFrame::Simple(ok)
            },
            ServerCommand::Get { key } => {
                match self.get(&key) {
                    Some(v) => RespFrame::Bulk(v),
                    None => RespFrame::Null,
                }
            },
            ServerCommand::Other { .. } => RespFrame::Null,
        }
    }

    /// Decodes a request frame into a command and answers it; a frame that is not a
    /// command yields the decoder's message and leaves the store as it was.
    pub fn process_frame(&mut self, frame: &RespFrame) -> (r: Result<RespFrame, String>)
        requires
            old(self).wf(),
        ensures
            final(self).wf(),
            match command_of_frame(*frame) {
                Ok(cmd) => r matches Ok(reply) && final(self)@ == apply_command(
                    old(self)@,
                    cmd.model(),
                ).0 && frame_is_reply(reply, apply_command(old(self)@, cmd.model()).1),
                Err(m) => r matches Err(m2) && m2@ == m && final(self)@ == old(self)@,
            },
            command_of_frame(*frame) matches Ok(ServerCommand::Put { key, value }) ==> {
                &&& final(self)@ == old(self)@.insert(key@, value@)
                &&& r matches Ok(RespFrame::Simple(s)) && s@ == seq!['O', 'K']
            },
    {
        match decode_command(frame) {
            Ok(cmd) => Ok(self.apply(cmd)),
            Err(m) => Err(m),
        }
    }
}

/// After `SET key value`, a `GET` of the same key answers that value, and a `GET`
/// of any other key answers what it answered before.
pub proof fn lemma_get_after_set(
    store: Map<Seq<char>, Seq<u8>>,
    key: Seq<char>,
    value: Seq<u8>,
    other: Seq<char>,
)
    requires
        other != key,
    ensures
        ({
            let after = apply_command(store, CommandModel::Put(key, value)).0;
            &&& apply_command(after, CommandModel::Get(key)).1 == ReplyModel::Value(value)
            &&& apply_command(after, CommandModel::Get(other)).1 == apply_command(
                store,
                CommandModel::Get(other),
            ).1
        }),
{
}

/// `SET` always stores its value and answers `OK`, whatever the store held before,
/// including the same value under the same key.
pub proof fn lemma_set_answers_ok(store: Map<Seq<char>, Seq<u8>>, key: Seq<char>, value: Seq<u8>)
    ensures
        apply_command(store, CommandModel::Put(key, value)) == (
            store.insert(key, value),
            ReplyModel::Done,
        ),
{
}

/// `GET` answers the value stored under its key, or null when there is none; any
/// other command answers null.
pub proof fn lemma_read_replies(
    store: Map<Seq<char>, Seq<u8>>,
    key: Seq<char>,
    description: Seq<char>,
)
    ensures
        store.contains_key(key) ==> apply_command(store, CommandModel::Get(key)).1
            == ReplyModel::Value(store[key]),
        !store.contains_key(key) ==> apply_command(store, CommandModel::Get(key)).1
            == ReplyModel::Nil,
        apply_command(store, CommandModel::Other(description)).1 == ReplyModel::Nil,
{
}

/// `GET` and unknown commands leave the store as it was.
pub proof fn lemma_reads_do_not_write(
    store: Map<Seq<char>, Seq<u8>>,
    key: Seq<char>,
    description: Seq<char>,
)
    ensures
        apply_command(store, CommandModel::Get(key)).0 == store,
        apply_command(store, CommandModel::Other(description)).0 == store,
{
}

/// A second `SET` of a key overrides the first.
pub proof fn lemma_last_set_wins(
    store: Map<Seq<char>, Seq<u8>>,
    key: Seq<char>,
    first: Seq<u8>,
    second: Seq<u8>,
)
    ensures
        apply_command(
            apply_command(apply_command(store, CommandModel::Put(key, first)).0, CommandModel::Put(key, second)).0,
            CommandModel::Get(key),
        ).1 == ReplyModel::Value(second),
{
}

/// A store answering a run of commands in order: its contents afterwards and one
/// reply per command.
pub open spec fn answer_run(store: Map<Seq<char>, Seq<u8>>, cmds: Seq<CommandModel>) -> (
    Map<Seq<char>, Seq<u8>>,
    Seq<ReplyModel>,
)
    decreases cmds.len(),
{
    if cmds.len() == 0 {
        (store, Seq::empty())
    } else {
        let (before, replies) = answer_run(store, cmds.drop_last());
        let (after, reply) = apply_command(before, cmds.last());
        (after, replies.push(reply))
    }
}

/// A run of commands is answered one reply per command, in order: the `i`-th reply
/// is what the store, after the first `i` commands, answers to the `i`-th.
pub proof fn lemma_answer_run_in_order(
    store: Map<Seq<char>, Seq<u8>>,
    cmds: Seq<CommandModel>,
    i: int,
)
    requires
        0 <= i < cmds.len(),
    ensures
        answer_run(store, cmds).1.len() == cmds.len(),
        answer_run(store, cmds).1[i] == apply_command(
            answer_run(store, cmds.subrange(0, i)).0,
            cmds[i],
        ).1,
    decreases cmds.len(),
{
    lemma_answer_run_len(store, cmds);
    let init = cmds.drop_last();
    if i == cmds.len() - 1 {
        assert(cmds.subrange(0, i) =~= init);
    } else {
        lemma_answer_run_in_order(store, init, i);
        assert(init.subrange(0, i) =~= cmds.subrange(0, i));
        lemma_answer_run_len(store, init);
    }
}

proof fn lemma_answer_run_len(store: Map<Seq<char>, Seq<u8>>, cmds: Seq<CommandModel>)
    ensures
        answer_run(store, cmds).1.len() == cmds.len(),
    decreases cmds.len(),
{
    if cmds.len() > 0 {
        lemma_answer_run_len(store, cmds.drop_last());
    }
}

} // verus!
