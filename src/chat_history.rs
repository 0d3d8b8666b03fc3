use vstd::prelude::*;
use vstd::string::StrSliceExecFns;
use vstd::string::StringExecFns;

verus! {

/// What a message holds, as plain values.
pub struct MessageView {
    pub role: Seq<char>,
    pub content: Seq<char>,
    pub timestamp: i64,
}

/// One message of a conversation: who spoke, what was said, and when
/// (unix seconds).
#[derive(Debug, Clone, Default, PartialEq, Eq)]
pub struct ChatMessage {
    pub role: String,
    pub content: String,
    pub timestamp: i64,
}

impl View for ChatMessage {
    type V = MessageView;

    open spec fn view(&self) -> MessageView {
        MessageView { role: self.role@, content: self.content@, timestamp: self.timestamp }
    }
}

impl ChatMessage {
    pub fn new(role: String, content: String, timestamp: i64) -> (r: ChatMessage)
        ensures
            r@ == (MessageView { role: role@, content: content@, timestamp }),
    {
        ChatMessage { role, content, timestamp }
    }

    /// A message equal to this one.
    pub fn duplicate(&self) -> (r: ChatMessage)
        ensures
            r@ == self@,
    {
        ChatMessage { role: self.role.clone(), content: self.content.clone(), timestamp: self.timestamp }
    }
}

/// The plain values of a sequence of messages, in order.
pub open spec fn log_view(s: Seq<ChatMessage>) -> Seq<MessageView> {
    s.map_values(|m: ChatMessage| m@)
}

/// A log equal to `v`, message for message.
pub fn copy_log(v: &Vec<ChatMessage>) -> (r: Vec<ChatMessage>)
    ensures
        log_view(r@) == log_view(v@),
{
    let mut r: Vec<ChatMessage> = Vec::new();
    let n = v.len();
    for i in 0..n
        invariant
            n == v@.len(),
            r@.len() == i,
            forall|j: int| 0 <= j < i ==> r@[j]@ == v@[j]@,
    {
        r.push(v[i].duplicate());
    }
    assert(log_view(r@) =~= log_view(v@));
    r
}

/// The ordered log of one user.
#[derive(Debug, Default)]
pub struct UserHistory {
    messages: Vec<ChatMessage>,
}

impl View for UserHistory {
    type V = Seq<MessageView>;

    closed spec fn view(&self) -> Seq<MessageView> {
        log_view(self.messages@)
    }
}

impl UserHistory {
    pub fn new() -> (r: UserHistory)
        ensures
            r@ == Seq::<MessageView>::empty(),
    {
        let r = UserHistory { messages: Vec::new() };
        assert(r@ =~= Seq::<MessageView>::empty());
        r
    }

    pub fn from_messages(messages: Vec<ChatMessage>) -> (r: UserHistory)
        ensures
            r@ == log_view(messages@),
    {
        UserHistory { messages }
    }

    /// A copy of the messages, in order.
    pub fn messages(&self) -> (r: Vec<ChatMessage>)
        ensures
            log_view(r@) == self@,
    {
        copy_log(&self.messages)
    }

    pub fn len(&self) -> (r: usize)
        ensures
            r == self@.len(),
    {
        self.messages.len()
    }

    /// Appends one message at the end; nothing before it changes.
    pub fn push(&mut self, message: ChatMessage)
        ensures
            final(self)@ == old(self)@.push(message@),
    {
        self.messages.push(message);
        assert(final(self)@ =~= old(self)@.push(message@));
    }
}

/// A table of logs: user id to that user's messages.
pub type Table = Map<Seq<char>, Seq<MessageView>>;

/// The log of `user` in `t`; an unknown user has the empty log.
pub open spec fn history_of(t: Table, user: Seq<char>) -> Seq<MessageView> {
    if t.contains_key(user) {
        t[user]
    } else {
        Seq::empty()
    }
}

/// The table after `m` is appended to the log of `user`.
pub open spec fn appended(t: Table, user: Seq<char>, m: MessageView) -> Table {
    t.insert(user, history_of(t, user).push(m))
}

/// The table after the records are loaded one after the other; a later
/// record of the same user replaces an earlier one.
pub open spec fn loaded(t: Table, records: Seq<(Seq<char>, Seq<MessageView>)>) -> Table
    decreases records.len(),
{
    if records.len() == 0 {
        t
    } else {
        let last = records.last();
        loaded(t, records.drop_last()).insert(last.0, last.1)
    }
}

/// The plain values of loaded records.
pub open spec fn records_view(r: Seq<(String, Vec<ChatMessage>)>) -> Seq<(Seq<char>, Seq<MessageView>)> {
    r.map_values(|e: (String, Vec<ChatMessage>)| (e.0@, log_view(e.1@)))
}

/// The in-memory store of every user's log, and where the logs are kept
/// on disk (one record per user, rewritten in full on each append).
pub struct ChatHistoryManager {
    histories: Vec<(String, UserHistory)>,
    storage_path: String,
    table: Ghost<Table>,
}

impl View for ChatHistoryManager {
    type V = Table;

    closed spec fn view(&self) -> Table {
        self.table@
    }
}

impl ChatHistoryManager {
    /// Each user has at most one entry, and the entries are the table.
    pub closed spec fn wf(&self) -> bool {
        &&& forall|i: int, j: int|
            0 <= i < j < self.histories@.len() ==> self.histories@[i].0@ != self.histories@[j].0@
        &&& forall|i: int|
            0 <= i < self.histories@.len() ==> #[trigger] self.table@.contains_key(
                self.histories@[i].0@,
            ) && self.table@[self.histories@[i].0@] == self.histories@[i].1@
        &&& forall|k: Seq<char>|
            #[trigger] self.table@.contains_key(k) ==> exists|i: int|
                0 <= i < self.histories@.len() && self.histories@[i].0@ == k
    }

    pub closed spec fn spec_storage_path(&self) -> Seq<char> {
        self.storage_path@
    }

    /// An empty store whose records live under `storage_path`.
    pub fn new(storage_path: &str) -> (r: ChatHistoryManager)
        ensures
            r.wf(),
            r@ == Table::empty(),
            r.spec_storage_path() == storage_path@,
    {
        ChatHistoryManager {
            histories: Vec::new(),
            storage_path: String::from_str(storage_path),
            table: Ghost(Map::empty()),
        }
    }

    /// Where the records are kept.
    pub fn storage_path(&self) -> (r: String)
        ensures
            r@ == self.spec_storage_path(),
    {
        self.storage_path.clone()
    }

    /// The position of `user`'s entry, if any.
    fn find(&self, user: &String) -> (r: Option<usize>)
        requires
            self.wf(),
        ensures
            match r {
                Some(i) => i < self.histories@.len() && self.histories@[i as int].0@ == user@,
                None => !self@.contains_key(user@),
            },
    {
        let n = self.histories.len();
        for i in 0..n
            invariant
                n == self.histories@.len(),
                forall|j: int| 0 <= j < i ==> self.histories@[j].0@ != user@,
        {
            if self.histories[i].0 == *user {
                return Some(i);
            }
        }
        proof {
            if self.table@.contains_key(user@) {
                let j = choose|j: int| 0 <= j < self.histories@.len() && self.histories@[j].0@ == user@;
                assert(self.histories@[j].0@ != user@);
            }
        }
        None
    }

    /// A copy of `user_id`'s log; the empty log for a user never seen.
    pub fn get_history(&self, user_id: &str) -> (r: Vec<ChatMessage>)
        requires
            self.wf(),
        ensures
            log_view(r@) == history_of(self@, user_id@),
    {
        let key = String::from_str(user_id);
        match self.find(&key) {
            Some(i) => self.histories[i].1.messages(),
            None => {
                let r: Vec<ChatMessage> = Vec::new();
                assert(log_view(r@) =~= Seq::<MessageView>::empty());
                r
            },
        }
    }

    /// Makes `h` the log of `key`, in place of any earlier one.
    fn set_log(&mut self, key: String, h: UserHistory)
        requires
            old(self).wf(),
        ensures
            final(self).wf(),
            final(self)@ == old(self)@.insert(key@, h@),
            final(self).spec_storage_path() == old(self).spec_storage_path(),
    {
        let ghost t0 = self.table@;
        let ghost h0 = self.histories@;
        let ghost kv = key@;
        let ghost hv = h@;
        match self.find(&key) {
            Some(i) => {
                self.histories.set(i, (key, h));
                self.table = Ghost(t0.insert(kv, hv));
                assert(self.wf()) by {
                    assert forall|j: int| 0 <= j < self.histories@.len() implies #[trigger] self.table@.contains_key(
                        self.histories@[j].0@,
                    ) && self.table@[self.histories@[j].0@] == self.histories@[j].1@ by {
                        if j != i {
                            assert(self.histories@[j] == h0[j]);
                            assert(h0[j].0@ != kv);
                        }
                    }
                    assert forall|k2: Seq<char>| #[trigger] self.table@.contains_key(k2) implies exists|j: int|
                        0 <= j < self.histories@.len() && self.histories@[j].0@ == k2 by {
                        if k2 != kv {
                            assert(t0.contains_key(k2));
                            let j = choose|j: int| 0 <= j < h0.len() && h0[j].0@ == k2;
                            assert(self.histories@[j] == h0[j]);
                        } else {
                            assert(self.histories@[i as int].0@ == k2);
                        }
                    }
                }
            },
            None => {
                self.histories.push((key, h));
                self.table = Ghost(t0.insert(kv, hv));
                assert(self.wf()) by {
                    let n = self.histories@.len() - 1;
                    assert forall|k2: Seq<char>| #[trigger] self.table@.contains_key(k2) implies exists|j: int|
                        0 <= j < self.histories@.len() && self.histories@[j].0@ == k2 by {
                        if k2 != kv {
                            assert(t0.contains_key(k2));
                            let j = choose|j: int| 0 <= j < h0.len() && h0[j].0@ == k2;
                            assert(self.histories@[j] == h0[j]);
                        } else {
                            assert(self.histories@[n].0@ == k2);
                        }
                    }
                }
            },
        }
    }

    /// Appends `message` to `user_id`'s log, creating the log for a new
    /// user, and returns the whole updated log: the record to write.
    pub fn add_message(&mut self, user_id: &str, message: ChatMessage) -> (r: Vec<ChatMessage>)
        requires
            old(self).wf(),
        ensures
            final(self).wf(),
            final(self)@ == appended(old(self)@, user_id@, message@),
            log_view(r@) == final(self)@[user_id@],
            final(self).spec_storage_path() == old(self).spec_storage_path(),
    {
        let mut h = UserHistory::from_messages(self.get_history(user_id));
        h.push(message);
        let r = h.messages();
        self.set_log(String::from_str(user_id), h);
        r
    }

    /// Makes `messages` the log of `user_id`, as read from its record.
    pub fn load_record(&mut self, user_id: &str, messages: Vec<ChatMessage>)
        requires
            old(self).wf(),
        ensures
            final(self).wf(),
            final(self)@ == old(self)@.insert(user_id@, log_view(messages@)),
            final(self).spec_storage_path() == old(self).spec_storage_path(),
    {
        self.set_log(String::from_str(user_id), UserHistory::from_messages(messages));
    }

    /// Loads the records read from storage, in order: each pair is a user
    /// id and the messages of that user's record.
    pub fn load_histories(&mut self, records: Vec<(String, Vec<ChatMessage>)>)
        requires
            old(self).wf(),
        ensures
            final(self).wf(),
            final(self)@ == loaded(old(self)@, records_view(records@)),
            final(self).spec_storage_path() == old(self).spec_storage_path(),
    {
        let ghost t0 = self@;
        let n = records.len();
        for i in 0..n
            invariant
                n == records@.len(),
                self.wf(),
                self@ == loaded(t0, records_view(records@.take(i as int))),
                self.spec_storage_path() == old(self).spec_storage_path(),
        {
            let (user_id, messages) = &records[i];
            self.load_record(user_id.as_str(), copy_log(messages));
            assert(records_view(records@.take(i + 1)).drop_last() =~= records_view(records@.take(i as int)));
        }
        assert(records@.take(n as int) =~= records@);
    }
}

/// The name of the record that holds `user_id`'s log.
pub open spec fn spec_record_name(user_id: Seq<char>) -> Seq<char> {
    user_id + seq!['.', 'j', 's', 'o', 'n']
}

/// The file name of `user_id`'s record: the id followed by `.json`.
pub fn record_name(user_id: &str) -> (r: String)
    ensures
        r@ == spec_record_name(user_id@),
{
    let mut r = String::from_str(user_id);
    r.append(".json");
    proof {
        reveal_strlit(".json");
    }
    r
}

/// The user whose record has file name `name`: a name that ends in `.json`
/// after at least one other character.
pub open spec fn spec_user_of_record(name: Seq<char>) -> Option<Seq<char>> {
    if name.len() > 5 && name.subrange(name.len() - 5, name.len() as int) == seq!['.', 'j', 's', 'o', 'n'] {
        Some(name.subrange(0, name.len() - 5))
    } else {
        None
    }
}

/// The user id that a file name in storage stands for, or `None` for a file
/// that is no record.
pub fn user_of_record(name: &str) -> (r: Option<String>)
    ensures
        match r {
            Some(u) => spec_user_of_record(name@) == Some(u@),
            None => spec_user_of_record(name@).is_none(),
        },
{
    let n = name.unicode_len();
    if n <= 5 {
        return None;
    }
    let tail = name.substring_char(n - 5, n);
    let suffix = String::from_str(".json");
    proof {
        reveal_strlit(".json");
    }
    let tail_s = String::from_str(tail);
    proof {
        assert(suffix@ =~= seq!['.', 'j', 's', 'o', 'n']);
    }
    if tail_s == suffix {
        Some(String::from_str(name.substring_char(0, n - 5)))
    } else {
        None
    }
}

/// A record name leads back to the user it was made for.
pub proof fn lemma_record_name_round_trip(user_id: Seq<char>)
    requires
        user_id.len() > 0,
    ensures
        spec_user_of_record(spec_record_name(user_id)) == Some(user_id),
{
    let name = spec_record_name(user_id);
    assert(name.subrange(name.len() - 5, name.len() as int) =~= seq!['.', 'j', 's', 'o', 'n']);
    assert(name.subrange(0, name.len() - 5) =~= user_id);
}

/// The table after each `(user, message)` of `ops` is appended, in order.
pub open spec fn apply_appends(t: Table, ops: Seq<(Seq<char>, MessageView)>) -> Table
    decreases ops.len(),
{
    if ops.len() == 0 {
        t
    } else {
        appended(apply_appends(t, ops.drop_last()), ops.last().0, ops.last().1)
    }
}

/// The messages of `ops` appended for `user`, in order.
pub open spec fn sent_by(ops: Seq<(Seq<char>, MessageView)>, user: Seq<char>) -> Seq<MessageView>
    decreases ops.len(),
{
    if ops.len() == 0 {
        Seq::empty()
    } else if ops.last().0 == user {
        sent_by(ops.drop_last(), user).push(ops.last().1)
    } else {
        sent_by(ops.drop_last(), user)
    }
}

/// The table after each message of `ms` is appended to `user`'s log.
pub open spec fn append_each(t: Table, user: Seq<char>, ms: Seq<MessageView>) -> Table
    decreases ms.len(),
{
    if ms.len() == 0 {
        t
    } else {
        appended(append_each(t, user, ms.drop_last()), user, ms.last())
    }
}

/// After appending messages to one user, that user's log is what it was
/// followed by exactly those messages, in the order of the calls.
pub proof fn lemma_append_in_order(t: Table, user: Seq<char>, ms: Seq<MessageView>)
    ensures
        history_of(append_each(t, user, ms), user) == history_of(t, user) + ms,
    decreases ms.len(),
{
    if ms.len() > 0 {
        lemma_append_in_order(t, user, ms.drop_last());
        assert(history_of(t, user) + ms =~= (history_of(t, user) + ms.drop_last()).push(ms.last()));
    } else {
        assert(history_of(t, user) + ms =~= history_of(t, user));
    }
}

/// However appends for several users interleave, each user's log (and so
/// the record written for it) gains exactly that user's messages, in order,
/// and nothing of any other user.
pub proof fn lemma_users_isolated(t: Table, ops: Seq<(Seq<char>, MessageView)>, user: Seq<char>)
    ensures
        history_of(apply_appends(t, ops), user) == history_of(t, user) + sent_by(ops, user),
    decreases ops.len(),
{
    if ops.len() > 0 {
        lemma_users_isolated(t, ops.drop_last(), user);
        let prev = sent_by(ops.drop_last(), user);
        if ops.last().0 == user {
            assert(history_of(t, user) + prev.push(ops.last().1) =~= (history_of(t, user) + prev).push(
                ops.last().1,
            ));
        }
    } else {
        assert(history_of(t, user) + sent_by(ops, user) =~= history_of(t, user));
    }
}

/// Records with distinct users, loaded into an empty table, give each of
/// those users exactly the log of its record, and no other user a log.
pub proof fn lemma_loaded_records(records: Seq<(Seq<char>, Seq<MessageView>)>)
    requires
        forall|i: int, j: int| 0 <= i < j < records.len() ==> records[i].0 != records[j].0,
    ensures
        forall|k: Seq<char>|
            #[trigger] loaded(Map::empty(), records).contains_key(k) <==> exists|i: int|
                0 <= i < records.len() && records[i].0 == k,
        forall|i: int|
            0 <= i < records.len() ==> #[trigger] loaded(Map::empty(), records)[records[i].0] == records[i].1,
    decreases records.len(),
{
    if records.len() > 0 {
        let prefix = records.drop_last();
        lemma_loaded_records(prefix);
        let m = loaded(Map::<Seq<char>, Seq<MessageView>>::empty(), records);
        let prev = loaded(Map::<Seq<char>, Seq<MessageView>>::empty(), prefix);
        let last = records[records.len() - 1];
        assert(m == prev.insert(last.0, last.1));
        assert forall|k: Seq<char>| #[trigger] m.contains_key(k) implies exists|i: int|
            0 <= i < records.len() && records[i].0 == k by {
            if k != records.last().0 {
                assert(loaded(Map::empty(), prefix).contains_key(k));
                let i = choose|i: int| 0 <= i < prefix.len() && prefix[i].0 == k;
                assert(records[i].0 == k);
            } else {
                assert(records[records.len() - 1].0 == k);
            }
        }
        assert forall|i: int| 0 <= i < records.len() implies #[trigger] m[records[i].0] == records[i].1 by {
            if i < records.len() - 1 {
                assert(prefix[i] == records[i]);
                assert(records[i].0 != last.0);
                assert(prev[prefix[i].0] == prefix[i].1);
            }
        }
        assert forall|k: Seq<char>| (exists|i: int| 0 <= i < records.len() && records[i].0 == k) implies #[trigger] m.contains_key(k) by {
            let i = choose|i: int| 0 <= i < records.len() && records[i].0 == k;
            if i < records.len() - 1 {
                assert(prefix[i] == records[i]);
                assert(prev.contains_key(prefix[i].0));
            }
        }
    }
}

/// Writing one record per user from a table, then loading those records
/// into a fresh store, gives back the same table: every user with the same
/// messages in the same order.
pub proof fn lemma_reload_round_trip(t: Table, records: Seq<(Seq<char>, Seq<MessageView>)>)
    requires
        forall|i: int, j: int| 0 <= i < j < records.len() ==> records[i].0 != records[j].0,
        forall|i: int|
            0 <= i < records.len() ==> #[trigger] t.contains_key(records[i].0) && t[records[i].0] == records[i].1,
        forall|k: Seq<char>| #[trigger] t.contains_key(k) ==> exists|i: int| 0 <= i < records.len() && records[i].0 == k,
    ensures
        loaded(Map::empty(), records) == t,
{
    lemma_loaded_records(records);
    let m = loaded(Map::<Seq<char>, Seq<MessageView>>::empty(), records);
    assert forall|k: Seq<char>| #[trigger] m.contains_key(k) implies t.contains_key(k) && m[k] == t[k] by {
        let i = choose|i: int| 0 <= i < records.len() && records[i].0 == k;
        assert(m[records[i].0] == records[i].1);
    }
    assert forall|k: Seq<char>| #[trigger] t.contains_key(k) implies m.contains_key(k) by {
        let i = choose|i: int| 0 <= i < records.len() && records[i].0 == k;
        assert(m.contains_key(records[i].0));
    }
    assert(m =~= t);
}

} // verus!
