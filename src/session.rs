use vstd::prelude::*;

use crate::config::AgentConfig;
use crate::context::{Context, ContextView, PromptSources, system_prompt_spec};
use crate::message::{Message, MessageView, views};
use crate::message::{str_eq, str_starts_with};
use crate::tools::starts_with;
use crate::time::{
    Timestamp, format_rfc3339, four_digit_year, now, rfc3339_instant, rfc3339_of, timestamp_or, timestamp_or_spec,
};

verus! {

/// Relies on `uuid::Uuid::new_v4`, written out by its `Display`: a random id.
/// Nothing is promised of it.
#[verifier::external_body]
fn new_session_id() -> (r: String) {
    uuid::Uuid::new_v4().to_string()
}

/// What is known of a session besides its conversation.
#[derive(Debug)]
pub struct SessionMetadata {
    pub name: Option<String>,
    pub created_at: Timestamp,
    pub updated_at: Timestamp,
    pub message_count: usize,
}

/// A session as it is stored: one record per session, its times in RFC 3339.
#[derive(Debug)]
pub struct SessionRecord {
    pub id: String,
    pub system_prompt: String,
    pub messages: Vec<Message>,
    pub config: AgentConfig,
    pub created_at: String,
    pub updated_at: String,
    pub name: Option<String>,
}

pub open spec fn opt_view(o: Option<String>) -> Option<Seq<char>> {
    match o {
        Some(s) => Some(s@),
        None => None,
    }
}

fn clone_opt(o: &Option<String>) -> (r: Option<String>)
    ensures
        r == *o,
{
    match o {
        Some(s) => Some(s.clone()),
        None => None,
    }
}

/// A named, stored conversation.
pub struct Session {
    id: String,
    context: Context,
    config: AgentConfig,
    name: Option<String>,
    created_at: Timestamp,
    updated_at: Timestamp,
}

impl Session {
    pub closed spec fn id_view(&self) -> Seq<char> {
        self.id@
    }

    pub closed spec fn context_view(&self) -> ContextView {
        self.context@
    }

    pub closed spec fn config_view(&self) -> AgentConfig {
        self.config
    }

    /// Its name and times, and the length of its history.
    pub closed spec fn metadata_view(&self) -> SessionMetadata {
        SessionMetadata {
            name: self.name,
            created_at: self.created_at,
            updated_at: self.updated_at,
            message_count: self.context@.messages.len() as usize,
        }
    }

    /// Its times can be written out.
    pub closed spec fn wf(&self) -> bool {
        self.created_at.valid() && self.updated_at.valid()
    }

    /// A session with an empty history, whose system prompt is composed from
    /// `sources`, made at `now`.
    pub fn new(id: String, config: AgentConfig, sources: &PromptSources, now: Timestamp) -> (r:
        Session)
        requires
            now.valid(),
        ensures
            r.wf(),
            r.id_view() == id@,
            r.context_view().system_prompt == system_prompt_spec(
                sources.agent@,
                sources.soul@,
                sources.user@,
            ),
            r.context_view().messages.len() == 0,
            r.config_view() == config,
            r.metadata_view().name is None,
            r.metadata_view().created_at == now,
            r.metadata_view().updated_at == now,
            r.metadata_view().message_count == 0,
    {
        let mut context = Context::new(String::new());
        let _ = context.load_system_prompt(sources);
        Session {
            id,
            context,
            config,
            name: None,
            created_at: now,
            updated_at: now,
        }
    }

    pub fn id(&self) -> (r: &str)
        ensures
            r@ == self.id_view(),
    {
        self.id.as_str()
    }

    pub fn context(&self) -> (r: &Context)
        ensures
            r@ == self.context_view(),
    {
        &self.context
    }

    /// The conversation, to be changed in place; nothing else of the session changes.
    pub fn context_mut(&mut self) -> (r: &mut Context)
        ensures
            r@ == old(self).context_view(),
            final(self).context_view() == final(r)@,
            final(self).id_view() == old(self).id_view(),
            final(self).config_view() == old(self).config_view(),
            final(self).metadata_view().name == old(self).metadata_view().name,
            final(self).metadata_view().created_at == old(self).metadata_view().created_at,
            final(self).metadata_view().updated_at == old(self).metadata_view().updated_at,
            final(self).wf() == old(self).wf(),
    {
        &mut self.context
    }

    pub fn config(&self) -> (r: &AgentConfig)
        ensures
            *r == self.config_view(),
    {
        &self.config
    }

    /// Its name and times, and how many messages its history holds now.
    pub fn metadata(&self) -> (r: SessionMetadata)
        ensures
            r == self.metadata_view(),
            r.message_count == self.context_view().messages.len(),
    {
        SessionMetadata {
            name: clone_opt(&self.name),
            created_at: self.created_at,
            updated_at: self.updated_at,
            message_count: self.context.len(),
        }
    }

    /// Names the session; the time of the change is the current time.
    pub fn rename(&mut self, name: &str)
        requires
            old(self).wf(),
        ensures
            final(self).wf(),
            final(self).metadata_view().name matches Some(n) && n@ == name@,
            final(self).metadata_view().created_at == old(self).metadata_view().created_at,
            final(self).metadata_view().message_count == old(self).metadata_view().message_count,
            final(self).id_view() == old(self).id_view(),
            final(self).context_view() == old(self).context_view(),
            final(self).config_view() == old(self).config_view(),
    {
        self.name = Some(name.to_string());
        self.updated_at = now();
    }

    /// The record that stores this session.
    pub fn to_record(&self) -> (r: SessionRecord)
        requires
            self.wf(),
        ensures
            stores(r, *self),
    {
        SessionRecord {
            id: self.id.clone(),
            system_prompt: self.context.system_prompt().to_string(),
            messages: self.context.history(),
            config: self.config.clone(),
            created_at: format_rfc3339(&self.created_at),
            updated_at: format_rfc3339(&self.updated_at),
            name: clone_opt(&self.name),
        }
    }

    /// The session a record stores; a malformed time is read as `now`.
    pub fn from_record_at(record: SessionRecord, now: Timestamp) -> (r: Session)
        requires
            now.valid(),
        ensures
            read_from(r, record, now),
    {
        let created_at = timestamp_or(record.created_at.as_str(), now);
        let updated_at = timestamp_or(record.updated_at.as_str(), now);
        let mut context = Context::new(record.system_prompt);
        let history = context.raw_messages_mut();
        *history = record.messages;
        // The history's length fits a `usize`.
        let count = context.len();
        assert(count as int == context@.messages.len());
        Session {
            id: record.id,
            context,
            config: record.config,
            name: record.name,
            created_at,
            updated_at,
        }
    }

    /// The session a record stores, read at the current time.
    pub fn load(record: SessionRecord) -> (r: Session)
        ensures
            r.wf(),
            r.id_view() == record.id@,
            r.context_view().system_prompt == record.system_prompt@,
            r.context_view().messages == views(record.messages@),
            r.config_view() == record.config,
            r.metadata_view().name == record.name,
            exists|t: Timestamp|
                t.valid() && r.metadata_view().created_at == timestamp_or_spec(record.created_at@, t)
                    && r.metadata_view().updated_at == timestamp_or_spec(record.updated_at@, t),
    {
        let t = now();
        Session::from_record_at(record, t)
    }
}

/// Whether `r` stores the session `s`: its id, prompt, history, settings, name,
/// and its times as chrono writes them, which read back as the same instants
/// in the years 0 to 9999.
pub open spec fn stores(r: SessionRecord, s: Session) -> bool {
    &&& r.id@ == s.id_view()
    &&& r.system_prompt@ == s.context_view().system_prompt
    &&& views(r.messages@) == s.context_view().messages
    &&& r.config == s.config_view()
    &&& r.created_at@ == rfc3339_of(
        s.metadata_view().created_at.secs as int,
        s.metadata_view().created_at.nanos as int,
    )
    &&& r.updated_at@ == rfc3339_of(
        s.metadata_view().updated_at.secs as int,
        s.metadata_view().updated_at.nanos as int,
    )
    &&& r.name == s.metadata_view().name
    &&& (four_digit_year(s.metadata_view().created_at) ==> rfc3339_instant(r.created_at@) == Some(
        (s.metadata_view().created_at.secs as int, s.metadata_view().created_at.nanos as int),
    ))
    &&& (four_digit_year(s.metadata_view().updated_at) ==> rfc3339_instant(r.updated_at@) == Some(
        (s.metadata_view().updated_at.secs as int, s.metadata_view().updated_at.nanos as int),
    ))
}

/// Whether `s` is the session read from `r` at time `now`.
pub open spec fn read_from(s: Session, r: SessionRecord, now: Timestamp) -> bool {
    &&& s.wf()
    &&& s.id_view() == r.id@
    &&& s.context_view().system_prompt == r.system_prompt@
    &&& s.context_view().messages == views(r.messages@)
    &&& s.config_view() == r.config
    &&& s.metadata_view().name == r.name
    &&& s.metadata_view().created_at == timestamp_or_spec(r.created_at@, now)
    &&& s.metadata_view().updated_at == timestamp_or_spec(r.updated_at@, now)
    &&& s.metadata_view().message_count == r.messages@.len()
}

/// Whether chrono reads the text it writes for `t` back as `t` itself.
pub open spec fn reads_back(t: Timestamp) -> bool {
    rfc3339_instant(rfc3339_of(t.secs as int, t.nanos as int)) == Some((t.secs as int, t.nanos as int))
}

/// Saving a session and loading it back gives the same id, system prompt and
/// history; each time comes back exactly when it lies in the years 0 to 9999
/// (or wherever else its stored text reads back), and as the time of loading
/// where the stored text is malformed.
pub proof fn lemma_save_load_round_trip(
    s: Session,
    record: SessionRecord,
    now: Timestamp,
    back: Session,
)
    requires
        s.wf(),
        now.valid(),
        stores(record, s),
        read_from(back, record, now),
    ensures
        back.id_view() == s.id_view(),
        back.context_view().system_prompt == s.context_view().system_prompt,
        back.context_view().messages == s.context_view().messages,
        back.config_view() == s.config_view(),
        back.metadata_view().name == s.metadata_view().name,
        four_digit_year(s.metadata_view().created_at) ==> back.metadata_view().created_at
            == s.metadata_view().created_at,
        four_digit_year(s.metadata_view().updated_at) ==> back.metadata_view().updated_at
            == s.metadata_view().updated_at,
        reads_back(s.metadata_view().created_at) ==> back.metadata_view().created_at
            == s.metadata_view().created_at,
        reads_back(s.metadata_view().updated_at) ==> back.metadata_view().updated_at
            == s.metadata_view().updated_at,
        rfc3339_instant(record.created_at@) is None ==> back.metadata_view().created_at == now,
        rfc3339_instant(record.updated_at@) is None ==> back.metadata_view().updated_at == now,
{
}

/// Why a session operation failed.
#[derive(Debug)]
pub enum SessionError {
    /// No session has this id.
    NotFound(String),
    /// No session is current.
    NoCurrent,
}

pub const NOT_FOUND_PREFIX: &'static str = "会话不存在：";

pub const NO_CURRENT_TEXT: &'static str = "没有当前会话";

impl SessionError {
    pub fn message(&self) -> (r: String)
        ensures
            match self {
                SessionError::NotFound(id) => r@ == NOT_FOUND_PREFIX@ + id@,
                SessionError::NoCurrent => r@ == NO_CURRENT_TEXT@,
            },
    {
        match self {
            SessionError::NotFound(id) => crate::text::join2(NOT_FOUND_PREFIX, id.as_str()),
            SessionError::NoCurrent => NO_CURRENT_TEXT.to_string(),
        }
    }
}

struct SessionEntry {
    key: String,
    session: Session,
}

/// The position of `k` among keys without duplicates.
proof fn lemma_index_of_unique(keys: Seq<Seq<char>>, i: int, k: Seq<char>)
    requires
        keys.no_duplicates(),
        0 <= i < keys.len(),
        keys[i] == k,
    ensures
        keys.index_of(k) == i,
{
    assert(keys.contains(k));
    let j = keys.index_of(k);
    assert(0 <= j < keys.len() && keys[j] == k);
}

spec fn all_wf(entries: Seq<SessionEntry>) -> bool {
    forall|i: int| 0 <= i < entries.len() ==> (#[trigger] entries[i]).session.wf()
}

spec fn keys_of(entries: Seq<SessionEntry>) -> Seq<Seq<char>> {
    entries.map_values(|e: SessionEntry| e.key@)
}

spec fn sessions_of(entries: Seq<SessionEntry>) -> Map<Seq<char>, Session> {
    Map::new(
        |k: Seq<char>| keys_of(entries).contains(k),
        |k: Seq<char>| entries[keys_of(entries).index_of(k)].session,
    )
}

/// Replacing the session at one place replaces it under its key, and keeps
/// keys unique.
proof fn lemma_replace_session(entries: Seq<SessionEntry>, i: int, x: Session)
    requires
        keys_of(entries).no_duplicates(),
        0 <= i < entries.len(),
    ensures
        ({
            let updated = entries.update(i, SessionEntry { key: entries[i].key, session: x });
            &&& keys_of(updated) == keys_of(entries)
            &&& sessions_of(updated) == sessions_of(entries).insert(entries[i].key@, x)
            &&& (all_wf(entries) && x.wf() ==> all_wf(updated))
        }),
{
    let updated = entries.update(i, SessionEntry { key: entries[i].key, session: x });
    let keys = keys_of(entries);
    assert(keys_of(updated) =~= keys);
    let k = entries[i].key@;
    let m = sessions_of(entries).insert(k, x);
    assert(keys[i] == k);
    assert forall|c: Seq<char>| #[trigger] sessions_of(updated).contains_key(c) implies sessions_of(
        updated,
    )[c] == m[c] by {
        let j = keys.index_of(c);
        assert(0 <= j < keys.len() && keys[j] == c);
        lemma_index_of_unique(keys, j, c);
        if c == k {
            lemma_index_of_unique(keys, i, c);
        }
    }
    assert(sessions_of(updated) =~= m);
}

/// Removing the entry at one place removes its key, and keeps keys unique.
proof fn lemma_remove_entry(entries: Seq<SessionEntry>, i: int)
    requires
        keys_of(entries).no_duplicates(),
        all_wf(entries),
        0 <= i < entries.len(),
    ensures
        keys_of(entries.remove(i)).no_duplicates(),
        all_wf(entries.remove(i)),
        sessions_of(entries.remove(i)) == sessions_of(entries).remove(entries[i].key@),
        forall|c: Seq<char>|
            #[trigger] keys_of(entries.remove(i)).contains(c) <==> keys_of(entries).contains(c) && c
                != entries[i].key@,
{
    let r = entries.remove(i);
    let keys = keys_of(entries);
    let rk = keys_of(r);
    let k = entries[i].key@;
    assert(rk =~= keys.remove(i));
    assert(forall|j: int| 0 <= j < rk.len() ==> rk[j] == if j < i { keys[j] } else { keys[j + 1] });
    assert forall|a: int, b: int| 0 <= a < b < rk.len() implies rk[a] != rk[b] by {
        let a2 = if a < i { a } else { a + 1 };
        let b2 = if b < i { b } else { b + 1 };
        assert(rk[a] == keys[a2] && rk[b] == keys[b2]);
    }
    assert forall|j: int| 0 <= j < r.len() implies (#[trigger] r[j]).session.wf() by {
        if j < i {
            assert(r[j] == entries[j]);
        } else {
            assert(r[j] == entries[j + 1]);
        }
    }
    assert forall|c: Seq<char>| #[trigger] rk.contains(c) <==> keys.contains(c) && c != k by {
        if rk.contains(c) {
            let j = rk.index_of(c);
            let j2 = if j < i { j } else { j + 1 };
            assert(keys[j2] == c);
            assert(j2 != i);
            assert(keys[j2] != keys[i]);
            assert(keys.contains(c));
        }
        if keys.contains(c) && c != k {
            let j = keys.index_of(c);
            assert(j != i);
            let j2 = if j < i { j } else { j - 1 };
            assert(rk[j2] == c);
            assert(rk.contains(c));
        }
    }
    let m = sessions_of(entries).remove(k);
    assert forall|c: Seq<char>| #[trigger] sessions_of(r).contains_key(c) implies sessions_of(r)[c]
        == m[c] by {
        let j = rk.index_of(c);
        assert(0 <= j < rk.len() && rk[j] == c);
        lemma_index_of_unique(rk, j, c);
        let j2 = if j < i { j } else { j + 1 };
        assert(keys[j2] == c);
        lemma_index_of_unique(keys, j2, c);
        assert(r[j] == entries[j2]);
    }
    assert(sessions_of(r) =~= m);
}

/// Where the last of the first `k` entries that read a record for `id` stands,
/// or -1 where none did.
pub open spec fn last_read(found: Seq<(String, Option<SessionRecord>)>, id: Seq<char>, k: int) -> int
    decreases k,
{
    if k <= 0 {
        -1
    } else if found[k - 1].0@ == id && found[k - 1].1 is Some {
        k - 1
    } else {
        last_read(found, id, k - 1)
    }
}

proof fn lemma_last_read_bounds(found: Seq<(String, Option<SessionRecord>)>, id: Seq<char>, k: int)
    requires
        0 <= k <= found.len(),
    ensures
        -1 <= last_read(found, id, k) < k,
        last_read(found, id, k) >= 0 ==> found[last_read(found, id, k)].0@ == id
            && found[last_read(found, id, k)].1 is Some,
    decreases k,
{
    if k > 0 {
        lemma_last_read_bounds(found, id, k - 1);
    }
}

proof fn lemma_last_read_found(found: Seq<(String, Option<SessionRecord>)>, id: Seq<char>, k: int, i: int)
    requires
        0 <= i < k <= found.len(),
        found[i].0@ == id,
        found[i].1 is Some,
    ensures
        last_read(found, id, k) >= i,
    decreases k,
{
    if k - 1 > i && !(found[k - 1].0@ == id && found[k - 1].1 is Some) {
        lemma_last_read_found(found, id, k - 1, i);
    }
}

/// The sessions of a process, by id, and which one is current.
///
/// The sessions are held in a vector of entries whose ids are unique, and are
/// seen as a map from id to session. vstd describes a `HashMap` lookup only for
/// keys whose view obeys its key model, which `String` ids are not shown to do,
/// so a `HashMap<String, Session>` would leave every lookup unstated.
pub struct SessionManager {
    entries: Vec<SessionEntry>,
    storage_path: String,
    current_session_id: Option<String>,
}

impl SessionManager {
    closed spec fn keys(&self) -> Seq<Seq<char>> {
        keys_of(self.entries@)
    }

    /// The sessions, by id.
    pub closed spec fn sessions(&self) -> Map<Seq<char>, Session> {
        sessions_of(self.entries@)
    }

    /// The id of the current session, if one is current.
    pub closed spec fn current_id(&self) -> Option<Seq<char>> {
        opt_view(self.current_session_id)
    }

    pub closed spec fn storage_path_view(&self) -> Seq<char> {
        self.storage_path@
    }

    /// Ids are unique, every session can be written out, and the current id
    /// names a session.
    pub closed spec fn wf(&self) -> bool {
        &&& self.keys().no_duplicates()
        &&& all_wf(self.entries@)
        &&& (self.current_session_id matches Some(c) ==> self.keys().contains(c@))
    }

    proof fn lemma_entry(&self, i: int)
        requires
            self.wf(),
            0 <= i < self.entries@.len(),
        ensures
            self.sessions().contains_key(self.entries@[i].key@),
            self.sessions()[self.entries@[i].key@] == self.entries@[i].session,
            self.entries@[i].session.wf(),
    {
        assert(self.keys()[i] == self.entries@[i].key@);
        lemma_index_of_unique(self.keys(), i, self.entries@[i].key@);
    }

    pub fn new(storage_path: String) -> (r: SessionManager)
        ensures
            r.wf(),
            r.sessions() == Map::<Seq<char>, Session>::empty(),
            r.current_id() is None,
            r.storage_path_view() == storage_path@,
    {
        let r = SessionManager { entries: Vec::new(), storage_path, current_session_id: None };
        assert(r.sessions() =~= Map::<Seq<char>, Session>::empty());
        r
    }

    pub fn storage_path(&self) -> (r: &str)
        ensures
            r@ == self.storage_path_view(),
    {
        self.storage_path.as_str()
    }

    /// Where the session `id` is held.
    fn find(&self, id: &str) -> (r: Option<usize>)
        requires
            self.wf(),
        ensures
            match r {
                Some(i) => i < self.entries@.len() && self.entries@[i as int].key@ == id@,
                None => !self.sessions().contains_key(id@),
            },
    {
        let mut i: usize = 0;
        while i < self.entries.len()
            invariant
                i <= self.entries@.len(),
                forall|j: int| 0 <= j < i ==> self.keys()[j] != id@,
            decreases self.entries@.len() - i,
        {
            if str_eq(self.entries[i].key.as_str(), id) {
                return Some(i);
            }
            assert(self.keys()[i as int] == self.entries@[i as int].key@);
            i = i + 1;
        }
        proof {
            if self.keys().contains(id@) {
                let j = self.keys().index_of(id@);
                assert(self.keys()[j] == id@);
            }
        }
        None
    }

    /// Puts `session` under `key`, in place of any session there.
    fn insert(&mut self, key: String, session: Session)
        requires
            old(self).wf(),
            session.wf(),
        ensures
            final(self).wf(),
            final(self).sessions() == old(self).sessions().insert(key@, session),
            final(self).current_session_id == old(self).current_session_id,
            final(self).storage_path == old(self).storage_path,
    {
        let ghost k = key@;
        let ghost sess = session;
        let ghost old_keys = self.keys();
        let ghost mut pos: int = 0;
        match self.find(key.as_str()) {
            Some(i) => {
                self.entries.set(i, SessionEntry { key, session });
                proof {
                    pos = i as int;
                    assert(self.keys() =~= old_keys);
                }
            },
            None => {
                self.entries.push(SessionEntry { key, session });
                proof {
                    pos = old_keys.len() as int;
                    assert(self.keys() =~= old_keys.push(k));
                    assert(!old_keys.contains(k));
                }
            },
        }
        proof {
            let keys = self.keys();
            assert(0 <= pos < keys.len());
            assert(keys[pos] == k);
            assert(self.entries@[pos].session == sess);
            assert(forall|j: int| 0 <= j < keys.len() && j != pos ==> j < old_keys.len()
                && self.entries@[j] == old(self).entries@[j]);
            assert(forall|j: int| 0 <= j < keys.len() && j != pos ==> keys[j] == old_keys[j]);
            assert forall|a: int, b: int| 0 <= a < b < keys.len() implies keys[a] != keys[b] by {
                if b == old_keys.len() {
                    assert(old_keys.contains(old_keys[a]));
                }
            }
            assert forall|x: int| 0 <= x < self.entries@.len() implies (#[trigger] self.entries@[x]).session.wf() by {
                if x != pos {
                    assert(self.entries@[x] == old(self).entries@[x]);
                }
            }
            assert forall|c: Seq<char>| #[trigger] keys.contains(c) <== old_keys.contains(c) by {
                if old_keys.contains(c) {
                    let j = old_keys.index_of(c);
                    if j == pos {
                        assert(old_keys[j] == k);
                    } else {
                        assert(keys[j] == c);
                    }
                }
            }
            let m = old(self).sessions().insert(k, sess);
            assert forall|c: Seq<char>| #[trigger] self.sessions().contains_key(c) == m.contains_key(c) by {
                if keys.contains(c) {
                    let j = keys.index_of(c);
                    if keys[j] != k {
                        assert(old_keys[j] == c);
                        assert(old_keys.contains(c));
                    }
                }
                if c == k {
                    assert(keys.contains(c));
                }
            }
            assert forall|c: Seq<char>| #[trigger] self.sessions().contains_key(c) implies self.sessions()[c] == m[c] by {
                let j = keys.index_of(c);
                assert(0 <= j < keys.len() && keys[j] == c);
                lemma_index_of_unique(keys, j, c);
                if c == k {
                    assert(j == pos);
                } else {
                    assert(old_keys[j] == c);
                    lemma_index_of_unique(old_keys, j, c);
                    assert(self.entries@[j] == old(self).entries@[j]);
                }
            }
            assert(self.sessions() =~= m);
        }
    }

    /// The session `id`, to be changed in place.
    pub fn get_mut(&mut self, id: &str) -> (r: Option<&mut Session>)
        requires
            old(self).wf(),
        ensures
            r is Some <==> old(self).sessions().contains_key(id@),
            r matches Some(s) ==> *s == old(self).sessions()[id@],
            r matches Some(s) ==> final(self).sessions() == old(self).sessions().insert(id@, *final(s)),
            r matches Some(s) ==> final(self).current_id() == old(self).current_id(),
            r matches Some(s) ==> final(self).storage_path_view() == old(self).storage_path_view(),
            r matches Some(s) ==> (final(s).wf() ==> final(self).wf()),
            r is None ==> {
                &&& final(self).sessions() == old(self).sessions()
                &&& final(self).current_id() == old(self).current_id()
                &&& final(self).wf()
            },
    {
        match self.find(id) {
            Some(i) => {
                proof {
                    self.lemma_entry(i as int);
                }
                proof {
                    assert forall|x: Session|
                        #![trigger self.entries@.update(i as int, SessionEntry { key: self.entries@[i as int].key, session: x })]
                        {
                            let u = self.entries@.update(
                                i as int,
                                SessionEntry { key: self.entries@[i as int].key, session: x },
                            );
                            &&& sessions_of(u) == sessions_of(self.entries@).insert(id@, x)
                            &&& keys_of(u) == keys_of(self.entries@)
                            &&& (x.wf() ==> all_wf(u))
                        } by {
                        lemma_replace_session(self.entries@, i as int, x);
                    }
                }
                let e = &mut self.entries[i];
                Some(&mut e.session)
            },
            None => None,
        }
    }

    /// `id` where no session has it; else `id` lengthened with dashes beyond
    /// every id in use.
    fn fresh_id(&self, id: String) -> (r: String)
        requires
            self.wf(),
        ensures
            !self.sessions().contains_key(r@),
            !self.sessions().contains_key(id@) ==> r@ == id@,
    {
        match self.find(id.as_str()) {
            None => {
                return id;
            },
            Some(i) => {
                proof {
                    self.lemma_entry(i as int);
                }
            },
        }
        let mut longest: usize = 0;
        let mut i: usize = 0;
        while i < self.entries.len()
            invariant
                i <= self.entries@.len(),
                forall|j: int| 0 <= j < i ==> (#[trigger] self.entries@[j]).key@.len() <= longest,
            decreases self.entries@.len() - i,
        {
            let n = self.entries[i].key.as_str().unicode_len();
            if n > longest {
                longest = n;
            }
            i = i + 1;
        }
        let mut r = id;
        while r.as_str().unicode_len() <= longest
            invariant
                forall|j: int|
                    0 <= j < self.entries@.len() ==> (#[trigger] self.entries@[j]).key@.len() <= longest,
            decreases longest + 1 - r@.len(),
        {
            r.append("-");
            proof {
                reveal_strlit("-");
            }
        }
        proof {
            if self.sessions().contains_key(r@) {
                let j = self.keys().index_of(r@);
                assert(self.keys()[j] == r@);
                assert(self.entries@[j].key@ == r@);
            }
        }
        r
    }

    /// Makes a session with a fresh random id and the current time, named
    /// `name` where one is given, and makes it current.
    pub fn create(&mut self, name: Option<String>, config: AgentConfig, sources: &PromptSources) -> (r:
        &Session)
        requires
            old(self).wf(),
        ensures
            final(self).wf(),
            final(self).current_id() == Some(r.id_view()),
            final(self).sessions().contains_key(r.id_view()),
            final(self).sessions()[r.id_view()] == *r,
            final(self).sessions().remove(r.id_view()) == old(self).sessions().remove(r.id_view()),
            final(self).storage_path_view() == old(self).storage_path_view(),
            r.context_view().system_prompt == system_prompt_spec(
                sources.agent@,
                sources.soul@,
                sources.user@,
            ),
            r.context_view().messages.len() == 0,
            r.config_view() == config,
            r.metadata_view().message_count == 0,
            r.metadata_view().name == name,
            r.metadata_view().created_at == r.metadata_view().updated_at,
            !old(self).sessions().contains_key(r.id_view()),
    {
        let id = self.fresh_id(new_session_id());
        let mut session = Session::new(id.clone(), config, sources, now());
        session.name = name;
        self.insert(id.clone(), session);
        self.current_session_id = Some(id.clone());
        proof {
            assert(self.sessions().contains_key(id@));
            assert(self.sessions().remove(id@) =~= old(self).sessions().remove(id@));
        }
        match self.find(id.as_str()) {
            Some(i) => {
                proof {
                    self.lemma_entry(i as int);
                }
                &self.entries[i].session
            },
            None => {
                proof {
                    assert(false);
                }
                &self.entries[0].session
            },
        }
    }

    pub fn get(&self, id: &str) -> (r: Option<&Session>)
        requires
            self.wf(),
        ensures
            match r {
                Some(s) => self.sessions().contains_key(id@) && *s == self.sessions()[id@],
                None => !self.sessions().contains_key(id@),
            },
    {
        match self.find(id) {
            Some(i) => {
                proof {
                    self.lemma_entry(i as int);
                }
                Some(&self.entries[i].session)
            },
            None => None,
        }
    }

    pub fn current_session_id(&self) -> (r: Option<&str>)
        ensures
            match r {
                Some(s) => self.current_id() == Some(s@),
                None => self.current_id() is None,
            },
    {
        match &self.current_session_id {
            Some(id) => Some(id.as_str()),
            None => None,
        }
    }

    pub fn current(&self) -> (r: Option<&Session>)
        requires
            self.wf(),
        ensures
            match self.current_id() {
                Some(c) => self.sessions().contains_key(c) && (r matches Some(s) && *s
                    == self.sessions()[c]),
                None => r is None,
            },
    {
        match &self.current_session_id {
            Some(id) => self.get(id.as_str()),
            None => None,
        }
    }

    /// The current session, to be changed in place.
    pub fn current_mut(&mut self) -> (r: Option<&mut Session>)
        requires
            old(self).wf(),
        ensures
            r is Some <==> old(self).current_id() is Some,
            r matches Some(s) ==> *s == old(self).sessions()[old(self).current_id()->Some_0],
            r matches Some(s) ==> final(self).sessions() == old(self).sessions().insert(
                old(self).current_id()->Some_0,
                *final(s),
            ),
            final(self).current_id() == old(self).current_id(),
            final(self).storage_path_view() == old(self).storage_path_view(),
            r matches Some(s) ==> (final(s).wf() ==> final(self).wf()),
            r is None ==> final(self).sessions() == old(self).sessions() && final(self).wf(),
    {
        let id = match &self.current_session_id {
            Some(id) => id.clone(),
            None => {
                return None;
            },
        };
        self.get_mut(id.as_str())
    }

    /// Makes `id` the current session, where such a session exists.
    pub fn switch(&mut self, id: &str) -> (r: bool)
        requires
            old(self).wf(),
        ensures
            final(self).wf(),
            r == old(self).sessions().contains_key(id@),
            final(self).sessions() == old(self).sessions(),
            final(self).storage_path_view() == old(self).storage_path_view(),
            r ==> final(self).current_id() == Some(id@),
            !r ==> final(self).current_id() == old(self).current_id(),
    {
        match self.find(id) {
            Some(i) => {
                proof {
                    assert(self.keys()[i as int] == id@);
                }
                self.current_session_id = Some(id.to_string());
                true
            },
            None => false,
        }
    }

    /// Forgets the session `id`; it stops being current. Its stored copy stays.
    pub fn delete(&mut self, id: &str) -> (r: bool)
        requires
            old(self).wf(),
        ensures
            final(self).wf(),
            r == old(self).sessions().contains_key(id@),
            final(self).sessions() == old(self).sessions().remove(id@),
            final(self).storage_path_view() == old(self).storage_path_view(),
            old(self).current_id() == Some(id@) ==> final(self).current_id() is None,
            old(self).current_id() != Some(id@) ==> final(self).current_id() == old(self).current_id(),
    {
        let is_current = match &self.current_session_id {
            Some(c) => str_eq(c.as_str(), id),
            None => false,
        };
        if is_current {
            self.current_session_id = None;
        }
        match self.find(id) {
            Some(i) => {
                proof {
                    assert(self.keys()[i as int] == id@);
                    lemma_remove_entry(self.entries@, i as int);
                }
                let _ = self.entries.remove(i);
                true
            },
            None => {
                proof {
                    assert(self.sessions() =~= old(self).sessions().remove(id@));
                }
                false
            },
        }
    }

    /// Every session's id and what is known of it, in no particular order.
    pub fn list(&self) -> (r: Vec<(&str, SessionMetadata)>)
        requires
            self.wf(),
        ensures
            r@.len() == self.sessions().len(),
            r@.map_values(|p: (&str, SessionMetadata)| p.0@).no_duplicates(),
            forall|i: int|
                0 <= i < r@.len() ==> self.sessions().contains_key((#[trigger] r@[i]).0@) && r@[i].1
                    == self.sessions()[r@[i].0@].metadata_view(),
            forall|k: Seq<char>|
                #[trigger] self.sessions().contains_key(k) ==> exists|i: int|
                    0 <= i < r@.len() && (#[trigger] r@[i]).0@ == k,
    {
        let mut r: Vec<(&str, SessionMetadata)> = Vec::new();
        let mut i: usize = 0;
        while i < self.entries.len()
            invariant
                self.wf(),
                i <= self.entries@.len(),
                r@.len() == i,
                forall|j: int|
                    0 <= j < i ==> (#[trigger] r@[j]).0@ == self.entries@[j].key@ && r@[j].1
                        == self.entries@[j].session.metadata_view(),
            decreases self.entries@.len() - i,
        {
            r.push((self.entries[i].key.as_str(), self.entries[i].session.metadata()));
            i = i + 1;
        }
        proof {
            let ids = r@.map_values(|p: (&str, SessionMetadata)| p.0@);
            assert(ids =~= self.keys());
            assert forall|j: int| 0 <= j < r@.len() implies self.sessions().contains_key(
                (#[trigger] r@[j]).0@,
            ) && r@[j].1 == self.sessions()[r@[j].0@].metadata_view() by {
                self.lemma_entry(j);
            }
            assert forall|k: Seq<char>| #[trigger] self.sessions().contains_key(k) implies exists|
                j: int,
            | 0 <= j < r@.len() && (#[trigger] r@[j]).0@ == k by {
                let j = self.keys().index_of(k);
                assert(self.keys()[j] == k);
                assert(r@[j].0@ == k);
            }
            self.keys().unique_seq_to_set();
            assert(self.sessions().dom() =~= self.keys().to_set());
        }
        r
    }

    /// The record to store the session `id` under; an error where no such
    /// session exists.
    pub fn save(&self, id: &str) -> (r: Result<SessionRecord, SessionError>)
        requires
            self.wf(),
        ensures
            match r {
                Ok(rec) => self.sessions().contains_key(id@) && stores(rec, self.sessions()[id@]),
                Err(e) => !self.sessions().contains_key(id@) && (e matches SessionError::NotFound(x)
                    && x@ == id@),
            },
    {
        match self.find(id) {
            Some(i) => {
                proof {
                    self.lemma_entry(i as int);
                }
                Ok(self.entries[i].session.to_record())
            },
            None => Err(SessionError::NotFound(id.to_string())),
        }
    }

    /// The record to store the current session under; an error where no
    /// session is current.
    pub fn save_current(&self) -> (r: Result<SessionRecord, SessionError>)
        requires
            self.wf(),
        ensures
            match self.current_id() {
                Some(c) => self.sessions().contains_key(c) && (r matches Ok(rec) && stores(
                    rec,
                    self.sessions()[c],
                )),
                None => r matches Err(SessionError::NoCurrent),
            },
    {
        match &self.current_session_id {
            Some(id) => self.save(id.as_str()),
            None => Err(SessionError::NoCurrent),
        }
    }

    /// Puts the session that `record` stores under `id`, in place of any
    /// session there; a malformed time is read as the current time.
    pub fn load(&mut self, id: &str, record: SessionRecord)
        requires
            old(self).wf(),
        ensures
            final(self).wf(),
            final(self).sessions().contains_key(id@),
            exists|t: Timestamp| t.valid() && read_from(final(self).sessions()[id@], record, t),
            final(self).sessions().remove(id@) == old(self).sessions().remove(id@),
            final(self).current_id() == old(self).current_id(),
            final(self).storage_path_view() == old(self).storage_path_view(),
    {
        let t = now();
        let session = Session::from_record_at(record, t);
        self.insert(id.to_string(), session);
        proof {
            assert(final(self).sessions().remove(id@) =~= old(self).sessions().remove(id@));
        }
    }

    /// Loads each record that was read, in list order, so the last record read
    /// for an id is the one kept; an entry that could not be read is skipped.
    pub fn load_all(&mut self, found: Vec<(String, Option<SessionRecord>)>)
        requires
            old(self).wf(),
        ensures
            final(self).wf(),
            forall|k: Seq<char>|
                #![trigger last_read(found@, k, found@.len() as int)]
                last_read(found@, k, found@.len() as int) >= 0 ==> final(self).sessions().contains_key(k)
                    && exists|t: Timestamp|
                    t.valid() && read_from(
                        final(self).sessions()[k],
                        found@[last_read(found@, k, found@.len() as int)].1->Some_0,
                        t,
                    ),
            forall|k: Seq<char>|
                #![trigger last_read(found@, k, found@.len() as int)]
                last_read(found@, k, found@.len() as int) < 0 ==> (final(self).sessions().contains_key(k)
                    == old(self).sessions().contains_key(k)) && (old(self).sessions().contains_key(k)
                    ==> final(self).sessions()[k] == old(self).sessions()[k]),
            forall|i: int|
                0 <= i < found@.len() && (#[trigger] found@[i]).1 is Some ==> final(self).sessions().contains_key(found@[i].0@),
            forall|k: Seq<char>|
                #[trigger] old(self).sessions().contains_key(k) ==> final(self).sessions().contains_key(k),
            forall|k: Seq<char>|
                #[trigger] final(self).sessions().contains_key(k) ==> old(self).sessions().contains_key(k) || exists|i: int|
                    0 <= i < found@.len() && (#[trigger] found@[i]).0@ == k,
            final(self).current_id() == old(self).current_id(),
            final(self).storage_path_view() == old(self).storage_path_view(),
    {
        let mut rest = found;
        let ghost all = rest@;
        let n = rest.len();
        let mut i: usize = 0;
        assert(all.subrange(0, n as int) == all);
        while i < n
            invariant
                self.wf(),
                i <= n,
                n == all.len(),
                rest@ == all.subrange(i as int, n as int),
                forall|k: Seq<char>|
                    #![trigger last_read(all, k, i as int)]
                    last_read(all, k, i as int) >= 0 ==> self.sessions().contains_key(k) && exists|t: Timestamp|
                        t.valid() && read_from(self.sessions()[k], all[last_read(all, k, i as int)].1->Some_0, t),
                forall|k: Seq<char>|
                    #![trigger last_read(all, k, i as int)]
                    last_read(all, k, i as int) < 0 ==> (self.sessions().contains_key(k)
                        == old(self).sessions().contains_key(k)) && (old(self).sessions().contains_key(k)
                        ==> self.sessions()[k] == old(self).sessions()[k]),
                self.current_id() == old(self).current_id(),
                self.storage_path_view() == old(self).storage_path_view(),
            decreases n - i,
        {
            let ghost before = self.sessions();
            let (id, record) = rest.remove(0);
            assert(all[i as int] == (id, record));
            assert(rest@ == all.subrange(i + 1, n as int));
            match record {
                Some(rec) => {
                    let ghost loaded = rec;
                    self.load(id.as_str(), rec);
                    proof {
                        let after = self.sessions();
                        assert(all[i as int].1->Some_0 == loaded);
                        assert forall|k: Seq<char>| #![trigger last_read(all, k, i + 1)]
                            last_read(all, k, i + 1) >= 0 implies after.contains_key(k) && exists|t: Timestamp|
                            t.valid() && read_from(after[k], all[last_read(all, k, i + 1)].1->Some_0, t) by {
                            if k != id@ {
                                assert(last_read(all, k, i + 1) == last_read(all, k, i as int));
                                assert(before.contains_key(k));
                                assert(before.remove(id@).contains_key(k));
                                assert(after.remove(id@)[k] == before.remove(id@)[k]);
                                assert(after[k] == before[k]);
                            } else {
                                assert(last_read(all, k, i + 1) == i);
                            }
                        }
                        assert forall|k: Seq<char>| #![trigger last_read(all, k, i + 1)]
                            last_read(all, k, i + 1) < 0 implies (after.contains_key(k)
                            == old(self).sessions().contains_key(k)) && (old(self).sessions().contains_key(k)
                            ==> after[k] == old(self).sessions()[k]) by {
                            assert(k != id@);
                            assert(last_read(all, k, i + 1) == last_read(all, k, i as int));
                            assert(after.remove(id@).contains_key(k) == before.remove(id@).contains_key(k));
                            if after.contains_key(k) {
                                assert(after.remove(id@)[k] == before.remove(id@)[k]);
                            }
                        }
                    }
                },
                None => {
                    assert(forall|k: Seq<char>| #[trigger] last_read(all, k, i + 1) == last_read(all, k, i as int));
                },
            }
            i = i + 1;
        }
        proof {
            let fin = self.sessions();
            assert forall|j: int| 0 <= j < n && (#[trigger] all[j]).1 is Some implies fin.contains_key(all[j].0@) by {
                lemma_last_read_found(all, all[j].0@, n as int, j);
            }
            assert forall|k: Seq<char>| #[trigger] old(self).sessions().contains_key(k) implies fin.contains_key(k) by {
                lemma_last_read_bounds(all, k, n as int);
            }
            assert forall|k: Seq<char>| #[trigger] fin.contains_key(k) implies old(self).sessions().contains_key(k)
                || exists|j: int| 0 <= j < n && (#[trigger] all[j]).0@ == k by {
                lemma_last_read_bounds(all, k, n as int);
                if last_read(all, k, n as int) >= 0 {
                    let j = last_read(all, k, n as int);
                    assert(all[j].0@ == k);
                }
            }
        }
    }

    /// The current session, where one is current, is well formed.
    pub proof fn lemma_current_wf(&self)
        requires
            self.wf(),
        ensures
            self.current_id() matches Some(c) ==> self.sessions().contains_key(c)
                && self.sessions()[c].wf(),
    {
        if let Some(c) = self.current_session_id {
            let i = self.keys().index_of(c@);
            assert(self.keys().contains(c@));
            assert(0 <= i < self.keys().len() && self.keys()[i] == c@);
            self.lemma_entry(i);
        }
    }

    /// The session that `id` names: itself where a session has that id, else
    /// the first listed session whose id begins with it.
    pub fn resolve_id(&self, id: &str) -> (r: Option<String>)
        requires
            self.wf(),
        ensures
            self.sessions().contains_key(id@) ==> (r matches Some(k) && k@ == id@),
            r matches Some(k) ==> self.sessions().contains_key(k@) && starts_with(k@, id@),
            r is None ==> forall|k: Seq<char>|
                #[trigger] self.sessions().contains_key(k) ==> !starts_with(k, id@),
    {
        if let Some(i) = self.find(id) {
            proof {
                self.lemma_entry(i as int);
                assert(id@.subrange(0, id@.len() as int) == id@);
            }
            return Some(id.to_string());
        }
        let mut i: usize = 0;
        while i < self.entries.len()
            invariant
                self.wf(),
                !self.sessions().contains_key(id@),
                i <= self.entries@.len(),
                forall|j: int| 0 <= j < i ==> !starts_with(#[trigger] self.keys()[j], id@),
            decreases self.entries@.len() - i,
        {
            assert(self.keys()[i as int] == self.entries@[i as int].key@);
            if str_starts_with(self.entries[i].key.as_str(), id) {
                proof {
                    self.lemma_entry(i as int);
                }
                return Some(self.entries[i].key.clone());
            }
            i = i + 1;
        }
        proof {
            assert forall|k: Seq<char>| #[trigger] self.sessions().contains_key(k) implies !starts_with(
                k,
                id@,
            ) by {
                let j = self.keys().index_of(k);
                assert(self.keys()[j] == k);
            }
        }
        None
    }
}

} // verus!
