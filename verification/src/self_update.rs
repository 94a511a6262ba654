//! Edit sessions for self-modification of the agent's plugins.
//!
//! A session is opened with the commit it starts from, records the plugin
//! files it rewrites (only files under `system_core/`), and ends in a commit
//! or in a rollback that restores those files. The table of open sessions is
//! modelled as a map from session id to the session's recorded state.
use crate::text::{
    chars_of, contains, contains_spec, push_str, starts_with, starts_with_spec, string_of,
};
use vstd::prelude::*;

verus! {

/// Mathematical value of an edit session.
pub struct SessionView {
    pub files_changed: Seq<Seq<char>>,
    pub base_commit: Seq<char>,
}

/// An edit session: its id, the files it rewrote (relative to the workspace,
/// `agent_plugins/` included) and the commit it started from.
pub struct EditSession {
    pub id: String,
    pub files_changed: Vec<String>,
    pub base_commit: String,
}

pub open spec fn svec_view(v: Seq<String>) -> Seq<Seq<char>> {
    v.map_values(|s: String| s@)
}

impl View for EditSession {
    type V = SessionView;

    open spec fn view(&self) -> SessionView {
        SessionView { files_changed: svec_view(self.files_changed@), base_commit: self.base_commit@ }
    }
}

/// The map from id to session that a list of sessions stands for.
pub open spec fn map_of(s: Seq<EditSession>) -> Map<Seq<char>, SessionView>
    decreases s.len(),
{
    if s.len() == 0 {
        Map::empty()
    } else {
        map_of(s.drop_last()).insert(s.last().id@, s.last()@)
    }
}

/// No two sessions share an id.
pub open spec fn ids_unique(s: Seq<EditSession>) -> bool {
    forall|i: int, j: int| 0 <= i < s.len() && 0 <= j < s.len() && i != j ==> s[i].id@ != s[j].id@
}

proof fn lemma_map_of_index(s: Seq<EditSession>)
    requires
        ids_unique(s),
    ensures
        forall|k: Seq<char>|
            #[trigger] map_of(s).contains_key(k) <==> exists|i: int|
                0 <= i < s.len() && s[i].id@ == k,
        forall|i: int| 0 <= i < s.len() ==> #[trigger] map_of(s)[s[i].id@] == s[i]@,
    decreases s.len(),
{
    if s.len() > 0 {
        let t = s.drop_last();
        assert forall|a: int, b: int| 0 <= a < t.len() && 0 <= b < t.len() && a != b implies t[a].id@
            != t[b].id@ by {
            assert(t[a] == s[a] && t[b] == s[b]);
        }
        lemma_map_of_index(t);
        assert forall|k: Seq<char>|
            #[trigger] map_of(s).contains_key(k) <==> exists|i: int|
                0 <= i < s.len() && s[i].id@ == k by {
            if k == s.last().id@ {
                assert(s[s.len() - 1].id@ == k);
            }
            if map_of(s).contains_key(k) && k != s.last().id@ {
                assert(map_of(t).contains_key(k));
                let i = choose|i: int| 0 <= i < t.len() && t[i].id@ == k;
                assert(s[i] == t[i]);
            }
            if exists|i: int| 0 <= i < s.len() && s[i].id@ == k {
                let i = choose|i: int| 0 <= i < s.len() && s[i].id@ == k;
                if i < t.len() {
                    assert(t[i] == s[i]);
                    assert(map_of(t).contains_key(k));
                }
            }
        }
        assert forall|i: int| 0 <= i < s.len() implies #[trigger] map_of(s)[s[i].id@] == s[i]@ by {
            if i < t.len() {
                assert(t[i] == s[i]);
                assert(s[i].id@ != s.last().id@);
                assert(map_of(t)[t[i].id@] == t[i]@);
            }
        }
    }
}

proof fn lemma_map_of_remove(s: Seq<EditSession>, i: int)
    requires
        ids_unique(s),
        0 <= i < s.len(),
    ensures
        ids_unique(s.remove(i)),
        map_of(s.remove(i)) == map_of(s).remove(s[i].id@),
{
    let r = s.remove(i);
    assert forall|a: int, b: int| 0 <= a < r.len() && 0 <= b < r.len() && a != b implies r[a].id@
        != r[b].id@ by {
        let a2 = if a < i {
            a
        } else {
            a + 1
        };
        let b2 = if b < i {
            b
        } else {
            b + 1
        };
        assert(r[a] == s[a2]);
        assert(r[b] == s[b2]);
    }
    lemma_map_of_index(s);
    lemma_map_of_index(r);
    let m1 = map_of(r);
    let m2 = map_of(s).remove(s[i].id@);
    assert forall|k: Seq<char>| m1.contains_key(k) <==> m2.contains_key(k) by {
        if m1.contains_key(k) {
            let j = choose|j: int| 0 <= j < r.len() && r[j].id@ == k;
            let j2 = if j < i {
                j
            } else {
                j + 1
            };
            assert(r[j] == s[j2]);
        }
        if m2.contains_key(k) {
            let j = choose|j: int| 0 <= j < s.len() && s[j].id@ == k;
            if j < i {
                assert(r[j] == s[j]);
            } else {
                assert(j != i);
                assert(r[j - 1] == s[j]);
            }
        }
    }
    assert forall|k: Seq<char>| m1.contains_key(k) implies m1[k] == m2[k] by {
        let j = choose|j: int| 0 <= j < r.len() && r[j].id@ == k;
        let j2 = if j < i {
            j
        } else {
            j + 1
        };
        assert(r[j] == s[j2]);
        assert(m1[r[j].id@] == r[j]@);
        assert(map_of(s)[s[j2].id@] == s[j2]@);
    }
    assert(m1 =~= m2);
}

proof fn lemma_map_of_push(s: Seq<EditSession>, x: EditSession)
    requires
        ids_unique(s),
        !map_of(s).contains_key(x.id@),
    ensures
        ids_unique(s.push(x)),
        map_of(s.push(x)) == map_of(s).insert(x.id@, x@),
{
    lemma_map_of_index(s);
    let p = s.push(x);
    assert(p.drop_last() =~= s);
    assert forall|a: int, b: int| 0 <= a < p.len() && 0 <= b < p.len() && a != b implies p[a].id@
        != p[b].id@ by {
        if a < s.len() && b < s.len() {
            assert(p[a] == s[a] && p[b] == s[b]);
        } else if a < s.len() {
            assert(p[a] == s[a]);
            assert(map_of(s).contains_key(s[a].id@));
        } else {
            assert(p[b] == s[b]);
            assert(map_of(s).contains_key(s[b].id@));
        }
    }
}

/// The open edit sessions.
pub struct SessionTable {
    sessions: Vec<EditSession>,
}

impl View for SessionTable {
    type V = Map<Seq<char>, SessionView>;

    closed spec fn view(&self) -> Map<Seq<char>, SessionView> {
        map_of(self.sessions@)
    }
}

impl SessionTable {
    /// The table's invariant: no two sessions share an id.
    pub closed spec fn wf(&self) -> bool {
        ids_unique(self.sessions@)
    }

    pub fn new() -> (t: Self)
        ensures
            t.wf(),
            t@ == Map::<Seq<char>, SessionView>::empty(),
    {
        SessionTable { sessions: Vec::new() }
    }

    /// Position of the session with id `id`.
    fn position(&self, id: &str) -> (r: Option<usize>)
        requires
            self.wf(),
        ensures
            match r {
                Some(i) => i < self.sessions.len() && self.sessions@[i as int].id@ == id@,
                None => !self@.contains_key(id@),
            },
    {
        proof {
            lemma_map_of_index(self.sessions@);
        }
        let target = chars_of(id);
        let mut i: usize = 0;
        while i < self.sessions.len()
            invariant
                i <= self.sessions.len(),
                target@ == id@,
                forall|j: int| 0 <= j < i ==> self.sessions@[j].id@ != id@,
            decreases self.sessions.len() - i,
        {
            let cur = chars_of(self.sessions[i].id.as_str());
            if crate::text::chars_eq(&cur, &target) {
                return Some(i);
            }
            i = i + 1;
        }
        None
    }

    /// Whether a session with id `id` is open.
    pub fn contains(&self, id: &str) -> (b: bool)
        requires
            self.wf(),
        ensures
            b == self@.contains_key(id@),
    {
        proof {
            lemma_map_of_index(self.sessions@);
        }
        self.position(id).is_some()
    }

    /// Opens (or replaces) the session `s`.
    pub fn insert(&mut self, s: EditSession)
        requires
            old(self).wf(),
        ensures
            final(self).wf(),
            final(self)@ == old(self)@.insert(s.id@, s@),
    {
        let id = s.id.clone();
        match self.position(id.as_str()) {
            Some(i) => {
                let ghost before = self.sessions@;
                let ghost old_id = before[i as int].id@;
                proof {
                    lemma_map_of_remove(before, i as int);
                }
                self.sessions.remove(i);
                proof {
                    assert(!map_of(self.sessions@).contains_key(s.id@));
                    lemma_map_of_push(self.sessions@, s);
                    assert(map_of(before).remove(old_id).insert(s.id@, s@) =~= map_of(
                        before,
                    ).insert(s.id@, s@));
                }
                self.sessions.push(s);
            },
            None => {
                proof {
                    lemma_map_of_push(self.sessions@, s);
                }
                self.sessions.push(s);
            },
        }
    }

    /// Closes the session with id `id` and hands it back.
    pub fn remove(&mut self, id: &str) -> (r: Option<EditSession>)
        requires
            old(self).wf(),
        ensures
            final(self).wf(),
            match r {
                Some(s) => old(self)@.contains_key(id@) && s@ == old(self)@[id@] && s.id@ == id@
                    && final(self)@ == old(self)@.remove(id@),
                None => !old(self)@.contains_key(id@) && final(self)@ == old(self)@,
            },
    {
        match self.position(id) {
            Some(i) => {
                let ghost before = self.sessions@;
                proof {
                    lemma_map_of_remove(before, i as int);
                    lemma_map_of_index(before);
                }
                let s = self.sessions.remove(i);
                Some(s)
            },
            None => None,
        }
    }
}

/// Why a session request was refused.
pub enum SessionError {
    /// No open session has the given id.
    NotFound,
    /// The file is not under `system_core/`.
    OutsideSystemCore { file_name: String },
    /// The file name contains `..`, which could lead out of `agent_plugins/`.
    ParentReference { file_name: String },
}

impl SessionError {
    /// The error text shown to the agent.
    pub fn message(&self) -> (s: String)
        ensures
            s@ == match self {
                SessionError::NotFound => "Session not found"@,
                SessionError::OutsideSystemCore { file_name } =>
                    "Can only modify files under system_core/, got: "@ + file_name@,
                SessionError::ParentReference { file_name } =>
                    "File name must not contain '..', got: "@ + file_name@,
            },
    {
        match self {
            SessionError::NotFound => string_of(&chars_of("Session not found")),
            SessionError::OutsideSystemCore { file_name } => {
                let mut v = chars_of("Can only modify files under system_core/, got: ");
                push_str(&mut v, file_name.as_str());
                string_of(&v)
            },
            SessionError::ParentReference { file_name } => {
                let mut v = chars_of("File name must not contain '..', got: ");
                push_str(&mut v, file_name.as_str());
                string_of(&v)
            },
        }
    }
}

/// Where a plugin update writes, what it records, and what it answers.
pub struct PluginWrite {
    /// The file to write, relative to the workspace.
    pub path: String,
    /// The reply: `Updated <file_name>`.
    pub reply: String,
}

/// A commit of a session: the commit message and the reply.
pub struct CommitPlan {
    pub message: String,
    pub reply: String,
}

/// Opens a session that starts from `base_commit`, with a fresh id, and
/// returns the id.
pub fn start_session(table: &mut SessionTable, base_commit: String) -> (id: String)
    requires
        old(table).wf(),
    ensures
        final(table).wf(),
        crate::persistence::is_uuid_v4_text(id@),
        final(table)@ == old(table)@.insert(
            id@,
            SessionView { files_changed: Seq::empty(), base_commit: base_commit@ },
        ),
{
    let id = crate::persistence::new_session_id();
    let s = EditSession { id: id.clone(), files_changed: Vec::new(), base_commit };
    assert(svec_view(s.files_changed@) =~= Seq::<Seq<char>>::empty());
    table.insert(s);
    id
}

/// Checks a plugin update: the session must be open, the file must lie under
/// `system_core/`, and its name must not contain `..` (so the path stays
/// inside `agent_plugins/`). Gives the path to write,
/// `agent_plugins/<file_name>`.
pub fn prepare_plugin_update(table: &SessionTable, session_id: &str, file_name: &str) -> (r: Result<
    PluginWrite,
    SessionError,
>)
    requires
        table.wf(),
    ensures
        match r {
            Ok(w) => table@.contains_key(session_id@) && starts_with_spec(
                file_name@,
                "system_core/"@,
            ) && !contains_spec(file_name@, ".."@) && w.path@ == "agent_plugins/"@ + file_name@
                && w.reply@ == "Updated "@ + file_name@,
            Err(SessionError::NotFound) => !table@.contains_key(session_id@),
            Err(SessionError::OutsideSystemCore { file_name: f }) => table@.contains_key(
                session_id@,
            ) && !starts_with_spec(file_name@, "system_core/"@) && f@ == file_name@,
            Err(SessionError::ParentReference { file_name: f }) => table@.contains_key(session_id@)
                && starts_with_spec(file_name@, "system_core/"@) && contains_spec(
                file_name@,
                ".."@,
            ) && f@ == file_name@,
        },
{
    if !table.contains(session_id) {
        return Err(SessionError::NotFound);
    }
    let name = chars_of(file_name);
    let prefix = chars_of("system_core/");
    if !starts_with(&name, &prefix) {
        return Err(SessionError::OutsideSystemCore { file_name: string_of(&name) });
    }
    if contains(&name, &chars_of("..")) {
        return Err(SessionError::ParentReference { file_name: string_of(&name) });
    }
    let mut path = chars_of("agent_plugins/");
    crate::text::push_all(&mut path, &name);
    let mut reply = chars_of("Updated ");
    crate::text::push_all(&mut reply, &name);
    Ok(PluginWrite { path: string_of(&path), reply: string_of(&reply) })
}

/// Records that the session rewrote the file at `path`.
pub fn record_plugin_update(table: &mut SessionTable, session_id: &str, path: String)
    requires
        old(table).wf(),
        old(table)@.contains_key(session_id@),
    ensures
        final(table).wf(),
        final(table)@ == old(table)@.insert(
            session_id@,
            SessionView {
                files_changed: old(table)@[session_id@].files_changed.push(path@),
                ..old(table)@[session_id@]
            },
        ),
{
    let ghost before = table@;
    match table.remove(session_id) {
        Some(mut s) => {
            let ghost files = s.files_changed@;
            s.files_changed.push(path);
            assert(svec_view(s.files_changed@) =~= svec_view(files).push(path@));
            table.insert(s);
            assert(before.remove(session_id@).insert(session_id@, s@) =~= before.insert(
                session_id@,
                s@,
            ));
        },
        None => {},
    }
}

/// Checks a commit of a session: the session must be open. The commit
/// message is `<message> [session:<id>]`; the reply `Committed session <id>`.
pub fn commit_session(table: &SessionTable, session_id: &str, message: &str) -> (r: Result<
    CommitPlan,
    SessionError,
>)
    requires
        table.wf(),
    ensures
        match r {
            Ok(p) => table@.contains_key(session_id@) && p.message@ == message@ + " [session:"@
                + session_id@ + "]"@ && p.reply@ == "Committed session "@ + session_id@,
            Err(e) => !table@.contains_key(session_id@) && e is NotFound,
        },
{
    if !table.contains(session_id) {
        return Err(SessionError::NotFound);
    }
    let mut m = chars_of(message);
    push_str(&mut m, " [session:");
    push_str(&mut m, session_id);
    push_str(&mut m, "]");
    let mut reply = chars_of("Committed session ");
    push_str(&mut reply, session_id);
    Ok(CommitPlan { message: string_of(&m), reply: string_of(&reply) })
}

/// Closes a session and gives the files it rewrote, to be restored.
pub fn rollback_session(table: &mut SessionTable, session_id: &str) -> (r: Result<
    Vec<String>,
    SessionError,
>)
    requires
        old(table).wf(),
    ensures
        final(table).wf(),
        match r {
            Ok(files) => old(table)@.contains_key(session_id@) && svec_view(files@) == old(
                table,
            )@[session_id@].files_changed && final(table)@ == old(table)@.remove(session_id@),
            Err(e) => !old(table)@.contains_key(session_id@) && e is NotFound && final(table)@
                == old(table)@,
        },
{
    match table.remove(session_id) {
        Some(s) => Ok(s.files_changed),
        None => Err(SessionError::NotFound),
    }
}

/// The table after the session `id` records each of `paths`, in order.
pub open spec fn record_all(
    m: Map<Seq<char>, SessionView>,
    id: Seq<char>,
    paths: Seq<Seq<char>>,
) -> Map<Seq<char>, SessionView>
    decreases paths.len(),
{
    if paths.len() == 0 {
        m
    } else {
        let m2 = record_all(m, id, paths.drop_last());
        m2.insert(
            id,
            SessionView { files_changed: m2[id].files_changed.push(paths.last()), ..m2[id] },
        )
    }
}

/// Rollback law: a session opened on a table, which then records some files,
/// gives back exactly those files, in order, when it is rolled back, and the
/// table is left as it was apart from that session.
pub proof fn lemma_rollback_returns_recorded(
    m: Map<Seq<char>, SessionView>,
    id: Seq<char>,
    base: Seq<char>,
    paths: Seq<Seq<char>>,
)
    ensures
        ({
            let opened = m.insert(id, SessionView { files_changed: Seq::empty(), base_commit: base });
            let after = record_all(opened, id, paths);
            &&& after.contains_key(id)
            &&& after[id].files_changed == paths
            &&& after[id].base_commit == base
            &&& after.remove(id) == m.remove(id)
        }),
    decreases paths.len(),
{
    let opened = m.insert(id, SessionView { files_changed: Seq::empty(), base_commit: base });
    if paths.len() == 0 {
        assert(opened.remove(id) =~= m.remove(id));
    } else {
        lemma_rollback_returns_recorded(m, id, base, paths.drop_last());
        let m2 = record_all(opened, id, paths.drop_last());
        let after = record_all(opened, id, paths);
        assert(paths.drop_last().push(paths.last()) =~= paths);
        assert(after.remove(id) =~= m2.remove(id));
    }
}

} // verus!
