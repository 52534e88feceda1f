//! The session store: chat sessions and their messages, with the queries
//! and updates the server performs on them.
//!
//! Rows keep the order in which they were inserted, identifiers are handed
//! out by a counter that never goes back, and every message belongs to a
//! stored session. Timestamps are microseconds since the Unix epoch, read
//! from the clock by the caller and passed in.

use vstd::prelude::*;
use vstd::string::*;
use crate::error::{ClaiError, ClaiErrorView, DbError, DbErrorView};
use crate::text::{int_decimal, push_int};

verus! {

/// A stored chat session.
pub struct Session {
    pub id: i32,
    pub name: String,
    pub display_name: Option<String>,
    pub created_at: i64,
    pub updated_at: i64,
    pub role: Option<String>,
    pub model: Option<String>,
}

/// The spec-level value of a `Session`.
pub struct SessionView {
    pub id: int,
    pub name: Seq<char>,
    pub display_name: Option<Seq<char>>,
    pub created_at: int,
    pub updated_at: int,
    pub role: Option<Seq<char>>,
    pub model: Option<Seq<char>>,
}

/// A stored chat message.
pub struct Message {
    pub id: i32,
    pub session_id: i32,
    pub role: String,
    pub content: String,
    pub created_at: i64,
}

/// The spec-level value of a `Message`.
pub struct MessageView {
    pub id: int,
    pub session_id: int,
    pub role: Seq<char>,
    pub content: Seq<char>,
    pub created_at: int,
}

/// The view of an optional string.
pub open spec fn opt_view(o: Option<String>) -> Option<Seq<char>> {
    match o {
        Some(s) => Some(s@),
        None => None,
    }
}

/// The view of an optional string slice.
pub open spec fn opt_str_view(o: Option<&str>) -> Option<Seq<char>> {
    match o {
        Some(s) => Some(s@),
        None => None,
    }
}

impl View for Session {
    type V = SessionView;

    open spec fn view(&self) -> SessionView {
        SessionView {
            id: self.id as int,
            name: self.name@,
            display_name: opt_view(self.display_name),
            created_at: self.created_at as int,
            updated_at: self.updated_at as int,
            role: opt_view(self.role),
            model: opt_view(self.model),
        }
    }
}

impl View for Message {
    type V = MessageView;

    open spec fn view(&self) -> MessageView {
        MessageView {
            id: self.id as int,
            session_id: self.session_id as int,
            role: self.role@,
            content: self.content@,
            created_at: self.created_at as int,
        }
    }
}

/// A copy of an optional string.
pub fn clone_opt(o: &Option<String>) -> (r: Option<String>)
    ensures
        opt_view(r) == opt_view(*o),
{
    match o {
        Some(s) => Some(s.clone()),
        None => None,
    }
}

/// An owned copy of an optional string slice.
pub fn own_opt(o: Option<&str>) -> (r: Option<String>)
    ensures
        opt_view(r) == opt_str_view(o),
{
    match o {
        Some(s) => Some(String::from_str(s)),
        None => None,
    }
}

impl Session {
    /// A copy of this session.
    pub fn duplicate(&self) -> (r: Session)
        ensures
            r@ == self@,
    {
        Session {
            id: self.id,
            name: self.name.clone(),
            display_name: clone_opt(&self.display_name),
            created_at: self.created_at,
            updated_at: self.updated_at,
            role: clone_opt(&self.role),
            model: clone_opt(&self.model),
        }
    }
}

impl Message {
    /// A copy of this message.
    pub fn duplicate(&self) -> (r: Message)
        ensures
            r@ == self@,
    {
        Message {
            id: self.id,
            session_id: self.session_id,
            role: self.role.clone(),
            content: self.content.clone(),
            created_at: self.created_at,
        }
    }
}

/// The views of a sequence of sessions.
pub open spec fn session_views(v: Seq<Session>) -> Seq<SessionView> {
    v.map_values(|s: Session| s@)
}

/// The views of a sequence of messages.
pub open spec fn message_views(v: Seq<Message>) -> Seq<MessageView> {
    v.map_values(|m: Message| m@)
}

// ---------------------------------------------------------------------------
// Selections
// ---------------------------------------------------------------------------

/// Which sessions a selection keeps.
pub enum SessionFilter {
    /// Sessions that have a display name.
    Named,
    /// Sessions whose display name is the given text.
    DisplayName(Seq<char>),
    /// Sessions other than the one with the given id.
    OtherThan(int),
    /// Sessions that survive a cleanup that keeps the session with the given id:
    /// that session and every session with a display name.
    SurvivesCleanup(int),
    /// Sessions a cleanup that keeps the session with the given id removes:
    /// every other session without a display name.
    RemovedByCleanup(int),
}

/// A session selection `f` keeps session `s`.
pub open spec fn session_kept(f: SessionFilter, s: SessionView) -> bool {
    match f {
        SessionFilter::Named => s.display_name is Some,
        SessionFilter::DisplayName(n) => s.display_name == Some(n),
        SessionFilter::OtherThan(id) => s.id != id,
        SessionFilter::SurvivesCleanup(keep) => s.id == keep || s.display_name is Some,
        SessionFilter::RemovedByCleanup(keep) => s.id != keep && s.display_name is None,
    }
}

/// The predicate of selection `f`.
pub open spec fn session_pred(f: SessionFilter) -> spec_fn(SessionView) -> bool {
    |s: SessionView| session_kept(f, s)
}

/// Which messages a selection keeps.
pub enum MessageFilter {
    /// Messages of the session with the given id.
    Of(int),
    /// Messages of sessions whose id is not in the given list.
    NotOf(Seq<int>),
}

/// A message selection `f` keeps message `m`.
pub open spec fn message_kept(f: MessageFilter, m: MessageView) -> bool {
    match f {
        MessageFilter::Of(id) => m.session_id == id,
        MessageFilter::NotOf(ids) => !ids.contains(m.session_id),
    }
}

/// The predicate of selection `f`.
pub open spec fn message_pred(f: MessageFilter) -> spec_fn(MessageView) -> bool {
    |m: MessageView| message_kept(f, m)
}

/// Exec form of a session selection.
enum SessionSelect {
    Named,
    DisplayName(String),
    OtherThan(i32),
    SurvivesCleanup(i32),
    RemovedByCleanup(i32),
}

impl SessionSelect {
    spec fn spec_filter(&self) -> SessionFilter {
        match self {
            SessionSelect::Named => SessionFilter::Named,
            SessionSelect::DisplayName(n) => SessionFilter::DisplayName(n@),
            SessionSelect::OtherThan(id) => SessionFilter::OtherThan(*id as int),
            SessionSelect::SurvivesCleanup(id) => SessionFilter::SurvivesCleanup(*id as int),
            SessionSelect::RemovedByCleanup(id) => SessionFilter::RemovedByCleanup(*id as int),
        }
    }

    fn keeps(&self, s: &Session) -> (b: bool)
        ensures
            b == session_kept(self.spec_filter(), s@),
    {
        match self {
            SessionSelect::Named => s.display_name.is_some(),
            SessionSelect::DisplayName(n) => match &s.display_name {
                Some(d) => *d == *n,
                None => false,
            },
            SessionSelect::OtherThan(id) => s.id != *id,
            SessionSelect::SurvivesCleanup(id) => s.id == *id || s.display_name.is_some(),
            SessionSelect::RemovedByCleanup(id) => s.id != *id && s.display_name.is_none(),
        }
    }
}

/// Exec form of a message selection.
enum MessageSelect {
    Of(i32),
    NotOf(Vec<i32>),
}

pub open spec fn int_views(v: Seq<i32>) -> Seq<int> {
    v.map_values(|x: i32| x as int)
}

fn contains_id(ids: &Vec<i32>, id: i32) -> (b: bool)
    ensures
        b == int_views(ids@).contains(id as int),
{
    let mut i: usize = 0;
    while i < ids.len()
        invariant
            i <= ids@.len(),
            forall|j: int| 0 <= j < i ==> ids@[j] != id,
        decreases ids@.len() - i,
    {
        if ids[i] == id {
            assert(int_views(ids@)[i as int] == id as int);
            return true;
        }
        i = i + 1;
    }
    assert forall|j: int| 0 <= j < int_views(ids@).len() implies int_views(ids@)[j] != id as int by {
        assert(ids@[j] != id);
    }
    false
}

impl MessageSelect {
    spec fn spec_filter(&self) -> MessageFilter {
        match self {
            MessageSelect::Of(id) => MessageFilter::Of(*id as int),
            MessageSelect::NotOf(ids) => MessageFilter::NotOf(int_views(ids@)),
        }
    }

    fn keeps(&self, m: &Message) -> (b: bool)
        ensures
            b == message_kept(self.spec_filter(), m@),
    {
        match self {
            MessageSelect::Of(id) => m.session_id == *id,
            MessageSelect::NotOf(ids) => !contains_id(ids, m.session_id),
        }
    }
}

fn select_sessions(v: &Vec<Session>, sel: &SessionSelect) -> (r: Vec<Session>)
    ensures
        session_views(r@) == session_views(v@).filter(session_pred(sel.spec_filter())),
{
    let ghost pred = session_pred(sel.spec_filter());
    let mut r: Vec<Session> = Vec::new();
    let mut i: usize = 0;
    while i < v.len()
        invariant
            i <= v@.len(),
            pred == session_pred(sel.spec_filter()),
            session_views(r@) == session_views(v@).take(i as int).filter(pred),
        decreases v@.len() - i,
    {
        let ghost before = session_views(r@);
        let keep = sel.keeps(&v[i]);
        if keep {
            r.push(v[i].duplicate());
        }
        proof {
            let t = session_views(v@).take(i + 1);
            assert(t.drop_last() =~= session_views(v@).take(i as int));
            assert(t.last() == v@[i as int]@);
            reveal(Seq::filter);
            if keep {
                assert(session_views(r@) =~= before.push(v@[i as int]@));
            } else {
                assert(session_views(r@) =~= before);
            }
        }
        i = i + 1;
    }
    assert(session_views(v@).take(v@.len() as int) =~= session_views(v@));
    r
}

fn select_messages(v: &Vec<Message>, sel: &MessageSelect) -> (r: Vec<Message>)
    ensures
        message_views(r@) == message_views(v@).filter(message_pred(sel.spec_filter())),
{
    let ghost pred = message_pred(sel.spec_filter());
    let mut r: Vec<Message> = Vec::new();
    let mut i: usize = 0;
    while i < v.len()
        invariant
            i <= v@.len(),
            pred == message_pred(sel.spec_filter()),
            message_views(r@) == message_views(v@).take(i as int).filter(pred),
        decreases v@.len() - i,
    {
        let ghost before = message_views(r@);
        let keep = sel.keeps(&v[i]);
        if keep {
            r.push(v[i].duplicate());
        }
        proof {
            let t = message_views(v@).take(i + 1);
            assert(t.drop_last() =~= message_views(v@).take(i as int));
            assert(t.last() == v@[i as int]@);
            reveal(Seq::filter);
            if keep {
                assert(message_views(r@) =~= before.push(v@[i as int]@));
            } else {
                assert(message_views(r@) =~= before);
            }
        }
        i = i + 1;
    }
    assert(message_views(v@).take(v@.len() as int) =~= message_views(v@));
    r
}


// ---------------------------------------------------------------------------
// Orderings
// ---------------------------------------------------------------------------

/// Which timestamp of a session an ordering looks at.
pub open spec fn stamp(s: SessionView, by_update: bool) -> int {
    if by_update {
        s.updated_at
    } else {
        s.created_at
    }
}

/// Position of the newest session of a non-empty sequence by the chosen
/// timestamp; among sessions with the same timestamp, the one stored last.
pub open spec fn newest_index(s: Seq<SessionView>, by_update: bool) -> int
    decreases s.len(),
{
    if s.len() <= 1 {
        0
    } else {
        let j = newest_index(s.drop_last(), by_update);
        if stamp(s.last(), by_update) >= stamp(s[j], by_update) {
            s.len() - 1
        } else {
            j
        }
    }
}

/// The newest session is in range, no session is newer, and every session
/// stored after it is strictly older.
pub proof fn lemma_newest_index(s: Seq<SessionView>, by_update: bool)
    requires
        s.len() > 0,
    ensures
        0 <= newest_index(s, by_update) < s.len(),
        forall|k: int|
            0 <= k < s.len() ==> stamp(#[trigger] s[k], by_update) <= stamp(
                s[newest_index(s, by_update)],
                by_update,
            ),
        forall|k: int|
            newest_index(s, by_update) < k < s.len() ==> stamp(#[trigger] s[k], by_update) < stamp(
                s[newest_index(s, by_update)],
                by_update,
            ),
    decreases s.len(),
{
    if s.len() > 1 {
        let d = s.drop_last();
        lemma_newest_index(d, by_update);
        let j = newest_index(d, by_update);
        assert(d[j] == s[j]);
        assert forall|k: int| 0 <= k < s.len() - 1 implies #[trigger] s[k] == d[k] by {}
    }
}

fn session_stamp(s: &Session, by_update: bool) -> (t: i64)
    ensures
        t as int == stamp(s@, by_update),
{
    if by_update {
        s.updated_at
    } else {
        s.created_at
    }
}

/// Position of the newest session by the chosen timestamp.
fn find_newest(v: &Vec<Session>, by_update: bool) -> (idx: usize)
    requires
        v@.len() > 0,
    ensures
        idx as int == newest_index(session_views(v@), by_update),
        idx < v@.len(),
{
    let ghost sv = session_views(v@);
    let mut best: usize = 0;
    let mut i: usize = 1;
    assert(sv.take(1).len() == 1);
    while i < v.len()
        invariant
            1 <= i <= v@.len(),
            sv == session_views(v@),
            best < i,
            best as int == newest_index(sv.take(i as int), by_update),
        decreases v@.len() - i,
    {
        proof {
            let t = sv.take(i + 1);
            assert(t.drop_last() =~= sv.take(i as int));
            assert(t.last() == v@[i as int]@);
            assert(t[best as int] == v@[best as int]@);
        }
        if session_stamp(&v[i], by_update) >= session_stamp(&v[best], by_update) {
            best = i;
        }
        i = i + 1;
    }
    assert(sv.take(v@.len() as int) =~= sv);
    best
}

/// `x` placed into `r` after the leading run of sessions created at or after `x`.
pub open spec fn insert_newest_first(r: Seq<SessionView>, x: SessionView) -> Seq<SessionView>
    decreases r.len(),
{
    if r.len() == 0 {
        seq![x]
    } else if r[0].created_at < x.created_at {
        seq![x] + r
    } else {
        seq![r[0]] + insert_newest_first(r.drop_first(), x)
    }
}

/// Sessions ordered newest first by creation time; sessions created at the
/// same time keep their stored order.
pub open spec fn newest_first(s: Seq<SessionView>) -> Seq<SessionView>
    decreases s.len(),
{
    if s.len() == 0 {
        s
    } else {
        insert_newest_first(newest_first(s.drop_last()), s.last())
    }
}

proof fn lemma_insert_newest_at(r: Seq<SessionView>, x: SessionView, p: int)
    requires
        0 <= p <= r.len(),
        forall|j: int| 0 <= j < p ==> r[j].created_at >= x.created_at,
        p < r.len() ==> r[p].created_at < x.created_at,
    ensures
        insert_newest_first(r, x) == r.insert(p, x),
    decreases p,
{
    if p == 0 {
        assert(r.insert(p, x) =~= seq![x] + r);
    } else {
        lemma_insert_newest_at(r.drop_first(), x, p - 1);
        assert(r.insert(p, x) =~= seq![r[0]] + r.drop_first().insert(p - 1, x));
    }
}

fn sort_newest_first(v: &Vec<Session>) -> (r: Vec<Session>)
    ensures
        session_views(r@) == newest_first(session_views(v@)),
{
    let ghost sv = session_views(v@);
    let mut r: Vec<Session> = Vec::new();
    let mut i: usize = 0;
    assert(sv.take(0) =~= Seq::<SessionView>::empty());
    while i < v.len()
        invariant
            i <= v@.len(),
            sv == session_views(v@),
            session_views(r@) == newest_first(sv.take(i as int)),
        decreases v@.len() - i,
    {
        let x = v[i].duplicate();
        let mut p: usize = 0;
        while p < r.len() && r[p].created_at >= x.created_at
            invariant
                p <= r@.len(),
                forall|j: int| 0 <= j < p ==> r@[j].created_at >= x.created_at,
            decreases r@.len() - p,
        {
            p = p + 1;
        }
        let ghost before = session_views(r@);
        proof {
            lemma_insert_newest_at(before, x@, p as int);
            let t = sv.take(i + 1);
            assert(t.drop_last() =~= sv.take(i as int));
            assert(t.last() == x@);
        }
        r.insert(p, x);
        assert(session_views(r@) =~= before.insert(p as int, x@));
        i = i + 1;
    }
    assert(sv.take(v@.len() as int) =~= sv);
    r
}

/// `x` placed into `r` after the leading run of messages created at or
/// before `x`.
pub open spec fn insert_oldest_first(r: Seq<MessageView>, x: MessageView) -> Seq<MessageView>
    decreases r.len(),
{
    if r.len() == 0 {
        seq![x]
    } else if r[0].created_at > x.created_at {
        seq![x] + r
    } else {
        seq![r[0]] + insert_oldest_first(r.drop_first(), x)
    }
}

/// Messages ordered oldest first by creation time; messages created at the
/// same time keep their stored order.
pub open spec fn oldest_first(s: Seq<MessageView>) -> Seq<MessageView>
    decreases s.len(),
{
    if s.len() == 0 {
        s
    } else {
        insert_oldest_first(oldest_first(s.drop_last()), s.last())
    }
}

proof fn lemma_insert_oldest_at(r: Seq<MessageView>, x: MessageView, p: int)
    requires
        0 <= p <= r.len(),
        forall|j: int| 0 <= j < p ==> r[j].created_at <= x.created_at,
        p < r.len() ==> r[p].created_at > x.created_at,
    ensures
        insert_oldest_first(r, x) == r.insert(p, x),
    decreases p,
{
    if p == 0 {
        assert(r.insert(p, x) =~= seq![x] + r);
    } else {
        lemma_insert_oldest_at(r.drop_first(), x, p - 1);
        assert(r.insert(p, x) =~= seq![r[0]] + r.drop_first().insert(p - 1, x));
    }
}

fn sort_oldest_first(v: &Vec<Message>) -> (r: Vec<Message>)
    ensures
        message_views(r@) == oldest_first(message_views(v@)),
{
    let ghost mv = message_views(v@);
    let mut r: Vec<Message> = Vec::new();
    let mut i: usize = 0;
    assert(mv.take(0) =~= Seq::<MessageView>::empty());
    while i < v.len()
        invariant
            i <= v@.len(),
            mv == message_views(v@),
            message_views(r@) == oldest_first(mv.take(i as int)),
        decreases v@.len() - i,
    {
        let x = v[i].duplicate();
        let mut p: usize = 0;
        while p < r.len() && r[p].created_at <= x.created_at
            invariant
                p <= r@.len(),
                forall|j: int| 0 <= j < p ==> r@[j].created_at <= x.created_at,
            decreases r@.len() - p,
        {
            p = p + 1;
        }
        let ghost before = message_views(r@);
        proof {
            lemma_insert_oldest_at(before, x@, p as int);
            let t = mv.take(i + 1);
            assert(t.drop_last() =~= mv.take(i as int));
            assert(t.last() == x@);
        }
        r.insert(p, x);
        assert(message_views(r@) =~= before.insert(p as int, x@));
        i = i + 1;
    }
    assert(mv.take(v@.len() as int) =~= mv);
    r
}


// ---------------------------------------------------------------------------
// The store
// ---------------------------------------------------------------------------

/// The spec-level value of the store: both tables in stored order and the
/// next identifier each will hand out.
pub struct DbView {
    pub sessions: Seq<SessionView>,
    pub messages: Seq<MessageView>,
    pub next_session_id: int,
    pub next_message_id: int,
}

/// The error for a session id that is not stored.
pub open spec fn not_found_by_id(id: int) -> ClaiErrorView {
    ClaiErrorView::Database(
        DbErrorView::RecordNotFound("Session "@ + int_decimal(id) + " not found"@),
    )
}

/// The error for a display name no session has.
pub open spec fn not_found_by_name(name: Seq<char>) -> ClaiErrorView {
    ClaiErrorView::Database(DbErrorView::RecordNotFound("Session '"@ + name + "' not found"@))
}

/// The error for an empty session table.
pub open spec fn no_sessions() -> ClaiErrorView {
    ClaiErrorView::Database(DbErrorView::RecordNotFound("No sessions found"@))
}

/// The error for an identifier space that is used up.
pub open spec fn storage_full() -> ClaiErrorView {
    ClaiErrorView::Database(DbErrorView::Exec("database or disk is full"@))
}

/// The error for a message whose session is not stored.
pub open spec fn missing_parent() -> ClaiErrorView {
    ClaiErrorView::Database(DbErrorView::Exec("FOREIGN KEY constraint failed"@))
}

/// The view of a session result.
pub open spec fn session_result(r: Result<Session, ClaiError>) -> Result<SessionView, ClaiErrorView> {
    match r {
        Ok(s) => Ok(s@),
        Err(e) => Err(e@),
    }
}

/// The view of a message result.
pub open spec fn message_result(r: Result<Message, ClaiError>) -> Result<MessageView, ClaiErrorView> {
    match r {
        Ok(m) => Ok(m@),
        Err(e) => Err(e@),
    }
}

/// The view of a result that carries no value.
pub open spec fn unit_result(r: Result<(), ClaiError>) -> Result<(), ClaiErrorView> {
    match r {
        Ok(()) => Ok(()),
        Err(e) => Err(e@),
    }
}

/// The view of a count result.
pub open spec fn count_result(r: Result<usize, ClaiError>) -> Result<int, ClaiErrorView> {
    match r {
        Ok(n) => Ok(n as int),
        Err(e) => Err(e@),
    }
}

impl DbView {
    /// A session with this id is stored.
    pub open spec fn has_session(self, id: int) -> bool {
        exists|i: int| 0 <= i < self.sessions.len() && #[trigger] self.sessions[i].id == id
    }

    /// The well-formedness of the store: identifiers increase in stored
    /// order and stay below the counters, and every message's session is stored.
    pub open spec fn wf(self) -> bool {
        &&& 1 <= self.next_session_id <= i32::MAX
        &&& 1 <= self.next_message_id <= i32::MAX
        &&& forall|i: int, j: int|
            #![trigger self.sessions[i], self.sessions[j]]
            0 <= i < j < self.sessions.len() ==> self.sessions[i].id < self.sessions[j].id
        &&& forall|i: int|
            0 <= i < self.sessions.len() ==> 1 <= #[trigger] self.sessions[i].id
                < self.next_session_id
        &&& forall|i: int, j: int|
            #![trigger self.messages[i], self.messages[j]]
            0 <= i < j < self.messages.len() ==> self.messages[i].id < self.messages[j].id
        &&& forall|i: int|
            0 <= i < self.messages.len() ==> 1 <= #[trigger] self.messages[i].id
                < self.next_message_id
        &&& forall|i: int|
            0 <= i < self.messages.len() ==> self.has_session(#[trigger] self.messages[i].session_id)
    }

    /// Position of the session with this id.
    pub open spec fn session_pos(self, id: int) -> int {
        choose|i: int| 0 <= i < self.sessions.len() && #[trigger] self.sessions[i].id == id
    }

    /// The session a new insert creates.
    pub open spec fn new_session(
        self,
        name: Seq<char>,
        display_name: Option<Seq<char>>,
        now: int,
    ) -> SessionView {
        SessionView {
            id: self.next_session_id,
            name,
            display_name,
            created_at: now,
            updated_at: now,
            role: None,
            model: None,
        }
    }

    /// Inserting a session: a fresh id, both timestamps `now`, no role and no model.
    pub open spec fn create_session(
        self,
        name: Seq<char>,
        display_name: Option<Seq<char>>,
        now: int,
    ) -> (DbView, Result<SessionView, ClaiErrorView>) {
        if self.next_session_id >= i32::MAX {
            (self, Err(storage_full()))
        } else {
            let s = self.new_session(name, display_name, now);
            (
                DbView {
                    sessions: self.sessions.push(s),
                    next_session_id: self.next_session_id + 1,
                    ..self
                },
                Ok(s),
            )
        }
    }

    /// Looking a session up by id.
    pub open spec fn get_session_by_id(self, id: int) -> Result<SessionView, ClaiErrorView> {
        if self.has_session(id) {
            Ok(self.sessions[self.session_pos(id)])
        } else {
            Err(not_found_by_id(id))
        }
    }

    /// The most recently updated session.
    pub open spec fn get_last_session(self) -> Result<SessionView, ClaiErrorView> {
        if self.sessions.len() == 0 {
            Err(no_sessions())
        } else {
            Ok(self.sessions[newest_index(self.sessions, true)])
        }
    }

    /// The sessions whose display name is `name`, in stored order.
    pub open spec fn sessions_named(self, name: Seq<char>) -> Seq<SessionView> {
        self.sessions.filter(session_pred(SessionFilter::DisplayName(name)))
    }

    /// The most recently created session with display name `name`.
    pub open spec fn get_session_by_name(self, name: Seq<char>) -> Result<SessionView, ClaiErrorView> {
        let c = self.sessions_named(name);
        if c.len() == 0 {
            Err(not_found_by_name(name))
        } else {
            Ok(c[newest_index(c, false)])
        }
    }

    /// The sessions that have a display name, newest first.
    pub open spec fn list_named_sessions(self) -> Seq<SessionView> {
        newest_first(self.sessions.filter(session_pred(SessionFilter::Named)))
    }

    /// Replacing the session with id `id` by `updated`.
    pub open spec fn update_session(
        self,
        id: int,
        updated: SessionView,
    ) -> (DbView, Result<SessionView, ClaiErrorView>) {
        if self.has_session(id) {
            (DbView { sessions: self.sessions.update(self.session_pos(id), updated), ..self }, Ok(updated))
        } else {
            (self, Err(not_found_by_id(id)))
        }
    }

    /// Setting the display name of session `id`.
    pub open spec fn update_display_name(self, id: int, display_name: Seq<char>) -> (
        DbView,
        Result<SessionView, ClaiErrorView>,
    ) {
        self.update_session(
            id,
            SessionView { display_name: Some(display_name), ..self.sessions[self.session_pos(id)] },
        )
    }

    /// Setting the last-access time of session `id`.
    pub open spec fn update_timestamp(self, id: int, now: int) -> (
        DbView,
        Result<SessionView, ClaiErrorView>,
    ) {
        self.update_session(
            id,
            SessionView { updated_at: now, ..self.sessions[self.session_pos(id)] },
        )
    }

    /// Setting (or clearing) the role of session `id`.
    pub open spec fn update_role(self, id: int, role: Option<Seq<char>>) -> (
        DbView,
        Result<SessionView, ClaiErrorView>,
    ) {
        self.update_session(id, SessionView { role, ..self.sessions[self.session_pos(id)] })
    }

    /// Setting the model of session `id`.
    pub open spec fn update_model(self, id: int, model: Seq<char>) -> (
        DbView,
        Result<SessionView, ClaiErrorView>,
    ) {
        self.update_session(
            id,
            SessionView { model: Some(model), ..self.sessions[self.session_pos(id)] },
        )
    }

    /// The store without session `id` and without its messages.
    pub open spec fn without_session(self, id: int) -> DbView {
        DbView {
            sessions: self.sessions.filter(session_pred(SessionFilter::OtherThan(id))),
            messages: self.messages.filter(message_pred(MessageFilter::NotOf(seq![id]))),
            ..self
        }
    }

    /// Deleting the session `get_session_by_name(name)` finds, with its messages.
    pub open spec fn delete_session_by_name(self, name: Seq<char>) -> (
        DbView,
        Result<(), ClaiErrorView>,
    ) {
        match self.get_session_by_name(name) {
            Ok(s) => (self.without_session(s.id), Ok(())),
            Err(e) => (self, Err(e)),
        }
    }

    /// The ids of the sessions a cleanup keeping session `keep` removes:
    /// every other session without a display name, in stored order.
    pub open spec fn cleanup_victims(self, keep: int) -> Seq<int> {
        ids_of_sessions(self.sessions.filter(session_pred(SessionFilter::RemovedByCleanup(keep))))
    }

    /// Cleanup: keep the most recently created session and every named
    /// session, delete the other sessions and their messages, and report how
    /// many rows went (messages plus sessions).
    pub open spec fn cleanup_old_sessions(self) -> (DbView, Result<int, ClaiErrorView>) {
        if self.sessions.len() == 0 {
            (self, Ok(0))
        } else {
            let keep = self.sessions[newest_index(self.sessions, false)].id;
            let victims = self.cleanup_victims(keep);
            if victims.len() == 0 {
                (self, Ok(0))
            } else {
                let messages = self.messages.filter(message_pred(MessageFilter::NotOf(victims)));
                let sessions = self.sessions.filter(
                    session_pred(SessionFilter::SurvivesCleanup(keep)),
                );
                (
                    DbView { sessions, messages, ..self },
                    Ok((self.messages.len() - messages.len()) + victims.len()),
                )
            }
        }
    }

    /// Inserting a message into session `session_id` at time `now`.
    pub open spec fn create_message(
        self,
        session_id: int,
        role: Seq<char>,
        content: Seq<char>,
        now: int,
    ) -> (DbView, Result<MessageView, ClaiErrorView>) {
        if !self.has_session(session_id) {
            (self, Err(missing_parent()))
        } else if self.next_message_id >= i32::MAX {
            (self, Err(storage_full()))
        } else {
            let m = MessageView {
                id: self.next_message_id,
                session_id,
                role,
                content,
                created_at: now,
            };
            (
                DbView {
                    messages: self.messages.push(m),
                    next_message_id: self.next_message_id + 1,
                    ..self
                },
                Ok(m),
            )
        }
    }

    /// The messages of session `session_id`, oldest first.
    pub open spec fn session_messages(self, session_id: int) -> Seq<MessageView> {
        oldest_first(self.messages.filter(message_pred(MessageFilter::Of(session_id))))
    }
}

/// The ids of a sequence of sessions, in order.
pub open spec fn ids_of_sessions(s: Seq<SessionView>) -> Seq<int> {
    s.map_values(|x: SessionView| x.id)
}

/// A result with its value dropped.
pub open spec fn without_value<T>(r: Result<T, ClaiErrorView>) -> Result<(), ClaiErrorView> {
    match r {
        Ok(_) => Ok(()),
        Err(e) => Err(e),
    }
}

/// The session with a given id is found at the position `session_pos` names.
pub proof fn lemma_session_pos(db: DbView, id: int, p: int)
    requires
        db.wf(),
        0 <= p < db.sessions.len(),
        db.sessions[p].id == id,
    ensures
        db.has_session(id),
        db.session_pos(id) == p,
{
    assert(db.has_session(id));
    let q = db.session_pos(id);
    if q < p {
        assert(db.sessions[q].id < db.sessions[p].id);
    } else if q > p {
        assert(db.sessions[p].id < db.sessions[q].id);
    }
}

/// The session store.
pub struct ClaiDb {
    sessions: Vec<Session>,
    messages: Vec<Message>,
    next_session_id: i32,
    next_message_id: i32,
}

impl ClaiDb {
    /// Every store the library hands out is well formed.
    #[verifier::type_invariant]
    pub open spec fn well_formed(self) -> bool {
        self@.wf()
    }
}

impl View for ClaiDb {
    type V = DbView;

    closed spec fn view(&self) -> DbView {
        DbView {
            sessions: session_views(self.sessions@),
            messages: message_views(self.messages@),
            next_session_id: self.next_session_id as int,
            next_message_id: self.next_message_id as int,
        }
    }
}


// ---------------------------------------------------------------------------
// Order and membership facts
// ---------------------------------------------------------------------------

/// A selection keeps the stored order of a sequence whose keys increase, and
/// holds only elements of the sequence that the predicate accepts.
pub proof fn lemma_filter_increasing<A>(s: Seq<A>, pred: spec_fn(A) -> bool, key: spec_fn(A) -> int)
    requires
        forall|i: int, j: int| #![trigger s[i], s[j]] 0 <= i < j < s.len() ==> key(s[i]) < key(s[j]),
    ensures
        forall|i: int, j: int|
            #![trigger s.filter(pred)[i], s.filter(pred)[j]]
            0 <= i < j < s.filter(pred).len() ==> key(s.filter(pred)[i]) < key(s.filter(pred)[j]),
        forall|k: int|
            0 <= k < s.filter(pred).len() ==> s.contains(#[trigger] s.filter(pred)[k]) && pred(
                s.filter(pred)[k],
            ),
    decreases s.len(),
{
    reveal(Seq::filter);
    if s.len() > 0 {
        let d = s.drop_last();
        assert forall|i: int, j: int| #![trigger d[i], d[j]] 0 <= i < j < d.len() implies key(d[i]) < key(d[j]) by {
            assert(d[i] == s[i] && d[j] == s[j]);
        }
        lemma_filter_increasing(d, pred, key);
        let fd = d.filter(pred);
        let f = s.filter(pred);
        assert forall|k: int| 0 <= k < fd.len() implies key(#[trigger] fd[k]) < key(s.last()) by {
            let w = choose|w: int| 0 <= w < d.len() && d[w] == fd[k];
            assert(s[w] == d[w]);
            assert(key(s[w]) < key(s[s.len() - 1]));
        }
        if pred(s.last()) {
            assert(f == fd.push(s.last()));
            assert forall|k: int| 0 <= k < f.len() implies s.contains(#[trigger] f[k]) && pred(f[k]) by {
                if k < fd.len() {
                    assert(f[k] == fd[k]);
                    let w = choose|w: int| 0 <= w < d.len() && d[w] == fd[k];
                    assert(s[w] == d[w]);
                } else {
                    assert(f[k] == s[s.len() - 1]);
                }
            }
            assert forall|i: int, j: int| #![trigger f[i], f[j]] 0 <= i < j < f.len() implies key(f[i]) < key(f[j]) by {
                assert(f[i] == fd[i]);
                if j < fd.len() {
                    assert(f[j] == fd[j]);
                } else {
                    assert(f[j] == s.last());
                }
            }
        } else {
            assert(f == fd);
            assert forall|k: int| 0 <= k < f.len() implies s.contains(#[trigger] f[k]) && pred(f[k]) by {
                let w = choose|w: int| 0 <= w < d.len() && d[w] == fd[k];
                assert(s[w] == d[w]);
            }
        }
    }
}

/// An element the predicate accepts is kept by the selection.
pub proof fn lemma_filter_keeps<A>(s: Seq<A>, pred: spec_fn(A) -> bool, i: int)
    requires
        0 <= i < s.len(),
        pred(s[i]),
    ensures
        s.filter(pred).contains(s[i]),
{
    broadcast use vstd::seq_lib::group_filter_ensures;
    assert(s.filter(pred).contains(s[i]));
}

/// Strictly increasing keys that start at 1 or more reach at least the length.
pub proof fn lemma_increasing_len<A>(s: Seq<A>, key: spec_fn(A) -> int, bound: int)
    requires
        forall|i: int, j: int| #![trigger s[i], s[j]] 0 <= i < j < s.len() ==> key(s[i]) < key(s[j]),
        forall|i: int| 0 <= i < s.len() ==> 1 <= #[trigger] key(s[i]) < bound,
        bound >= 1,
    ensures
        s.len() < bound,
    decreases s.len(),
{
    if s.len() > 0 {
        let d = s.drop_last();
        assert forall|i: int, j: int| #![trigger d[i], d[j]] 0 <= i < j < d.len() implies key(d[i]) < key(d[j]) by {
            assert(s[i] == d[i]);
            assert(s[j] == d[j]);
        }
        assert forall|i: int| 0 <= i < d.len() implies 1 <= #[trigger] key(d[i]) < key(s.last()) by {
            assert(d[i] == s[i]);
            assert(key(s[i]) < key(s[s.len() - 1]));
            assert(1 <= key(s[i]));
        }
        assert(1 <= key(s[s.len() - 1]) < bound);
        assert(s.last() == s[s.len() - 1]);
        lemma_increasing_len(d, key, key(s.last()));
        assert(d.len() + 1 == s.len());
    }
}

impl DbView {
    /// Both tables hold fewer rows than the identifier space.
    pub proof fn lemma_sizes(self)
        requires
            self.wf(),
        ensures
            self.sessions.len() < i32::MAX,
            self.messages.len() < i32::MAX,
    {
        let sk = |s: SessionView| s.id;
        let mk = |m: MessageView| m.id;
        assert forall|i: int, j: int| #![trigger self.sessions[i], self.sessions[j]] 0 <= i < j < self.sessions.len() implies sk(self.sessions[i]) < sk(self.sessions[j]) by {}
        assert forall|i: int| 0 <= i < self.sessions.len() implies 1 <= #[trigger] sk(self.sessions[i]) < self.next_session_id by {
            assert(1 <= self.sessions[i].id < self.next_session_id);
        }
        lemma_increasing_len(self.sessions, sk, self.next_session_id);
        assert forall|i: int, j: int| #![trigger self.messages[i], self.messages[j]] 0 <= i < j < self.messages.len() implies mk(self.messages[i]) < mk(self.messages[j]) by {}
        assert forall|i: int| 0 <= i < self.messages.len() implies 1 <= #[trigger] mk(self.messages[i]) < self.next_message_id by {
            assert(1 <= self.messages[i].id < self.next_message_id);
        }
        lemma_increasing_len(self.messages, mk, self.next_message_id);
    }
}

// ---------------------------------------------------------------------------
// Errors built by the store
// ---------------------------------------------------------------------------

fn not_found_id_error(id: i32) -> (e: ClaiError)
    ensures
        e@ == not_found_by_id(id as int),
{
    let mut m = String::from_str("Session ");
    push_int(&mut m, id as i64);
    m.append(" not found");
    ClaiError::Database(DbError::RecordNotFound(m))
}

fn not_found_name_error(name: &str) -> (e: ClaiError)
    ensures
        e@ == not_found_by_name(name@),
{
    let mut m = String::from_str("Session '");
    m.append(name);
    m.append("' not found");
    ClaiError::Database(DbError::RecordNotFound(m))
}

fn no_sessions_error() -> (e: ClaiError)
    ensures
        e@ == no_sessions(),
{
    ClaiError::Database(DbError::RecordNotFound(String::from_str("No sessions found")))
}

fn storage_full_error() -> (e: ClaiError)
    ensures
        e@ == storage_full(),
{
    ClaiError::Database(DbError::Exec(String::from_str("database or disk is full")))
}

fn missing_parent_error() -> (e: ClaiError)
    ensures
        e@ == missing_parent(),
{
    ClaiError::Database(DbError::Exec(String::from_str("FOREIGN KEY constraint failed")))
}


// ---------------------------------------------------------------------------
// Store operations
// ---------------------------------------------------------------------------

impl ClaiDb {
    /// An empty store whose first session and first message get id 1.
    pub fn new() -> (db: ClaiDb)
        ensures
            db@.wf(),
            db@.sessions.len() == 0,
            db@.messages.len() == 0,
            db@.next_session_id == 1,
            db@.next_message_id == 1,
    {
        let db = ClaiDb {
            sessions: Vec::new(),
            messages: Vec::new(),
            next_session_id: 1,
            next_message_id: 1,
        };
        assert(db@.sessions =~= Seq::<SessionView>::empty());
        assert(db@.messages =~= Seq::<MessageView>::empty());
        db
    }

    /// Position of the session with id `id`, if one is stored.
    fn position_of(&self, id: i32) -> (r: Option<usize>)
        ensures
            match r {
                Some(p) => p < self@.sessions.len() && self@.has_session(id as int) && p
                    == self@.session_pos(id as int) && self@.sessions[p as int].id == id,
                None => !self@.has_session(id as int),
            },
    {
        proof {
            use_type_invariant(self);
        }
        let mut i: usize = 0;
        while i < self.sessions.len()
            invariant
                self@.wf(),
                i <= self@.sessions.len(),
                self@.sessions.len() == self.sessions@.len(),
                forall|j: int| 0 <= j < i ==> self@.sessions[j].id != id,
            decreases self@.sessions.len() - i,
        {
            assert(self@.sessions[i as int] == self.sessions@[i as int]@);
            if self.sessions[i].id == id {
                proof {
                    lemma_session_pos(self@, id as int, i as int);
                }
                return Some(i);
            }
            i = i + 1;
        }
        None
    }

    /// Inserts a session created at time `now` (microseconds since the Unix epoch).
    pub fn create_session(&mut self, name: &str, display_name: Option<&str>, now: i64) -> (r:
        Result<Session, ClaiError>)
        ensures
            final(self)@.wf(),
            (final(self)@, session_result(r)) == old(self)@.create_session(
                name@,
                opt_str_view(display_name),
                now as int,
            ),
    {
        proof {
            use_type_invariant(&*self);
        }
        if self.next_session_id == i32::MAX {
            return Err(storage_full_error());
        }
        let s = Session {
            id: self.next_session_id,
            name: String::from_str(name),
            display_name: own_opt(display_name),
            created_at: now,
            updated_at: now,
            role: None,
            model: None,
        };
        let ghost old_view = self@;
        let mut taken = ClaiDb::new();
        std::mem::swap(self, &mut taken);
        let ClaiDb { mut sessions, messages, next_session_id, next_message_id } = taken;
        sessions.push(s.duplicate());
        let next_session_id = next_session_id + 1;
        proof {
            let new_view = DbView {
                sessions: session_views(sessions@),
                messages: message_views(messages@),
                next_session_id: next_session_id as int,
                next_message_id: next_message_id as int,
            };
            assert(new_view.sessions =~= old_view.sessions.push(s@));
            assert(new_view.messages == old_view.messages);
            assert forall|i: int, j: int|
                #![trigger new_view.sessions[i], new_view.sessions[j]]
                0 <= i < j < new_view.sessions.len() implies new_view.sessions[i].id
                < new_view.sessions[j].id by {
                if j < old_view.sessions.len() {
                    assert(new_view.sessions[i] == old_view.sessions[i]);
                    assert(new_view.sessions[j] == old_view.sessions[j]);
                } else {
                    assert(new_view.sessions[i] == old_view.sessions[i]);
                    assert(old_view.sessions[i].id < old_view.next_session_id);
                }
            }
            assert forall|i: int|
                0 <= i < new_view.sessions.len() implies 1 <= #[trigger] new_view.sessions[i].id
                < new_view.next_session_id by {
                if i < old_view.sessions.len() {
                    assert(new_view.sessions[i] == old_view.sessions[i]);
                    assert(1 <= old_view.sessions[i].id < old_view.next_session_id);
                }
            }
            assert forall|i: int|
                0 <= i < new_view.messages.len() implies new_view.has_session(
                #[trigger] new_view.messages[i].session_id,
            ) by {
                let sid = new_view.messages[i].session_id;
                assert(old_view.messages[i].session_id == sid);
                assert(old_view.has_session(sid));
                let w = choose|w: int|
                    0 <= w < old_view.sessions.len() && #[trigger] old_view.sessions[w].id == sid;
                assert(new_view.sessions[w] == old_view.sessions[w]);
            }
            assert(new_view.wf());
        }
        *self = ClaiDb { sessions, messages, next_session_id, next_message_id };
        Ok(s)
    }

    /// The session with id `session_id`.
    pub fn get_session_by_id(&self, session_id: i32) -> (r: Result<Session, ClaiError>)
        ensures
            session_result(r) == self@.get_session_by_id(session_id as int),
    {
        proof {
            use_type_invariant(self);
        }
        match self.position_of(session_id) {
            Some(p) => {
                assert(self@.sessions[p as int] == self.sessions@[p as int]@);
                Ok(self.sessions[p].duplicate())
            },
            None => Err(not_found_id_error(session_id)),
        }
    }

    /// The most recently updated session.
    pub fn get_last_session(&self) -> (r: Result<Session, ClaiError>)
        ensures
            session_result(r) == self@.get_last_session(),
    {
        proof {
            use_type_invariant(self);
        }
        if self.sessions.len() == 0 {
            return Err(no_sessions_error());
        }
        let p = find_newest(&self.sessions, true);
        assert(self@.sessions[p as int] == self.sessions@[p as int]@);
        Ok(self.sessions[p].duplicate())
    }

    /// The most recently created session whose display name is `name`.
    pub fn get_session_by_name(&self, name: &str) -> (r: Result<Session, ClaiError>)
        ensures
            session_result(r) == self@.get_session_by_name(name@),
    {
        proof {
            use_type_invariant(self);
        }
        let sel = SessionSelect::DisplayName(String::from_str(name));
        let c = select_sessions(&self.sessions, &sel);
        if c.len() == 0 {
            return Err(not_found_name_error(name));
        }
        let p = find_newest(&c, false);
        assert(session_views(c@)[p as int] == c@[p as int]@);
        Ok(c[p].duplicate())
    }

    /// The sessions that have a display name, newest first.
    pub fn list_named_sessions(&self) -> (r: Vec<Session>)
        ensures
            session_views(r@) == self@.list_named_sessions(),
    {
        proof {
            use_type_invariant(self);
        }
        let named = select_sessions(&self.sessions, &SessionSelect::Named);
        sort_newest_first(&named)
    }
}


/// Removing rows keeps the store well formed as long as no kept message
/// loses its session.
pub proof fn lemma_wf_after_filter(
    db: DbView,
    ps: spec_fn(SessionView) -> bool,
    pm: spec_fn(MessageView) -> bool,
)
    requires
        db.wf(),
        forall|i: int, k: int|
            #![trigger db.messages[i], db.sessions[k]]
            0 <= i < db.messages.len() && 0 <= k < db.sessions.len() && pm(db.messages[i])
                && db.sessions[k].id == db.messages[i].session_id ==> ps(db.sessions[k]),
    ensures
        (DbView { sessions: db.sessions.filter(ps), messages: db.messages.filter(pm), ..db }).wf(),
{
    let sk = |s: SessionView| s.id;
    let mk = |m: MessageView| m.id;
    assert forall|i: int, j: int| #![trigger db.sessions[i], db.sessions[j]] 0 <= i < j < db.sessions.len() implies sk(db.sessions[i]) < sk(db.sessions[j]) by {}
    assert forall|i: int, j: int| #![trigger db.messages[i], db.messages[j]] 0 <= i < j < db.messages.len() implies mk(db.messages[i]) < mk(db.messages[j]) by {}
    lemma_filter_increasing(db.sessions, ps, sk);
    lemma_filter_increasing(db.messages, pm, mk);
    let fs = db.sessions.filter(ps);
    let fm = db.messages.filter(pm);
    let new_db = DbView { sessions: fs, messages: fm, ..db };
    assert forall|i: int, j: int| #![trigger fs[i], fs[j]] 0 <= i < j < fs.len() implies fs[i].id < fs[j].id by {
        assert(sk(fs[i]) < sk(fs[j]));
    }
    assert forall|i: int, j: int| #![trigger fm[i], fm[j]] 0 <= i < j < fm.len() implies fm[i].id < fm[j].id by {
        assert(mk(fm[i]) < mk(fm[j]));
    }
    assert forall|i: int| 0 <= i < fs.len() implies 1 <= #[trigger] fs[i].id < db.next_session_id by {
        assert(db.sessions.contains(fs[i]));
        let w = choose|w: int| 0 <= w < db.sessions.len() && db.sessions[w] == fs[i];
        assert(1 <= db.sessions[w].id < db.next_session_id);
    }
    assert forall|i: int| 0 <= i < fm.len() implies 1 <= #[trigger] fm[i].id < db.next_message_id by {
        assert(db.messages.contains(fm[i]));
        let w = choose|w: int| 0 <= w < db.messages.len() && db.messages[w] == fm[i];
        assert(1 <= db.messages[w].id < db.next_message_id);
    }
    assert forall|i: int| 0 <= i < fm.len() implies new_db.has_session(#[trigger] fm[i].session_id) by {
        assert(db.messages.contains(fm[i]) && pm(fm[i]));
        let w = choose|w: int| 0 <= w < db.messages.len() && db.messages[w] == fm[i];
        let sid = db.messages[w].session_id;
        assert(db.has_session(sid));
        let k = choose|k: int| 0 <= k < db.sessions.len() && #[trigger] db.sessions[k].id == sid;
        assert(ps(db.sessions[k]));
        lemma_filter_keeps(db.sessions, ps, k);
        let q = choose|q: int| 0 <= q < fs.len() && fs[q] == db.sessions[k];
        assert(fs[q].id == sid);
    }
}

fn ids_of(v: &Vec<Session>) -> (r: Vec<i32>)
    ensures
        int_views(r@) == ids_of_sessions(session_views(v@)),
{
    let mut r: Vec<i32> = Vec::new();
    let mut i: usize = 0;
    while i < v.len()
        invariant
            i <= v@.len(),
            int_views(r@) == ids_of_sessions(session_views(v@)).take(i as int),
        decreases v@.len() - i,
    {
        let ghost before = int_views(r@);
        r.push(v[i].id);
        proof {
            let all = ids_of_sessions(session_views(v@));
            assert(int_views(r@) =~= before.push(v@[i as int].id as int));
            assert(all.take(i + 1) =~= all.take(i as int).push(all[i as int]));
        }
        i = i + 1;
    }
    assert(ids_of_sessions(session_views(v@)).take(v@.len() as int) =~= ids_of_sessions(
        session_views(v@),
    ));
    r
}

impl ClaiDb {
    fn replace_session(&mut self, p: usize, s: Session)
        requires
            old(self)@.wf(),
            p < old(self)@.sessions.len(),
            s@.id == old(self)@.sessions[p as int].id,
        ensures
            final(self)@ == (DbView {
                sessions: old(self)@.sessions.update(p as int, s@),
                ..old(self)@
            }),
            final(self)@.wf(),
    {
        let ghost old_view = self@;
        let mut taken = ClaiDb::new();
        std::mem::swap(self, &mut taken);
        let ClaiDb { mut sessions, messages, next_session_id, next_message_id } = taken;
        sessions.set(p, s);
        proof {
            let nv = DbView {
                sessions: session_views(sessions@),
                messages: message_views(messages@),
                next_session_id: next_session_id as int,
                next_message_id: next_message_id as int,
            };
            assert(nv.sessions =~= old_view.sessions.update(p as int, s@));
            assert forall|i: int| 0 <= i < nv.sessions.len() implies #[trigger] nv.sessions[i].id
                == old_view.sessions[i].id by {}
            assert forall|i: int, j: int|
                #![trigger nv.sessions[i], nv.sessions[j]]
                0 <= i < j < nv.sessions.len() implies nv.sessions[i].id < nv.sessions[j].id by {
                assert(old_view.sessions[i].id < old_view.sessions[j].id);
            }
            assert forall|i: int|
                0 <= i < nv.messages.len() implies nv.has_session(
                #[trigger] nv.messages[i].session_id,
            ) by {
                let sid = nv.messages[i].session_id;
                assert(old_view.messages[i].session_id == sid);
                assert(old_view.has_session(sid));
                let w = choose|w: int|
                    0 <= w < old_view.sessions.len() && #[trigger] old_view.sessions[w].id == sid;
                assert(nv.sessions[w].id == sid);
            }
            assert(nv.wf());
        }
        *self = ClaiDb { sessions, messages, next_session_id, next_message_id };
    }

    /// Sets the display name of session `session_id` and returns the updated session.
    pub fn update_session_display_name(&mut self, session_id: i32, display_name: &str) -> (r:
        Result<Session, ClaiError>)
        ensures
            final(self)@.wf(),
            (final(self)@, session_result(r)) == old(self)@.update_display_name(
                session_id as int,
                display_name@,
            ),
    {
        proof {
            use_type_invariant(&*self);
        }
        match self.position_of(session_id) {
            None => Err(not_found_id_error(session_id)),
            Some(p) => {
                assert(self@.sessions[p as int] == self.sessions@[p as int]@);
                let mut s = self.sessions[p].duplicate();
                s.display_name = Some(String::from_str(display_name));
                self.replace_session(p, s.duplicate());
                Ok(s)
            },
        }
    }

    /// Sets the last-access time of session `session_id` to `now`.
    pub fn update_session_timestamp(&mut self, session_id: i32, now: i64) -> (r: Result<
        (),
        ClaiError,
    >)
        ensures
            final(self)@.wf(),
            final(self)@ == old(self)@.update_timestamp(session_id as int, now as int).0,
            unit_result(r) == without_value(
                old(self)@.update_timestamp(session_id as int, now as int).1,
            ),
    {
        proof {
            use_type_invariant(&*self);
        }
        match self.position_of(session_id) {
            None => Err(not_found_id_error(session_id)),
            Some(p) => {
                assert(self@.sessions[p as int] == self.sessions@[p as int]@);
                let mut s = self.sessions[p].duplicate();
                s.updated_at = now;
                self.replace_session(p, s);
                Ok(())
            },
        }
    }

    /// Sets (or clears) the role of session `session_id` and returns the updated session.
    pub fn update_session_role(&mut self, session_id: i32, role: Option<&str>) -> (r: Result<
        Session,
        ClaiError,
    >)
        ensures
            final(self)@.wf(),
            (final(self)@, session_result(r)) == old(self)@.update_role(
                session_id as int,
                opt_str_view(role),
            ),
    {
        proof {
            use_type_invariant(&*self);
        }
        match self.position_of(session_id) {
            None => Err(not_found_id_error(session_id)),
            Some(p) => {
                assert(self@.sessions[p as int] == self.sessions@[p as int]@);
                let mut s = self.sessions[p].duplicate();
                s.role = own_opt(role);
                self.replace_session(p, s.duplicate());
                Ok(s)
            },
        }
    }

    /// Sets the model of session `session_id` and returns the updated session.
    pub fn update_session_model(&mut self, session_id: i32, model: &str) -> (r: Result<
        Session,
        ClaiError,
    >)
        ensures
            final(self)@.wf(),
            (final(self)@, session_result(r)) == old(self)@.update_model(
                session_id as int,
                model@,
            ),
    {
        proof {
            use_type_invariant(&*self);
        }
        match self.position_of(session_id) {
            None => Err(not_found_id_error(session_id)),
            Some(p) => {
                assert(self@.sessions[p as int] == self.sessions@[p as int]@);
                let mut s = self.sessions[p].duplicate();
                s.model = Some(String::from_str(model));
                self.replace_session(p, s.duplicate());
                Ok(s)
            },
        }
    }

    /// Deletes the session `get_session_by_name(name)` finds, and its messages.
    pub fn delete_session_by_name(&mut self, name: &str) -> (r: Result<(), ClaiError>)
        ensures
            final(self)@.wf(),
            (final(self)@, unit_result(r)) == old(self)@.delete_session_by_name(name@),
    {
        proof {
            use_type_invariant(&*self);
        }
        let s = match self.get_session_by_name(name) {
            Ok(s) => s,
            Err(e) => return Err(e),
        };
        let id = s.id;
        let ghost old_view = self@;
        let mut ids: Vec<i32> = Vec::new();
        ids.push(id);
        assert(int_views(ids@) =~= seq![id as int]);
        let kept_messages = select_messages(&self.messages, &MessageSelect::NotOf(ids));
        let kept_sessions = select_sessions(&self.sessions, &SessionSelect::OtherThan(id));
        proof {
            let ps = session_pred(SessionFilter::OtherThan(id as int));
            let pm = message_pred(MessageFilter::NotOf(seq![id as int]));
            assert forall|i: int, k: int|
                #![trigger old_view.messages[i], old_view.sessions[k]]
                0 <= i < old_view.messages.len() && 0 <= k < old_view.sessions.len() && pm(
                    old_view.messages[i],
                ) && old_view.sessions[k].id == old_view.messages[i].session_id implies ps(
                old_view.sessions[k],
            ) by {
                assert(!seq![id as int].contains(old_view.messages[i].session_id));
                assert(seq![id as int][0] == id as int);
            }
            lemma_wf_after_filter(old_view, ps, pm);
        }
        *self = ClaiDb {
            sessions: kept_sessions,
            messages: kept_messages,
            next_session_id: self.next_session_id,
            next_message_id: self.next_message_id,
        };
        assert(self@ == old_view.without_session(id as int));
        Ok(())
    }

    /// Deletes every session without a display name except the most recently
    /// created session, with their messages, and returns how many rows went.
    pub fn cleanup_old_sessions(&mut self) -> (r: Result<usize, ClaiError>)
        ensures
            final(self)@.wf(),
            (final(self)@, count_result(r)) == old(self)@.cleanup_old_sessions(),
    {
        proof {
            use_type_invariant(&*self);
        }
        broadcast use vstd::seq_lib::group_filter_ensures;
        if self.sessions.len() == 0 {
            return Ok(0);
        }
        let ghost old_view = self@;
        proof {
            old_view.lemma_sizes();
        }
        let ki = find_newest(&self.sessions, false);
        assert(self@.sessions[ki as int] == self.sessions@[ki as int]@);
        let keep = self.sessions[ki].id;
        let removed = select_sessions(&self.sessions, &SessionSelect::RemovedByCleanup(keep));
        let ids = ids_of(&removed);
        let ghost victims = int_views(ids@);
        assert(victims == old_view.cleanup_victims(keep as int));
        if ids.len() == 0 {
            return Ok(0);
        }
        let n_removed = ids.len();
        let before_messages = self.messages.len();
        let kept_messages = select_messages(&self.messages, &MessageSelect::NotOf(ids));
        let kept_sessions = select_sessions(&self.sessions, &SessionSelect::SurvivesCleanup(keep));
        assert(message_views(kept_messages@).len() == kept_messages@.len());
        assert(old_view.messages.filter(message_pred(MessageFilter::NotOf(victims))).len()
            <= old_view.messages.len());
        let deleted_messages = before_messages - kept_messages.len();
        proof {
            let ps = session_pred(SessionFilter::SurvivesCleanup(keep as int));
            let pm = message_pred(MessageFilter::NotOf(victims));
            let rm = old_view.sessions.filter(session_pred(SessionFilter::RemovedByCleanup(keep as int)));
            assert forall|i: int, k: int|
                #![trigger old_view.messages[i], old_view.sessions[k]]
                0 <= i < old_view.messages.len() && 0 <= k < old_view.sessions.len() && pm(
                    old_view.messages[i],
                ) && old_view.sessions[k].id == old_view.messages[i].session_id implies ps(
                old_view.sessions[k],
            ) by {
                if !ps(old_view.sessions[k]) {
                    lemma_filter_keeps(
                        old_view.sessions,
                        session_pred(SessionFilter::RemovedByCleanup(keep as int)),
                        k,
                    );
                    let q = choose|q: int| 0 <= q < rm.len() && rm[q] == old_view.sessions[k];
                    assert(victims[q] == old_view.sessions[k].id);
                    assert(victims.contains(old_view.messages[i].session_id));
                }
            }
            lemma_wf_after_filter(old_view, ps, pm);
        }
        *self = ClaiDb {
            sessions: kept_sessions,
            messages: kept_messages,
            next_session_id: self.next_session_id,
            next_message_id: self.next_message_id,
        };
        Ok(deleted_messages + n_removed)
    }

    /// Inserts a message into session `session_id`, created at time `now`.
    pub fn create_message(&mut self, session_id: i32, role: &str, content: &str, now: i64) -> (r:
        Result<Message, ClaiError>)
        ensures
            final(self)@.wf(),
            (final(self)@, message_result(r)) == old(self)@.create_message(
                session_id as int,
                role@,
                content@,
                now as int,
            ),
    {
        proof {
            use_type_invariant(&*self);
        }
        if self.position_of(session_id).is_none() {
            return Err(missing_parent_error());
        }
        if self.next_message_id == i32::MAX {
            return Err(storage_full_error());
        }
        let m = Message {
            id: self.next_message_id,
            session_id,
            role: String::from_str(role),
            content: String::from_str(content),
            created_at: now,
        };
        let ghost old_view = self@;
        let mut taken = ClaiDb::new();
        std::mem::swap(self, &mut taken);
        let ClaiDb { sessions, mut messages, next_session_id, next_message_id } = taken;
        messages.push(m.duplicate());
        let next_message_id = next_message_id + 1;
        proof {
            let nv = DbView {
                sessions: session_views(sessions@),
                messages: message_views(messages@),
                next_session_id: next_session_id as int,
                next_message_id: next_message_id as int,
            };
            assert(nv.messages =~= old_view.messages.push(m@));
            assert(nv.sessions == old_view.sessions);
            assert forall|i: int, j: int|
                #![trigger nv.messages[i], nv.messages[j]]
                0 <= i < j < nv.messages.len() implies nv.messages[i].id < nv.messages[j].id by {
                assert(nv.messages[i] == old_view.messages[i]);
                if j < old_view.messages.len() {
                    assert(nv.messages[j] == old_view.messages[j]);
                } else {
                    assert(old_view.messages[i].id < old_view.next_message_id);
                }
            }
            assert forall|i: int|
                0 <= i < nv.messages.len() implies 1 <= #[trigger] nv.messages[i].id
                < nv.next_message_id by {
                if i < old_view.messages.len() {
                    assert(nv.messages[i] == old_view.messages[i]);
                    assert(1 <= old_view.messages[i].id < old_view.next_message_id);
                }
            }
            assert forall|i: int|
                0 <= i < nv.messages.len() implies nv.has_session(
                #[trigger] nv.messages[i].session_id,
            ) by {
                if i < old_view.messages.len() {
                    assert(nv.messages[i] == old_view.messages[i]);
                    assert(old_view.has_session(old_view.messages[i].session_id));
                } else {
                    assert(nv.messages[i] == m@);
                    assert(old_view.has_session(session_id as int));
                }
            }
            assert(nv.wf());
        }
        *self = ClaiDb { sessions, messages, next_session_id, next_message_id };
        Ok(m)
    }

    /// The messages of session `session_id`, oldest first.
    pub fn get_session_messages(&self, session_id: i32) -> (r: Vec<Message>)
        ensures
            message_views(r@) == self@.session_messages(session_id as int),
    {
        proof {
            use_type_invariant(self);
        }
        let of = select_messages(&self.messages, &MessageSelect::Of(session_id));
        sort_oldest_first(&of)
    }
}

// ---------------------------------------------------------------------------
// Snapshots
// ---------------------------------------------------------------------------

/// The store a snapshot of rows gives back: the rows in the order given, and
/// counters one past the last identifier of each table (1 for an empty table).
pub open spec fn restored(sessions: Seq<SessionView>, messages: Seq<MessageView>) -> DbView {
    DbView {
        sessions,
        messages,
        next_session_id: if sessions.len() == 0 {
            1
        } else {
            sessions.last().id + 1
        },
        next_message_id: if messages.len() == 0 {
            1
        } else {
            messages.last().id + 1
        },
    }
}

impl ClaiDb {
    /// Copies of the stored sessions, in stored order.
    pub fn all_sessions(&self) -> (r: Vec<Session>)
        ensures
            session_views(r@) == self@.sessions,
    {
        let mut r: Vec<Session> = Vec::new();
        let mut i: usize = 0;
        while i < self.sessions.len()
            invariant
                i <= self.sessions@.len(),
                session_views(r@) == session_views(self.sessions@).take(i as int),
            decreases self.sessions@.len() - i,
        {
            let ghost before = session_views(r@);
            r.push(self.sessions[i].duplicate());
            proof {
                let all = session_views(self.sessions@);
                assert(session_views(r@) =~= before.push(self.sessions@[i as int]@));
                assert(all.take(i + 1) =~= all.take(i as int).push(all[i as int]));
            }
            i = i + 1;
        }
        assert(session_views(self.sessions@).take(self.sessions@.len() as int) =~= session_views(
            self.sessions@,
        ));
        r
    }

    /// Copies of the stored messages, in stored order.
    pub fn all_messages(&self) -> (r: Vec<Message>)
        ensures
            message_views(r@) == self@.messages,
    {
        let mut r: Vec<Message> = Vec::new();
        let mut i: usize = 0;
        while i < self.messages.len()
            invariant
                i <= self.messages@.len(),
                message_views(r@) == message_views(self.messages@).take(i as int),
            decreases self.messages@.len() - i,
        {
            let ghost before = message_views(r@);
            r.push(self.messages[i].duplicate());
            proof {
                let all = message_views(self.messages@);
                assert(message_views(r@) =~= before.push(self.messages@[i as int]@));
                assert(all.take(i + 1) =~= all.take(i as int).push(all[i as int]));
            }
            i = i + 1;
        }
        assert(message_views(self.messages@).take(self.messages@.len() as int) =~= message_views(
            self.messages@,
        ));
        r
    }
}

fn sessions_contain_id(sessions: &Vec<Session>, id: i32) -> (b: bool)
    ensures
        b == (exists|k: int| 0 <= k < sessions@.len() && #[trigger] session_views(sessions@)[k].id
            == id),
{
    let mut k: usize = 0;
    while k < sessions.len()
        invariant
            k <= sessions@.len(),
            forall|j: int| 0 <= j < k ==> #[trigger] session_views(sessions@)[j].id != id,
        decreases sessions@.len() - k,
    {
        if sessions[k].id == id {
            assert(session_views(sessions@)[k as int].id == id);
            return true;
        }
        k = k + 1;
    }
    false
}

impl ClaiDb {
    /// The store holding a snapshot of rows (see `restored`), when they form a
    /// well-formed store: identifiers positive and increasing in each table,
    /// the last below the largest `i32`, and every message's session present.
    /// `None` otherwise.
    pub fn restore(sessions: Vec<Session>, messages: Vec<Message>) -> (r: Option<ClaiDb>)
        ensures
            match r {
                Some(db) => db@ == restored(session_views(sessions@), message_views(messages@))
                    && db@.wf(),
                None => !restored(session_views(sessions@), message_views(messages@)).wf(),
            },
    {
        let ghost sv = session_views(sessions@);
        let ghost mv = message_views(messages@);
        let ghost goal = restored(sv, mv);
        let mut i: usize = 0;
        let mut prev: i32 = 0;
        while i < sessions.len()
            invariant
                sv == session_views(sessions@),
                mv == message_views(messages@),
                goal == restored(sv, mv),
                i <= sv.len(),
                i == 0 ==> prev == 0,
                i > 0 ==> prev == sv[i - 1].id,
                forall|a: int| 0 <= a < i ==> 1 <= #[trigger] sv[a].id <= prev,
                forall|a: int, b: int|
                    #![trigger sv[a], sv[b]]
                    0 <= a < b < i ==> sv[a].id < sv[b].id,
            decreases sv.len() - i,
        {
            let id = sessions[i].id;
            assert(sv[i as int].id == id);
            if id < 1 || (i > 0 && id <= prev) {
                proof {
                    if id < 1 {
                        assert(!(1 <= goal.sessions[i as int].id));
                    } else {
                        assert(goal.sessions[i - 1].id >= goal.sessions[i as int].id);
                    }
                }
                return None;
            }
            prev = id;
            i = i + 1;
        }
        if prev == i32::MAX {
            assert(goal.next_session_id > i32::MAX);
            return None;
        }
        let mut j: usize = 0;
        let mut mprev: i32 = 0;
        while j < messages.len()
            invariant
                sv == session_views(sessions@),
                mv == message_views(messages@),
                j <= mv.len(),
                j == 0 ==> mprev == 0,
                j > 0 ==> mprev == mv[j - 1].id,
                forall|a: int| 0 <= a < j ==> 1 <= #[trigger] mv[a].id <= mprev,
                forall|a: int, b: int|
                    #![trigger mv[a], mv[b]]
                    0 <= a < b < j ==> mv[a].id < mv[b].id,
                forall|a: int| 0 <= a < j ==> goal.has_session(#[trigger] mv[a].session_id),
                goal == restored(sv, mv),
            decreases mv.len() - j,
        {
            let id = messages[j].id;
            assert(mv[j as int].id == id);
            if id < 1 || (j > 0 && id <= mprev) {
                proof {
                    if id < 1 {
                        assert(!(1 <= goal.messages[j as int].id));
                    } else {
                        assert(goal.messages[j - 1].id >= goal.messages[j as int].id);
                    }
                }
                return None;
            }
            let sid = messages[j].session_id;
            assert(mv[j as int].session_id == sid);
            if !sessions_contain_id(&sessions, sid) {
                assert(!goal.has_session(goal.messages[j as int].session_id));
                return None;
            }
            mprev = id;
            j = j + 1;
        }
        if mprev == i32::MAX {
            assert(goal.next_message_id > i32::MAX);
            return None;
        }
        let next_session_id: i32 = prev + 1;
        let next_message_id: i32 = mprev + 1;
        let db = ClaiDb { sessions, messages, next_session_id, next_message_id };
        assert(db@ =~= goal);
        Some(db)
    }
}

} // verus!
