//! The application's state: open sessions, the latest position of each uploading user, the
//! two user databases and the frontend pages.

use std::collections::HashMap;

use vstd::prelude::*;
use vstd::std_specs::iter::IteratorSpec;

use crate::users::{users_view, UserEntry};

verus! {

broadcast use vstd::std_specs::hash::group_hash_axioms;

/// The number of time units a new session remains active.
pub const SESSION_TTL: u8 = 24;

/// The length of one session time unit, in seconds.
pub const SESSION_TTL_UNIT_SECONDS: u64 = 3600;

/// The state of a session: the logged-in user's name and the time units it has left.
pub struct SessionState {
    pub name: String,
    pub ttl: u8,
}

/// A position as the two `f32` coordinates, each held by its bit pattern.
#[derive(Clone, Copy, Debug, PartialEq, Eq, Structural)]
pub struct Coordinates {
    pub latitude_bits: u32,
    pub longitude_bits: u32,
}

/// The latest position of each user, by name.
pub struct Positions {
    entries: Vec<(String, Coordinates)>,
}

/// The map that a list of named positions stands for; a later entry wins over an earlier one.
pub open spec fn entries_map(s: Seq<(String, Coordinates)>) -> Map<Seq<char>, Coordinates>
    decreases s.len(),
{
    if s.len() == 0 {
        Map::empty()
    } else {
        entries_map(s.drop_last()).insert(s.last().0@, s.last().1)
    }
}

/// No name occurs twice.
pub open spec fn distinct_names(s: Seq<(String, Coordinates)>) -> bool {
    forall|i: int, j: int|
        0 <= i < s.len() && 0 <= j < s.len() && i != j ==> #[trigger] s[i].0@ != #[trigger] s[j].0@
}

proof fn lemma_entries_map_dom(s: Seq<(String, Coordinates)>, k: Seq<char>)
    ensures
        entries_map(s).contains_key(k) <==> exists|i: int| 0 <= i < s.len() && #[trigger] s[i].0@ == k,
    decreases s.len(),
{
    if s.len() > 0 {
        lemma_entries_map_dom(s.drop_last(), k);
        if entries_map(s.drop_last()).contains_key(k) {
            let i = choose|i: int| 0 <= i < s.drop_last().len() && #[trigger] s.drop_last()[i].0@ == k;
            assert(s[i].0@ == k);
        }
        if exists|i: int| 0 <= i < s.len() && #[trigger] s[i].0@ == k {
            let i = choose|i: int| 0 <= i < s.len() && #[trigger] s[i].0@ == k;
            if i < s.len() - 1 {
                assert(s.drop_last()[i].0@ == k);
            }
        }
    }
}

proof fn lemma_entries_map_value(s: Seq<(String, Coordinates)>, i: int)
    requires
        distinct_names(s),
        0 <= i < s.len(),
    ensures
        entries_map(s).contains_key(s[i].0@),
        entries_map(s)[s[i].0@] == s[i].1,
    decreases s.len(),
{
    if i < s.len() - 1 {
        let t = s.drop_last();
        assert(t[i] == s[i]);
        assert(distinct_names(t)) by {
            assert forall|a: int, b: int|
                0 <= a < t.len() && 0 <= b < t.len() && a != b implies #[trigger] t[a].0@ != #[trigger] t[b].0@ by {
                assert(t[a] == s[a] && t[b] == s[b]);
            }
        }
        lemma_entries_map_value(t, i);
        assert(s.last() == s[s.len() - 1]);
    }
}

proof fn lemma_entries_map_update(s: Seq<(String, Coordinates)>, i: int, e: (String, Coordinates))
    requires
        distinct_names(s),
        0 <= i < s.len(),
        s[i].0@ == e.0@,
    ensures
        distinct_names(s.update(i, e)),
        entries_map(s.update(i, e)) == entries_map(s).insert(e.0@, e.1),
    decreases s.len(),
{
    let u = s.update(i, e);
    assert forall|a: int, b: int|
        0 <= a < u.len() && 0 <= b < u.len() && a != b implies #[trigger] u[a].0@ != #[trigger] u[b].0@ by {
        assert(u[a].0@ == s[a].0@ && u[b].0@ == s[b].0@);
    }
    if i == s.len() - 1 {
        assert(u.drop_last() =~= s.drop_last());
        assert(!entries_map(s.drop_last()).contains_key(e.0@)) by {
            lemma_entries_map_dom(s.drop_last(), e.0@);
            if entries_map(s.drop_last()).contains_key(e.0@) {
                let j = choose|j: int| 0 <= j < s.drop_last().len() && #[trigger] s.drop_last()[j].0@ == e.0@;
                assert(s[j].0@ == s[i].0@);
            }
        }
        assert(entries_map(u) =~= entries_map(s).insert(e.0@, e.1));
    } else {
        let t = s.drop_last();
        assert(distinct_names(t)) by {
            assert forall|a: int, b: int|
                0 <= a < t.len() && 0 <= b < t.len() && a != b implies #[trigger] t[a].0@ != #[trigger] t[b].0@ by {
                assert(t[a] == s[a] && t[b] == s[b]);
            }
        }
        assert(t[i] == s[i]);
        lemma_entries_map_update(t, i, e);
        assert(u.drop_last() =~= t.update(i, e));
        assert(u.last() == s.last());
        assert(s.last().0@ != e.0@) by {
            assert(s[s.len() - 1].0@ != s[i].0@);
        }
        assert(entries_map(u) =~= entries_map(s).insert(e.0@, e.1));
    }
}

impl Positions {
    #[verifier::type_invariant]
    spec fn names_are_distinct(self) -> bool {
        distinct_names(self.entries@)
    }
}

impl View for Positions {
    type V = Map<Seq<char>, Coordinates>;

    closed spec fn view(&self) -> Map<Seq<char>, Coordinates> {
        entries_map(self.entries@)
    }
}

impl Positions {
    /// No positions.
    pub fn new() -> (r: Positions)
        ensures
            r@ == Map::<Seq<char>, Coordinates>::empty(),
    {
        Positions { entries: Vec::new() }
    }

    /// No positions, with room for `capacity` users.
    pub fn with_capacity(capacity: usize) -> (r: Positions)
        ensures
            r@ == Map::<Seq<char>, Coordinates>::empty(),
    {
        Positions { entries: Vec::with_capacity(capacity) }
    }

    /// Records `coordinates` as the position of `name`; returns whether `name` had no position
    /// before.
    pub fn insert(&mut self, name: String, coordinates: Coordinates) -> (fresh: bool)
        ensures
            final(self)@ == old(self)@.insert(name@, coordinates),
            fresh == !old(self)@.contains_key(name@),
    {
        proof {
            use_type_invariant(&*self);
        }
        let mut entries: Vec<(String, Coordinates)> = Vec::new();
        std::mem::swap(&mut entries, &mut self.entries);
        let ghost old_entries = entries@;
        let mut i: usize = 0;
        while i < entries.len()
            invariant
                entries@ == old_entries,
                distinct_names(old_entries),
                entries_map(old_entries) == old(self)@,
                self.entries@.len() == 0,
                i <= entries@.len(),
                forall|j: int| 0 <= j < i ==> #[trigger] entries@[j].0@ != name@,
            decreases entries@.len() - i,
        {
            if entries[i].0 == name {
                proof {
                    lemma_entries_map_update(entries@, i as int, (name, coordinates));
                    lemma_entries_map_value(entries@, i as int);
                }
                entries[i] = (name, coordinates);
                self.entries = entries;
                return false;
            }
            i = i + 1;
        }
        proof {
            lemma_entries_map_dom(old_entries, name@);
            let pushed = old_entries.push((name, coordinates));
            assert(pushed.drop_last() =~= old_entries);
            assert forall|a: int, b: int|
                0 <= a < pushed.len() && 0 <= b < pushed.len() && a != b implies #[trigger] pushed[a].0@
                != #[trigger] pushed[b].0@ by {
                if a < old_entries.len() && b < old_entries.len() {
                    assert(pushed[a] == old_entries[a] && pushed[b] == old_entries[b]);
                } else if a < old_entries.len() {
                    assert(pushed[a] == old_entries[a]);
                } else {
                    assert(pushed[b] == old_entries[b]);
                }
            }
        }
        entries.push((name, coordinates));
        self.entries = entries;
        true
    }

    /// The number of users with a position.
    pub fn len(&self) -> (r: usize)
        ensures
            r == self@.len(),
    {
        proof {
            use_type_invariant(self);
            lemma_entries_len(self.entries@);
        }
        self.entries.len()
    }

    /// The positions as a list of names and coordinates, in which no name occurs twice.
    pub fn entries(&self) -> (r: &Vec<(String, Coordinates)>)
        ensures
            entries_map(r@) == self@,
            distinct_names(r@),
    {
        proof {
            use_type_invariant(self);
        }
        &self.entries
    }
}

proof fn lemma_entries_len(s: Seq<(String, Coordinates)>)
    requires
        distinct_names(s),
    ensures
        entries_map(s).dom().finite(),
        entries_map(s).len() == s.len(),
    decreases s.len(),
{
    if s.len() > 0 {
        let t = s.drop_last();
        assert(distinct_names(t)) by {
            assert forall|a: int, b: int|
                0 <= a < t.len() && 0 <= b < t.len() && a != b implies #[trigger] t[a].0@ != #[trigger] t[b].0@ by {
                assert(t[a] == s[a] && t[b] == s[b]);
            }
        }
        lemma_entries_len(t);
        lemma_entries_map_dom(t, s.last().0@);
        if entries_map(t).contains_key(s.last().0@) {
            let j = choose|j: int| 0 <= j < t.len() && #[trigger] t[j].0@ == s.last().0@;
            assert(s[j].0@ == s[s.len() - 1].0@);
        }
    }
}

/// The pages of the frontend the application serves.
#[derive(Clone, Copy, Debug, PartialEq, Eq, Structural)]
pub enum PageName {
    Home,
    Login,
    Postpos,
    Tracker,
}

/// The pages besides `home`, in the order they are loaded.
pub const PAGE_NAMES: [PageName; 3] = [PageName::Login, PageName::Postpos, PageName::Tracker];

/// Where a page lies below the frontend distribution directory.
pub open spec fn page_file(page: PageName) -> Seq<char> {
    match page {
        PageName::Home => "/index.html"@,
        PageName::Login => "/login/index.html"@,
        PageName::Postpos => "/postpos/index.html"@,
        PageName::Tracker => "/tracker/index.html"@,
    }
}

/// The path of a page's file in the frontend distribution directory `dist`.
pub fn page_path(dist: &str, page: PageName) -> (r: String)
    ensures
        r@ == dist@ + page_file(page),
{
    let file = match page {
        PageName::Home => "/index.html",
        PageName::Login => "/login/index.html",
        PageName::Postpos => "/postpos/index.html",
        PageName::Tracker => "/tracker/index.html",
    };
    dist.to_owned().concat(file)
}

/// The frontend pages, loaded once at start-up.
pub struct Pages {
    pub home: String,
    pub login: String,
    pub postpos: String,
    pub tracker: String,
}

pub open spec fn page_text(pages: Pages, page: PageName) -> Seq<char> {
    match page {
        PageName::Home => pages.home@,
        PageName::Login => pages.login@,
        PageName::Postpos => pages.postpos@,
        PageName::Tracker => pages.tracker@,
    }
}

impl Pages {
    /// The text of a page.
    pub fn page(&self, page: PageName) -> (r: &String)
        ensures
            r@ == page_text(*self, page),
    {
        match page {
            PageName::Home => &self.home,
            PageName::Login => &self.login,
            PageName::Postpos => &self.postpos,
            PageName::Tracker => &self.tracker,
        }
    }
}

/// The sessions as the name and the remaining time units of each session ID.
pub open spec fn sessions_view(m: Map<u128, SessionState>) -> Map<u128, (Seq<char>, u8)> {
    m.map_values(|s: SessionState| (s.name@, s.ttl))
}

/// The sessions after one time unit: every session with time left loses one unit, and the
/// sessions without time left are closed.
pub open spec fn pruned(m: Map<u128, (Seq<char>, u8)>) -> Map<u128, (Seq<char>, u8)> {
    Map::new(|k: u128| m.contains_key(k) && m[k].1 > 0, |k: u128| (m[k].0, (m[k].1 - 1) as u8))
}

/// The sessions once the sessions of `done` have lost a time unit or been closed.
pub open spec fn partially_pruned(m: Map<u128, (Seq<char>, u8)>, done: Set<u128>) -> Map<
    u128,
    (Seq<char>, u8),
> {
    Map::new(
        |k: u128| m.contains_key(k) && (!done.contains(k) || m[k].1 > 0),
        |k: u128|
            if done.contains(k) {
                (m[k].0, (m[k].1 - 1) as u8)
            } else {
                m[k]
            },
    )
}

/// The mathematical content of the application state.
pub struct StateView {
    pub sessions: Map<u128, (Seq<char>, u8)>,
    pub positions: Map<Seq<char>, Coordinates>,
    pub download_users: Seq<(Seq<char>, Seq<char>)>,
    pub upload_users: Seq<(Seq<char>, Seq<char>)>,
    pub pages: (Seq<char>, Seq<char>, Seq<char>, Seq<char>),
}

/// The global application state.
pub struct AppState {
    pub sessions: HashMap<u128, SessionState>,
    pub positions: Positions,
    pub download_users: Vec<UserEntry>,
    pub upload_users: Vec<UserEntry>,
    pub pages: Pages,
}

impl View for AppState {
    type V = StateView;

    open spec fn view(&self) -> StateView {
        StateView {
            sessions: sessions_view(self.sessions@),
            positions: self.positions@,
            download_users: users_view(self.download_users@),
            upload_users: users_view(self.upload_users@),
            pages: (self.pages.home@, self.pages.login@, self.pages.postpos@, self.pages.tracker@),
        }
    }
}

impl AppState {
    /// A state without sessions or positions, with room for a session per download user and a
    /// position per upload user.
    pub fn new(download_users: Vec<UserEntry>, upload_users: Vec<UserEntry>, pages: Pages) -> (r:
        AppState)
        ensures
            r.sessions@ == Map::<u128, SessionState>::empty(),
            r.positions@ == Map::<Seq<char>, Coordinates>::empty(),
            r.download_users == download_users,
            r.upload_users == upload_users,
            r.pages == pages,
    {
        let sessions = HashMap::with_capacity(download_users.len());
        let positions = Positions::with_capacity(upload_users.len());
        AppState { sessions, positions, download_users, upload_users, pages }
    }

    /// Lets one time unit pass: every session with time left loses one unit, and the sessions
    /// without time left are closed.
    pub fn prune_sessions(&mut self)
        ensures
            sessions_view(final(self).sessions@) == pruned(sessions_view(old(self).sessions@)),
            final(self).positions == old(self).positions,
            final(self).download_users == old(self).download_users,
            final(self).upload_users == old(self).upload_users,
            final(self).pages == old(self).pages,
    {
        let mut ids: Vec<u128> = Vec::new();
        let ghost keys = self.sessions.keys();
        for id in it: self.sessions.keys()
            invariant
                ids@.len() == it.index(),
                it.seq() == keys.remaining(),
                forall|j: int| 0 <= j < it.index() ==> ids@[j] == *it.seq()[j],
        {
            ids.push(*id);
        }
        assert(ids@.len() == keys.remaining().len());
        assert(ids@ =~= keys.remaining().unref());
        assert(ids@.to_set() =~= self.sessions@.dom());
        assert(ids@.no_duplicates());
        let ghost before = sessions_view(self.sessions@);
        assert(partially_pruned(before, Set::empty()) =~= before);
        let mut i: usize = 0;
        while i < ids.len()
            invariant
                i <= ids@.len(),
                ids@.no_duplicates(),
                ids@.to_set() == before.dom(),
                sessions_view(self.sessions@) == partially_pruned(before, ids@.take(i as int).to_set()),
                self.positions == old(self).positions,
                self.download_users == old(self).download_users,
                self.upload_users == old(self).upload_users,
                self.pages == old(self).pages,
            decreases ids@.len() - i,
        {
            let id = ids[i];
            let ghost done = ids@.take(i as int).to_set();
            assert(ids@.take(i + 1) =~= ids@.take(i as int).push(id));
            proof {
                ids@.take(i as int).lemma_push_to_set_commute(id);
            }
            assert(ids@.take(i + 1).to_set() =~= done.insert(id));
            assert(!done.contains(id)) by {
                if done.contains(id) {
                    let j = choose|j: int| 0 <= j < i && #[trigger] ids@.take(i as int)[j] == id;
                    assert(ids@[j] == ids@[i as int]);
                }
            }
            assert(before.dom().contains(id)) by {
                assert(ids@.contains(id));
            }
            let ghost pre = self.sessions@;
            let ghost pv = sessions_view(pre);
            assert(pv.contains_key(id) && pv[id] == before[id]);
            let ghost target = partially_pruned(before, done.insert(id));
            match self.sessions.remove(&id) {
                Some(session) => {
                    assert(self.sessions@ == pre.remove(id));
                    assert(pre[id] == session);
                    if session.ttl > 0 {
                        let ghost entry = (session.name@, (session.ttl - 1) as u8);
                        self.sessions.insert(id, SessionState { name: session.name, ttl: session.ttl - 1 });
                        assert(sessions_view(self.sessions@) =~= pv.insert(id, entry));
                        assert(target =~= pv.insert(id, entry));
                    } else {
                        assert(sessions_view(self.sessions@) =~= pv.remove(id));
                        assert(target =~= pv.remove(id));
                    }
                },
                None => {
                    assert(false);
                },
            }
            assert(sessions_view(self.sessions@) =~= partially_pruned(before, done.insert(id)));
            i = i + 1;
        }
        assert(ids@.take(ids@.len() as int) =~= ids@);
        assert(partially_pruned(before, before.dom()) =~= pruned(before));
    }
}

} // verus!
