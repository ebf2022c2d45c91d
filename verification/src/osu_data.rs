//! The session bookkeeping of the osu! players the bot follows.
use vstd::prelude::*;

verus! {

/// What the bot keeps of an osu! user profile.
pub struct OsuUser {
    pub username: String,
    pub is_online: bool,
    pub global_rank: Option<u32>,
    pub level: u32,
    pub avatar_url: String,
}

impl Clone for OsuUser {
    fn clone(&self) -> (res: Self)
        ensures
            res == *self,
    {
        OsuUser {
            username: self.username.clone(),
            is_online: self.is_online,
            global_rank: self.global_rank,
            level: self.level,
            avatar_url: self.avatar_url.clone(),
        }
    }
}

/// A play session of one player: whether the player is playing, whether
/// a recap is due when the player goes offline, the profile at the start
/// of the session and the latest one, and how many times it improved.
pub struct SessionInfo {
    pub is_playing: bool,
    pub initial_user: OsuUser,
    pub should_report: bool,
    pub updated_user: OsuUser,
    pub improvement_counter: usize,
}

impl Clone for SessionInfo {
    fn clone(&self) -> (res: Self)
        ensures
            res == *self,
    {
        SessionInfo {
            is_playing: self.is_playing,
            initial_user: self.initial_user.clone(),
            should_report: self.should_report,
            updated_user: self.updated_user.clone(),
            improvement_counter: self.improvement_counter,
        }
    }
}

impl SessionInfo {
    /// A session that starts and ends with `user`, not playing, with no
    /// recap due and no improvement counted.
    pub fn new_with_user(user: OsuUser) -> (s: Self)
        ensures
            s == (SessionInfo {
                is_playing: false,
                initial_user: user,
                should_report: false,
                updated_user: user,
                improvement_counter: 0,
            }),
    {
        SessionInfo {
            is_playing: false,
            initial_user: user.clone(),
            should_report: false,
            updated_user: user,
            improvement_counter: 0,
        }
    }

    /// Both profiles carry a global rank, and the latest one is not
    /// smaller than the first (the difference is an unsigned number).
    pub open spec fn has_rank_gain(&self) -> bool {
        &&& self.initial_user.global_rank is Some
        &&& self.updated_user.global_rank is Some
        &&& self.initial_user.global_rank->0 <= self.updated_user.global_rank->0
    }

    /// The latest global rank minus the first one.
    pub open spec fn spec_rank_gain(&self) -> int {
        self.updated_user.global_rank->0 - self.initial_user.global_rank->0
    }

    /// Whether the rank gain can be computed.
    pub fn has_rank_gain_check(&self) -> (ok: bool)
        ensures
            ok == self.has_rank_gain(),
    {
        match (self.initial_user.global_rank, self.updated_user.global_rank) {
            (Some(initial), Some(updated)) => initial <= updated,
            _ => false,
        }
    }

    /// The change of global rank over the session.
    pub fn get_rank_gain(&self) -> (gain: u32)
        requires
            self.has_rank_gain(),
        ensures
            gain == self.spec_rank_gain(),
    {
        let initial_rank = self.initial_user.global_rank.unwrap();
        let updated_rank = self.updated_user.global_rank.unwrap();
        updated_rank - initial_rank
    }
}

/// A followed player and the player's session.
pub struct PlayerSession {
    pub username: String,
    pub session: SessionInfo,
}

impl Clone for PlayerSession {
    fn clone(&self) -> (res: Self)
        ensures
            res == *self,
    {
        PlayerSession { username: self.username.clone(), session: self.session.clone() }
    }
}

/// The players the bot follows, its osu! API credentials, and whether
/// its status currently shows it watching someone play.
pub struct OsuData {
    pub players_info: Vec<PlayerSession>,
    pub osu_info: (u64, String),
    pub watching_gameplay: bool,
}

/// `entries` with `f` applied to the session of the player named `name`
/// (no change when nobody has that name).
pub open spec fn with_session(
    entries: Seq<PlayerSession>,
    name: Seq<char>,
    f: spec_fn(SessionInfo) -> SessionInfo,
) -> Seq<PlayerSession> {
    Seq::new(
        entries.len(),
        |i: int|
            if entries[i].username@ == name {
                PlayerSession { username: entries[i].username, session: f(entries[i].session) }
            } else {
                entries[i]
            },
    )
}

/// The number of entries whose session is playing.
pub open spec fn playing_count(entries: Seq<PlayerSession>) -> nat
    decreases entries.len(),
{
    if entries.len() == 0 {
        0
    } else {
        playing_count(entries.drop_last()) + if entries.last().session.is_playing {
            1nat
        } else {
            0nat
        }
    }
}

/// No two entries share a player name.
pub open spec fn unique_names(entries: Seq<PlayerSession>) -> bool {
    forall|i: int, j: int|
        0 <= i < entries.len() && 0 <= j < entries.len() && i != j
            ==> #[trigger] entries[i].username@ != #[trigger] entries[j].username@
}

/// Some entry belongs to the player named `name`.
pub open spec fn has_player(entries: Seq<PlayerSession>, name: Seq<char>) -> bool {
    exists|i: int| 0 <= i < entries.len() && #[trigger] entries[i].username@ == name
}

/// The position of the player named `name`.
pub open spec fn index_of(entries: Seq<PlayerSession>, name: Seq<char>) -> int {
    choose|i: int| 0 <= i < entries.len() && #[trigger] entries[i].username@ == name
}

/// The session of the player named `name`.
pub open spec fn session_of(entries: Seq<PlayerSession>, name: Seq<char>) -> SessionInfo {
    entries[index_of(entries, name)].session
}

/// Whether a recap is due for the player named `name` (false for a
/// player that is not followed).
pub open spec fn should_report_of(entries: Seq<PlayerSession>, name: Seq<char>) -> bool {
    has_player(entries, name) && session_of(entries, name).should_report
}

impl OsuData {
    /// The followed players, in the order they were added.
    pub open spec fn entries(&self) -> Seq<PlayerSession> {
        self.players_info@
    }

    /// No two entries share a player name.
    pub open spec fn well_formed(&self) -> bool {
        unique_names(self.entries())
    }

    /// No player yet, the given credentials, and a status that does not
    /// show the bot watching anyone.
    pub fn new(client_id: u64, client_secret: String) -> (data: Self)
        ensures
            data.well_formed(),
            data.entries() == Seq::<PlayerSession>::empty(),
            data.osu_info == (client_id, client_secret),
            !data.watching_gameplay,
    {
        OsuData {
            players_info: Vec::new(),
            osu_info: (client_id, client_secret),
            watching_gameplay: false,
        }
    }

    fn find_player(&self, name: &String) -> (idx: Option<usize>)
        requires
            self.well_formed(),
        ensures
            idx is None <==> !has_player(self.entries(), name@),
            idx matches Some(i) ==> i < self.entries().len() && self.entries()[i as int].username@
                == name@ && index_of(self.entries(), name@) == i,
    {
        let mut i: usize = 0;
        while i < self.players_info.len()
            invariant
                self.well_formed(),
                i <= self.players_info@.len(),
                forall|j: int| 0 <= j < i ==> #[trigger] self.players_info@[j].username@ != name@,
            decreases self.players_info@.len() - i,
        {
            if self.players_info[i].username == *name {
                proof {
                    let k = index_of(self.entries(), name@);
                    assert(self.entries()[i as int].username@ == name@);
                    assert(has_player(self.entries(), name@));
                    assert(self.entries()[k].username@ == name@);
                    if k != i {
                        assert(self.entries()[k].username@ != self.entries()[i as int].username@);
                    }
                }
                return Some(i);
            }
            i = i + 1;
        }
        None
    }

    /// Adds `session` for the player `username`, or replaces the session
    /// of a player of that name, keeping the player's position.
    pub fn insert_player(&mut self, username: String, session: SessionInfo)
        requires
            old(self).well_formed(),
        ensures
            final(self).well_formed(),
            final(self).osu_info == old(self).osu_info,
            final(self).watching_gameplay == old(self).watching_gameplay,
            has_player(old(self).entries(), username@) ==> final(self).entries() == with_session(
                old(self).entries(),
                username@,
                |s: SessionInfo| session,
            ),
            !has_player(old(self).entries(), username@) ==> final(self).entries() == old(
                self,
            ).entries().push(PlayerSession { username, session }),
    {
        match self.find_player(&username) {
            Some(i) => {
                let entry = PlayerSession { username: self.players_info[i].username.clone(), session };
                self.players_info.set(i, entry);
                assert(self.entries() =~= with_session(old(self).entries(), username@, |s: SessionInfo| session));
            },
            None => {
                let ghost e = PlayerSession { username, session };
                self.players_info.push(PlayerSession { username, session });
                assert(self.entries() =~= old(self).entries().push(e));
            },
        }
    }
}


/// Names are unique, so changing the session named `name` only changes
/// the entry at its position.
proof fn lemma_with_session_at(
    data: &OsuData,
    name: Seq<char>,
    f: spec_fn(SessionInfo) -> SessionInfo,
    i: int,
)
    requires
        data.well_formed(),
        0 <= i < data.entries().len(),
        data.entries()[i].username@ == name,
    ensures
        with_session(data.entries(), name, f) == data.entries().update(
            i,
            PlayerSession { username: data.entries()[i].username, session: f(data.entries()[i].session) },
        ),
{
    let e = data.entries();
    assert forall|j: int| 0 <= j < e.len() && j != i implies #[trigger] e[j].username@ != name by {
        assert(e[j].username@ != e[i].username@);
    }
    assert(with_session(e, name, f) =~= e.update(
        i,
        PlayerSession { username: e[i].username, session: f(e[i].session) },
    ));
}

/// With no player named `name`, changing its session changes nothing.
proof fn lemma_with_session_absent(
    entries: Seq<PlayerSession>,
    name: Seq<char>,
    f: spec_fn(SessionInfo) -> SessionInfo,
)
    requires
        !has_player(entries, name),
    ensures
        with_session(entries, name, f) == entries,
{
    assert forall|j: int| 0 <= j < entries.len() implies #[trigger] entries[j].username@ != name by {
        if entries[j].username@ == name {
            assert(has_player(entries, name));
        }
    }
    assert(with_session(entries, name, f) =~= entries);
}

impl OsuData {
    /// Replaces the session at position `i`, keeping the player's name.
    fn set_session(&mut self, i: usize, session: SessionInfo)
        requires
            old(self).well_formed(),
            i < old(self).entries().len(),
        ensures
            final(self).well_formed(),
            final(self).osu_info == old(self).osu_info,
            final(self).watching_gameplay == old(self).watching_gameplay,
            final(self).entries() == old(self).entries().update(
                i as int,
                PlayerSession { username: old(self).entries()[i as int].username, session },
            ),
    {
        let entry = PlayerSession { username: self.players_info[i].username.clone(), session };
        self.players_info.set(i, entry);
        proof {
            assert forall|a: int, b: int|
                0 <= a < self.entries().len() && 0 <= b < self.entries().len() && a != b
                    implies #[trigger] self.entries()[a].username@ != #[trigger] self.entries()[b].username@ by {
                assert(old(self).entries()[a].username@ != old(self).entries()[b].username@);
            }
        }
    }

    /// Whether no two entries share a player name.
    pub fn has_unique_names(&self) -> (ok: bool)
        ensures
            ok == self.well_formed(),
    {
        let n = self.players_info.len();
        let mut i: usize = 0;
        while i < n
            invariant
                n == self.entries().len(),
                i <= n,
                forall|a: int, b: int|
                    0 <= a < i && 0 <= b < n && a != b ==> #[trigger] self.entries()[a].username@
                        != #[trigger] self.entries()[b].username@,
            decreases n - i,
        {
            let mut j: usize = 0;
            while j < n
                invariant
                    n == self.entries().len(),
                    i < n,
                    j <= n,
                    forall|a: int, b: int|
                        0 <= a < i && 0 <= b < n && a != b ==> #[trigger] self.entries()[a].username@
                            != #[trigger] self.entries()[b].username@,
                    forall|b: int|
                        0 <= b < j && b != i ==> self.entries()[i as int].username@
                            != #[trigger] self.entries()[b].username@,
                decreases n - j,
            {
                if j != i && self.players_info[i].username == self.players_info[j].username {
                    return false;
                }
                j = j + 1;
            }
            i = i + 1;
        }
        true
    }

    /// How many followed players are playing.
    pub fn get_currently_playing(&self) -> (n: usize)
        ensures
            n == playing_count(self.entries()),
    {
        let mut count: usize = 0;
        let mut i: usize = 0;
        while i < self.players_info.len()
            invariant
                i <= self.players_info@.len(),
                count == playing_count(self.entries().take(i as int)),
                count <= i,
            decreases self.players_info@.len() - i,
        {
            proof {
                assert(self.entries().take(i + 1).drop_last() =~= self.entries().take(i as int));
            }
            if self.players_info[i].session.is_playing {
                count = count + 1;
            }
            i = i + 1;
        }
        assert(self.entries().take(i as int) =~= self.entries());
        count
    }

    /// Marks the player `username` as playing; an unknown name changes
    /// nothing.
    pub fn set_is_playing(&mut self, username: &str)
        requires
            old(self).well_formed(),
        ensures
            final(self).well_formed(),
            final(self).osu_info == old(self).osu_info,
            final(self).watching_gameplay == old(self).watching_gameplay,
            final(self).entries() == with_session(
                old(self).entries(),
                username@,
                |s: SessionInfo| SessionInfo { is_playing: true, ..s },
            ),
    {
        let key = username.to_owned();
        let ghost f = |s: SessionInfo| SessionInfo { is_playing: true, ..s };
        match self.find_player(&key) {
            Some(i) => {
                let mut session = self.players_info[i].session.clone();
                session.is_playing = true;
                proof {
                    lemma_with_session_at(self, username@, f, i as int);
                }
                self.set_session(i, session);
            },
            None => {
                proof {
                    lemma_with_session_absent(self.entries(), username@, f);
                }
            },
        }
    }

    /// Ends the session of the player `username`: not playing, no recap
    /// due. An unknown name changes nothing.
    pub fn reset_session(&mut self, username: &str)
        requires
            old(self).well_formed(),
        ensures
            final(self).well_formed(),
            final(self).osu_info == old(self).osu_info,
            final(self).watching_gameplay == old(self).watching_gameplay,
            final(self).entries() == with_session(
                old(self).entries(),
                username@,
                |s: SessionInfo| SessionInfo { is_playing: false, should_report: false, ..s },
            ),
    {
        let key = username.to_owned();
        let ghost f = |s: SessionInfo| SessionInfo { is_playing: false, should_report: false, ..s };
        match self.find_player(&key) {
            Some(i) => {
                let mut session = self.players_info[i].session.clone();
                session.is_playing = false;
                session.should_report = false;
                proof {
                    lemma_with_session_at(self, username@, f, i as int);
                }
                self.set_session(i, session);
            },
            None => {
                proof {
                    lemma_with_session_absent(self.entries(), username@, f);
                }
            },
        }
    }

    /// Marks a recap as due for the player `username`; an unknown name
    /// changes nothing.
    pub fn set_should_report(&mut self, username: &str)
        requires
            old(self).well_formed(),
        ensures
            final(self).well_formed(),
            final(self).osu_info == old(self).osu_info,
            final(self).watching_gameplay == old(self).watching_gameplay,
            final(self).entries() == with_session(
                old(self).entries(),
                username@,
                |s: SessionInfo| SessionInfo { should_report: true, ..s },
            ),
    {
        let key = username.to_owned();
        let ghost f = |s: SessionInfo| SessionInfo { should_report: true, ..s };
        match self.find_player(&key) {
            Some(i) => {
                let mut session = self.players_info[i].session.clone();
                session.should_report = true;
                proof {
                    lemma_with_session_at(self, username@, f, i as int);
                }
                self.set_session(i, session);
            },
            None => {
                proof {
                    lemma_with_session_absent(self.entries(), username@, f);
                }
            },
        }
    }

    /// Whether a recap is due for the player `username`; `false` for an
    /// unknown name.
    pub fn get_should_report(&self, username: &str) -> (due: bool)
        requires
            self.well_formed(),
        ensures
            due == should_report_of(self.entries(), username@),
    {
        let key = username.to_owned();
        match self.find_player(&key) {
            Some(i) => self.players_info[i].session.should_report,
            None => false,
        }
    }

    /// Starts the session of the player `username` from `user`: both the
    /// first and the latest profile become `user`. An unknown name
    /// changes nothing.
    pub fn init_session(&mut self, username: &str, user: &OsuUser)
        requires
            old(self).well_formed(),
        ensures
            final(self).well_formed(),
            final(self).osu_info == old(self).osu_info,
            final(self).watching_gameplay == old(self).watching_gameplay,
            final(self).entries() == with_session(
                old(self).entries(),
                username@,
                |s: SessionInfo| SessionInfo { initial_user: *user, updated_user: *user, ..s },
            ),
    {
        let key = username.to_owned();
        let ghost f = |s: SessionInfo| SessionInfo { initial_user: *user, updated_user: *user, ..s };
        match self.find_player(&key) {
            Some(i) => {
                let mut session = self.players_info[i].session.clone();
                session.initial_user = user.clone();
                session.updated_user = user.clone();
                proof {
                    lemma_with_session_at(self, username@, f, i as int);
                }
                self.set_session(i, session);
            },
            None => {
                proof {
                    lemma_with_session_absent(self.entries(), username@, f);
                }
            },
        }
    }

    /// A copy of the session of the player `username`, if followed.
    pub fn session(&self, username: &str) -> (s: Option<SessionInfo>)
        requires
            self.well_formed(),
        ensures
            s is Some <==> has_player(self.entries(), username@),
            s matches Some(v) ==> v == session_of(self.entries(), username@),
    {
        let key = username.to_owned();
        match self.find_player(&key) {
            Some(i) => Some(self.players_info[i].session.clone()),
            None => None,
        }
    }
}

/// The names of the followed players, in the order they were added.
pub fn get_users(data: &OsuData) -> (names: Vec<String>)
    ensures
        names@.len() == data.entries().len(),
        forall|i: int| 0 <= i < names@.len() ==> #[trigger] names@[i] == data.entries()[i].username,
{
    let mut names: Vec<String> = Vec::new();
    let mut i: usize = 0;
    while i < data.players_info.len()
        invariant
            i <= data.players_info@.len(),
            names@.len() == i,
            forall|j: int| 0 <= j < i ==> #[trigger] names@[j] == data.entries()[j].username,
        decreases data.players_info@.len() - i,
    {
        names.push(data.players_info[i].username.clone());
        i = i + 1;
    }
    names
}


/// Changing the session of the player `name` keeps every name where it
/// was, gives that player the changed session, and leaves the other
/// players' sessions alone.
pub proof fn law_with_session(
    entries: Seq<PlayerSession>,
    name: Seq<char>,
    f: spec_fn(SessionInfo) -> SessionInfo,
    other: Seq<char>,
)
    requires
        unique_names(entries),
    ensures
        unique_names(with_session(entries, name, f)),
        has_player(with_session(entries, name, f), other) == has_player(entries, other),
        has_player(entries, name) ==> session_of(with_session(entries, name, f), name) == f(
            session_of(entries, name),
        ),
        has_player(entries, other) && other != name ==> session_of(
            with_session(entries, name, f),
            other,
        ) == session_of(entries, other),
{
    let after = with_session(entries, name, f);
    assert forall|i: int| 0 <= i < entries.len() implies #[trigger] after[i].username@
        == entries[i].username@ by {}
    if has_player(entries, other) {
        let i = index_of(entries, other);
        assert(after[i].username@ == other);
        let j = index_of(after, other);
        if i != j {
            assert(entries[i].username@ != entries[j].username@);
        }
    }
    if has_player(after, other) {
        let j = index_of(after, other);
        assert(entries[j].username@ == other);
    }
    if has_player(entries, name) {
        let i = index_of(entries, name);
        assert(after[i].username@ == name);
        let j = index_of(after, name);
        if i != j {
            assert(entries[i].username@ != entries[j].username@);
        }
    }
}

/// No more players are playing than are followed.
pub proof fn law_playing_count_bound(entries: Seq<PlayerSession>)
    ensures
        playing_count(entries) <= entries.len(),
    decreases entries.len(),
{
    if entries.len() > 0 {
        law_playing_count_bound(entries.drop_last());
    }
}

} // verus!
