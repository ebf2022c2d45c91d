//! What the bot decides each time it polls a followed player, and at the
//! end of each polling round.
use vstd::prelude::*;
use crate::osu_data::{
    has_player, index_of, law_with_session, playing_count, session_of, should_report_of, unique_names,
    with_session, OsuData, OsuUser, PlayerSession, SessionInfo,
};

verus! {

/// What the caller has to carry out after one poll of a player.
pub struct ActivityStep {
    /// A name to show in the bot's status as the player being watched.
    pub watch: Option<String>,
    /// The player is online: check whether the player's pp went up.
    pub check_pp: bool,
    /// The session to send a recap of.
    pub report: Option<SessionInfo>,
    /// The player is online and a new session started from this profile.
    pub session_started: bool,
}

/// The entries after an online poll of `user`: the player is playing,
/// and a session that had no recap due starts over from `user` with a
/// recap now due.
pub open spec fn online_entries(entries: Seq<PlayerSession>, user: OsuUser) -> Seq<PlayerSession> {
    let name = user.username@;
    let playing = with_session(entries, name, |s: SessionInfo| SessionInfo { is_playing: true, ..s });
    if should_report_of(entries, name) {
        playing
    } else {
        with_session(
            with_session(playing, name, |s: SessionInfo| SessionInfo { should_report: true, ..s }),
            name,
            |s: SessionInfo| SessionInfo { initial_user: user, updated_user: user, ..s },
        )
    }
}

/// The entries after an offline poll of the player `name` whose recap was
/// due: the session is over.
pub open spec fn offline_entries(entries: Seq<PlayerSession>, name: Seq<char>) -> Seq<PlayerSession> {
    with_session(
        entries,
        name,
        |s: SessionInfo| SessionInfo { is_playing: false, should_report: false, ..s },
    )
}

/// The entries after the session of `user` improved once more.
pub open spec fn improved_entries(entries: Seq<PlayerSession>, user: OsuUser) -> Seq<PlayerSession> {
    with_session(
        entries,
        user.username@,
        |s: SessionInfo|
            SessionInfo {
                updated_user: user,
                improvement_counter: (s.improvement_counter + 1) as usize,
                ..s
            },
    )
}

/// The decisions taken when a followed player is polled.
pub struct UserActivity;

impl UserActivity {
    /// One poll of `current_user`. Online: the player is marked playing,
    /// a session with no recap due starts from this profile with a recap
    /// due, the status shows the player when exactly one followed player
    /// is playing, and the pp are to be checked. Offline with a recap due:
    /// the session is handed back for the recap and ends.
    pub fn user_activity(osu_data: &mut OsuData, current_user: &OsuUser) -> (step: ActivityStep)
        requires
            old(osu_data).well_formed(),
        ensures
            final(osu_data).well_formed(),
            final(osu_data).osu_info == old(osu_data).osu_info,
            ({
                let name = current_user.username@;
                let before = old(osu_data).entries();
                if current_user.is_online {
                    let after = online_entries(before, *current_user);
                    &&& final(osu_data).entries() == after
                    &&& step.check_pp
                    &&& step.report is None
                    &&& step.session_started == !should_report_of(before, name)
                    &&& (step.watch is Some <==> playing_count(after) == 1)
                    &&& (step.watch matches Some(w) ==> w@ == name)
                    &&& final(osu_data).watching_gameplay == (old(osu_data).watching_gameplay
                        || playing_count(after) == 1)
                } else {
                    &&& !step.check_pp
                    &&& !step.session_started
                    &&& step.watch is None
                    &&& final(osu_data).watching_gameplay == old(osu_data).watching_gameplay
                    &&& if should_report_of(before, name) {
                        &&& step.report == Some(session_of(before, name))
                        &&& final(osu_data).entries() == offline_entries(before, name)
                    } else {
                        &&& step.report is None
                        &&& final(osu_data).entries() == before
                    }
                }
            }),
    {
        let username = current_user.username.as_str();
        let should_report = osu_data.get_should_report(username);
        if current_user.is_online {
            osu_data.set_is_playing(username);
            if !should_report {
                osu_data.set_should_report(username);
                osu_data.init_session(username, current_user);
            }
            let currently_playing = osu_data.get_currently_playing();
            let watch = Self::edit_bot_activity(osu_data, &current_user.username, currently_playing);
            ActivityStep { watch, check_pp: true, report: None, session_started: !should_report }
        } else {
            if should_report {
                let session = osu_data.session(username);
                osu_data.reset_session(username);
                ActivityStep { watch: None, check_pp: false, report: session, session_started: false }
            } else {
                ActivityStep { watch: None, check_pp: false, report: None, session_started: false }
            }
        }
    }

    /// With exactly one player playing, the status is to show that player.
    fn edit_bot_activity(data: &mut OsuData, username: &String, currently_playing: usize) -> (watch:
        Option<String>)
        ensures
            final(data).entries() == old(data).entries(),
            final(data).osu_info == old(data).osu_info,
            final(data).watching_gameplay == (old(data).watching_gameplay || currently_playing == 1),
            watch is Some <==> currently_playing == 1,
            watch matches Some(w) ==> w@ == username@,
    {
        if currently_playing == 1 {
            data.watching_gameplay = true;
            Some(username.clone())
        } else {
            None
        }
    }

    /// Records a better profile for the player it belongs to: it becomes
    /// the session's latest profile and the improvement count goes up.
    /// The player must be followed (the original stops otherwise).
    pub fn update_session(osu_data: &mut OsuData, updated_user: &OsuUser)
        requires
            old(osu_data).well_formed(),
            has_player(old(osu_data).entries(), updated_user.username@),
            session_of(old(osu_data).entries(), updated_user.username@).improvement_counter
                < usize::MAX,
        ensures
            final(osu_data).well_formed(),
            final(osu_data).osu_info == old(osu_data).osu_info,
            final(osu_data).watching_gameplay == old(osu_data).watching_gameplay,
            final(osu_data).entries() == improved_entries(old(osu_data).entries(), *updated_user),
    {
        let current = osu_data.session(updated_user.username.as_str()).unwrap();
        let session = SessionInfo {
            updated_user: updated_user.clone(),
            improvement_counter: current.improvement_counter + 1,
            ..current
        };
        osu_data.insert_player(updated_user.username.clone(), session);
        proof {
            let name = updated_user.username@;
            let e = old(osu_data).entries();
            let i = index_of(e, name);
            assert(e[i].username@ == name);
            assert forall|j: int| 0 <= j < e.len() && j != i implies #[trigger] e[j].username@ != name by {
                assert(e[j].username@ != e[i].username@);
            }
            assert(osu_data.entries() =~= improved_entries(e, *updated_user));
        }
    }
}

/// The decisions taken at the end of each round of polls.
pub struct ThreadHandler;

impl ThreadHandler {
    /// When nobody is playing and the status still shows a player being
    /// watched, the status is to be reset: returns `true` and records that
    /// nobody is watched any more.
    pub fn reset_activity_if_idle(osu_data: &mut OsuData) -> (reset: bool)
        ensures
            reset == (playing_count(old(osu_data).entries()) == 0 && old(osu_data).watching_gameplay),
            final(osu_data).entries() == old(osu_data).entries(),
            final(osu_data).osu_info == old(osu_data).osu_info,
            final(osu_data).watching_gameplay == (old(osu_data).watching_gameplay && !reset),
    {
        let currently_playing = osu_data.get_currently_playing();
        if currently_playing == 0 && osu_data.watching_gameplay {
            osu_data.watching_gameplay = false;
            true
        } else {
            false
        }
    }
}


/// An online poll of a followed player leaves the player playing with a
/// recap due. A session with no recap due starts over from the polled
/// profile; a session already under way keeps its first profile. Other
/// players keep their sessions.
pub proof fn law_online_poll(entries: Seq<PlayerSession>, user: OsuUser, other: Seq<char>)
    requires
        unique_names(entries),
        has_player(entries, user.username@),
    ensures
        ({
            let name = user.username@;
            let after = online_entries(entries, user);
            &&& unique_names(after)
            &&& has_player(after, name)
            &&& session_of(after, name).is_playing
            &&& session_of(after, name).should_report
            &&& should_report_of(after, name)
            &&& !should_report_of(entries, name) ==> session_of(after, name).initial_user == user
                && session_of(after, name).updated_user == user
            &&& should_report_of(entries, name) ==> session_of(after, name).initial_user
                == session_of(entries, name).initial_user
            &&& should_report_of(entries, name) ==> session_of(after, name) == SessionInfo {
                is_playing: true,
                ..session_of(entries, name)
            }
            &&& should_report_of(entries, name) ==> session_of(after, name).updated_user
                == session_of(entries, name).updated_user
                && session_of(after, name).improvement_counter
                == session_of(entries, name).improvement_counter
            &&& !should_report_of(entries, name) ==> session_of(after, name) == SessionInfo {
                is_playing: true,
                should_report: true,
                initial_user: user,
                updated_user: user,
                ..session_of(entries, name)
            }
            &&& has_player(entries, other) && other != name ==> session_of(after, other)
                == session_of(entries, other)
        }),
{
    let name = user.username@;
    let f1 = |s: SessionInfo| SessionInfo { is_playing: true, ..s };
    let f2 = |s: SessionInfo| SessionInfo { should_report: true, ..s };
    let f3 = |s: SessionInfo| SessionInfo { initial_user: user, updated_user: user, ..s };
    let e1 = with_session(entries, name, f1);
    law_with_session(entries, name, f1, other);
    law_with_session(entries, name, f1, name);
    if !should_report_of(entries, name) {
        let e2 = with_session(e1, name, f2);
        law_with_session(e1, name, f2, other);
        law_with_session(e1, name, f2, name);
        law_with_session(e2, name, f3, other);
        law_with_session(e2, name, f3, name);
    }
}

/// An offline poll that sends a recap ends the session: the player is no
/// longer playing and no recap is due. Other players keep their sessions.
pub proof fn law_offline_poll(entries: Seq<PlayerSession>, name: Seq<char>, other: Seq<char>)
    requires
        unique_names(entries),
        has_player(entries, name),
    ensures
        unique_names(offline_entries(entries, name)),
        !session_of(offline_entries(entries, name), name).is_playing,
        !should_report_of(offline_entries(entries, name), name),
        session_of(offline_entries(entries, name), name).initial_user == session_of(entries, name).initial_user,
        session_of(offline_entries(entries, name), name) == (SessionInfo {
            is_playing: false,
            should_report: false,
            ..session_of(entries, name)
        }),
        has_player(entries, other) && other != name ==> session_of(offline_entries(entries, name), other)
            == session_of(entries, other),
{
    let f = |s: SessionInfo| SessionInfo { is_playing: false, should_report: false, ..s };
    law_with_session(entries, name, f, other);
    law_with_session(entries, name, f, name);
}

/// Recording a better profile makes it the session's latest profile,
/// counts one more improvement and keeps the session's first profile.
pub proof fn law_update_session(entries: Seq<PlayerSession>, user: OsuUser)
    requires
        unique_names(entries),
        has_player(entries, user.username@),
        session_of(entries, user.username@).improvement_counter < usize::MAX,
    ensures
        ({
            let name = user.username@;
            let after = improved_entries(entries, user);
            &&& unique_names(after)
            &&& session_of(after, name).updated_user == user
            &&& session_of(after, name).improvement_counter == session_of(entries, name).improvement_counter + 1
            &&& session_of(after, name).initial_user == session_of(entries, name).initial_user
            &&& session_of(after, name).should_report == session_of(entries, name).should_report
            &&& session_of(after, name) == SessionInfo {
                updated_user: user,
                improvement_counter: (session_of(entries, name).improvement_counter + 1) as usize,
                ..session_of(entries, name)
            }
        }),
{
    let name = user.username@;
    let f = |s: SessionInfo|
        SessionInfo { updated_user: user, improvement_counter: (s.improvement_counter + 1) as usize, ..s };
    law_with_session(entries, name, f, name);
}

} // verus!
