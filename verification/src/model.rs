//! Snapshot data model: immutable-per-update value types describing one
//! polled league snapshot (games, teams, scores, situation).

use vstd::prelude::*;

verus! {

/// One complete polled representation of all in-scope games.
#[derive(Debug)]
pub struct ScoreboardResponse {
    pub events: Vec<Event>,
}

/// One game: a short display name, its competitions (only the first is
/// rendered) and a status mirrored from the primary competition.
#[derive(Debug)]
pub struct Event {
    pub short_name: String,
    pub competitions: Vec<Competition>,
    pub status: Status,
}

/// One competition of a game: its competitors (one `home`, one `away`
/// when well-formed), a status, an optional live-play situation and an
/// optional broadcast list.
#[derive(Debug)]
pub struct Competition {
    pub competitors: Vec<Competitor>,
    pub status: Status,
    pub situation: Option<Situation>,
    pub broadcasts: Option<Vec<Broadcast>>,
}

/// A television broadcast entry.
#[derive(Debug)]
pub struct Broadcast {
    pub market: Option<String>,
    pub names: Vec<String>,
}

/// A team taking part in a competition, with its side and score.
#[derive(Debug)]
pub struct Competitor {
    pub team: Team,
    pub score: Option<String>,
    pub home_away: String,
    pub winner: Option<bool>,
}

/// Team identity and presentation data.
#[derive(Debug)]
pub struct Team {
    pub id: Option<String>,
    pub abbreviation: String,
    pub display_name: String,
    pub short_display_name: String,
    pub color: Option<String>,
    pub alternate_color: Option<String>,
    pub logo: Option<String>,
}

/// Game status: period, display clock and the three-state status type.
#[derive(Debug)]
pub struct Status {
    pub period: i32,
    pub display_clock: String,
    pub type_field: StatusType,
}

/// The status state (`"pre"`, `"in"` or `"post"`) with its
/// human-readable detail strings.
#[derive(Debug)]
pub struct StatusType {
    pub state: String,
    pub short_detail: String,
    pub description: String,
    pub detail: String,
}

/// Live in-play context: down, distance, yard line, possession.
#[derive(Debug)]
pub struct Situation {
    pub down: Option<i32>,
    pub distance: Option<i32>,
    pub yard_line: Option<i32>,
    pub short_down_distance_text: Option<String>,
    pub possession: Option<String>,
    pub last_play: Option<LastPlay>,
}

/// The text of the most recent play.
#[derive(Debug)]
pub struct LastPlay {
    pub text: String,
}

/// A game counts as live when its status state is exactly `"in"`.
pub open spec fn is_live(e: Event) -> bool {
    e.status.type_field.state@ == "in"@
}

/// The first competitor marked with the given side, if any.
pub open spec fn find_side_spec(s: Seq<Competitor>, side: Seq<char>) -> Option<Competitor>
    decreases s.len(),
{
    if s.len() == 0 {
        None
    } else if s[0].home_away@ == side {
        Some(s[0])
    } else {
        find_side_spec(s.drop_first(), side)
    }
}

fn find_side<'a>(competitors: &'a Vec<Competitor>, key: &String) -> (r: Option<&'a Competitor>)
    ensures
        (r is Some) == (find_side_spec(competitors@, key@) is Some),
        r matches Some(c) ==> find_side_spec(competitors@, key@) == Some(*c),
{
    let n = competitors.len();
    proof {
        assert(competitors@.skip(0) =~= competitors@);
    }
    let mut i: usize = 0;
    while i < n
        invariant
            i <= n,
            n == competitors@.len(),
            find_side_spec(competitors@, key@) == find_side_spec(
                competitors@.skip(i as int),
                key@,
            ),
        decreases n - i,
    {
        proof {
            assert(competitors@.skip(i as int)[0] == competitors@[i as int]);
            assert(competitors@.skip(i as int).drop_first() =~= competitors@.skip(i as int + 1));
        }
        if competitors[i].home_away == *key {
            return Some(&competitors[i]);
        }
        i += 1;
    }
    proof {
        assert(competitors@.skip(n as int).len() == 0);
    }
    None
}

/// The competitor on the home side, if the competition has one.
/// A competition without both sides is tolerated: the caller skips
/// rendering the affected panes instead of failing.
pub fn find_home<'a>(competitors: &'a Vec<Competitor>) -> (r: Option<&'a Competitor>)
    ensures
        (r is Some) == (find_side_spec(competitors@, "home"@) is Some),
        r matches Some(c) ==> find_side_spec(competitors@, "home"@) == Some(*c),
{
    let key: String = "home".to_owned();
    find_side(competitors, &key)
}

/// The competitor on the away side, if the competition has one.
pub fn find_away<'a>(competitors: &'a Vec<Competitor>) -> (r: Option<&'a Competitor>)
    ensures
        (r is Some) == (find_side_spec(competitors@, "away"@) is Some),
        r matches Some(c) ==> find_side_spec(competitors@, "away"@) == Some(*c),
{
    let key: String = "away".to_owned();
    find_side(competitors, &key)
}

} // verus!
