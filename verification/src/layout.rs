//! Adaptive layout decisions: renderer choice per header sub-region, the
//! logo slot, the status state machine, and the textual pieces of the
//! sidebar and status bar.

use vstd::prelude::*;
use vstd::string::StringExecFns;
use crate::field::possession_of;
use crate::model::{Broadcast, Competition, Competitor, Event, Situation, Status, StatusType};

verus! {

/// Sub-regions narrower than this render score and abbreviation as plain
/// single-line text; at or above it, oversized multi-cell glyphs.
pub const GLYPH_MIN_WIDTH: u16 = 25;

/// Width of the fixed slot a decoded logo occupies in the header.
pub const LOGO_SLOT_WIDTH: u16 = 22;

/// How team abbreviation and score are drawn in one header sub-region.
#[derive(Debug, Clone, Copy, PartialEq, Eq, Structural)]
pub enum RenderStrategy {
    PlainText,
    OversizedGlyphs,
}

/// Choose the text renderer for one header sub-region from its width
/// alone. Away and home sides are evaluated independently.
pub fn choose_text_renderer(width: u16) -> (r: RenderStrategy)
    ensures
        r == (if width < GLYPH_MIN_WIDTH {
            RenderStrategy::PlainText
        } else {
            RenderStrategy::OversizedGlyphs
        }),
{
    if width < GLYPH_MIN_WIDTH {
        RenderStrategy::PlainText
    } else {
        RenderStrategy::OversizedGlyphs
    }
}

/// Width of a team's logo slot: the fixed slot only when logos are shown
/// and one has been decoded for the team; otherwise the slot collapses to
/// zero and the text area expands to fill it.
pub fn logo_slot_width(show_logos: bool, has_logo: bool) -> (w: u16)
    ensures
        w == (if show_logos && has_logo {
            LOGO_SLOT_WIDTH
        } else {
            0u16
        }),
{
    if show_logos && has_logo {
        LOGO_SLOT_WIDTH
    } else {
        0
    }
}

/// Whether this status drives the live highlight color and the field
/// situation overlays.
pub fn status_is_live(status: &Status) -> (r: bool)
    ensures
        r == (status.type_field.state@ == "in"@),
{
    status.type_field.state == "in".to_owned()
}

/// The three-state status machine `pre -> in -> post`; it only ever
/// moves forward for a given game.
#[derive(Debug, Clone, Copy, PartialEq, Eq, Structural)]
pub enum StatusState {
    Pre,
    In,
    Post,
}

pub open spec fn parse_status_state_spec(s: Seq<char>) -> Option<StatusState> {
    if s == "pre"@ {
        Some(StatusState::Pre)
    } else if s == "in"@ {
        Some(StatusState::In)
    } else if s == "post"@ {
        Some(StatusState::Post)
    } else {
        None
    }
}

/// Read a status type's state string into the three-state machine.
pub fn parse_status_state(t: &StatusType) -> (r: Option<StatusState>)
    ensures
        r == parse_status_state_spec(t.state@),
{
    if t.state == "pre".to_owned() {
        Some(StatusState::Pre)
    } else if t.state == "in".to_owned() {
        Some(StatusState::In)
    } else if t.state == "post".to_owned() {
        Some(StatusState::Post)
    } else {
        None
    }
}

pub open spec fn status_rank_spec(s: StatusState) -> int {
    match s {
        StatusState::Pre => 0,
        StatusState::In => 1,
        StatusState::Post => 2,
    }
}

/// Position of a state in the `pre -> in -> post` progression; a later
/// state never ranks below an earlier one.
pub fn status_rank(s: StatusState) -> (r: u8)
    ensures
        r as int == status_rank_spec(s),
{
    match s {
        StatusState::Pre => 0,
        StatusState::In => 1,
        StatusState::Post => 2,
    }
}

pub open spec fn sidebar_status_label_spec(st: Status) -> Seq<char> {
    if st.type_field.state@ == "pre"@ {
        "Pre"@
    } else if st.type_field.state@ == "post"@ {
        "Final"@
    } else {
        st.display_clock@
    }
}

/// The bracketed status a game shows in the sidebar: `Pre` before the
/// game, `Final` after it, and the display clock otherwise.
pub fn sidebar_status_label(st: &Status) -> (r: String)
    ensures
        r@ == sidebar_status_label_spec(*st),
{
    if st.type_field.state == "pre".to_owned() {
        "Pre".to_owned()
    } else if st.type_field.state == "post".to_owned() {
        "Final".to_owned()
    } else {
        st.display_clock.clone()
    }
}

/// One sidebar line: the game's short name, two spaces, and its status in
/// brackets.
pub fn sidebar_entry(e: &Event) -> (r: String)
    ensures
        r@ == e.short_name@ + "  ["@ + sidebar_status_label_spec(e.status) + "]"@,
{
    let label = sidebar_status_label(&e.status);
    e.short_name.clone().concat("  [").concat(label.as_str()).concat("]")
}

/// The sidebar title reflects whether the live filter is on.
pub fn sidebar_title(filter_live: bool) -> (r: &'static str)
    ensures
        filter_live ==> r@ == " LIVE GAMES "@,
        !filter_live ==> r@ == " GAMES "@,
{
    if filter_live {
        " LIVE GAMES "
    } else {
        " GAMES "
    }
}

/// The score a competitor displays: its textual score, read as `0` when
/// absent.
pub fn score_text(c: &Competitor) -> (r: String)
    ensures
        c.score matches Some(s) ==> r@ == s@,
        c.score is None ==> r@ == "0"@,
{
    match &c.score {
        Some(s) => s.clone(),
        None => "0".to_owned(),
    }
}

/// Which abbreviation the status bar names as having possession: the
/// away team's when the possession id matches it, else the home team's.
pub fn possession_label<'a>(
    sit: &Situation,
    away: &'a Competitor,
    home: &'a Competitor,
) -> (r: &'a String)
    ensures
        *r == (if possession_of(*sit, *away) {
            away.team.abbreviation
        } else {
            home.team.abbreviation
        }),
{
    if crate::field::competitor_possesses(sit, away) {
        &away.team.abbreviation
    } else {
        &home.team.abbreviation
    }
}

/// Field-position wording: the yard line counts the distance still to
/// travel, so more than 50 to go puts the ball in the possessing team's
/// own half, exactly 50 at midfield, and less in the opponent's half.
#[derive(Debug, Clone, Copy, PartialEq, Eq, Structural)]
pub enum YardLineLabel {
    Own(i32),
    Midfield,
    Opp(i32),
}

pub fn yard_line_label(yl: i32) -> (r: YardLineLabel)
    requires
        0 <= yl <= 100,
    ensures
        r == (if yl > 50 {
            YardLineLabel::Own((100 - yl) as i32)
        } else if yl == 50 {
            YardLineLabel::Midfield
        } else {
            YardLineLabel::Opp(yl)
        }),
{
    if yl > 50 {
        YardLineLabel::Own(100i32 - yl)
    } else if yl == 50 {
        YardLineLabel::Midfield
    } else {
        YardLineLabel::Opp(yl)
    }
}

/// The broadcast names of a sequence of broadcast entries, flattened in
/// order.
pub open spec fn names_of(bs: Seq<Broadcast>) -> Seq<String>
    decreases bs.len(),
{
    if bs.len() == 0 {
        Seq::empty()
    } else {
        names_of(bs.drop_last()) + bs.last().names@
    }
}

/// All broadcast network names of a competition, flattened in order.
pub fn broadcast_names(comp: &Competition) -> (r: Vec<String>)
    ensures
        comp.broadcasts matches Some(bs) ==> r@ == names_of(bs@),
        comp.broadcasts is None ==> r@ == Seq::<String>::empty(),
{
    let mut out: Vec<String> = Vec::new();
    match &comp.broadcasts {
        Some(bs) => {
            let mut i: usize = 0;
            while i < bs.len()
                invariant
                    i <= bs@.len(),
                    out@ == names_of(bs@.take(i as int)),
                decreases bs@.len() - i,
            {
                proof {
                    assert(bs@.take(i as int + 1).drop_last() =~= bs@.take(i as int));
                    assert(bs@.take(i as int + 1).last() == bs@[i as int]);
                }
                let names = &bs[i].names;
                proof {
                    assert(names_of(bs@.take(i as int)) + names@.take(0) =~= names_of(
                        bs@.take(i as int),
                    ));
                }
                let mut j: usize = 0;
                while j < names.len()
                    invariant
                        j <= names@.len(),
                        names@ == bs@[i as int].names@,
                        i < bs@.len(),
                        out@ == names_of(bs@.take(i as int)) + names@.take(j as int),
                    decreases names@.len() - j,
                {
                    out.push(names[j].clone());
                    proof {
                        assert(out@ =~= names_of(bs@.take(i as int)) + names@.take(
                            j as int + 1,
                        ));
                    }
                    j += 1;
                }
                proof {
                    assert(names@.take(names@.len() as int) =~= names@);
                }
                i += 1;
            }
            proof {
                assert(bs@.take(bs@.len() as int) =~= bs@);
            }
        },
        None => {},
    }
    out
}

} // verus!
