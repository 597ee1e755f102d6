//! Field coordinate engine: maps a game situation (possession, yard line,
//! distance to go) and a target width onto terminal column coordinates for
//! end zones, yard ticks, the scrimmage line, the first-down line and the
//! end-zone labels.
//!
//! The field is a logical continuum of 120 yards: yards 0-10 are the away
//! end zone, 10-110 the playing field, 110-120 the home end zone. A single
//! linear map from logical yards to columns is the source of truth for
//! every marker.

use vstd::prelude::*;
use vstd::string::StrSliceExecFns;
use crate::model::{Competitor, Situation, Status};

verus! {

/// A terminal cell color: either the neutral default or a 24-bit value.
#[derive(Debug, Clone, Copy, PartialEq, Eq, Structural)]
pub enum TermColor {
    White,
    Rgb(u8, u8, u8),
}

/// Value of a single hexadecimal digit, or -1 when `c` is not one.
pub open spec fn hex_digit_val(c: char) -> int {
    if '0' <= c && c <= '9' {
        c as u32 - 48
    } else if 'a' <= c && c <= 'f' {
        c as u32 - 87
    } else if 'A' <= c && c <= 'F' {
        c as u32 - 55
    } else {
        -1
    }
}

pub open spec fn is_hex_digit(c: char) -> bool {
    hex_digit_val(c) >= 0
}

/// One color component from two hex digits; a malformed pair reads as 0.
pub open spec fn hex_pair_val(hi: char, lo: char) -> int {
    if is_hex_digit(hi) && is_hex_digit(lo) {
        16 * hex_digit_val(hi) + hex_digit_val(lo)
    } else {
        0
    }
}

/// A declared team color parses as three hex pairs; anything that is not
/// six characters long falls back to the neutral default.
pub open spec fn parse_color_spec(s: Seq<char>) -> TermColor {
    if s.len() == 6 {
        TermColor::Rgb(
            hex_pair_val(s[0], s[1]) as u8,
            hex_pair_val(s[2], s[3]) as u8,
            hex_pair_val(s[4], s[5]) as u8,
        )
    } else {
        TermColor::White
    }
}

fn hex_digit(c: char) -> (r: Option<u8>)
    ensures
        (r is Some) == is_hex_digit(c),
        r matches Some(v) ==> v as int == hex_digit_val(c),
{
    let u = c as u32;
    if 48 <= u && u <= 57 {
        Some((u - 48) as u8)
    } else if 97 <= u && u <= 102 {
        Some((u - 87) as u8)
    } else if 65 <= u && u <= 70 {
        Some((u - 55) as u8)
    } else {
        None
    }
}

fn hex_pair(hi: char, lo: char) -> (v: u8)
    ensures
        v as int == hex_pair_val(hi, lo),
{
    match (hex_digit(hi), hex_digit(lo)) {
        (Some(h), Some(l)) => 16 * h + l,
        _ => 0,
    }
}

/// Parse a 6-hex-digit color string into an RGB triple; malformed input
/// falls back to the neutral default.
pub fn parse_color(hex: &str) -> (c: TermColor)
    ensures
        c == parse_color_spec(hex@),
{
    let n = hex.unicode_len();
    if n != 6 {
        return TermColor::White;
    }
    let r = hex_pair(hex.get_char(0), hex.get_char(1));
    let g = hex_pair(hex.get_char(2), hex.get_char(3));
    let b = hex_pair(hex.get_char(4), hex.get_char(5));
    TermColor::Rgb(r, g, b)
}

/// An absent color reads as black; a present one is parsed.
pub open spec fn team_color_spec(color: Option<String>) -> TermColor {
    match color {
        Some(s) => parse_color_spec(s@),
        None => TermColor::Rgb(0, 0, 0),
    }
}

pub fn team_color(color: &Option<String>) -> (c: TermColor)
    ensures
        c == team_color_spec(*color),
{
    match color {
        Some(s) => parse_color(s.as_str()),
        None => TermColor::Rgb(0, 0, 0),
    }
}

/// The single linear map from a logical yard to a column: the nearest
/// column to `v / 120 * w`.
pub open spec fn col_spec(v: int, w: int) -> int {
    (v * w + 60) / 120
}

pub proof fn lemma_col_bounds(v: int, w: int)
    requires
        0 <= v <= 120,
        0 <= w,
    ensures
        0 <= col_spec(v, w) <= w,
{
    assert(v * w + 60 >= 0) by (nonlinear_arith)
        requires 0 <= v && 0 <= w;
    assert(v * w + 60 <= 120 * w + 60) by (nonlinear_arith)
        requires v <= 120 && 0 <= w;
    assert((120 * w + 60) / 120 == w) by (nonlinear_arith)
        requires 0 <= w;
    vstd::arithmetic::div_mod::lemma_div_is_ordered(v * w + 60, 120 * w + 60, 120);
    vstd::arithmetic::div_mod::lemma_div_pos_is_pos(v * w + 60, 120);
}

pub proof fn lemma_col_inside(v: int, w: int)
    requires
        0 <= v <= 110,
        7 <= w,
    ensures
        0 <= col_spec(v, w) < w,
{
    assert(v * w + 60 >= 0) by (nonlinear_arith)
        requires 0 <= v && 0 <= w;
    assert(v * w + 60 <= 120 * w - 1) by (nonlinear_arith)
        requires v <= 110 && 7 <= w;
    assert((120 * w - 1) / 120 == w - 1) by (nonlinear_arith)
        requires 1 <= w;
    vstd::arithmetic::div_mod::lemma_div_is_ordered(v * w + 60, 120 * w - 1, 120);
    vstd::arithmetic::div_mod::lemma_div_pos_is_pos(v * w + 60, 120);
}

/// At a width of 120 columns the map is the identity on the yard grid:
/// every standard yard marker lands exactly on its own column.
pub proof fn lemma_grid_alignment(v: int)
    requires
        0 <= v <= 120,
        v % 10 == 0,
    ensures
        col_spec(v, 120) == v,
{
    assert((v * 120 + 60) / 120 == v) by (nonlinear_arith)
        requires 0 <= v;
}

/// Column of logical yard `v` on a strip `width` columns wide.
pub fn yard_col(v: u16, width: u16) -> (c: u16)
    requires
        v <= 120,
    ensures
        c as int == col_spec(v as int, width as int),
        c <= width,
{
    proof {
        lemma_col_bounds(v as int, width as int);
    }
    let n: u32 = (v as u32) * (width as u32) + 60;
    (n / 120) as u16
}

/// The identity a competitor is matched against when resolving
/// possession: its team id, or the empty string when absent.
pub open spec fn competitor_id_view(c: Competitor) -> Seq<char> {
    match c.team.id {
        Some(id) => id@,
        None => Seq::<char>::empty(),
    }
}

/// Whether the situation's possession field names this competitor.
pub open spec fn possession_of(sit: Situation, c: Competitor) -> bool {
    match sit.possession {
        Some(p) => p@ == competitor_id_view(c),
        None => false,
    }
}

pub fn competitor_possesses(sit: &Situation, c: &Competitor) -> (r: bool)
    ensures
        r == possession_of(*sit, *c),
{
    match (&sit.possession, &c.team.id) {
        (Some(p), Some(id)) => *p == *id,
        (Some(p), None) => {
            let empty = p.as_str().is_empty();
            proof {
                if p@.len() == 0 {
                    assert(p@ =~= Seq::<char>::empty());
                }
            }
            empty
        },
        (None, _) => false,
    }
}

/// Absolute logical yard of the line of scrimmage. The yard line is the
/// distance the possessing team must travel: the away team attacks
/// rightward, the home team leftward.
pub open spec fn scrimmage_yard_spec(yl: int, away_has_ball: bool) -> int {
    if away_has_ball {
        110 - yl
    } else {
        10 + yl
    }
}

/// Absolute logical yard of the first-down line: `distance` yards forward
/// of the scrimmage line, in the possessing team's direction.
pub open spec fn first_down_yard_spec(yl: int, dist: int, away_has_ball: bool) -> int {
    if away_has_ball {
        scrimmage_yard_spec(yl, away_has_ball) + dist
    } else {
        scrimmage_yard_spec(yl, away_has_ball) - dist
    }
}

/// Situation markers are drawn only for a game that is live and carries a
/// yard line within the field.
pub open spec fn markers_on(status: Status, situation: Option<Situation>) -> bool {
    &&& status.type_field.state@ == "in"@
    &&& situation is Some
    &&& situation->0.yard_line is Some
    &&& 0 <= situation->0.yard_line->0 <= 100
}

pub open spec fn plan_scrimmage_yard(situation: Option<Situation>, away: Competitor) -> int {
    scrimmage_yard_spec(
        situation->0.yard_line->0 as int,
        possession_of(situation->0, away),
    )
}

pub open spec fn plan_first_down_yard(situation: Option<Situation>, away: Competitor) -> int {
    first_down_yard_spec(
        situation->0.yard_line->0 as int,
        situation->0.distance->0 as int,
        possession_of(situation->0, away),
    )
}

/// The first-down line is drawn when the markers are, a distance is
/// known, the line lies on the field strip, and its column does not
/// coincide with the scrimmage column (which takes precedence).
pub open spec fn first_down_on(
    status: Status,
    situation: Option<Situation>,
    away: Competitor,
    w: int,
) -> bool {
    &&& markers_on(status, situation)
    &&& situation->0.distance is Some
    &&& 0 <= plan_first_down_yard(situation, away) <= 120
    &&& col_spec(plan_first_down_yard(situation, away), w) < w
    &&& col_spec(plan_first_down_yard(situation, away), w)
        != col_spec(plan_scrimmage_yard(situation, away), w)
}

/// Column of the home end-zone label: right-aligned to the strip.
pub open spec fn home_label_col_spec(label_len: int, w: int) -> int {
    if label_len >= w {
        0
    } else {
        w - label_len
    }
}

/// Where the two end-zone labels go, when the strip is wide enough.
#[derive(Debug, Clone, Copy, PartialEq, Eq, Structural)]
pub struct LabelPlan {
    pub away_col: u16,
    pub home_col: u16,
}

/// Column-indexed paint instructions for the field strip.
///
/// Columns `0 .. away_end` are the away end zone, `home_start .. width`
/// the home end zone, and everything between is the playing field.
#[derive(Debug)]
pub struct FieldPlan {
    pub width: u16,
    pub height: u16,
    pub away_color: TermColor,
    pub home_color: TermColor,
    pub away_end: u16,
    pub home_start: u16,
    pub ticks: Vec<u16>,
    pub scrimmage: Option<u16>,
    pub first_down: Option<u16>,
    pub labels: Option<LabelPlan>,
}

/// Compute the paint instructions for one game's field strip.
///
/// Returns nothing below the minimum legible size (20 columns, 2 rows).
/// Yard ticks stand at logical yards 20, 30, ..., 100. Scrimmage and
/// first-down markers appear only while the game is live; the first-down
/// marker is suppressed where it would double-paint the scrimmage column.
/// Labels appear only above the legibility threshold of 20 columns.
pub fn field_plan(
    away: &Competitor,
    home: &Competitor,
    status: &Status,
    situation: &Option<Situation>,
    width: u16,
    height: u16,
) -> (r: Option<FieldPlan>)
    ensures
        (r is Some) == (width >= 20 && height >= 2),
        r matches Some(p) ==> {
            &&& p.width == width
            &&& p.height == height
            &&& p.away_color == team_color_spec(away.team.color)
            &&& p.home_color == team_color_spec(home.team.color)
            &&& p.away_end as int == col_spec(10, width as int)
            &&& p.home_start as int == col_spec(110, width as int)
            &&& p.ticks@.len() == 9
            &&& forall|j: int|
                0 <= j < 9 ==> (#[trigger] p.ticks@[j]) as int == col_spec(
                    20 + 10 * j,
                    width as int,
                )
            &&& (p.scrimmage is Some) == markers_on(*status, *situation)
            &&& (p.scrimmage matches Some(sc) ==> sc as int == col_spec(
                plan_scrimmage_yard(*situation, *away),
                width as int,
            ) && sc < width)
            &&& (p.first_down is Some) == first_down_on(*status, *situation, *away, width as int)
            &&& (p.first_down matches Some(fc) ==> fc as int == col_spec(
                plan_first_down_yard(*situation, *away),
                width as int,
            ) && fc < width)
            &&& (p.first_down is Some ==> p.scrimmage is Some && p.first_down->0
                != p.scrimmage->0)
            &&& (p.labels is Some) == (width > 20)
            &&& (p.labels matches Some(l) ==> l.away_col == 0 && l.home_col as int
                == home_label_col_spec(home.team.abbreviation@.len() as int, width as int))
        },
{
    if width < 20 || height < 2 {
        return None;
    }
    let away_color = team_color(&away.team.color);
    let home_color = team_color(&home.team.color);
    let away_end = yard_col(10, width);
    let home_start = yard_col(110, width);

    let mut ticks: Vec<u16> = Vec::new();
    let mut k: usize = 0;
    while k < 9
        invariant
            k <= 9,
            width >= 20,
            ticks@.len() == k as int,
            forall|j: int|
                0 <= j < k as int ==> (#[trigger] ticks@[j]) as int == col_spec(
                    20 + 10 * j,
                    width as int,
                ),
        decreases 9 - k,
    {
        let yard: u16 = 20 + 10 * (k as u16);
        let c = yard_col(yard, width);
        ticks.push(c);
        k += 1;
    }

    let live = status.type_field.state == "in".to_owned();
    let mut scrimmage: Option<u16> = None;
    let mut first_down: Option<u16> = None;
    if live {
        if let Some(sit) = situation {
            if let Some(yl) = sit.yard_line {
                if 0 <= yl && yl <= 100 {
                    let away_ball = competitor_possesses(sit, away);
                    let scrim_yard: u16 = if away_ball {
                        110 - (yl as u16)
                    } else {
                        10 + (yl as u16)
                    };
                    proof {
                        lemma_col_inside(scrim_yard as int, width as int);
                    }
                    let sc = yard_col(scrim_yard, width);
                    scrimmage = Some(sc);
                    if let Some(d) = sit.distance {
                        let fd_yard: i64 = if away_ball {
                            scrim_yard as i64 + d as i64
                        } else {
                            scrim_yard as i64 - d as i64
                        };
                        if 0 <= fd_yard && fd_yard <= 120 {
                            let fc = yard_col(fd_yard as u16, width);
                            if fc < width && fc != sc {
                                first_down = Some(fc);
                            }
                        }
                    }
                }
            }
        }
    }

    let labels = if width > 20 {
        let label_len = home.team.abbreviation.as_str().unicode_len();
        let home_col: u16 = if label_len >= width as usize {
            0
        } else {
            width - (label_len as u16)
        };
        Some(LabelPlan { away_col: 0, home_col })
    } else {
        None
    };

    Some(FieldPlan {
        width,
        height,
        away_color,
        home_color,
        away_end,
        home_start,
        ticks,
        scrimmage,
        first_down,
        labels,
    })
}

} // verus!
