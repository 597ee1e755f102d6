use scoreboard::field::{field_plan, parse_color, team_color, yard_col, TermColor};
use scoreboard::model::{Competitor, Situation, Status, StatusType, Team};

fn team(abbr: &str, id: Option<&str>, color: Option<&str>) -> Team {
    Team {
        id: id.map(|s| s.to_string()),
        abbreviation: abbr.to_string(),
        display_name: abbr.to_string(),
        short_display_name: abbr.to_string(),
        color: color.map(|s| s.to_string()),
        alternate_color: None,
        logo: None,
    }
}

fn competitor(abbr: &str, id: Option<&str>, color: Option<&str>, side: &str) -> Competitor {
    Competitor {
        team: team(abbr, id, color),
        score: None,
        home_away: side.to_string(),
        winner: None,
    }
}

fn status(state: &str) -> Status {
    Status {
        period: 2,
        display_clock: "7:31".to_string(),
        type_field: StatusType {
            state: state.to_string(),
            short_detail: String::new(),
            description: String::new(),
            detail: String::new(),
        },
    }
}

fn situation(yard_line: Option<i32>, distance: Option<i32>, possession: Option<&str>) -> Situation {
    Situation {
        down: Some(1),
        distance,
        yard_line,
        short_down_distance_text: None,
        possession: possession.map(|s| s.to_string()),
        last_play: None,
    }
}

fn away() -> Competitor {
    competitor("KC", Some("12"), Some("e31837"), "away")
}

fn home() -> Competitor {
    competitor("SF", Some("25"), Some("aa0000"), "home")
}

#[test]
fn grid_alignment_at_width_120() {
    for v in [0u16, 10, 20, 50, 100, 110, 120] {
        assert_eq!(yard_col(v, 120), v);
    }
    let sit = Some(situation(Some(20), None, Some("12")));
    let plan = field_plan(&away(), &home(), &status("in"), &sit, 120, 10).unwrap();
    assert_eq!(plan.away_end, 10);
    assert_eq!(plan.home_start, 110);
    assert_eq!(plan.ticks, vec![20, 30, 40, 50, 60, 70, 80, 90, 100]);
}

#[test]
fn column_formula_at_width_40() {
    // round(20 / 120 * 40) = round(6.67) = 7
    assert_eq!(yard_col(20, 40), 7);
    // round(110 / 120 * 40) = round(36.67) = 37
    assert_eq!(yard_col(110, 40), 37);
    // round(15 / 120 * 40) = round(5.0) = 5
    assert_eq!(yard_col(15, 40), 5);
}

#[test]
fn possession_direction_law() {
    // yard line 20, away ball: logical yard 110 - 20 = 90
    let sit = Some(situation(Some(20), None, Some("12")));
    let plan = field_plan(&away(), &home(), &status("in"), &sit, 120, 10).unwrap();
    assert_eq!(plan.scrimmage, Some(90));

    // yard line 20, home ball: logical yard 10 + 20 = 30
    let sit = Some(situation(Some(20), None, Some("25")));
    let plan = field_plan(&away(), &home(), &status("in"), &sit, 120, 10).unwrap();
    assert_eq!(plan.scrimmage, Some(30));
}

#[test]
fn first_down_marker_positions() {
    // away ball at logical 90, 5 to go: first down at 95
    let sit = Some(situation(Some(20), Some(5), Some("12")));
    let plan = field_plan(&away(), &home(), &status("in"), &sit, 120, 10).unwrap();
    assert_eq!(plan.scrimmage, Some(90));
    assert_eq!(plan.first_down, Some(95));

    // home ball at logical 30, 5 to go: first down at 25
    let sit = Some(situation(Some(20), Some(5), Some("25")));
    let plan = field_plan(&away(), &home(), &status("in"), &sit, 120, 10).unwrap();
    assert_eq!(plan.scrimmage, Some(30));
    assert_eq!(plan.first_down, Some(25));
}

#[test]
fn first_down_never_double_paints_scrimmage() {
    // zero distance: both markers land on the same column; scrimmage wins
    let sit = Some(situation(Some(20), Some(0), Some("12")));
    let plan = field_plan(&away(), &home(), &status("in"), &sit, 120, 10).unwrap();
    assert_eq!(plan.scrimmage, Some(90));
    assert_eq!(plan.first_down, None);

    // at a narrow width two nearby yards share a column; still no double paint
    let sit = Some(situation(Some(20), Some(1), Some("12")));
    let plan = field_plan(&away(), &home(), &status("in"), &sit, 20, 10).unwrap();
    if let (Some(sc), Some(fc)) = (plan.scrimmage, plan.first_down) {
        assert_ne!(sc, fc);
    } else {
        assert!(plan.first_down.is_none());
    }
}

#[test]
fn first_down_off_the_field_is_skipped() {
    // away ball at logical 105, 30 to go: 135 is past the home end line
    let sit = Some(situation(Some(5), Some(30), Some("12")));
    let plan = field_plan(&away(), &home(), &status("in"), &sit, 120, 10).unwrap();
    assert_eq!(plan.scrimmage, Some(105));
    assert_eq!(plan.first_down, None);

    // home ball at logical 15, 30 to go: -15 is before the away end line
    let sit = Some(situation(Some(5), Some(30), Some("25")));
    let plan = field_plan(&away(), &home(), &status("in"), &sit, 120, 10).unwrap();
    assert_eq!(plan.scrimmage, Some(15));
    assert_eq!(plan.first_down, None);
}

#[test]
fn width_fifteen_suppresses_labels_and_glyphs() {
    // below both the field threshold and the glyph threshold: the engine
    // renders nothing (hence no labels), and the compositor picks plain text
    let sit = Some(situation(Some(20), Some(5), Some("12")));
    assert!(field_plan(&away(), &home(), &status("in"), &sit, 15, 10).is_none());
    assert_eq!(
        scoreboard::layout::choose_text_renderer(15),
        scoreboard::layout::RenderStrategy::PlainText
    );
}

#[test]
fn too_small_strip_renders_nothing() {
    let sit = Some(situation(Some(20), Some(5), Some("12")));
    assert!(field_plan(&away(), &home(), &status("in"), &sit, 15, 10).is_none());
    assert!(field_plan(&away(), &home(), &status("in"), &sit, 19, 10).is_none());
    assert!(field_plan(&away(), &home(), &status("in"), &sit, 20, 1).is_none());
    assert!(field_plan(&away(), &home(), &status("in"), &sit, 20, 2).is_some());
}

#[test]
fn markers_suppressed_when_not_live() {
    let sit = Some(situation(Some(20), Some(5), Some("12")));
    let plan = field_plan(&away(), &home(), &status("pre"), &sit, 120, 10).unwrap();
    assert_eq!(plan.scrimmage, None);
    assert_eq!(plan.first_down, None);
    let plan = field_plan(&away(), &home(), &status("post"), &sit, 120, 10).unwrap();
    assert_eq!(plan.scrimmage, None);
    assert_eq!(plan.first_down, None);
}

#[test]
fn markers_need_a_yard_line_on_the_field() {
    let plan = field_plan(&away(), &home(), &status("in"), &None, 120, 10).unwrap();
    assert_eq!(plan.scrimmage, None);
    let sit = Some(situation(None, Some(5), Some("12")));
    let plan = field_plan(&away(), &home(), &status("in"), &sit, 120, 10).unwrap();
    assert_eq!(plan.scrimmage, None);
    let sit = Some(situation(Some(120), Some(5), Some("12")));
    let plan = field_plan(&away(), &home(), &status("in"), &sit, 120, 10).unwrap();
    assert_eq!(plan.scrimmage, None);
}

#[test]
fn no_possession_id_reads_as_home_direction() {
    let sit = Some(situation(Some(20), None, None));
    let plan = field_plan(&away(), &home(), &status("in"), &sit, 120, 10).unwrap();
    assert_eq!(plan.scrimmage, Some(30));
}

#[test]
fn labels_only_above_legibility_threshold() {
    let sit = None;
    let plan = field_plan(&away(), &home(), &status("pre"), &sit, 20, 10).unwrap();
    assert!(plan.labels.is_none());
    let plan = field_plan(&away(), &home(), &status("pre"), &sit, 21, 10).unwrap();
    let labels = plan.labels.unwrap();
    assert_eq!(labels.away_col, 0);
    // "SF" is two columns wide, right-aligned on 21 columns
    assert_eq!(labels.home_col, 19);
}

#[test]
fn end_zone_colors_come_from_the_teams() {
    let plan = field_plan(&away(), &home(), &status("pre"), &None, 120, 10).unwrap();
    assert_eq!(plan.away_color, TermColor::Rgb(0xe3, 0x18, 0x37));
    assert_eq!(plan.home_color, TermColor::Rgb(0xaa, 0x00, 0x00));

    let bare = competitor("X", None, None, "away");
    let plan = field_plan(&bare, &home(), &status("pre"), &None, 120, 10).unwrap();
    assert_eq!(plan.away_color, TermColor::Rgb(0, 0, 0));
}

#[test]
fn parse_color_exact_values() {
    assert_eq!(parse_color("ff0080"), TermColor::Rgb(255, 0, 128));
    assert_eq!(parse_color("FF0080"), TermColor::Rgb(255, 0, 128));
    assert_eq!(parse_color("000000"), TermColor::Rgb(0, 0, 0));
    assert_eq!(parse_color("ffffff"), TermColor::Rgb(255, 255, 255));
}

#[test]
fn parse_color_malformed_falls_back() {
    assert_eq!(parse_color(""), TermColor::White);
    assert_eq!(parse_color("fff"), TermColor::White);
    assert_eq!(parse_color("ff00801"), TermColor::White);
    // six characters, but not hex digits: each bad pair reads as 0
    assert_eq!(parse_color("zz18zz"), TermColor::Rgb(0, 0x18, 0));
}

#[test]
fn team_color_of_absent_color_is_black() {
    assert_eq!(team_color(&None), TermColor::Rgb(0, 0, 0));
    assert_eq!(team_color(&Some("336699".to_string())), TermColor::Rgb(0x33, 0x66, 0x99));
}
