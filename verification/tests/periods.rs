use freeplay_stats::db::period::PeriodError;
use freeplay_stats::db::Db;
use freeplay_stats::double::Double;
use freeplay_stats::glicko::{
    cap_deviation, PeriodResult, Rating, DEFAULT_MU, DEFAULT_PHI, DEFAULT_SIGMA, LOSS_SCORE,
    WIN_SCORE,
};
use freeplay_stats::rating_period::{CloseOutcome, PeriodTimer, Report, TickAction, PERIOD_SECS};

fn double(x: f64) -> Double {
    Double { bits: x.to_bits() }
}

fn rating(mu: f64, phi: f64, sigma: f64) -> Rating {
    Rating { mu: double(mu), phi: double(phi), sigma: double(sigma) }
}

/// Three players: `a` beat `b` twice, `c` has not played in the period.
fn ladder() -> Db {
    let mut db = Db::new();
    db.process_result_at("a", "c", 2, 1, "r0", "rom", "t0");
    let start = vec![
        rating(1600.0, 100.0, 0.06),
        rating(1400.0, 80.0, 0.06),
    ];
    assert_eq!(db.close_rating_period_at(&start, "p0"), Ok((1, 2)));
    db.process_result_at("a", "b", 2, 1, "r1", "rom", "t1");
    db.process_result_at("b", "a", 2, 0, "r2", "rom", "t2");
    db
}

#[test]
fn constants_are_those_of_the_scale() {
    assert_eq!(f64::from_bits(DEFAULT_MU), 1500.0);
    assert_eq!(f64::from_bits(DEFAULT_PHI), 350.0);
    assert_eq!(f64::from_bits(DEFAULT_SIGMA), 0.06);
    assert_eq!(f64::from_bits(WIN_SCORE), 1.0);
    assert_eq!(f64::from_bits(LOSS_SCORE), 0.0);
    assert_eq!(Rating::default(), rating(1500.0, 350.0, 0.06));
}

#[test]
fn the_plan_holds_ratings_and_results_from_before_the_period() {
    let db = ladder();
    let plan = db.rating_period_plan();
    let ids: Vec<&str> = plan.iter().map(|p| p.discord_id.as_str()).collect();
    assert_eq!(ids, vec!["a", "c", "b"]);
    assert_eq!(plan[0].rating, rating(1600.0, 100.0, 0.06));
    assert_eq!(
        plan[0].results,
        vec![
            PeriodResult { opponent_mu: double(1500.0), opponent_phi: double(350.0), score: double(1.0) },
            PeriodResult { opponent_mu: double(1500.0), opponent_phi: double(350.0), score: double(0.0) },
        ]
    );
    assert_eq!(plan[1].results, vec![]);
    assert_eq!(
        plan[2].results,
        vec![
            PeriodResult { opponent_mu: double(1600.0), opponent_phi: double(100.0), score: double(0.0) },
            PeriodResult { opponent_mu: double(1600.0), opponent_phi: double(100.0), score: double(1.0) },
        ]
    );
}

#[test]
fn a_close_updates_the_active_and_caps_the_inactive() {
    let mut db = ladder();
    let outcomes = vec![
        rating(1610.0, 95.0, 0.0599),
        rating(9.0, 400.0, 9.0),
        rating(1490.0, 300.0, 0.0601),
    ];
    assert_eq!(db.close_rating_period_at(&outcomes, "p1"), Ok((2, 3)));
    assert_eq!(db.get_rating("a"), Ok(rating(1610.0, 95.0, 0.0599)));
    assert_eq!(db.get_rating("b"), Ok(rating(1490.0, 300.0, 0.0601)));
    // An inactive player keeps rating and volatility.
    assert_eq!(db.get_rating("c"), Ok(rating(1400.0, 350.0, 0.06)));
    let a = db.get_player("a").unwrap();
    assert_eq!((a.wins, a.losses), (2, 1));
    assert_eq!(db.players.rows[1].updated_at, "p1");
    assert_eq!(db.matches.rows[0].applied_at, Some("p0".to_string()));
    assert_eq!(db.matches.rows[1].applied_at, Some("p1".to_string()));
    assert_eq!(db.periods.len(), 2);
    assert_eq!(db.periods[1].closed_at, "p1");
    assert_eq!((db.periods[1].match_count, db.periods[1].player_count), (2, 3));
}

#[test]
fn no_match_is_applied_twice() {
    let mut db = ladder();
    let unchanged: Vec<Rating> = db.rating_period_plan().iter().map(|p| p.rating).collect();
    assert_eq!(db.close_rating_period_at(&unchanged, "p1"), Ok((2, 2)));
    for p in db.rating_period_plan() {
        assert!(p.results.is_empty());
    }
    assert_eq!(db.close_rating_period_at(&unchanged, "p2"), Ok((0, 0)));
    assert_eq!(db.matches.rows[1].applied_at, Some("p1".to_string()));
    assert_eq!(db.periods.len(), 3);
    assert_eq!(db.periods[2].match_count, 0);
}

#[test]
fn a_value_that_is_no_number_stops_the_close() {
    let mut db = ladder();
    let outcomes = vec![
        rating(1610.0, 95.0, 0.0599),
        rating(1400.0, f64::NAN, 0.06),
        rating(1490.0, 300.0, 0.0601),
    ];
    assert_eq!(db.close_rating_period_at(&outcomes, "p1"), Err(PeriodError::NotANumber));
    assert_eq!(db.get_rating("a"), Ok(rating(1600.0, 100.0, 0.06)));
    assert_eq!(db.matches.rows[1].applied_at, None);
    assert_eq!(db.periods.len(), 1);
    let active = vec![
        rating(1610.0, 95.0, f64::NAN),
        rating(1400.0, 80.0, 0.06),
        rating(1490.0, 300.0, 0.0601),
    ];
    assert_eq!(db.close_rating_period_at(&active, "p1"), Err(PeriodError::NotANumber));
}

#[test]
fn a_close_now_carries_the_time_of_the_clock() {
    let mut db = Db::new();
    assert_eq!(db.close_rating_period(&vec![]), Ok((0, 0)));
    assert!(db.periods[0].closed_at.ends_with("+00:00"));
}

#[test]
fn deviations_are_capped() {
    assert_eq!(cap_deviation(double(350.1)), double(350.0));
    assert_eq!(cap_deviation(double(350.0)), double(350.0));
    assert_eq!(cap_deviation(double(349.9)), double(349.9));
    assert_eq!(cap_deviation(double(f64::INFINITY)), double(350.0));
    assert!(cap_deviation(double(f64::NAN)).not_a_number());
}

#[test]
fn comparisons_are_those_of_floating_point() {
    let values = [
        f64::NEG_INFINITY,
        f64::MIN,
        -1500.5,
        -f64::MIN_POSITIVE,
        -0.0,
        0.0,
        5e-324,
        0.06,
        1.0,
        350.0,
        1500.0,
        f64::MAX,
        f64::INFINITY,
        f64::NAN,
        -f64::NAN,
    ];
    for a in values {
        assert_eq!(double(a).not_a_number(), a.is_nan());
        for b in values {
            assert_eq!(double(a).greater_than(double(b)), a > b, "{} > {}", a, b);
            assert_eq!(double(a).equal_to(double(b)), a == b, "{} == {}", a, b);
        }
    }
    assert!(rating(1.0, 2.0, 3.0).numeric());
    assert!(!rating(1.0, f64::NAN, 3.0).numeric());
}

#[test]
fn every_tick_but_the_first_closes_once() {
    let outcomes = [
        CloseOutcome::Closed { matches: 1, players: 2 },
        CloseOutcome::Failed,
        CloseOutcome::Aborted,
        CloseOutcome::Closed { matches: 0, players: 0 },
    ];
    let (mut timer, action) = PeriodTimer::new().on_tick();
    assert_eq!(action, TickAction::Wait);
    for outcome in outcomes {
        let (closing, action) = timer.on_tick();
        assert_eq!(action, TickAction::Close);
        // No second close before the first has ended.
        let (still, action) = closing.on_tick();
        assert_eq!(action, TickAction::Wait);
        timer = still.on_end(outcome).0;
    }
    assert_eq!(timer.on_tick().1, TickAction::Close);
    assert_eq!(PERIOD_SECS, 60 * 60);
}

#[test]
fn a_close_is_reported_if_anything_happened() {
    let report = |outcome: CloseOutcome| PeriodTimer::new().on_end(outcome).1;
    assert_eq!(report(CloseOutcome::Closed { matches: 0, players: 0 }), Report::Nothing);
    assert_eq!(report(CloseOutcome::Closed { matches: 1, players: 0 }), Report::Closed);
    assert_eq!(report(CloseOutcome::Closed { matches: 0, players: 1 }), Report::Closed);
    assert_eq!(report(CloseOutcome::Failed), Report::Error);
    assert_eq!(report(CloseOutcome::Aborted), Report::Error);
}
