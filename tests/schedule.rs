use spaceport::schedule::{get_period, JobKind, UnknownJob};

#[test]
fn periods_of_known_jobs() {
    assert_eq!(get_period("launch_rocket"), Ok("every 10 minutes"));
    assert_eq!(get_period("ship_cargoes"), Ok("every 60 seconds"));
    assert_eq!(get_period("send_weather"), Ok("every 5 minutes"));
    assert_eq!(get_period("fetch_remote_news"), Ok("every 6 hours"));
    assert_eq!(get_period("backup_database"), Ok("every 8 hours"));
    assert_eq!(get_period("gen_cargo_text_info"), Ok("every 3 seconds"));
    assert_eq!(get_period("test_short"), Ok("every 20 seconds"));
    assert_eq!(get_period("test_long"), Ok("every 1 minutes"));
}

#[test]
fn unknown_job_is_an_error() {
    assert_eq!(get_period("launch_rockets"), Err(UnknownJob));
    assert_eq!(get_period(""), Err(UnknownJob));
}

#[test]
fn every_job_round_trips_through_its_name() {
    for k in JobKind::all() {
        assert_eq!(JobKind::from_name(k.name()), Some(k));
    }
    assert_eq!(JobKind::ShipCargoes.period_seconds(), 60);
    assert_eq!(JobKind::LaunchRocket.period_seconds(), 600);
}
