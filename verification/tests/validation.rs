//! Validation-engine tests: a healthy catalog passes every check, and each
//! kind of inconsistency is rejected with its own error.

use metric_beer::data::{Brewery, BreweryData, BreweryError, Hours};

const DAYS: [&str; 7] = [
    "Sunday",
    "Monday",
    "Tuesday",
    "Wednesday",
    "Thursday",
    "Friday",
    "Saturday",
];

fn hours(open: i32, close: i32) -> Hours {
    Hours { open, close }
}

fn full_week(open: i32, close: i32) -> Vec<(String, Hours)> {
    DAYS.iter().map(|d| (d.to_string(), hours(open, close))).collect()
}

fn brewery(name: &str, week: Vec<(String, Hours)>) -> Brewery {
    Brewery {
        name: name.to_string(),
        hours: week,
    }
}

fn catalog(breweries: Vec<Brewery>) -> BreweryData {
    BreweryData {
        breweries,
        crawl: vec!["fixture".to_string()],
    }
}

/// A healthy catalog in the external wire format: venue records under
/// `Breweries`, provenance strings under `Crawl`.
const FIXTURE: &str = r#"{
    "Breweries": [
        {
            "name": "Acme",
            "hours": {
                "Sunday": {"open": -1, "close": -1},
                "Monday": {"open": 10, "close": 22},
                "Tuesday": {"open": 10, "close": 22},
                "Wednesday": {"open": 10, "close": 22},
                "Thursday": {"open": 10, "close": 22},
                "Friday": {"open": 10, "close": 23},
                "Saturday": {"open": 9, "close": 23}
            }
        },
        {
            "name": "Night Owl",
            "hours": {
                "Sunday": {"open": 12, "close": 0},
                "Monday": {"open": -1, "close": -1},
                "Tuesday": {"open": 18, "close": 0},
                "Wednesday": {"open": 18, "close": 0},
                "Thursday": {"open": 18, "close": 0},
                "Friday": {"open": 18, "close": 0},
                "Saturday": {"open": 18, "close": 0}
            }
        }
    ],
    "Crawl": ["seed", "2024-05-01"]
}"#;

/// Builds a catalog from its wire-format text, as the application shell does
/// after fetching it.
fn from_json(text: &str) -> BreweryData {
    let v: serde_json::Value = serde_json::from_str(text).expect("malformed fixture");
    let breweries = v
        .get("Breweries")
        .expect("Breweries missing")
        .as_array()
        .expect("Breweries is not an array")
        .iter()
        .map(|b| {
            let name = b.get("name").unwrap().as_str().unwrap().to_string();
            let hours = b
                .get("hours")
                .unwrap()
                .as_object()
                .unwrap()
                .iter()
                .map(|(day, h)| {
                    (
                        day.clone(),
                        Hours {
                            open: h.get("open").unwrap().as_i64().unwrap() as i32,
                            close: h.get("close").unwrap().as_i64().unwrap() as i32,
                        },
                    )
                })
                .collect();
            Brewery { name, hours }
        })
        .collect();
    let crawl = v
        .get("Crawl")
        .expect("Crawl missing")
        .as_array()
        .expect("Crawl is not an array")
        .iter()
        .map(|s| s.as_str().unwrap().to_string())
        .collect();
    BreweryData { breweries, crawl }
}

#[test]
fn test_json_deserialize() {
    let data = from_json(FIXTURE);
    assert_eq!(data.breweries.len(), 2);
    assert_eq!(data.breweries[0].name, "Acme");
    assert_eq!(data.breweries[0].hours.len(), 7);
    assert_eq!(data.crawl, vec!["seed".to_string(), "2024-05-01".to_string()]);
}

// A brewery is considered closed if BOTH "open" and "close" are -1.
//  It is an error for only one of "open" or "close" to be -1.
#[test]
fn check_open_close_match() {
    let data = from_json(FIXTURE);

    if let Err(e) = data.check_open_close_match() {
        panic!("{}", e.message());
    };
}

// Ensure all non-closed hours have the open hour before the close hour
#[test]
fn check_open_before_close() {
    let data = from_json(FIXTURE);

    if let Err(e) = data.check_open_before_close() {
        panic!("{}", e.message());
    };
}

// Ensure all open/close times are within 0-23
#[test]
fn check_24_hour() {
    let data = from_json(FIXTURE);

    if let Err(e) = data.check_24_hour() {
        panic!("{}", e.message());
    };
}

#[test]
fn check_days() {
    let data = from_json(FIXTURE);

    if let Err(e) = data.check_days() {
        panic!("{}", e.message());
    };
}

#[test]
fn valid_fixture_round_trip() {
    let data = from_json(FIXTURE);
    assert!(data.validate().is_ok());
}

#[test]
fn midnight_close_exempt_from_ordering() {
    let data = catalog(vec![brewery("Night Owl", full_week(18, 0))]);
    assert!(data.check_open_before_close().is_ok());
    assert!(data.validate().is_ok());
}

#[test]
fn open_after_close_rejected() {
    let mut week = full_week(10, 22);
    week[3].1 = hours(20, 19);
    let data = catalog(vec![brewery("Acme", week)]);
    match data.validate() {
        Err(BreweryError::OpenBeforeClose(name, day, open, close)) => {
            assert_eq!(name, "Acme");
            assert_eq!(day, "Wednesday");
            assert_eq!(open, 20);
            assert_eq!(close, 19);
        }
        other => panic!("expected OpenBeforeClose, got {:?}", other),
    }
}

#[test]
fn sentinel_mismatch_rejected_both_ways() {
    for bad in [hours(-1, 9), hours(9, -1)] {
        let mut week = full_week(-1, -1);
        week[0].1 = bad;
        let data = catalog(vec![brewery("Acme", week)]);
        match data.validate() {
            Err(BreweryError::OpenCloseMismatch(name, day)) => {
                assert_eq!(name, "Acme");
                assert_eq!(day, "Sunday");
            }
            other => panic!("expected OpenCloseMismatch, got {:?}", other),
        }
    }
    let data = catalog(vec![brewery("Acme", full_week(-1, -1))]);
    assert!(data.validate().is_ok());
}

#[test]
fn out_of_range_hours_rejected() {
    let data = catalog(vec![brewery("Acme", full_week(24, 25))]);
    match data.validate() {
        Err(BreweryError::BadHourOpen(name, day, value)) => {
            assert_eq!(name, "Acme");
            assert_eq!(day, "Sunday");
            assert_eq!(value, 24);
        }
        other => panic!("expected BadHourOpen, got {:?}", other),
    }

    let data = catalog(vec![brewery("Acme", full_week(-2, 5))]);
    match data.validate() {
        Err(BreweryError::BadHourOpen(name, day, value)) => {
            assert_eq!(name, "Acme");
            assert_eq!(day, "Sunday");
            assert_eq!(value, -2);
        }
        other => panic!("expected BadHourOpen, got {:?}", other),
    }

    let data = catalog(vec![brewery("Acme", full_week(10, 24))]);
    match data.validate() {
        Err(BreweryError::BadHourClose(name, day, value)) => {
            assert_eq!(name, "Acme");
            assert_eq!(day, "Sunday");
            assert_eq!(value, 24);
        }
        other => panic!("expected BadHourClose, got {:?}", other),
    }
}

#[test]
fn missing_day_rejected() {
    let mut week = full_week(10, 22);
    week.remove(0); // drop Sunday
    let data = catalog(vec![brewery("Acme", week)]);
    match data.validate() {
        Err(BreweryError::MissingDays(name, missing)) => {
            assert_eq!(name, "Acme");
            assert_eq!(missing, "[\"Sunday\"]");
        }
        other => panic!("expected MissingDays, got {:?}", other),
    }
}

#[test]
fn extra_key_rejected() {
    let mut week = full_week(10, 22);
    week.push(("Funday".to_string(), hours(10, 22)));
    let data = catalog(vec![brewery("Acme", week)]);
    match data.validate() {
        Err(BreweryError::ExtraKeys(name, extra)) => {
            assert_eq!(name, "Acme");
            assert_eq!(extra, "[\"Funday\"]");
        }
        other => panic!("expected ExtraKeys, got {:?}", other),
    }
}

#[test]
fn missing_days_listed_in_canonical_order() {
    let week: Vec<(String, Hours)> = ["Monday", "Wednesday", "Friday"]
        .iter()
        .map(|d| (d.to_string(), hours(10, 22)))
        .collect();
    let data = catalog(vec![brewery("Acme", week)]);
    match data.validate() {
        Err(BreweryError::MissingDays(_, missing)) => {
            assert_eq!(missing, "[\"Sunday\", \"Tuesday\", \"Thursday\", \"Saturday\"]");
        }
        other => panic!("expected MissingDays, got {:?}", other),
    }
}

#[test]
fn first_failing_check_wins() {
    // One venue with both an ordering violation and a sentinel mismatch on
    // later days: the ordering check runs first.
    let mut week = full_week(10, 22);
    week[2].1 = hours(20, 19);
    week[5].1 = hours(-1, 9);
    let data = catalog(vec![brewery("Acme", week)]);
    assert!(matches!(
        data.validate(),
        Err(BreweryError::OpenBeforeClose(_, _, 20, 19))
    ));
}

#[test]
fn error_messages_name_the_offender() {
    let e = BreweryError::OpenBeforeClose("Acme".to_string(), "Monday".to_string(), 20, 19);
    assert_eq!(
        e.message(),
        "Error in 'Acme' on Monday: Open is after Close: 20 < 19"
    );
    let e = BreweryError::OpenCloseMismatch("Acme".to_string(), "Monday".to_string());
    assert_eq!(
        e.message(),
        "Error in 'Acme', day Monday: Only one of open or close is set to -1"
    );
    let e = BreweryError::BadHourOpen("Acme".to_string(), "Monday".to_string(), -2);
    assert_eq!(
        e.message(),
        "Error in 'Acme' on Monday: Open uses an invalid hour (0-23): -2"
    );
    let e = BreweryError::MissingDays("Acme".to_string(), "[\"Sunday\"]".to_string());
    assert_eq!(
        e.message(),
        "Error in 'Acme': Missing the following day(s): [\"Sunday\"]"
    );
}
