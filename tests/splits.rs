use strava_analysis::activities::{week_totals, Activity};
use strava_analysis::splits::{
    calc_moving_time, get_splits, lap_choice, lap_distance, segment, DistanceStream, Lap, LapChoice,
    MovingStream, SegmentationError, Streams, TimeStream,
};

fn streams(distance: Vec<u32>, time: Vec<i32>, moving: Vec<bool>) -> Streams {
    let (nd, nt, nm) = (distance.len(), time.len(), moving.len());
    Streams {
        distance: DistanceStream { data: distance, original_size: nd },
        time: TimeStream { data: time, original_size: nt },
        moving: MovingStream { data: moving, original_size: nm },
    }
}

fn summary(laps: &[Lap]) -> Vec<(String, i64, i128)> {
    laps.iter().map(|l| (l.name.clone(), l.distance, l.moving_time)).collect()
}

#[test]
fn segment_closes_lap_only_past_boundary() {
    // A lap closes at the first sample strictly beyond the lap boundary; the
    // remainder after that sample is empty, so no trailing lap follows.
    let s = streams(vec![0, 500, 1000, 1500], vec![0, 300, 600, 900], vec![true; 4]);
    let laps = segment(&s, 1000).unwrap();
    assert_eq!(summary(&laps), vec![("Lap 1".to_string(), 1500, 900)]);
}

#[test]
fn segment_keeps_trailing_part_of_a_tenth() {
    let s = streams(
        vec![0, 600, 1100, 1700, 2300, 2600],
        vec![0, 100, 200, 300, 400, 500],
        vec![true; 6],
    );
    let laps = segment(&s, 1000).unwrap();
    assert_eq!(
        summary(&laps),
        vec![
            ("Lap 1".to_string(), 1100, 200),
            ("Lap 2".to_string(), 1200, 200),
            ("Lap 3".to_string(), 300, 100),
        ]
    );
    let total: i64 = laps.iter().map(|l| l.distance).sum();
    assert_eq!(total, 2600);
}

#[test]
fn segment_drops_trailing_part_under_a_tenth() {
    let s = streams(vec![0, 1100, 1150], vec![0, 300, 320], vec![true; 3]);
    let laps = segment(&s, 1000).unwrap();
    assert_eq!(summary(&laps), vec![("Lap 1".to_string(), 1100, 300)]);
    let total: i64 = laps.iter().map(|l| l.distance).sum();
    assert!(10 * (1150 - total) < 1000);
}

#[test]
fn segment_trailing_part_exactly_a_tenth() {
    let s = streams(vec![0, 1100, 1200], vec![0, 300, 330], vec![true; 3]);
    let laps = segment(&s, 1000).unwrap();
    assert_eq!(
        summary(&laps),
        vec![("Lap 1".to_string(), 1100, 300), ("Lap 2".to_string(), 100, 30)]
    );
}

#[test]
fn segment_all_moving_is_elapsed_time() {
    let s = streams(vec![0, 700, 1300, 2100], vec![5, 65, 130, 200], vec![true; 4]);
    let laps = segment(&s, 1000).unwrap();
    assert_eq!(
        summary(&laps),
        vec![("Lap 1".to_string(), 1300, 125), ("Lap 2".to_string(), 800, 70)]
    );
}

#[test]
fn segment_all_stopped_counts_from_time_origin() {
    let s = streams(vec![0, 500, 1000, 1500], vec![0, 300, 600, 900], vec![false; 4]);
    let laps = segment(&s, 1000).unwrap();
    // elapsed 900, stopped 0 + 300 + 600 + 900
    assert_eq!(summary(&laps), vec![("Lap 1".to_string(), 1500, -900)]);
}

#[test]
fn segment_stop_before_first_moving_sample() {
    let s = streams(vec![0, 0, 0, 2000], vec![10, 20, 30, 40], vec![false, true, false, true]);
    let laps = segment(&s, 1000).unwrap();
    // elapsed 30; stopped (10 - 0) + (30 - 20)
    assert_eq!(summary(&laps), vec![("Lap 1".to_string(), 2000, 10)]);
}

#[test]
fn segment_corrupt_streams() {
    let mut s = streams(vec![0, 500, 1000, 1500], vec![0, 300, 600, 900], vec![true; 4]);
    s.time.original_size = 3;
    assert!(matches!(segment(&s, 1000), Err(SegmentationError::CorruptStreams)));
}

#[test]
fn segment_corrupt_when_data_shorter_than_size() {
    let s = Streams {
        distance: DistanceStream { data: vec![0, 500], original_size: 3 },
        time: TimeStream { data: vec![0, 300, 600], original_size: 3 },
        moving: MovingStream { data: vec![true; 3], original_size: 3 },
    };
    assert!(matches!(segment(&s, 1000), Err(SegmentationError::CorruptStreams)));
}

#[test]
fn segment_invalid_lap_distance() {
    let s = streams(vec![0, 500], vec![0, 300], vec![true; 2]);
    assert!(matches!(segment(&s, 0), Err(SegmentationError::InvalidLapDistance)));
    assert!(matches!(segment(&s, -5), Err(SegmentationError::InvalidLapDistance)));
}

#[test]
fn segment_empty_streams() {
    let s = streams(vec![], vec![], vec![]);
    assert!(segment(&s, 1000).unwrap().is_empty());
}

#[test]
fn calc_moving_time_closed_interval() {
    let s = streams(
        vec![0, 10, 20, 30, 40],
        vec![0, 10, 20, 30, 40],
        vec![true, true, false, false, true],
    );
    // elapsed 40 - 10; stopped (20 - 10) + (30 - 10)
    assert_eq!(calc_moving_time(1, 4, &s), 0);
    assert_eq!(calc_moving_time(0, 1, &s), 10);
    assert_eq!(calc_moving_time(2, 2, &s), -20);
}

#[test]
fn get_splits_kilometres() {
    let s = streams(vec![0, 50000, 100000, 150000], vec![0, 300, 600, 900], vec![true; 4]);
    let laps = get_splits("1K", &s).unwrap();
    assert_eq!(summary(&laps), vec![("Lap 1".to_string(), 150000, 900)]);
}

#[test]
fn get_splits_miles() {
    let s = streams(vec![0, 100000, 170000, 200000], vec![0, 300, 500, 600], vec![true; 4]);
    let laps = get_splits("MILE", &s).unwrap();
    assert_eq!(
        summary(&laps),
        vec![("Lap 1".to_string(), 170000, 500), ("Lap 2".to_string(), 30000, 100)]
    );
}

#[test]
fn get_splits_unknown_size_or_corrupt() {
    let s = streams(vec![0, 50000], vec![0, 300], vec![true; 2]);
    assert!(get_splits("5K", &s).is_none());
    let mut c = streams(vec![0, 50000], vec![0, 300], vec![true; 2]);
    c.moving.original_size = 1;
    assert!(get_splits("1K", &c).is_none());
}

#[test]
fn lap_distance_names() {
    assert_eq!(lap_distance("MILE"), Some(160934));
    assert_eq!(lap_distance("1K"), Some(100000));
    assert_eq!(lap_distance("mile"), None);
}

#[test]
fn lap_choice_answers() {
    assert_eq!(lap_choice("mile"), LapChoice::Size("MILE".to_string()));
    assert_eq!(lap_choice("1k"), LapChoice::Size("1K".to_string()));
    assert_eq!(lap_choice("MiLe"), LapChoice::Size("MILE".to_string()));
    assert_eq!(lap_choice("q"), LapChoice::Quit);
    assert_eq!(lap_choice("Q"), LapChoice::Quit);
    assert_eq!(lap_choice("5k"), LapChoice::Unsupported);
    assert_eq!(lap_choice(""), LapChoice::Unsupported);
}

#[test]
fn week_totals_sums() {
    let a = |id: i64, distance: u32, moving_time: i32| Activity {
        id,
        name: format!("run{}", id),
        distance,
        moving_time,
        manual: false,
        start_date_local: "2021-10-01T08:00:00Z".to_string(),
        laps: None,
    };
    let acts = vec![a(1, 50000, 1200), a(2, 80000, 1800), a(3, 120000, 2400)];
    assert_eq!(week_totals(&acts), (250000, 5400));
    assert_eq!(week_totals(&Vec::new()), (0, 0));
}
