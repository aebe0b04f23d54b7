use audio_scatter::clock::{wav_duration_ms, AudioFormatError};
use audio_scatter::table::{compute_range_stats, rows_from_columns, FeatureRow, LoadError, RangeStats, StatsError};

#[test]
fn stats_of_scenario_table() {
    let table = vec![
        FeatureRow { time: 0, frequency: 100, loudness: 500 },
        FeatureRow { time: 5000, frequency: 200, loudness: 800 },
        FeatureRow { time: 9900, frequency: 150, loudness: 300 },
    ];
    assert_eq!(
        compute_range_stats(&table),
        Ok(RangeStats { min_frequency: 100, max_frequency: 200, min_loudness: 300, max_loudness: 800 })
    );
}

#[test]
fn stats_of_single_row_are_flat() {
    let table = vec![FeatureRow { time: 3, frequency: -4, loudness: 9 }];
    assert_eq!(
        compute_range_stats(&table),
        Ok(RangeStats { min_frequency: -4, max_frequency: -4, min_loudness: 9, max_loudness: 9 })
    );
}

#[test]
fn stats_of_empty_table_fail() {
    assert_eq!(compute_range_stats(&Vec::new()), Err(StatsError::EmptyTable));
}

#[test]
fn columns_become_rows() {
    let rows = rows_from_columns(&vec![Some(0), Some(40)], &vec![Some(440), Some(-3)], &vec![Some(7), Some(8)]);
    assert_eq!(
        rows,
        Ok(vec![
            FeatureRow { time: 0, frequency: 440, loudness: 7 },
            FeatureRow { time: 40, frequency: -3, loudness: 8 },
        ])
    );
    assert_eq!(rows_from_columns(&Vec::new(), &Vec::new(), &Vec::new()), Ok(Vec::new()));
}

#[test]
fn columns_of_unequal_length_fail() {
    assert_eq!(rows_from_columns(&vec![Some(0)], &vec![], &vec![Some(1)]), Err(LoadError::ColumnLengths));
}

#[test]
fn first_incomplete_row_is_reported() {
    let r = rows_from_columns(
        &vec![Some(0), Some(1), None, Some(3)],
        &vec![Some(0), None, Some(2), Some(3)],
        &vec![Some(0), Some(1), Some(2), Some(3)],
    );
    assert_eq!(r, Err(LoadError::InvalidValue { row: 1 }));
}

#[test]
fn duration_from_header() {
    assert_eq!(wav_duration_ms(441_000, 44_100), Ok(10_000));
    assert_eq!(wav_duration_ms(44_101, 44_100), Ok(1000));
    assert_eq!(wav_duration_ms(u32::MAX, 1), Ok(u32::MAX as u64 * 1000));
    assert_eq!(wav_duration_ms(0, 48_000), Ok(0));
}

#[test]
fn zero_sample_rate_fails() {
    assert_eq!(wav_duration_ms(100, 0), Err(AudioFormatError::ZeroSampleRate));
}
