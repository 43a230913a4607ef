use spotify_crawl::features::{
    adjust_pitches, mean_sorted_vec, median_sorted_vec, range_sorted_vec, sort_samples,
    stdev_sorted_vec, AudioAnalysis, AudioFeatures, DozenCollector, FeaturesCsv, Section, Segment,
};

fn features(id: &str) -> AudioFeatures {
    AudioFeatures {
        acousticness: 100,
        danceability: 200,
        duration_ms: 180000,
        energy: 300,
        id: id.to_string(),
        instrumentalness: 400,
        key: 5,
        liveness: 500,
        loudness: -6000,
        mode: 1,
        speechiness: 600,
        tempo: 120000,
        time_signature: 4,
        valence: 700,
    }
}

/// Pitch samples scaled by 1000: pitch i/10 becomes i * 100.
fn golden_segment(start: i64, duration: i64) -> Segment {
    Segment {
        start,
        duration,
        pitches: (0..12).map(|i| i * 100).collect(),
        timbre: (0..12).map(|i| 10 - i).collect(),
    }
}

#[test]
fn feature_reducer_golden() {
    // one segment over [0, 1], one section over [0, 1] with key 2:
    // adjusted pitch 0 is pitch 2, adjusted pitch 11 is pitch 1, and with
    // a single segment the median at dimension 5 is pitch 7
    let analysis = AudioAnalysis {
        sections: vec![Section { start: 0, duration: 1000, key: 2 }],
        segments: vec![golden_segment(0, 1000)],
    };
    let row = FeaturesCsv::extract_from(analysis, features("golden"));
    assert_eq!(row.num_sections, 1);
    assert_eq!(row.num_segments, 1);
    assert_eq!(row.median_adj_pitch[0], 200);
    assert_eq!(row.median_adj_pitch[11], 100);
    assert_eq!(row.median_adj_pitch[5], 700);
    assert_eq!(row.mean_adj_pitch[0], 200);
    assert_eq!(row.range_adj_pitch[0], 0);
    assert_eq!(row.stdev_adj_pitch[0], 0);
    assert_eq!(row.track_id, "golden");
    assert_eq!(row.tempo, 120000);
}

#[test]
fn feature_key_rotation() {
    // a segment wholly contained in one section with key 3: the first
    // adjusted pitch equals the input pitch 3
    let analysis = AudioAnalysis {
        sections: vec![Section { start: 0, duration: 10000, key: 3 }],
        segments: vec![golden_segment(2000, 1000)],
    };
    let row = FeaturesCsv::extract_from(analysis, features("k3"));
    assert_eq!(row.median_adj_pitch[0], 300);
}

#[test]
fn feature_reducer_deterministic() {
    // equal inputs give byte-equal rows across runs
    let build = || AudioAnalysis {
        sections: vec![
            Section { start: 0, duration: 5000, key: 7 },
            Section { start: 5000, duration: 5000, key: 2 },
        ],
        segments: vec![
            golden_segment(0, 3000),
            golden_segment(4000, 3000),
            golden_segment(7000, 3000),
        ],
    };
    let first = FeaturesCsv::extract_from(build(), features("d"));
    let second = FeaturesCsv::extract_from(build(), features("d"));
    assert_eq!(first, second);
}

#[test]
fn segment_key_picks_largest_overlap_first_wins() {
    let sections = vec![
        Section { start: 0, duration: 1000, key: 1 },
        Section { start: 1000, duration: 3000, key: 9 },
        Section { start: 0, duration: 4000, key: 4 },
    ];
    // wholly inside the second section's span; the third overlaps equally,
    // but the second comes first
    let seg = golden_segment(1000, 3000);
    assert_eq!(seg.get_key(&sections), 9);
    // no sections: key 0
    assert_eq!(golden_segment(0, 100).get_key(&vec![]), 0);
}

#[test]
fn adjust_pitches_rotates_left() {
    let mut p: Vec<i64> = (0..12).collect();
    adjust_pitches(&mut p, 3);
    assert_eq!(p, vec![3, 4, 5, 6, 7, 8, 9, 10, 11, 0, 1, 2]);
}

#[test]
fn statistics_on_a_known_list() {
    let sorted = sort_samples(vec![3, 1, 4, 2]);
    assert_eq!(sorted, vec![1, 2, 3, 4]);
    assert_eq!(median_sorted_vec(&sorted), 3);
    assert_eq!(mean_sorted_vec(&sorted), 2);
    // deviations from 2 are -1, 0, 1, 2: squared sum 6, over 4 gives 1
    assert_eq!(stdev_sorted_vec(&sorted), 1);
    assert_eq!(range_sorted_vec(&sorted), 3);
}

#[test]
fn statistics_of_empty_are_zero() {
    let empty: Vec<i64> = vec![];
    assert_eq!(median_sorted_vec(&empty), 0);
    assert_eq!(mean_sorted_vec(&empty), 0);
    assert_eq!(stdev_sorted_vec(&empty), 0);
    assert_eq!(range_sorted_vec(&empty), 0);
}

#[test]
fn mean_truncates_toward_zero() {
    assert_eq!(mean_sorted_vec(&vec![-3, -4]), -3);
    assert_eq!(mean_sorted_vec(&vec![3, 4]), 3);
}

#[test]
fn reducer_with_no_segments_yields_zero_statistics() {
    let analysis = AudioAnalysis {
        sections: vec![Section { start: 0, duration: 1000, key: 1 }],
        segments: vec![],
    };
    let row = FeaturesCsv::extract_from(analysis, features("empty"));
    assert_eq!(row.num_segments, 0);
    for d in 0..12 {
        assert_eq!(row.median_adj_pitch[d], 0);
        assert_eq!(row.mean_timbre[d], 0);
        assert_eq!(row.stdev_adj_pitch[d], 0);
        assert_eq!(row.range_timbre[d], 0);
    }
}

#[test]
fn dozen_collector_transposes_and_sorts() {
    let rows: Vec<Vec<i64>> = vec![
        (0..12).map(|i| 11 - i).collect(),
        (0..12).collect(),
    ];
    let collector = DozenCollector::from(rows);
    assert_eq!(collector.values0, vec![0, 11]);
    assert_eq!(collector.values11, vec![0, 11]);
    assert_eq!(collector.values5, vec![5, 6]);
}
