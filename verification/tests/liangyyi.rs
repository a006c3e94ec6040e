use realconsole::liangyyi::{adjust_observation_config, optimization_stats, push_optimization_record, recent_records, Liangyyi, OptimizationOutcome, OptimizationStats, RecommendationAction, Sixiang};
use std::collections::VecDeque;

#[test]
fn test_opposite() {
    assert_eq!(Liangyyi::Taiyin.opposite(), Liangyyi::Taiyang);
    assert_eq!(Liangyyi::Taiyang.opposite(), Liangyyi::Taiyin);
}

#[test]
fn liangyyi_test_symbol() {
    assert_eq!(Liangyyi::Taiyin.symbol(), "☽");
    assert_eq!(Liangyyi::Taiyang.symbol(), "☉");
}

#[test]
fn test_transition_cycle() {
    let lao_yin = Sixiang::LaoYin;
    let shao_yang = lao_yin.transition();
    let lao_yang = shao_yang.transition();
    let shao_yin = lao_yang.transition();
    let back_to_lao_yin = shao_yin.transition();

    assert_eq!(shao_yang, Sixiang::ShaoYang);
    assert_eq!(lao_yang, Sixiang::LaoYang);
    assert_eq!(shao_yin, Sixiang::ShaoYin);
    assert_eq!(back_to_lao_yin, Sixiang::LaoYin);
}

#[test]
fn test_activity_level() {
    assert_eq!(Sixiang::LaoYin.activity_level(), 1);
    assert_eq!(Sixiang::ShaoYin.activity_level(), 2);
    assert_eq!(Sixiang::ShaoYang.activity_level(), 3);
    assert_eq!(Sixiang::LaoYang.activity_level(), 4);
}

#[test]
fn sixiang_test_symbol() {
    assert_eq!(Sixiang::LaoYin.symbol(), "▅▅ ▅▅ ▅▅");
    assert_eq!(Sixiang::ShaoYang.symbol(), "▅▅▅▅▅ ▅▅ ▅▅");
    assert_eq!(Sixiang::ShaoYin.symbol(), "▅▅ ▅▅ ▅▅▅▅▅");
    assert_eq!(Sixiang::LaoYang.symbol(), "▅▅▅▅▅ ▅▅▅▅▅ ▅▅▅▅▅");
}

#[test]
fn opposite_twice_is_identity() {
    for l in [Liangyyi::Taiyin, Liangyyi::Taiyang] {
        assert_eq!(l.opposite().opposite(), l);
        assert_ne!(l.opposite(), l);
        assert_eq!(l.is_yin(), !l.is_yang());
    }
}

#[test]
fn all_images_follow_the_cycle() {
    let all = Sixiang::all();
    for i in 0..4 {
        assert_eq!(all[i].transition(), all[(i + 1) % 4]);
        assert_eq!(all[i].is_yin(), !all[i].is_yang());
        assert_eq!(all[i].is_lao(), !all[i].is_shao());
    }
}

#[test]
fn descriptions() {
    assert_eq!(Liangyyi::Taiyin.description(), "太阴·静·收·聚·藏");
    assert_eq!(Sixiang::LaoYang.description(), "极动·快速·连续");
}

#[test]
fn optimization_stats_empty_and_sums() {
    let empty = optimization_stats(&[]);
    assert_eq!(empty.total_optimizations, 0);
    assert_eq!(empty.avg_duration_ms, 0);
    let runs = [
        OptimizationOutcome { recommendations_count: 3, high_priority_count: 1, applied_successfully: true, duration_ms: 10 },
        OptimizationOutcome { recommendations_count: 4, high_priority_count: 2, applied_successfully: false, duration_ms: 15 },
    ];
    let s = optimization_stats(&runs);
    assert_eq!(s.total_optimizations, 2);
    assert_eq!(s.successful_optimizations, 1);
    assert_eq!(s.failed_optimizations, 1);
    assert_eq!(s.avg_duration_ms, 12);
    assert_eq!(s.avg_recommendations_per_run, 3);
    assert_eq!(s.total_high_priority_recommendations, 3);
    let d = OptimizationStats::default();
    assert_eq!(d.total_optimizations, 0);
}

#[test]
fn load_recommendations_adjust_snapshot_interval() {
    assert_eq!(adjust_observation_config("load", RecommendationAction::Enhance, 60, 100), (54, 100));
    assert_eq!(adjust_observation_config("load", RecommendationAction::Enhance, 10, 100), (10, 100));
    assert_eq!(adjust_observation_config("load", RecommendationAction::Reduce, 60, 100), (66, 100));
    assert_eq!(adjust_observation_config("load", RecommendationAction::Reduce, 290, 100), (300, 100));
    assert_eq!(adjust_observation_config("load", RecommendationAction::Maintain, 60, 100), (60, 100));
}

#[test]
fn context_recommendations_adjust_history_size() {
    assert_eq!(adjust_observation_config("context", RecommendationAction::Enhance, 60, 100), (60, 110));
    assert_eq!(adjust_observation_config("context", RecommendationAction::Enhance, 60, 480), (60, 500));
    assert_eq!(adjust_observation_config("context", RecommendationAction::Reduce, 60, 100), (60, 90));
    assert_eq!(adjust_observation_config("context", RecommendationAction::Reduce, 60, 21), (60, 20));
}

#[test]
fn other_dimensions_leave_settings() {
    assert_eq!(adjust_observation_config("efficiency", RecommendationAction::Enhance, 60, 100), (60, 100));
    assert_eq!(adjust_observation_config("yin", RecommendationAction::Reduce, 60, 100), (60, 100));
}

#[test]
fn optimization_history_keeps_last_hundred() {
    let mut h: VecDeque<u32> = VecDeque::new();
    for i in 0..150u32 {
        push_optimization_record(&mut h, i);
    }
    assert_eq!(h.len(), 100);
    assert_eq!(h.front(), Some(&50));
    assert_eq!(h.back(), Some(&149));
}

#[test]
fn recent_records_are_newest_first_and_limited() {
    let h: VecDeque<u32> = (1..=5).collect();
    let r: Vec<u32> = recent_records(&h, 3).into_iter().copied().collect();
    assert_eq!(r, vec![5, 4, 3]);
    assert_eq!(recent_records(&h, 10).len(), 5);
    assert!(recent_records(&h, 0).is_empty());
}
