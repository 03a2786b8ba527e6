use termirust::effects::{
    fresh_rng, rng_below, fade_permille, MatrixDrop, MatrixEffectManager, MATRIX_CHARS,
    VISIBLE_BOTTOM_MILLI,
};
use termirust::monitor::SystemMonitor;
use termirust::texts::SystemIndicators;

fn drop_at(y: i64, speed: u32) -> MatrixDrop {
    MatrixDrop {
        x: 4,
        y,
        chars: vec!['A', 'B', 'C', 'D', 'E'],
        speed,
        brightness: 2,
    }
}

#[test]
fn spawned_drops_respect_their_ranges() {
    let mut rng = fresh_rng();
    for _ in 0..50 {
        let d = MatrixDrop::new(7, &mut rng);
        assert_eq!(d.x, 7);
        assert!(d.chars.len() >= 5 && d.chars.len() <= 15);
        assert!(d.speed >= 50 && d.speed <= 150);
        assert!(d.brightness >= 1 && d.brightness <= 4);
        assert_eq!(d.y, -((d.chars.len() as i64) * 20 * 1000));
        assert!(d.chars.iter().all(|c| MATRIX_CHARS.contains(*c)));
    }
}

#[test]
fn random_draws_stay_below_their_bound() {
    let mut rng = fresh_rng();
    for _ in 0..100 {
        assert!(rng_below(&mut rng, 10) < 10);
        assert_eq!(rng_below(&mut rng, 1), 0);
    }
}

#[test]
fn update_advances_by_speed_times_elapsed() {
    let mut rng = fresh_rng();
    let mut d = drop_at(0, 100);
    let removed = d.update(16, &mut rng);
    // 100 px/s over 16 ms is exactly 1600 thousandths of a pixel.
    assert_eq!(d.y, 1600);
    assert!(!removed);
    assert_eq!(d.chars.len(), 5);
    assert_eq!(d.speed, 100);
}

#[test]
fn with_no_spawns_the_population_never_grows() {
    let mut rng = fresh_rng();
    let mut mgr = MatrixEffectManager::new(80, 24);
    mgr.drops.push(drop_at(0, 100));
    mgr.drops.push(drop_at(1000, 60));
    mgr.drops.push(drop_at(790_000, 150));
    let mut count = mgr.drops.len();
    for _ in 0..200 {
        mgr.update_drops(100, &mut rng);
        assert!(mgr.drops.len() <= count);
        count = mgr.drops.len();
    }
    // After two hundred ticks of a tenth of a second everything has fallen
    // past the visible extent.
    assert_eq!(mgr.drops.len(), 0);
}

#[test]
fn removal_happens_on_the_crossing_tick_and_not_before() {
    let mut rng = fresh_rng();
    let mut mgr = MatrixEffectManager::new(80, 24);
    // 100 px/s and 20 ms ticks: 2000 thousandths per tick.
    mgr.drops.push(drop_at(VISIBLE_BOTTOM_MILLI - 2500, 100));
    mgr.update_drops(20, &mut rng);
    assert_eq!(mgr.drops.len(), 1, "still five hundred thousandths above the limit");
    assert_eq!(mgr.drops[0].y, VISIBLE_BOTTOM_MILLI - 500);
    mgr.update_drops(20, &mut rng);
    assert_eq!(mgr.drops.len(), 0, "this tick crosses the limit");
}

#[test]
fn spawning_respects_the_cap_and_the_width() {
    let mut rng = fresh_rng();
    let mut mgr = MatrixEffectManager::new(80, 24);
    for _ in 0..500 {
        mgr.add_random_drops(&mut rng);
        assert!(mgr.drops.len() <= 20);
        assert!(mgr.drops.iter().all(|d| d.x < 80));
    }
}

#[test]
fn flickered_glyphs_stay_in_the_alphabet() {
    let mut rng = fresh_rng();
    let mut d = drop_at(0, 100);
    for _ in 0..50 {
        d.update(1, &mut rng);
    }
    assert!(d
        .chars
        .iter()
        .all(|c| "ABCDE".contains(*c) || MATRIX_CHARS.contains(*c)));
}

#[test]
fn snapshot_copies_every_field() {
    let mgr = MatrixEffectManager {
        drops: vec![drop_at(123, 77)],
        terminal_width: 80,
        terminal_height: 24,
    };
    let copy = mgr.snapshot();
    assert_eq!(copy.len(), 1);
    assert_eq!(copy[0].y, 123);
    assert_eq!(copy[0].speed, 77);
    assert_eq!(copy[0].chars, vec!['A', 'B', 'C', 'D', 'E']);
}

#[test]
fn fade_rises_linearly_then_holds() {
    assert_eq!(fade_permille(0), 0);
    assert_eq!(fade_permille(100), 500);
    assert_eq!(fade_permille(199), 995);
    assert_eq!(fade_permille(200), 1000);
    assert_eq!(fade_permille(10_000), 1000);
}

#[test]
fn memory_usage_is_in_tenths_of_a_percent() {
    let m = SystemMonitor::new();
    assert_eq!(m.calculate_memory_usage(0, 0), 0);
    assert_eq!(m.calculate_memory_usage(1000, 250), 250);
    assert_eq!(m.calculate_memory_usage(3, 1), 333);
}

#[test]
fn network_simulation_is_deterministic_in_the_clock() {
    let m = SystemMonitor::new();
    let (rx, tx) = m.simulate_network_usage(1234);
    assert_eq!(rx, 234 * 1024 * 1024);
    assert_eq!(tx, 234 * 1024 * 1024);
    let (rx2, tx2) = m.simulate_network_usage(1750);
    assert_eq!(rx2, 750 * 1024 * 1024);
    assert_eq!(tx2, 250 * 1024 * 1024);
}

#[test]
fn stats_logging_is_throttled_to_the_period() {
    let mut m = SystemMonitor::new();
    assert!(!m.should_log_stats(100), "the first call only arms the throttle");
    assert!(!m.should_log_stats(130), "half a period is too soon");
    assert!(m.should_log_stats(160), "a full minute has passed");
    assert!(!m.should_log_stats(161), "the throttle re-armed");
}

#[test]
fn indicator_labels() {
    assert_eq!(SystemIndicators::format_memory_usage(123), "💾 RAM: 12.3%");
    assert_eq!(SystemIndicators::format_cpu_usage(1000), "⚡ CPU: 100.0%");
    assert_eq!(
        SystemIndicators::format_network_usage(3, 4),
        "🌐 NET: ↓3MB ↑4MB"
    );
    assert_eq!(SystemIndicators::bytes_to_mb(3 * 1024 * 1024), 3);
    assert_eq!(SystemIndicators::get_memory_color(900), "high");
    assert_eq!(SystemIndicators::get_memory_color(700), "medium");
    assert_eq!(SystemIndicators::get_cpu_color(100), "low");
    assert_eq!(SystemIndicators::get_network_color(), "blue");
}
