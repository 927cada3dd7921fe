use rk9::db::{CumTime, CumType};
use rk9::stats::{best_times_embed, recent, recent_times_embed, strip_asterisks, time_field, time_spent};

fn t(start: u64, end: u64, d: &str, typ: CumType) -> CumTime {
    CumTime { started_at: start, ended_at: end, description: d.to_string(), typ }
}

const NOW: u64 = 2_000_000;

#[test]
fn asterisks_are_stripped() {
    assert_eq!(strip_asterisks("**bold** *x*"), "bold x");
    assert_eq!(strip_asterisks(""), "");
    assert_eq!(strip_asterisks("plain"), "plain");
}

#[test]
fn field_of_a_gooning_session() {
    let f = time_field(&t(NOW - 7200, NOW - 3600, "a *star*", CumType::Gooning), NOW);
    assert_eq!(f.0, "**😩 1 hours gooning session**");
    assert_eq!(f.1, "1 hour ago to **a star**");
    assert!(f.2);
}

#[test]
fn field_of_a_prejac() {
    let f = time_field(&t(NOW - 65, NOW, "", CumType::Prejac), NOW);
    assert_eq!(f.0, "**💦 1 minutes, 5 seconds prejac**");
    assert_eq!(f.1, "now");
}

#[test]
fn time_spent_sums_both_lists() {
    let g = vec![t(0, 10, "", CumType::Gooning), t(5, 25, "", CumType::Gooning)];
    let e = vec![t(0, 3, "", CumType::Prejac)];
    assert_eq!(time_spent(&g, &e), 33);
    assert_eq!(time_spent(&Vec::new(), &Vec::new()), 0);
}

#[test]
fn recent_keeps_last_week() {
    let v = vec![
        t(0, NOW - 604_800, "old", CumType::Gooning),
        t(0, NOW - 604_799, "new", CumType::Gooning),
        t(0, NOW, "now", CumType::Gooning),
    ];
    let r = recent(&v, NOW);
    let names: Vec<&str> = r.iter().map(|x| x.description.as_str()).collect();
    assert_eq!(names, vec!["new", "now"]);
}

#[test]
fn best_times_embed_contents() {
    let g: Vec<CumTime> = (0..5).map(|i| t(NOW - 1000, NOW - 1000 + 100 * (5 - i), "", CumType::Gooning)).collect();
    let e = vec![t(NOW - 100, NOW - 90, "x", CumType::Prejac)];
    let emb = best_times_embed(&g, &e, NOW, 77);
    assert_eq!(emb.title, "Best Times");
    assert_eq!(emb.description, "<@77> has spent **25 minutes, 10 seconds** with porn in total!");
    assert_eq!(emb.fields.len(), 4);
    assert_eq!(emb.fields[0].0, "**😩 8 minutes, 20 seconds gooning session**");
    assert_eq!(emb.fields[3].0, "**💦 10 seconds prejac**");
    assert_eq!(emb.fields[3].1, "1 minute ago to **x**");
}

#[test]
fn recent_times_embed_contents() {
    let g = vec![
        t(0, 100, "", CumType::Gooning),
        t(NOW - 3600, NOW - 60, "", CumType::Gooning),
    ];
    let e: Vec<CumTime> = Vec::new();
    let emb = recent_times_embed(&g, &e, NOW, 5);
    assert_eq!(emb.title, "Recent Times");
    assert_eq!(emb.description, "<@5> has spent **59 minutes** with porn this week!");
    assert_eq!(emb.fields.len(), 1);
    assert_eq!(emb.fields[0].1, "1 minute ago");
    let best = best_times_embed(&g, &e, NOW, 5);
    assert_eq!(best.fields.len(), 2);
}

#[test]
fn recent_time_never_exceeds_total() {
    let g = vec![
        t(0, 100, "", CumType::Gooning),
        t(NOW - 3600, NOW - 60, "", CumType::Gooning),
    ];
    let e = vec![t(NOW - 10, NOW - 5, "", CumType::Prejac)];
    let all = time_spent(&g, &e);
    let week = time_spent(&recent(&g, NOW), &recent(&e, NOW));
    assert!(week <= all);
    assert_eq!((week, all), (3545, 3645));
}

#[test]
fn field_descriptions() {
    assert_eq!(rk9::stats::field_description("2 days ago", ""), "2 days ago");
    assert_eq!(rk9::stats::field_description("now", "*a* b"), "now to **a b**");
}

#[test]
fn best_times_needs_only_first_three_ended() {
    // The fourth gooning session ends in the future; only the first three are shown.
    let g = vec![
        t(NOW - 500, NOW - 100, "", CumType::Gooning),
        t(NOW - 400, NOW - 100, "", CumType::Gooning),
        t(NOW - 300, NOW - 100, "", CumType::Gooning),
        t(NOW + 10, NOW + 20, "", CumType::Gooning),
    ];
    let emb = best_times_embed(&g, &Vec::new(), NOW, 1);
    assert_eq!(emb.fields.len(), 3);
    assert_eq!(emb.description, "<@1> has spent **15 minutes, 10 seconds** with porn in total!");
}
