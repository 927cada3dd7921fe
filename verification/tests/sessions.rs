use rk9::db::{edging_times, gooning_times, order_clause, session_length, times, CumType, TimeSort, Times};

fn rows(v: &[(u64, u64, &str)]) -> Vec<(u64, u64, String)> {
    v.iter().map(|(s, e, d)| (*s, *e, d.to_string())).collect()
}

#[test]
fn cum_type_names() {
    assert_eq!(CumType::Gooning.to_string(), "gooning");
    assert_eq!(CumType::Prejac.to_string(), "prejac");
}

#[test]
fn gooning_sorted_longest_first() {
    let r = rows(&[(0, 10, "a"), (0, 30, "b"), (5, 25, "c"), (100, 130, "d")]);
    let out = gooning_times(&r);
    let got: Vec<(u64, u64, &str)> =
        out.iter().map(|t| (t.started_at, t.ended_at, t.description.as_str())).collect();
    assert_eq!(got, vec![(0, 30, "b"), (100, 130, "d"), (5, 25, "c"), (0, 10, "a")]);
    assert!(out.iter().all(|t| t.typ == CumType::Gooning));
}

#[test]
fn prejacs_sorted_shortest_first() {
    let r = rows(&[(0, 10, "a"), (0, 30, "b"), (5, 25, "c"), (40, 50, "d")]);
    let out = edging_times(&r);
    let got: Vec<&str> = out.iter().map(|t| t.description.as_str()).collect();
    assert_eq!(got, vec!["a", "d", "c", "b"]);
    assert!(out.iter().all(|t| t.typ == CumType::Prejac));
}

#[test]
fn equal_lengths_keep_row_order() {
    let r = rows(&[(0, 5, "x"), (10, 15, "y"), (20, 30, "long"), (30, 35, "z")]);
    let out = times(&r, CumType::Prejac);
    let got: Vec<&str> = out.iter().map(|t| t.description.as_str()).collect();
    assert_eq!(got, vec!["x", "y", "z", "long"]);
    let out = times(&r, CumType::Gooning);
    let got: Vec<&str> = out.iter().map(|t| t.description.as_str()).collect();
    assert_eq!(got, vec!["long", "x", "y", "z"]);
}

#[test]
fn times_of_no_rows() {
    assert!(times(&Vec::new(), CumType::Gooning).is_empty());
}

#[test]
fn session_length_saturates() {
    assert_eq!(session_length(100, 40), 60);
    assert_eq!(session_length(40, 100), 0);
    assert_eq!(session_length(7, 7), 0);
}

#[test]
fn times_from_rows_split_by_kind() {
    let r = vec![
        (1, 2, CumType::Gooning),
        (3, 5, CumType::Prejac),
        (6, 9, CumType::Gooning),
    ];
    let t = Times::from_rows(&r);
    assert_eq!(t.gooning, vec![(2, 1), (9, 6)]);
    assert_eq!(t.prejac, vec![(5, 3)]);
}

#[test]
fn cum_type_from_name() {
    assert_eq!(CumType::from_name("gooning"), Some(CumType::Gooning));
    assert_eq!(CumType::from_name("prejac"), Some(CumType::Prejac));
    assert_eq!(CumType::from_name("edging"), None);
    assert_eq!(CumType::from_name(""), None);
}

#[test]
fn order_clauses() {
    assert_eq!(order_clause(TimeSort::Top, CumType::Gooning), "ORDER BY ended_at - started_at DESC");
    assert_eq!(order_clause(TimeSort::Top, CumType::Prejac), "ORDER BY ended_at - started_at ASC");
    assert_eq!(order_clause(TimeSort::Recent, CumType::Gooning), "ORDER BY ended_at DESC");
    assert_eq!(order_clause(TimeSort::Recent, CumType::Prejac), "ORDER BY ended_at ASC");
}
