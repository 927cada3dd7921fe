use rk9::edit_distance::{chars_of, edit_distance, Similarity};

const PROMPT: &str = "Furry porn has ruined me forever NGGGGGHHHH";

#[test]
fn chars_of_keeps_characters() {
    assert_eq!(chars_of("héllo"), vec!['h', 'é', 'l', 'l', 'o']);
    assert_eq!(chars_of(""), Vec::<char>::new());
}

#[test]
fn identical_strings_are_identical() {
    assert_eq!(edit_distance(PROMPT, PROMPT), Similarity::Identical);
    assert_eq!(edit_distance("", ""), Similarity::Identical);
}

#[test]
fn empty_side_is_dissimilar() {
    assert_eq!(edit_distance("", "a"), Similarity::Dissimilar);
    assert_eq!(edit_distance("abc", ""), Similarity::Dissimilar);
}

#[test]
fn one_typo_is_similar() {
    let typed = "Furry porn has ruined me forever NGGGGGHHH";
    assert_eq!(
        edit_distance(PROMPT, typed),
        Similarity::Similar { distance: 1, length: 43 }
    );
    let typed = "Furry porn has ruinde me forever NGGGGGHHHH";
    assert_eq!(
        edit_distance(PROMPT, typed),
        Similarity::Similar { distance: 2, length: 43 }
    );
}

#[test]
fn kitten_and_sitting_are_dissimilar() {
    // distance 3, and 3 / 6 is not under a fifth
    assert_eq!(edit_distance("kitten", "sitting"), Similarity::Dissimilar);
}

#[test]
fn fifth_of_length_is_the_limit() {
    let a = "abcdefghijklmnopqrst"; // 20 characters
    assert_eq!(
        edit_distance(a, "abcdefghijklmnopqXYZ"),
        Similarity::Similar { distance: 3, length: 20 }
    );
    // distance 4: 4 / 20 is exactly a fifth
    assert_eq!(edit_distance(a, "abcdefghijklmnopWXYZ"), Similarity::Dissimilar);
}

#[test]
fn distances_count_insertions_and_deletions() {
    let a = "abcdefghijklmnopqrstuvwxy"; // 25 characters
    assert_eq!(
        edit_distance(a, "abcdefghijklmnopqrstuvwxyz"),
        Similarity::Similar { distance: 1, length: 25 }
    );
    assert_eq!(
        edit_distance(a, "bcdefghijklmnopqrstuvwxy"),
        Similarity::Similar { distance: 1, length: 25 }
    );
    assert_eq!(
        edit_distance(a, "abcdefghiXjklmnopqrstuvwxy"),
        Similarity::Similar { distance: 1, length: 25 }
    );
}

#[test]
fn distances_count_characters_not_bytes() {
    let a = "ééééééééééé"; // 11 characters, 22 bytes
    assert_eq!(
        edit_distance(a, "éééééééééée"),
        Similarity::Similar { distance: 1, length: 11 }
    );
}

#[test]
fn similar_pairs_have_positive_distance() {
    for b in ["abcdefghij", "abcdefghiX", "Xbcdefghij", "abcdefghijk"] {
        if let Similarity::Similar { distance, length } = edit_distance("abcdefghij", b) {
            assert!(distance > 0);
            assert!(5 * distance < length);
        }
    }
}
