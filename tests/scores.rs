use squaretap::highscore::Highscore;
use squaretap::saves::GameSave;

fn table(v: &[u32]) -> Highscore {
    Highscore::from_scores(&v.to_vec()).unwrap()
}

#[test]
fn new_table_is_empty() {
    assert_eq!(Highscore::new().scores(), [0; 9]);
}

#[test]
fn high_score_insert() {
    let mut t = table(&[9, 7, 5, 0, 0, 0, 0, 0, 0]);
    t.add_score(8);
    assert_eq!(t.scores(), [9, 8, 7, 5, 0, 0, 0, 0, 0]);
    t.add_score(7);
    assert_eq!(t.scores(), [9, 8, 7, 5, 0, 0, 0, 0, 0]);
    t.add_score(10);
    assert_eq!(t.scores(), [10, 9, 8, 7, 5, 0, 0, 0, 0]);
}

#[test]
fn insert_into_full_table_drops_last() {
    let mut t = table(&[90, 80, 70, 60, 50, 40, 30, 20, 10]);
    t.add_score(55);
    assert_eq!(t.scores(), [90, 80, 70, 60, 55, 50, 40, 30, 20]);
    t.add_score(5);
    assert_eq!(t.scores(), [90, 80, 70, 60, 55, 50, 40, 30, 20]);
    t.add_score(100);
    assert_eq!(t.scores(), [100, 90, 80, 70, 60, 55, 50, 40, 30]);
}

#[test]
fn zero_is_never_recorded() {
    let mut t = table(&[3, 0, 0, 0, 0, 0, 0, 0, 0]);
    t.add_score(0);
    assert_eq!(t.scores(), [3, 0, 0, 0, 0, 0, 0, 0, 0]);
}

#[test]
fn present_score_is_noop() {
    let mut t = table(&[9, 7, 5, 0, 0, 0, 0, 0, 0]);
    for s in [9, 7, 5] {
        assert!(t.score_exist(s));
        t.add_score(s);
        assert_eq!(t.scores(), [9, 7, 5, 0, 0, 0, 0, 0, 0]);
    }
}

#[test]
fn score_exist_queries() {
    let t = table(&[9, 7, 5, 0, 0, 0, 0, 0, 0]);
    assert!(t.score_exist(7));
    assert!(!t.score_exist(8));
    assert!(t.score_exist(0));
    let full = table(&[9, 8, 7, 6, 5, 4, 3, 2, 1]);
    assert!(!full.score_exist(0));
}

#[test]
fn table_stays_sorted_and_distinct() {
    let mut t = Highscore::new();
    for s in [5, 3, 9, 3, 12, 1, 7, 7, 2, 30, 4, 6, 11, 0, 8] {
        t.add_score(s);
        let v = t.scores();
        for i in 0..8 {
            assert!(v[i] >= v[i + 1]);
            assert!(v[i + 1] == 0 || v[i] > v[i + 1]);
        }
    }
    assert_eq!(t.scores(), [30, 12, 11, 9, 8, 7, 6, 5, 4]);
}

#[test]
fn invalid_tables_are_refused() {
    assert!(Highscore::from_scores(&vec![1, 2, 0, 0, 0, 0, 0, 0, 0]).is_none());
    assert!(Highscore::from_scores(&vec![5, 5, 0, 0, 0, 0, 0, 0, 0]).is_none());
    assert!(Highscore::from_scores(&vec![5, 0, 3, 0, 0, 0, 0, 0, 0]).is_none());
    assert!(Highscore::from_scores(&vec![5, 4, 3]).is_none());
    assert!(Highscore::from_scores(&vec![5, 4, 3, 0, 0, 0, 0, 0, 0]).is_some());
}

#[test]
fn save_round_trip() {
    let t = table(&[10, 9, 8, 7, 5, 0, 0, 0, 0]);
    let bytes = t.save_bytes();
    assert_ne!(bytes.len(), 9);
    let back = Highscore::load_bytes(&bytes).unwrap();
    assert_eq!(back.scores(), t.scores());
}

#[test]
fn empty_table_round_trip() {
    let t = Highscore::new();
    let back = Highscore::load_bytes(&t.save_bytes()).unwrap();
    assert_eq!(back.scores(), [0; 9]);
}

#[test]
fn garbage_bytes_do_not_load() {
    assert!(Highscore::load_bytes(&vec![1, 2, 3]).is_none());
    assert!(Highscore::load_bytes(&Vec::new()).is_none());
}

#[test]
fn saved_invalid_table_does_not_load() {
    let bytes = GameSave::new_from_data(vec![1, 2, 3, 0, 0, 0, 0, 0, 0]).to_bytes().unwrap();
    assert_eq!(GameSave::from_bytes(&bytes).unwrap().highscores, vec![1, 2, 3, 0, 0, 0, 0, 0, 0]);
    assert!(Highscore::load_bytes(&bytes).is_none());
}

#[test]
fn new_save_has_nine_zeros() {
    assert_eq!(GameSave::new().highscores, vec![0; 9]);
    let t = Highscore::from_save(&GameSave::new()).unwrap();
    assert_eq!(t.to_save().highscores, vec![0; 9]);
}

#[test]
fn short_save_has_no_bytes() {
    assert!(GameSave::new_from_data(vec![3, 2, 1]).to_bytes().is_none());
}

#[test]
fn corrupted_or_truncated_save_does_not_load() {
    let t = table(&[10, 9, 8, 7, 5, 0, 0, 0, 0]);
    let mut bytes = t.save_bytes();
    assert_eq!(bytes.len(), 52);
    let truncated = bytes[..51].to_vec();
    assert!(Highscore::load_bytes(&truncated).is_none());
    bytes[0] ^= 0xff;
    assert!(Highscore::load_bytes(&bytes).is_none());
    assert!(GameSave::from_bytes(&bytes).is_none());
}
