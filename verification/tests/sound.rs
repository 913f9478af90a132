use holograph_server::sound::{calculate_song_length, get_machine_playlist, get_machine_song_list, PlaylistEntry, SongRow};

#[test]
fn calculate_song_length_matches_legacy_tracks() {
    let data = "0:1,2;2,3:0:0:0,1;1,1:0:0:5,6;1,4";
    assert_eq!(calculate_song_length(data), 10);
}

#[test]
fn calculate_song_length_returns_minus_one_on_invalid_shape() {
    assert_eq!(calculate_song_length("broken"), -1);
}

#[test]
fn song_length_uses_last_comma_and_floors_at_zero() {
    assert_eq!(calculate_song_length("0:1,2,3:0:0:x:0:0:y"), -1);
    assert_eq!(calculate_song_length("0:1,2,3:0:0:a,1:0:0:b,-5"), 3);
    assert_eq!(calculate_song_length("0:1,-2:0:0:a,-1:0:0:b,-5"), 0);
}

use holograph_server::sound::{build_burned_disk_status, parse_playlist, titled_body};

#[test]
fn reads_saved_songs() {
    assert_eq!(titled_body("@CabcXYdata"), Some(("abc".to_string(), "data".to_string())));
    assert_eq!(titled_body("@@XY1:2"), Some(("".to_string(), "1:2".to_string())));
    assert_eq!(titled_body("@C"), None);
    assert_eq!(titled_body("@Zab"), None);
}

#[test]
fn labels_burnt_disks() {
    assert_eq!(
        build_burned_disk_status(5, "bob", 7, 3, 2024, 120, "My 'Song'"),
        "QAbob\n7\n3\n2024\n120\nMy \\'Song\\'"
    );
}

#[test]
fn song_list_marks_burnt_songs() {
    let rows = vec![
        SongRow { id: 1, length: 3, title: "a".to_string(), burnt: "1".to_string() },
        SongRow { id: 2, length: 0, title: "b".to_string(), burnt: "0".to_string() },
    ];
    assert_eq!(get_machine_song_list(&rows), "JIKa\u{2}IJHb\u{2}H");
    assert_eq!(get_machine_song_list(&[]), "H");
}

#[test]
fn playlist_numbers_entries_from_one() {
    let entries = vec![
        PlaylistEntry { song_id: 5, title: "x".to_string(), creator: "bob".to_string() },
        PlaylistEntry { song_id: 100, title: "y".to_string(), creator: "al".to_string() },
    ];
    assert_eq!(get_machine_playlist(&entries), "HJQAIx\u{2}bob\u{2}PYJy\u{2}al\u{2}");
    assert_eq!(get_machine_playlist(&[]), "HH");
}

#[test]
fn playlist_save_reads_up_to_count_songs() {
    assert_eq!(parse_playlist("JQASA"), Some(vec![5, 7]));
    assert_eq!(parse_playlist("KI"), Some(vec![1]));
    assert_eq!(parse_playlist("M"), Some(vec![]));
    assert_eq!(parse_playlist("XVB"), None);
    assert_eq!(parse_playlist(""), None);
}
