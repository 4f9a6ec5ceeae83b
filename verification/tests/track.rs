use spectral_play::track::{find_track, first_supported_track, select_track, Track};

fn t(id: u32, codec_known: bool) -> Track {
    Track { id, codec_known }
}

#[test]
fn selector_picks_first_track_with_known_codec() {
    let tracks = vec![t(0, false), t(1, true)];
    assert_eq!(select_track(&tracks, None), Some(&t(1, true)));
}

#[test]
fn selector_honours_user_index_regardless_of_codec() {
    let tracks = vec![t(10, false), t(11, true), t(12, true)];
    assert_eq!(select_track(&tracks, Some(0)), Some(&t(10, false)));
    assert_eq!(select_track(&tracks, Some(2)), Some(&t(12, true)));
}

#[test]
fn selector_falls_back_when_index_is_out_of_range() {
    let tracks = vec![t(10, false), t(11, true), t(12, true)];
    assert_eq!(select_track(&tracks, Some(3)), Some(&t(11, true)));
    assert_eq!(select_track(&tracks, Some(usize::MAX)), Some(&t(11, true)));
}

#[test]
fn selector_finds_nothing_to_play() {
    assert_eq!(select_track(&[], None), None);
    assert_eq!(select_track(&[], Some(0)), None);
    assert_eq!(select_track(&[t(1, false), t(2, false)], None), None);
    assert_eq!(select_track(&[t(1, false), t(2, false)], Some(5)), None);
}

#[test]
fn first_supported_is_the_earliest() {
    let tracks = vec![t(5, false), t(6, true), t(7, true)];
    assert_eq!(first_supported_track(&tracks), Some(&t(6, true)));
    assert_eq!(first_supported_track(&tracks[2..]), Some(&t(7, true)));
    assert_eq!(first_supported_track(&tracks[..1]), None);
    assert_eq!(first_supported_track(&[]), None);
}

#[test]
fn find_track_by_identifier() {
    let tracks = vec![t(5, false), t(6, true), t(5, true)];
    assert_eq!(find_track(&tracks, 5), Some(&t(5, false)));
    assert_eq!(find_track(&tracks, 6), Some(&t(6, true)));
    assert_eq!(find_track(&tracks, 7), None);
    assert_eq!(find_track(&[], 0), None);
}

#[test]
fn selected_track_is_found_again() {
    let tracks = vec![t(9, false), t(3, true), t(4, true)];
    for index in [None, Some(0), Some(1), Some(2), Some(3)] {
        let chosen = *select_track(&tracks, index).unwrap();
        assert_eq!(find_track(&tracks, chosen.id).map(|t| t.id), Some(chosen.id));
    }
}
