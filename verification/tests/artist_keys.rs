use playlist_core::credits::{group_albums_by_artist, primary_artist_key, AlbumCandidate};

fn key(name: &str) -> String {
    primary_artist_key(Some(name)).expect("a non-empty name has a key")
}

#[test]
fn enrichment_featured_artists_do_not_fork_an_album() {
    assert_eq!(key("Princess Nokia, Wiki"), key("Princess Nokia"));
    assert_eq!(
        key("Dr. Dre, Hittman, Six-Two, Nate Dogg, Kurupt"),
        key("Dr. Dre, Eminem, Xzibit")
    );
    assert_eq!(key("Gorillaz, Moonchild Sanelly"), key("Gorillaz, Robert Smith"));
    assert_eq!(key("DANGERDOOM, MF DOOM, Danger Mouse"), key("DANGERDOOM"));
    assert_eq!(key("Şatellites, Vicky Ashkenazy"), key("Şatellites"));
}

#[test]
fn enrichment_scrape_labels_are_stripped() {
    assert_eq!(key("PREMIERE : Aleksandir"), key("Aleksandir"));
    assert_eq!(key("PREMIERE: Aleksandir"), key("Aleksandir"));
    assert_eq!(key("Lyrics: Miracle Musical"), key("Miracle Musical"));
    assert_eq!(key("JUN FUKAMACHI...02"), key("Jun Fukamachi"));
    assert_eq!(key("Birdy Nam Nam Official"), key("Birdy Nam Nam"));
}

#[test]
fn enrichment_different_artists_stay_apart() {
    assert_ne!(key("The Little Dippers, Buddy Killen"), key("Flight Facilities"));
    assert_ne!(key("The Wolfgang Press"), key("AUDREY NUNA"));
}

#[test]
fn enrichment_a_comma_inside_a_name_is_not_a_separator() {
    assert_eq!(key("Earth, Wind & Fire"), "earth, wind & fire");
    assert_eq!(key("Tyler, The Creator"), "tyler, the creator");
    assert_ne!(key("Earth, Wind & Fire"), key("Earth"));
}

#[test]
fn enrichment_a_missing_name_has_no_key() {
    assert_eq!(primary_artist_key(None), None);
    assert_eq!(primary_artist_key(Some("   ")), None);
}

#[test]
fn enrichment_a_name_that_is_only_a_label_survives() {
    assert_eq!(key("PREMIERE"), "premiere");
}

#[test]
fn artist_featured_artists_do_not_fork_an_album() {
    assert_eq!(key("Princess Nokia, Wiki"), key("Princess Nokia"));
    assert_eq!(
        key("Dr. Dre, Hittman, Six-Two, Nate Dogg, Kurupt"),
        key("Dr. Dre, Eminem, Xzibit")
    );
    assert_eq!(key("Gorillaz, Moonchild Sanelly"), key("Gorillaz, Robert Smith"));
    assert_eq!(key("DANGERDOOM, MF DOOM, Danger Mouse"), key("DANGERDOOM"));
    assert_eq!(key("Şatellites, Vicky Ashkenazy"), key("Şatellites"));
}

#[test]
fn artist_scrape_labels_are_stripped() {
    assert_eq!(key("PREMIERE : Aleksandir"), key("Aleksandir"));
    assert_eq!(key("PREMIERE: Aleksandir"), key("Aleksandir"));
    assert_eq!(key("Lyrics: Miracle Musical"), key("Miracle Musical"));
    assert_eq!(key("JUN FUKAMACHI...02"), key("Jun Fukamachi"));
    assert_eq!(key("Birdy Nam Nam Official"), key("Birdy Nam Nam"));
}

#[test]
fn artist_different_artists_stay_apart() {
    assert_ne!(key("The Little Dippers, Buddy Killen"), key("Flight Facilities"));
    assert_ne!(key("The Wolfgang Press"), key("AUDREY NUNA"));
}

#[test]
fn artist_a_comma_inside_a_name_is_not_a_separator() {
    assert_eq!(key("Earth, Wind & Fire"), "earth, wind & fire");
    assert_eq!(key("Tyler, The Creator"), "tyler, the creator");
    assert_ne!(key("Earth, Wind & Fire"), key("Earth"));
}

#[test]
fn artist_a_missing_name_has_no_key() {
    assert_eq!(primary_artist_key(None), None);
    assert_eq!(primary_artist_key(Some("   ")), None);
}

#[test]
fn artist_a_name_that_is_only_a_label_survives() {
    assert_eq!(key("PREMIERE"), "premiere");
}

#[test]
fn keys_for_exact_values() {
    assert_eq!(key("  Daft Punk  "), "daft punk");
    assert_eq!(key("Lyrics:   "), "lyrics:");
    assert_eq!(key("Video: Foo, Bar"), "foo");
    assert_eq!(key("Official"), "official");
    assert_eq!(key("X...abc"), "x...abc");
}

#[test]
fn grouping_keeps_different_artists_apart() {
    let c = |id: i64, aid: Option<i64>, name: Option<&str>| AlbumCandidate {
        id,
        artist_id: aid,
        artist_name: name.map(|n| n.to_string()),
    };
    let albums = vec![
        c(1, None, None),
        c(2, Some(7), Some("Daft Punk, Pharrell")),
        c(3, Some(8), Some("Justice")),
        c(4, Some(9), Some("daft punk")),
        c(5, None, Some("  ")),
    ];
    let groups = group_albums_by_artist(&albums);
    assert_eq!(groups.len(), 2);
    assert_eq!(groups[0].members, vec![1, 2, 4, 5]);
    assert_eq!(groups[0].key.as_deref(), Some("daft punk"));
    assert_eq!(groups[0].artist_id, Some(7));
    assert_eq!(groups[1].members, vec![3]);
    assert_eq!(groups[1].key.as_deref(), Some("justice"));
    let total: usize = groups.iter().map(|g| g.members.len()).sum();
    assert_eq!(total, albums.len());
}
