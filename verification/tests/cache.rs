use squads_core::cache::{FetchRequest, Resolution, Resolved, ResourceCache};
use squads_core::model::Team;

#[test]
fn missing_identity_is_pending_at_once_and_resident_after_the_fetch() {
    let mut cache = ResourceCache::new("/var/cache/app");
    assert_eq!(cache.peek("etag-7"), Resolution::Absent);
    let first = cache.resolve("etag-7");
    assert_eq!(first.resolution, Resolution::Pending);
    let request = first.fetch.expect("a fetch is started");
    assert_eq!(request.identity, "etag-7");
    assert_eq!(request.destination, "/var/cache/app/image-cache/etag-7.jpeg");

    // The fetch ends with bytes that the caller writes to the destination.
    let bytes: Vec<u8> = vec![0xff, 0xd8, 0xff, 0xe0, 1, 2, 3];
    let mut disk: Vec<(String, Vec<u8>)> = Vec::new();
    disk.push((request.destination.clone(), bytes.clone()));
    cache.complete("etag-7", true);

    let second = cache.resolve("etag-7");
    assert_eq!(second.fetch, None);
    match second.resolution {
        Resolution::Resident { location } => {
            let stored = disk.iter().find(|(path, _)| *path == location).map(|(_, b)| b.clone());
            assert_eq!(stored, Some(bytes));
        }
        other => panic!("not resident: {:?}", other),
    }
}

#[test]
fn two_requests_before_completion_start_one_fetch() {
    let mut cache = ResourceCache::new("/c");
    let mut started = 0;
    for _ in 0..2 {
        let answer = cache.resolve("etag-7");
        assert_eq!(answer.resolution, Resolution::Pending);
        if answer.fetch.is_some() {
            started += 1;
        }
    }
    assert_eq!(started, 1);
    assert_eq!(cache.resolve("etag-7"), Resolved { resolution: Resolution::Pending, fetch: None });
    assert!(cache.resolve("etag-8").fetch.is_some());
}

#[test]
fn failed_fetch_counts_as_absent_and_is_tried_again() {
    let mut cache = ResourceCache::new("/c");
    assert!(cache.resolve("pic").fetch.is_some());
    cache.complete("pic", false);
    assert_eq!(cache.peek("pic"), Resolution::Absent);
    let again = cache.resolve("pic");
    assert_eq!(again.resolution, Resolution::Pending);
    assert_eq!(
        again.fetch,
        Some(FetchRequest {
            identity: "pic".to_string(),
            destination: "/c/image-cache/pic.jpeg".to_string(),
        })
    );
    assert_eq!(cache.resolve("pic").fetch, None);
}

#[test]
fn resident_entry_never_changes() {
    let mut cache = ResourceCache::new("/c");
    cache.resolve("pic");
    cache.complete("pic", true);
    let resident = Resolution::Resident { location: "/c/image-cache/pic.jpeg".to_string() };
    assert_eq!(cache.peek("pic"), resident);
    cache.complete("pic", false);
    assert_eq!(cache.peek("pic"), resident);
    cache.complete("pic", true);
    assert_eq!(cache.resolve("pic"), Resolved { resolution: resident, fetch: None });
}

#[test]
fn late_result_for_unrequested_identity_is_cached() {
    let mut cache = ResourceCache::new("/c");
    cache.complete("stale", true);
    assert_eq!(
        cache.peek("stale"),
        Resolution::Resident { location: "/c/image-cache/stale.jpeg".to_string() }
    );
}

#[test]
fn location_is_directory_identity_and_extension() {
    let cache = ResourceCache::new("/home/u/.cache/squads");
    assert_eq!(cache.location("etag-7"), "/home/u/.cache/squads/image-cache/etag-7.jpeg");
    assert_eq!(cache.location(""), "/home/u/.cache/squads/image-cache/.jpeg");
}

#[test]
fn team_picture_location_uses_tag_or_name() {
    let cache = ResourceCache::new("/c");
    let mut team = Team {
        id: "1".to_string(),
        display_name: "Alpha".to_string(),
        picture_e_tag: Some("etag-1".to_string()),
        group_id: "g".to_string(),
        channels: Vec::new(),
    };
    assert_eq!(cache.team_picture_location(&team), "/c/image-cache/etag-1.jpeg");
    team.picture_e_tag = None;
    assert_eq!(cache.team_picture_location(&team), "/c/image-cache/Alpha.jpeg");
}

#[test]
fn cache_for_application_starts_empty() {
    if let Some(mut cache) = ResourceCache::for_application("", "ianterzo", "squads") {
        assert_eq!(cache.peek("etag-7"), Resolution::Absent);
        let location = cache.location("etag-7");
        assert!(location.ends_with("/image-cache/etag-7.jpeg"));
        assert!(location.len() > "/image-cache/etag-7.jpeg".len());
        assert!(cache.resolve("etag-7").fetch.is_some());
    }
}

#[test]
fn cache_over_a_directory_is_empty_and_rooted_there() {
    assert!(ResourceCache::over_directory(None).is_none());
    let cache = ResourceCache::over_directory(Some("/home/u/.cache/squads".to_string()))
        .expect("a directory gives a cache");
    assert_eq!(cache.peek("etag-7"), Resolution::Absent);
    assert_eq!(cache.location("etag-7"), "/home/u/.cache/squads/image-cache/etag-7.jpeg");
}
