use m3u8_downloader::config::{
    clean_video_name, create_safe_save_path, ConfigInput, SavePlace, UserConfig,
};
use m3u8_downloader::error::Error;
use m3u8_downloader::manager::{DownloadManager, DownloadState};

fn input() -> ConfigInput {
    ConfigInput {
        video_name: "dir/movie?".to_string(),
        m3u8_url: "https://e.com/i.m3u8".to_string(),
        concurrency: "8".to_string(),
        retry_count: "5".to_string(),
        connect_timeout: "10".to_string(),
        is_merge: true,
        is_delete_segment: false,
    }
}

fn place() -> SavePlace {
    SavePlace { save_path: "/tmp/movie_".to_string(), video_name: "movie_".to_string() }
}

fn saved_as(name: &str) -> String {
    create_safe_save_path("dir", name).unwrap().video_name
}

#[test]
fn names_are_cleaned() {
    assert_eq!(saved_as("movie"), "movie");
    assert_eq!(saved_as("a<b>c:d\"e|f?g*h"), "a_b_c_d_e_f_g_h");
    assert_eq!(saved_as("dir/sub/movie.mp4"), "movie.mp4");
    assert_eq!(saved_as("dir/movie/.//"), "movie");
    assert_eq!(saved_as("a/.."), "a_..");
    assert_eq!(saved_as("/"), "_");
    assert_eq!(saved_as(" 电影 "), " 电影 ");
}

#[test]
fn a_colon_behind_the_beginning_belongs_to_the_name() {
    assert_eq!(saved_as("Movie: 2"), "Movie_ 2");
    assert_eq!(saved_as("dir/Movie: 2"), "Movie_ 2");
    assert_eq!(saved_as("1: one"), "1_ one");
    assert_eq!(saved_as("dir:x/a:b"), "a_b");
}

#[test]
fn a_name_is_the_final_component_of_one_system_or_another() {
    let one_of = |name: &str, allowed: [&str; 2]| {
        let got = saved_as(name);
        assert!(allowed.contains(&got.as_str()), "{}", got);
    };
    one_of("dir\\movie", ["dir_movie", "movie"]);
    one_of("a/b\\c", ["b_c", "c"]);
    one_of("C:movie", ["C_movie", "movie"]);
    one_of("C:\\dir\\movie", ["C__dir_movie", "movie"]);
    one_of("\\\\server\\share\\movie", ["__server_share_movie", "movie"]);
}

#[test]
fn long_names_are_cut_by_characters() {
    let name = "影".repeat(60);
    assert_eq!(saved_as(&name), "影".repeat(50));
    assert_eq!(saved_as(&"a".repeat(50)), "a".repeat(50));
    assert_eq!(saved_as(&"?".repeat(51)), "_".repeat(50));
}

#[test]
fn the_directory_is_one_of_its_own() {
    assert_eq!(saved_as("."), "_");
    assert_eq!(saved_as(".."), "__");
    assert_eq!(saved_as("..."), "___");
    assert_eq!(saved_as("../.."), ".._..");
    assert_eq!(saved_as("a/ "), "_");
    assert_eq!(saved_as(".hidden"), ".hidden");
    assert_eq!(saved_as("a."), "a.");
    assert_eq!(saved_as(&(".".repeat(50) + "abc")), "_".repeat(50));
    assert_eq!(clean_video_name("x", Some("..".to_string())), "__");
}

#[test]
fn the_directory_stands_below_the_one_for_all_videos() {
    let shares = ["\\\\server\\share", "//server/share"];
    for work_dir in ["videos", "videos/all", "/", "", "videos/", shares[0], shares[1]] {
        let place = create_safe_save_path(work_dir, "sub/movie?").unwrap();
        assert_eq!(place.video_name, "movie_");
        assert_eq!(
            std::path::Path::new(&place.save_path),
            std::path::Path::new(work_dir).join("movie_")
        );
        assert!(place.save_path.starts_with(work_dir) && place.save_path.ends_with("movie_"));
        assert!(place.save_path.len() <= work_dir.len() + 7);
    }
    let place = create_safe_save_path("videos", "..").unwrap();
    assert_eq!(
        std::path::Path::new(&place.save_path).parent(),
        Some(std::path::Path::new("videos"))
    );
    assert_eq!(place.save_path.len(), "videos/__".len());
}

#[test]
fn blank_names_are_rejected() {
    assert!(matches!(create_safe_save_path("dir", ""), Err(Error::EmptyVideoName)));
    assert!(matches!(create_safe_save_path("dir", " \t\u{3000}"), Err(Error::EmptyVideoName)));
}

#[test]
fn the_final_component_is_used_where_there_is_one() {
    assert_eq!(clean_video_name("a\\b", Some("b".to_string())), "b");
    assert_eq!(clean_video_name("a\\b", None), "a_b");
    assert_eq!(clean_video_name("x", Some("p/q".to_string())), "p_q");
}

#[test]
fn a_new_download_is_configured() {
    let c = UserConfig::new(input(), &DownloadManager::new(), place()).unwrap();
    assert_eq!(c.save_path(), "/tmp/movie_");
    assert_eq!(c.video_name(), "movie_");
    assert_eq!(c.m3u8_url(), "https://e.com/i.m3u8");
    assert_eq!(c.concurrency(), 8);
    assert_eq!(c.retry_count(), 6);
    assert_eq!(c.connect_timeout(), 10);
    assert!(c.is_merge());
    assert!(!c.is_delete_segment());
}

#[test]
fn a_resumed_download_is_configured() {
    let mut m = DownloadManager::new();
    m.set_download_state(DownloadState::Paused);
    let entries = ConfigInput { m3u8_url: "no url".to_string(), ..input() };
    let c = UserConfig::new(entries, &m, place()).unwrap();
    assert_eq!(c.save_path(), "");
    assert_eq!(c.video_name(), "dir/movie?");
    assert_eq!(c.m3u8_url(), "");
    assert_eq!(c.retry_count(), 6);
}

#[test]
fn numbers_that_cannot_be_read_have_defaults() {
    let entries = ConfigInput {
        concurrency: "many".to_string(),
        retry_count: "-1".to_string(),
        connect_timeout: "".to_string(),
        ..input()
    };
    let c = UserConfig::new(entries, &DownloadManager::new(), place()).unwrap();
    assert_eq!((c.concurrency(), c.retry_count(), c.connect_timeout()), (4, 4, 3));
    let entries = ConfigInput { retry_count: "0".to_string(), ..input() };
    assert_eq!(UserConfig::new(entries, &DownloadManager::new(), place()).unwrap().retry_count(), 1);
    let entries = ConfigInput { retry_count: "4294967294".to_string(), ..input() };
    let c = UserConfig::new(entries, &DownloadManager::new(), place()).unwrap();
    assert_eq!(c.retry_count(), u32::MAX);
    let entries = ConfigInput { retry_count: "4294967295".to_string(), ..input() };
    let c = UserConfig::new(entries, &DownloadManager::new(), place()).unwrap();
    assert_eq!(c.retry_count(), u32::MAX);
    let entries = ConfigInput { retry_count: "4294967296".to_string(), ..input() };
    assert_eq!(UserConfig::new(entries, &DownloadManager::new(), place()).unwrap().retry_count(), 4);
}

#[test]
fn entries_are_checked_in_order() {
    let m = DownloadManager::new();
    let bad = ConfigInput {
        m3u8_url: "x".to_string(),
        concurrency: "0".to_string(),
        connect_timeout: "0".to_string(),
        ..input()
    };
    assert!(matches!(UserConfig::new(bad, &m, place()), Err(Error::InvalidM3u8Url)));
    let bad = ConfigInput {
        concurrency: "0".to_string(),
        connect_timeout: "0".to_string(),
        ..input()
    };
    assert!(matches!(UserConfig::new(bad, &m, place()), Err(Error::ConcurrencyTooSmall)));
    let bad = ConfigInput { connect_timeout: "0".to_string(), ..input() };
    assert!(matches!(UserConfig::new(bad, &m, place()), Err(Error::TimeoutTooSmall)));
    assert!(matches!(
        UserConfig::from_entries(input(), true, place(), false),
        Err(Error::InvalidM3u8Url)
    ));
    assert!(UserConfig::from_entries(input(), false, place(), false).is_ok());
    let bad = ConfigInput {
        m3u8_url: "x".to_string(),
        retry_count: "4294967295".to_string(),
        ..input()
    };
    assert!(matches!(UserConfig::new(bad, &m, place()), Err(Error::InvalidM3u8Url)));
}

#[test]
fn error_messages() {
    assert_eq!(Error::EmptyVideoName.message(), "The video name cannot be empty.");
    assert_eq!(Error::NoSaveDirectory.message(), "Failed to create the save directory.");
    assert_eq!(Error::InvalidM3u8Url.message(), "Invalid M3U8 URL");
    assert_eq!(Error::ConcurrencyTooSmall.message(), "Concurrency cannot be less than 1");
    assert_eq!(Error::TimeoutTooSmall.message(), "Connect timeout cannot be less than 1 second");
    assert_eq!(Error::EmptyContent.message(), "M3U8 Content is empty.");
    assert_eq!(Error::NotM3u8.message(), "Not valid M3U8 playlist.");
    assert_eq!(Error::InvalidMaster.message(), "Invalid master playlist.");
    assert_eq!(Error::NoSegments.message(), "No segments found.");
    assert_eq!(Error::Status("s".to_string()).message(), "s");
}
