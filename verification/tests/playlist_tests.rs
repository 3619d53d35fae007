use m3u8_downloader::error::Error;
use m3u8_downloader::manager::DownloadManager;
use m3u8_downloader::master::{parse_m3u8_master, resolution_sum};
use m3u8_downloader::parse::{check_status, fetch_m3u8_content, ParseAction, ParseStage};
use m3u8_downloader::playlist::{
    address_in, base_url, build_abs_url, extract_segments, extract_suffix_from_m3u8_content,
    first_address_line, probe_url, url_result, Extracted,
};

fn best(content: &str) -> String {
    parse_m3u8_master(content).unwrap()
}

#[test]
fn highest_resolution_is_chosen() {
    let content = "#EXTM3U\n#EXT-X-STREAM-INF:BANDWIDTH=1,RESOLUTION=640x360\nlow.m3u8\n\
                   #EXT-X-STREAM-INF:RESOLUTION=1920x1080\nhigh.m3u8\n\
                   #EXT-X-STREAM-INF:RESOLUTION=1280x720,NAME=\"中文\"\nmid.m3u8\n";
    assert_eq!(best(content), "high.m3u8");
}

#[test]
fn first_of_equal_resolutions_is_chosen() {
    let content = "#EXT-X-STREAM-INF:RESOLUTION=640x360\na\n#EXT-X-STREAM-INF:RESOLUTION=360x640\nb";
    assert_eq!(best(content), "a");
}

#[test]
fn variants_without_a_resolution_do_not_count() {
    assert_eq!(best(""), "");
    assert_eq!(best("#EXTM3U\nx.ts"), "");
    assert_eq!(best("#EXT-X-STREAM-INF:BANDWIDTH=1\na"), "");
    assert_eq!(best("#EXT-X-STREAM-INF:RESOLUTION=0x0\na"), "");
    assert_eq!(best("#EXT-X-STREAM-INF:RESOLUTION=1x\na"), "");
    assert_eq!(best("#EXT-X-STREAM-INF:RESOLUTION=10x20"), "");
    assert_eq!(best("#EXTINF:RESOLUTION=10x20\na"), "");
}

#[test]
fn empty_lines_between_description_and_address_are_skipped() {
    assert_eq!(best("#EXT-X-STREAM-INF:RESOLUTION=10x20\r\n\r\n\na.m3u8\r\n"), "a.m3u8");
}

#[test]
fn the_line_after_a_description_is_its_address() {
    let content = "#EXT-X-STREAM-INF:RESOLUTION=10x20\n#EXT-X-STREAM-INF:RESOLUTION=99x99\nb";
    assert_eq!(best(content), "#EXT-X-STREAM-INF:RESOLUTION=99x99");
}

#[test]
fn huge_resolutions() {
    let content = "#EXT-X-STREAM-INF:RESOLUTION=4294967295x4294967295\na\n\
                   #EXT-X-STREAM-INF:RESOLUTION=4294967295x1\nb\n";
    assert_eq!(best(content), "a");
    let content = "#EXT-X-STREAM-INF:RESOLUTION=99999999999x5\na\n\
                   #EXT-X-STREAM-INF:RESOLUTION=3x3\nb\n";
    assert_eq!(best(content), "b");
}

#[test]
fn digits_of_other_scripts_match_and_count_nothing() {
    let content = "#EXT-X-STREAM-INF:RESOLUTION=٣٣x7\na\n#EXT-X-STREAM-INF:RESOLUTION=3x3\nb\n";
    assert_eq!(best(content), "a");
}

#[test]
fn first_resolution_in_a_line_counts() {
    let content = "#EXT-X-STREAM-INF:RESOLUTION=ax,RESOLUTION=2x3,RESOLUTION=900x900\na\n\
                   #EXT-X-STREAM-INF:RESOLUTION=3x3\nb\n";
    assert_eq!(best(content), "b");
}

#[test]
fn width_and_height_are_added() {
    let group = |s: &str| Some(s.to_string());
    assert_eq!(resolution_sum(None), None);
    assert_eq!(resolution_sum(Some(vec![group("m"), group("640"), group("360")])), Some(1000));
    assert_eq!(resolution_sum(Some(vec![group("m"), group("x"), group("7")])), Some(7));
    assert_eq!(resolution_sum(Some(vec![group("m"), None])), Some(0));
    assert_eq!(
        resolution_sum(Some(vec![group("m"), group("4294967295"), group("1")])),
        Some(u32::MAX)
    );
}

#[test]
fn addresses_are_made_absolute() {
    let base = "https://example.com/video/";
    assert_eq!(build_abs_url(base, "a.ts").unwrap(), "https://example.com/video/a.ts");
    assert_eq!(build_abs_url(base, "/a.ts").unwrap(), "https://example.com/a.ts");
    assert_eq!(build_abs_url(base, "../a b.ts").unwrap(), "https://example.com/a%20b.ts");
    assert_eq!(build_abs_url(base, "").unwrap(), base);
    assert_eq!(build_abs_url(base, "//cdn.net/x").unwrap(), "https://cdn.net/x");
    assert_eq!(build_abs_url(base, "HTTP://other.com").unwrap(), "http://other.com/");
    assert_eq!(build_abs_url("no base", "http://other.com").unwrap(), "http://other.com/");
}

#[test]
fn bad_addresses_are_rejected() {
    match build_abs_url("https://example.com/", "http://") {
        Err(Error::Url(reason)) => assert_eq!(reason, "empty host"),
        other => panic!("{:?}", other),
    }
    match build_abs_url("relative", "a.ts") {
        Err(Error::Url(reason)) => assert_eq!(reason, "relative URL without a base"),
        other => panic!("{:?}", other),
    }
}

#[test]
fn url_failures_become_errors() {
    assert_eq!(url_result(Ok("u".to_string())).unwrap(), "u");
    assert_eq!(url_result(Err("why".to_string())).unwrap_err().message(), "why");
}

#[test]
fn base_is_the_directory_of_the_playlist() {
    assert_eq!(base_url("https://e.com/a/b/index.m3u8?x=1#f").unwrap(), "https://e.com/a/b/");
    assert_eq!(base_url("https://e.com").unwrap(), "https://e.com/");
    assert_eq!(base_url("index.m3u8").unwrap_err().message(), "relative URL without a base");
    assert!(base_url("data:text/plain,x").is_err());
}

#[test]
fn suffix_follows_the_declared_type() {
    let suffix = |t: &str| extract_suffix_from_m3u8_content(Some(t.to_string()));
    assert_eq!(suffix("image/png"), ".png");
    assert_eq!(suffix("image/jpeg; charset=x"), ".jpeg");
    assert_eq!(suffix("image/jpg"), ".jpg");
    assert_eq!(suffix("image/webp"), ".webp");
    assert_eq!(suffix("image/gif"), ".gif");
    assert_eq!(suffix("x-image/webp"), ".ts");
    assert_eq!(suffix("image/tiff, image/gif"), ".ts");
    assert_eq!(suffix("image/png, image/gif"), ".png");
    assert_eq!(suffix("image/gi"), ".ts");
    assert_eq!(suffix("image/svg+xml"), ".svg");
    assert_eq!(suffix("image/bmp"), ".bmp");
    assert_eq!(suffix("IMAGE/PNG"), ".ts");
    assert_eq!(suffix("video/mp2t"), ".ts");
    assert_eq!(suffix(""), ".ts");
    assert_eq!(extract_suffix_from_m3u8_content(None), ".ts");
}

#[test]
fn first_address_is_probed() {
    assert_eq!(first_address_line("#EXTM3U\n#EXTINF:1\na.ts\nb.ts"), Some("a.ts".to_string()));
    assert_eq!(first_address_line("#EXTM3U\n\n \t\r\na.ts"), Some("a.ts".to_string()));
    assert_eq!(first_address_line("#EXTM3U\n\n"), None);
    assert_eq!(first_address_line("#EXTM3U"), None);
    assert_eq!(
        probe_url("#x\na.ts", "https://e.com/v/").unwrap(),
        Some("https://e.com/v/a.ts".to_string())
    );
    assert_eq!(
        probe_url("#EXTM3U\n\n#EXTINF:5,\na.png\n", "https://a.com/v/").unwrap(),
        Some("https://a.com/v/a.png".to_string())
    );
    assert_eq!(probe_url("#x", "https://e.com/v/").unwrap(), None);
    assert!(probe_url("a.ts", "nothing").is_err());
}

#[test]
fn segments_and_keys_are_extracted() {
    let content = "#EXTM3U\n\n#EXT-X-KEY:METHOD=AES-128,URI=\"k.bin\",IV=0\n#EXTINF:4,\r\n\
                   a.ts\r\n   \n#EXT-X-KEY:METHOD=AES-128,URI=\"https://o.com/k2\"\nhttp://c.net/b.ts\n\
                   #EXT-X-ENDLIST";
    let x = extract_segments(content, "https://e.com/v/", ".png").unwrap();
    let got: Vec<(String, String)> =
        x.segments.iter().map(|s| (s.name.clone(), s.download_url.clone())).collect();
    let want = [
        ("key_1.key", "https://e.com/v/k.bin"),
        ("segment_0.png", "https://e.com/v/a.ts"),
        ("key_2.key", "https://o.com/k2"),
        ("segment_1.png", "http://c.net/b.ts"),
    ];
    let want: Vec<(String, String)> =
        want.iter().map(|(n, u)| (n.to_string(), u.to_string())).collect();
    assert_eq!(got, want);
    assert_eq!(
        x.playlist,
        "#EXTM3U\n#EXT-X-KEY:METHOD=AES-128,URI=\"key_1.key\",IV=0\n#EXTINF:4,\nsegment_0.png\n\
         #EXT-X-KEY:METHOD=AES-128,URI=\"key_2.key\"\nsegment_1.png\n#EXT-X-ENDLIST\n"
    );
    assert_eq!((x.keys, x.media), (2, 2));
}

#[test]
fn saved_names_are_different_and_listed() {
    let content = "a\nb\n#EXT-X-KEY:URI=\"k\"\nc\n#EXT-X-KEY:URI=\"k\"\nd\ne\nf\ng\nh\ni\nj\nk\nl";
    let x = extract_segments(content, "https://e.com/", "1").unwrap();
    assert_eq!(x.segments.len(), 14);
    for i in 0..x.segments.len() {
        assert!(x.playlist.contains(&x.segments[i].name));
        for j in 0..i {
            assert_ne!(x.segments[i].name, x.segments[j].name);
        }
    }
}

#[test]
fn the_saved_playlist_plays_the_segments() {
    let content = "#EXTM3U\r\na.ts\r\n\n#EXT-X-KEY:METHOD=AES-128,URI=\"k\"\n\u{3000}\nb.ts\n c.ts";
    let x = extract_segments(content, "https://e.com/", ".ts").unwrap();
    let played: Vec<&str> = x
        .playlist
        .lines()
        .filter(|line| !line.trim().is_empty() && !line.starts_with('#'))
        .collect();
    assert_eq!(played, ["segment_0.ts", "segment_1.ts", "segment_2.ts"]);
    let urls: Vec<&str> = x.segments.iter().map(|s| s.download_url.as_str()).collect();
    assert_eq!(
        urls,
        ["https://e.com/a.ts", "https://e.com/k", "https://e.com/b.ts", "https://e.com/c.ts"]
    );
}

#[test]
fn the_saved_playlist_is_saved_unchanged() {
    let content = "#EXTM3U\n\n#EXT-X-KEY:METHOD=AES-128,URI=\"https://o.com/k\",IV=0\na.ts\n\
                   #EXT-X-KEY:METHOD=AES-128,URI=\"k2\n \nhttp://c.net/b.ts\n#EXT-X-ENDLIST";
    let x = extract_segments(content, "https://e.com/v/", ".png").unwrap();
    let again = extract_segments(&x.playlist, "https://e.com/v/", ".png").unwrap();
    assert_eq!(again.playlist, x.playlist);
    let names = |x: &Extracted| x.segments.iter().map(|s| s.name.clone()).collect::<Vec<String>>();
    assert_eq!(names(&again), names(&x));
    assert_eq!(again.segments[1].download_url, "https://e.com/v/segment_0.png");
}

#[test]
fn plain_names_are_addresses_of_the_web() {
    for base in ["http://e.com", "https://e.com/a/b?q#f", "HTTP:e.com"] {
        for name in ["key_1.key", "segment_0.ts", "http", "a..", "Z9_."] {
            assert!(build_abs_url(base, name).is_ok());
        }
    }
    assert!(build_abs_url("data:x", "a").is_err());
}

#[test]
fn an_added_variant_is_chosen_only_if_it_is_higher() {
    let content = "#EXTM3U\n#EXT-X-STREAM-INF:RESOLUTION=100x200\n\na\n\
                   #EXT-X-STREAM-INF:BANDWIDTH=1\nb\n";
    let with = |w: u32, h: u32| {
        best(&format!("{}#EXT-X-STREAM-INF:RESOLUTION={}x{}\nx.m3u8\n", content, w, h))
    };
    assert_eq!(best(content), "a");
    assert_eq!(with(150, 150), "a");
    assert_eq!(with(150, 151), "x.m3u8");
    assert_eq!(with(0, 0), "a");
    assert_eq!(with(u32::MAX, u32::MAX), "x.m3u8");
}

#[test]
fn a_key_without_an_address() {
    let x = extract_segments("#EXT-X-KEY", "https://e.com/v/", ".ts").unwrap();
    assert_eq!(x.segments[0].name, "key_1.key");
    assert_eq!(x.segments[0].download_url, "https://e.com/v/");
    assert_eq!(x.playlist, format!("{}\n", "#EXT-X-KEY".replace("", "key_1.key")));
}

#[test]
fn addresses_in_lines() {
    assert_eq!(address_in("#EXT-X-KEY:URI=\"aURI=\"b\""), Some("a".to_string()));
    assert_eq!(address_in("#EXT-X-KEY:URI=\"a"), Some("a".to_string()));
    assert_eq!(address_in("#EXT-X-KEY:NONE"), Some("".to_string()));
    assert_eq!(address_in(" a.ts"), Some(" a.ts".to_string()));
    assert_eq!(address_in("#EXTINF"), None);
    assert_eq!(address_in(" \t"), None);
}

#[test]
fn lines_are_taken_in_one_by_one() {
    let mut x = Extracted::new();
    x.take_line("#EXTM3U", String::new(), ".ts");
    x.take_line("  ", String::new(), ".ts");
    x.take_line("a", "https://e.com/a".to_string(), ".ts");
    assert_eq!(x.playlist, "#EXTM3U\nsegment_0.ts\n");
    assert_eq!(x.segments[0].download_url, "https://e.com/a");
    assert_eq!((x.keys, x.media), (0, 1));
}

#[test]
fn a_bad_address_stops_the_extraction() {
    let error = extract_segments("a.ts\nhttp://\nb.ts", "https://e.com/", ".ts").unwrap_err();
    assert_eq!(error.message(), "empty host");
}

#[test]
fn statuses() {
    assert!(check_status(200, "200 OK").is_ok());
    assert!(check_status(299, "299").is_ok());
    assert_eq!(check_status(404, "404 Not Found").unwrap_err().message(), "404 Not Found");
    assert!(check_status(199, "").is_err());
    assert!(check_status(300, "").is_err());
}

#[test]
fn what_counts_as_a_playlist() {
    let fetched = |t: Option<&str>, text: &str| {
        fetch_m3u8_content(t.map(|t| t.to_string()), text.to_string())
    };
    assert_eq!(fetched(Some("application/vnd.apple.mpegURL"), "x").unwrap(), "x");
    assert_eq!(fetched(Some("audio/x-MPEGurl; a"), "x").unwrap(), "x");
    assert_eq!(fetched(None, "#EXTM3U\n").unwrap(), "#EXTM3U\n");
    assert_eq!(fetched(Some("text/html"), "a#EXTINF").unwrap(), "a#EXTINF");
    assert!(matches!(fetched(Some("mpegurl"), " \r\n\u{3000}"), Err(Error::EmptyContent)));
    assert!(matches!(fetched(Some("text/html"), "<html>"), Err(Error::NotM3u8)));
    assert!(matches!(fetched(None, "#extm3u"), Err(Error::NotM3u8)));
}

#[test]
fn no_other_character_has_these_letters_in_lower_case() {
    for n in 0x80..=0x10ffffu32 {
        if let Some(c) = char::from_u32(n) {
            for l in c.to_lowercase() {
                assert!(!"mpegurl".contains(l), "{:x}", n);
            }
        }
    }
}

#[test]
fn a_plain_playlist_is_parsed() {
    let mut m = DownloadManager::new();
    let url = "https://e.com/v/index.m3u8".to_string();
    let base_url = match m.parse_m3u8(ParseStage::Begin { m3u8_url: url.clone() }, "dir") {
        Ok(ParseAction::Fetch { url: u, base_url }) => {
            assert_eq!(u, url);
            base_url
        }
        other => panic!("{:?}", other),
    };
    assert_eq!(base_url, "https://e.com/v/");
    let content = "#EXTM3U\na.ts\n".to_string();
    let (base_url, content) = match m.parse_m3u8(ParseStage::Playlist { base_url, content }, "dir") {
        Ok(ParseAction::Probe { url, base_url, content }) => {
            assert_eq!(url, "https://e.com/v/a.ts");
            (base_url, content)
        }
        other => panic!("{:?}", other),
    };
    let content_type = Some("image/png".to_string());
    let stage = ParseStage::Suffix { base_url, content, content_type };
    let (base_url, content, suffix) = match m.parse_m3u8(stage, "dir") {
        Ok(ParseAction::CreateFile { base_url, content, suffix }) => (base_url, content, suffix),
        other => panic!("{:?}", other),
    };
    assert_eq!(suffix, ".png");
    let stage = ParseStage::Extract { base_url, content, suffix };
    let segments = match m.parse_m3u8(stage, "dir") {
        Ok(ParseAction::WriteFile { playlist, segments }) => {
            assert_eq!(playlist, "#EXTM3U\nsegment_0.png\n");
            segments
        }
        other => panic!("{:?}", other),
    };
    assert_eq!(m.get_save_path(), "");
    match m.parse_m3u8(ParseStage::Written { segments }, "dir") {
        Ok(ParseAction::Finish { segments }) => assert_eq!(segments[0].name, "segment_0.png"),
        other => panic!("{:?}", other),
    }
    assert_eq!(m.get_save_path(), "dir");
    assert_eq!(m.pending_segments().len(), 1);
}

#[test]
fn a_master_playlist_leads_to_its_best_variant() {
    let mut m = DownloadManager::new();
    let stage = ParseStage::Playlist {
        base_url: "https://e.com/v/".to_string(),
        content: "#EXT-X-STREAM-INF:RESOLUTION=1x1\nl\n#EXT-X-STREAM-INF:RESOLUTION=2x2\nh/i.m3u8"
            .to_string(),
    };
    let variant_url = match m.parse_m3u8(stage, "dir") {
        Ok(ParseAction::FetchVariant { url }) => url,
        other => panic!("{:?}", other),
    };
    assert_eq!(variant_url, "https://e.com/v/h/i.m3u8");
    let stage = ParseStage::Variant { variant_url, content: "#EXTM3U\n0.ts".to_string() };
    match m.parse_m3u8(stage, "dir") {
        Ok(ParseAction::Probe { url, base_url, .. }) => {
            assert_eq!(url, "https://e.com/v/h/0.ts");
            assert_eq!(base_url, "https://e.com/v/h/");
        }
        other => panic!("{:?}", other),
    }
}

#[test]
fn parsing_can_fail_at_each_stage() {
    let mut m = DownloadManager::new();
    let stage = ParseStage::Begin { m3u8_url: "x".to_string() };
    assert!(matches!(m.parse_m3u8(stage, ""), Err(Error::Url(_))));
    let stage = ParseStage::Playlist {
        base_url: "https://e.com/".to_string(),
        content: "#EXT-X-STREAM-INF:BANDWIDTH=1\na".to_string(),
    };
    assert!(matches!(m.parse_m3u8(stage, ""), Err(Error::InvalidMaster)));
    let stage = ParseStage::Written { segments: Vec::new() };
    assert!(matches!(m.parse_m3u8(stage, ""), Err(Error::NoSegments)));
    let stage = ParseStage::Playlist {
        base_url: "https://e.com/".to_string(),
        content: "#EXTM3U".to_string(),
    };
    match m.parse_m3u8(stage, "") {
        Ok(ParseAction::CreateFile { suffix, .. }) => assert_eq!(suffix, ".ts"),
        other => panic!("{:?}", other),
    }
}
