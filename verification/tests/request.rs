use plex_downloader::request::SftpRequest;
use plex_downloader::strutil::find_first;
use plex_downloader::strutil::tail_after_last_str;

#[test]
fn test_clean_path() {
    let link = "sftp://example.biz/mnt/mpathm/roy_rogers/files/Blade%20Runner%202049%201080p%20WEB-DL%20H264%20AC3-EVO".to_owned();
    let destination = "/usr/what".to_owned();
    let split = "roy_rogers/".to_owned();
    let sftp_req = SftpRequest {
        link: link,
        destination: destination,
    };

    let expected = "files/Blade Runner 2049 1080p WEB-DL H264 AC3-EVO".to_owned();

    assert_eq!(expected, sftp_req.path(&split).unwrap());
}

#[test]
fn path_without_marker_is_whole_decoded_link() {
    let req = SftpRequest {
        destination: "shows".to_owned(),
        link: "remote/a%20b.txt".to_owned(),
    };
    assert_eq!("remote/a b.txt".to_owned(), req.path("nowhere/").unwrap());
}

#[test]
fn path_cuts_after_final_marker() {
    let req = SftpRequest {
        destination: "shows".to_owned(),
        link: "x/data/one/data/two.mkv".to_owned(),
    };
    assert_eq!("two.mkv".to_owned(), req.path("data/").unwrap());
}

#[test]
fn path_with_empty_marker_is_empty() {
    let req = SftpRequest {
        destination: "shows".to_owned(),
        link: "abc".to_owned(),
    };
    assert_eq!(String::new(), req.path("").unwrap());
}

#[test]
fn path_fails_on_undecodable_link() {
    let req = SftpRequest {
        destination: "shows".to_owned(),
        link: "bad%FFbytes".to_owned(),
    };
    assert!(req.path("/").is_none());
}

#[test]
fn dst_prefixes_the_media_root() {
    let req = SftpRequest {
        destination: "films/new".to_owned(),
        link: "ignored".to_owned(),
    };
    assert_eq!("/var/lib/plexmediaserver/films/new".to_owned(), req.dst());
}

#[test]
fn find_first_reports_earliest_occurrence() {
    assert_eq!(Some(1), find_first("xabcabd", "ab"));
    assert_eq!(Some(0), find_first("abc", ""));
    assert_eq!(None, find_first("abc", "zz"));
    assert_eq!(None, find_first("ab", "abc"));
}

#[test]
fn tail_consumes_overlapping_matches_left_to_right() {
    // The scan consumes each occurrence whole before resuming, exactly like
    // splitting on the marker and keeping the last piece.
    assert_eq!("a".to_owned(), tail_after_last_str("aaa", "aa"));
    assert_eq!("aaa".split("aa").last().unwrap().to_owned(), tail_after_last_str("aaa", "aa"));
    assert_eq!(String::new(), tail_after_last_str("abab", "ab"));
    assert_eq!("c".to_owned(), tail_after_last_str("ab c", "ab "));
}
