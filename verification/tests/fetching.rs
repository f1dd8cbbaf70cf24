use chapter_export::download::{chapters_to_download, is_download_over, ChapterStatus, DownloaderState};
use chapter_export::error::{ErrorKind, StepError};
use chapter_export::fetch::{
    asset_directory, asset_path, asset_request, fetch_outcome, page_of, request_for, AssetRequest,
};

fn upstream(detail: &str) -> StepError {
    StepError { kind: ErrorKind::MissingUpstreamData, detail: detail.to_string() }
}

#[test]
fn page_number_is_taken_from_the_locator() {
    assert_eq!(page_of("/api/v1/manga/7/chapter/3/page/12"), Some("12".to_string()));
    assert_eq!(page_of("/api/v1/manga/7/chapter/3/page/0"), Some("0".to_string()));
    assert_eq!(page_of("/api/v1/manga/77/chapter/31/page/012?useCache=true"), Some("012".to_string()));
    assert_eq!(page_of("http://host:4567/api/v1/manga/1/chapter/2/page/3"), Some("3".to_string()));
    assert_eq!(page_of("/api/v1/manga/7/chapter/3/page/"), None);
    assert_eq!(page_of("/api/v1/manga/x/chapter/3/page/1"), None);
    assert_eq!(page_of("/api/v1/manga/7/page/1"), None);
    assert_eq!(page_of(""), None);
}

#[test]
fn asset_request_names_the_page_and_the_directory_of_the_chapter() {
    assert_eq!(
        asset_request("/api/v1/manga/7/chapter/3/page/12", "data/chapters", 101),
        Ok(AssetRequest { page: "12".to_string(), directory: "data/chapters/101".to_string() })
    );
    assert_eq!(
        asset_request("/somewhere/else", "data/chapters", 101),
        Err(upstream("Couldn't parse image url"))
    );
    assert_eq!(asset_directory("/var/lib/chapters", -4), "/var/lib/chapters/-4");
    assert_eq!(asset_directory("", 0), "/0");
}

#[test]
fn request_follows_the_page_number_found() {
    assert_eq!(
        request_for(Some("5".to_string()), "root", 9),
        Ok(AssetRequest { page: "5".to_string(), directory: "root/9".to_string() })
    );
    assert_eq!(request_for(None, "root", 9), Err(upstream("Couldn't parse image url")));
}

#[test]
fn asset_is_kept_under_its_page_number_and_the_extension_of_its_media_type() {
    let request = AssetRequest { page: "12".to_string(), directory: "data/chapters/101".to_string() };
    assert_eq!(asset_path(&request, "image/png", "/l"), Ok("data/chapters/101/12.png".to_string()));
    assert_eq!(asset_path(&request, "image/jpeg", "/l"), Ok("data/chapters/101/12.jpeg".to_string()));
    assert_eq!(asset_path(&request, "image/", "/l"), Ok("data/chapters/101/12.".to_string()));
    assert_eq!(
        asset_path(&request, "image/svg/xml", "/l"),
        Ok("data/chapters/101/12.xml".to_string())
    );
}

#[test]
fn asset_that_is_no_image_is_refused() {
    let request = AssetRequest { page: "12".to_string(), directory: "d".to_string() };
    assert_eq!(
        asset_path(&request, "text/html", "/api/v1/manga/7/chapter/3/page/12"),
        Err(upstream("Not an image: \"text/html\" (downloading /api/v1/manga/7/chapter/3/page/12)"))
    );
    assert_eq!(
        asset_path(&request, "image", "/l"),
        Err(upstream("Not an image: \"image\" (downloading /l)"))
    );
    assert_eq!(asset_path(&request, "", "/l"), Err(upstream("Not an image: \"\" (downloading /l)")));
}

#[test]
fn first_failed_asset_fails_the_fetching() {
    assert_eq!(fetch_outcome(vec![]), Ok(()));
    assert_eq!(fetch_outcome(vec![Ok(()), Ok(())]), Ok(()));
    assert_eq!(
        fetch_outcome(vec![Ok(()), Err(upstream("first")), Ok(()), Err(upstream("second"))]),
        Err(upstream("first"))
    );
    assert_eq!(fetch_outcome(vec![Err(upstream("only"))]), Err(upstream("only")));
}

#[test]
fn chapters_not_downloaded_are_picked_in_the_order_of_the_answer() {
    let statuses = vec![
        ChapterStatus { id: 5, is_downloaded: false },
        ChapterStatus { id: 3, is_downloaded: true },
        ChapterStatus { id: 9, is_downloaded: false },
        ChapterStatus { id: 5, is_downloaded: false },
    ];
    assert_eq!(chapters_to_download(&statuses), vec![5, 9, 5]);
    assert_eq!(chapters_to_download(&vec![]), Vec::<i64>::new());
    assert_eq!(
        chapters_to_download(&vec![ChapterStatus { id: 1, is_downloaded: true }]),
        Vec::<i64>::new()
    );
}

#[test]
fn waiting_ends_well_only_when_the_downloader_has_stopped() {
    assert!(is_download_over(&Some(DownloaderState::Stopped)));
    assert!(!is_download_over(&None));
    assert!(!is_download_over(&Some(DownloaderState::Started)));
}
