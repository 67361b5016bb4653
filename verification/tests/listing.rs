use tree_sync::image_source::File;
use tree_sync::listing::{list_query, Listing, Page};

fn entry(id: &str) -> File {
    File { id: Some(id.to_string()), name: None, mime_type: None, sha1_checksum: None }
}

fn page(ids: &[&str], next: Option<&str>) -> Page {
    Page {
        files: Some(ids.iter().map(|id| entry(id)).collect()),
        next_page_token: next.map(str::to_string),
    }
}

fn ids(files: &[File]) -> Vec<&str> {
    files.iter().map(|f| f.id.as_deref().unwrap()).collect()
}

#[test]
fn query_names_the_folder() {
    assert_eq!(list_query("abc"), "'abc' in parents and trashed = false");
    assert_eq!(list_query(""), "'' in parents and trashed = false");
}

#[test]
fn first_page_is_asked_without_token() {
    let listing = Listing::new();
    assert!(!listing.is_done());
    assert_eq!(listing.page_token(), None);
    assert!(listing.into_files().is_empty());
}

#[test]
fn single_page() {
    let mut listing = Listing::new();
    listing.absorb(page(&["a", "b"], None));
    assert!(listing.is_done());
    assert_eq!(listing.page_token(), None);
    assert_eq!(ids(&listing.into_files()), ["a", "b"]);
}

#[test]
fn pages_are_gathered_in_order() {
    let mut listing = Listing::new();
    listing.absorb(page(&["a", "b"], Some("t1")));
    assert!(!listing.is_done());
    assert_eq!(listing.page_token(), Some("t1"));
    listing.absorb(Page { files: None, next_page_token: Some("t2".to_string()) });
    assert!(!listing.is_done());
    assert_eq!(listing.page_token(), Some("t2"));
    listing.absorb(page(&["c"], None));
    assert!(listing.is_done());
    assert_eq!(ids(&listing.into_files()), ["a", "b", "c"]);
}

#[test]
fn nothing_is_taken_in_after_the_last_page() {
    let mut listing = Listing::new();
    listing.absorb(page(&["a"], None));
    listing.absorb(page(&["b"], Some("late")));
    assert!(listing.is_done());
    assert_eq!(listing.page_token(), None);
    assert_eq!(ids(&listing.into_files()), ["a"]);
}

#[test]
fn empty_folder() {
    let mut listing = Listing::new();
    listing.absorb(Page { files: None, next_page_token: None });
    assert!(listing.is_done());
    assert!(listing.into_files().is_empty());
}
