//! Listing one folder page by page.
//!
//! The store hands out a folder's entries in pages, each with a token for
//! the page after it. A [`Listing`] gathers the pages until one comes
//! without a token.

use vstd::prelude::*;
use vstd::string::StringExecFns;
use crate::crawl::files_view;
use crate::image_source::{File, FileView};
use crate::text::opt_text;

verus! {

/// The query that selects the entries of a folder which are not in the
/// bin.
pub open spec fn list_query_view(folder_id: Seq<char>) -> Seq<char> {
    seq!['\''] + folder_id + "' in parents and trashed = false"@
}

pub fn list_query(folder_id: &str) -> (r: String)
    ensures
        r@ == list_query_view(folder_id@),
{
    let mut query = String::from_str("'");
    query.append(folder_id);
    query.append("' in parents and trashed = false");
    proof {
        reveal_strlit("'");
        assert("'"@ =~= seq!['\'']);
        assert(query@ =~= list_query_view(folder_id@));
    }
    query
}

/// One page as the store answers it.
#[derive(Debug, Clone, PartialEq, Eq)]
pub struct Page {
    /// The entries; a page may come without any.
    pub files: Option<Vec<File>>,
    /// The token of the next page; none on the last page.
    pub next_page_token: Option<String>,
}

/// A page as plain values.
pub struct PageView {
    pub files: Seq<FileView>,
    pub next_page_token: Option<Seq<char>>,
}

impl View for Page {
    type V = PageView;

    open spec fn view(&self) -> PageView {
        PageView {
            files: match self.files {
                Some(files) => files_view(files@),
                None => Seq::empty(),
            },
            next_page_token: opt_text(self.next_page_token),
        }
    }
}

/// A listing in progress, as plain values.
pub struct ListingView {
    /// The entries gathered so far, in the order they came.
    pub files: Seq<FileView>,
    /// The token to ask the next page with; none for the first page.
    pub token: Option<Seq<char>>,
    /// Whether the last page has come.
    pub done: bool,
}

impl ListingView {
    /// A listing of which no page was asked for yet.
    pub open spec fn start() -> ListingView {
        ListingView { files: Seq::empty(), token: None, done: false }
    }

    /// The listing after `page` came in. Once the last page has come,
    /// nothing is taken in any more.
    pub open spec fn absorb(self, page: PageView) -> ListingView {
        if self.done {
            self
        } else {
            ListingView {
                files: self.files + page.files,
                token: page.next_page_token,
                done: page.next_page_token is None,
            }
        }
    }

    /// The listing after the pages came in, in order.
    pub open spec fn absorb_all(self, pages: Seq<PageView>) -> ListingView
        decreases pages.len(),
    {
        if pages.len() == 0 {
            self
        } else {
            self.absorb_all(pages.drop_last()).absorb(pages.last())
        }
    }
}

/// The entries of all pages, in order.
pub open spec fn all_files(pages: Seq<PageView>) -> Seq<FileView>
    decreases pages.len(),
{
    if pages.len() == 0 {
        Seq::empty()
    } else {
        all_files(pages.drop_last()) + pages.last().files
    }
}

/// While every page comes with a token the listing is not done, holds the
/// entries of all pages so far, and asks on with the token of the latest
/// page.
pub proof fn lemma_listing_goes_on(pages: Seq<PageView>)
    requires
        forall|i: int| 0 <= i < pages.len() ==> (#[trigger] pages[i]).next_page_token is Some,
    ensures
        !ListingView::start().absorb_all(pages).done,
        ListingView::start().absorb_all(pages).files == all_files(pages),
        pages.len() > 0 ==> ListingView::start().absorb_all(pages).token
            == pages.last().next_page_token,
    decreases pages.len(),
{
    if pages.len() > 0 {
        let before = pages.drop_last();
        assert forall|i: int| 0 <= i < before.len() implies (
        #[trigger] before[i]).next_page_token is Some by {
            assert(before[i] == pages[i]);
        }
        lemma_listing_goes_on(before);
    }
}

/// The listing is done with the first page that comes without a token, and
/// then holds the entries of every page up to that one, in order.
pub proof fn lemma_listing_is_complete(pages: Seq<PageView>)
    requires
        pages.len() > 0,
        pages.last().next_page_token is None,
        forall|i: int| 0 <= i < pages.len() - 1 ==> (#[trigger] pages[i]).next_page_token is Some,
    ensures
        ListingView::start().absorb_all(pages).done,
        ListingView::start().absorb_all(pages).files == all_files(pages),
{
    let before = pages.drop_last();
    assert forall|i: int| 0 <= i < before.len() implies (#[trigger] before[i]).next_page_token
        is Some by {
        assert(before[i] == pages[i]);
    }
    lemma_listing_goes_on(before);
}

/// The pages of one folder, gathered.
#[derive(Debug)]
pub struct Listing {
    files: Vec<File>,
    token: Option<String>,
    done: bool,
}

impl View for Listing {
    type V = ListingView;

    closed spec fn view(&self) -> ListingView {
        ListingView { files: files_view(self.files@), token: opt_text(self.token), done: self.done }
    }
}

impl Listing {
    pub fn new() -> (r: Listing)
        ensures
            r@ == ListingView::start(),
    {
        let r = Listing { files: Vec::new(), token: None, done: false };
        assert(files_view(r.files@) =~= Seq::<FileView>::empty());
        r
    }

    /// Whether the last page has come.
    pub fn is_done(&self) -> (r: bool)
        ensures
            r == self@.done,
    {
        self.done
    }

    /// The token to ask the next page with; none for the first page.
    pub fn page_token(&self) -> (r: Option<&str>)
        ensures
            r is Some <==> self@.token is Some,
            r matches Some(token) ==> self@.token == Some(token@),
    {
        match &self.token {
            Some(token) => Some(token.as_str()),
            None => None,
        }
    }

    /// Takes a page in.
    pub fn absorb(&mut self, page: Page)
        ensures
            final(self)@ == old(self)@.absorb(page@),
    {
        if self.done {
            return ;
        }
        let Page { files, next_page_token } = page;
        match files {
            Some(mut files) => {
                let ghost before = self.files@;
                let ghost added = files@;
                self.files.append(&mut files);
                assert(files_view(before + added) =~= files_view(before) + files_view(added));
            },
            None => {
                assert(files_view(self.files@) + Seq::<FileView>::empty() =~= files_view(
                    self.files@,
                ));
            },
        }
        self.done = next_page_token.is_none();
        self.token = next_page_token;
    }

    /// The entries gathered.
    pub fn into_files(self) -> (r: Vec<File>)
        ensures
            files_view(r@) == self@.files,
    {
        self.files
    }
}

} // verus!
