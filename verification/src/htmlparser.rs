//! What is read from an addon's web page: its title and the link to its
//! archive. The page is parsed by `scraper`; which element counts is decided
//! here. Elements are taken in document order, which is the order of a walk
//! of the parsed tree from its root element, each element before the ones
//! inside it. The first match always wins.

use scraper::Html;
use scraper::Selector;
use vstd::prelude::*;
use vstd::string::*;

use crate::errors::Error;
use crate::errors::ErrorView;
use crate::text::is_prefix;
use crate::text::same_text;
use crate::text::starts_with;

verus! {

/// What `scraper` finds in a page: for each element below the root element of
/// the document `html` that the CSS selector `selector` matches, in the order
/// of a walk of the parsed tree from the root element, the values of the
/// attributes named by `names`, in their order, `None` for an attribute that
/// the element lacks. `None` where `selector` is no valid selector.
pub uninterp spec fn selected_attributes(
    html: Seq<char>,
    selector: Seq<char>,
    names: Seq<Seq<char>>,
) -> Option<Seq<Seq<Option<Seq<char>>>>>;

/// Parses `selector` with `Selector::parse` and `html` with
/// `Html::parse_document`, takes the document's `Html::root_element`, which
/// a parsed document always has, walks the matches of `ElementRef::select`
/// below it and reads each attribute with `Element::attr`. The result is
/// named, not described.
#[verifier::external_body]
fn select_attributes(html: &str, selector: &str, names: &Vec<String>) -> (rows: Option<
    Vec<Vec<Option<String>>>,
>)
    ensures
        rows.deep_view() == selected_attributes(html@, selector@, names.deep_view()),
{
    let selector = Selector::parse(selector).ok()?;
    let document = Html::parse_document(html);
    let row = |element: scraper::ElementRef| {
        names.iter().map(|name| element.value().attr(name).map(|value| value.to_owned())).collect()
    };
    Some(document.root_element().select(&selector).map(row).collect())
}

/// The host that archives are downloaded from.
pub open spec fn cdn_prefix() -> Seq<char> {
    "https://cdn.esoui.com"@
}

/// The title among the `meta` elements of a page, in document order, each
/// given by its `property` and its `content`: the content of the first whose
/// property is `og:title`, if it has one.
pub open spec fn first_title(metas: Seq<Seq<Option<Seq<char>>>>) -> Option<Seq<char>>
    decreases metas.len(),
{
    if metas.len() == 0 {
        None
    } else if metas[0].len() == 2 && metas[0][0] == Some("og:title"@) {
        metas[0][1]
    } else {
        first_title(metas.drop_first())
    }
}

/// The archive link among the `a` elements of a page, in document order,
/// each given by its `href`: the first that begins with the trusted host.
pub open spec fn first_cdn_link(anchors: Seq<Seq<Option<Seq<char>>>>) -> Option<Seq<char>>
    decreases anchors.len(),
{
    if anchors.len() == 0 {
        None
    } else if anchors[0].len() == 1 && anchors[0][0] is Some && is_prefix(
        cdn_prefix(),
        anchors[0][0]->0,
    ) {
        anchors[0][0]
    } else {
        first_cdn_link(anchors.drop_first())
    }
}

/// The title of a page, given what was found for its `meta` elements.
pub open spec fn title_of(found: Option<Seq<Seq<Option<Seq<char>>>>>) -> Option<Seq<char>> {
    match found {
        Some(metas) => first_title(metas),
        None => None,
    }
}

/// The archive link of a page, given what was found for its `a` elements.
pub open spec fn cdn_link_of(found: Option<Seq<Seq<Option<Seq<char>>>>>) -> Option<Seq<char>> {
    match found {
        Some(anchors) => first_cdn_link(anchors),
        None => None,
    }
}

/// The title of the page `html`.
pub open spec fn page_title(html: Seq<char>) -> Option<Seq<char>> {
    title_of(selected_attributes(html, "meta"@, seq!["property"@, "content"@]))
}

/// The archive link of the page `html`.
pub open spec fn page_cdn_link(html: Seq<char>) -> Option<Seq<char>> {
    cdn_link_of(selected_attributes(html, "a"@, seq!["href"@]))
}

/// The title among the `meta` elements of a page, each given by its
/// `property` and its `content`.
pub fn title_among(metas: &Vec<Vec<Option<String>>>) -> (title: Option<String>)
    ensures
        title.deep_view() == first_title(metas.deep_view()),
{
    let mut i: usize = 0;
    assert(metas.deep_view().skip(0) == metas.deep_view());
    while i < metas.len()
        invariant
            i <= metas.len(),
            first_title(metas.deep_view()) == first_title(metas.deep_view().skip(i as int)),
        decreases metas.len() - i,
    {
        let meta = &metas[i];
        let ghost tail = metas.deep_view().skip(i as int);
        assert(tail[0] == meta.deep_view());
        if meta.len() == 2 {
            assert(meta.deep_view()[0] == meta[0].deep_view());
            assert(meta.deep_view()[1] == meta[1].deep_view());
            let is_title = match &meta[0] {
                Some(property) => same_text(property.as_str(), "og:title"),
                None => false,
            };
            if is_title {
                return meta[1].clone();
            }
        }
        assert(tail.drop_first() == metas.deep_view().skip(i + 1));
        i = i + 1;
    }
    None
}

/// The archive link among the `a` elements of a page, each given by its
/// `href`.
pub fn cdn_link_among(anchors: &Vec<Vec<Option<String>>>) -> (link: Option<String>)
    ensures
        link.deep_view() == first_cdn_link(anchors.deep_view()),
{
    let mut i: usize = 0;
    assert(anchors.deep_view().skip(0) == anchors.deep_view());
    while i < anchors.len()
        invariant
            i <= anchors.len(),
            first_cdn_link(anchors.deep_view()) == first_cdn_link(
                anchors.deep_view().skip(i as int),
            ),
        decreases anchors.len() - i,
    {
        let anchor = &anchors[i];
        let ghost tail = anchors.deep_view().skip(i as int);
        assert(tail[0] == anchor.deep_view());
        if anchor.len() == 1 {
            assert(anchor.deep_view()[0] == anchor[0].deep_view());
            match &anchor[0] {
                Some(href) => {
                    if starts_with(href.as_str(), "https://cdn.esoui.com") {
                        return Some(href.clone());
                    }
                },
                None => {},
            }
        }
        assert(tail.drop_first() == anchors.deep_view().skip(i + 1));
        i = i + 1;
    }
    None
}

/// The names `first` and, where there is one, `second`, as a list.
fn attribute_names(first: &str, second: Option<&str>) -> (names: Vec<String>)
    ensures
        names.deep_view() == match second {
            Some(s) => seq![first@, s@],
            None => seq![first@],
        },
{
    let mut names: Vec<String> = Vec::new();
    names.push(first.to_owned());
    match second {
        Some(s) => {
            names.push(s.to_owned());
            assert(names.deep_view() =~= seq![first@, s@]);
        },
        None => {
            assert(names.deep_view() =~= seq![first@]);
        },
    }
    names
}

/// The title of an addon's page: the `content` of its first `meta` element
/// whose `property` is `og:title`.
pub fn get_addon_name(html: &str) -> (title: Option<String>)
    ensures
        title.deep_view() == page_title(html@),
{
    let names = attribute_names("property", Some("content"));
    match select_attributes(html, "meta", &names) {
        Some(metas) => title_among(&metas),
        None => None,
    }
}

/// The link to an addon's archive: the `href` of the first `a` element of its
/// page that begins with the trusted host.
pub fn get_cdn_download_link(html: &str) -> (link: Option<String>)
    ensures
        link.deep_view() == page_cdn_link(html@),
{
    let names = attribute_names("href", None);
    match select_attributes(html, "a", &names) {
        Some(anchors) => cdn_link_among(&anchors),
        None => None,
    }
}

/// What a page resolves to: where the archive is, and what the addon is
/// called there.
#[derive(Debug, PartialEq, Eq)]
pub struct ResolvedDownload {
    pub download_url: String,
    pub display_name: String,
}

/// A `ResolvedDownload` with its strings as character sequences.
pub struct ResolvedDownloadView {
    pub download_url: Seq<char>,
    pub display_name: Seq<char>,
}

impl View for ResolvedDownload {
    type V = ResolvedDownloadView;

    open spec fn view(&self) -> ResolvedDownloadView {
        ResolvedDownloadView {
            download_url: self.download_url@,
            display_name: self.display_name@,
        }
    }
}

/// What the page at `page_url` resolves to, given its title and its archive
/// link. A page without an archive link is reported as such, whether it has
/// a title or not; a missing title is reported only where the link is there.
pub open spec fn resolution(
    page_url: Seq<char>,
    title: Option<Seq<char>>,
    link: Option<Seq<char>>,
) -> Result<ResolvedDownloadView, ErrorView> {
    match link {
        None => Err(ErrorView::LinkNotFound(page_url)),
        Some(download_url) => match title {
            None => Err(ErrorView::MetadataMissing(page_url)),
            Some(display_name) => Ok(
                ResolvedDownloadView { download_url: download_url, display_name: display_name },
            ),
        },
    }
}

/// What the page at `page_url` resolves to, given its title and its archive
/// link.
pub fn resolve_with(page_url: &str, title: Option<String>, link: Option<String>) -> (resolved:
    Result<ResolvedDownload, Error>)
    ensures
        match resolved {
            Ok(r) => resolution(page_url@, title.deep_view(), link.deep_view()) == Ok::<
                ResolvedDownloadView,
                ErrorView,
            >(r@),
            Err(e) => resolution(page_url@, title.deep_view(), link.deep_view()) == Err::<
                ResolvedDownloadView,
                ErrorView,
            >(e@),
        },
{
    match link {
        None => Err(Error::LinkNotFound(page_url.to_owned())),
        Some(download_url) => match title {
            None => Err(Error::MetadataMissing(page_url.to_owned())),
            Some(display_name) => Ok(
                ResolvedDownload { download_url: download_url, display_name: display_name },
            ),
        },
    }
}

/// A page without an archive link resolves to `LinkNotFound` with the page's
/// address, whatever else it holds.
pub proof fn lemma_missing_link_is_reported(page_url: Seq<char>, title: Option<Seq<char>>)
    ensures
        resolution(page_url, title, None) == Err::<ResolvedDownloadView, ErrorView>(
            ErrorView::LinkNotFound(page_url),
        ),
{
}

/// A page resolves exactly when it has both an archive link and a title, and
/// then to the two of them.
pub proof fn lemma_resolution_succeeds(
    page_url: Seq<char>,
    title: Option<Seq<char>>,
    link: Option<Seq<char>>,
)
    ensures
        resolution(page_url, title, link) is Ok <==> title is Some && link is Some,
        resolution(page_url, title, link) matches Ok(resolved) ==> Some(resolved.download_url)
            == link && Some(resolved.display_name) == title,
{
}

/// What the page at `page_url`, whose text is `html`, resolves to.
pub fn resolve_download(page_url: &str, html: &str) -> (resolved: Result<ResolvedDownload, Error>)
    ensures
        match resolved {
            Ok(r) => resolution(page_url@, page_title(html@), page_cdn_link(html@)) == Ok::<
                ResolvedDownloadView,
                ErrorView,
            >(r@),
            Err(e) => resolution(page_url@, page_title(html@), page_cdn_link(html@)) == Err::<
                ResolvedDownloadView,
                ErrorView,
            >(e@),
        },
{
    let title = get_addon_name(html);
    let link = get_cdn_download_link(html);
    resolve_with(page_url, title, link)
}

} // verus!
