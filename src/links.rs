//! Extraction of absolute web links from an HTML body: the `href` of anchors
//! and the `src` of images, in the order the parser created those elements,
//! when they begin with `http://` or `https://`.
use crate::text::{has_prefix, same_text, starts_with};
use vstd::prelude::*;

verus! {

/// What scraper selects in the document `html`: `None` when `selector` is not
/// a valid selector list, else one row per matched element, in the order the
/// parser created the elements (document order, but for elements the parser
/// moves, such as foster-parented ones), holding the element's local name
/// and, for each name of `names`, that attribute's value if the element has
/// it.
pub uninterp spec fn selected_attrs(
    html: Seq<char>,
    selector: Seq<char>,
    names: Seq<Seq<char>>,
) -> Option<Seq<(Seq<char>, Seq<Option<Seq<char>>>)>>;

/// Relies on scraper's `Html::parse_document`, `Selector::parse`,
/// `Html::select`, `Element::name` and `ElementRef::attr`: the rows of matched
/// elements, their names and the values of the named attributes, `None` when
/// the selector does not parse.
#[verifier::external_body]
fn select_attrs(
    html: &str,
    selector: &str,
    names: &Vec<String>,
) -> (r: Option<Vec<(String, Vec<Option<String>>)>>)
    ensures
        selected_attrs(html@, selector@, names.deep_view()) == r.deep_view(),
{
    let document = scraper::Html::parse_document(html);
    match scraper::Selector::parse(selector) {
        Ok(sel) => Some(
            document
                .select(&sel)
                .map(|e| {
                    let attrs = names.iter().map(|n| e.attr(n).map(|v| v.to_string()));
                    (e.value().name().to_string(), attrs.collect())
                })
                .collect(),
        ),
        Err(_) => None,
    }
}

/// The elements that may carry a link: anchors with an `href` and images
/// with a `src`, inside the body.
pub open spec fn link_selector() -> Seq<char> {
    "body a[href], body img[src]"@
}

/// `s` is an absolute web address.
pub open spec fn is_web_url(s: Seq<char>) -> bool {
    starts_with(s, "http://"@) || starts_with(s, "https://"@)
}

/// The link an element contributes, from its name and its (`href`, `src`)
/// values: an anchor's `href`, an image's `src`, and only when it is an
/// absolute web address.
pub open spec fn link_of(row: (Seq<char>, Seq<Option<Seq<char>>>)) -> Option<Seq<char>> {
    let (name, attrs) = row;
    if name == "a"@ && attrs.len() > 0 && attrs[0] is Some && is_web_url(attrs[0]->Some_0) {
        attrs[0]
    } else if name == "img"@ && attrs.len() > 1 && attrs[1] is Some && is_web_url(attrs[1]->Some_0) {
        attrs[1]
    } else {
        None
    }
}

/// The links of the rows, in order.
pub open spec fn links_of(rows: Seq<(Seq<char>, Seq<Option<Seq<char>>>)>) -> Seq<Seq<char>>
    decreases rows.len(),
{
    if rows.len() == 0 {
        Seq::empty()
    } else {
        let pre = links_of(rows.drop_last());
        match link_of(rows.last()) {
            Some(l) => pre.push(l),
            None => pre,
        }
    }
}

/// The links in the body `html`: nothing when the selection cannot be made.
pub open spec fn links_in(html: Seq<char>) -> Seq<Seq<char>> {
    match selected_attrs(html, link_selector(), seq!["href"@, "src"@]) {
        Some(rows) => links_of(rows),
        None => Seq::empty(),
    }
}

fn is_web_address(s: &str) -> (r: bool)
    ensures
        r == is_web_url(s@),
{
    has_prefix(s, "http://") || has_prefix(s, "https://")
}

/// The links of rows of element names and (`href`, `src`) values, one row
/// per element, in order.
pub fn links_from_attrs(rows: &Vec<(String, Vec<Option<String>>)>) -> (r: Vec<String>)
    ensures
        r.deep_view() == links_of(rows.deep_view()),
{
    let mut out: Vec<String> = Vec::new();
    let mut i: usize = 0;
    while i < rows.len()
        invariant
            i <= rows@.len(),
            out.deep_view() == links_of(rows.deep_view().take(i as int)),
        decreases rows.len() - i,
    {
        let name = &rows[i].0;
        let attrs = &rows[i].1;
        let ghost drow = rows.deep_view()[i as int];
        assert(name@ == drow.0 && attrs.deep_view() == drow.1);
        let mut link: Option<String> = None;
        if same_text(name.as_str(), "a") && attrs.len() > 0 && attrs[0].is_some() {
            let h = attrs[0].as_ref().unwrap();
            if is_web_address(h.as_str()) {
                link = Some(h.clone());
            }
        }
        if link.is_none() && same_text(name.as_str(), "img") && attrs.len() > 1 && attrs[1].is_some() {
            let s = attrs[1].as_ref().unwrap();
            if is_web_address(s.as_str()) {
                link = Some(s.clone());
            }
        }
        assert(link.deep_view() == link_of(drow));
        let ghost before = out.deep_view();
        match link {
            Some(l) => {
                out.push(l);
                assert(out.deep_view() =~= before.push(link_of(drow)->Some_0));
            },
            None => {},
        }
        assert(rows.deep_view().take(i + 1).drop_last() =~= rows.deep_view().take(i as int));
        i = i + 1;
    }
    assert(rows.deep_view().take(i as int) =~= rows.deep_view());
    out
}

/// The absolute web links referenced by the HTML body `html_content`: the
/// `href` of each anchor and the `src` of each image, in the order the parser
/// created those elements, duplicates kept, when they begin with `http://` or
/// `https://`.
pub fn find_https_links_with_parser(html_content: &str) -> (r: Vec<String>)
    ensures
        r.deep_view() == links_in(html_content@),
{
    let names: Vec<String> = vec!["href".to_owned(), "src".to_owned()];
    assert(names.deep_view() =~= seq!["href"@, "src"@]);
    match select_attrs(html_content, "body a[href], body img[src]", &names) {
        Some(rows) => links_from_attrs(&rows),
        None => Vec::new(),
    }
}

} // verus!
