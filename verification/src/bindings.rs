//! Contracts for the calls this library makes into `regex`, `url`,
//! `scraper`, `chrono`, `pathdiff` and `std::path`. Each trusted function
//! here makes one such call (for `scraper`, parsing the document and the
//! selectors and walking the selection); its `ensures` names the result,
//! and nothing further about the callee is claimed. The verified functions
//! beside them pick from those results what the library uses: the first of
//! the selected elements, texts present, and the like.

use vstd::prelude::*;
use scraper::{ElementRef, Html, Selector};

verus! {

/// Whether `pattern` compiles as a `regex::Regex`.
pub uninterp spec fn regex_is_valid(pattern: Seq<char>) -> bool;

/// Whether the compiled `pattern` matches somewhere in `text` (`Regex::is_match`).
pub uninterp spec fn regex_is_match(pattern: Seq<char>, text: Seq<char>) -> bool;

/// The text of capture group 1 of the first match of `pattern` in `text`
/// (`Regex::captures`, then group 1).
pub uninterp spec fn regex_group1(pattern: Seq<char>, text: Seq<char>) -> Option<Seq<char>>;

/// Compiles `pattern` with `regex::Regex::new` and tests it on `text` with
/// `is_match`; `None` when the pattern does not compile. The contract names
/// both outcomes and says nothing of regular-expression semantics.
#[verifier::external_body]
pub(crate) fn regex_match(pattern: &str, text: &str) -> (r: Option<bool>)
    ensures
        r is Some <==> regex_is_valid(pattern@),
        r matches Some(b) ==> b == regex_is_match(pattern@, text@),
{
    match regex::Regex::new(pattern) {
        Ok(re) => Some(re.is_match(text)),
        Err(_) => None,
    }
}

/// Compiles `pattern` with `regex::Regex::new`, takes the first match in
/// `text` with `captures`, and returns its group 1. `None` when the pattern
/// does not compile, nothing matches, or group 1 did not participate.
#[verifier::external_body]
pub(crate) fn regex_capture1(pattern: &str, text: &str) -> (r: Option<String>)
    ensures
        !regex_is_valid(pattern@) ==> r is None,
        regex_is_valid(pattern@) ==> match r {
            Some(s) => regex_group1(pattern@, text@) == Some(s@),
            None => regex_group1(pattern@, text@) is None,
        },
{
    match regex::Regex::new(pattern) {
        Ok(re) => match re.captures(text) {
            Some(caps) => match caps.get(1) {
                Some(m) => Some(m.as_str().to_string()),
                None => None,
            },
            None => None,
        },
        Err(_) => None,
    }
}

/// The host of `input` when `url::Url::parse` accepts it: `Some(host_str)`.
/// `None` when parsing fails.
pub uninterp spec fn url_host(input: Seq<char>) -> Option<Option<Seq<char>>>;

/// The path of `input` when `url::Url::parse` accepts it.
pub uninterp spec fn url_path(input: Seq<char>) -> Option<Seq<char>>;

/// The path segments of `input` when `url::Url::parse` accepts it
/// (`path_segments`, itself `None` for URLs that cannot be a base).
pub uninterp spec fn url_segments(input: Seq<char>) -> Option<Option<Seq<Seq<char>>>>;

/// `url::Url::parse(input)` then `host_str()`.
#[verifier::external_body]
pub(crate) fn parse_url_host(input: &str) -> (r: Option<Option<String>>)
    ensures
        match r {
            None => url_host(input@) is None,
            Some(None) => url_host(input@) == Some(None::<Seq<char>>),
            Some(Some(h)) => url_host(input@) == Some(Some(h@)),
        },
{
    match url::Url::parse(input) {
        Ok(u) => Some(u.host_str().map(|h| h.to_string())),
        Err(_) => None,
    }
}

/// `url::Url::parse(input)` then `path()`.
#[verifier::external_body]
pub(crate) fn parse_url_path(input: &str) -> (r: Option<String>)
    ensures
        match r {
            None => url_path(input@) is None,
            Some(p) => url_path(input@) == Some(p@),
        },
{
    match url::Url::parse(input) {
        Ok(u) => Some(u.path().to_string()),
        Err(_) => None,
    }
}

/// `url::Url::parse(input)` then `path_segments()`, each segment as a `String`.
#[verifier::external_body]
pub(crate) fn parse_url_segments(input: &str) -> (r: Option<Option<Vec<String>>>)
    ensures
        match r {
            None => url_segments(input@) is None,
            Some(None) => url_segments(input@) == Some(None::<Seq<Seq<char>>>),
            Some(Some(v)) => url_segments(input@) == Some(Some(v@.map_values(|s: String| s@))),
        },
{
    match url::Url::parse(input) {
        Ok(u) => Some(u.path_segments().map(|segs| segs.map(|s| s.to_string()).collect())),
        Err(_) => None,
    }
}

/// The path names below read a path with the separator rules of the
/// platform the library is built for (`/` on Unix, also `\` and drive
/// prefixes on Windows); each stands for one build target.
///
/// The final component of path `p` (`Path::file_name`).
pub uninterp spec fn path_file_name(p: Seq<char>) -> Option<Seq<char>>;

/// The extension of the final component of path `p` (`Path::extension`).
pub uninterp spec fn path_extension(p: Seq<char>) -> Option<Seq<char>>;

/// `base` with `rest` adjoined (`Path::join`).
pub uninterp spec fn path_join(base: Seq<char>, rest: Seq<char>) -> Seq<char>;

/// `p` with the extension of its final component replaced by `ext`
/// (`PathBuf::set_extension`).
pub uninterp spec fn path_with_extension(p: Seq<char>, ext: Seq<char>) -> Seq<char>;

/// `Path::new(p).file_name()`, as text.
#[verifier::external_body]
pub(crate) fn file_name_of(p: &str) -> (r: Option<String>)
    ensures
        match r {
            None => path_file_name(p@) is None,
            Some(n) => path_file_name(p@) == Some(n@),
        },
{
    std::path::Path::new(p).file_name().map(|n| n.to_string_lossy().to_string())
}

/// `Path::new(p).extension()`, as text.
#[verifier::external_body]
pub(crate) fn extension_of(p: &str) -> (r: Option<String>)
    ensures
        match r {
            None => path_extension(p@) is None,
            Some(e) => path_extension(p@) == Some(e@),
        },
{
    std::path::Path::new(p).extension().map(|e| e.to_string_lossy().to_string())
}

/// `Path::new(base).join(rest)`, as text.
#[verifier::external_body]
pub(crate) fn join_path(base: &str, rest: &str) -> (r: String)
    ensures
        r@ == path_join(base@, rest@),
{
    std::path::Path::new(base).join(rest).to_string_lossy().to_string()
}

/// `PathBuf::set_extension(ext)` on `p`, as text. An extension holding a
/// path separator makes `set_extension` panic, so `requires` leaves it out.
#[verifier::external_body]
pub(crate) fn with_extension(p: &str, ext: &str) -> (r: String)
    requires
        !ext@.contains('/'),
    ensures
        r@ == path_with_extension(p@, ext@),
{
    let mut buf = std::path::PathBuf::from(p);
    buf.set_extension(ext);
    buf.to_string_lossy().to_string()
}

/// Whether `c` is alphanumeric (`char::is_alphanumeric`: Unicode's
/// Alphabetic property or a numeric general category).
pub uninterp spec fn alphanumeric(c: char) -> bool;

/// `char::is_alphanumeric`. The contract names the result; the Unicode
/// tables behind it are not restated.
#[verifier::external_body]
pub(crate) fn is_alphanumeric(c: char) -> (r: bool)
    ensures
        r == alphanumeric(c),
{
    c.is_alphanumeric()
}

/// The parent of path `p` (`Path::parent`): `None` for an empty path or one
/// that ends in a root.
pub uninterp spec fn path_parent(p: Seq<char>) -> Option<Seq<char>>;

/// Whether two paths are equal as `Path` values (`Path::eq`, which compares
/// components).
pub uninterp spec fn path_equal(a: Seq<char>, b: Seq<char>) -> bool;

/// `Path::new(p).parent()`, as text.
#[verifier::external_body]
pub(crate) fn parent_of(p: &str) -> (r: Option<String>)
    ensures
        match r {
            None => path_parent(p@) is None,
            Some(d) => path_parent(p@) == Some(d@),
        },
{
    std::path::Path::new(p).parent().map(|d| d.to_string_lossy().to_string())
}

/// `Path::new(a) == Path::new(b)`.
#[verifier::external_body]
pub(crate) fn same_path(a: &str, b: &str) -> (r: bool)
    ensures
        r == path_equal(a@, b@),
{
    std::path::Path::new(a) == std::path::Path::new(b)
}

/// The strftime formats the library stamps its output with; `chrono` formats
/// each of them without error.
pub open spec fn known_time_format(fmt: Seq<char>) -> bool {
    ||| fmt == "%Y%m%d_%H%M%S"@
    ||| fmt == "%Y%m%d%H%M%S"@
    ||| fmt == "%Y-%m-%d %H:%M:%S UTC"@
    ||| fmt == "%Y-%m-%d %H:%M:%S"@
    ||| fmt == "%Y-%m-%d %H:%M"@
}

/// `chrono::Utc::now().format(fmt)`, rendered. It reads the clock, so the
/// contract promises nothing of the text. A format that `chrono` cannot
/// render makes the rendering panic; `requires` accepts only known ones.
#[verifier::external_body]
pub(crate) fn utc_now_formatted(fmt: &str) -> (r: String)
    requires
        known_time_format(fmt@),
{
    chrono::Utc::now().format(fmt).to_string()
}

/// `chrono::Utc::now().to_rfc3339()`. It reads the clock, so the contract
/// promises nothing of the text.
#[verifier::external_body]
pub(crate) fn utc_now_rfc3339() -> (r: String) {
    chrono::Utc::now().to_rfc3339()
}

/// For each element of the HTML document `html` that CSS `selector`
/// selects, in document order, its `href` attribute (`None` for an element
/// without one); `None` when the selector does not parse.
pub uninterp spec fn html_href_attrs(html: Seq<char>, selector: Seq<char>) -> Option<Seq<Option<Seq<char>>>>;

/// The texts present in `s`, in order.
pub open spec fn present_texts(s: Seq<Option<Seq<char>>>) -> Seq<Seq<char>>
    decreases s.len(),
{
    if s.len() == 0 {
        Seq::empty()
    } else {
        match s.last() {
            Some(t) => present_texts(s.drop_last()).push(t),
            None => present_texts(s.drop_last()),
        }
    }
}

/// The `href` attributes of the selected elements that have one, in
/// document order; `None` when the selector does not parse.
pub open spec fn html_hrefs(html: Seq<char>, selector: Seq<char>) -> Option<Seq<Seq<char>>> {
    match html_href_attrs(html, selector) {
        Some(a) => Some(present_texts(a)),
        None => None,
    }
}

/// For each element of `html` that `selector` selects, in document order,
/// the text nodes inside it (`ElementRef::text`); `None` when the selector
/// does not parse.
pub uninterp spec fn html_text_nodes(html: Seq<char>, selector: Seq<char>) -> Option<Seq<Seq<Seq<char>>>>;

/// For each element of `html` that `selector` selects, in document order,
/// its whole text; `None` when the selector does not parse.
pub uninterp spec fn html_whole_texts(html: Seq<char>, selector: Seq<char>) -> Option<Seq<Seq<char>>>;

/// For each element of `html` that `outer` selects, in document order, the
/// whole text of each element inside it that `inner` selects (`None` inside
/// when `inner` does not parse); `None` when `outer` does not parse.
pub uninterp spec fn html_inner_text_groups(html: Seq<char>, outer: Seq<char>, inner: Seq<char>) -> Option<
    Seq<Option<Seq<Seq<char>>>>,
>;

/// For each element of `html` that `outer` selects, and each element inside
/// it that `mid` selects, the group that `html_inner_text_groups` takes of
/// it for `inner`; `None` when `outer` or `mid` does not parse.
pub uninterp spec fn html_nested_text_groups(
    html: Seq<char>,
    outer: Seq<char>,
    mid: Seq<char>,
    inner: Seq<char>,
) -> Option<Seq<Seq<Option<Seq<Seq<char>>>>>>;

/// For each group of text nodes, its first one.
pub open spec fn first_nodes(g: Seq<Seq<Seq<char>>>) -> Seq<Option<Seq<char>>> {
    Seq::new(g.len(), |k: int| if g[k].len() > 0 { Some(g[k][0]) } else { None })
}

/// For each element of `html` that `selector` selects, its first text node;
/// `None` when the selector does not parse.
pub open spec fn html_first_texts(html: Seq<char>, selector: Seq<char>) -> Option<Seq<Option<Seq<char>>>> {
    match html_text_nodes(html, selector) {
        Some(g) => Some(first_nodes(g)),
        None => None,
    }
}

/// The whole text of the first element of `html` that `selector` selects
/// (`None` inside when nothing is selected); `None` when the selector does
/// not parse.
pub open spec fn html_first_element_text(html: Seq<char>, selector: Seq<char>) -> Option<Option<Seq<char>>> {
    match html_whole_texts(html, selector) {
        Some(t) => Some(if t.len() > 0 { Some(t[0]) } else { None }),
        None => None,
    }
}

/// `scraper`: parses `html` as a document (`Html::parse_document`), parses
/// `selector` (`Selector::parse`), and takes the `href` attribute of each
/// selected element. The contract names the result.
#[verifier::external_body]
pub(crate) fn select_href_attrs(html: &str, selector: &str) -> (r: Option<Vec<Option<String>>>)
    ensures
        match r {
            None => html_href_attrs(html@, selector@) is None,
            Some(v) => html_href_attrs(html@, selector@) == Some(v@.map_values(|o: Option<String>| opt_text(o))),
        },
{
    let document = Html::parse_document(html);
    match Selector::parse(selector) {
        Ok(sel) => Some(document.select(&sel).map(|e| e.value().attr("href").map(|h| h.to_string())).collect()),
        Err(_) => None,
    }
}

/// The `href` attributes of the elements that `selector` selects, skipping
/// elements without one; `None` when the selector does not parse.
pub(crate) fn select_hrefs(html: &str, selector: &str) -> (r: Option<Vec<String>>)
    ensures
        match r {
            None => html_hrefs(html@, selector@) is None,
            Some(v) => html_hrefs(html@, selector@) == Some(v@.map_values(|s: String| s@)),
        },
{
    match select_href_attrs(html, selector) {
        None => None,
        Some(attrs) => {
            let ghost av = attrs@.map_values(|o: Option<String>| opt_text(o));
            let mut r: Vec<String> = Vec::new();
            let mut i: usize = 0;
            while i < attrs.len()
                invariant
                    i <= attrs@.len(),
                    av == attrs@.map_values(|o: Option<String>| opt_text(o)),
                    r@.map_values(|s: String| s@) == present_texts(av.take(i as int)),
                decreases attrs@.len() - i,
            {
                assert(av.take(i + 1).drop_last() =~= av.take(i as int));
                assert(av.take(i + 1).last() == opt_text(attrs@[i as int]));
                match &attrs[i] {
                    Some(h) => {
                        let ghost rb = r@;
                        r.push(h.clone());
                        assert(r@.map_values(|s: String| s@) =~= rb.map_values(|s: String| s@).push(h@));
                    },
                    None => {},
                }
                i = i + 1;
            }
            assert(av.take(attrs@.len() as int) =~= av);
            Some(r)
        },
    }
}

/// `scraper`: for each element of the document `html` that `selector`
/// selects, the items of `ElementRef::text`. The contract names the result.
#[verifier::external_body]
pub(crate) fn select_text_nodes(html: &str, selector: &str) -> (r: Option<Vec<Vec<String>>>)
    ensures
        match r {
            None => html_text_nodes(html@, selector@) is None,
            Some(v) => html_text_nodes(html@, selector@) == Some(
                v@.map_values(|w: Vec<String>| w@.map_values(|s: String| s@)),
            ),
        },
{
    let document = Html::parse_document(html);
    match Selector::parse(selector) {
        Ok(sel) => Some(document.select(&sel).map(|e| e.text().map(|t| t.to_string()).collect()).collect()),
        Err(_) => None,
    }
}

/// For each element of the document `html` that `selector` selects, its
/// first text node.
pub(crate) fn select_first_texts(html: &str, selector: &str) -> (r: Option<Vec<Option<String>>>)
    ensures
        match r {
            None => html_first_texts(html@, selector@) is None,
            Some(v) => html_first_texts(html@, selector@) == Some(
                v@.map_values(|o: Option<String>| match o {
                    Some(s) => Some(s@),
                    None => None,
                }),
            ),
        },
{
    match select_text_nodes(html, selector) {
        None => None,
        Some(groups) => {
            let ghost gv = groups@.map_values(|w: Vec<String>| w@.map_values(|s: String| s@));
            let mut r: Vec<Option<String>> = Vec::new();
            let mut i: usize = 0;
            while i < groups.len()
                invariant
                    i <= groups@.len(),
                    gv == groups@.map_values(|w: Vec<String>| w@.map_values(|s: String| s@)),
                    r@.len() == i,
                    forall|k: int| 0 <= k < i ==> #[trigger] opt_text(r@[k]) == first_nodes(gv)[k],
                decreases groups@.len() - i,
            {
                let g: &Vec<String> = &groups[i];
                if g.len() > 0 {
                    let t = g[0].clone();
                    assert(t@ == gv[i as int][0]);
                    r.push(Some(t));
                } else {
                    r.push(None);
                }
                i = i + 1;
            }
            let ghost rv = r@.map_values(|o: Option<String>| match o {
                Some(s) => Some(s@),
                None => None,
            });
            assert forall|k: int| 0 <= k < rv.len() implies #[trigger] rv[k] == first_nodes(gv)[k] by {
                assert(opt_text(r@[k]) == first_nodes(gv)[k]);
            }
            assert(rv =~= first_nodes(gv));
            Some(r)
        },
    }
}

/// `scraper`: the concatenated `ElementRef::text` of each element of the
/// document `html` that `selector` selects. The contract names the result.
#[verifier::external_body]
pub(crate) fn select_whole_texts(html: &str, selector: &str) -> (r: Option<Vec<String>>)
    ensures
        match r {
            None => html_whole_texts(html@, selector@) is None,
            Some(v) => html_whole_texts(html@, selector@) == Some(v@.map_values(|s: String| s@)),
        },
{
    let document = Html::parse_document(html);
    match Selector::parse(selector) {
        Ok(sel) => Some(document.select(&sel).map(|e| e.text().collect::<String>()).collect()),
        Err(_) => None,
    }
}

/// The whole text of the first element of the document `html` that
/// `selector` selects.
pub(crate) fn select_first_element_text(html: &str, selector: &str) -> (r: Option<Option<String>>)
    ensures
        match r {
            None => html_first_element_text(html@, selector@) is None,
            Some(None) => html_first_element_text(html@, selector@) == Some(None::<Seq<char>>),
            Some(Some(t)) => html_first_element_text(html@, selector@) == Some(Some(t@)),
        },
{
    match select_whole_texts(html, selector) {
        None => None,
        Some(texts) => {
            if texts.len() > 0 {
                let t = texts[0].clone();
                assert(t@ == texts@.map_values(|s: String| s@)[0]);
                Some(Some(t))
            } else {
                Some(None)
            }
        },
    }
}

/// A text that may be missing, taken by its view.
pub open spec fn opt_text(o: Option<String>) -> Option<Seq<char>> {
    match o {
        Some(s) => Some(s@),
        None => None,
    }
}

/// Two texts that may be missing, taken by their views.
pub open spec fn text_pair(p: (Option<String>, Option<String>)) -> (Option<Seq<char>>, Option<Seq<char>>) {
    (opt_text(p.0), opt_text(p.1))
}

/// The `href` of the first element of `html` that `selector` selects; `None`
/// when the selector does not parse, nothing is selected or the first
/// selected element has no `href`.
pub open spec fn html_first_href(html: Seq<char>, selector: Seq<char>) -> Option<Seq<char>> {
    match html_href_attrs(html, selector) {
        Some(a) => if a.len() > 0 {
            a[0]
        } else {
            None
        },
        None => None,
    }
}

/// A list of texts that may be missing, taken by its view.
pub open spec fn opt_texts(o: Option<Vec<String>>) -> Option<Seq<Seq<char>>> {
    match o {
        Some(v) => Some(v@.map_values(|s: String| s@)),
        None => None,
    }
}

/// The first of a list of texts that may be missing.
pub open spec fn head_text(o: Option<Seq<Seq<char>>>) -> Option<Seq<char>> {
    match o {
        Some(t) => if t.len() > 0 {
            Some(t[0])
        } else {
            None
        },
        None => None,
    }
}

/// The first texts of two lists of groups, side by side.
pub open spec fn paired(a: Seq<Option<Seq<Seq<char>>>>, b: Seq<Option<Seq<Seq<char>>>>) -> Seq<
    (Option<Seq<char>>, Option<Seq<char>>),
> {
    Seq::new(if a.len() < b.len() { a.len() } else { b.len() }, |k: int| (head_text(a[k]), head_text(b[k])))
}

/// `paired`, row by row.
pub open spec fn nested_paired(a: Seq<Seq<Option<Seq<Seq<char>>>>>, b: Seq<Seq<Option<Seq<Seq<char>>>>>) -> Seq<
    Seq<(Option<Seq<char>>, Option<Seq<char>>)>,
> {
    Seq::new(if a.len() < b.len() { a.len() } else { b.len() }, |j: int| paired(a[j], b[j]))
}

/// The whole text of each element selected by `inner` inside the first
/// element that `outer` selects; empty when either selector does not parse
/// or `outer` selects nothing.
pub open spec fn html_texts_in_first(html: Seq<char>, outer: Seq<char>, inner: Seq<char>) -> Seq<Seq<char>> {
    match html_inner_text_groups(html, outer, inner) {
        Some(g) => if g.len() > 0 {
            match g[0] {
                Some(t) => t,
                None => Seq::empty(),
            }
        } else {
            Seq::empty()
        },
        None => Seq::empty(),
    }
}

/// For each element that `outer` selects, the whole text of the first
/// element inside it that `first` selects and of the first that `second`
/// selects (`None` when nothing, or a selector that does not parse); `None`
/// when `outer` does not parse.
pub open spec fn html_text_pairs(html: Seq<char>, outer: Seq<char>, first: Seq<char>, second: Seq<char>) -> Option<
    Seq<(Option<Seq<char>>, Option<Seq<char>>)>,
> {
    match (html_inner_text_groups(html, outer, first), html_inner_text_groups(html, outer, second)) {
        (Some(a), Some(b)) => Some(paired(a, b)),
        _ => None,
    }
}

/// For each element that `outer` selects, and each element inside it that
/// `mid` selects, the pair that `html_text_pairs` takes of it; `None` when
/// `outer` or `mid` does not parse.
pub open spec fn html_nested_text_pairs(
    html: Seq<char>,
    outer: Seq<char>,
    mid: Seq<char>,
    first: Seq<char>,
    second: Seq<char>,
) -> Option<Seq<Seq<(Option<Seq<char>>, Option<Seq<char>>)>>> {
    match (html_nested_text_groups(html, outer, mid, first), html_nested_text_groups(html, outer, mid, second)) {
        (Some(a), Some(b)) => Some(nested_paired(a, b)),
        _ => None,
    }
}

/// The `href` attribute of the first element of the document `html` that
/// `selector` selects.
pub(crate) fn select_first_href(html: &str, selector: &str) -> (r: Option<String>)
    ensures
        opt_text(r) == html_first_href(html@, selector@),
{
    match select_href_attrs(html, selector) {
        Some(attrs) => {
            if attrs.len() > 0 {
                let first = attrs[0].clone();
                assert(opt_text(first) == opt_text(attrs@[0]));
                first
            } else {
                None
            }
        },
        None => None,
    }
}

/// `scraper`: for each element of the document `html` that `outer` selects,
/// the concatenated `ElementRef::text` of each element inside it that
/// `inner` selects. The contract names the result.
#[verifier::external_body]
pub(crate) fn select_inner_text_groups(html: &str, outer: &str, inner: &str) -> (r: Option<Vec<Option<Vec<String>>>>)
    ensures
        match r {
            None => html_inner_text_groups(html@, outer@, inner@) is None,
            Some(v) => html_inner_text_groups(html@, outer@, inner@) == Some(
                v@.map_values(|o: Option<Vec<String>>| opt_texts(o)),
            ),
        },
{
    let document = Html::parse_document(html);
    let o = Selector::parse(outer).ok()?;
    let i = Selector::parse(inner).ok();
    Some(document.select(&o).map(|e| i.as_ref().map(|s| e.select(s).map(|x| x.text().collect::<String>()).collect())).collect())
}

/// `scraper`: for each element of the document `html` that `outer` selects,
/// and each element inside it that `mid` selects, the concatenated
/// `ElementRef::text` of each element inside that one that `inner` selects.
/// The contract names the result.
#[verifier::external_body]
pub(crate) fn select_nested_text_groups(html: &str, outer: &str, mid: &str, inner: &str) -> (r: Option<
    Vec<Vec<Option<Vec<String>>>>,
>)
    ensures
        match r {
            None => html_nested_text_groups(html@, outer@, mid@, inner@) is None,
            Some(v) => html_nested_text_groups(html@, outer@, mid@, inner@) == Some(
                v@.map_values(|w: Vec<Option<Vec<String>>>| w@.map_values(|o: Option<Vec<String>>| opt_texts(o))),
            ),
        },
{
    let document = Html::parse_document(html);
    let (o, m) = (Selector::parse(outer).ok()?, Selector::parse(mid).ok()?);
    let i = Selector::parse(inner).ok();
    let texts = |x: ElementRef| i.as_ref().map(|s| x.select(s).map(|y| y.text().collect::<String>()).collect());
    Some(document.select(&o).map(|e| e.select(&m).map(&texts).collect()).collect())
}

/// The first of a list of texts that may be missing.
fn head_of(o: &Option<Vec<String>>) -> (r: Option<String>)
    ensures
        opt_text(r) == head_text(opt_texts(*o)),
{
    match o {
        Some(v) => if v.len() > 0 {
            let t = v[0].clone();
            assert(t@ == v@.map_values(|s: String| s@)[0]);
            Some(t)
        } else {
            None
        },
        None => None,
    }
}

/// The first texts of two lists of groups, side by side.
fn pair_up(a: &Vec<Option<Vec<String>>>, b: &Vec<Option<Vec<String>>>) -> (r: Vec<(Option<String>, Option<String>)>)
    ensures
        r@.map_values(|p: (Option<String>, Option<String>)| text_pair(p)) == paired(
            a@.map_values(|o: Option<Vec<String>>| opt_texts(o)),
            b@.map_values(|o: Option<Vec<String>>| opt_texts(o)),
        ),
{
    let ghost av = a@.map_values(|o: Option<Vec<String>>| opt_texts(o));
    let ghost bv = b@.map_values(|o: Option<Vec<String>>| opt_texts(o));
    let n: usize = if a.len() < b.len() { a.len() } else { b.len() };
    let mut r: Vec<(Option<String>, Option<String>)> = Vec::new();
    let mut k: usize = 0;
    while k < n
        invariant
            k <= n,
            n == (if a@.len() < b@.len() { a@.len() } else { b@.len() }),
            av == a@.map_values(|o: Option<Vec<String>>| opt_texts(o)),
            bv == b@.map_values(|o: Option<Vec<String>>| opt_texts(o)),
            r@.len() == k,
            forall|m: int| 0 <= m < k ==> #[trigger] text_pair(r@[m]) == paired(av, bv)[m],
        decreases n - k,
    {
        let x = head_of(&a[k]);
        let y = head_of(&b[k]);
        r.push((x, y));
        k = k + 1;
    }
    assert(r@.map_values(|p: (Option<String>, Option<String>)| text_pair(p)) =~= paired(av, bv));
    r
}

/// For each element of the document `html` that `outer` selects, the whole
/// text of the first element inside it that `first` selects and of the first
/// that `second` selects.
pub(crate) fn select_text_pairs(html: &str, outer: &str, first: &str, second: &str) -> (r: Option<
    Vec<(Option<String>, Option<String>)>,
>)
    ensures
        match r {
            None => html_text_pairs(html@, outer@, first@, second@) is None,
            Some(v) => html_text_pairs(html@, outer@, first@, second@) == Some(v@.map_values(|p| text_pair(p))),
        },
{
    let a = select_inner_text_groups(html, outer, first);
    let b = select_inner_text_groups(html, outer, second);
    match (a, b) {
        (Some(a), Some(b)) => Some(pair_up(&a, &b)),
        _ => None,
    }
}

/// For each element of the document `html` that `outer` selects, and each
/// element inside it that `mid` selects, the pair that `select_text_pairs`
/// takes of it.
pub(crate) fn select_nested_text_pairs(html: &str, outer: &str, mid: &str, first: &str, second: &str) -> (r: Option<
    Vec<Vec<(Option<String>, Option<String>)>>,
>)
    ensures
        match r {
            None => html_nested_text_pairs(html@, outer@, mid@, first@, second@) is None,
            Some(v) => html_nested_text_pairs(html@, outer@, mid@, first@, second@) == Some(
                v@.map_values(|w: Vec<(Option<String>, Option<String>)>| w@.map_values(|p| text_pair(p))),
            ),
        },
{
    let ra = select_nested_text_groups(html, outer, mid, first);
    let rb = select_nested_text_groups(html, outer, mid, second);
    match (ra, rb) {
        (Some(a), Some(b)) => {
            let ghost av = a@.map_values(
                |w: Vec<Option<Vec<String>>>| w@.map_values(|o: Option<Vec<String>>| opt_texts(o)),
            );
            let ghost bv = b@.map_values(
                |w: Vec<Option<Vec<String>>>| w@.map_values(|o: Option<Vec<String>>| opt_texts(o)),
            );
            let n: usize = if a.len() < b.len() { a.len() } else { b.len() };
            let mut r: Vec<Vec<(Option<String>, Option<String>)>> = Vec::new();
            let mut j: usize = 0;
            while j < n
                invariant
                    j <= n,
                    n == (if a@.len() < b@.len() { a@.len() } else { b@.len() }),
                    av == a@.map_values(
                        |w: Vec<Option<Vec<String>>>| w@.map_values(|o: Option<Vec<String>>| opt_texts(o)),
                    ),
                    bv == b@.map_values(
                        |w: Vec<Option<Vec<String>>>| w@.map_values(|o: Option<Vec<String>>| opt_texts(o)),
                    ),
                    r@.len() == j,
                    forall|m: int| #![trigger r@[m]] 0 <= m < j ==> r@[m]@.map_values(
                        |p: (Option<String>, Option<String>)| text_pair(p),
                    ) == nested_paired(av, bv)[m],
                decreases n - j,
            {
                let row = pair_up(&a[j], &b[j]);
                r.push(row);
                j = j + 1;
            }
            assert(r@.map_values(
                |w: Vec<(Option<String>, Option<String>)>| w@.map_values(|p: (Option<String>, Option<String>)| text_pair(p)),
            ) =~= nested_paired(av, bv));
            Some(r)
        },
        _ => None,
    }
}

/// Inside the first element of the document `html` that `outer` selects, the
/// whole text of each element that `inner` selects.
pub(crate) fn select_texts_in_first(html: &str, outer: &str, inner: &str) -> (r: Vec<String>)
    ensures
        r@.map_values(|s: String| s@) == html_texts_in_first(html@, outer@, inner@),
{
    match select_inner_text_groups(html, outer, inner) {
        Some(groups) => {
            if groups.len() > 0 {
                match &groups[0] {
                    Some(first) => {
                        assert(opt_texts(groups@[0]) == Some(first@.map_values(|s: String| s@)));
                        let mut r: Vec<String> = Vec::new();
                        let mut k: usize = 0;
                        while k < first.len()
                            invariant
                                k <= first@.len(),
                                r@.map_values(|s: String| s@) == first@.map_values(|s: String| s@).take(k as int),
                            decreases first@.len() - k,
                        {
                            let c = first[k].clone();
                            assert(c@ == first@[k as int]@);
                            let ghost rb = r@;
                            r.push(c);
                            assert(r@.map_values(|s: String| s@) =~= rb.map_values(|s: String| s@).push(c@));
                            assert(first@.map_values(|s: String| s@).take(k + 1) =~= first@.map_values(
                                |s: String| s@,
                            ).take(k as int).push(c@));
                            k = k + 1;
                        }
                        assert(first@.map_values(|s: String| s@).take(first@.len() as int) =~= first@.map_values(
                            |s: String| s@,
                        ));
                        r
                    },
                    None => Vec::new(),
                }
            } else {
                Vec::new()
            }
        },
        None => Vec::new(),
    }
}

/// The capture groups after group 0 of the first match of `pattern` in
/// `text` (`Regex::captures`), each `None` when it did not take part; `None`
/// when the pattern does not compile or nothing matches.
pub uninterp spec fn regex_captures(pattern: Seq<char>, text: Seq<char>) -> Option<Seq<Option<Seq<char>>>>;

/// Compiles `pattern` with `regex::Regex::new` and returns the groups 1, 2,
/// ... of the first match in `text`. The contract names the result.
#[verifier::external_body]
pub(crate) fn regex_groups(pattern: &str, text: &str) -> (r: Option<Vec<Option<String>>>)
    ensures
        match r {
            None => regex_captures(pattern@, text@) is None,
            Some(v) => regex_captures(pattern@, text@) == Some(v@.map_values(|o: Option<String>| opt_text(o))),
        },
{
    let caps = regex::Regex::new(pattern).ok()?.captures(text)?;
    Some(caps.iter().skip(1).map(|m| m.map(|m| m.as_str().to_string())).collect())
}

/// The instant, in nanoseconds since the Unix epoch, of `text` read as a UTC
/// date and time in the strftime format `fmt`; `None` when it does not parse
/// or lies outside what an `i64` of nanoseconds holds.
pub uninterp spec fn utc_parsed(text: Seq<char>, fmt: Seq<char>) -> Option<i64>;

/// `chrono::NaiveDateTime::parse_from_str(text, fmt)`, taken as UTC, in
/// nanoseconds since the epoch. The contract names the result.
#[verifier::external_body]
pub(crate) fn parse_utc(text: &str, fmt: &str) -> (r: Option<i64>)
    ensures
        r == utc_parsed(text@, fmt@),
{
    chrono::NaiveDateTime::parse_from_str(text, fmt).ok()?.and_utc().timestamp_nanos_opt()
}

/// The instant `nanos` nanoseconds after the Unix epoch, in UTC, rendered in
/// the strftime format `fmt`.
pub uninterp spec fn utc_formatted(nanos: i64, fmt: Seq<char>) -> Seq<char>;

/// `chrono::DateTime::from_timestamp_nanos(nanos).format(fmt)`, rendered.
/// A format that `chrono` cannot render makes the rendering panic;
/// `requires` accepts only known ones. The contract names the result.
#[verifier::external_body]
pub(crate) fn format_utc(nanos: i64, fmt: &str) -> (r: String)
    requires
        known_time_format(fmt@),
    ensures
        r@ == utc_formatted(nanos, fmt@),
{
    chrono::DateTime::from_timestamp_nanos(nanos).format(fmt).to_string()
}

/// The path that leads from `base` to `path` (`pathdiff::diff_paths`),
/// displayed; `None` when there is none.
pub uninterp spec fn path_relative(path: Seq<char>, base: Seq<char>) -> Option<Seq<char>>;

/// `pathdiff::diff_paths(path, base)`, displayed. The contract names the result.
#[verifier::external_body]
pub(crate) fn relative_path(path: &str, base: &str) -> (r: Option<String>)
    ensures
        opt_text(r) == path_relative(path@, base@),
{
    pathdiff::diff_paths(path, base).map(|p| p.display().to_string())
}

} // verus!
