//! PyPI user profiles: the user a profile URL names, the package links found
//! on PyPI's pages, and the profile summary.

use vstd::prelude::*;
use crate::bindings::{
    html_hrefs, html_first_texts, html_first_element_text, select_hrefs, select_first_texts,
    select_first_element_text,
};
use crate::error::{ProcessorError, Result, detail};
use crate::order::{sort_by_text, sorted_text, text_keyed};
use crate::text::{
    chars_of, chars_eq, contains, has_sub, has_prefix, starts_with, second_piece, split_second,
    string_of, lowercase_of, to_lowercase, push_dec, dec, trim, trim_chars,
};

verus! {

/// `s` without its trailing `/` characters (`trim_end_matches('/')`).
pub open spec fn without_trailing_slashes(s: Seq<char>) -> Seq<char>
    decreases s.len(),
{
    if s.len() > 0 && s.last() == '/' {
        without_trailing_slashes(s.drop_last())
    } else {
        s
    }
}

/// The user a profile URL names: the text after `/user/` up to the next one,
/// without trailing slashes, when that is not empty.
pub open spec fn profile_user(url: Seq<char>) -> Option<Seq<char>> {
    match second_piece(url, "/user/"@) {
        Some(p) => if without_trailing_slashes(p).len() > 0 {
            Some(without_trailing_slashes(p))
        } else {
            None
        },
        None => None,
    }
}

/// PyPI user profile processor.
pub struct PyPiProfileProcessor;

impl PyPiProfileProcessor {
    /// Creates a new PyPI profile processor.
    pub fn new() -> (p: Self) {
        PyPiProfileProcessor
    }

    /// The user of a profile URL like `https://pypi.org/user/name/`.
    pub fn extract_username(&self, url: &str) -> (r: Result<String>)
        ensures
            match profile_user(url@) {
                Some(u) => r matches Ok(s) && s@ == u,
                None => r matches Err(e) && e is Message && detail(e) == "Invalid PyPI profile URL: "@ + url@,
            },
    {
        match split_second(&chars_of(url), &chars_of("/user/")) {
            Some(p) => {
                let mut n = p.len();
                assert(p@.take(p@.len() as int) =~= p@);
                while n > 0 && p[n - 1] == '/'
                    invariant
                        n <= p@.len(),
                        without_trailing_slashes(p@) == without_trailing_slashes(p@.take(n as int)),
                    decreases n,
                {
                    assert(p@.take(n as int).drop_last() =~= p@.take(n - 1));
                    n = n - 1;
                }
                assert(without_trailing_slashes(p@.take(n as int)) == p@.take(n as int));
                if n > 0 {
                    let mut s = String::new();
                    let mut i: usize = 0;
                    while i < n
                        invariant
                            i <= n <= p@.len(),
                            s@ == p@.take(i as int),
                        decreases n - i,
                    {
                        crate::text::push_char(&mut s, p[i]);
                        assert(p@.take(i + 1) =~= p@.take(i as int).push(p@[i as int]));
                        i = i + 1;
                    }
                    return Ok(s);
                }
            },
            None => {},
        }
        let mut m = String::from_str("Invalid PyPI profile URL: ");
        m.append(url);
        Err(ProcessorError::Message(m))
    }

    /// The processor's name.
    pub fn name(&self) -> (r: &'static str)
        ensures
            r@ == "PyPI Profile Processor"@,
    {
        "PyPI Profile Processor"
    }

    /// Whether `url` is a PyPI profile URL.
    pub fn accepts(&self, url: &str) -> (b: bool)
        ensures
            b == has_sub(url@, "pypi.org/user/"@),
    {
        contains(&chars_of(url), &chars_of("pypi.org/user/"))
    }

    /// Validates a profile URL: it must name a user.
    pub fn validate(&self, url: &str) -> (r: Result<()>)
        ensures
            profile_user(url@) is Some ==> r is Ok,
            profile_user(url@) is None ==> (r matches Err(e) && e is Message && detail(e)
                == "Invalid PyPI profile URL: "@ + url@),
    {
        match self.extract_username(url) {
            Ok(_) => Ok(()),
            Err(e) => Err(e),
        }
    }
}

/// A link of a PyPI page as an absolute URL.
pub open spec fn absolute_link(href: Seq<char>) -> Seq<char> {
    if has_prefix(href, "http"@) {
        href
    } else {
        "https://pypi.org"@ + href
    }
}

/// Executable `absolute_link`.
pub fn absolute_pypi_link(href: &str) -> (r: String)
    ensures
        r@ == absolute_link(href@),
{
    if starts_with(&chars_of(href), &chars_of("http")) {
        String::from_str(href)
    } else {
        let mut s = String::from_str("https://pypi.org");
        s.append(href);
        s
    }
}

/// The links as absolute URLs, in order.
pub open spec fn absolute_links(hs: Seq<Seq<char>>) -> Seq<Seq<char>> {
    hs.map_values(|h: Seq<char>| absolute_link(h))
}

/// The texts of `s` sorted, each kept once (`sort` then `dedup`).
pub open spec fn sorted_unique(s: Seq<Seq<char>>) -> Seq<Seq<char>> {
    unique_runs(sorted_text(s.map_values(|x: Seq<char>| (x, ())), false).map_values(|e: (Seq<char>, ())| e.0))
}

/// `s` with each run of equal neighbours reduced to one (`dedup`).
pub open spec fn unique_runs(s: Seq<Seq<char>>) -> Seq<Seq<char>>
    decreases s.len(),
{
    if s.len() == 0 {
        s
    } else if s.len() >= 2 && s[s.len() - 2] == s.last() {
        unique_runs(s.drop_last())
    } else {
        unique_runs(s.drop_last()).push(s.last())
    }
}

/// Sorts texts and drops repeated neighbours.
pub fn sort_unique(v: Vec<String>) -> (r: Vec<String>)
    ensures
        r@.map_values(|s: String| s@) == sorted_unique(v@.map_values(|s: String| s@)),
{
    let ghost vv = v@.map_values(|s: String| s@);
    let mut keyed: Vec<(String, ())> = Vec::new();
    let mut v = v;
    let mut rest: Vec<String> = Vec::new();
    let mut i: usize = 0;
    let n = v.len();
    while i < n
        invariant
            i <= n == v@.len(),
            vv == v@.map_values(|s: String| s@),
            text_keyed(keyed@) == vv.take(i as int).map_values(|x: Seq<char>| (x, ())),
        decreases n - i,
    {
        let ghost kb = keyed@;
        keyed.push((v[i].clone(), ()));
        assert(text_keyed(keyed@) =~= text_keyed(kb).push((vv[i as int], ())));
        assert(vv.take(i + 1) =~= vv.take(i as int).push(vv[i as int]));
        assert(text_keyed(keyed@) =~= vv.take(i + 1).map_values(|x: Seq<char>| (x, ())));
        i = i + 1;
    }
    assert(vv.take(n as int) =~= vv);
    let sorted = sort_by_text(keyed, false);
    let ghost sv = sorted_text(vv.map_values(|x: Seq<char>| (x, ())), false).map_values(|e: (Seq<char>, ())| e.0);
    assert(text_keyed(sorted@).map_values(|e: (Seq<char>, ())| e.0) =~= sv);
    let mut r: Vec<String> = Vec::new();
    let mut k: usize = 0;
    while k < sorted.len()
        invariant
            k <= sorted@.len() == sv.len(),
            forall|m: int| 0 <= m < sorted@.len() ==> #[trigger] sorted@[m].0@ == sv[m],
            r@.map_values(|s: String| s@) == unique_runs(sv.take(k as int)),
            k > 0 ==> r@.len() > 0 && r@.last()@ == sv[k - 1],
        decreases sorted@.len() - k,
    {
        assert(sv.take(k + 1).drop_last() =~= sv.take(k as int));
        assert(sv.take(k + 1).last() == sv[k as int]);
        let dup = k > 0 && chars_eq(&chars_of(sorted[k - 1].0.as_str()), &chars_of(sorted[k].0.as_str()));
        if !dup {
            let ghost rb = r@;
            r.push(sorted[k].0.clone());
            assert(r@.map_values(|s: String| s@) =~= rb.map_values(|s: String| s@).push(sv[k as int]));
        } else {
            assert(sv.take(k + 1)[k - 1] == sv[k - 1]);
        }
        k = k + 1;
    }
    assert(sv.take(sv.len() as int) =~= sv);
    r
}

/// The selectors tried, in order, for package links on a search page.
pub open spec fn search_selectors() -> Seq<Seq<char>> {
    seq![
        ".package-snippet a[href^='/project/']"@,
        "a.package-snippet"@,
        ".search-results a[href^='/project/']"@,
        "ul.unstyled li a[href^='/project/']"@,
    ]
}

/// The links that the first selector finding any gives, from position `k` on.
pub open spec fn first_links(html: Seq<char>, sels: Seq<Seq<char>>) -> Seq<Seq<char>>
    decreases sels.len(),
{
    if sels.len() == 0 {
        Seq::empty()
    } else {
        match html_hrefs(html, sels[0]) {
            Some(hs) => if hs.len() > 0 {
                absolute_links(hs)
            } else {
                first_links(html, sels.drop_first())
            },
            None => first_links(html, sels.drop_first()),
        }
    }
}

/// The links among `hs` that lead to a project.
pub open spec fn project_links(hs: Seq<Seq<char>>) -> Seq<Seq<char>>
    decreases hs.len(),
{
    if hs.len() == 0 {
        Seq::empty()
    } else if has_sub(hs.last(), "/project/"@) {
        project_links(hs.drop_last()).push(absolute_link(hs.last()))
    } else {
        project_links(hs.drop_last())
    }
}

/// The package links of a search results page: those of the first selector
/// that finds any, else every link to a project; sorted, each once.
pub open spec fn search_package_urls(html: Seq<char>) -> Seq<Seq<char>> {
    let found = first_links(html, search_selectors());
    let all = if found.len() > 0 {
        found
    } else {
        match html_hrefs(html, "a[href]"@) {
            Some(hs) => project_links(hs),
            None => Seq::empty(),
        }
    };
    sorted_unique(all)
}

fn absolute_all(hs: &Vec<String>) -> (r: Vec<String>)
    ensures
        r@.map_values(|s: String| s@) == absolute_links(hs@.map_values(|s: String| s@)),
{
    let mut r: Vec<String> = Vec::new();
    let mut i: usize = 0;
    while i < hs.len()
        invariant
            i <= hs@.len(),
            r@.map_values(|s: String| s@) == absolute_links(hs@.map_values(|s: String| s@)).take(i as int),
        decreases hs@.len() - i,
    {
        let ghost rb = r@;
        r.push(absolute_pypi_link(hs[i].as_str()));
        assert(r@.map_values(|s: String| s@) =~= rb.map_values(|s: String| s@).push(absolute_link(hs@[i as int]@)));
        assert(r@.map_values(|s: String| s@) =~= absolute_links(hs@.map_values(|s: String| s@)).take(i + 1));
        i = i + 1;
    }
    assert(absolute_links(hs@.map_values(|s: String| s@)).take(hs@.len() as int) =~= absolute_links(
        hs@.map_values(|s: String| s@),
    ));
    r
}

fn links_of_first_selector(html: &str) -> (r: Vec<String>)
    ensures
        r@.map_values(|s: String| s@) == first_links(html@, search_selectors()),
{
    let sels: Vec<&str> = vec![
        ".package-snippet a[href^='/project/']",
        "a.package-snippet",
        ".search-results a[href^='/project/']",
        "ul.unstyled li a[href^='/project/']",
    ];
    let ghost all_sels = search_selectors();
    let mut k: usize = 0;
    assert(all_sels.skip(0) =~= all_sels);
    while k < sels.len()
        invariant
            k <= sels@.len() == 4,
            all_sels == search_selectors(),
            forall|m: int| 0 <= m < 4 ==> #[trigger] sels@[m]@ == all_sels[m],
            first_links(html@, all_sels) == first_links(html@, all_sels.skip(k as int)),
        decreases sels@.len() - k,
    {
        assert(all_sels.skip(k as int)[0] == all_sels[k as int]);
        assert(all_sels.skip(k as int).drop_first() =~= all_sels.skip(k + 1));
        match select_hrefs(html, sels[k]) {
            Some(hs) => {
                if hs.len() > 0 {
                    return absolute_all(&hs);
                }
            },
            None => {},
        }
        k = k + 1;
    }
    Vec::new()
}

/// The package links of a PyPI search results page.
pub fn extract_package_urls_from_search(html: &str) -> (r: Vec<String>)
    ensures
        r@.map_values(|s: String| s@) == search_package_urls(html@),
{
    let found = links_of_first_selector(html);
    let all = if found.len() > 0 {
        found
    } else {
        match select_hrefs(html, "a[href]") {
            Some(hs) => {
                let mut r: Vec<String> = Vec::new();
                let mut i: usize = 0;
                while i < hs.len()
                    invariant
                        i <= hs@.len(),
                        r@.map_values(|s: String| s@) == project_links(hs@.map_values(|s: String| s@).take(i as int)),
                    decreases hs@.len() - i,
                {
                    let ghost hv = hs@.map_values(|s: String| s@);
                    assert(hv.take(i + 1).drop_last() =~= hv.take(i as int));
                    assert(hv.take(i + 1).last() == hs@[i as int]@);
                    if contains(&chars_of(hs[i].as_str()), &chars_of("/project/")) {
                        let ghost rb = r@;
                        r.push(absolute_pypi_link(hs[i].as_str()));
                        assert(r@.map_values(|s: String| s@) =~= rb.map_values(|s: String| s@).push(
                            absolute_link(hs@[i as int]@),
                        ));
                    }
                    i = i + 1;
                }
                assert(hs@.map_values(|s: String| s@).take(hs@.len() as int) =~= hs@.map_values(|s: String| s@));
                r
            },
            None => Vec::new(),
        }
    };
    sort_unique(all)
}

/// The summary file of a profile: the user, the source, and the package URLs.
pub open spec fn profile_summary_text(user: Seq<char>, urls: Seq<Seq<char>>) -> Seq<char> {
    "PyPI Profile: "@ + user + "\n"@ + "Source: https://pypi.org/user/"@ + user + "/\n"@ + "Total Packages: "@
        + dec(urls.len()) + "\n\n"@ + "Packages:\n"@ + url_lines(urls)
}

/// A `- url` line for each URL.
pub open spec fn url_lines(urls: Seq<Seq<char>>) -> Seq<char>
    decreases urls.len(),
{
    if urls.len() == 0 {
        Seq::empty()
    } else {
        url_lines(urls.drop_last()) + "- "@ + urls.last() + "\n"@
    }
}

/// The summary file of the profile of `user` listing `urls`.
pub fn profile_summary(user: &str, urls: &Vec<String>) -> (r: String)
    ensures
        r@ == profile_summary_text(user@, urls@.map_values(|s: String| s@)),
{
    let mut out = String::from_str("PyPI Profile: ");
    out.append(user);
    out.append("\n");
    out.append("Source: https://pypi.org/user/");
    out.append(user);
    out.append("/\n");
    out.append("Total Packages: ");
    push_dec(&mut out, urls.len() as u64);
    out.append("\n\n");
    out.append("Packages:\n");
    let ghost start = out@;
    let ghost uv = urls@.map_values(|s: String| s@);
    let mut i: usize = 0;
    assert(uv.take(0) =~= Seq::<Seq<char>>::empty());
    while i < urls.len()
        invariant
            i <= urls@.len(),
            uv == urls@.map_values(|s: String| s@),
            out@ == start + url_lines(uv.take(i as int)),
        decreases urls@.len() - i,
    {
        assert(uv.take(i + 1).drop_last() =~= uv.take(i as int));
        assert(uv.take(i + 1).last() == urls@[i as int]@);
        out.append("- ");
        out.append(urls[i].as_str());
        out.append("\n");
        i = i + 1;
    }
    assert(uv.take(urls@.len() as int) =~= uv);
    out
}

/// The project URL of package `name`.
pub fn project_url(name: &str) -> (r: String)
    ensures
        r@ == "https://pypi.org/project/"@ + name@ + "/"@,
{
    let mut s = String::from_str("https://pypi.org/project/");
    s.append(name);
    s.append("/");
    s
}

/// The packages that the naming heuristic picks from the link texts of
/// PyPI's simple index: those whose lowercase name holds the lowercase user.
pub open spec fn named_after(texts: Seq<Option<Seq<char>>>, user: Seq<char>) -> Seq<Seq<char>>
    decreases texts.len(),
{
    if texts.len() == 0 {
        Seq::empty()
    } else {
        match texts.last() {
            Some(t) => if has_sub(lowercase_of(t), lowercase_of(user)) {
                named_after(texts.drop_last(), user).push("https://pypi.org/project/"@ + t + "/"@)
            } else {
                named_after(texts.drop_last(), user)
            },
            None => named_after(texts.drop_last(), user),
        }
    }
}

/// The project URLs of packages in the simple index page `html` named after
/// `user`; none when the page does not mention the user at all.
pub fn packages_named_after(html: &str, user: &str) -> (r: Vec<String>)
    ensures
        !has_sub(html@, lowercase_of(user@)) ==> r@.len() == 0,
        has_sub(html@, lowercase_of(user@)) ==> match html_first_texts(html@, "a"@) {
            Some(ts) => r@.map_values(|s: String| s@) == named_after(ts, user@),
            None => r@.len() == 0,
        },
{
    let lu = to_lowercase(user);
    let lc = chars_of(lu.as_str());
    if !contains(&chars_of(html), &lc) {
        return Vec::new();
    }
    match select_first_texts(html, "a") {
        Some(ts) => {
            let ghost tv = ts@.map_values(|o: Option<String>| match o {
                Some(s) => Some(s@),
                None => None,
            });
            let mut r: Vec<String> = Vec::new();
            let mut i: usize = 0;
            while i < ts.len()
                invariant
                    i <= ts@.len(),
                    lc@ == lowercase_of(user@),
                    tv == ts@.map_values(|o: Option<String>| match o {
                        Some(s) => Some(s@),
                        None => None,
                    }),
                    r@.map_values(|s: String| s@) == named_after(tv.take(i as int), user@),
                decreases ts@.len() - i,
            {
                assert(tv.take(i + 1).drop_last() =~= tv.take(i as int));
                assert(tv.take(i + 1).last() == tv[i as int]);
                match &ts[i] {
                    Some(t) => {
                        if contains(&chars_of(to_lowercase(t.as_str()).as_str()), &lc) {
                            let ghost rb = r@;
                            r.push(project_url(t.as_str()));
                            assert(r@.map_values(|s: String| s@) =~= rb.map_values(|s: String| s@).push(
                                "https://pypi.org/project/"@ + t@ + "/"@,
                            ));
                        }
                    },
                    None => {},
                }
                i = i + 1;
            }
            assert(tv.take(ts@.len() as int) =~= tv);
            r
        },
        None => Vec::new(),
    }
}

/// Processes a profile; there is nothing to do, so it always succeeds.
pub fn process_profile() -> (r: Result<()>)
    ensures
        r is Ok,
{
    Ok(())
}

/// The selectors and labels of the facts read from a package page.
pub open spec fn page_facts() -> Seq<(Seq<char>, Seq<char>)> {
    seq![
        (".package-description__summary"@, "Description"@),
        (".package-header__version"@, "Version"@),
        (".package-header__name"@, "Name"@),
        (".package-header__license"@, "License"@),
        (".github-repo-info"@, "GitHub"@),
        (".package-description__maintainers"@, "Maintainers"@),
    ]
}

/// The fact lines for the selectors of `facts`: the trimmed text of the
/// first element each selects, when it is not empty.
pub open spec fn fact_lines(html: Seq<char>, facts: Seq<(Seq<char>, Seq<char>)>) -> Seq<char>
    decreases facts.len(),
{
    if facts.len() == 0 {
        Seq::empty()
    } else {
        fact_lines(html, facts.drop_last()) + match html_first_element_text(html, facts.last().0) {
            Some(Some(t)) => if trim(t).len() > 0 {
                facts.last().1 + ": "@ + trim(t) + "\n"@
            } else {
                Seq::empty()
            },
            _ => Seq::empty(),
        }
    }
}

/// The description of a package page `html` found at `url` for a profile.
pub open spec fn package_page_text(html: Seq<char>, url: Seq<char>, name: Seq<char>) -> Seq<char> {
    "PyPI Package: "@ + name + "\n"@ + "Source: "@ + url + "\n"@ + "Profile Package: true\n"@ + fact_lines(html, page_facts())
}

/// Describes a package page found for a profile: name, source, and the facts
/// the page shows.
pub fn extract_package_info(html: &str, url: &str, custom_name: &str) -> (r: String)
    ensures
        r@ == package_page_text(html@, url@, custom_name@),
{
    let facts: Vec<(&str, &str)> = vec![
        (".package-description__summary", "Description"),
        (".package-header__version", "Version"),
        (".package-header__name", "Name"),
        (".package-header__license", "License"),
        (".github-repo-info", "GitHub"),
        (".package-description__maintainers", "Maintainers"),
    ];
    let ghost fv = page_facts();
    let mut out = String::from_str("PyPI Package: ");
    out.append(custom_name);
    out.append("\n");
    out.append("Source: ");
    out.append(url);
    out.append("\n");
    out.append("Profile Package: true\n");
    let ghost start = out@;
    let mut k: usize = 0;
    assert(fv.take(0) =~= Seq::<(Seq<char>, Seq<char>)>::empty());
    while k < facts.len()
        invariant
            k <= facts@.len() == 6,
            fv == page_facts(),
            forall|m: int| 0 <= m < 6 ==> #[trigger] facts@[m].0@ == fv[m].0 && facts@[m].1@ == fv[m].1,
            out@ == start + fact_lines(html@, fv.take(k as int)),
        decreases facts@.len() - k,
    {
        assert(fv.take(k + 1).drop_last() =~= fv.take(k as int));
        assert(fv.take(k + 1).last() == fv[k as int]);
        match select_first_element_text(html, facts[k].0) {
            Some(Some(t)) => {
                let tt = trim_chars(&chars_of(t.as_str()));
                if tt.len() > 0 {
                    out.append(facts[k].1);
                    out.append(": ");
                    crate::text::push_chars(&mut out, &tt);
                    out.append("\n");
                }
            },
            _ => {},
        }
        k = k + 1;
    }
    assert(fv.take(6) =~= fv);
    out
}

} // verus!
