//! Go packages: the module a `pkg.go.dev` URL names, what a package page
//! shows, and the text written about a package.

use vstd::prelude::*;
use crate::error::{ProcessorError, Result, detail};
use crate::json::{at, str_of, u64_of, str_field, u64_field, Json};
use crate::text::{
    chars_of, string_of, trim, trim_chars, has_prefix, has_sub, starts_with, contains, replace_all,
    replace_all_of, before_char, before_char_of, split_of, split_char, lines, lines_of, dec, push_dec,
    has_suffix, ends_with, without_trailing, without_trailing_of,
};
use crate::processors::crates::{last_part, last_part_of};
use crate::processors::github_report::bullet_lines;
use crate::bindings::{
    opt_text, text_pair,
    select_first_element_text, html_first_element_text, select_first_href, html_first_href,
    select_texts_in_first, html_texts_in_first, select_text_pairs, html_text_pairs,
    select_nested_text_pairs, html_nested_text_pairs, select_hrefs, html_hrefs,
};

verus! {

/// A Go module with its metadata.
#[derive(Debug)]
pub struct GoModule {
    /// Name of the Go module
    pub name: String,
    /// Version of the Go module
    pub version: String,
    /// Required Go language version
    pub go_version: String,
    /// List of module dependencies
    pub dependencies: Vec<String>,
}

impl GoModule {
    /// The module `module` at the last version the module proxy's
    /// version list names; an error when the list names none.
    pub fn from_version_list(module: &str, versions: &str) -> (r: Result<GoModule>)
        ensures
            lines_of(versions@).len() == 0 <==> r is Err,
            r matches Err(e) ==> e is Message && detail(e) == "No versions found"@,
            r matches Ok(m) ==> m.name@ == module@ && m.version@ == lines_of(versions@).last()
                && m.go_version@ == "1.16"@ && m.dependencies@.len() == 0,
    {
        let ls = lines(&chars_of(versions));
        if ls.len() == 0 {
            return Err(ProcessorError::new("No versions found"));
        }
        Ok(GoModule {
            name: String::from_str(module),
            version: string_of(&ls[ls.len() - 1]),
            go_version: String::from_str("1.16"),
            dependencies: Vec::new(),
        })
    }
}

/// Processor for Go packages on `pkg.go.dev`.
#[derive(Debug, Clone)]
pub struct GoProcessor;

impl GoProcessor {
    /// Creates a new Go processor.
    pub fn new() -> (r: Result<GoProcessor>)
        ensures
            r is Ok,
    {
        Ok(GoProcessor)
    }

    /// The processor's name.
    pub fn name(&self) -> (r: &'static str)
        ensures
            r@ == "go"@,
    {
        "go"
    }

    /// Whether `url` mentions `pkg.go.dev`.
    pub fn accepts(&self, url: &str) -> (b: bool)
        ensures
            b == has_sub(url@, "pkg.go.dev"@),
    {
        contains(&chars_of(url), &chars_of("pkg.go.dev"))
    }

    /// Rejects a URL that does not mention `pkg.go.dev`.
    pub fn validate(&self, url: &str) -> (r: Result<()>)
        ensures
            has_sub(url@, "pkg.go.dev"@) <==> r is Ok,
            r matches Err(e) ==> e is Message && detail(e) == "Not a valid pkg.go.dev URL: "@ + url@,
    {
        if !self.accepts(url) {
            let mut m = String::from_str("Not a valid pkg.go.dev URL: ");
            m.append(url);
            return Err(ProcessorError::Message(m));
        }
        Ok(())
    }
}

/// The package path a trimmed `pkg.go.dev` URL names: both site prefixes
/// removed wherever they occur, then anything from the first `#`, then from
/// the first `?`.
pub open spec fn go_path_of(t: Seq<char>) -> Seq<char> {
    before_char(
        before_char(replace_all(replace_all(t, "https://pkg.go.dev/"@, Seq::empty()), "http://pkg.go.dev/"@, Seq::empty()), '#'),
        '?',
    )
}

/// Whether a trimmed URL starts with one of the two `pkg.go.dev` prefixes.
pub open spec fn is_go_url(t: Seq<char>) -> bool {
    has_prefix(t, "https://pkg.go.dev/"@) || has_prefix(t, "http://pkg.go.dev/"@)
}

/// The package path of a `pkg.go.dev` URL. Surrounding whitespace is
/// ignored; a URL on another site, or one that names no path, is refused.
pub fn extract_package_path(url: &str) -> (r: Result<String>)
    ensures
        !is_go_url(trim(url@)) ==> (r matches Err(e) && e is Message && detail(e)
            == "Not a valid pkg.go.dev URL: "@ + trim(url@)),
        is_go_url(trim(url@)) && go_path_of(trim(url@)).len() == 0 ==> (r matches Err(e) && e is Message
            && detail(e) == "Empty package path"@),
        is_go_url(trim(url@)) && go_path_of(trim(url@)).len() > 0 ==> (r matches Ok(p) && p@ == go_path_of(
            trim(url@),
        )),
{
    let t = trim_chars(&chars_of(url));
    let https = chars_of("https://pkg.go.dev/");
    let http = chars_of("http://pkg.go.dev/");
    if !starts_with(&t, &https) && !starts_with(&t, &http) {
        let mut m = String::from_str("Not a valid pkg.go.dev URL: ");
        m.append(string_of(&t).as_str());
        return Err(ProcessorError::Message(m));
    }
    let empty: Vec<char> = Vec::new();
    proof {
        reveal_strlit("https://pkg.go.dev/");
        reveal_strlit("http://pkg.go.dev/");
    }
    assert(empty@ =~= Seq::<char>::empty());
    let p = replace_all_of(&replace_all_of(&t, &https, &empty), &http, &empty);
    let p = before_char_of(&before_char_of(&p, '#'), '?');
    if p.len() == 0 {
        return Err(ProcessorError::new("Empty package path"));
    }
    Ok(string_of(&p))
}

/// The name of the package at `path`: its last `/`-separated part.
pub fn go_package_name(path: &str) -> (r: String)
    ensures
        r@ == last_part(path@),
{
    last_part_of(path)
}


/// `prefix`, the trimmed text and `suffix`, when there is a text.
pub open spec fn headed(prefix: Seq<char>, o: Option<Seq<char>>, suffix: Seq<char>) -> Seq<char> {
    match o {
        Some(t) => prefix + trim(t) + suffix,
        None => Seq::empty(),
    }
}

fn push_headed(out: &mut String, prefix: &str, o: &Option<String>, suffix: &str)
    ensures
        final(out)@ == old(out)@ + headed(prefix@, opt_text(*o), suffix@),
{
    match o {
        Some(t) => {
            out.append(prefix);
            out.append(string_of(&trim_chars(&chars_of(t.as_str()))).as_str());
            out.append(suffix);
            assert(out@ =~= old(out)@ + headed(prefix@, opt_text(*o), suffix@));
        },
        None => {
            assert(out@ =~= old(out)@ + headed(prefix@, opt_text(*o), suffix@));
        },
    }
}

/// The lines written of one method of a type: its header and its doc.
pub open spec fn method_text(p: (Option<Seq<char>>, Option<Seq<char>>)) -> Seq<char> {
    headed("#### Method: `"@, p.0, "`\n\n"@) + headed(Seq::empty(), p.1, "\n\n"@)
}

/// The lines written of a type's methods, in order.
pub open spec fn methods_text(ms: Seq<(Option<Seq<char>>, Option<Seq<char>>)>) -> Seq<char>
    decreases ms.len(),
{
    if ms.len() == 0 {
        Seq::empty()
    } else {
        methods_text(ms.drop_last()) + method_text(ms.last())
    }
}

/// The lines written of one function: its signature and its doc.
pub open spec fn function_text(p: (Option<Seq<char>>, Option<Seq<char>>)) -> Seq<char> {
    headed("### Function: `"@, p.0, "`\n\n"@) + headed(Seq::empty(), p.1, "\n\n"@)
}

/// The lines written of the package's functions, in order.
pub open spec fn functions_text(fs: Seq<(Option<Seq<char>>, Option<Seq<char>>)>) -> Seq<char>
    decreases fs.len(),
{
    if fs.len() == 0 {
        Seq::empty()
    } else {
        functions_text(fs.drop_last()) + function_text(fs.last())
    }
}

fn push_pair_lines(out: &mut String, p: &(Option<String>, Option<String>), open: &str, close: &str)
    ensures
        final(out)@ == old(out)@ + headed(open@, opt_text(p.0), close@) + headed(Seq::empty(), opt_text(p.1), "\n\n"@),
{
    push_headed(out, open, &p.0, close);
    proof {
        reveal_strlit("");
    }
    push_headed(out, "", &p.1, "\n\n");
    assert(out@ =~= old(out)@ + headed(open@, opt_text(p.0), close@) + headed(Seq::empty(), opt_text(p.1), "\n\n"@));
}

fn push_methods(out: &mut String, ms: &Vec<(Option<String>, Option<String>)>)
    ensures
        final(out)@ == old(out)@ + methods_text(ms@.map_values(|p| text_pair(p))),
{
    let ghost start = out@;
    let ghost views = ms@.map_values(|p| text_pair(p));
    let mut k: usize = 0;
    assert(views.take(0) =~= Seq::<(Option<Seq<char>>, Option<Seq<char>>)>::empty());
    while k < ms.len()
        invariant
            k <= ms@.len(),
            views == ms@.map_values(|p| text_pair(p)),
            out@ == start + methods_text(views.take(k as int)),
        decreases ms@.len() - k,
    {
        assert(views.take(k + 1).drop_last() =~= views.take(k as int));
        assert(views.take(k + 1).last() == text_pair(ms@[k as int]));
        push_pair_lines(out, &ms[k], "#### Method: `", "`\n\n");
        k = k + 1;
    }
    assert(views.take(ms@.len() as int) =~= views);
}

fn push_functions(out: &mut String, fs: &Vec<(Option<String>, Option<String>)>)
    ensures
        final(out)@ == old(out)@ + functions_text(fs@.map_values(|p| text_pair(p))),
{
    let ghost start = out@;
    let ghost views = fs@.map_values(|p| text_pair(p));
    let mut k: usize = 0;
    assert(views.take(0) =~= Seq::<(Option<Seq<char>>, Option<Seq<char>>)>::empty());
    while k < fs.len()
        invariant
            k <= fs@.len(),
            views == fs@.map_values(|p| text_pair(p)),
            out@ == start + functions_text(views.take(k as int)),
        decreases fs@.len() - k,
    {
        assert(views.take(k + 1).drop_last() =~= views.take(k as int));
        assert(views.take(k + 1).last() == text_pair(fs@[k as int]));
        push_pair_lines(out, &fs[k], "### Function: `", "`\n\n");
        k = k + 1;
    }
    assert(views.take(fs@.len() as int) =~= views);
}

/// The methods found for the type at index `i`.
pub open spec fn methods_of(
    methods: Option<Seq<Seq<(Option<Seq<char>>, Option<Seq<char>>)>>>,
    i: int,
) -> Seq<(Option<Seq<char>>, Option<Seq<char>>)> {
    match methods {
        Some(m) => if 0 <= i < m.len() {
            m[i]
        } else {
            Seq::empty()
        },
        None => Seq::empty(),
    }
}

/// The lines written of the first `n` types: each one's header and
/// description, then its methods.
pub open spec fn types_text(
    ts: Seq<(Option<Seq<char>>, Option<Seq<char>>)>,
    methods: Option<Seq<Seq<(Option<Seq<char>>, Option<Seq<char>>)>>>,
    n: nat,
) -> Seq<char>
    decreases n,
{
    if n == 0 {
        Seq::empty()
    } else {
        let i = n - 1;
        types_text(ts, methods, (n - 1) as nat) + headed("### Type: "@, ts[i].0, "\n\n"@) + headed(
            Seq::empty(),
            ts[i].1,
            "\n\n"@,
        ) + methods_text(methods_of(methods, i))
    }
}

/// The types part of the API documentation: nothing when the type selector
/// does not parse, else each type and a blank line when there was one.
pub open spec fn types_section(
    types: Option<Seq<(Option<Seq<char>>, Option<Seq<char>>)>>,
    methods: Option<Seq<Seq<(Option<Seq<char>>, Option<Seq<char>>)>>>,
) -> Seq<char> {
    match types {
        None => Seq::empty(),
        Some(ts) => types_text(ts, methods, ts.len()) + if ts.len() > 0 {
            "\n"@
        } else {
            Seq::empty()
        },
    }
}

/// The functions part of the API documentation: nothing when the function
/// selector does not parse, else each function, or a note that none was found.
pub open spec fn functions_section(fns: Option<Seq<(Option<Seq<char>>, Option<Seq<char>>)>>) -> Seq<char> {
    match fns {
        None => Seq::empty(),
        Some(fs) => functions_text(fs) + if fs.len() == 0 {
            "No functions found in documentation.\n"@
        } else {
            Seq::empty()
        },
    }
}

/// The API documentation written of a package page, from what its type,
/// method and function selectors found.
pub open spec fn api_documentation_text(
    types: Option<Seq<(Option<Seq<char>>, Option<Seq<char>>)>>,
    methods: Option<Seq<Seq<(Option<Seq<char>>, Option<Seq<char>>)>>>,
    fns: Option<Seq<(Option<Seq<char>>, Option<Seq<char>>)>>,
) -> Seq<char> {
    types_section(types, methods) + functions_section(fns)
}


/// The pairs found by a selector, taken by their views.
pub open spec fn pairs_view(o: Option<Vec<(Option<String>, Option<String>)>>) -> Option<
    Seq<(Option<Seq<char>>, Option<Seq<char>>)>,
> {
    match o {
        Some(v) => Some(v@.map_values(|p| text_pair(p))),
        None => None,
    }
}

/// The nested pairs found by a selector, taken by their views.
pub open spec fn nested_pairs_view(o: Option<Vec<Vec<(Option<String>, Option<String>)>>>) -> Option<
    Seq<Seq<(Option<Seq<char>>, Option<Seq<char>>)>>,
> {
    match o {
        Some(v) => Some(v@.map_values(|w: Vec<(Option<String>, Option<String>)>| w@.map_values(|p| text_pair(p)))),
        None => None,
    }
}

fn push_types(
    out: &mut String,
    ts: &Vec<(Option<String>, Option<String>)>,
    methods: &Option<Vec<Vec<(Option<String>, Option<String>)>>>,
)
    ensures
        final(out)@ == old(out)@ + types_text(ts@.map_values(|p| text_pair(p)), nested_pairs_view(*methods), ts@.len()),
{
    let ghost start = out@;
    let ghost views = ts@.map_values(|p| text_pair(p));
    let ghost mv = nested_pairs_view(*methods);
    let mut k: usize = 0;
    while k < ts.len()
        invariant
            k <= ts@.len(),
            views == ts@.map_values(|p| text_pair(p)),
            mv == nested_pairs_view(*methods),
            out@ == start + types_text(views, mv, k as nat),
        decreases ts@.len() - k,
    {
        assert(views[k as int] == text_pair(ts@[k as int]));
        let ghost before = out@;
        push_pair_lines(out, &ts[k], "### Type: ", "\n\n");
        let ghost mid = out@;
        match methods {
            Some(m) => {
                if k < m.len() {
                    push_methods(out, &m[k]);
                } else {
                    assert(methods_text(Seq::empty()) =~= Seq::<char>::empty());
                    assert(out@ =~= mid + methods_text(methods_of(mv, k as int)));
                }
            },
            None => {
                assert(methods_text(Seq::empty()) =~= Seq::<char>::empty());
                assert(out@ =~= mid + methods_text(methods_of(mv, k as int)));
            },
        }
        assert(out@ =~= start + types_text(views, mv, (k + 1) as nat));
        k = k + 1;
    }
}

/// The API documentation of a package page, from what the type, method and
/// function selectors found (`None` where a selector did not parse).
pub fn api_documentation(
    types: &Option<Vec<(Option<String>, Option<String>)>>,
    methods: &Option<Vec<Vec<(Option<String>, Option<String>)>>>,
    fns: &Option<Vec<(Option<String>, Option<String>)>>,
) -> (r: String)
    ensures
        r@ == api_documentation_text(pairs_view(*types), nested_pairs_view(*methods), pairs_view(*fns)),
{
    let mut out = String::new();
    match types {
        Some(ts) => {
            push_types(&mut out, ts, methods);
            if ts.len() > 0 {
                out.append("\n");
            }
        },
        None => {},
    }
    let ghost mid = out@;
    assert(mid =~= types_section(pairs_view(*types), nested_pairs_view(*methods)));
    match fns {
        Some(fs) => {
            push_functions(&mut out, fs);
            if fs.len() == 0 {
                out.append("No functions found in documentation.\n");
            }
        },
        None => {},
    }
    assert(out@ =~= mid + functions_section(pairs_view(*fns)));
    out
}

/// The examples written of a package page: each code block, numbered from 1.
pub open spec fn examples_text(codes: Seq<Seq<char>>) -> Seq<char>
    decreases codes.len(),
{
    if codes.len() == 0 {
        Seq::empty()
    } else {
        examples_text(codes.drop_last()) + "### Example "@ + dec(codes.len()) + "\n\n"@ + "```go\n"@
            + codes.last() + "\n```\n\n"@
    }
}

/// The examples of a package page, from the code blocks of its example section.
pub fn examples_of(codes: &Vec<String>) -> (r: String)
    ensures
        r@ == examples_text(codes@.map_values(|s: String| s@)),
{
    let ghost views = codes@.map_values(|s: String| s@);
    let mut out = String::new();
    let mut k: usize = 0;
    assert(views.take(0) =~= Seq::<Seq<char>>::empty());
    while k < codes.len()
        invariant
            k <= codes@.len(),
            views == codes@.map_values(|s: String| s@),
            out@ == examples_text(views.take(k as int)),
        decreases codes@.len() - k,
    {
        assert(views.take(k + 1).drop_last() =~= views.take(k as int));
        assert(views.take(k + 1).last() == codes@[k as int]@);
        let ghost before = out@;
        out.append("### Example ");
        push_dec(&mut out, (k + 1) as u64);
        out.append("\n\n");
        out.append("```go\n");
        out.append(codes[k].as_str());
        out.append("\n```\n\n");
        assert(out@ =~= examples_text(views.take(k + 1)));
        k = k + 1;
    }
    assert(views.take(codes@.len() as int) =~= views);
    out
}

/// `s` without its leading `/` characters.
pub open spec fn without_leading_slashes(s: Seq<char>) -> Seq<char>
    decreases s.len(),
{
    if s.len() > 0 && s[0] == '/' {
        without_leading_slashes(s.drop_first())
    } else {
        s
    }
}

/// The package paths of the import links that are site-relative.
pub open spec fn import_paths(hrefs: Seq<Seq<char>>) -> Seq<Seq<char>>
    decreases hrefs.len(),
{
    if hrefs.len() == 0 {
        Seq::empty()
    } else if has_prefix(hrefs.last(), "/"@) {
        import_paths(hrefs.drop_last()).push(without_leading_slashes(hrefs.last()))
    } else {
        import_paths(hrefs.drop_last())
    }
}

fn without_leading_slashes_of(s: &[char]) -> (r: Vec<char>)
    ensures
        r@ == without_leading_slashes(s@),
{
    let mut i: usize = 0;
    assert(s@.skip(0) =~= s@);
    while i < s.len() && s[i] == '/'
        invariant
            i <= s@.len(),
            without_leading_slashes(s@) == without_leading_slashes(s@.skip(i as int)),
        decreases s@.len() - i,
    {
        assert(s@.skip(i as int).drop_first() =~= s@.skip(i + 1));
        i = i + 1;
    }
    let mut r: Vec<char> = Vec::new();
    let mut k: usize = i;
    while k < s.len()
        invariant
            i <= k <= s@.len(),
            r@ == s@.subrange(i as int, k as int),
        decreases s@.len() - k,
    {
        r.push(s[k]);
        assert(r@ =~= s@.subrange(i as int, k + 1));
        k = k + 1;
    }
    assert(s@.skip(i as int) =~= s@.subrange(i as int, s@.len() as int));
    r
}

/// The dependencies of a package page: its site-relative import links,
/// without their leading `/`.
pub fn dependencies_of(hrefs: &Vec<String>) -> (r: Vec<String>)
    ensures
        r@.map_values(|s: String| s@) == import_paths(hrefs@.map_values(|s: String| s@)),
{
    let ghost views = hrefs@.map_values(|s: String| s@);
    let mut out: Vec<String> = Vec::new();
    let mut k: usize = 0;
    let slash = chars_of("/");
    assert(views.take(0) =~= Seq::<Seq<char>>::empty());
    assert(out@.map_values(|s: String| s@) =~= Seq::<Seq<char>>::empty());
    while k < hrefs.len()
        invariant
            k <= hrefs@.len(),
            slash@ == "/"@,
            views == hrefs@.map_values(|s: String| s@),
            out@.map_values(|s: String| s@) == import_paths(views.take(k as int)),
        decreases hrefs@.len() - k,
    {
        assert(views.take(k + 1).drop_last() =~= views.take(k as int));
        assert(views.take(k + 1).last() == hrefs@[k as int]@);
        let h = chars_of(hrefs[k].as_str());
        if starts_with(&h, &slash) {
            let ghost before = out@;
            out.push(string_of(&without_leading_slashes_of(&h)));
            assert(out@.map_values(|s: String| s@) =~= before.map_values(|s: String| s@).push(
                without_leading_slashes(h@),
            ));
        }
        k = k + 1;
    }
    assert(views.take(hrefs@.len() as int) =~= views);
    out
}


/// What a package's `pkg.go.dev` page shows.
pub struct GoPageFindings {
    /// The overview paragraph
    pub description: Option<String>,
    /// The version in the page header
    pub version: Option<String>,
    /// The license in the page header
    pub license: Option<String>,
    /// The API documentation written of the page
    pub api_docs: String,
    /// The examples written of the page
    pub examples: String,
    /// The packages the package imports
    pub dependencies: Vec<String>,
    /// The link to the package's repository
    pub repository_url: Option<String>,
}

/// The text of the first element a selector picks, when the selector parses
/// and picks one.
pub open spec fn first_text(o: Option<Option<Seq<char>>>) -> Option<Seq<char>> {
    match o {
        Some(Some(t)) => Some(t),
        _ => None,
    }
}

fn first_text_of(html: &str, selector: &str) -> (r: Option<String>)
    ensures
        opt_text(r) == first_text(html_first_element_text(html@, selector@)),
{
    match select_first_element_text(html, selector) {
        Some(Some(t)) => Some(t),
        _ => None,
    }
}

/// The import paths found on a page, from its import links.
pub open spec fn dependency_paths(hrefs: Option<Seq<Seq<char>>>) -> Seq<Seq<char>> {
    match hrefs {
        Some(hs) => import_paths(hs),
        None => Seq::empty(),
    }
}

/// What the `pkg.go.dev` page `html` shows: the overview, version and
/// license texts, the API documentation and examples written of it, the
/// import paths and the repository link.
pub fn go_page_findings(html: &str) -> (f: GoPageFindings)
    ensures
        opt_text(f.description) == first_text(html_first_element_text(html@, ".Documentation-overview p"@)),
        opt_text(f.version) == first_text(html_first_element_text(html@, ".DetailsHeader-version"@)),
        opt_text(f.license) == first_text(html_first_element_text(html@, ".DetailsHeader-license"@)),
        f.api_docs@ == api_documentation_text(
            html_text_pairs(
                html@,
                ".Documentation-types .js-typeDetails"@,
                ".Documentation-typeHeader"@,
                ".Documentation-typeDescription"@,
            ),
            html_nested_text_pairs(
                html@,
                ".Documentation-types .js-typeDetails"@,
                ".Documentation-typeMethods .Documentation-function"@,
                ".Documentation-functionHeader"@,
                ".Documentation-functionDoc"@,
            ),
            html_text_pairs(
                html@,
                ".Documentation-function"@,
                ".Documentation-functionHeader"@,
                ".Documentation-functionDoc"@,
            ),
        ),
        f.examples@ == examples_text(html_texts_in_first(html@, "#example"@, "pre"@)),
        f.dependencies@.map_values(|s: String| s@) == dependency_paths(html_hrefs(html@, ".Imports-list a"@)),
        opt_text(f.repository_url) == html_first_href(html@, "a[data-test-id=\"UnitDirectoryHeader-repoURL\"]"@),
{
    let description = first_text_of(html, ".Documentation-overview p");
    let version = first_text_of(html, ".DetailsHeader-version");
    let license = first_text_of(html, ".DetailsHeader-license");
    let types = select_text_pairs(
        html,
        ".Documentation-types .js-typeDetails",
        ".Documentation-typeHeader",
        ".Documentation-typeDescription",
    );
    let methods = select_nested_text_pairs(
        html,
        ".Documentation-types .js-typeDetails",
        ".Documentation-typeMethods .Documentation-function",
        ".Documentation-functionHeader",
        ".Documentation-functionDoc",
    );
    let fns = select_text_pairs(
        html,
        ".Documentation-function",
        ".Documentation-functionHeader",
        ".Documentation-functionDoc",
    );
    let api_docs = api_documentation(&types, &methods, &fns);
    let examples = examples_of(&select_texts_in_first(html, "#example", "pre"));
    let dependencies = match select_hrefs(html, ".Imports-list a") {
        Some(hs) => dependencies_of(&hs),
        None => {
            let v: Vec<String> = Vec::new();
            assert(v@.map_values(|s: String| s@) =~= Seq::<Seq<char>>::empty());
            v
        },
    };
    let repository_url = select_first_href(html, "a[data-test-id=\"UnitDirectoryHeader-repoURL\"]");
    GoPageFindings { description, version, license, api_docs, examples, dependencies, repository_url }
}

/// The information section of a package: name, import path, and the
/// overview, version and license that the page showed.
pub open spec fn go_info_text(path: Seq<char>, f: GoPageFindings) -> Seq<char> {
    "## Package Information\n\n"@ + "- **Name**: "@ + last_part(path) + "\n"@ + "- **Import Path**: "@ + path
        + "\n"@ + headed("- **Description**: "@, opt_text(f.description), "\n"@) + headed(
        "- **Version**: "@,
        opt_text(f.version),
        "\n"@,
    ) + headed("- **License**: "@, opt_text(f.license), "\n"@)
}

/// The documentation sections of a package: API documentation and examples
/// when there are any, then its dependencies or a note that none were found.
pub open spec fn go_docs_text(f: GoPageFindings) -> Seq<char> {
    (if f.api_docs@.len() > 0 {
        "\n## API Documentation\n\n"@ + f.api_docs@
    } else {
        Seq::empty()
    }) + (if f.examples@.len() > 0 {
        "\n## Examples\n\n"@ + f.examples@
    } else {
        Seq::empty()
    }) + (if f.dependencies@.len() > 0 {
        "\n## Dependencies\n\n"@ + bullet_lines(f.dependencies@.map_values(|s: String| s@))
    } else {
        "No dependency information found.\n"@
    })
}

/// The text gathered about the Go package at `path`, before it is organized:
/// its information, its documentation and what was learned of its repository.
pub open spec fn go_package_text(path: Seq<char>, f: GoPageFindings, repository: Seq<char>) -> Seq<char> {
    go_info_text(path, f) + go_docs_text(f) + repository
}

fn push_go_info(out: &mut String, path: &str, f: &GoPageFindings)
    ensures
        final(out)@ == old(out)@ + go_info_text(path@, *f),
{
    out.append("## Package Information\n\n");
    out.append("- **Name**: ");
    out.append(go_package_name(path).as_str());
    out.append("\n");
    out.append("- **Import Path**: ");
    out.append(path);
    out.append("\n");
    push_headed(out, "- **Description**: ", &f.description, "\n");
    push_headed(out, "- **Version**: ", &f.version, "\n");
    push_headed(out, "- **License**: ", &f.license, "\n");
    assert(out@ =~= old(out)@ + go_info_text(path@, *f));
}

fn push_bullet_lines(out: &mut String, ds: &Vec<String>)
    ensures
        final(out)@ == old(out)@ + bullet_lines(ds@.map_values(|s: String| s@)),
{
    let ghost start = out@;
    let ghost views = ds@.map_values(|s: String| s@);
    let mut k: usize = 0;
    assert(views.take(0) =~= Seq::<Seq<char>>::empty());
    while k < ds.len()
        invariant
            k <= ds@.len(),
            views == ds@.map_values(|s: String| s@),
            out@ == start + bullet_lines(views.take(k as int)),
        decreases ds@.len() - k,
    {
        assert(views.take(k + 1).drop_last() =~= views.take(k as int));
        assert(views.take(k + 1).last() == ds@[k as int]@);
        out.append("- ");
        out.append(ds[k].as_str());
        out.append("\n");
        assert(out@ =~= start + bullet_lines(views.take(k + 1)));
        k = k + 1;
    }
    assert(views.take(ds@.len() as int) =~= views);
}

fn push_go_docs(out: &mut String, f: &GoPageFindings)
    ensures
        final(out)@ == old(out)@ + go_docs_text(*f),
{
    let ghost p0 = out@;
    if !f.api_docs.as_str().is_empty() {
        out.append("\n## API Documentation\n\n");
        out.append(f.api_docs.as_str());
    }
    let ghost p1 = out@;
    if !f.examples.as_str().is_empty() {
        out.append("\n## Examples\n\n");
        out.append(f.examples.as_str());
    }
    let ghost p2 = out@;
    if f.dependencies.len() > 0 {
        out.append("\n## Dependencies\n\n");
        push_bullet_lines(out, &f.dependencies);
    } else {
        out.append("No dependency information found.\n");
    }
    assert(out@ =~= old(out)@ + go_docs_text(*f));
}

/// The text gathered about the Go package at `path` from what its page
/// showed and from `repository`, the text learned of its repository.
pub fn go_package_content(path: &str, f: &GoPageFindings, repository: &str) -> (r: String)
    ensures
        r@ == go_package_text(path@, *f, repository@),
{
    let mut out = String::new();
    push_go_info(&mut out, path, f);
    push_go_docs(&mut out, f);
    out.append(repository);
    assert(out@ =~= go_package_text(path@, *f, repository@));
    out
}


/// The repository section written when the link does not lead to GitHub.
pub open spec fn repository_link_text(url: Seq<char>) -> Seq<char> {
    "\n## Repository\n\n"@ + url + "\n"@
}

/// The GitHub API URL of the repository a GitHub link names: the fourth and
/// fifth `/`-separated parts, the latter without trailing `.git`.
pub open spec fn repository_api_url(url: Seq<char>) -> Seq<char> {
    let parts = split_of(url, '/');
    "https://api.github.com/repos/"@ + parts[3] + "/"@ + without_trailing(parts[4], ".git"@)
}

/// What is done with a package's repository link.
pub enum RepositoryStep {
    /// Write this section naming the repository
    Link(String),
    /// Ask the GitHub API at this URL
    Fetch(String),
    /// Write nothing
    Skip,
}

/// What is done with the repository link `url`: a link that does not
/// mention `github.com` is written as it is; a GitHub link with at least
/// five `/`-separated parts is looked up; any other is passed over.
pub fn repository_step(url: &str) -> (r: RepositoryStep)
    ensures
        !has_sub(url@, "github.com"@) ==> (r matches RepositoryStep::Link(t) && t@ == repository_link_text(url@)),
        has_sub(url@, "github.com"@) && split_of(url@, '/').len() >= 5 ==> (r matches RepositoryStep::Fetch(a) && a@
            == repository_api_url(url@)),
        has_sub(url@, "github.com"@) && split_of(url@, '/').len() < 5 ==> r is Skip,
{
    let u = chars_of(url);
    if !contains(&u, &chars_of("github.com")) {
        let mut t = String::from_str("\n## Repository\n\n");
        t.append(url);
        t.append("\n");
        return RepositoryStep::Link(t);
    }
    let parts = split_char(&u, '/');
    if parts.len() < 5 {
        return RepositoryStep::Skip;
    }
    proof {
        reveal_strlit(".git");
    }
    let repo = without_trailing_of(&parts[4], &chars_of(".git"));
    let mut a = String::from_str("https://api.github.com/repos/");
    a.append(string_of(&parts[3]).as_str());
    a.append("/");
    a.append(string_of(&repo).as_str());
    RepositoryStep::Fetch(a)
}

/// How the GitHub API answered about a package's repository.
pub enum RepositoryReply {
    /// A successful answer with this JSON body
    Info(Json),
    /// An unsuccessful status, or a body that is not JSON
    Unusable,
    /// The request failed with this message
    Failed(String),
}

/// The non-empty text member `key` of `j`, when there is one.
pub open spec fn nonempty_str(j: Json, key: Seq<char>) -> Option<Seq<char>> {
    match str_of(at(j, key)) {
        Some(t) => if t.len() > 0 {
            Some(t)
        } else {
            None
        },
        None => None,
    }
}

/// The lines written of a repository from the GitHub API's answer `j`.
pub open spec fn repository_info_text(j: Json) -> Seq<char> {
    "\n### Repository Information\n\n"@ + (match u64_of(at(j, "stargazers_count"@)) {
        Some(n) => "- **Stars**: "@ + dec(n as nat) + "\n"@,
        None => Seq::empty(),
    }) + (match u64_of(at(j, "forks_count"@)) {
        Some(n) => "- **Forks**: "@ + dec(n as nat) + "\n"@,
        None => Seq::empty(),
    }) + (match str_of(at(j, "description"@)) {
        Some(d) => "- **Description**: "@ + d + "\n"@,
        None => Seq::empty(),
    }) + (match nonempty_str(j, "homepage"@) {
        Some(h) => "- **Homepage**: "@ + h + "\n"@,
        None => Seq::empty(),
    })
}

/// The text written of a repository from the GitHub API's reply.
pub open spec fn repository_reply_text(reply: RepositoryReply) -> Seq<char> {
    match reply {
        RepositoryReply::Info(j) => repository_info_text(j),
        RepositoryReply::Unusable => Seq::empty(),
        RepositoryReply::Failed(e) => "\nFailed to fetch repository information: "@ + e@ + "\n"@,
    }
}

fn push_count_line(out: &mut String, label: &str, n: Option<u64>)
    ensures
        final(out)@ == old(out)@ + match n {
            Some(v) => label@ + dec(v as nat) + "\n"@,
            None => Seq::empty(),
        },
{
    match n {
        Some(v) => {
            out.append(label);
            push_dec(out, v);
            out.append("\n");
        },
        None => {},
    }
    assert(out@ =~= old(out)@ + match n {
        Some(v) => label@ + dec(v as nat) + "\n"@,
        None => Seq::empty(),
    });
}

/// The text written of a repository from the GitHub API's reply: its stars,
/// forks, description and homepage, or why nothing could be learned.
pub fn repository_reply(reply: &RepositoryReply) -> (r: String)
    ensures
        r@ == repository_reply_text(*reply),
{
    let mut out = String::new();
    match reply {
        RepositoryReply::Info(j) => {
            out.append("\n### Repository Information\n\n");
            push_count_line(&mut out, "- **Stars**: ", u64_field(j, "stargazers_count"));
            push_count_line(&mut out, "- **Forks**: ", u64_field(j, "forks_count"));
            let ghost p2 = out@;
            match str_field(j, "description") {
                Some(d) => {
                    out.append("- **Description**: ");
                    out.append(d.as_str());
                    out.append("\n");
                },
                None => {},
            }
            let ghost p3 = out@;
            match str_field(j, "homepage") {
                Some(h) => {
                    if !h.as_str().is_empty() {
                        out.append("- **Homepage**: ");
                        out.append(h.as_str());
                        out.append("\n");
                    }
                },
                None => {},
            }
            assert(out@ =~= repository_reply_text(*reply));
        },
        RepositoryReply::Unusable => {
            assert(out@ =~= repository_reply_text(*reply));
        },
        RepositoryReply::Failed(e) => {
            out.append("\nFailed to fetch repository information: ");
            out.append(e.as_str());
            out.append("\n");
            assert(out@ =~= repository_reply_text(*reply));
        },
    }
    out
}

/// The index of an unpacked Go package: its files and, when it has a
/// `go.mod`, that file's text (when it could be read).
pub open spec fn go_index_text(name: Seq<char>, files: Seq<Seq<char>>, go_mod: Option<Option<Seq<char>>>) -> Seq<char> {
    "# Go Package: "@ + name + "\n\n"@ + "## Package Information\n\n"@ + "## Files\n\n"@ + bullet_lines(files)
        + match go_mod {
        Some(m) => "\n## Dependencies (from go.mod)\n\n"@ + match m {
            Some(t) => "```\n"@ + t + "\n```\n"@,
            None => Seq::empty(),
        },
        None => Seq::empty(),
    }
}

/// The index of an unpacked Go package named `name`, from the paths of its
/// files relative to the package and its `go.mod` (outer `None`: there is
/// none; inner `None`: it could not be read).
pub fn generate_go_package_index(name: &str, files: &Vec<String>, go_mod: &Option<Option<String>>) -> (r: String)
    ensures
        r@ == go_index_text(
            name@,
            files@.map_values(|s: String| s@),
            match go_mod {
                Some(m) => Some(opt_text(*m)),
                None => None,
            },
        ),
{
    let mut out = String::from_str("# Go Package: ");
    out.append(name);
    out.append("\n\n");
    out.append("## Package Information\n\n");
    out.append("## Files\n\n");
    push_bullet_lines(&mut out, files);
    let ghost p0 = out@;
    match go_mod {
        Some(m) => {
            out.append("\n## Dependencies (from go.mod)\n\n");
            match m {
                Some(t) => {
                    out.append("```\n");
                    out.append(t.as_str());
                    out.append("\n```\n");
                },
                None => {},
            }
        },
        None => {},
    }
    assert(out@ =~= go_index_text(
        name@,
        files@.map_values(|s: String| s@),
        match go_mod {
            Some(m) => Some(opt_text(*m)),
            None => None,
        },
    ));
    out
}



/// The package path read from a URL holds no `#` and no `?`: the fragment
/// and the query are always cut off.
pub proof fn law_go_paths_are_plain(t: Seq<char>)
    ensures
        forall|i: int| 0 <= i < go_path_of(t).len() ==> #[trigger] go_path_of(t)[i] != '#' && go_path_of(t)[i] != '?',
{
    let a = replace_all(replace_all(t, "https://pkg.go.dev/"@, Seq::empty()), "http://pkg.go.dev/"@, Seq::empty());
    let b = before_char(a, '#');
    crate::text::lemma_before_char(a, '#');
    crate::text::lemma_before_char(b, '?');
    assert forall|i: int| 0 <= i < go_path_of(t).len() implies #[trigger] go_path_of(t)[i] != '#' && go_path_of(t)[i]
        != '?' by {
        assert(go_path_of(t)[i] == b[i]);
    }
}

} // verus!
