//! NPM packages: package names, URL checks, and the documentation text.

use vstd::prelude::*;
use crate::json::{at, at_ref, field, member, opt_line, str_field, str_of, strings_in, Json, NULL_JSON};
use crate::processors::local::{bump, tally, tally_view, language_lines};
use crate::order::{sort_by_text, sorted_text, text_keyed};
use crate::bindings::{parse_url_host, parse_url_path, url_host, url_path};
use crate::error::{detail, ProcessorError, Result};
use crate::text::{
    chars_eq, chars_of, contains, first_word, first_word_of, has_prefix, has_sub, second_piece,
    split_char, split_of, split_second, starts_with, string_of, dec, push_dec,
};

verus! {

/// NPM package processor.
pub struct NpmProcessor;

/// The text after the first `npm install ` of `url`, up to a second one.
pub open spec fn install_argument(url: Seq<char>) -> Seq<char> {
    match second_piece(url, "npm install "@) {
        Some(p) => p,
        None => Seq::empty(),
    }
}

/// Extracts an NPM package name: the fifth `/`-separated part of a package
/// page URL, the first word after `npm install `, or the text itself.
/// A command with nothing after `npm install ` has no word to take (taking
/// the first of an empty word list panics), so `requires` leaves it out.
pub fn extract_npm_package_name(url: &str) -> (r: Result<String>)
    requires
        has_sub(url@, "npm install "@) && !has_sub(url@, "npmjs.com/package/"@) ==> first_word(
            install_argument(url@),
        ) is Some,
    ensures
        if has_sub(url@, "npmjs.com/package/"@) {
            let parts = split_of(url@, '/');
            if parts.len() < 5 {
                r matches Err(e) && e is Validation && detail(e) == "Invalid NPM URL format"@
            } else {
                r matches Ok(n) && n@ == parts[4]
            }
        } else if has_sub(url@, "npm install "@) {
            r matches Ok(n) && first_word(install_argument(url@)) == Some(n@)
        } else {
            r matches Ok(n) && n@ == url@
        },
{
    let u = chars_of(url);
    if contains(&u, &chars_of("npmjs.com/package/")) {
        let parts = split_char(&u, '/');
        if parts.len() < 5 {
            return Err(ProcessorError::Validation(String::from_str("Invalid NPM URL format")));
        }
        Ok(string_of(&parts[4]))
    } else if contains(&u, &chars_of("npm install ")) {
        match split_second(&u, &chars_of("npm install ")) {
            Some(arg) => match first_word_of(&arg) {
                Some(w) => Ok(string_of(&w)),
                None => Err(ProcessorError::Validation(String::from_str("Invalid NPM command format"))),
            },
            None => Err(ProcessorError::Validation(String::from_str("Invalid NPM command format"))),
        }
    } else {
        Ok(String::from_str(url))
    }
}

/// The outcome of checking a package page URL: `Ok` for a `www.npmjs.com`
/// URL whose path starts with `/package/`.
pub open spec fn npm_url_check(url: Seq<char>) -> Option<Seq<char>> {
    match url_host(url) {
        None => Some("Invalid URL format"@),
        Some(host) => if host == Some("www.npmjs.com"@) && (match url_path(url) {
            Some(p) => has_prefix(p, "/package/"@),
            None => false,
        }) {
            None
        } else {
            Some("Not a valid NPM package URL"@)
        },
    }
}

impl NpmProcessor {
    /// Creates a new NPM processor.
    pub fn new() -> (p: Self) {
        NpmProcessor
    }

    /// Validates that a URL is an NPM package page URL.
    pub fn validate_url(&self, url: &str) -> (r: Result<()>)
        ensures
            match npm_url_check(url@) {
                None => r is Ok,
                Some(m) => r matches Err(e) && e is Message && detail(e) == m,
            },
    {
        match parse_url_host(url) {
            None => Err(ProcessorError::new("Invalid URL format")),
            Some(host) => {
                let host_ok = match host {
                    Some(h) => chars_eq(&chars_of(h.as_str()), &chars_of("www.npmjs.com")),
                    None => false,
                };
                let path_ok = match parse_url_path(url) {
                    Some(p) => starts_with(&chars_of(p.as_str()), &chars_of("/package/")),
                    None => false,
                };
                if host_ok && path_ok {
                    Ok(())
                } else {
                    Err(ProcessorError::new("Not a valid NPM package URL"))
                }
            },
        }
    }

    /// The processor's name.
    pub fn name(&self) -> (r: &'static str)
        ensures
            r@ == "NPM"@,
    {
        "NPM"
    }

    /// Whether `url` mentions `npmjs.com` or `npm install`.
    pub fn accepts(&self, url: &str) -> (b: bool)
        ensures
            b == (has_sub(url@, "npmjs.com"@) || has_sub(url@, "npm install"@)),
    {
        let u = chars_of(url);
        contains(&u, &chars_of("npmjs.com")) || contains(&u, &chars_of("npm install"))
    }

    /// Checks that `url` is an NPM package page URL (see `validate_url`).
    pub fn validate(&self, url: &str) -> (r: Result<()>)
        ensures
            match npm_url_check(url@) {
                None => r is Ok,
                Some(m) => r matches Err(e) && e is Message && detail(e) == m,
            },
    {
        self.validate_url(url)
    }
}

/// The author line of the package information.
pub open spec fn author_line(a: Json) -> Seq<char> {
    match a {
        Json::Object(_) => match str_of(at(a, "name"@)) {
            Some(n) => "- **Author:** "@ + n + match str_of(at(a, "email"@)) {
                Some(e) => " <"@ + e + ">\n"@,
                None => "\n"@,
            },
            None => Seq::empty(),
        },
        Json::Str(s) => "- **Author:** "@ + s@ + "\n"@,
        _ => "- **Author:** Unknown\n"@,
    }
}

/// The repository line of the package information.
pub open spec fn repository_line(r: Json) -> Seq<char> {
    "- **Repository:** "@ + match r {
        Json::Object(_) => match str_of(at(r, "url"@)) {
            Some(u) => u + "\n"@,
            None => "Not specified\n"@,
        },
        Json::Str(s) => s@ + "\n"@,
        _ => "Not specified\n"@,
    }
}


/// `ws` joined with `sep` between items (`[T]::join`).
pub open spec fn joined(ws: Seq<Seq<char>>, sep: Seq<char>) -> Seq<char>
    decreases ws.len(),
{
    if ws.len() == 0 {
        Seq::empty()
    } else if ws.len() == 1 {
        ws[0]
    } else {
        joined(ws.drop_last(), sep) + sep + ws.last()
    }
}


/// The keywords line, present for a non-empty keyword array.
pub open spec fn keywords_line(k: Json) -> Seq<char> {
    match k {
        Json::Array(a) => if a@.len() > 0 {
            "- **Keywords:** "@ + joined(strings_in(a@), ", "@) + "\n"@
        } else {
            Seq::empty()
        },
        _ => Seq::empty(),
    }
}

/// The publication time the document's top-level `time` map records for
/// version `name`, `""` when it has none.
pub open spec fn publish_time(info: Json, name: Seq<char>) -> Seq<char> {
    match at(info, "time"@) {
        Json::Object(tm) => match member(tm@, name) {
            Some(t) => match str_of(t) {
                Some(p) => p,
                None => Seq::empty(),
            },
            None => Seq::empty(),
        },
        _ => Seq::empty(),
    }
}

/// The versions keyed by their publication time, each with its member index.
pub open spec fn timed_versions(info: Json, m: Seq<(String, Json)>) -> Seq<(Seq<char>, usize)> {
    Seq::new(m.len(), |i: int| (publish_time(info, m[i].0@), i as usize))
}

/// One row of the version history table.
pub open spec fn version_row(info: Json, name: Seq<char>, v: Json) -> Seq<char> {
    let published = match at(info, "time"@) {
        Json::Object(tm) => match member(tm@, name) {
            Some(t) => match str_of(t) {
                Some(p) => p,
                None => "Unknown"@,
            },
            None => "Unknown"@,
        },
        _ => "Unknown"@,
    };
    let description = match str_of(at(v, "description"@)) {
        Some(d) => d,
        None => Seq::empty(),
    };
    "| "@ + name + " | "@ + published + " | "@ + description + " |\n"@
}

/// The rows for the versions at the listed member indices.
pub open spec fn version_rows(info: Json, m: Seq<(String, Json)>, order: Seq<(Seq<char>, usize)>) -> Seq<char>
    decreases order.len(),
{
    if order.len() == 0 {
        Seq::empty()
    } else {
        let k = order.last().1 as int;
        version_rows(info, m, order.drop_last()) + version_row(info, m[k].0@, m[k].1)
    }
}

/// The version history block: count, table header, and the ten most
/// recently published versions (by the publication times of the top-level
/// `time` map, newest first; equal times keep the document's order).
pub open spec fn versions_block(info: Json) -> Seq<char> {
    match at(info, "versions"@) {
        Json::Object(m) => {
            let order = sorted_text(timed_versions(info, m@), true);
            let top = order.take(if order.len() < 10 { order.len() as int } else { 10 });
            "- **Total Versions:** "@ + dec(m@.len()) + "\n"@ + "\n### Version History\n\n"@
                + "| Version | Published | Description |\n"@
                + "|---------|-----------|-------------|\n"@ + version_rows(info, m@, top) + "\n"@
        },
        _ => Seq::empty(),
    }
}

/// The latest version named by the `dist-tags`, `"unknown"` when absent.
pub open spec fn latest_version(info: Json) -> Seq<char> {
    match str_of(at(at(info, "dist-tags"@), "latest"@)) {
        Some(v) => v,
        None => "unknown"@,
    }
}

/// The rows of a dependency table, one per member.
pub open spec fn dependency_rows(deps: Seq<(String, Json)>) -> Seq<char>
    decreases deps.len(),
{
    if deps.len() == 0 {
        Seq::empty()
    } else {
        dependency_rows(deps.drop_last()) + "| "@ + deps.last().0@ + " | "@ + match deps.last().1 {
            Json::Str(v) => v@,
            _ => "unknown"@,
        } + " |\n"@
    }
}

/// The dependency members sorted by name.
pub open spec fn sorted_deps(deps: Seq<(String, Json)>) -> Seq<(String, Json)> {
    let order = sorted_text(Seq::new(deps.len(), |i: int| (deps[i].0@, i as usize)), false);
    Seq::new(order.len(), |i: int| deps[order[i].1 as int])
}

/// The runtime dependency part for a version's document.
pub open spec fn runtime_deps_part(latest: Json) -> Seq<char> {
    match at(latest, "dependencies"@) {
        Json::Object(d) => if d@.len() == 0 {
            "*No dependencies*\n\n"@
        } else {
            "### Runtime Dependencies\n\n"@ + "| Package | Version Requirement |\n"@
                + "|---------|---------------------|\n"@ + dependency_rows(sorted_deps(d@)) + "\n"@
        },
        _ => Seq::empty(),
    }
}

/// The development dependency part for a version's document.
pub open spec fn dev_deps_part(latest: Json) -> Seq<char> {
    match at(latest, "devDependencies"@) {
        Json::Object(d) => if d@.len() > 0 {
            "### Development Dependencies\n\n"@ + "| Package | Version Requirement |\n"@
                + "|---------|---------------------|\n"@ + dependency_rows(sorted_deps(d@)) + "\n"@
        } else {
            Seq::empty()
        },
        _ => Seq::empty(),
    }
}

/// The dependency section for the latest version.
pub open spec fn dependencies_block(info: Json) -> Seq<char> {
    let latest = at(at(info, "versions"@), latest_version(info));
    "## Dependencies\n\n"@ + runtime_deps_part(latest) + dev_deps_part(latest)
}

/// The package information and dependency sections for a registry document.
pub open spec fn npm_info_text(package_name: Seq<char>, info: Json) -> Seq<char> {
    "## Package Information\n\n"@ + "- **Name:** "@ + package_name + "\n"@
        + "- **Latest Version:** "@ + latest_version(info) + "\n"@ + opt_line(
        "- **Description:** "@,
        at(info, "description"@),
    ) + author_line(at(info, "author"@)) + repository_line(at(info, "repository"@)) + opt_line(
        "- **Homepage:** "@,
        at(info, "homepage"@),
    ) + opt_line("- **License:** "@, at(info, "license"@)) + keywords_line(at(info, "keywords"@))
        + "- **NPM URL:** https://www.npmjs.com/package/"@ + package_name + "\n"@
        + versions_block(info) + dependencies_block(info)
}

fn push_opt_line(out: &mut String, label: &str, v: &Json)
    ensures
        final(out)@ == old(out)@ + opt_line(label@, *v),
{
    match v.as_str() {
        Some(t) => {
            out.append(label);
            out.append(t.as_str());
            out.append("\n");
        },
        None => {},
    }
}

fn push_author(out: &mut String, a: &Json)
    ensures
        final(out)@ == old(out)@ + author_line(*a),
{
    match a {
        Json::Object(_) => match str_field(a, "name") {
            Some(n) => {
                out.append("- **Author:** ");
                out.append(n.as_str());
                match str_field(a, "email") {
                    Some(e) => {
                        out.append(" <");
                        out.append(e.as_str());
                        out.append(">\n");
                    },
                    None => out.append("\n"),
                }
            },
            None => {},
        },
        Json::Str(s) => {
            out.append("- **Author:** ");
            out.append(s.as_str());
            out.append("\n");
        },
        _ => out.append("- **Author:** Unknown\n"),
    }
}

fn push_repository(out: &mut String, r: &Json)
    ensures
        final(out)@ == old(out)@ + repository_line(*r),
{
    out.append("- **Repository:** ");
    match r {
        Json::Object(_) => match str_field(r, "url") {
            Some(u) => {
                out.append(u.as_str());
                out.append("\n");
            },
            None => out.append("Not specified\n"),
        },
        Json::Str(s) => {
            out.append(s.as_str());
            out.append("\n");
        },
        _ => out.append("Not specified\n"),
    }
}

fn push_keywords(out: &mut String, k: &Json)
    ensures
        final(out)@ == old(out)@ + keywords_line(*k),
{
    match k {
        Json::Array(a) => {
            if a.len() > 0 {
                out.append("- **Keywords:** ");
                let ghost start = out@;
                let mut i: usize = 0;
                let mut count: usize = 0;
                assert(a@.take(0) =~= Seq::<Json>::empty());
                while i < a.len()
                    invariant
                        i <= a@.len(),
                        count == strings_in(a@.take(i as int)).len(),
                        count <= i,
                        out@ == start + joined(strings_in(a@.take(i as int)), ", "@),
                    decreases a@.len() - i,
                {
                    assert(a@.take(i + 1).drop_last() =~= a@.take(i as int));
                    match a[i].as_str() {
                        Some(w) => {
                            proof {
                                let ws = strings_in(a@.take(i as int));
                                assert(strings_in(a@.take(i + 1)) == ws.push(w@));
                                assert(ws.push(w@).drop_last() =~= ws);
                                assert(ws.push(w@).last() == w@);
                                if ws.len() == 0 {
                                    assert(ws.push(w@)[0] == w@);
                                }
                            }
                            if count > 0 {
                                out.append(", ");
                            }
                            out.append(w.as_str());
                            count = count + 1;
                        },
                        None => {},
                    }
                    i = i + 1;
                }
                assert(a@.take(a@.len() as int) =~= a@);
                out.append("\n");
            }
        },
        _ => {},
    }
}

fn push_version_row(out: &mut String, info: &Json, name: &String, v: &Json)
    ensures
        final(out)@ == old(out)@ + version_row(*info, name@, *v),
{
    out.append("| ");
    out.append(name.as_str());
    out.append(" | ");
    match at_ref(info, "time") {
        Json::Object(tm) => {
            let ghost t = Json::Object(*tm);
            assert(field(t, name@) == member(tm@, name@));
            match t_get(tm, name) {
                Some(pv) => match pv.as_str() {
                    Some(p) => out.append(p.as_str()),
                    None => out.append("Unknown"),
                },
                None => out.append("Unknown"),
            }
        },
        _ => out.append("Unknown"),
    }
    out.append(" | ");
    match str_field(v, "description") {
        Some(d) => out.append(d.as_str()),
        None => {},
    }
    out.append(" |\n");
}

/// The first member of `m` named `key`.
fn t_get<'a>(m: &'a Vec<(String, Json)>, key: &String) -> (r: Option<&'a Json>)
    ensures
        match member(m@, key@) {
            Some(v) => r == Some(&v),
            None => r is None,
        },
{
    let k = chars_of(key.as_str());
    let mut i: usize = 0;
    assert(m@.skip(0) =~= m@);
    while i < m.len()
        invariant
            i <= m@.len(),
            k@ == key@,
            member(m@, key@) == member(m@.skip(i as int), key@),
        decreases m@.len() - i,
    {
        assert(m@.skip(i as int)[0] == m@[i as int]);
        assert(m@.skip(i as int).drop_first() =~= m@.skip(i + 1));
        if chars_eq(&chars_of(m[i].0.as_str()), &k) {
            assert(member(m@.skip(i as int), key@) == Some(m@[i as int].1));
            return Some(&m[i].1);
        }
        i = i + 1;
    }
    None
}

fn publish_time_of(info: &Json, name: &String) -> (r: String)
    ensures
        r@ == publish_time(*info, name@),
{
    match at_ref(info, "time") {
        Json::Object(tm) => match t_get(tm, name) {
            Some(pv) => match pv.as_str() {
                Some(p) => p.clone(),
                None => String::new(),
            },
            None => String::new(),
        },
        _ => String::new(),
    }
}

fn push_versions(out: &mut String, info: &Json)
    ensures
        final(out)@ == old(out)@ + versions_block(*info),
{
    match at_ref(info, "versions") {
        Json::Object(m) => {
            out.append("- **Total Versions:** ");
            push_dec(out, m.len() as u64);
            out.append("\n");
            out.append("\n### Version History\n\n");
            out.append("| Version | Published | Description |\n");
            out.append("|---------|-----------|-------------|\n");
            let mut keyed: Vec<(String, usize)> = Vec::new();
            let mut i: usize = 0;
            while i < m.len()
                invariant
                    i <= m@.len(),
                    text_keyed(keyed@) == timed_versions(*info, m@).take(i as int),
                decreases m@.len() - i,
            {
                let t = publish_time_of(info, &m[i].0);
                let ghost kb = keyed@;
                keyed.push((t, i));
                assert(text_keyed(keyed@) =~= text_keyed(kb).push((publish_time(*info, m@[i as int].0@), i)));
                assert(text_keyed(keyed@) =~= timed_versions(*info, m@).take(i + 1));
                i = i + 1;
            }
            assert(timed_versions(*info, m@).take(m@.len() as int) =~= timed_versions(*info, m@));
            let order = sort_by_text(keyed, true);
            let ghost ord = text_keyed(order@);
            proof {
                crate::order::lemma_sorted_text_indices(timed_versions(*info, m@), true);
            }
            let n: usize = if order.len() < 10 { order.len() } else { 10 };
            let ghost start = out@;
            let mut k: usize = 0;
            assert(ord.take(0) =~= Seq::<(Seq<char>, usize)>::empty());
            while k < n
                invariant
                    k <= n <= order@.len(),
                    ord == text_keyed(order@),
                    ord.len() == m@.len(),
                    forall|j: int| 0 <= j < ord.len() ==> #[trigger] ord[j].1 < m@.len(),
                    out@ == start + version_rows(*info, m@, ord.take(k as int)),
                    at(*info, "versions"@) == Json::Object(*m),
                decreases n - k,
            {
                assert(ord.take(k + 1).drop_last() =~= ord.take(k as int));
                assert(ord[k as int].1 == order@[k as int].1);
                let idx = order[k].1;
                push_version_row(out, info, &m[idx].0, &m[idx].1);
                k = k + 1;
            }
            out.append("\n");
        },
        _ => {},
    }
}

/// The name-keyed, index-tagged view of dependency members.
pub open spec fn named_deps(d: Seq<(String, Json)>) -> Seq<(Seq<char>, usize)> {
    Seq::new(d.len(), |i: int| (d[i].0@, i as usize))
}

proof fn lemma_dependency_rows_step(d: Seq<(String, Json)>, x: (String, Json))
    ensures
        dependency_rows(d.push(x)) == dependency_rows(d) + "| "@ + x.0@ + " | "@ + match x.1 {
            Json::Str(v) => v@,
            _ => "unknown"@,
        } + " |\n"@,
{
    assert(d.push(x).drop_last() =~= d);
}

fn push_dependency_table(out: &mut String, d: &Vec<(String, Json)>)
    ensures
        final(out)@ == old(out)@ + dependency_rows(sorted_deps(d@)),
{
    let mut keyed: Vec<(String, usize)> = Vec::new();
    let mut i: usize = 0;
    while i < d.len()
        invariant
            i <= d@.len(),
            text_keyed(keyed@) == named_deps(d@).take(i as int),
        decreases d@.len() - i,
    {
        let ghost kb = keyed@;
        keyed.push((d[i].0.clone(), i));
        assert(text_keyed(keyed@) =~= text_keyed(kb).push((d@[i as int].0@, i)));
        assert(text_keyed(keyed@) =~= named_deps(d@).take(i + 1));
        i = i + 1;
    }
    assert(named_deps(d@).take(d@.len() as int) =~= named_deps(d@));
    let order = sort_by_text(keyed, false);
    let ghost ord = text_keyed(order@);
    proof {
        crate::order::lemma_sorted_text_indices(named_deps(d@), false);
    }
    let ghost sd = sorted_deps(d@);
    assert(sd.len() == ord.len());
    let ghost start = out@;
    let mut k: usize = 0;
    assert(sd.take(0) =~= Seq::<(String, Json)>::empty());
    while k < order.len()
        invariant
            k <= order@.len(),
            ord == text_keyed(order@),
            ord == sorted_text(named_deps(d@), false),
            sd == sorted_deps(d@),
            sd.len() == ord.len(),
            ord.len() == d@.len(),
            forall|j: int| 0 <= j < ord.len() ==> #[trigger] ord[j].1 < d@.len(),
            out@ == start + dependency_rows(sd.take(k as int)),
        decreases order@.len() - k,
    {
        assert(ord[k as int].1 == order@[k as int].1);
        let idx = order[k].1;
        assert(sd[k as int] == d@[idx as int]);
        assert(sd.take(k + 1) =~= sd.take(k as int).push(d@[idx as int]));
        proof {
            lemma_dependency_rows_step(sd.take(k as int), d@[idx as int]);
        }
        out.append("| ");
        out.append(d[idx].0.as_str());
        out.append(" | ");
        match &d[idx].1 {
            Json::Str(v) => out.append(v.as_str()),
            _ => out.append("unknown"),
        }
        out.append(" |\n");
        k = k + 1;
    }
    assert(sd.take(sd.len() as int) =~= sd);
}

fn latest_version_of(info: &Json) -> (r: String)
    ensures
        r@ == latest_version(*info),
{
    match str_field(at_ref(info, "dist-tags"), "latest") {
        Some(v) => v.clone(),
        None => String::from_str("unknown"),
    }
}

fn push_runtime_deps(out: &mut String, latest: &Json)
    ensures
        final(out)@ == old(out)@ + runtime_deps_part(*latest),
{
    match at_ref(latest, "dependencies") {
        Json::Object(d) => {
            if d.len() == 0 {
                out.append("*No dependencies*\n\n");
            } else {
                out.append("### Runtime Dependencies\n\n");
                out.append("| Package | Version Requirement |\n");
                out.append("|---------|---------------------|\n");
                push_dependency_table(out, d);
                out.append("\n");
            }
        },
        _ => {
            assert(old(out)@ + runtime_deps_part(*latest) =~= old(out)@);
        },
    }
}

fn push_dev_deps(out: &mut String, latest: &Json)
    ensures
        final(out)@ == old(out)@ + dev_deps_part(*latest),
{
    match at_ref(latest, "devDependencies") {
        Json::Object(d) => {
            if d.len() > 0 {
                out.append("### Development Dependencies\n\n");
                out.append("| Package | Version Requirement |\n");
                out.append("|---------|---------------------|\n");
                push_dependency_table(out, d);
                out.append("\n");
            } else {
                assert(old(out)@ + dev_deps_part(*latest) =~= old(out)@);
            }
        },
        _ => {
            assert(old(out)@ + dev_deps_part(*latest) =~= old(out)@);
        },
    }
}

fn push_dependencies(out: &mut String, info: &Json)
    ensures
        final(out)@ == old(out)@ + dependencies_block(*info),
{
    out.append("## Dependencies\n\n");
    let latest_name = latest_version_of(info);
    let latest = at_ref(at_ref(info, "versions"), latest_name.as_str());
    push_runtime_deps(out, latest);
    push_dev_deps(out, latest);
}

/// The package information and dependency sections written for an NPM
/// package, from its registry document.
pub fn npm_package_info(package_name: &str, info: &Json) -> (r: String)
    ensures
        r@ == npm_info_text(package_name@, *info),
{
    let mut out = String::from_str("## Package Information\n\n");
    out.append("- **Name:** ");
    out.append(package_name);
    out.append("\n");
    out.append("- **Latest Version:** ");
    out.append(latest_version_of(info).as_str());
    out.append("\n");
    push_opt_line(&mut out, "- **Description:** ", at_ref(info, "description"));
    push_author(&mut out, at_ref(info, "author"));
    push_repository(&mut out, at_ref(info, "repository"));
    push_opt_line(&mut out, "- **Homepage:** ", at_ref(info, "homepage"));
    push_opt_line(&mut out, "- **License:** ", at_ref(info, "license"));
    push_keywords(&mut out, at_ref(info, "keywords"));
    out.append("- **NPM URL:** https://www.npmjs.com/package/");
    out.append(package_name);
    out.append("\n");
    push_versions(&mut out, info);
    push_dependencies(&mut out, info);
    assert(out@ =~= npm_info_text(package_name@, *info));
    out
}

/// The tarball URL of the latest version, as the registry document records it.
pub open spec fn tarball_url(info: Json) -> Option<Seq<char>> {
    str_of(at(at(at(at(info, "versions"@), latest_version(info)), "dist"@), "tarball"@))
}

/// The tarball to download for the latest version, or an error when the
/// registry document names none.
pub fn npm_tarball_url(info: &Json) -> (r: Result<String>)
    ensures
        match tarball_url(*info) {
            Some(u) => r matches Ok(s) && s@ == u,
            None => r matches Err(e) && e is Message && detail(e)
                == "Tarball URL not found in package info"@,
        },
{
    let latest_name = latest_version_of(info);
    let latest = at_ref(at_ref(info, "versions"), latest_name.as_str());
    match str_field(at_ref(latest, "dist"), "tarball") {
        Some(u) => Ok(u.clone()),
        None => Err(ProcessorError::Message(String::from_str("Tarball URL not found in package info"))),
    }
}

/// The entry file the latest version declares, `index.js` by default.
pub fn npm_main_entry(info: &Json) -> (r: String)
    ensures
        match str_of(at(at(at(*info, "versions"@), latest_version(*info)), "main"@)) {
            Some(m) => r@ == m,
            None => r@ == "index.js"@,
        },
{
    let latest_name = latest_version_of(info);
    let latest = at_ref(at_ref(info, "versions"), latest_name.as_str());
    match str_field(latest, "main") {
        Some(m) => m.clone(),
        None => String::from_str("index.js"),
    }
}

/// A source file of an extracted package.
pub struct NpmSource {
    /// Path relative to the package directory
    pub rel_path: String,
    /// The file's extension, if it has one
    pub ext: Option<String>,
    /// The file's text
    pub content: String,
}

/// The code-fence hint for a source file's extension.
pub open spec fn npm_hint(ext: Option<String>) -> Seq<char> {
    match ext {
        Some(e) => if e@ == "js"@ {
            "javascript"@
        } else if e@ == "ts"@ {
            "typescript"@
        } else if e@ == "jsx"@ {
            "jsx"@
        } else if e@ == "tsx"@ {
            "tsx"@
        } else if e@ == "json"@ {
            "json"@
        } else if e@ == "css"@ {
            "css"@
        } else if e@ == "scss"@ {
            "scss"@
        } else if e@ == "html"@ {
            "html"@
        } else if e@ == "md"@ {
            "markdown"@
        } else {
            Seq::empty()
        },
        None => Seq::empty(),
    }
}

/// The extensions of the sources that have one, in order.
pub open spec fn source_exts(fs: Seq<NpmSource>) -> Seq<Seq<char>>
    decreases fs.len(),
{
    if fs.len() == 0 {
        Seq::empty()
    } else {
        let earlier = source_exts(fs.drop_last());
        match fs.last().ext {
            Some(e) => earlier.push(e@),
            None => earlier,
        }
    }
}

/// The file type lines: `- **ext**: n files`.
pub open spec fn ext_lines(t: Seq<(Seq<char>, nat)>) -> Seq<char>
    decreases t.len(),
{
    if t.len() == 0 {
        Seq::empty()
    } else {
        ext_lines(t.drop_last()) + "- **"@ + t.last().0 + "**: "@ + dec(t.last().1) + " files\n"@
    }
}

/// The section reproducing one source file.
pub open spec fn npm_source_section(f: NpmSource) -> Seq<char> {
    "#### "@ + f.rel_path@ + "\n\n"@ + "```"@ + npm_hint(f.ext) + "\n"@ + f.content@
        + "\n```\n\n"@
}

/// The sections reproducing `fs`, in order.
pub open spec fn npm_source_sections(fs: Seq<NpmSource>) -> Seq<char>
    decreases fs.len(),
{
    if fs.len() == 0 {
        Seq::empty()
    } else {
        npm_source_sections(fs.drop_last()) + npm_source_section(fs.last())
    }
}

/// The `package.json` part of the contents documentation.
pub open spec fn package_json_part(package_json: Option<String>) -> Seq<char> {
    match package_json {
        Some(p) => "## Package.json\n\n```json\n"@ + p@ + "\n```\n\n"@,
        None => Seq::empty(),
    }
}

/// The README part of the contents documentation.
pub open spec fn readme_part(readme: Option<String>) -> Seq<char> {
    match readme {
        Some(r) => "### README\n\n"@ + r@ + "\n\n"@,
        None => "*No README found*\n\n"@,
    }
}

/// The main entry point part of the contents documentation.
pub open spec fn main_part(main: Option<(String, String)>) -> Seq<char> {
    match main {
        Some(m) => "### Main Entry Point: "@ + m.0@ + "\n\n"@ + "```javascript\n"@ + m.1@
            + "\n```\n\n"@,
        None => Seq::empty(),
    }
}

/// The source files part of the contents documentation.
pub open spec fn sources_part(sources: Seq<NpmSource>) -> Seq<char> {
    if sources.len() > 0 {
        "### File Types\n\n"@ + ext_lines(tally(source_exts(sources))) + "\n"@
            + "### Key Source Files\n\n"@ + npm_source_sections(sources)
    } else {
        "*No source files found*\n\n"@
    }
}

/// The contents part of the documentation of an extracted package.
pub open spec fn npm_contents_text(
    package_json: Option<String>,
    readme: Option<String>,
    main: Option<(String, String)>,
    sources: Seq<NpmSource>,
) -> Seq<char> {
    package_json_part(package_json) + "## Documentation\n\n"@ + readme_part(readme)
        + "## Source Code\n\n"@ + main_part(main) + sources_part(sources)
}

fn hint_of(ext: &Option<String>) -> (r: &'static str)
    ensures
        r@ == npm_hint(*ext),
{
    match ext {
        Some(e) => {
            let c = chars_of(e.as_str());
            if chars_eq(&c, &chars_of("js")) {
                "javascript"
            } else if chars_eq(&c, &chars_of("ts")) {
                "typescript"
            } else if chars_eq(&c, &chars_of("jsx")) {
                "jsx"
            } else if chars_eq(&c, &chars_of("tsx")) {
                "tsx"
            } else if chars_eq(&c, &chars_of("json")) {
                "json"
            } else if chars_eq(&c, &chars_of("css")) {
                "css"
            } else if chars_eq(&c, &chars_of("scss")) {
                "scss"
            } else if chars_eq(&c, &chars_of("html")) {
                "html"
            } else if chars_eq(&c, &chars_of("md")) {
                "markdown"
            } else {
                proof {
                    reveal_strlit("");
                }
                ""
            }
        },
        None => {
            proof {
                reveal_strlit("");
            }
            ""
        },
    }
}

/// Counts items, in order of first occurrence.
pub fn count_items(items: &Vec<String>) -> (r: Vec<(String, usize)>)
    ensures
        tally_view(r@) == tally(items@.map_values(|s: String| s@)),
{
    let ghost its = items@.map_values(|s: String| s@);
    let mut t: Vec<(String, usize)> = Vec::new();
    let mut i: usize = 0;
    while i < items.len()
        invariant
            i <= items@.len(),
            its == items@.map_values(|s: String| s@),
            tally_view(t@) == tally(its.take(i as int)),
            forall|m: int| 0 <= m < t@.len() ==> #[trigger] t@[m].1 <= i,
        decreases items@.len() - i,
    {
        assert(its.take(i + 1).drop_last() =~= its.take(i as int));
        let key = chars_of(items[i].as_str());
        let ghost tv = tally_view(t@);
        let mut j: usize = 0;
        while j < t.len() && !chars_eq(&chars_of(t[j].0.as_str()), &key)
            invariant
                j <= t@.len(),
                tv == tally_view(t@),
                key@ == its[i as int],
                forall|m: int| 0 <= m < j ==> #[trigger] tv[m].0 != key@,
            decreases t@.len() - j,
        {
            j = j + 1;
        }
        proof {
            crate::processors::local::lemma_bump(tv, key@, j as int);
        }
        if j < t.len() {
            let c = t[j].1;
            let name = t[j].0.clone();
            t.set(j, (name, c + 1));
            assert(tally_view(t@) =~= tv.update(j as int, (key@, tv[j as int].1 + 1)));
        } else {
            t.push((items[i].clone(), 1));
            assert(tally_view(t@) =~= tv.push((key@, 1nat)));
        }
        i = i + 1;
    }
    assert(its.take(items@.len() as int) =~= its);
    t
}

fn push_file_types(out: &mut String, sources: &Vec<NpmSource>)
    ensures
        final(out)@ == old(out)@ + "### File Types\n\n"@ + ext_lines(tally(source_exts(sources@)))
            + "\n"@,
{
    let mut exts: Vec<String> = Vec::new();
    let mut i: usize = 0;
    while i < sources.len()
        invariant
            i <= sources@.len(),
            exts@.map_values(|s: String| s@) == source_exts(sources@.take(i as int)),
        decreases sources@.len() - i,
    {
        assert(sources@.take(i + 1).drop_last() =~= sources@.take(i as int));
        match &sources[i].ext {
            Some(e) => {
                let ghost eb = exts@;
                exts.push(e.clone());
                assert(exts@.map_values(|s: String| s@) =~= eb.map_values(|s: String| s@).push(e@));
            },
            None => {},
        }
        i = i + 1;
    }
    assert(sources@.take(sources@.len() as int) =~= sources@);
    let counts = count_items(&exts);
    out.append("### File Types\n\n");
    let ghost tv = tally_view(counts@);
    let ghost st = out@;
    let mut k: usize = 0;
    assert(tv.take(0) =~= Seq::<(Seq<char>, nat)>::empty());
    while k < counts.len()
        invariant
            k <= counts@.len(),
            tv == tally_view(counts@),
            out@ == st + ext_lines(tv.take(k as int)),
        decreases counts@.len() - k,
    {
        assert(tv.take(k + 1).drop_last() =~= tv.take(k as int));
        out.append("- **");
        out.append(counts[k].0.as_str());
        out.append("**: ");
        push_dec(out, counts[k].1 as u64);
        out.append(" files\n");
        k = k + 1;
    }
    assert(tv.take(tv.len() as int) =~= tv);
    out.append("\n");
}

fn push_source_sections(out: &mut String, sources: &Vec<NpmSource>)
    ensures
        final(out)@ == old(out)@ + npm_source_sections(sources@),
{
    let ghost st2 = out@;
    let mut f: usize = 0;
    assert(sources@.take(0) =~= Seq::<NpmSource>::empty());
    while f < sources.len()
        invariant
            f <= sources@.len(),
            out@ == st2 + npm_source_sections(sources@.take(f as int)),
        decreases sources@.len() - f,
    {
        assert(sources@.take(f + 1).drop_last() =~= sources@.take(f as int));
        out.append("#### ");
        out.append(sources[f].rel_path.as_str());
        out.append("\n\n");
        out.append("```");
        out.append(hint_of(&sources[f].ext));
        out.append("\n");
        out.append(sources[f].content.as_str());
        out.append("\n```\n\n");
        f = f + 1;
    }
    assert(sources@.take(sources@.len() as int) =~= sources@);
}

fn push_package_json(out: &mut String, package_json: &Option<String>)
    ensures
        final(out)@ == old(out)@ + package_json_part(*package_json),
{
    match package_json {
        Some(p) => {
            out.append("## Package.json\n\n```json\n");
            out.append(p.as_str());
            out.append("\n```\n\n");
        },
        None => {
            assert(old(out)@ + package_json_part(*package_json) =~= old(out)@);
        },
    }
}

fn push_readme(out: &mut String, readme: &Option<String>)
    ensures
        final(out)@ == old(out)@ + readme_part(*readme),
{
    match readme {
        Some(r) => {
            out.append("### README\n\n");
            out.append(r.as_str());
            out.append("\n\n");
        },
        None => out.append("*No README found*\n\n"),
    }
}

fn push_main(out: &mut String, main: &Option<(String, String)>)
    ensures
        final(out)@ == old(out)@ + main_part(*main),
{
    match main {
        Some(m) => {
            out.append("### Main Entry Point: ");
            out.append(m.0.as_str());
            out.append("\n\n");
            out.append("```javascript\n");
            out.append(m.1.as_str());
            out.append("\n```\n\n");
        },
        None => {
            assert(old(out)@ + main_part(*main) =~= old(out)@);
        },
    }
}

fn push_sources(out: &mut String, sources: &Vec<NpmSource>)
    ensures
        final(out)@ == old(out)@ + sources_part(sources@),
{
    if sources.len() > 0 {
        push_file_types(out, sources);
        out.append("### Key Source Files\n\n");
        push_source_sections(out, sources);
    } else {
        out.append("*No source files found*\n\n");
    }
}

/// The contents part of the documentation of an extracted package:
/// `package.json`, README, main entry point, file types and source files.
pub fn npm_package_contents(
    package_json: &Option<String>,
    readme: &Option<String>,
    main: &Option<(String, String)>,
    sources: &Vec<NpmSource>,
) -> (r: String)
    ensures
        r@ == npm_contents_text(*package_json, *readme, *main, sources@),
{
    let mut out = String::new();
    push_package_json(&mut out, package_json);
    out.append("## Documentation\n\n");
    push_readme(&mut out, readme);
    out.append("## Source Code\n\n");
    push_main(&mut out, main);
    push_sources(&mut out, sources);
    assert(out@ =~= npm_contents_text(*package_json, *readme, *main, sources@));
    out
}


/// The extensions of the source files documented for a package.
pub open spec fn npm_source_extensions() -> Seq<Seq<char>> {
    seq!["js"@, "ts"@, "jsx"@, "tsx"@, "json"@, "css"@, "scss"@, "html"@, "md"@]
}

/// Whether the search for a package's source files skips a directory
/// named `name`: `node_modules`, `dist`, `build` or a hidden one.
pub fn npm_skips_dir(name: &str) -> (b: bool)
    ensures
        b == (name@ == "node_modules"@ || name@ == "dist"@ || name@ == "build"@ || has_prefix(name@, "."@)),
{
    let n = chars_of(name);
    chars_eq(&n, &chars_of("node_modules")) || chars_eq(&n, &chars_of("dist")) || chars_eq(&n, &chars_of("build"))
        || starts_with(&n, &chars_of("."))
}

/// Whether a file with extension `ext` (empty when it has none) is a
/// source file of a package.
pub fn is_npm_source_extension(ext: &str) -> (b: bool)
    ensures
        b == npm_source_extensions().contains(ext@),
{
    let mut list: Vec<Vec<char>> = Vec::new();
    list.push(chars_of("js"));
    list.push(chars_of("ts"));
    list.push(chars_of("jsx"));
    list.push(chars_of("tsx"));
    list.push(chars_of("json"));
    list.push(chars_of("css"));
    list.push(chars_of("scss"));
    list.push(chars_of("html"));
    list.push(chars_of("md"));
    assert(list@.map_values(|v: Vec<char>| v@) =~= npm_source_extensions());
    crate::processors::local::listed(&list, &chars_of(ext))
}


/// The table row of one dependency member.
pub open spec fn dependency_row(m: (String, Json)) -> Seq<char> {
    "| "@ + m.0@ + " | "@ + match m.1 {
        Json::Str(v) => v@,
        _ => "unknown"@,
    } + " |\n"@
}

proof fn lemma_rows_hold_each(deps: Seq<(String, Json)>, k: int)
    requires
        0 <= k < deps.len(),
    ensures
        has_sub(dependency_rows(deps), dependency_row(deps[k])),
    decreases deps.len(),
{
    let prev = deps.drop_last();
    let last_row = "| "@ + deps.last().0@ + " | "@ + match deps.last().1 {
        Json::Str(v) => v@,
        _ => "unknown"@,
    } + " |\n"@;
    assert(dependency_rows(deps) =~= dependency_rows(prev) + last_row);
    if k == deps.len() - 1 {
        crate::text::lemma_sub_between(dependency_rows(prev), last_row, Seq::empty());
        assert(dependency_rows(prev) + last_row + Seq::empty() =~= dependency_rows(deps));
    } else {
        lemma_rows_hold_each(prev, k);
        assert(prev[k] == deps[k]);
        crate::text::lemma_sub_widen(Seq::empty(), dependency_rows(prev), last_row, dependency_row(deps[k]));
        assert(Seq::empty() + dependency_rows(prev) + last_row =~= dependency_rows(deps));
    }
}

proof fn lemma_sorted_deps_hold_each(deps: Seq<(String, Json)>, i: int)
    requires
        0 <= i < deps.len(),
        deps.len() <= usize::MAX,
    ensures
        sorted_deps(deps).contains(deps[i]),
{
    let keyed = Seq::new(deps.len(), |i: int| (deps[i].0@, i as usize));
    let order = sorted_text(keyed, false);
    crate::order::lemma_sorted_text_keeps(keyed, false);
    crate::order::lemma_sorted_text_members(keyed, false);
    assert(keyed[i] == (deps[i].0@, i as usize));
    assert(order.contains(keyed[i]));
    let j = choose|j: int| 0 <= j < order.len() && order[j] == keyed[i];
    assert(order[j].1 as int == i);
    assert(sorted_deps(deps)[j] == deps[i]);
}

proof fn lemma_sorted_deps_ascending(deps: Seq<(String, Json)>)
    requires
        deps.len() <= usize::MAX,
    ensures
        sorted_deps(deps).len() == deps.len(),
        forall|i: int, j: int|
            0 <= i < j < deps.len() ==> !crate::order::text_lt(
                (#[trigger] sorted_deps(deps)[j]).0@,
                (#[trigger] sorted_deps(deps)[i]).0@,
            ),
{
    let keyed = Seq::new(deps.len(), |i: int| (deps[i].0@, i as usize));
    let order = sorted_text(keyed, false);
    crate::order::lemma_sorted_text_members(keyed, false);
    crate::order::lemma_sorted_text_ascending(keyed);
    let sd = sorted_deps(deps);
    assert forall|i: int| 0 <= i < order.len() implies #[trigger] sd[i].0@ == order[i].0 by {
        assert(keyed.contains(order[i]));
        let m = choose|m: int| 0 <= m < keyed.len() && keyed[m] == order[i];
        assert(keyed[m] == (deps[m].0@, m as usize));
        assert(0 <= m < deps.len());
        assert(order[i].1 as int == m);
        assert(sd[i] == deps[m]);
    }
    assert forall|i: int, j: int| 0 <= i < j < deps.len() implies !crate::order::text_lt(
        (#[trigger] sd[j]).0@,
        (#[trigger] sd[i]).0@,
    ) by {
        assert(sd[i].0@ == order[i].0);
        assert(sd[j].0@ == order[j].0);
    }
}

proof fn lemma_sub_in_suffix(t: Seq<char>, m: Seq<char>, p: Seq<char>)
    requires
        crate::text::has_suffix(t, m),
        has_sub(m, p),
    ensures
        has_sub(t, p),
{
    let i = choose|i: int| #[trigger] crate::text::occurs_at(m, p, i);
    let off = t.len() - m.len();
    assert(t.subrange(off + i, off + i + p.len()) =~= m.subrange(i, i + p.len()));
    assert(crate::text::occurs_at(t, p, off + i));
}

/// When the latest version's document lists development dependencies, the
/// package information ends with the "Development Dependencies" table: its
/// header, then one row per member sorted by name, each member's row
/// present with its version requirement.
pub proof fn law_dev_dependencies_listed(name: Seq<char>, info: Json, deps: Vec<(String, Json)>)
    requires
        at(at(at(info, "versions"@), latest_version(info)), "devDependencies"@) == Json::Object(deps),
        deps@.len() > 0,
        deps@.len() <= usize::MAX,
    ensures
        crate::text::has_suffix(
            npm_info_text(name, info),
            "### Development Dependencies\n\n"@ + "| Package | Version Requirement |\n"@
                + "|---------|---------------------|\n"@ + dependency_rows(sorted_deps(deps@)) + "\n"@,
        ),
        forall|i: int| 0 <= i < deps@.len() ==> has_sub(npm_info_text(name, info), #[trigger] dependency_row(deps@[i])),
        sorted_deps(deps@).len() == deps@.len(),
        forall|i: int, j: int|
            0 <= i < j < deps@.len() ==> !crate::order::text_lt(
                (#[trigger] sorted_deps(deps@)[j]).0@,
                (#[trigger] sorted_deps(deps@)[i]).0@,
            ),
{
    lemma_sorted_deps_ascending(deps@);
    let t = npm_info_text(name, info);
    let latest = at(at(info, "versions"@), latest_version(info));
    let dev = dev_deps_part(latest);
    let head = "### Development Dependencies\n\n"@ + "| Package | Version Requirement |\n"@
        + "|---------|---------------------|\n"@;
    let rows = dependency_rows(sorted_deps(deps@));
    assert(dev == head + rows + "\n"@);
    assert(t.skip(t.len() - dev.len()) =~= dev);
    assert forall|i: int| 0 <= i < deps@.len() implies has_sub(t, #[trigger] dependency_row(deps@[i])) by {
        lemma_sorted_deps_hold_each(deps@, i);
        let sd = sorted_deps(deps@);
        let k = choose|k: int| 0 <= k < sd.len() && sd[k] == deps@[i];
        lemma_rows_hold_each(sd, k);
        crate::text::lemma_sub_widen(head, rows, "\n"@, dependency_row(deps@[i]));
        lemma_sub_in_suffix(t, dev, dependency_row(deps@[i]));
    }
}

} // verus!
