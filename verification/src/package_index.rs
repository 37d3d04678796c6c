//! The index of processed packages: which output files it lists, what it
//! records of each, in which order, and the Markdown and HTML pages written
//! of it.

use vstd::prelude::*;
use crate::bindings::{
    regex_groups, regex_captures, opt_text, parse_utc, utc_parsed, format_utc, utc_formatted, relative_path,
    path_relative, utc_now_formatted,
};
use crate::text::{
    chars_of, string_of, ends_with, has_suffix, without_trailing, without_trailing_of, replace_all,
    replace_all_of, first_word, first_word_of, dec, push_dec, chars_eq,
};
use crate::order::{sorted_desc, sort_desc, lemma_sorted_desc_indices};
use crate::processors::local::{tally, tally_view};
use crate::processors::npm::count_items;

verus! {

pub const HTML_HEAD_START: &'static str = "<!DOCTYPE html>\n<html lang=\"en\">\n<head>\n    <meta charset=\"UTF-8\">\n    <meta name=\"viewport\" content=\"width=device-width, initial-scale=1.0\">\n    <title>Package Index</title>\n    <style>\n        body { font-family: -apple-system, BlinkMacSystemFont, \"Segoe UI\", Roboto, Helvetica, Arial, sans-serif; line-height: 1.6; padding: 20px; max-width: 1200px; margin: 0 auto; }\n        h1, h2 { color: #2c3e50; }\n        table { border-collapse: collapse; width: 100%; margin-bottom: 20px; }\n        th, td { text-align: left; padding: 12px; }\n        th { background-color: #34495e; color: white; }\n        tr:nth-child(even) { background-color: #f2f2f2; }\n        tr:hover { background-color: #ddd; }\n        .search { margin-bottom: 20px; padding: 10px; width: 100%; }\n        .timestamp { white-space: nowrap; }\n        .size { white-space: nowrap; }\n        .package-count { color: #7f8c8d; font-size: 0.9em; }\n        .source-filter { margin-right: 10px; cursor: pointer; padding: 5px 10px; border-radius: 4px; }\n        .source-filter.active { background-color: #3498db; color: white; }\n        .filters { margin-bottom: 20px; }\n    </style>\n</head>\n<body>\n    <h1>Package Index</h1>\n    <p>Generated: ";

pub const HTML_HEAD_TOTAL: &'static str = "</p>\n    <p class=\"package-count\">Total Packages: ";

pub const HTML_HEAD_END: &'static str = "</p>\n    \n    <input type=\"text\" id=\"searchBox\" class=\"search\" placeholder=\"Search for packages...\">\n    \n    <div class=\"filters\">\n        <button class=\"source-filter active\" data-source=\"all\">All</button>\n\n";

pub const HTML_BUTTON_START: &'static str = "        <button class=\"source-filter\" data-source=\"";

pub const HTML_BUTTON_MID: &'static str = "\">";

pub const HTML_BUTTON_END: &'static str = "</button>\n";

pub const HTML_TABLE_HEAD: &'static str = "    </div>\n    \n    <table id=\"packagesTable\">\n        <tr>\n            <th>Package</th>\n            <th>Source</th>\n            <th>Processed</th>\n            <th>Size</th>\n            <th>Description</th>\n        </tr>\n";

pub const HTML_ROW_START: &'static str = "        <tr data-source=\"";

pub const HTML_ROW_PATH: &'static str = "\">\n            <td><a href=\"";

pub const HTML_ROW_NAME: &'static str = "\">";

pub const HTML_ROW_SOURCE: &'static str = "</a></td>\n            <td>";

pub const HTML_ROW_TIME: &'static str = "</td>\n            <td class=\"timestamp\">";

pub const HTML_ROW_SIZE: &'static str = "</td>\n            <td class=\"size\">";

pub const HTML_ROW_DESC: &'static str = "</td>\n            <td>";

pub const HTML_ROW_END: &'static str = "</td>\n        </tr>\n";

pub const HTML_FOOT: &'static str = "    </table>\n\n    <script>\n        // Search functionality\n        document.getElementById('searchBox').addEventListener('keyup', function() {\n            const search = this.value.toLowerCase();\n            const rows = document.querySelectorAll('#packagesTable tr:not(:first-child)');\n            \n            rows.forEach(row => {\n                const text = row.textContent.toLowerCase();\n                const display = text.includes(search) ? '' : 'none';\n                \n                // Only hide if also passes the current source filter\n                if (display === 'none') {\n                    row.style.display = 'none';\n                } else {\n                    // Check against source filter\n                    const activeSource = document.querySelector('.source-filter.active').dataset.source;\n                    if (activeSource === 'all' || row.dataset.source === activeSource) {\n                        row.style.display = '';\n                    } else {\n                        row.style.display = 'none';\n                    }\n                }\n            });\n        });\n        \n        // Source filter functionality\n        document.querySelectorAll('.source-filter').forEach(button => {\n            button.addEventListener('click', function() {\n                // Update active button\n                document.querySelectorAll('.source-filter').forEach(btn => btn.classList.remove('active'));\n                this.classList.add('active');\n                \n                const source = this.dataset.source;\n                const rows = document.querySelectorAll('#packagesTable tr:not(:first-child)');\n                \n                // Apply filter\n                rows.forEach(row => {\n                    if (source === 'all' || row.dataset.source === source) {\n                        // Also check against search filter\n                        const search = document.getElementById('searchBox').value.toLowerCase();\n                        const text = row.textContent.toLowerCase();\n                        row.style.display = text.includes(search) ? '' : 'none';\n                    } else {\n                        row.style.display = 'none';\n                    }\n                });\n            });\n        });\n    </script>\n</body>\n</html>\n";


/// What the index records of a processed package.
pub struct PackageInfo {
    /// The package's name
    pub name: String,
    /// The package's version, when known
    pub version: Option<String>,
    /// When the package was processed, in nanoseconds since the Unix epoch
    pub timestamp: i64,
    /// Where the package came from
    pub source: String,
    /// The description shown for the package
    pub description: Option<String>,
    /// The output file
    pub file_path: String,
    /// The output file's size in bytes
    pub file_size: u64,
}

/// The category directories the index lists, in the order they are read:
/// every directory the output organizer files packages into, and the crate
/// directory of the output layout.
pub fn index_dirs() -> (r: Vec<&'static str>)
    ensures
        r@.len() == 9,
        r@[0]@ == "local_repositories"@,
        r@[1]@ == "github_repos"@,
        r@[2]@ == "github_orgs"@,
        r@[3]@ == "pypi_packages"@,
        r@[4]@ == "pypi_profiles"@,
        r@[5]@ == "rust_crates"@,
        r@[6]@ == "npm_packages"@,
        r@[7]@ == "go_packages"@,
        r@[8]@ == "crates"@,
{
    let mut r: Vec<&'static str> = Vec::new();
    r.push("local_repositories");
    r.push("github_repos");
    r.push("github_orgs");
    r.push("pypi_packages");
    r.push("pypi_profiles");
    r.push("rust_crates");
    r.push("npm_packages");
    r.push("go_packages");
    r.push("crates");
    r
}

/// How an output file is indexed.
#[derive(PartialEq, Eq, Structural)]
pub enum EntryKind {
    /// A stamped text output, read from its name
    Text,
    /// A Markdown page, read from its directory
    Markdown,
    /// Not indexed
    Other,
}

/// How a file named `filename` is indexed: `.txt` files by their name,
/// `.md` files by their directory, others not at all.
pub fn entry_kind(filename: &str) -> (r: EntryKind)
    ensures
        has_suffix(filename@, ".txt"@) ==> r == EntryKind::Text,
        !has_suffix(filename@, ".txt"@) && has_suffix(filename@, ".md"@) ==> r == EntryKind::Markdown,
        !has_suffix(filename@, ".txt"@) && !has_suffix(filename@, ".md"@) ==> r == EntryKind::Other,
{
    let f = chars_of(filename);
    if ends_with(&f, &chars_of(".txt")) {
        EntryKind::Text
    } else if ends_with(&f, &chars_of(".md")) {
        EntryKind::Markdown
    } else {
        EntryKind::Other
    }
}

/// The pattern of stamped output names: timestamp, package, source and kind.
pub open spec fn index_name_pattern() -> Seq<char> {
    "(\\d{8}_\\d{6})_([^_]+)_(\\w+)_(\\w+)\\.txt$"@
}

/// What a stamped output name gives: package, source (with the kind in
/// brackets) and the instant of its timestamp, or `now` when that does not
/// read as a date and time.
pub open spec fn txt_entry_of(filename: Seq<char>, now: i64) -> Option<(Seq<char>, Seq<char>, i64)> {
    match regex_captures(index_name_pattern(), filename) {
        Some(gs) => if gs.len() >= 4 && gs[0] is Some && gs[1] is Some && gs[2] is Some && gs[3] is Some {
            Some(
                (
                    gs[1]->0,
                    gs[2]->0 + " ("@ + gs[3]->0 + ")"@,
                    match utc_parsed(gs[0]->0, "%Y%m%d_%H%M%S"@) {
                        Some(t) => t,
                        None => now,
                    },
                ),
            )
        } else {
            None
        },
        None => None,
    }
}

/// What a stamped output name gives of its package.
pub struct TxtEntry {
    /// The package's name
    pub name: String,
    /// The package's source, with the output kind in brackets
    pub source: String,
    /// When the package was processed, in nanoseconds since the Unix epoch
    pub timestamp: i64,
}

/// Reads a stamped output name such as
/// `20250301_193131_requests_pypi_package.txt`; `None` when the name is not
/// stamped. A timestamp that is not a date and time counts as `now`.
pub fn txt_entry(filename: &str, now: i64) -> (r: Option<TxtEntry>)
    ensures
        match txt_entry_of(filename@, now) {
            None => r is None,
            Some(e) => r matches Some(t) && t.name@ == e.0 && t.source@ == e.1 && t.timestamp == e.2,
        },
{
    let gs = match regex_groups("(\\d{8}_\\d{6})_([^_]+)_(\\w+)_(\\w+)\\.txt$", filename) {
        Some(gs) => gs,
        None => {
            return None;
        },
    };
    if gs.len() < 4 {
        return None;
    }
    assert(gs@.map_values(|o: Option<String>| opt_text(o))[0] == opt_text(gs@[0]));
    assert(gs@.map_values(|o: Option<String>| opt_text(o))[1] == opt_text(gs@[1]));
    assert(gs@.map_values(|o: Option<String>| opt_text(o))[2] == opt_text(gs@[2]));
    assert(gs@.map_values(|o: Option<String>| opt_text(o))[3] == opt_text(gs@[3]));
    match (&gs[0], &gs[1], &gs[2], &gs[3]) {
        (Some(stamp), Some(name), Some(source), Some(kind)) => {
            let timestamp = match parse_utc(stamp.as_str(), "%Y%m%d_%H%M%S") {
                Some(t) => t,
                None => now,
            };
            let mut s = source.clone();
            s.append(" (");
            s.append(kind.as_str());
            s.append(")");
            Some(TxtEntry { name: name.clone(), source: s, timestamp })
        },
        _ => None,
    }
}

/// The package a Markdown page is about: its name without `.md`.
pub fn md_package_name(filename: &str) -> (r: String)
    ensures
        r@ == without_trailing(filename@, ".md"@),
{
    proof {
        reveal_strlit(".md");
    }
    string_of(&without_trailing_of(&chars_of(filename), &chars_of(".md")))
}

/// The source recorded for a Markdown page in category directory `dir`.
pub open spec fn md_source_of(dir: Seq<char>) -> Seq<char> {
    if dir == "local_repositories"@ {
        "local"@
    } else if dir == "github_repos"@ {
        "github_repo"@
    } else if dir == "github_orgs"@ {
        "github_org"@
    } else if dir == "pypi_packages"@ {
        "pypi"@
    } else if dir == "pypi_profiles"@ {
        "pypi_profile"@
    } else if dir == "rust_crates"@ || dir == "crates"@ {
        "crate"@
    } else if dir == "npm_packages"@ {
        "npm"@
    } else if dir == "go_packages"@ {
        "go"@
    } else {
        "unknown"@
    }
}

fn is(d: &Vec<char>, s: &str) -> (r: bool)
    ensures
        r == (d@ == s@),
{
    chars_eq(d, &chars_of(s))
}

/// The source recorded for a Markdown page in category directory `dir`.
pub fn md_source(dir: &str) -> (r: &'static str)
    ensures
        r@ == md_source_of(dir@),
{
    let d = chars_of(dir);
    if is(&d, "local_repositories") {
        "local"
    } else if is(&d, "github_repos") {
        "github_repo"
    } else if is(&d, "github_orgs") {
        "github_org"
    } else if is(&d, "pypi_packages") {
        "pypi"
    } else if is(&d, "pypi_profiles") {
        "pypi_profile"
    } else if is(&d, "rust_crates") || is(&d, "crates") {
        "crate"
    } else if is(&d, "npm_packages") {
        "npm"
    } else if is(&d, "go_packages") {
        "go"
    } else {
        "unknown"
    }
}

/// The packages' timestamps paired with their positions.
pub open spec fn time_keys(ts: Seq<i64>) -> Seq<(i64, usize)> {
    Seq::new(ts.len(), |i: int| (ts[i], i as usize))
}

/// The positions of the packages with timestamps `ts`, newest first; equal
/// timestamps keep their order.
pub open spec fn newest_first_order(ts: Seq<i64>) -> Seq<usize> {
    sorted_desc(time_keys(ts)).map_values(|e: (i64, usize)| e.1)
}

proof fn lemma_time_order(ts: Seq<i64>)
    requires
        ts.len() <= usize::MAX,
    ensures
        sorted_desc(time_keys(ts)).len() == ts.len(),
        forall|a: int, b: int|
            0 <= a < b < ts.len() ==> sorted_desc(time_keys(ts))[a].0 >= sorted_desc(time_keys(ts))[b].0,
        forall|k: int|
            0 <= k < ts.len() ==> #[trigger] sorted_desc(time_keys(ts))[k].0 == ts[sorted_desc(time_keys(ts))[k].1 as int],
{
    broadcast use vstd::seq_lib::group_to_multiset_ensures;

    crate::order::lemma_sorted_desc(time_keys(ts));
    let t = sorted_desc(time_keys(ts));
    assert forall|k: int| 0 <= k < ts.len() implies #[trigger] t[k].0 == ts[t[k].1 as int] by {
        assert(t.contains(t[k]));
        assert(t.to_multiset().count(t[k]) > 0);
        assert(time_keys(ts).contains(t[k]));
        let m = choose|m: int| 0 <= m < time_keys(ts).len() && time_keys(ts)[m] == t[k];
        assert(time_keys(ts)[m].1 as int == m);
    }
}

/// The positions of the packages with timestamps `timestamps`, newest
/// first; equal timestamps keep their order.
pub fn newest_first(timestamps: &Vec<i64>) -> (r: Vec<usize>)
    ensures
        r@ == newest_first_order(timestamps@),
        r@.len() == timestamps@.len(),
        forall|k: int| 0 <= k < r@.len() ==> #[trigger] r@[k] < timestamps@.len(),
        forall|a: int, b: int|
            0 <= a < b < r@.len() ==> timestamps@[#[trigger] r@[a] as int] >= timestamps@[#[trigger] r@[b] as int],
{
    let mut keyed: Vec<(i64, usize)> = Vec::new();
    let mut i: usize = 0;
    while i < timestamps.len()
        invariant
            i <= timestamps@.len(),
            keyed@ == time_keys(timestamps@).take(i as int),
        decreases timestamps@.len() - i,
    {
        keyed.push((timestamps[i], i));
        assert(keyed@ =~= time_keys(timestamps@).take(i + 1));
        i = i + 1;
    }
    assert(keyed@ =~= time_keys(timestamps@));
    let sorted = sort_desc(keyed);
    proof {
        lemma_sorted_desc_indices(time_keys(timestamps@));
        lemma_time_order(timestamps@);
    }
    let ghost sv = sorted_desc(time_keys(timestamps@));
    let mut r: Vec<usize> = Vec::new();
    let mut j: usize = 0;
    while j < sorted.len()
        invariant
            j <= sorted@.len(),
            sorted@ == sv,
            sv.len() == timestamps@.len(),
            forall|k: int| 0 <= k < sv.len() ==> #[trigger] sv[k].1 < sv.len(),
            r@ == sv.take(j as int).map_values(|e: (i64, usize)| e.1),
        decreases sorted@.len() - j,
    {
        r.push(sorted[j].1);
        assert(r@ =~= sv.take(j + 1).map_values(|e: (i64, usize)| e.1));
        j = j + 1;
    }
    assert(sv.take(sv.len() as int) =~= sv);
    assert forall|a: int, b: int| 0 <= a < b < r@.len() implies timestamps@[#[trigger] r@[a] as int]
        >= timestamps@[#[trigger] r@[b] as int] by {
        assert(r@[a] == sv[a].1);
        assert(r@[b] == sv[b].1);
    }
    r
}


/// What one line of the index shows of a package.
pub struct IndexRow {
    /// The package's name
    pub name: String,
    /// The link to the output file, relative to the output directory
    pub link: String,
    /// When the package was processed
    pub processed: String,
    /// The output file's size
    pub size: String,
    /// The description, empty when there is none
    pub description: String,
    /// The first word of the package's source
    pub source: String,
}

/// The link to file `path` from `output_dir`: the relative path when there
/// is one, else the path, with spaces written `%20`.
pub open spec fn link_to(path: Seq<char>, output_dir: Seq<char>) -> Seq<char> {
    replace_all(
        match path_relative(path, output_dir) {
            Some(r) => r,
            None => path,
        },
        " "@,
        "%20"@,
    )
}

/// The first word of a source, or `unknown` when it has none.
pub open spec fn source_key(source: Seq<char>) -> Seq<char> {
    match first_word(source) {
        Some(w) => w,
        None => "unknown"@,
    }
}

/// The row shown for package `p`, whose size reads `size`.
pub open spec fn is_row_of(r: IndexRow, p: PackageInfo, size: Seq<char>, output_dir: Seq<char>) -> bool {
    &&& r.name@ == p.name@
    &&& r.link@ == link_to(p.file_path@, output_dir)
    &&& r.processed@ == utc_formatted(p.timestamp, "%Y-%m-%d %H:%M"@)
    &&& r.size@ == size
    &&& r.description@ == match p.description {
        Some(d) => d@,
        None => Seq::empty(),
    }
    &&& r.source@ == source_key(p.source@)
}

/// The row shown in the index for package `p`, whose output file's size
/// reads `size`.
pub fn index_row(output_dir: &str, p: &PackageInfo, size: &str) -> (r: IndexRow)
    ensures
        is_row_of(r, *p, size@, output_dir@),
{
    let rel = match relative_path(p.file_path.as_str(), output_dir) {
        Some(r) => r,
        None => p.file_path.clone(),
    };
    proof {
        reveal_strlit(" ");
    }
    let link = string_of(&replace_all_of(&chars_of(rel.as_str()), &chars_of(" "), &chars_of("%20")));
    let processed = format_utc(p.timestamp, "%Y-%m-%d %H:%M");
    let description = match &p.description {
        Some(d) => d.clone(),
        None => String::new(),
    };
    let source = match first_word_of(&chars_of(p.source.as_str())) {
        Some(w) => string_of(&w),
        None => String::from_str("unknown"),
    };
    IndexRow { name: p.name.clone(), link, processed, size: String::from_str(size), description, source }
}

/// The rows of the index: package `order[k]` on line `k`, with its size read
/// from `sizes`.
pub fn index_rows(output_dir: &str, packages: &Vec<PackageInfo>, order: &Vec<usize>, sizes: &Vec<String>) -> (r: Vec<
    IndexRow,
>)
    requires
        sizes@.len() == packages@.len(),
        forall|k: int| 0 <= k < order@.len() ==> #[trigger] order@[k] < packages@.len(),
    ensures
        r@.len() == order@.len(),
        forall|k: int|
            0 <= k < r@.len() ==> is_row_of(
                #[trigger] r@[k],
                packages@[order@[k] as int],
                sizes@[order@[k] as int]@,
                output_dir@,
            ),
{
    let mut r: Vec<IndexRow> = Vec::new();
    let mut k: usize = 0;
    while k < order.len()
        invariant
            k <= order@.len(),
            sizes@.len() == packages@.len(),
            forall|j: int| 0 <= j < order@.len() ==> #[trigger] order@[j] < packages@.len(),
            r@.len() == k,
            forall|j: int|
                0 <= j < k ==> is_row_of(
                    #[trigger] r@[j],
                    packages@[order@[j] as int],
                    sizes@[order@[j] as int]@,
                    output_dir@,
                ),
        decreases order@.len() - k,
    {
        let i = order[k];
        r.push(index_row(output_dir, &packages[i], sizes[i].as_str()));
        k = k + 1;
    }
    r
}

/// The sources of the rows, in order.
pub open spec fn row_sources(rows: Seq<IndexRow>) -> Seq<Seq<char>> {
    rows.map_values(|r: IndexRow| r.source@)
}

/// The different sources of the rows, in the order they first occur.
pub open spec fn distinct_sources(rows: Seq<IndexRow>) -> Seq<Seq<char>> {
    tally(row_sources(rows)).map_values(|e: (Seq<char>, nat)| e.0)
}

/// The rows from source `key`, in order.
pub open spec fn rows_from(rows: Seq<IndexRow>, key: Seq<char>) -> Seq<IndexRow>
    decreases rows.len(),
{
    if rows.len() == 0 {
        Seq::empty()
    } else if rows.last().source@ == key {
        rows_from(rows.drop_last(), key).push(rows.last())
    } else {
        rows_from(rows.drop_last(), key)
    }
}

/// One Markdown table line per row.
pub open spec fn md_rows(rows: Seq<IndexRow>) -> Seq<char>
    decreases rows.len(),
{
    if rows.len() == 0 {
        Seq::empty()
    } else {
        let r = rows.last();
        md_rows(rows.drop_last()) + "| ["@ + r.name@ + "]("@ + r.link@ + ") | "@ + r.processed@ + " | "@
            + r.size@ + " | "@ + r.description@ + " |\n"@
    }
}

/// The Markdown section of source `key`: its count, a table of at most its
/// first 100 rows, and how many more there are.
pub open spec fn md_section(rows: Seq<IndexRow>, key: Seq<char>) -> Seq<char> {
    let rs = rows_from(rows, key);
    "## "@ + key + " Packages ("@ + dec(rs.len()) + ")\n\n"@ + "| Package | Processed | Size | Description |\n"@
        + "|---------|-----------|------|-------------|\n"@ + md_rows(
        if rs.len() > 100 {
            rs.take(100)
        } else {
            rs
        },
    ) + (if rs.len() > 100 {
        "| ... and "@ + dec((rs.len() - 100) as nat) + " more | | | |\n"@
    } else {
        Seq::empty()
    }) + "\n"@
}

/// The Markdown sections of the given sources, in order.
pub open spec fn md_sections(rows: Seq<IndexRow>, keys: Seq<Seq<char>>) -> Seq<char>
    decreases keys.len(),
{
    if keys.len() == 0 {
        Seq::empty()
    } else {
        md_sections(rows, keys.drop_last()) + md_section(rows, keys.last())
    }
}

/// The Markdown index generated at `generated`: the total, then a section per
/// source in the order the sources first occur.
pub open spec fn md_index_text(generated: Seq<char>, rows: Seq<IndexRow>) -> Seq<char> {
    "# Package Index\n\n"@ + "Generated: "@ + generated + "\n\n"@ + "Total Packages: "@ + dec(rows.len()) + "\n\n"@
        + md_sections(rows, distinct_sources(rows))
}

fn sources_of_rows(rows: &Vec<IndexRow>) -> (r: Vec<String>)
    ensures
        r@.map_values(|s: String| s@) == distinct_sources(rows@),
{
    let mut keys: Vec<String> = Vec::new();
    let mut i: usize = 0;
    while i < rows.len()
        invariant
            i <= rows@.len(),
            keys@.map_values(|s: String| s@) == row_sources(rows@).take(i as int),
        decreases rows@.len() - i,
    {
        let ghost before = keys@;
        let c = rows[i].source.clone();
        assert(c@ == rows@[i as int].source@);
        keys.push(c);
        assert(keys@.map_values(|s: String| s@) =~= before.map_values(|s: String| s@).push(c@));
        assert(row_sources(rows@).take(i + 1) =~= row_sources(rows@).take(i as int).push(rows@[i as int].source@));
        i = i + 1;
    }
    assert(row_sources(rows@).take(rows@.len() as int) =~= row_sources(rows@));
    let t = count_items(&keys);
    let mut r: Vec<String> = Vec::new();
    let mut j: usize = 0;
    while j < t.len()
        invariant
            j <= t@.len(),
            tally_view(t@) == tally(row_sources(rows@)),
            r@.map_values(|s: String| s@) == tally_view(t@).take(j as int).map_values(|e: (Seq<char>, nat)| e.0),
        decreases t@.len() - j,
    {
        let ghost before = r@;
        let c = t[j].0.clone();
        assert(c@ == tally_view(t@)[j as int].0);
        r.push(c);
        assert(r@.map_values(|s: String| s@) =~= before.map_values(|s: String| s@).push(c@));
        assert(r@.map_values(|s: String| s@) =~= tally_view(t@).take(j + 1).map_values(
            |e: (Seq<char>, nat)| e.0,
        ));
        j = j + 1;
    }
    assert(tally_view(t@).take(t@.len() as int) =~= tally_view(t@));
    r
}

/// The positions of the rows from source `key`, in order.
fn positions_from(rows: &Vec<IndexRow>, key: &str) -> (r: Vec<usize>)
    ensures
        r@.map_values(|i: usize| rows@[i as int]) == rows_from(rows@, key@),
        forall|k: int| 0 <= k < r@.len() ==> #[trigger] r@[k] < rows@.len(),
{
    let kc = chars_of(key);
    let mut r: Vec<usize> = Vec::new();
    let mut i: usize = 0;
    while i < rows.len()
        invariant
            i <= rows@.len(),
            kc@ == key@,
            r@.map_values(|j: usize| rows@[j as int]) == rows_from(rows@.take(i as int), key@),
            forall|k: int| 0 <= k < r@.len() ==> #[trigger] r@[k] < i,
        decreases rows@.len() - i,
    {
        assert(rows@.take(i + 1).drop_last() =~= rows@.take(i as int));
        assert(rows@.take(i + 1).last() == rows@[i as int]);
        if chars_eq(&chars_of(rows[i].source.as_str()), &kc) {
            let ghost before = r@;
            r.push(i);
            assert(r@.map_values(|j: usize| rows@[j as int]) =~= before.map_values(|j: usize| rows@[j as int]).push(
                rows@[i as int],
            ));
        }
        i = i + 1;
    }
    assert(rows@.take(rows@.len() as int) =~= rows@);
    r
}

fn push_md_row(out: &mut String, r: &IndexRow)
    ensures
        final(out)@ == old(out)@ + "| ["@ + r.name@ + "]("@ + r.link@ + ") | "@ + r.processed@ + " | "@ + r.size@
            + " | "@ + r.description@ + " |\n"@,
{
    out.append("| [");
    out.append(r.name.as_str());
    out.append("](");
    out.append(r.link.as_str());
    out.append(") | ");
    out.append(r.processed.as_str());
    out.append(" | ");
    out.append(r.size.as_str());
    out.append(" | ");
    out.append(r.description.as_str());
    out.append(" |\n");
}

fn push_md_section(out: &mut String, rows: &Vec<IndexRow>, key: &str)
    ensures
        final(out)@ == old(out)@ + md_section(rows@, key@),
{
    let pos = positions_from(rows, key);
    let ghost rs = rows_from(rows@, key@);
    let ghost start = out@;
    out.append("## ");
    out.append(key);
    out.append(" Packages (");
    push_dec(out, pos.len() as u64);
    out.append(")\n\n");
    out.append("| Package | Processed | Size | Description |\n");
    out.append("|---------|-----------|------|-------------|\n");
    let ghost head = out@;
    let n: usize = if pos.len() > 100 {
        100
    } else {
        pos.len()
    };
    let mut j: usize = 0;
    assert(rs.take(0) =~= Seq::<IndexRow>::empty());
    while j < n
        invariant
            j <= n <= pos@.len(),
            n == if pos@.len() > 100 { 100 } else { pos@.len() },
            pos@.map_values(|i: usize| rows@[i as int]) == rs,
            forall|k: int| 0 <= k < pos@.len() ==> #[trigger] pos@[k] < rows@.len(),
            out@ == head + md_rows(rs.take(j as int)),
        decreases n - j,
    {
        assert(rs.take(j + 1).drop_last() =~= rs.take(j as int));
        assert(rs[j as int] == rows@[pos@[j as int] as int]);
        push_md_row(out, &rows[pos[j]]);
        j = j + 1;
    }
    let ghost rows_part = out@;
    assert(rs.len() == pos@.len());
    if pos.len() > 100 {
        out.append("| ... and ");
        push_dec(out, (pos.len() - 100) as u64);
        out.append(" more | | | |\n");
        assert(rs.take(n as int) =~= rs.take(100));
    } else {
        assert(rs.take(n as int) =~= rs);
    }
    out.append("\n");
    assert(out@ =~= start + md_section(rows@, key@));
}

/// The Markdown index of the rows, generated at `generated`.
pub fn markdown_index_at(generated: &str, rows: &Vec<IndexRow>) -> (r: String)
    ensures
        r@ == md_index_text(generated@, rows@),
{
    let mut out = String::from_str("# Package Index\n\n");
    out.append("Generated: ");
    out.append(generated);
    out.append("\n\n");
    out.append("Total Packages: ");
    push_dec(&mut out, rows.len() as u64);
    out.append("\n\n");
    let ghost head = out@;
    let keys = sources_of_rows(rows);
    let ghost kv = keys@.map_values(|s: String| s@);
    let mut k: usize = 0;
    assert(kv.take(0) =~= Seq::<Seq<char>>::empty());
    while k < keys.len()
        invariant
            k <= keys@.len(),
            kv == keys@.map_values(|s: String| s@),
            out@ == head + md_sections(rows@, kv.take(k as int)),
        decreases keys@.len() - k,
    {
        assert(kv.take(k + 1).drop_last() =~= kv.take(k as int));
        assert(kv.take(k + 1).last() == keys@[k as int]@);
        push_md_section(&mut out, rows, keys[k].as_str());
        k = k + 1;
    }
    assert(kv.take(keys@.len() as int) =~= kv);
    out
}

/// The Markdown index of the rows, stamped with the current time.
pub fn markdown_index(rows: &Vec<IndexRow>) -> (r: String)
    ensures
        exists|g: Seq<char>| r@ == md_index_text(g, rows@),
{
    let generated = utc_now_formatted("%Y-%m-%d %H:%M:%S UTC");
    markdown_index_at(generated.as_str(), rows)
}


/// The filter button of a source on the HTML index.
pub open spec fn html_button(src: Seq<char>) -> Seq<char> {
    HTML_BUTTON_START@ + src + HTML_BUTTON_MID@ + src + HTML_BUTTON_END@
}

/// The filter buttons of the given sources, in order.
pub open spec fn html_buttons(keys: Seq<Seq<char>>) -> Seq<char>
    decreases keys.len(),
{
    if keys.len() == 0 {
        Seq::empty()
    } else {
        html_buttons(keys.drop_last()) + html_button(keys.last())
    }
}

/// The table row of a package on the HTML index.
pub open spec fn html_row(r: IndexRow) -> Seq<char> {
    HTML_ROW_START@ + r.source@ + HTML_ROW_PATH@ + r.link@ + HTML_ROW_NAME@ + r.name@ + HTML_ROW_SOURCE@ + r.source@
        + HTML_ROW_TIME@ + r.processed@ + HTML_ROW_SIZE@ + r.size@ + HTML_ROW_DESC@ + r.description@ + HTML_ROW_END@
}

/// The table rows of the HTML index, in order.
pub open spec fn html_rows(rows: Seq<IndexRow>) -> Seq<char>
    decreases rows.len(),
{
    if rows.len() == 0 {
        Seq::empty()
    } else {
        html_rows(rows.drop_last()) + html_row(rows.last())
    }
}

/// The HTML index generated at `generated`: the total, a filter button per
/// source in the order the sources first occur, every row, and the search
/// and filter script.
pub open spec fn html_index_text(generated: Seq<char>, rows: Seq<IndexRow>) -> Seq<char> {
    HTML_HEAD_START@ + generated + HTML_HEAD_TOTAL@ + dec(rows.len()) + HTML_HEAD_END@ + html_buttons(
        distinct_sources(rows),
    ) + HTML_TABLE_HEAD@ + html_rows(rows) + HTML_FOOT@
}

fn push_html_row(out: &mut String, r: &IndexRow)
    ensures
        final(out)@ == old(out)@ + html_row(*r),
{
    out.append(HTML_ROW_START);
    out.append(r.source.as_str());
    out.append(HTML_ROW_PATH);
    out.append(r.link.as_str());
    out.append(HTML_ROW_NAME);
    out.append(r.name.as_str());
    out.append(HTML_ROW_SOURCE);
    out.append(r.source.as_str());
    out.append(HTML_ROW_TIME);
    out.append(r.processed.as_str());
    out.append(HTML_ROW_SIZE);
    out.append(r.size.as_str());
    out.append(HTML_ROW_DESC);
    out.append(r.description.as_str());
    out.append(HTML_ROW_END);
    assert(out@ =~= old(out)@ + html_row(*r));
}

/// The HTML index of the rows, generated at `generated`.
pub fn html_index_at(generated: &str, rows: &Vec<IndexRow>) -> (r: String)
    ensures
        r@ == html_index_text(generated@, rows@),
{
    let mut out = String::from_str(HTML_HEAD_START);
    out.append(generated);
    out.append(HTML_HEAD_TOTAL);
    push_dec(&mut out, rows.len() as u64);
    out.append(HTML_HEAD_END);
    let ghost head = out@;
    let keys = sources_of_rows(rows);
    let ghost kv = keys@.map_values(|s: String| s@);
    let mut k: usize = 0;
    assert(kv.take(0) =~= Seq::<Seq<char>>::empty());
    while k < keys.len()
        invariant
            k <= keys@.len(),
            kv == keys@.map_values(|s: String| s@),
            out@ == head + html_buttons(kv.take(k as int)),
        decreases keys@.len() - k,
    {
        assert(kv.take(k + 1).drop_last() =~= kv.take(k as int));
        assert(kv.take(k + 1).last() == keys@[k as int]@);
        out.append(HTML_BUTTON_START);
        out.append(keys[k].as_str());
        out.append(HTML_BUTTON_MID);
        out.append(keys[k].as_str());
        out.append(HTML_BUTTON_END);
        assert(out@ =~= head + html_buttons(kv.take(k + 1)));
        k = k + 1;
    }
    assert(kv.take(keys@.len() as int) =~= kv);
    out.append(HTML_TABLE_HEAD);
    let ghost mid = out@;
    let mut i: usize = 0;
    assert(rows@.take(0) =~= Seq::<IndexRow>::empty());
    while i < rows.len()
        invariant
            i <= rows@.len(),
            out@ == mid + html_rows(rows@.take(i as int)),
        decreases rows@.len() - i,
    {
        assert(rows@.take(i + 1).drop_last() =~= rows@.take(i as int));
        assert(rows@.take(i + 1).last() == rows@[i as int]);
        push_html_row(&mut out, &rows[i]);
        i = i + 1;
    }
    assert(rows@.take(rows@.len() as int) =~= rows@);
    out.append(HTML_FOOT);
    assert(out@ =~= html_index_text(generated@, rows@));
    out
}

/// The HTML index of the rows, stamped with the current time.
pub fn html_index(rows: &Vec<IndexRow>) -> (r: String)
    ensures
        exists|g: Seq<char>| r@ == html_index_text(g, rows@),
{
    let generated = utc_now_formatted("%Y-%m-%d %H:%M:%S UTC");
    html_index_at(generated.as_str(), rows)
}


/// A link in the index holds no space: each one is written `%20`.
pub proof fn law_links_have_no_spaces(path: Seq<char>, output_dir: Seq<char>)
    ensures
        forall|i: int| 0 <= i < link_to(path, output_dir).len() ==> #[trigger] link_to(path, output_dir)[i] != ' ',
{
    reveal_strlit(" ");
    reveal_strlit("%20");
    let base = match path_relative(path, output_dir) {
        Some(r) => r,
        None => path,
    };
    crate::text::lemma_replace_all_removes(base, " "@, "%20"@);
}

} // verus!
