//! Fetching web content: which URLs are fetched, how long to wait, how an
//! HTML page becomes readable text, and the report. The request itself is
//! left to the application.

use crate::text;
use crate::text::{chars_of, decimal, push_str, str_len};
use crate::tools::grep::{build_regex, regex_accepts, CompiledPattern};
use crate::tools::tool_trait::ToolResult;
use vstd::prelude::*;

verus! {

/// WebFetchTool input schema
#[derive(Debug, Clone)]
pub struct WebFetchInput {
    /// The URL to fetch
    pub url: String,
    /// Prompt describing what information to extract from the page
    pub prompt: String,
    /// Timeout in seconds (default 30)
    pub timeout: u32,
}

/// The timeout used when none is given, in seconds.
pub fn default_timeout() -> (t: u32)
    ensures
        t == 30,
{
    30
}

/// The text with every match of the regex built from `pattern` replaced by
/// `replacement` (`Regex::replace_all`, `$n` standing for group `n`).
pub uninterp spec fn regex_replaced(pattern: Seq<char>, ignore_case: bool, text: Seq<char>, replacement: Seq<char>) -> Seq<char>;

/// `Regex::replace_all` collected into a `String`: the text with every match
/// replaced, as named by `regex_replaced`.
#[verifier::external_body]
fn replace_all(p: &CompiledPattern, haystack: &str, replacement: &str) -> (r: String)
    ensures
        r@ == regex_replaced(p.pattern(), p.ignore_case(), haystack@, replacement@),
{
    p.regex().replace_all(haystack, replacement).to_string()
}

/// The regular-expression rewrites that turn HTML into readable text, in
/// the order they apply.
pub open spec fn html_rules() -> Seq<(Seq<char>, Seq<char>)> {
    seq![
        ("<script[^>]*>.*?</script>"@, ""@),
        ("<style[^>]*>.*?</style>"@, ""@),
        ("<!--.*?-->"@, ""@),
        ("<h[1-6][^>]*>(.*?)</h[1-6]>"@, "\n## $1\n"@),
        ("<p[^>]*>(.*?)</p>"@, "\n$1\n"@),
        ("<a[^>]*href=\"([^\"]+)\"[^>]*>(.*?)</a>"@, "[$2]($1)"@),
        ("<strong[^>]*>(.*?)</strong>|<b[^>]*>(.*?)</b>"@, "**$1$2**"@),
        ("<em[^>]*>(.*?)</em>|<i[^>]*>(.*?)</i>"@, "*$1$2*"@),
        ("<code[^>]*>(.*?)</code>"@, "`$1`"@),
        ("<pre[^>]*>(.*?)</pre>"@, "\n```\n$1\n```\n"@),
        ("<li[^>]*>(.*?)</li>"@, "- $1"@),
        ("<br[^>]*/?>"@, "\n"@),
        ("<[^>]+>"@, ""@),
    ]
}

/// The HTML entities decoded, in the order they are decoded.
pub open spec fn html_entities() -> Seq<(Seq<char>, Seq<char>)> {
    seq![
        ("&nbsp;"@, " "@),
        ("&amp;"@, "&"@),
        ("&lt;"@, "<"@),
        ("&gt;"@, ">"@),
        ("&quot;"@, "\""@),
        ("&apos;"@, "'"@),
    ]
}

/// The rewrite that collapses runs of blank lines.
pub open spec fn blank_run_rule() -> (Seq<char>, Seq<char>) {
    ("\n{3,}"@, "\n\n"@)
}

/// The rules applied in order; none when a pattern is not accepted.
pub open spec fn rewrite_all(t: Seq<char>, rules: Seq<(Seq<char>, Seq<char>)>) -> Option<Seq<char>>
    decreases rules.len(),
{
    if rules.len() == 0 {
        Some(t)
    } else {
        match rewrite_all(t, rules.drop_last()) {
            Some(u) => if regex_accepts(rules.last().0, false) {
                Some(regex_replaced(rules.last().0, false, u, rules.last().1))
            } else {
                None
            },
            None => None,
        }
    }
}

/// `s` with every occurrence of `p` (non-empty), left to right, replaced by
/// `r` (`str::replace`).
pub open spec fn replaced(s: Seq<char>, p: Seq<char>, r: Seq<char>) -> Seq<char>
    decreases s.len(),
{
    if p.len() == 0 {
        s
    } else {
        match text::first_occurrence(s, p) {
            Some(i) => if 0 <= i && i + p.len() <= s.len() {
                s.take(i) + r + replaced(s.skip(i + p.len()), p, r)
            } else {
                s
            },
            None => s,
        }
    }
}

/// The entities decoded in order.
pub open spec fn decode_all(t: Seq<char>, es: Seq<(Seq<char>, Seq<char>)>) -> Seq<char>
    decreases es.len(),
{
    if es.len() == 0 {
        t
    } else {
        replaced(decode_all(t, es.drop_last()), es.last().0, es.last().1)
    }
}

/// The most bytes of page text kept.
pub const MAX_PAGE_CHARS: usize = 50000;

/// The text cut to the limit, with a note of how much was left out; none
/// when the limit falls inside a character.
pub open spec fn cut_to_limit(t: Seq<char>) -> Option<Seq<char>> {
    if text::byte_len(t) <= MAX_PAGE_CHARS {
        Some(t)
    } else if text::is_boundary(t, MAX_PAGE_CHARS as int) {
        Some(
            t.take(text::char_idx(t, MAX_PAGE_CHARS as int)) + "... (truncated, "@ + decimal(
                (text::byte_len(t) - MAX_PAGE_CHARS) as nat,
            ) + " chars omitted)"@,
        )
    } else {
        None
    }
}

/// HTML made readable: scripts, styles and comments dropped, common
/// elements turned into markdown-like text, other tags removed, entities
/// decoded, blank runs collapsed, the text cut to the limit and trimmed.
/// None when a rewrite cannot be built or the cut falls inside a character.
pub open spec fn spec_html_to_text(html: Seq<char>) -> Option<Seq<char>> {
    match rewrite_all(html, html_rules()) {
        Some(t) => {
            let d = decode_all(t, html_entities());
            match rewrite_all(d, seq![blank_run_rule()]) {
                Some(c) => match cut_to_limit(c) {
                    Some(k) => Some(text::trim(k)),
                    None => None,
                },
                None => None,
            }
        },
        None => None,
    }
}

/// The rules of a list, as text.
pub open spec fn rule_views(v: Seq<(&str, &str)>) -> Seq<(Seq<char>, Seq<char>)> {
    v.map_values(|p: (&str, &str)| (p.0@, p.1@))
}

fn html_rule_list() -> (v: Vec<(&'static str, &'static str)>)
    ensures
        rule_views(v@) == html_rules(),
{
    let v = vec![
        ("<script[^>]*>.*?</script>", ""),
        ("<style[^>]*>.*?</style>", ""),
        ("<!--.*?-->", ""),
        ("<h[1-6][^>]*>(.*?)</h[1-6]>", "\n## $1\n"),
        ("<p[^>]*>(.*?)</p>", "\n$1\n"),
        ("<a[^>]*href=\"([^\"]+)\"[^>]*>(.*?)</a>", "[$2]($1)"),
        ("<strong[^>]*>(.*?)</strong>|<b[^>]*>(.*?)</b>", "**$1$2**"),
        ("<em[^>]*>(.*?)</em>|<i[^>]*>(.*?)</i>", "*$1$2*"),
        ("<code[^>]*>(.*?)</code>", "`$1`"),
        ("<pre[^>]*>(.*?)</pre>", "\n```\n$1\n```\n"),
        ("<li[^>]*>(.*?)</li>", "- $1"),
        ("<br[^>]*/?>", "\n"),
        ("<[^>]+>", ""),
    ];
    assert(rule_views(v@) =~= html_rules());
    v
}

fn entity_list() -> (v: Vec<(&'static str, &'static str)>)
    ensures
        rule_views(v@) == html_entities(),
{
    let v = vec![
        ("&nbsp;", " "),
        ("&amp;", "&"),
        ("&lt;", "<"),
        ("&gt;", ">"),
        ("&quot;", "\""),
        ("&apos;", "'"),
    ];
    assert(rule_views(v@) =~= html_entities());
    v
}

/// Apply the rules in order.
fn rewrite(t: String, rules: &Vec<(&str, &str)>) -> (r: Option<String>)
    ensures
        match r {
            Some(s) => rewrite_all(t@, rule_views(rules@)) == Some(s@),
            None => rewrite_all(t@, rule_views(rules@)) is None,
        },
{
    let ghost rs = rule_views(rules@);
    let mut cur = t;
    let mut i: usize = 0;
    assert(rs.take(0) =~= Seq::<(Seq<char>, Seq<char>)>::empty());
    while i < rules.len()
        invariant
            i <= rules@.len(),
            rs == rule_views(rules@),
            rewrite_all(t@, rs.take(i as int)) == Some(cur@),
        decreases rules.len() - i,
    {
        let ghost step = rs.take(i as int + 1);
        assert(step.drop_last() =~= rs.take(i as int));
        assert(step.last() == (rules@[i as int].0@, rules@[i as int].1@));
        let (pattern, replacement) = rules[i];
        match build_regex(pattern, false) {
            Ok(p) => {
                cur = replace_all(&p, cur.as_str(), replacement);
            },
            Err(_) => {
                proof {
                    lemma_rewrite_fails(t@, rs, i as int);
                }
                return None;
            },
        }
        i += 1;
    }
    assert(rs.take(i as int) =~= rs);
    Some(cur)
}

/// A rule that cannot be built makes every longer run of rules fail.
proof fn lemma_rewrite_fails(t: Seq<char>, rs: Seq<(Seq<char>, Seq<char>)>, i: int)
    requires
        0 <= i < rs.len(),
        rewrite_all(t, rs.take(i)) is Some,
        !regex_accepts(rs[i].0, false),
    ensures
        rewrite_all(t, rs) is None,
    decreases rs.len(),
{
    if rs.len() == i + 1 {
        assert(rs.drop_last() =~= rs.take(i));
    } else {
        assert(rs.drop_last().take(i) =~= rs.take(i));
        lemma_rewrite_fails(t, rs.drop_last(), i);
    }
}

/// `s` with every occurrence of `p` replaced by `r` (`str::replace`).
pub fn replace_str(s: &str, p: &str, r: &str) -> (out: String)
    ensures
        out@ == replaced(s@, p@, r@),
{
    let cs = chars_of(s);
    let ps = chars_of(p);
    if ps.len() == 0 {
        return text::owned(s);
    }
    let mut out = String::new();
    let mut from: usize = 0;
    let n = cs.len();
    assert(cs@.skip(0) =~= cs@);
    loop
        invariant
            n == cs@.len(),
            from <= cs@.len(),
            ps@.len() > 0,
            cs@ == s@,
            ps@ == p@,
            out@ + replaced(cs@.skip(from as int), p@, r@) == replaced(s@, p@, r@),
        decreases cs@.len() - from,
    {
        let ghost rest = cs@.skip(from as int);
        match text::find_chars_from(cs.as_slice(), ps.as_slice(), from) {
            Some(i) => {
                proof {
                    lemma_occurrence_fits(rest, p@, i as int);
                }
                let piece = text::string_from_range(cs.as_slice(), from, from + i);
                push_str(&mut out, piece.as_str());
                push_str(&mut out, r);
                assert(piece@ =~= rest.take(i as int));
                assert(rest.skip(i + p@.len()) =~= cs@.skip(from + i + ps@.len()));
                assert(out@ + replaced(cs@.skip(from + i + ps@.len()), p@, r@) =~= replaced(s@, p@, r@));
                from = from + i + ps.len();
            },
            None => {
                let piece = text::string_from_range(cs.as_slice(), from, cs.len());
                push_str(&mut out, piece.as_str());
                assert(piece@ =~= rest);
                return out;
            },
        }
    }
}

/// An occurrence found lies within the text.
proof fn lemma_occurrence_fits(s: Seq<char>, w: Seq<char>, i: int)
    requires
        text::first_occurrence(s, w) == Some(i),
    ensures
        0 <= i,
        i + w.len() <= s.len(),
{
    text::lemma_first_from(0, s.len() - w.len() + 1, text::occurs_at(s, w));
}

/// Decode the entities in order.
fn decode(t: String, es: &Vec<(&str, &str)>) -> (r: String)
    ensures
        r@ == decode_all(t@, rule_views(es@)),
{
    let ghost ev = rule_views(es@);
    let mut cur = t;
    let mut i: usize = 0;
    assert(ev.take(0) =~= Seq::<(Seq<char>, Seq<char>)>::empty());
    while i < es.len()
        invariant
            i <= es@.len(),
            ev == rule_views(es@),
            cur@ == decode_all(t@, ev.take(i as int)),
        decreases es.len() - i,
    {
        let ghost step = ev.take(i as int + 1);
        assert(step.drop_last() =~= ev.take(i as int));
        assert(step.last() == (es@[i as int].0@, es@[i as int].1@));
        let (from, to) = es[i];
        cur = replace_str(cur.as_str(), from, to);
        i += 1;
    }
    assert(ev.take(i as int) =~= ev);
    cur
}

/// Cut the text to the limit, noting what was left out.
fn cut(t: String) -> (r: Option<String>)
    ensures
        match r {
            Some(s) => cut_to_limit(t@) == Some(s@),
            None => cut_to_limit(t@) is None,
        },
{
    let n = str_len(t.as_str());
    if n <= MAX_PAGE_CHARS {
        return Some(t);
    }
    let cs = chars_of(t.as_str());
    match text::char_index_at_byte(cs.as_slice(), MAX_PAGE_CHARS) {
        Some(k) => {
            proof {
                text::lemma_char_idx(cs@, k as int);
            }
            let mut s = text::string_from_range(cs.as_slice(), 0, k);
            push_str(&mut s, "... (truncated, ");
            text::push_decimal(&mut s, (n - MAX_PAGE_CHARS) as u64);
            push_str(&mut s, " chars omitted)");
            assert(cs@.subrange(0, k as int) =~= cs@.take(k as int));
            Some(s)
        },
        None => None,
    }
}

/// Convert HTML to simple markdown-like text; none when a rewrite cannot be
/// built or the cut to the limit falls inside a character.
pub fn html_to_text(html: &str) -> (r: Option<String>)
    ensures
        match r {
            Some(s) => spec_html_to_text(html@) == Some(s@),
            None => spec_html_to_text(html@) is None,
        },
{
    let rules = html_rule_list();
    let t = match rewrite(text::owned(html), &rules) {
        Some(t) => t,
        None => return None,
    };
    let d = decode(t, &entity_list());
    let blank = vec![("\n{3,}", "\n\n")];
    assert(rule_views(blank@) =~= seq![blank_run_rule()]);
    let c = match rewrite(d, &blank) {
        Some(c) => c,
        None => return None,
    };
    match cut(c) {
        Some(k) => Some(text::str_trim(k.as_str())),
        None => None,
    }
}

/// Whether `url` starts with a web scheme.
pub open spec fn has_web_scheme(url: Seq<char>) -> bool {
    text::starts_with(url, "http://"@) || text::starts_with(url, "https://"@)
}

/// The URL to fetch, trimmed; or the error result when it is empty or not
/// a web URL.
pub open spec fn spec_checked_url(url: Seq<char>) -> Result<Seq<char>, Seq<char>> {
    let u = text::trim(url);
    if u.len() == 0 {
        Err("URL cannot be empty"@)
    } else if !has_web_scheme(u) {
        Err("URL must start with http:// or https://"@)
    } else {
        Ok(u)
    }
}

/// The report of a fetched page.
pub open spec fn fetch_report(url: Seq<char>, content: Seq<char>, prompt: Seq<char>) -> Seq<char> {
    "URL: "@ + url + "\n\n"@ + content + "\n\nExtracted for prompt: "@ + prompt
}

/// WebFetchTool - Fetch web content and extract information
pub struct WebFetch;

impl WebFetch {
    /// Tool name (used in API calls)
    pub fn name() -> (n: &'static str)
        ensures
            n@ == "WebFetch"@,
    {
        "WebFetch"
    }

    /// Tool description (shown to the model)
    pub fn description() -> (d: String)
        ensures
            d@ == "Fetch web content and extract information. Use for retrieving documentation, API references, articles. Returns processed content based on your prompt."@,
    {
        text::owned(
            "Fetch web content and extract information. Use for retrieving documentation, API references, articles. Returns processed content based on your prompt.",
        )
    }

    /// Fetching only reads.
    pub fn is_read_only() -> (b: bool)
        ensures
            b,
    {
        true
    }

    /// The URL to fetch, trimmed; or the error result when it is empty or
    /// not a web URL.
    pub fn check_url(url: &str) -> (r: Result<String, ToolResult>)
        ensures
            match spec_checked_url(url@) {
                Ok(u) => r matches Ok(s) && s@ == u,
                Err(e) => r matches Err(res) && res.is_error && res.content@ == e,
            },
    {
        let u = text::str_trim(url);
        let cs = chars_of(u.as_str());
        if cs.len() == 0 {
            return Err(ToolResult::error(text::owned("URL cannot be empty")));
        }
        let http = chars_of("http://");
        let https = chars_of("https://");
        if !text::chars_start_with(cs.as_slice(), http.as_slice()) && !text::chars_start_with(cs.as_slice(), https.as_slice()) {
            return Err(ToolResult::error(text::owned("URL must start with http:// or https://")));
        }
        Ok(u)
    }

    /// The request timeout, in seconds: the one asked for, at most a minute.
    pub fn request_timeout_secs(input: &WebFetchInput) -> (s: u64)
        ensures
            s == if input.timeout < 60 {
                input.timeout as u64
            } else {
                60
            },
    {
        if input.timeout < 60 {
            input.timeout as u64
        } else {
            60
        }
    }

    /// The result for an unsuccessful HTTP status.
    pub fn http_error(code: u16, reason: Option<&str>) -> (r: ToolResult)
        ensures
            r.is_error,
            r.content@ == "HTTP error: "@ + decimal(code as nat) + " "@ + match reason {
                Some(t) => t@,
                None => "Unknown"@,
            },
    {
        let mut m = text::owned("HTTP error: ");
        text::push_decimal(&mut m, code as u64);
        push_str(&mut m, " ");
        match reason {
            Some(t) => push_str(&mut m, t),
            None => push_str(&mut m, "Unknown"),
        }
        ToolResult::error(m)
    }

    /// The page content as reported: HTML made readable, other content as
    /// it came. None when the HTML cannot be made readable.
    pub fn process_body(content_type: &str, body: String) -> (r: Option<String>)
        ensures
            text::first_occurrence(content_type@, "text/html"@) is Some ==> (match r {
                Some(s) => spec_html_to_text(body@) == Some(s@),
                None => spec_html_to_text(body@) is None,
            }),
            text::first_occurrence(content_type@, "text/html"@) is None ==> r == Some(body),
    {
        if text::str_contains(content_type, "text/html") {
            html_to_text(body.as_str())
        } else {
            Some(body)
        }
    }

    /// The result for a fetched page.
    pub fn report(url: &str, content: &str, prompt: &str) -> (r: ToolResult)
        ensures
            !r.is_error,
            r.content@ == fetch_report(url@, content@, prompt@),
    {
        let mut m = text::owned("URL: ");
        push_str(&mut m, url);
        push_str(&mut m, "\n\n");
        push_str(&mut m, content);
        push_str(&mut m, "\n\nExtracted for prompt: ");
        push_str(&mut m, prompt);
        ToolResult::success(m)
    }

    /// Summary of a fetch for display.
    pub fn summarize(input: &WebFetchInput) -> (s: String)
        ensures
            s@ == "Fetching: "@ + input.url@,
    {
        let mut s = text::owned("Fetching: ");
        push_str(&mut s, input.url.as_str());
        s
    }
}

} // verus!
