use vstd::prelude::*;

use crate::text::{decimal, decimal_spec, join2, trim, trim_spec};

verus! {

pub const SCRIPT_PATTERN: &'static str = "(?s)<script[^>]*>.*?</script>";

pub const STYLE_PATTERN: &'static str = "(?s)<style[^>]*>.*?</style>";

pub const TAG_PATTERN: &'static str = "<[^>]*>";

pub const BLANK_LINES_PATTERN: &'static str = "\\n\\s*\\n";

/// The patterns that web pages are cleaned with.
pub open spec fn is_cleaning_pattern(p: Seq<char>) -> bool {
    ||| p == SCRIPT_PATTERN@
    ||| p == STYLE_PATTERN@
    ||| p == TAG_PATTERN@
    ||| p == BLANK_LINES_PATTERN@
}

/// The text that the regex crate makes of `text` by replacing every match of
/// `pattern` with `replacement`.
pub uninterp spec fn regex_replaced(pattern: Seq<char>, text: Seq<char>, replacement: Seq<char>) -> Seq<
    char,
>;

/// Relies on the regex crate: `Regex::new` compiles each cleaning pattern, and
/// `Regex::replace_all` replaces every match of it.
#[verifier::external_body]
fn replace_all_matches(pattern: &str, text: &str, replacement: &str) -> (r: String)
    requires
        is_cleaning_pattern(pattern@),
    ensures
        r@ == regex_replaced(pattern@, text@, replacement@),
{
    match regex::Regex::new(pattern) {
        Ok(re) => re.replace_all(text, replacement).into_owned(),
        Err(_) => text.to_string(),
    }
}

/// The text with every match of `from`, found from the left without overlap,
/// replaced by `to`.
pub open spec fn replaced_spec(s: Seq<char>, from: Seq<char>, to: Seq<char>) -> Seq<char>
    decreases s.len(),
{
    if from.len() == 0 || s.len() < from.len() {
        s
    } else if s.subrange(0, from.len() as int) == from {
        to + replaced_spec(s.subrange(from.len() as int, s.len() as int), from, to)
    } else {
        seq![s[0]] + replaced_spec(s.drop_first(), from, to)
    }
}

/// Relies on `str::replace`: it replaces every match of `from`, found from the
/// left without overlap, by `to`.
#[verifier::external_body]
fn replace_text(s: &str, from: &str, to: &str) -> (r: String)
    requires
        from@.len() > 0,
    ensures
        r@ == replaced_spec(s@, from@, to@),
{
    s.replace(from, to)
}

/// The text with the six common HTML entities decoded, one after the other.
pub open spec fn entities_decoded(s: Seq<char>) -> Seq<char> {
    let a = replaced_spec(s, "&nbsp;"@, " "@);
    let b = replaced_spec(a, "&lt;"@, "<"@);
    let c = replaced_spec(b, "&gt;"@, ">"@);
    let d = replaced_spec(c, "&amp;"@, "&"@);
    let e = replaced_spec(d, "&quot;"@, "\""@);
    replaced_spec(e, "&#39;"@, "'"@)
}

/// The readable text of a page: scripts, styles and tags dropped, entities
/// decoded, runs of blank lines made one, and the ends trimmed.
pub open spec fn html_to_text_spec(html: Seq<char>) -> Seq<char> {
    let a = regex_replaced(SCRIPT_PATTERN@, html, ""@);
    let b = regex_replaced(STYLE_PATTERN@, a, ""@);
    let c = regex_replaced(TAG_PATTERN@, b, ""@);
    let d = entities_decoded(c);
    let e = regex_replaced(BLANK_LINES_PATTERN@, d, "\n\n"@);
    trim_spec(e)
}

/// Turns a page into plain text.
pub fn html_to_text(html: &str) -> (r: String)
    ensures
        r@ == html_to_text_spec(html@),
{
    proof {
        reveal_strlit("&nbsp;");
        reveal_strlit("&lt;");
        reveal_strlit("&gt;");
        reveal_strlit("&amp;");
        reveal_strlit("&quot;");
        reveal_strlit("&#39;");
    }
    let a = replace_all_matches(SCRIPT_PATTERN, html, "");
    let b = replace_all_matches(STYLE_PATTERN, a.as_str(), "");
    let c = replace_all_matches(TAG_PATTERN, b.as_str(), "");
    let d = replace_text(c.as_str(), "&nbsp;", " ");
    let d = replace_text(d.as_str(), "&lt;", "<");
    let d = replace_text(d.as_str(), "&gt;", ">");
    let d = replace_text(d.as_str(), "&amp;", "&");
    let d = replace_text(d.as_str(), "&quot;", "\"");
    let d = replace_text(d.as_str(), "&#39;", "'");
    let e = replace_all_matches(BLANK_LINES_PATTERN, d.as_str(), "\n\n");
    trim(e.as_str()).to_string()
}

/// One hit of a web search, with whichever of its fields were text.
#[derive(Debug)]
pub struct SearchItem {
    pub title: Option<String>,
    pub url: Option<String>,
    pub content: Option<String>,
}

pub const MAX_SEARCH_ITEMS: usize = 5;

pub const SUMMARY_PREFIX: &'static str = "摘要：";

pub const NO_TITLE: &'static str = "无标题";

pub const NO_URL: &'static str = "无 URL";

pub const NO_RESULTS: &'static str = "未找到相关结果";

pub open spec fn text_or(o: Option<String>, default: Seq<char>) -> Seq<char> {
    match o {
        Some(s) => s@,
        None => default,
    }
}

/// The lines that show hit number `n` (counted from one).
pub open spec fn item_text_spec(n: nat, it: SearchItem) -> Seq<char> {
    decimal_spec(n) + ". "@ + text_or(it.title, NO_TITLE@) + "\n   URL: "@ + text_or(it.url, NO_URL@)
        + "\n   "@ + text_or(it.content, Seq::empty()) + "\n\n"@
}

/// The first `k` hits, one after the other.
pub open spec fn items_text_spec(items: Seq<SearchItem>, k: nat) -> Seq<char>
    decreases k,
{
    if k == 0 || k > items.len() {
        Seq::empty()
    } else {
        items_text_spec(items, (k - 1) as nat) + item_text_spec(k, items[k - 1])
    }
}

/// The text of a search: the summary where there is one, then at most five
/// hits; a search with neither says that nothing was found.
pub open spec fn search_digest_spec(answer: Option<String>, items: Seq<SearchItem>) -> Seq<char> {
    let head = match answer {
        Some(a) => SUMMARY_PREFIX@ + a@ + "\n\n"@,
        None => Seq::empty(),
    };
    let k = if items.len() < MAX_SEARCH_ITEMS { items.len() } else { MAX_SEARCH_ITEMS as nat };
    let body = head + items_text_spec(items, k);
    if body.len() == 0 {
        NO_RESULTS@
    } else {
        body
    }
}

fn or_default(o: &Option<String>, default: &str) -> (r: String)
    ensures
        r@ == text_or(*o, default@),
{
    match o {
        Some(s) => s.clone(),
        None => default.to_string(),
    }
}

/// Writes out the result of a web search.
pub fn search_digest(answer: &Option<String>, items: &Vec<SearchItem>) -> (r: String)
    ensures
        r@ == search_digest_spec(*answer, items@),
{
    let mut out = match answer {
        Some(a) => {
            let s = join2(SUMMARY_PREFIX, a.as_str());
            join2(s.as_str(), "\n\n")
        },
        None => String::new(),
    };
    let ghost head = out@;
    let k = if items.len() < MAX_SEARCH_ITEMS { items.len() } else { MAX_SEARCH_ITEMS };
    let mut i: usize = 0;
    while i < k
        invariant
            k <= items@.len(),
            k <= MAX_SEARCH_ITEMS,
            i <= k,
            out@ == head + items_text_spec(items@, i as nat),
        decreases k - i,
    {
        let it = &items[i];
        let n = decimal(i + 1);
        let a = join2(n.as_str(), ". ");
        let b = join2(a.as_str(), or_default(&it.title, NO_TITLE).as_str());
        let c = join2(b.as_str(), "\n   URL: ");
        let d = join2(c.as_str(), or_default(&it.url, NO_URL).as_str());
        let e = join2(d.as_str(), "\n   ");
        let f = join2(e.as_str(), or_default(&it.content, "").as_str());
        let g = join2(f.as_str(), "\n\n");
        proof {
            assert(""@ == Seq::<char>::empty()) by {
                reveal_strlit("");
            }
            assert(g@ == item_text_spec((i + 1) as nat, items@[i as int]));
            assert(out@ + g@ == head + items_text_spec(items@, (i + 1) as nat));
        }
        out.append(g.as_str());
        i = i + 1;
    }
    if out.as_str().unicode_len() == 0 {
        NO_RESULTS.to_string()
    } else {
        out
    }
}

} // verus!
