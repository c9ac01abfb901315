//! Finding the URL of the application bundle in the shop's HTML page.
use vstd::prelude::*;
use crate::navigate::same_text;
use crate::text::texts;
use crate::web::{attributes_of, element_attributes, opt_texts};

verus! {

/// Whether `s` begins with `prefix`.
pub open spec fn starts_with(s: Seq<char>, prefix: Seq<char>) -> bool {
    prefix.len() <= s.len() && s.subrange(0, prefix.len() as int) == prefix
}

/// Whether `s` begins with `prefix`, as [`starts_with`] states.
pub fn has_prefix(s: &str, prefix: &str) -> (r: bool)
    ensures
        r == starts_with(s@, prefix@),
{
    let n = prefix.unicode_len();
    if n > s.unicode_len() {
        return false;
    }
    same_text(s.substring_char(0, n), prefix)
}

/// The first of `urls` that begins with `prefix`.
pub open spec fn first_with_prefix(urls: Seq<Seq<char>>, prefix: Seq<char>) -> Option<Seq<char>>
    decreases urls.len(),
{
    if urls.len() == 0 {
        None
    } else if starts_with(urls[0], prefix) {
        Some(urls[0])
    } else {
        first_with_prefix(urls.drop_first(), prefix)
    }
}

/// The first script URL that points at the bundle, `./assets/index-...`.
pub fn pick_script_url(urls: Vec<String>) -> (r: Option<String>)
    ensures
        match r {
            Some(u) => first_with_prefix(texts(urls@), "./assets/index-"@) == Some(u@),
            None => first_with_prefix(texts(urls@), "./assets/index-"@) is None,
        },
{
    let ghost t = texts(urls@);
    let mut i: usize = 0;
    assert(t.subrange(0, t.len() as int) == t);
    while i < urls.len()
        invariant
            t == texts(urls@),
            i <= urls@.len(),
            first_with_prefix(t, "./assets/index-"@) == first_with_prefix(
                t.subrange(i as int, t.len() as int),
                "./assets/index-"@,
            ),
        decreases urls@.len() - i,
    {
        let ghost rest = t.subrange(i as int, t.len() as int);
        assert(rest.drop_first() == t.subrange(i + 1, t.len() as int));
        assert(rest[0] == urls@[i as int]@);
        if has_prefix(urls[i].as_str(), "./assets/index-") {
            return Some(urls[i].clone());
        }
        i = i + 1;
    }
    None
}

/// `s` without the `./` prefixes it begins with, however many.
pub open spec fn strip_dot_slashes(s: Seq<char>) -> Seq<char>
    decreases s.len(),
{
    if s.len() >= 2 && s[0] == '.' && s[1] == '/' {
        strip_dot_slashes(s.subrange(2, s.len() as int))
    } else {
        s
    }
}

/// The absolute URL of a script that the page at `base_url` refers to as
/// `url`.
pub open spec fn script_url_of(url: Seq<char>, base_url: Seq<char>) -> Seq<char> {
    base_url + "/"@ + strip_dot_slashes(url)
}

/// The absolute URL of a script, as [`script_url_of`] states.
pub fn format_script_url(url: &str, base_url: &str) -> (r: String)
    ensures
        r@ == script_url_of(url@, base_url@),
{
    let n = url.unicode_len();
    let mut start: usize = 0;
    assert(url@.subrange(0, n as int) == url@);
    while n - start >= 2 && url.get_char(start) == '.' && url.get_char(start + 1) == '/'
        invariant
            n == url@.len(),
            start <= n,
            strip_dot_slashes(url@) == strip_dot_slashes(url@.subrange(start as int, n as int)),
        decreases n - start,
    {
        let ghost rest = url@.subrange(start as int, n as int);
        assert(rest.subrange(2, rest.len() as int) == url@.subrange(start + 2, n as int));
        start = start + 2;
    }
    let rest = url.substring_char(start, n);
    assert(strip_dot_slashes(url@) == rest@);
    let mut out = String::from_str(base_url);
    out.append("/");
    out.append(rest);
    out
}

/// The `src` attributes of the page's scripts that have one, in order.
pub open spec fn present(s: Seq<Option<Seq<char>>>) -> Seq<Seq<char>>
    decreases s.len(),
{
    if s.len() == 0 {
        Seq::empty()
    } else {
        match s.last() {
            Some(t) => present(s.drop_last()).push(t),
            None => present(s.drop_last()),
        }
    }
}

/// The URLs of the scripts of the HTML page `html`, in document order.
pub open spec fn script_urls_of(html: Seq<char>) -> Seq<Seq<char>> {
    match attributes_of(html, "script[src]"@, "src"@) {
        Some(v) => present(v),
        None => Seq::empty(),
    }
}

/// The URLs of the scripts of the HTML page `html`, as [`script_urls_of`]
/// states.
pub fn extract_script_urls(html: &str) -> (r: Vec<String>)
    ensures
        texts(r@) == script_urls_of(html@),
{
    let mut out: Vec<String> = Vec::new();
    let found = match element_attributes(html, "script[src]", "src") {
        Some(v) => v,
        None => {
            assert(texts(out@) =~= Seq::<Seq<char>>::empty());
            return out;
        },
    };
    let ghost f = opt_texts(found@);
    let mut i: usize = 0;
    assert(texts(out@) =~= present(f.subrange(0, 0)));
    while i < found.len()
        invariant
            f == opt_texts(found@),
            i <= found@.len(),
            texts(out@) == present(f.subrange(0, i as int)),
        decreases found@.len() - i,
    {
        assert(f.subrange(0, i + 1).drop_last() == f.subrange(0, i as int));
        assert(f.subrange(0, i + 1).last() == f[i as int]);
        let ghost prev = out@;
        if let Some(src) = &found[i] {
            out.push(src.clone());
            assert(texts(out@) =~= texts(prev).push(src@));
        }
        i = i + 1;
    }
    assert(f.subrange(0, f.len() as int) == f);
    out
}

/// The URL of the application bundle that the shop page `html`, served from
/// `base_url`, loads.
pub open spec fn bundle_url_of(html: Seq<char>, base_url: Seq<char>) -> Option<Seq<char>> {
    match first_with_prefix(script_urls_of(html), "./assets/index-"@) {
        Some(u) => Some(script_url_of(u, base_url)),
        None => None,
    }
}

/// The URL of the application bundle, as [`bundle_url_of`] states; `None`
/// when the page loads no suitable script.
pub fn bundle_url(html: &str, base_url: &str) -> (r: Option<String>)
    ensures
        match r {
            Some(u) => bundle_url_of(html@, base_url@) == Some(u@),
            None => bundle_url_of(html@, base_url@) is None,
        },
{
    let urls = extract_script_urls(html);
    let picked = pick_script_url(urls)?;
    Some(format_script_url(picked.as_str(), base_url))
}

} // verus!
