//! Text helpers of the browser tools: page-title extraction, HTML-to-text
//! stripping, and percent-encoding of a URL placed inside another URL's query.

use vstd::prelude::*;

use crate::json::{json_view, JsonValue, JsonView};
use crate::schema::{
    bool_prop, boolean_property, int_prop, integer_property, member, object, object_schema,
    object_schema_of, props_view, str_array, string_array, typed_prop, typed_property,
};
use crate::text::{
    ascii_lower, char_ascii_lower, char_is_white, chars_of, concat_str, decimal, find, find_from,
    has_prefix, hex_upper_padded, is_ascii_alnum, is_white, join3, join4, join6, lemma_find_from_some,
    push_hex_upper, slice_chars, starts_with, str_eq, string_of, trim, trimmed, u64_decimal,
};
use crate::tools::{
    bool_arg, flag_arg, opt_text, result_is, str_arg, str_arg_or, string_arg, string_arg_or,
    u64_arg_or, u64_arg_or_default, ToolResult,
};

verus! {

broadcast use vstd::string::group_string_axioms;

/// The profile used when connecting to the browser.
#[derive(Debug, Clone, Copy, PartialEq, Eq, Structural)]
pub enum BrowserProfile {
    /// A sandboxed headless Chrome managed by the agent (default).
    Headless,
    /// Attach to the user's own signed-in Chrome session.
    User,
}

impl Default for BrowserProfile {
    fn default() -> (p: Self)
        ensures
            p == BrowserProfile::Headless,
    {
        BrowserProfile::Headless
    }
}

/// `s` with its ASCII letters lowercased.
pub open spec fn ascii_lower_seq(s: Seq<char>) -> Seq<char> {
    s.map_values(|c: char| ascii_lower(c))
}

fn lower_ascii(s: &[char]) -> (r: Vec<char>)
    ensures
        r@ == ascii_lower_seq(s@),
{
    let mut r: Vec<char> = Vec::new();
    let mut i: usize = 0;
    while i < s.len()
        invariant
            i <= s.len(),
            r@ == ascii_lower_seq(s@.take(i as int)),
        decreases s.len() - i,
    {
        r.push(char_ascii_lower(s[i]));
        assert(ascii_lower_seq(s@.take(i + 1)) =~= ascii_lower_seq(s@.take(i as int)).push(
            ascii_lower(s@[i as int]),
        ));
        i = i + 1;
    }
    assert(s@.take(s@.len() as int) == s@);
    r
}

/// The page title of `html`: the text between the first `<title…>` opening
/// tag and the next `</title>` (tags matched regardless of ASCII case),
/// trimmed; `None` when there is no such title or it is blank.
///
/// Positions are counted in characters. (`str::to_lowercase` can change the
/// encoded length of a few non-ASCII characters, so a byte-offset reading of
/// a lowercased copy agrees with this only where lowercasing keeps lengths.)
pub open spec fn spec_extract_title(html: Seq<char>) -> Option<Seq<char>> {
    match find_from(ascii_lower_seq(html), "<title"@, 0) {
        None => None,
        Some(p) => {
            let rest = html.skip(p + 6);
            match find_from(rest, seq!['>'], 0) {
                None => None,
                Some(q) => {
                    let content = rest.skip(q + 1);
                    match find_from(ascii_lower_seq(content), "</title>"@, 0) {
                        None => None,
                        Some(e) => {
                            let t = trim(content.take(e));
                            if t.len() == 0 {
                                None
                            } else {
                                Some(t)
                            }
                        },
                    }
                },
            }
        },
    }
}

/// The page title of an HTML document (see [`spec_extract_title`]).
pub fn extract_title(html: &str) -> (r: Option<String>)
    ensures
        match r {
            Some(t) => spec_extract_title(html@) == Some(t@),
            None => spec_extract_title(html@) is None,
        },
{
    proof {
        reveal_strlit("<title");
        reveal_strlit("</title>");
    }
    let h = chars_of(html);
    let lower = lower_ascii(&h);
    let p = match find(&lower, &chars_of("<title"), 0) {
        Some(p) => p,
        None => return None,
    };
    proof {
        lemma_find_from_some(lower@, "<title"@, 0);
    }
    let n = h.len();
    assert(p + 6 <= n);
    let rest = slice_chars(&h, p + 6, n);
    assert(rest@ == html@.skip(p + 6));
    let gt = ['>'];
    assert(gt@ == seq!['>']);
    let q = match find(&rest, &gt, 0) {
        Some(q) => q,
        None => return None,
    };
    proof {
        lemma_find_from_some(rest@, seq!['>'], 0);
    }
    let m = rest.len();
    assert(q + 1 <= m);
    let content = slice_chars(&rest, q + 1, m);
    assert(content@ == rest@.skip(q + 1));
    let content_lower = lower_ascii(&content);
    let e = match find(&content_lower, &chars_of("</title>"), 0) {
        Some(e) => e,
        None => return None,
    };
    proof {
        lemma_find_from_some(content_lower@, "</title>"@, 0);
    }
    let body = slice_chars(&content, 0, e);
    assert(body@ == content@.take(e as int));
    let t = trimmed(&body);
    if t.len() == 0 {
        None
    } else {
        Some(string_of(&t))
    }
}

// ── HTML to text ─────────────────────────────────────────────────────────────

/// The state of the tag-stripping scan.
pub struct StripState {
    /// Text kept so far (a space stands for each tag).
    pub out: Seq<char>,
    /// Inside a `<…>` tag.
    pub in_tag: bool,
    /// Inside a `<script>` element.
    pub in_script: bool,
    /// Inside a `<style>` element.
    pub in_style: bool,
    /// The characters of the current tag after its `<`.
    pub buf: Seq<char>,
}

/// The element name part of a tag: without a leading `/` of a closing tag.
pub open spec fn tag_name(buf_lower: Seq<char>) -> Seq<char> {
    if buf_lower.len() > 0 && buf_lower[0] == '/' {
        buf_lower.skip(1)
    } else {
        buf_lower
    }
}

/// One step of the scan over character `c`.
pub open spec fn strip_step(st: StripState, c: char) -> StripState {
    if st.in_tag {
        let buf = st.buf.push(c);
        if c == '>' {
            let lower = ascii_lower_seq(buf);
            let closing = lower.len() > 0 && lower[0] == '/';
            let name = tag_name(lower);
            let in_script = if name.len() >= 6 && name.take(6) == "script"@ {
                !closing
            } else {
                st.in_script
            };
            let in_style = if name.len() >= 5 && name.take(5) == "style"@ {
                !closing
            } else {
                st.in_style
            };
            StripState { out: st.out.push(' '), in_tag: false, in_script, in_style, buf: seq![] }
        } else {
            StripState { buf, ..st }
        }
    } else if c == '<' {
        StripState { in_tag: true, buf: seq![], ..st }
    } else if !st.in_script && !st.in_style {
        StripState { out: st.out.push(c), ..st }
    } else {
        st
    }
}

/// The scan state after the first `n` characters of `s`.
pub open spec fn strip_scan(s: Seq<char>, n: int) -> StripState
    decreases n,
{
    if n <= 0 || n > s.len() {
        StripState { out: seq![], in_tag: false, in_script: false, in_style: false, buf: seq![] }
    } else {
        strip_step(strip_scan(s, n - 1), s[n - 1])
    }
}

/// The words of `s` (maximal runs of non-whitespace) joined by single spaces.
pub open spec fn collapse_ws(s: Seq<char>) -> Seq<char>
    decreases s.len(),
{
    if s.len() == 0 {
        seq![]
    } else {
        let r = collapse_ws(s.drop_last());
        let c = s.last();
        if is_white(c) {
            r
        } else if s.len() >= 2 && is_white(s[s.len() - 2]) && r.len() > 0 {
            r.push(' ').push(c)
        } else {
            r.push(c)
        }
    }
}

/// The plain text of `html`: tags removed (each leaving a space), the
/// content of `<script>` and `<style>` elements dropped, whitespace collapsed
/// to single spaces, and at most 8000 characters kept.
pub open spec fn spec_strip_html(html: Seq<char>) -> Seq<char> {
    let c = collapse_ws(strip_scan(html, html.len() as int).out);
    if c.len() > 8000 {
        c.take(8000)
    } else {
        c
    }
}

/// The scan outside any tag, script or style: plain characters are kept.
proof fn lemma_scan_text(s: Seq<char>, a: int, b: int, o: Seq<char>)
    requires
        0 <= a <= b <= s.len(),
        strip_scan(s, a).out == o,
        !strip_scan(s, a).in_tag,
        !strip_scan(s, a).in_script,
        !strip_scan(s, a).in_style,
        forall|j: int| a <= j < b ==> s[j] != '<',
    ensures
        strip_scan(s, b).out == o + s.subrange(a, b),
        !strip_scan(s, b).in_tag,
        !strip_scan(s, b).in_script,
        !strip_scan(s, b).in_style,
    decreases b - a,
{
    if b == a {
        assert(o + s.subrange(a, b) =~= o);
    } else {
        lemma_scan_text(s, a, b - 1, o);
        assert(s[b - 1] != '<');
        assert(strip_scan(s, b) == strip_step(strip_scan(s, b - 1), s[b - 1]));
        assert((o + s.subrange(a, b - 1)).push(s[b - 1]) =~= o + s.subrange(a, b));
    }
}

/// The scan inside a tag: its characters go to the tag buffer only.
proof fn lemma_scan_tag(s: Seq<char>, a: int, b: int, o: Seq<char>)
    requires
        0 <= a <= b <= s.len(),
        strip_scan(s, a).out == o,
        strip_scan(s, a).in_tag,
        strip_scan(s, a).buf.len() == 0,
        forall|j: int| a <= j < b ==> s[j] != '>',
    ensures
        strip_scan(s, b).out == o,
        strip_scan(s, b).in_tag,
        strip_scan(s, b).in_script == strip_scan(s, a).in_script,
        strip_scan(s, b).in_style == strip_scan(s, a).in_style,
        strip_scan(s, b).buf == s.subrange(a, b),
    decreases b - a,
{
    if b == a {
        assert(strip_scan(s, a).buf =~= s.subrange(a, b));
    } else {
        lemma_scan_tag(s, a, b - 1, o);
        assert(strip_scan(s, b) == strip_step(strip_scan(s, b - 1), s[b - 1]));
        assert(s.subrange(a, b - 1).push(s[b - 1]) =~= s.subrange(a, b));
    }
}

/// Collapsing keeps a run of non-blank characters as it is.
proof fn lemma_collapse_word(w: Seq<char>)
    requires
        forall|j: int| 0 <= j < w.len() ==> !is_white(w[j]),
    ensures
        collapse_ws(w) == w,
    decreases w.len(),
{
    if w.len() > 0 {
        lemma_collapse_word(w.drop_last());
        assert(w.drop_last().push(w.last()) =~= w);
    }
}

/// Collapsing drops blanks after a word.
proof fn lemma_collapse_trailing_blanks(x: Seq<char>, sp: Seq<char>, m: int)
    requires
        0 <= m <= sp.len(),
        forall|j: int| 0 <= j < x.len() ==> !is_white(x[j]),
        forall|j: int| 0 <= j < sp.len() ==> is_white(sp[j]),
    ensures
        collapse_ws(x + sp.take(m)) == x,
    decreases m,
{
    let s = x + sp.take(m);
    if m == 0 {
        assert(s =~= x);
        lemma_collapse_word(x);
    } else {
        lemma_collapse_trailing_blanks(x, sp, m - 1);
        assert(s.drop_last() =~= x + sp.take(m - 1));
        assert(s.last() == sp[m - 1]);
    }
}

/// Collapsing joins two words separated by blanks with one space.
proof fn lemma_collapse_two_words(x: Seq<char>, sp: Seq<char>, y: Seq<char>, n: int)
    requires
        x.len() > 0,
        sp.len() > 0,
        0 <= n <= y.len(),
        forall|j: int| 0 <= j < x.len() ==> !is_white(x[j]),
        forall|j: int| 0 <= j < sp.len() ==> is_white(sp[j]),
        forall|j: int| 0 <= j < y.len() ==> !is_white(y[j]),
    ensures
        collapse_ws(x + sp + y.take(n)) == (if n == 0 {
            x
        } else {
            x + seq![' '] + y.take(n)
        }),
    decreases n,
{
    let s = x + sp + y.take(n);
    if n == 0 {
        lemma_collapse_trailing_blanks(x, sp, sp.len() as int);
        assert(sp.take(sp.len() as int) =~= sp);
        assert(s =~= x + sp);
    } else {
        lemma_collapse_two_words(x, sp, y, n - 1);
        assert(s.drop_last() =~= x + sp + y.take(n - 1));
        assert(s.last() == y[n - 1]);
        if n == 1 {
            assert(s[s.len() - 2] == sp.last());
            assert(x.push(' ').push(y[0]) =~= x + seq![' '] + y.take(n));
        } else {
            assert(s[s.len() - 2] == y[n - 2]);
            assert((x + seq![' '] + y.take(n - 1)).push(y[n - 1]) =~= x + seq![' '] + y.take(n));
        }
    }
}

/// Every tag separates the text around it: two words with a tag between them
/// (any tag but an opening `<script…>` or `<style…>`) come out as the two
/// words joined by one space, never glued together.
pub proof fn lemma_tag_separates_words(x: Seq<char>, t: Seq<char>, y: Seq<char>)
    requires
        x.len() > 0,
        y.len() > 0,
        x.len() + y.len() < 8000,
        forall|j: int| 0 <= j < x.len() ==> !is_white(x[j]) && x[j] != '<',
        forall|j: int| 0 <= j < y.len() ==> !is_white(y[j]) && y[j] != '<',
        forall|j: int| 0 <= j < t.len() ==> t[j] != '>',
        !starts_with(ascii_lower_seq(t), "script"@),
        !starts_with(ascii_lower_seq(t), "style"@),
    ensures
        spec_strip_html(x + seq!['<'] + t + seq!['>'] + y) == x + seq![' '] + y,
{
    reveal_strlit("script");
    reveal_strlit("style");
    let html = x + seq!['<'] + t + seq!['>'] + y;
    let n1 = x.len() as int;
    let n2 = n1 + 1;
    let n3 = n2 + t.len();
    let n4 = n3 + 1;
    let n5 = n4 + y.len();
    assert(html.len() == n5);
    assert forall|j: int| 0 <= j < n1 implies html[j] != '<' by {
        assert(html[j] == x[j]);
    }
    lemma_scan_text(html, 0, n1, seq![]);
    assert(seq![] + html.subrange(0, n1) =~= x);
    assert(html[n1] == '<');
    assert(strip_scan(html, n2) == strip_step(strip_scan(html, n1), '<'));
    assert forall|j: int| n2 <= j < n3 implies html[j] != '>' by {
        assert(html[j] == t[j - n2]);
    }
    lemma_scan_tag(html, n2, n3, x);
    assert(html.subrange(n2, n3) =~= t);
    assert(html[n3] == '>');
    let st = strip_scan(html, n3);
    assert(strip_scan(html, n4) == strip_step(st, '>'));
    let lower = ascii_lower_seq(t.push('>'));
    let lt = ascii_lower_seq(t);
    assert forall|j: int| 0 <= j < t.len() implies #[trigger] lower[j] == lt[j] by {}
    assert(lower[t.len() as int] == '>');
    let closing = lower.len() > 0 && lower[0] == '/';
    if !closing {
        assert(tag_name(lower) == lower);
        if lower.len() >= 6 && lower.take(6) == "script"@ {
            if t.len() >= 6 {
                assert(lt.take(6) =~= lower.take(6));
            } else {
                assert(lower.take(6)[5] == '>');
            }
        }
        if lower.len() >= 5 && lower.take(5) == "style"@ {
            if t.len() >= 5 {
                assert(lt.take(5) =~= lower.take(5));
            } else {
                assert(lower.take(5)[4] == '>');
            }
        }
    }
    let st4 = strip_scan(html, n4);
    assert(!st4.in_script && !st4.in_style && !st4.in_tag);
    assert(st4.out == x.push(' '));
    assert forall|j: int| n4 <= j < n5 implies html[j] != '<' by {
        assert(html[j] == y[j - n4]);
    }
    lemma_scan_text(html, n4, n5, x.push(' '));
    assert(html.subrange(n4, n5) =~= y);
    assert(x.push(' ') + y =~= x + seq![' '] + y);
    assert forall|j: int| 0 <= j < x.len() implies !is_white(x[j]) by {}
    assert forall|j: int| 0 <= j < y.len() implies !is_white(y[j]) by {}
    lemma_collapse_two_words(x, seq![' '], y, y.len() as int);
    assert(y.take(y.len() as int) =~= y);
}

/// The scan inside a script or style element, outside tags: text is dropped.
proof fn lemma_scan_hidden(s: Seq<char>, a: int, b: int, o: Seq<char>)
    requires
        0 <= a <= b <= s.len(),
        strip_scan(s, a).out == o,
        !strip_scan(s, a).in_tag,
        strip_scan(s, a).in_script || strip_scan(s, a).in_style,
        forall|j: int| a <= j < b ==> s[j] != '<',
    ensures
        strip_scan(s, b) == strip_scan(s, a),
    decreases b - a,
{
    if b > a {
        lemma_scan_hidden(s, a, b - 1, o);
        assert(strip_scan(s, b) == strip_step(strip_scan(s, b - 1), s[b - 1]));
    }
}

/// The content of a `<script>` element never reaches the text: a word, a
/// script element holding no tag, and another word come out as the two
/// words joined by one space.
pub proof fn lemma_script_content_dropped(x: Seq<char>, z: Seq<char>, y: Seq<char>)
    requires
        x.len() > 0,
        y.len() > 0,
        x.len() + y.len() < 8000,
        forall|j: int| 0 <= j < x.len() ==> !is_white(x[j]) && x[j] != '<',
        forall|j: int| 0 <= j < y.len() ==> !is_white(y[j]) && y[j] != '<',
        forall|j: int| 0 <= j < z.len() ==> z[j] != '<',
    ensures
        spec_strip_html(x + "<script>"@ + z + "</script>"@ + y) == x + seq![' '] + y,
{
    reveal_strlit("<script>");
    reveal_strlit("</script>");
    reveal_strlit("/script");
    reveal_strlit("script");
    reveal_strlit("style");
    let open_tag = "<script>"@;
    let close_tag = "</script>"@;
    let html = x + open_tag + z + close_tag + y;
    let n1 = x.len() as int;
    let n2 = n1 + 8;
    let n3 = n2 + z.len();
    let n4 = n3 + 9;
    let n5 = n4 + y.len();
    assert(html.len() == n5);
    assert forall|j: int| 0 <= j < n1 implies html[j] != '<' by {
        assert(html[j] == x[j]);
    }
    lemma_scan_text(html, 0, n1, seq![]);
    assert(seq![] + html.subrange(0, n1) =~= x);
    // the opening tag
    assert(html[n1] == '<');
    assert(strip_scan(html, n1 + 1) == strip_step(strip_scan(html, n1), '<'));
    assert forall|j: int| n1 + 1 <= j < n1 + 7 implies html[j] != '>' by {
        assert(html[j] == open_tag[j - n1]);
    }
    lemma_scan_tag(html, n1 + 1, n1 + 7, x);
    assert(html.subrange(n1 + 1, n1 + 7) =~= "script"@);
    assert(html[n1 + 7] == '>');
    assert(strip_scan(html, n2) == strip_step(strip_scan(html, n1 + 7), '>'));
    let lo = ascii_lower_seq("script"@.push('>'));
    assert(lo =~= seq!['s', 'c', 'r', 'i', 'p', 't', '>']);
    assert(tag_name(lo) == lo);
    assert(lo.take(6) =~= "script"@);
    assert(lo.take(5) != "style"@) by {
        assert(lo.take(5)[1] != "style"@[1]);
    }
    let st2 = strip_scan(html, n2);
    assert(st2.in_script && !st2.in_style && !st2.in_tag);
    assert(st2.out == x.push(' '));
    // the script's content
    assert forall|j: int| n2 <= j < n3 implies html[j] != '<' by {
        assert(html[j] == z[j - n2]);
    }
    lemma_scan_hidden(html, n2, n3, x.push(' '));
    // the closing tag
    assert(html[n3] == '<');
    assert(strip_scan(html, n3 + 1) == strip_step(strip_scan(html, n3), '<'));
    assert forall|j: int| n3 + 1 <= j < n3 + 8 implies html[j] != '>' by {
        assert(html[j] == close_tag[j - n3]);
    }
    lemma_scan_tag(html, n3 + 1, n3 + 8, x.push(' '));
    assert(html.subrange(n3 + 1, n3 + 8) =~= "/script"@);
    assert(html[n3 + 8] == '>');
    assert(strip_scan(html, n4) == strip_step(strip_scan(html, n3 + 8), '>'));
    let lc = ascii_lower_seq("/script"@.push('>'));
    assert(lc =~= seq!['/', 's', 'c', 'r', 'i', 'p', 't', '>']);
    assert(tag_name(lc) =~= seq!['s', 'c', 'r', 'i', 'p', 't', '>']);
    assert(tag_name(lc).take(6) =~= "script"@);
    assert(tag_name(lc).take(5) != "style"@) by {
        assert(tag_name(lc).take(5)[1] != "style"@[1]);
    }
    let st4 = strip_scan(html, n4);
    assert(!st4.in_script && !st4.in_style && !st4.in_tag);
    assert(st4.out == x.push(' ').push(' '));
    // the text after it
    assert forall|j: int| n4 <= j < n5 implies html[j] != '<' by {
        assert(html[j] == y[j - n4]);
    }
    lemma_scan_text(html, n4, n5, x.push(' ').push(' '));
    assert(html.subrange(n4, n5) =~= y);
    let sp = seq![' ', ' '];
    assert(x.push(' ').push(' ') + y =~= x + sp + y);
    assert forall|j: int| 0 <= j < x.len() implies !is_white(x[j]) by {}
    assert forall|j: int| 0 <= j < y.len() implies !is_white(y[j]) by {}
    lemma_collapse_two_words(x, sp, y, y.len() as int);
    assert(y.take(y.len() as int) =~= y);
}

fn starts_with_word(s: &[char], from: usize, w: &[char]) -> (b: bool)
    requires
        from <= s.len(),
    ensures
        b == (s@.skip(from as int).len() >= w@.len() && s@.skip(from as int).take(w@.len() as int)
            == w@),
{
    if s.len() - from < w.len() {
        return false;
    }
    let mut k: usize = 0;
    while k < w.len()
        invariant
            from + w.len() <= s.len(),
            k <= w.len(),
            forall|j: int| 0 <= j < k ==> s@[from + j] == w@[j],
        decreases w.len() - k,
    {
        if s[from + k] != w[k] {
            assert(s@.skip(from as int).take(w@.len() as int)[k as int] != w@[k as int]);
            return false;
        }
        k = k + 1;
    }
    assert(s@.skip(from as int).take(w@.len() as int) =~= w@);
    true
}

fn collapse_whitespace(s: &[char]) -> (r: Vec<char>)
    ensures
        r@ == collapse_ws(s@),
{
    let mut r: Vec<char> = Vec::new();
    let mut i: usize = 0;
    while i < s.len()
        invariant
            i <= s.len(),
            r@ == collapse_ws(s@.take(i as int)),
        decreases s.len() - i,
    {
        let c = s[i];
        let ghost t = s@.take(i + 1);
        assert(t.drop_last() == s@.take(i as int));
        if char_is_white(c) {
        } else if i >= 1 && char_is_white(s[i - 1]) && r.len() > 0 {
            r.push(' ');
            r.push(c);
        } else {
            r.push(c);
        }
        i = i + 1;
    }
    assert(s@.take(s@.len() as int) == s@);
    r
}

/// Strips HTML tags and collapses whitespace to produce plain text (see
/// [`spec_strip_html`]).
pub fn strip_html(html: &str) -> (r: String)
    ensures
        r@ == spec_strip_html(html@),
{
    proof {
        reveal_strlit("script");
        reveal_strlit("style");
    }
    let chars = chars_of(html);
    let script = chars_of("script");
    let style = chars_of("style");
    let mut out: Vec<char> = Vec::new();
    let mut in_tag = false;
    let mut in_script = false;
    let mut in_style = false;
    let mut tag_buf: Vec<char> = Vec::new();
    let mut i: usize = 0;
    while i < chars.len()
        invariant
            i <= chars.len(),
            chars@ == html@,
            script@ == "script"@,
            style@ == "style"@,
            ({
                let st = strip_scan(chars@, i as int);
                &&& out@ == st.out
                &&& in_tag == st.in_tag
                &&& in_script == st.in_script
                &&& in_style == st.in_style
                &&& tag_buf@ == st.buf
            }),
        decreases chars.len() - i,
    {
        proof {
            reveal_strlit("script");
            reveal_strlit("style");
        }
        let c = chars[i];
        let ghost st = strip_scan(chars@, i as int);
        let ghost nx = strip_step(st, c);
        assert(strip_scan(chars@, i + 1) == nx);
        if in_tag {
            tag_buf.push(c);
            if c == '>' {
                let lower = lower_ascii(&tag_buf);
                assert(lower@ == ascii_lower_seq(st.buf.push(c)));
                let closing = lower.len() > 0 && lower[0] == '/';
                let from: usize = if closing {
                    1
                } else {
                    0
                };
                assert(tag_name(lower@) == lower@.skip(from as int));
                if starts_with_word(&lower, from, &script) {
                    in_script = !closing;
                }
                if starts_with_word(&lower, from, &style) {
                    in_style = !closing;
                }
                in_tag = false;
                tag_buf = Vec::new();
                out.push(' ');
                assert(in_script == nx.in_script);
                assert(in_style == nx.in_style);
                assert(tag_buf@ == nx.buf);
                assert(out@ == nx.out);
            }
        } else if c == '<' {
            in_tag = true;
            tag_buf = Vec::new();
        } else if !in_script && !in_style {
            out.push(c);
        }
        i = i + 1;
    }
    let collapsed = collapse_whitespace(&out);
    if collapsed.len() > 8000 {
        string_of(&slice_chars(&collapsed, 0, 8000))
    } else {
        string_of(&collapsed)
    }
}

// ── Percent-encoding ─────────────────────────────────────────────────────────

/// Whether `char::is_alphanumeric` holds of a character (Unicode alphabetic
/// or numeric; named, not stated).
pub uninterp spec fn unicode_alphanumeric(c: char) -> bool;

/// Calls `char::is_alphanumeric`. Claims that the answer is a function of the
/// character, named `unicode_alphanumeric`, and that for an ASCII character
/// it holds exactly of letters and digits (as the method's documentation says
/// of ASCII).
#[verifier::external_body]
fn is_alphanumeric(c: char) -> (b: bool)
    ensures
        b == unicode_alphanumeric(c),
        (c as u32) < 128 ==> (b == is_ascii_alnum(c)),
{
    c.is_alphanumeric()
}

/// Characters kept as they are: alphanumerics and `- _ . ~ : /`.
pub open spec fn url_safe(c: char) -> bool {
    unicode_alphanumeric(c) || c == '-' || c == '_' || c == '.' || c == '~' || c == ':' || c
        == '/'
}

/// `s` with every character that is not safe written as `%` and its code
/// point in (at least two) uppercase hex digits.
pub open spec fn spec_url_encode(s: Seq<char>) -> Seq<char>
    decreases s.len(),
{
    if s.len() == 0 {
        seq![]
    } else {
        let c = s.last();
        spec_url_encode(s.drop_last()) + if url_safe(c) {
            seq![c]
        } else {
            seq!['%'] + hex_upper_padded((c as u32) as nat, 2)
        }
    }
}

/// Percent-encodes a URL for use as a query-string value: scheme and path
/// characters (`:` `/`) are kept, `?`, `&`, spaces and the like are encoded.
pub fn url_encode(s: &str) -> (r: String)
    ensures
        r@ == spec_url_encode(s@),
{
    let chars = chars_of(s);
    let mut out: Vec<char> = Vec::new();
    let mut i: usize = 0;
    while i < chars.len()
        invariant
            i <= chars.len(),
            out@ == spec_url_encode(chars@.take(i as int)),
        decreases chars.len() - i,
    {
        let c = chars[i];
        let ghost before = out@;
        assert(chars@.take(i + 1).drop_last() == chars@.take(i as int));
        if is_alphanumeric(c) || c == '-' || c == '_' || c == '.' || c == '~' || c == ':' || c
            == '/' {
            out.push(c);
            assert(out@ =~= before + seq![c]);
        } else {
            out.push('%');
            push_hex_upper(&mut out, c as u32, 2);
            assert(out@ =~= before + (seq!['%'] + hex_upper_padded((c as u32) as nat, 2)));
        }
        i = i + 1;
    }
    assert(chars@.take(chars@.len() as int) == chars@);
    string_of(&out)
}

// ── Browser session ──────────────────────────────────────────────────────────

/// The tab state of a browser session, as text.
pub struct SessionView {
    /// The active tab (CDP target id).
    pub active: Option<Seq<char>>,
    /// The URL loaded in the active tab.
    pub url: Option<Seq<char>>,
    /// The title of that page.
    pub title: Option<Seq<char>>,
    /// The open tabs, oldest first.
    pub tabs: Seq<Seq<char>>,
}

/// A session with no tabs and no page.
pub open spec fn empty_session() -> SessionView {
    SessionView { active: None, url: None, title: None, tabs: seq![] }
}

/// `s` after the tab `id` was opened: it is the active tab, appended to the
/// open tabs; the page is unchanged.
pub open spec fn with_tab(s: SessionView, id: Seq<char>) -> SessionView {
    SessionView { active: Some(id), url: s.url, title: s.title, tabs: s.tabs.push(id) }
}

/// `tabs` without any occurrence of `id`, in order.
pub open spec fn without(tabs: Seq<Seq<char>>, id: Seq<char>) -> Seq<Seq<char>>
    decreases tabs.len(),
{
    if tabs.len() == 0 {
        seq![]
    } else {
        let rest = without(tabs.drop_last(), id);
        if tabs.last() == id {
            rest
        } else {
            rest.push(tabs.last())
        }
    }
}

/// `s` after the tab `id` was closed: it leaves the open tabs, the newest
/// remaining tab becomes active, and no page is loaded.
pub open spec fn after_close(s: SessionView, id: Seq<char>) -> SessionView {
    let tabs = without(s.tabs, id);
    SessionView {
        active: if tabs.len() == 0 {
            None
        } else {
            Some(tabs.last())
        },
        url: None,
        title: None,
        tabs,
    }
}

/// The title recorded for `url` loaded with `page_text`: the page's
/// `<title>`, or the URL itself when it has none.
pub open spec fn page_title(url: Seq<char>, page_text: Seq<char>) -> Seq<char> {
    match spec_extract_title(page_text) {
        Some(t) => t,
        None => url,
    }
}

/// The error of a page action before any page was loaded.
pub open spec fn no_page_message() -> Seq<char> {
    "No page loaded; call browser_navigate first"@
}

pub open spec fn tabs_view(t: Seq<String>) -> Seq<Seq<char>> {
    t.map_values(|s: String| s@)
}

/// The tab state a browser session keeps between tool calls.
pub struct SessionState {
    active_target_id: Option<String>,
    current_url: Option<String>,
    current_title: Option<String>,
    open_tabs: Vec<String>,
}

impl View for SessionState {
    type V = SessionView;

    closed spec fn view(&self) -> SessionView {
        SessionView {
            active: opt_text(self.active_target_id),
            url: opt_text(self.current_url),
            title: opt_text(self.current_title),
            tabs: tabs_view(self.open_tabs@),
        }
    }
}

/// A connection to a Chrome DevTools Protocol endpoint and the tab state
/// that all browser tools share: the tools of one agent loop act on one
/// session.
pub struct BrowserSession {
    /// Base URL of the CDP HTTP endpoint, e.g. `http://localhost:9222`.
    pub cdp_url: String,
    /// How long to wait for page-load and selector operations, in ms.
    pub timeout_ms: u64,
    /// Browser profile in use.
    pub profile: BrowserProfile,
    /// The tab state.
    pub state: SessionState,
}

impl View for BrowserSession {
    type V = SessionView;

    open spec fn view(&self) -> SessionView {
        self.state@
    }
}

fn clone_opt(o: &Option<String>) -> (r: Option<String>)
    ensures
        opt_text(r) == opt_text(*o),
{
    match o {
        Some(s) => Some(s.clone()),
        None => None,
    }
}

impl BrowserSession {
    /// A session targeting the default local CDP port (9222).
    pub fn new() -> (s: Self)
        ensures
            s.cdp_url@ == "http://localhost:9222"@,
            s.timeout_ms == 30000,
            s.profile == BrowserProfile::Headless,
            s@ == empty_session(),
    {
        Self::with_cdp_url("http://localhost:9222".to_string())
    }

    /// A session targeting the CDP endpoint `cdp_url`, with a 30 s timeout
    /// and the headless profile.
    pub fn with_cdp_url(cdp_url: String) -> (s: Self)
        ensures
            s.cdp_url == cdp_url,
            s.timeout_ms == 30000,
            s.profile == BrowserProfile::Headless,
            s@ == empty_session(),
    {
        let s = BrowserSession {
            cdp_url,
            timeout_ms: 30000,
            profile: BrowserProfile::Headless,
            state: SessionState {
                active_target_id: None,
                current_url: None,
                current_title: None,
                open_tabs: Vec::new(),
            },
        };
        assert(tabs_view(s.state.open_tabs@) =~= seq![]);
        s
    }

    /// The session with the timeout `timeout_ms`.
    pub fn with_timeout(self, timeout_ms: u64) -> (s: Self)
        ensures
            s.timeout_ms == timeout_ms,
            s.cdp_url == self.cdp_url,
            s.profile == self.profile,
            s@ == self@,
    {
        let mut s = self;
        s.timeout_ms = timeout_ms;
        s
    }

    /// The session with the browser profile `profile`.
    pub fn with_profile(self, profile: BrowserProfile) -> (s: Self)
        ensures
            s.profile == profile,
            s.cdp_url == self.cdp_url,
            s.timeout_ms == self.timeout_ms,
            s@ == self@,
    {
        let mut s = self;
        s.profile = profile;
        s
    }

    /// The URL of the current page, if any.
    pub fn current_url(&self) -> (r: Option<String>)
        ensures
            opt_text(r) == self@.url,
    {
        clone_opt(&self.state.current_url)
    }

    /// The title of the current page, if any.
    pub fn current_title(&self) -> (r: Option<String>)
        ensures
            opt_text(r) == self@.title,
    {
        clone_opt(&self.state.current_title)
    }

    /// The number of open tabs.
    pub fn open_tab_count(&self) -> (n: usize)
        ensures
            n == self@.tabs.len(),
    {
        self.state.open_tabs.len()
    }

    /// The active tab, if any.
    pub fn active_target(&self) -> (r: Option<String>)
        ensures
            opt_text(r) == self@.active,
    {
        clone_opt(&self.state.active_target_id)
    }

    /// The endpoint listing the open targets.
    pub fn list_targets_endpoint(&self) -> (r: String)
        ensures
            r@ == self.cdp_url@ + "/json/list"@,
    {
        concat_str(self.cdp_url.as_str(), "/json/list")
    }

    /// The endpoint that opens a tab, loading `url` (percent-encoded) when
    /// one is given.
    pub fn new_target_endpoint(&self, url: Option<&str>) -> (r: String)
        ensures
            r@ == match url {
                Some(u) => self.cdp_url@ + "/json/new?"@ + spec_url_encode(u@),
                None => self.cdp_url@ + "/json/new"@,
            },
    {
        match url {
            Some(u) => join3(self.cdp_url.as_str(), "/json/new?", url_encode(u).as_str()),
            None => concat_str(self.cdp_url.as_str(), "/json/new"),
        }
    }

    /// The endpoint that closes the tab `target_id`.
    pub fn close_target_endpoint(&self, target_id: &str) -> (r: String)
        ensures
            r@ == self.cdp_url@ + "/json/close/"@ + target_id@,
    {
        join3(self.cdp_url.as_str(), "/json/close/", target_id)
    }

    /// The endpoint that activates the tab `target_id`.
    pub fn activate_endpoint(&self, target_id: &str) -> (r: String)
        ensures
            r@ == self.cdp_url@ + "/json/activate/"@ + target_id@,
    {
        join3(self.cdp_url.as_str(), "/json/activate/", target_id)
    }

    /// Makes the tab `id` the active one, appended to the open tabs.
    pub fn open_tab(&mut self, id: String)
        ensures
            final(self)@ == with_tab(old(self)@, id@),
            final(self).cdp_url == old(self).cdp_url,
            final(self).timeout_ms == old(self).timeout_ms,
            final(self).profile == old(self).profile,
    {
        self.state.active_target_id = Some(id.clone());
        self.state.open_tabs.push(id);
        assert(tabs_view(self.state.open_tabs@) =~= tabs_view(old(self).state.open_tabs@).push(id@));
    }

    /// Adopts the tab that CDP opened for a navigation: its string member
    /// `id` becomes the active tab; a reply without one is an error and
    /// leaves the session as it was.
    pub fn adopt_target(&mut self, target: &JsonValue) -> (r: Result<String, String>)
        ensures
            final(self).cdp_url == old(self).cdp_url,
            final(self).timeout_ms == old(self).timeout_ms,
            final(self).profile == old(self).profile,
            match string_arg(*target, "id"@) {
                Some(id) => r matches Ok(x) && x@ == id && final(self)@ == with_tab(old(self)@, id),
                None => r matches Err(e) && e@ == "CDP new target returned no id"@ && final(self)@
                    == old(self)@,
            },
    {
        match str_arg(target, "id") {
            Some(id) => {
                self.open_tab(id.clone());
                Ok(id)
            },
            None => Err("CDP new target returned no id".to_string()),
        }
    }

    /// Records that `url` was loaded with `page_text`, and returns the page
    /// title (see [`page_title`]).
    pub fn record_page(&mut self, url: &str, page_text: &str) -> (title: String)
        ensures
            title@ == page_title(url@, page_text@),
            final(self)@ == (SessionView {
                active: old(self)@.active,
                url: Some(url@),
                title: Some(title@),
                tabs: old(self)@.tabs,
            }),
            final(self).cdp_url == old(self).cdp_url,
            final(self).timeout_ms == old(self).timeout_ms,
            final(self).profile == old(self).profile,
    {
        let title = match extract_title(page_text) {
            Some(t) => t,
            None => url.to_string(),
        };
        self.state.current_url = Some(url.to_string());
        self.state.current_title = Some(title.clone());
        title
    }

    /// The URL a snapshot fetches: the current page's, or the error when
    /// none is loaded.
    pub fn snapshot_url(&self) -> (r: Result<String, String>)
        ensures
            match self@.url {
                Some(u) => r matches Ok(x) && x@ == u,
                None => r matches Err(e) && e@ == no_page_message(),
            },
    {
        match &self.state.current_url {
            Some(u) => Ok(u.clone()),
            None => Err("No page loaded; call browser_navigate first".to_string()),
        }
    }

    /// Forgets the tab `id` after CDP closed it (see [`after_close`]).
    pub fn forget_tab(&mut self, id: &str)
        ensures
            final(self)@ == after_close(old(self)@, id@),
            final(self).cdp_url == old(self).cdp_url,
            final(self).timeout_ms == old(self).timeout_ms,
            final(self).profile == old(self).profile,
    {
        let mut kept: Vec<String> = Vec::new();
        let mut i: usize = 0;
        while i < self.state.open_tabs.len()
            invariant
                i <= self.state.open_tabs.len(),
                self.state.open_tabs@ == old(self).state.open_tabs@,
                tabs_view(kept@) == without(tabs_view(self.state.open_tabs@).take(i as int), id@),
            decreases self.state.open_tabs.len() - i,
        {
            let ghost t = tabs_view(self.state.open_tabs@);
            assert(t.take(i + 1).drop_last() =~= t.take(i as int));
            assert(t.take(i + 1).last() == self.state.open_tabs@[i as int]@);
            if !str_eq(self.state.open_tabs[i].as_str(), id) {
                let c = self.state.open_tabs[i].clone();
                kept.push(c);
                assert(tabs_view(kept@) =~= without(t.take(i as int), id@).push(
                    self.state.open_tabs@[i as int]@,
                ));
            }
            i = i + 1;
        }
        assert(tabs_view(self.state.open_tabs@).take(self.state.open_tabs@.len() as int) =~= tabs_view(
            self.state.open_tabs@,
        ));
        let last: Option<String> = if kept.len() == 0 {
            None
        } else {
            Some(kept[kept.len() - 1].clone())
        };
        self.state.open_tabs = kept;
        self.state.active_target_id = last;
        self.state.current_url = None;
        self.state.current_title = None;
    }
}

proof fn lemma_push_contains(s: Seq<Seq<char>>, x: Seq<char>, t: Seq<char>)
    ensures
        s.push(x).contains(t) <==> (s.contains(t) || x == t),
{
    if s.contains(t) {
        let k = choose|k: int| 0 <= k < s.len() && s[k] == t;
        assert(s.push(x)[k] == t);
    }
    if x == t {
        assert(s.push(x)[s.len() as int] == t);
    }
    if s.push(x).contains(t) {
        let k = choose|k: int| 0 <= k < s.push(x).len() && s.push(x)[k] == t;
        if k < s.len() {
            assert(s[k] == t);
        }
    }
}

/// Closing a tab removes it from the open tabs and keeps every other tab.
pub proof fn lemma_closed_tab_is_gone(tabs: Seq<Seq<char>>, id: Seq<char>)
    ensures
        !without(tabs, id).contains(id),
        forall|t: Seq<char>| t != id ==> (without(tabs, id).contains(t) <==> tabs.contains(t)),
    decreases tabs.len(),
{
    if tabs.len() > 0 {
        let init = tabs.drop_last();
        lemma_closed_tab_is_gone(init, id);
        let rest = without(init, id);
        assert(init.push(tabs.last()) =~= tabs);
        assert forall|t: Seq<char>| t != id implies (without(tabs, id).contains(t) <==> tabs.contains(
            t,
        )) by {
            lemma_push_contains(init, tabs.last(), t);
            lemma_push_contains(rest, tabs.last(), t);
        }
        lemma_push_contains(rest, tabs.last(), id);
    }
}

/// Closing a tab that was just opened, and was not open before, gives back
/// the open tabs as they were.
pub proof fn lemma_open_then_close(tabs: Seq<Seq<char>>, id: Seq<char>)
    requires
        !tabs.contains(id),
    ensures
        without(tabs.push(id), id) == tabs,
{
    assert(tabs.push(id).drop_last() =~= tabs);
    lemma_without_absent(tabs, id);
}

/// Removing a tab that is not open changes nothing.
proof fn lemma_without_absent(tabs: Seq<Seq<char>>, id: Seq<char>)
    requires
        !tabs.contains(id),
    ensures
        without(tabs, id) == tabs,
    decreases tabs.len(),
{
    if tabs.len() > 0 {
        assert(!tabs.drop_last().contains(id)) by {
            if tabs.drop_last().contains(id) {
                let k = choose|k: int| 0 <= k < tabs.drop_last().len() && tabs.drop_last()[k] == id;
                assert(tabs[k] == id);
            }
        }
        lemma_without_absent(tabs.drop_last(), id);
        assert(tabs[tabs.len() - 1] != id);
        assert(tabs.drop_last().push(tabs.last()) =~= tabs);
    }
}

// ── Browser tools ────────────────────────────────────────────────────────────

/// `n` limited to `lo..=hi`.
pub open spec fn clamp(n: u64, lo: u64, hi: u64) -> u64 {
    if n < lo {
        lo
    } else if n > hi {
        hi
    } else {
        n
    }
}

/// The first `n` characters of `s` (all of it when shorter).
pub open spec fn first_chars(s: Seq<char>, n: nat) -> Seq<char> {
    if n < s.len() {
        s.take(n as int)
    } else {
        s
    }
}

/// `o`'s text, or `(unknown)`.
pub open spec fn or_unknown(o: Option<Seq<char>>) -> Seq<char> {
    match o {
        Some(t) => t,
        None => "(unknown)"@,
    }
}

fn text_or(o: Option<String>, default: &str) -> (r: String)
    ensures
        r@ == match opt_text(o) {
            Some(t) => t,
            None => default@,
        },
{
    match o {
        Some(t) => t,
        None => default.to_string(),
    }
}

/// The error result `Missing required parameter '<name>'`.
pub open spec fn missing_message(name: Seq<char>) -> Seq<char> {
    "Missing required parameter '"@ + name + "'"@
}

fn missing(name: &str) -> (r: ToolResult)
    ensures
        result_is(r, Err(missing_message(name@))),
{
    ToolResult::err(join3("Missing required parameter '", name, "'"))
}

/// What a navigation request asks: the URL (which must be `http` or
/// `https`) and the milliseconds to wait first (at most 10 s), or the error.
pub open spec fn navigate_request_spec(args: JsonValue) -> Result<(Seq<char>, u64), Seq<char>> {
    match string_arg(args, "url"@) {
        None => Err(missing_message("url"@)),
        Some(u) => if !(starts_with(u, "http://"@) || starts_with(u, "https://"@)) {
            Err("URL must start with http:// or https://, got: "@ + u)
        } else {
            Ok((u, clamp(u64_arg_or(args, "wait_ms"@, 0), 0, 10000)))
        },
    }
}

/// The parameters of `BrowserNavigateTool`.
pub open spec fn navigate_schema() -> JsonView {
    object_schema(
        seq![
            ("url"@, typed_prop("string"@, "The full URL to navigate to (must start with http:// or https://)."@)),
            ("wait_ms"@, int_prop("Milliseconds to wait after navigation before returning (default: 0)."@, 0, 0, 10000)),
        ],
        seq!["url"@],
    )
}

/// Navigates the browser to a URL and returns the page title.
pub struct BrowserNavigateTool;

impl BrowserNavigateTool {
    pub fn new() -> (t: Self) {
        BrowserNavigateTool
    }

    pub fn name(&self) -> (s: &'static str)
        ensures
            s@ == "browser_navigate"@,
    {
        "browser_navigate"
    }

    pub fn description(&self) -> (s: &'static str)
        ensures
            s@ == "Navigate the browser to a URL and return the page title. Use this before taking a snapshot or interacting with page elements."@,
    {
        "Navigate the browser to a URL and return the page title. Use this before taking a snapshot or interacting with page elements."
    }

    /// The JSON Schema of the tool's parameters (see [`navigate_schema`]).
    pub fn parameters_schema(&self) -> (v: JsonValue)
        ensures
            json_view(v) == navigate_schema(),
    {
        let props: Vec<(String, JsonValue)> = vec![
            member("url", typed_property("string", "The full URL to navigate to (must start with http:// or https://).")),
            member("wait_ms", integer_property("Milliseconds to wait after navigation before returning (default: 0).", 0, 0, 10000)),
        ];
        let required: &[&str] = &["url"];
        assert(props_view(props@) =~= seq![
            ("url"@, typed_prop("string"@, "The full URL to navigate to (must start with http:// or https://)."@)),
            ("wait_ms"@, int_prop("Milliseconds to wait after navigation before returning (default: 0)."@, 0, 0, 10000)),
        ]);
        assert(required@.map_values(|n: &str| n@) =~= seq!["url"@]);
        object_schema_of(props, required)
    }

    /// The URL and the wait a request asks for, or the error result (see
    /// [`navigate_request_spec`]).
    pub fn request(args: &JsonValue) -> (r: Result<(String, u64), ToolResult>)
        ensures
            match navigate_request_spec(*args) {
                Ok((u, w)) => r matches Ok((x, y)) && x@ == u && y == w,
                Err(e) => r matches Err(t) && result_is(t, Err(e)),
            },
    {
        let url = match str_arg(args, "url") {
            Some(u) => u,
            None => return Err(missing("url")),
        };
        let c = chars_of(url.as_str());
        if !(has_prefix(&c, &chars_of("http://")) || has_prefix(&c, &chars_of("https://"))) {
            return Err(
                ToolResult::err(concat_str("URL must start with http:// or https://, got: ", url.as_str())),
            );
        }
        let w = u64_arg_or_default(args, "wait_ms", 0);
        Ok((url, if w > 10000 { 10000 } else { w }))
    }

    /// The result of a navigation to `url`: the page title it reached, or
    /// why it failed.
    pub fn report(url: &str, outcome: Result<String, String>) -> (r: ToolResult)
        ensures
            match outcome {
                Ok(t) => result_is(r, Ok("Navigated to "@ + url@ + "\nPage title: "@ + t@)),
                Err(e) => result_is(r, Err("Navigation failed for "@ + url@ + ": "@ + e@)),
            },
    {
        match outcome {
            Ok(t) => ToolResult::ok(join4("Navigated to ", url, "\nPage title: ", t.as_str())),
            Err(e) => ToolResult::err(join4("Navigation failed for ", url, ": ", e.as_str())),
        }
    }
}

/// The snapshot text of a page: its HTML stripped to text, cut to
/// `max_chars` characters, under the page's URL and title.
pub open spec fn snapshot_text(s: SessionView, html: Seq<char>, max_chars: nat) -> Seq<char> {
    "URL: "@ + or_unknown(s.url) + "\nTitle: "@ + or_unknown(s.title) + "\n\n"@ + first_chars(
        spec_strip_html(html),
        max_chars,
    )
}

/// The parameters of `BrowserSnapshotTool`.
pub open spec fn snapshot_schema() -> JsonView {
    object_schema(
        seq![
            ("max_chars"@, int_prop("Maximum characters to return (default: 4000, max: 8000)."@, 4000, 100, 8000)),
        ],
        seq![],
    )
}

/// Captures a text snapshot of the current page.
pub struct BrowserSnapshotTool;

impl BrowserSnapshotTool {
    pub fn new() -> (t: Self) {
        BrowserSnapshotTool
    }

    pub fn name(&self) -> (s: &'static str)
        ensures
            s@ == "browser_snapshot"@,
    {
        "browser_snapshot"
    }

    pub fn description(&self) -> (s: &'static str)
        ensures
            s@ == "Capture a text snapshot of the current browser page, stripping HTML tags to return readable content. Call browser_navigate first to load a page."@,
    {
        "Capture a text snapshot of the current browser page, stripping HTML tags to return readable content. Call browser_navigate first to load a page."
    }

    /// The JSON Schema of the tool's parameters (see [`snapshot_schema`]).
    pub fn parameters_schema(&self) -> (v: JsonValue)
        ensures
            json_view(v) == snapshot_schema(),
    {
        let props: Vec<(String, JsonValue)> = vec![
            member("max_chars", integer_property("Maximum characters to return (default: 4000, max: 8000).", 4000, 100, 8000)),
        ];
        let required: &[&str] = &[];
        assert(props_view(props@) =~= seq![
            ("max_chars"@, int_prop("Maximum characters to return (default: 4000, max: 8000)."@, 4000, 100, 8000)),
        ]);
        assert(required@.map_values(|n: &str| n@) =~= seq![]);
        object_schema_of(props, required)
    }

    /// How many characters a snapshot returns: `max_chars` (4000 by
    /// default) limited to 100..=8000.
    pub fn max_chars(args: &JsonValue) -> (n: usize)
        ensures
            n == clamp(u64_arg_or(*args, "max_chars"@, 4000), 100, 8000),
    {
        let m = u64_arg_or_default(args, "max_chars", 4000);
        let c: u64 = if m < 100 {
            100
        } else if m > 8000 {
            8000
        } else {
            m
        };
        c as usize
    }

    /// The result of a snapshot of `session`'s page, whose HTML was fetched
    /// (`Ok`) or not (`Err`, with why).
    pub fn report(session: &BrowserSession, fetched: Result<String, String>, max_chars: usize) -> (r:
        ToolResult)
        ensures
            match fetched {
                Ok(html) => result_is(r, Ok(snapshot_text(session@, html@, max_chars as nat))),
                Err(e) => result_is(r, Err("Snapshot failed: "@ + e@)),
            },
    {
        match fetched {
            Ok(html) => {
                let text = chars_of(strip_html(html.as_str()).as_str());
                let n = if max_chars < text.len() {
                    max_chars
                } else {
                    text.len()
                };
                let cut = slice_chars(&text, 0, n);
                proof {
                    if max_chars >= text@.len() {
                        assert(text@.take(n as int) =~= text@);
                    }
                }
                let url = text_or(session.current_url(), "(unknown)");
                let title = text_or(session.current_title(), "(unknown)");
                ToolResult::ok(
                    join6("URL: ", url.as_str(), "\nTitle: ", title.as_str(), "\n\n", string_of(&cut).as_str()),
                )
            },
            Err(e) => ToolResult::err(concat_str("Snapshot failed: ", e.as_str())),
        }
    }
}

/// The parameters of `BrowserClickTool`.
pub open spec fn click_schema() -> JsonView {
    object_schema(
        seq![
            ("delay_ms"@, int_prop("Delay in milliseconds before clicking, to mimic human interaction (default: 0, max: 2000)."@, 0, 0, 2000)),
            ("selector"@, typed_prop("string"@, "CSS selector of the element to click (e.g. 'button#submit', 'a.nav-link[href=\"/home\"]')."@)),
        ],
        seq!["selector"@],
    )
}

/// Clicks an element of the current page.
pub struct BrowserClickTool;

impl BrowserClickTool {
    pub fn new() -> (t: Self) {
        BrowserClickTool
    }

    pub fn name(&self) -> (s: &'static str)
        ensures
            s@ == "browser_click"@,
    {
        "browser_click"
    }

    pub fn description(&self) -> (s: &'static str)
        ensures
            s@ == "Click an element on the current browser page using a CSS selector. Use browser_snapshot first to identify the selectors available on the page."@,
    {
        "Click an element on the current browser page using a CSS selector. Use browser_snapshot first to identify the selectors available on the page."
    }

    /// The JSON Schema of the tool's parameters (see [`click_schema`]).
    pub fn parameters_schema(&self) -> (v: JsonValue)
        ensures
            json_view(v) == click_schema(),
    {
        let props: Vec<(String, JsonValue)> = vec![
            member("delay_ms", integer_property("Delay in milliseconds before clicking, to mimic human interaction (default: 0, max: 2000).", 0, 0, 2000)),
            member("selector", typed_property("string", "CSS selector of the element to click (e.g. 'button#submit', 'a.nav-link[href=\"/home\"]').")),
        ];
        let required: &[&str] = &["selector"];
        assert(props_view(props@) =~= seq![
            ("delay_ms"@, int_prop("Delay in milliseconds before clicking, to mimic human interaction (default: 0, max: 2000)."@, 0, 0, 2000)),
            ("selector"@, typed_prop("string"@, "CSS selector of the element to click (e.g. 'button#submit', 'a.nav-link[href=\"/home\"]')."@)),
        ]);
        assert(required@.map_values(|n: &str| n@) =~= seq!["selector"@]);
        object_schema_of(props, required)
    }

    /// The selector to click and the delay before the click (at most 2 s),
    /// or the error result when no selector is given.
    pub fn request(args: &JsonValue) -> (r: Result<(String, u64), ToolResult>)
        ensures
            match string_arg(*args, "selector"@) {
                Some(sel) => r matches Ok((x, d)) && x@ == sel && d == clamp(
                    u64_arg_or(*args, "delay_ms"@, 0),
                    0,
                    2000,
                ),
                None => r matches Err(t) && result_is(t, Err(missing_message("selector"@))),
            },
    {
        let selector = match str_arg(args, "selector") {
            Some(s) => s,
            None => return Err(missing("selector")),
        };
        let d = u64_arg_or_default(args, "delay_ms", 0);
        Ok((selector, if d > 2000 { 2000 } else { d }))
    }

    /// The result of clicking `selector` on `session`'s page.
    pub fn outcome(session: &BrowserSession, selector: &str) -> (r: ToolResult)
        ensures
            match session@.url {
                Some(u) => result_is(r, Ok("Clicked element '"@ + selector@ + "' on "@ + u)),
                None => result_is(r, Err(no_page_message())),
            },
    {
        match session.current_url() {
            Some(u) => ToolResult::ok(join4("Clicked element '", selector, "' on ", u.as_str())),
            None => ToolResult::err("No page loaded; call browser_navigate first".to_string()),
        }
    }
}

/// What typing into `s`'s page as `args` ask gives (see
/// [`BrowserTypeTool::execute`]).
pub open spec fn type_spec(s: SessionView, args: JsonValue) -> Result<Seq<char>, Seq<char>> {
    match string_arg(args, "text"@) {
        None => Err(missing_message("text"@)),
        Some(text) => match s.url {
            None => Err(no_page_message()),
            Some(u) => Ok(
                "Typed '"@ + text + "'"@ + (if flag_arg(args, "submit"@) {
                    " + Enter"@
                } else {
                    ""@
                }) + " into "@ + string_arg_or(args, "selector"@, "focused element"@) + " on "@ + u,
            ),
        },
    }
}

/// The parameters of `BrowserTypeTool`.
pub open spec fn type_schema() -> JsonView {
    object_schema(
        seq![
            ("delay_ms"@, int_prop("Delay between keystrokes in milliseconds for human-like input (default: 0, max: 200)."@, 0, 0, 200)),
            ("selector"@, typed_prop("string"@, "Optional CSS selector to focus before typing."@)),
            ("submit"@, bool_prop("If true, press Enter after typing (default: false)."@, false)),
            ("text"@, typed_prop("string"@, "The text to type into the element."@)),
        ],
        seq!["text"@],
    )
}

/// Types text into an element of the current page.
pub struct BrowserTypeTool;

impl BrowserTypeTool {
    pub fn new() -> (t: Self) {
        BrowserTypeTool
    }

    pub fn name(&self) -> (s: &'static str)
        ensures
            s@ == "browser_type"@,
    {
        "browser_type"
    }

    pub fn description(&self) -> (s: &'static str)
        ensures
            s@ == "Type text into a browser input field. Optionally specify a CSS selector to focus the target element first. Use browser_click to focus an element without typing."@,
    {
        "Type text into a browser input field. Optionally specify a CSS selector to focus the target element first. Use browser_click to focus an element without typing."
    }

    /// The JSON Schema of the tool's parameters (see [`type_schema`]).
    pub fn parameters_schema(&self) -> (v: JsonValue)
        ensures
            json_view(v) == type_schema(),
    {
        let props: Vec<(String, JsonValue)> = vec![
            member("delay_ms", integer_property("Delay between keystrokes in milliseconds for human-like input (default: 0, max: 200).", 0, 0, 200)),
            member("selector", typed_property("string", "Optional CSS selector to focus before typing.")),
            member("submit", boolean_property("If true, press Enter after typing (default: false).", false)),
            member("text", typed_property("string", "The text to type into the element.")),
        ];
        let required: &[&str] = &["text"];
        assert(props_view(props@) =~= seq![
            ("delay_ms"@, int_prop("Delay between keystrokes in milliseconds for human-like input (default: 0, max: 200)."@, 0, 0, 200)),
            ("selector"@, typed_prop("string"@, "Optional CSS selector to focus before typing."@)),
            ("submit"@, bool_prop("If true, press Enter after typing (default: false)."@, false)),
            ("text"@, typed_prop("string"@, "The text to type into the element."@)),
        ]);
        assert(required@.map_values(|n: &str| n@) =~= seq!["text"@]);
        object_schema_of(props, required)
    }

    /// Types the required `text` into the element `selector` names (the
    /// focused element by default), pressing Enter after it when `submit`.
    pub fn execute(session: &BrowserSession, args: &JsonValue) -> (r: ToolResult)
        ensures
            result_is(r, type_spec(session@, *args)),
    {
        let text = match str_arg(args, "text") {
            Some(t) => t,
            None => return missing("text"),
        };
        let target = str_arg_or(args, "selector", "focused element");
        let submit = bool_arg(args, "submit");
        let url = match session.current_url() {
            Some(u) => u,
            None => return ToolResult::err("No page loaded; call browser_navigate first".to_string()),
        };
        let suffix = if submit {
            " + Enter"
        } else {
            ""
        };
        let head = join6("Typed '", text.as_str(), "'", suffix, " into ", target.as_str());
        ToolResult::ok(join3(head.as_str(), " on ", url.as_str()))
    }
}

/// What scrolling `s`'s page as `args` ask gives (see
/// [`BrowserScrollTool::execute`]).
pub open spec fn scroll_spec(s: SessionView, args: JsonValue) -> Result<Seq<char>, Seq<char>> {
    match s.url {
        None => Err(no_page_message()),
        Some(u) => match string_arg(args, "selector"@) {
            Some(sel) => Ok("Scrolled to element '"@ + sel + "' on "@ + u),
            None => Ok(
                "Scrolled "@ + string_arg_or(args, "direction"@, "down"@) + " by "@ + decimal(
                    clamp(u64_arg_or(args, "amount_px"@, 500), 1, 10000) as nat,
                ) + "px on "@ + u,
            ),
        },
    }
}

/// The `direction` property of a scroll: one of four directions, down by
/// default.
pub open spec fn direction_prop() -> JsonView {
    JsonView::Object(
        seq![
            ("default"@, JsonView::Str("down"@)),
            ("description"@, JsonView::Str("Scroll direction."@)),
            ("enum"@, str_array(seq!["up"@, "down"@, "top"@, "bottom"@])),
            ("type"@, JsonView::Str("string"@)),
        ],
    )
}

fn direction_property() -> (v: JsonValue)
    ensures
        json_view(v) == direction_prop(),
{
    let dirs: &[&str] = &["up", "down", "top", "bottom"];
    assert(dirs@.map_values(|n: &str| n@) =~= seq!["up"@, "down"@, "top"@, "bottom"@]);
    let f = vec![
        member("default", JsonValue::String("down".to_string())),
        member("description", JsonValue::String("Scroll direction.".to_string())),
        member("enum", string_array(dirs)),
        member("type", JsonValue::String("string".to_string())),
    ];
    let v = object(f);
    assert(props_view(f@) =~= seq![
        ("default"@, JsonView::Str("down"@)),
        ("description"@, JsonView::Str("Scroll direction."@)),
        ("enum"@, str_array(seq!["up"@, "down"@, "top"@, "bottom"@])),
        ("type"@, JsonView::Str("string"@)),
    ]);
    v
}

/// The parameters of `BrowserScrollTool`.
pub open spec fn scroll_schema() -> JsonView {
    object_schema(
        seq![
            ("amount_px"@, int_prop("Pixels to scroll for 'up'/'down' directions (default: 500)."@, 500, 1, 10000)),
            ("direction"@, direction_prop()),
            ("selector"@, typed_prop("string"@, "Optional CSS selector — scroll to element instead of using direction."@)),
        ],
        seq![],
    )
}

/// Scrolls the current page.
pub struct BrowserScrollTool;

impl BrowserScrollTool {
    pub fn new() -> (t: Self) {
        BrowserScrollTool
    }

    pub fn name(&self) -> (s: &'static str)
        ensures
            s@ == "browser_scroll"@,
    {
        "browser_scroll"
    }

    pub fn description(&self) -> (s: &'static str)
        ensures
            s@ == "Scroll the current browser page. Direction can be 'up', 'down', 'top', or 'bottom'. Optionally scroll to an element matched by a CSS selector."@,
    {
        "Scroll the current browser page. Direction can be 'up', 'down', 'top', or 'bottom'. Optionally scroll to an element matched by a CSS selector."
    }

    /// The JSON Schema of the tool's parameters (see [`scroll_schema`]).
    pub fn parameters_schema(&self) -> (v: JsonValue)
        ensures
            json_view(v) == scroll_schema(),
    {
        let props: Vec<(String, JsonValue)> = vec![
            member("amount_px", integer_property("Pixels to scroll for 'up'/'down' directions (default: 500).", 500, 1, 10000)),
            member("direction", direction_property()),
            member("selector", typed_property("string", "Optional CSS selector — scroll to element instead of using direction.")),
        ];
        let required: &[&str] = &[];
        assert(props_view(props@) =~= seq![
            ("amount_px"@, int_prop("Pixels to scroll for 'up'/'down' directions (default: 500)."@, 500, 1, 10000)),
            ("direction"@, direction_prop()),
            ("selector"@, typed_prop("string"@, "Optional CSS selector — scroll to element instead of using direction."@)),
        ]);
        assert(required@.map_values(|n: &str| n@) =~= seq![]);
        object_schema_of(props, required)
    }

    /// Scrolls to the element `selector` names, or in `direction` (down by
    /// default) by `amount_px` pixels (500 by default, limited to
    /// 1..=10000).
    pub fn execute(session: &BrowserSession, args: &JsonValue) -> (r: ToolResult)
        ensures
            result_is(r, scroll_spec(session@, *args)),
    {
        let url = match session.current_url() {
            Some(u) => u,
            None => return ToolResult::err("No page loaded; call browser_navigate first".to_string()),
        };
        if let Some(selector) = str_arg(args, "selector") {
            return ToolResult::ok(
                join4("Scrolled to element '", selector.as_str(), "' on ", url.as_str()),
            );
        }
        let direction = str_arg_or(args, "direction", "down");
        let a = u64_arg_or_default(args, "amount_px", 500);
        let amount: u64 = if a < 1 {
            1
        } else if a > 10000 {
            10000
        } else {
            a
        };
        let px = u64_decimal(amount);
        ToolResult::ok(join6("Scrolled ", direction.as_str(), " by ", px.as_str(), "px on ", url.as_str()))
    }
}

/// The id of a tab CDP opened: its string member `id`, or `unknown`.
pub open spec fn new_tab_id(target: JsonValue) -> Seq<char> {
    match string_arg(target, "id"@) {
        Some(id) => id,
        None => "unknown"@,
    }
}

/// The parameters of `BrowserNewTabTool`.
pub open spec fn new_tab_schema() -> JsonView {
    object_schema(
        seq![
            ("url"@, typed_prop("string"@, "Optional URL to load in the new tab."@)),
        ],
        seq![],
    )
}

/// Opens a new tab, optionally loading a URL.
pub struct BrowserNewTabTool;

impl BrowserNewTabTool {
    pub fn new() -> (t: Self) {
        BrowserNewTabTool
    }

    pub fn name(&self) -> (s: &'static str)
        ensures
            s@ == "browser_new_tab"@,
    {
        "browser_new_tab"
    }

    pub fn description(&self) -> (s: &'static str)
        ensures
            s@ == "Open a new browser tab. Optionally navigate to a URL in the new tab immediately."@,
    {
        "Open a new browser tab. Optionally navigate to a URL in the new tab immediately."
    }

    /// The JSON Schema of the tool's parameters (see [`new_tab_schema`]).
    pub fn parameters_schema(&self) -> (v: JsonValue)
        ensures
            json_view(v) == new_tab_schema(),
    {
        let props: Vec<(String, JsonValue)> = vec![
            member("url", typed_property("string", "Optional URL to load in the new tab.")),
        ];
        let required: &[&str] = &[];
        assert(props_view(props@) =~= seq![
            ("url"@, typed_prop("string"@, "Optional URL to load in the new tab."@)),
        ]);
        assert(required@.map_values(|n: &str| n@) =~= seq![]);
        object_schema_of(props, required)
    }

    /// The URL the new tab loads, if the request names one.
    pub fn requested_url(args: &JsonValue) -> (r: Option<String>)
        ensures
            opt_text(r) == string_arg(*args, "url"@),
    {
        str_arg(args, "url")
    }

    /// Completes the request once CDP answered: the new tab becomes the
    /// active one; a failure leaves the session as it was.
    pub fn complete(session: &mut BrowserSession, url: Option<&str>, outcome: Result<JsonValue, String>) -> (r:
        ToolResult)
        ensures
            final(session).cdp_url == old(session).cdp_url,
            final(session).timeout_ms == old(session).timeout_ms,
            final(session).profile == old(session).profile,
            match outcome {
                Ok(target) => final(session)@ == with_tab(old(session)@, new_tab_id(target)) && result_is(
                    r,
                    Ok(
                        match url {
                            Some(u) => "Opened new tab (id="@ + new_tab_id(target) + ") and navigated to "@
                                + u@,
                            None => "Opened new tab (id="@ + new_tab_id(target) + ")"@,
                        },
                    ),
                ),
                Err(e) => final(session)@ == old(session)@ && result_is(
                    r,
                    Err("Failed to open new tab: "@ + e@),
                ),
            },
    {
        match outcome {
            Ok(target) => {
                let id = str_arg_or(&target, "id", "unknown");
                session.open_tab(id.clone());
                match url {
                    Some(u) => ToolResult::ok(
                        join4("Opened new tab (id=", id.as_str(), ") and navigated to ", u),
                    ),
                    None => ToolResult::ok(join3("Opened new tab (id=", id.as_str(), ")")),
                }
            },
            Err(e) => ToolResult::err(concat_str("Failed to open new tab: ", e.as_str())),
        }
    }
}

/// The parameters of `BrowserCloseTabTool`.
pub open spec fn close_tab_schema() -> JsonView {
    object_schema(
        seq![],
        seq![],
    )
}

/// Closes the active tab.
pub struct BrowserCloseTabTool;

impl BrowserCloseTabTool {
    pub fn new() -> (t: Self) {
        BrowserCloseTabTool
    }

    pub fn name(&self) -> (s: &'static str)
        ensures
            s@ == "browser_close_tab"@,
    {
        "browser_close_tab"
    }

    pub fn description(&self) -> (s: &'static str)
        ensures
            s@ == "Close the currently active browser tab."@,
    {
        "Close the currently active browser tab."
    }

    /// The JSON Schema of the tool's parameters (see [`close_tab_schema`]).
    pub fn parameters_schema(&self) -> (v: JsonValue)
        ensures
            json_view(v) == close_tab_schema(),
    {
        let props: Vec<(String, JsonValue)> = vec![];
        let required: &[&str] = &[];
        assert(props_view(props@) =~= seq![]);
        assert(required@.map_values(|n: &str| n@) =~= seq![]);
        object_schema_of(props, required)
    }

    /// The tab to close: the active one, or the error result when there is
    /// none.
    pub fn target(session: &BrowserSession) -> (r: Result<String, ToolResult>)
        ensures
            match session@.active {
                Some(id) => r matches Ok(x) && x@ == id,
                None => r matches Err(t) && result_is(t, Err("No active tab to close"@)),
            },
    {
        match session.active_target() {
            Some(id) => Ok(id),
            None => Err(ToolResult::err("No active tab to close".to_string())),
        }
    }

    /// Completes the request once CDP answered: the tab is forgotten (see
    /// [`after_close`]); a failure leaves the session as it was.
    pub fn complete(session: &mut BrowserSession, target_id: &str, outcome: Result<(), String>) -> (r:
        ToolResult)
        ensures
            final(session).cdp_url == old(session).cdp_url,
            final(session).timeout_ms == old(session).timeout_ms,
            final(session).profile == old(session).profile,
            match outcome {
                Ok(_) => final(session)@ == after_close(old(session)@, target_id@) && result_is(
                    r,
                    Ok("Closed tab "@ + target_id@),
                ),
                Err(e) => final(session)@ == old(session)@ && result_is(
                    r,
                    Err("Failed to close tab: "@ + e@),
                ),
            },
    {
        match outcome {
            Ok(_) => {
                session.forget_tab(target_id);
                ToolResult::ok(concat_str("Closed tab ", target_id))
            },
            Err(e) => ToolResult::err(concat_str("Failed to close tab: ", e.as_str())),
        }
    }
}

/// The browser tools.
#[derive(Debug, Clone, Copy, PartialEq, Eq, Structural)]
pub enum BrowserTool {
    Navigate,
    Snapshot,
    Click,
    Type,
    Scroll,
    NewTab,
    CloseTab,
}

impl BrowserTool {
    /// The tool's name.
    pub fn name(&self) -> (s: &'static str)
        ensures
            s@ == browser_tool_name(*self),
    {
        match self {
            BrowserTool::Navigate => "browser_navigate",
            BrowserTool::Snapshot => "browser_snapshot",
            BrowserTool::Click => "browser_click",
            BrowserTool::Type => "browser_type",
            BrowserTool::Scroll => "browser_scroll",
            BrowserTool::NewTab => "browser_new_tab",
            BrowserTool::CloseTab => "browser_close_tab",
        }
    }
}

pub open spec fn browser_tool_name(t: BrowserTool) -> Seq<char> {
    match t {
        BrowserTool::Navigate => "browser_navigate"@,
        BrowserTool::Snapshot => "browser_snapshot"@,
        BrowserTool::Click => "browser_click"@,
        BrowserTool::Type => "browser_type"@,
        BrowserTool::Scroll => "browser_scroll"@,
        BrowserTool::NewTab => "browser_new_tab"@,
        BrowserTool::CloseTab => "browser_close_tab"@,
    }
}

/// All seven browser tools and the one session they share, targeting
/// `cdp_url` (the default local endpoint when none is given).
pub fn all_browser_tools(cdp_url: Option<&str>) -> (r: (BrowserSession, Vec<BrowserTool>))
    ensures
        r.0.cdp_url@ == match cdp_url {
            Some(u) => u@,
            None => "http://localhost:9222"@,
        },
        r.0.timeout_ms == 30000,
        r.0.profile == BrowserProfile::Headless,
        r.0@ == empty_session(),
        r.1@ == seq![
            BrowserTool::Navigate,
            BrowserTool::Snapshot,
            BrowserTool::Click,
            BrowserTool::Type,
            BrowserTool::Scroll,
            BrowserTool::NewTab,
            BrowserTool::CloseTab,
        ],
{
    let session = match cdp_url {
        Some(u) => BrowserSession::with_cdp_url(u.to_string()),
        None => BrowserSession::new(),
    };
    (
        session,
        vec![
            BrowserTool::Navigate,
            BrowserTool::Snapshot,
            BrowserTool::Click,
            BrowserTool::Type,
            BrowserTool::Scroll,
            BrowserTool::NewTab,
            BrowserTool::CloseTab,
        ],
    )
}

} // verus!
