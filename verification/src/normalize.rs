//! Rich-text normalizer: turns HTML-flavored description text into a
//! markdown-like plain form. Text passes through; anchors become
//! `[text](<href>)` with a fixed fallback URL when `href` is absent; images
//! become `![alt](src)` when `alt` is present, else the bare `src`; a few
//! text-flow tags (bold, emphasis, breaks, paragraphs, list items) degrade to
//! their conventional markdown; every other tag is dropped. The transform is
//! total and deterministic: malformed markup degrades to plain text, and an
//! unterminated tag is kept verbatim. Tag and attribute names are matched
//! lowercase.
use vstd::prelude::*;
use vstd::string::*;

use crate::strutil::{chars_eq, chars_of, push_char};

verus! {

/// Whitespace inside a tag.
pub open spec fn is_space(c: char) -> bool {
    c == ' ' || c == '\t' || c == '\n' || c == '\r'
}

/// A character that ends a tag or attribute name.
pub open spec fn is_name_delim(c: char) -> bool {
    is_space(c) || c == '/' || c == '='
}

/// `x` clamped into `[lo, hi]` (taking `lo` when the two bounds cross).
pub open spec fn clamp_idx(x: int, lo: int, hi: int) -> int {
    if x < lo {
        lo
    } else if x > hi {
        hi
    } else {
        x
    }
}

/// First position at or after `i` that ends a name, or the end.
pub open spec fn scan_name_end(t: Seq<char>, i: int) -> int
    decreases t.len() - i,
{
    if 0 <= i < t.len() && !is_name_delim(t[i]) {
        scan_name_end(t, i + 1)
    } else {
        i
    }
}

/// First position at or after `i` holding a non-space, or the end.
pub open spec fn skip_spaces(t: Seq<char>, i: int) -> int
    decreases t.len() - i,
{
    if 0 <= i < t.len() && is_space(t[i]) {
        skip_spaces(t, i + 1)
    } else {
        i
    }
}

/// First position at or after `i` holding `c`, or the length if none.
pub open spec fn scan_char(t: Seq<char>, i: int, c: char) -> int
    decreases t.len() - i,
{
    if !(0 <= i < t.len()) {
        t.len() as int
    } else if t[i] == c {
        i
    } else {
        scan_char(t, i + 1, c)
    }
}

/// First position at or after `i` holding a space, or the end; this ends an
/// unquoted attribute value.
pub open spec fn scan_value_end(t: Seq<char>, i: int) -> int
    decreases t.len() - i,
{
    if 0 <= i < t.len() && !is_space(t[i]) {
        scan_value_end(t, i + 1)
    } else {
        i
    }
}

/// First position at or after `i` holding '>', or the length if none.
pub open spec fn find_gt(s: Seq<char>, i: int) -> int
    decreases s.len() - i,
{
    if !(0 <= i < s.len()) {
        s.len() as int
    } else if s[i] == '>' {
        i
    } else {
        find_gt(s, i + 1)
    }
}

/// The attributes written inside a tag, from position `i` on: name-value
/// pairs in order, values unquoted, a valueless attribute carrying the empty
/// value. Quoting by '"' or '\''; an unquoted value runs to the next space.
pub open spec fn parse_attrs(t: Seq<char>, i: int) -> Seq<(Seq<char>, Seq<char>)>
    decreases t.len() - i,
{
    if !(0 <= i < t.len()) {
        Seq::empty()
    } else if is_space(t[i]) || t[i] == '/' {
        parse_attrs(t, i + 1)
    } else {
        let ne = clamp_idx(scan_name_end(t, i), i, t.len() as int);
        if ne == i {
            // a stray character that cannot start a name
            parse_attrs(t, i + 1)
        } else {
            let name = t.subrange(i, ne);
            let j = clamp_idx(skip_spaces(t, ne), ne, t.len() as int);
            if j < t.len() && t[j] == '=' {
                let k = clamp_idx(skip_spaces(t, j + 1), j + 1, t.len() as int);
                if k < t.len() && (t[k] == '"' || t[k] == '\'') {
                    let close = clamp_idx(scan_char(t, k + 1, t[k]), k + 1, t.len() as int);
                    let next = if close < t.len() {
                        close + 1
                    } else {
                        close
                    };
                    seq![(name, t.subrange(k + 1, close))] + parse_attrs(t, next)
                } else if k < t.len() {
                    let e = clamp_idx(scan_value_end(t, k), k, t.len() as int);
                    seq![(name, t.subrange(k, e))] + parse_attrs(t, e)
                } else {
                    seq![(name, Seq::<char>::empty())] + parse_attrs(t, k)
                }
            } else {
                seq![(name, Seq::<char>::empty())] + parse_attrs(t, j)
            }
        }
    }
}

/// The value of the first attribute named `name`, if any.
pub open spec fn attr_lookup(attrs: Seq<(Seq<char>, Seq<char>)>, name: Seq<char>) -> Option<
    Seq<char>,
>
    decreases attrs.len(),
{
    if attrs.len() == 0 {
        None
    } else if attrs[0].0 == name {
        Some(attrs[0].1)
    } else {
        attr_lookup(attrs.drop_first(), name)
    }
}

/// The URL an anchor falls back to when it carries no `href`.
pub open spec fn fallback_url() -> Seq<char> {
    "https://rustlang-es.org"@
}

/// Text emitted for an opening tag, with the new anchor stack: an anchor
/// opens a link and remembers its URL; an image renders in place; text-flow
/// tags degrade to markdown; anything else is dropped.
pub open spec fn open_effect(
    name: Seq<char>,
    attrs: Seq<(Seq<char>, Seq<char>)>,
    stack: Seq<Seq<char>>,
) -> (Seq<char>, Seq<Seq<char>>) {
    if name == "a"@ {
        let url = match attr_lookup(attrs, "href"@) {
            Some(u) => u,
            None => fallback_url(),
        };
        ("["@, stack.push(url))
    } else if name == "img"@ {
        let src = match attr_lookup(attrs, "src"@) {
            Some(u) => u,
            None => Seq::<char>::empty(),
        };
        match attr_lookup(attrs, "alt"@) {
            Some(alt) => ("!["@ + alt + "]("@ + src + ")"@, stack),
            None => (src, stack),
        }
    } else if name == "b"@ || name == "strong"@ {
        ("**"@, stack)
    } else if name == "i"@ || name == "em"@ {
        ("*"@, stack)
    } else if name == "br"@ {
        ("\n"@, stack)
    } else if name == "li"@ {
        ("- "@, stack)
    } else {
        (Seq::<char>::empty(), stack)
    }
}

/// Text emitted for a closing tag, with the new anchor stack: closing an
/// anchor emits the link target remembered for it (nothing when no anchor is
/// open); text-flow tags degrade to markdown; anything else is dropped.
pub open spec fn close_effect(name: Seq<char>, stack: Seq<Seq<char>>) -> (Seq<char>, Seq<
    Seq<char>,
>) {
    if name == "a"@ {
        if stack.len() > 0 {
            ("](<"@ + stack.last() + ">)"@, stack.drop_last())
        } else {
            (Seq::<char>::empty(), stack)
        }
    } else if name == "b"@ || name == "strong"@ {
        ("**"@, stack)
    } else if name == "i"@ || name == "em"@ {
        ("*"@, stack)
    } else if name == "p"@ {
        ("\n\n"@, stack)
    } else if name == "li"@ {
        ("\n"@, stack)
    } else {
        (Seq::<char>::empty(), stack)
    }
}

/// Effect of one tag, given its content between '<' and '>': comments and
/// doctypes vanish, a leading '/' closes, anything else opens.
pub open spec fn tag_effect(t: Seq<char>, stack: Seq<Seq<char>>) -> (Seq<char>, Seq<Seq<char>>) {
    if t.len() > 0 && t[0] == '!' {
        (Seq::<char>::empty(), stack)
    } else if t.len() > 0 && t[0] == '/' {
        let ne = clamp_idx(scan_name_end(t, 1), 1, t.len() as int);
        close_effect(t.subrange(1, ne), stack)
    } else {
        let ne = clamp_idx(scan_name_end(t, 0), 0, t.len() as int);
        open_effect(t.subrange(0, ne), parse_attrs(t, ne), stack)
    }
}

/// One left-to-right pass over the input from position `i`, with the URLs of
/// the anchors still open and the text emitted so far: plain characters pass
/// through, a complete tag applies its effect, and a '<' never closed by '>'
/// keeps the rest verbatim.
pub open spec fn norm_rec(s: Seq<char>, i: int, stack: Seq<Seq<char>>, out: Seq<char>) -> Seq<
    char,
>
    decreases s.len() - i,
{
    if !(0 <= i < s.len()) {
        out
    } else if s[i] == '<' {
        let j = find_gt(s, i + 1);
        if j >= s.len() {
            out + s.subrange(i, s.len() as int)
        } else {
            let jc = clamp_idx(j, i + 1, s.len() - 1);
            let pe = tag_effect(s.subrange(i + 1, jc), stack);
            norm_rec(s, jc + 1, pe.1, out + pe.0)
        }
    } else {
        norm_rec(s, i + 1, stack, out.push(s[i]))
    }
}

/// The normalized form of an HTML-flavored text.
pub open spec fn norm_spec(s: Seq<char>) -> Seq<char> {
    norm_rec(s, 0, Seq::empty(), Seq::empty())
}

/// The views of a vector of strings.
pub open spec fn views(ss: Seq<String>) -> Seq<Seq<char>> {
    ss.map_values(|s: String| s@)
}

fn is_space_exec(c: char) -> (b: bool)
    ensures
        b == is_space(c),
{
    c == ' ' || c == '\t' || c == '\n' || c == '\r'
}

fn is_not_name_delim_exec(t: &Vec<char>, i: usize) -> (b: bool)
    ensures
        b == (i < t@.len() && !is_name_delim(t@[i as int])),
{
    if i < t.len() {
        let c = t[i];
        !(c == ' ' || c == '\t' || c == '\n' || c == '\r' || c == '/' || c == '=')
    } else {
        false
    }
}

fn scan_name_end_exec(t: &Vec<char>, from: usize) -> (r: usize)
    requires
        from <= t@.len(),
    ensures
        r as int == scan_name_end(t@, from as int),
        from <= r <= t@.len(),
{
    let n = t.len();
    let mut i = from;
    while is_not_name_delim_exec(t, i)
        invariant
            from <= i <= n,
            n == t@.len(),
            scan_name_end(t@, from as int) == scan_name_end(t@, i as int),
        decreases t@.len() - i,
    {
        i = i + 1;
    }
    i
}

fn is_space_at_exec(t: &Vec<char>, i: usize) -> (b: bool)
    ensures
        b == (i < t@.len() && is_space(t@[i as int])),
{
    if i < t.len() {
        is_space_exec(t[i])
    } else {
        false
    }
}

fn skip_spaces_exec(t: &Vec<char>, from: usize) -> (r: usize)
    requires
        from <= t@.len(),
    ensures
        r as int == skip_spaces(t@, from as int),
        from <= r <= t@.len(),
{
    let n = t.len();
    let mut i = from;
    while is_space_at_exec(t, i)
        invariant
            from <= i <= n,
            n == t@.len(),
            skip_spaces(t@, from as int) == skip_spaces(t@, i as int),
        decreases t@.len() - i,
    {
        i = i + 1;
    }
    i
}

fn differs_at_exec(t: &Vec<char>, i: usize, c: char) -> (b: bool)
    ensures
        b == (i < t@.len() && t@[i as int] != c),
{
    if i < t.len() {
        t[i] != c
    } else {
        false
    }
}

fn scan_char_exec(t: &Vec<char>, from: usize, c: char) -> (r: usize)
    requires
        from <= t@.len(),
    ensures
        r as int == scan_char(t@, from as int, c),
        from <= r <= t@.len(),
{
    let n = t.len();
    let mut i = from;
    while differs_at_exec(t, i, c)
        invariant
            from <= i <= n,
            n == t@.len(),
            scan_char(t@, from as int, c) == scan_char(t@, i as int, c),
        decreases t@.len() - i,
    {
        i = i + 1;
    }
    i
}

fn is_not_space_at_exec(t: &Vec<char>, i: usize) -> (b: bool)
    ensures
        b == (i < t@.len() && !is_space(t@[i as int])),
{
    if i < t.len() {
        !is_space_exec(t[i])
    } else {
        false
    }
}

fn scan_value_end_exec(t: &Vec<char>, from: usize) -> (r: usize)
    requires
        from <= t@.len(),
    ensures
        r as int == scan_value_end(t@, from as int),
        from <= r <= t@.len(),
{
    let n = t.len();
    let mut i = from;
    while is_not_space_at_exec(t, i)
        invariant
            from <= i <= n,
            n == t@.len(),
            scan_value_end(t@, from as int) == scan_value_end(t@, i as int),
        decreases t@.len() - i,
    {
        i = i + 1;
    }
    i
}

fn not_gt_at_exec(t: &Vec<char>, i: usize) -> (b: bool)
    ensures
        b == (i < t@.len() && t@[i as int] != '>'),
{
    if i < t.len() {
        t[i] != '>'
    } else {
        false
    }
}

fn find_gt_exec(t: &Vec<char>, from: usize) -> (r: usize)
    requires
        from <= t@.len(),
    ensures
        r as int == find_gt(t@, from as int),
        from <= r <= t@.len(),
{
    let n = t.len();
    let mut i = from;
    while not_gt_at_exec(t, i)
        invariant
            from <= i <= n,
            n == t@.len(),
            find_gt(t@, from as int) == find_gt(t@, i as int),
        decreases t@.len() - i,
    {
        i = i + 1;
    }
    i
}

fn copy_range(v: &Vec<char>, lo: usize, hi: usize) -> (r: Vec<char>)
    requires
        lo <= hi <= v@.len(),
    ensures
        r@ == v@.subrange(lo as int, hi as int),
{
    let mut r: Vec<char> = Vec::new();
    let mut i = lo;
    while i < hi
        invariant
            lo <= i <= hi <= v@.len(),
            r@ == v@.subrange(lo as int, i as int),
        decreases hi - i,
    {
        r.push(v[i]);
        proof {
            assert(v@.subrange(lo as int, i as int).push(v@[i as int]) =~= v@.subrange(
                lo as int,
                i + 1,
            ));
        }
        i = i + 1;
    }
    r
}

fn string_of_range(v: &Vec<char>, lo: usize, hi: usize) -> (r: String)
    requires
        lo <= hi <= v@.len(),
    ensures
        r@ == v@.subrange(lo as int, hi as int),
{
    let mut r = String::new();
    let mut i = lo;
    while i < hi
        invariant
            lo <= i <= hi <= v@.len(),
            r@ == v@.subrange(lo as int, i as int),
        decreases hi - i,
    {
        push_char(&mut r, v[i]);
        proof {
            assert(v@.subrange(lo as int, i as int).push(v@[i as int]) =~= v@.subrange(
                lo as int,
                i + 1,
            ));
        }
        i = i + 1;
    }
    r
}

fn append_range(out: &mut String, v: &Vec<char>, lo: usize, hi: usize)
    requires
        lo <= hi <= v@.len(),
    ensures
        final(out)@ == old(out)@ + v@.subrange(lo as int, hi as int),
{
    let mut i = lo;
    while i < hi
        invariant
            lo <= i <= hi <= v@.len(),
            out@ == old(out)@ + v@.subrange(lo as int, i as int),
        decreases hi - i,
    {
        push_char(out, v[i]);
        proof {
            assert((old(out)@ + v@.subrange(lo as int, i as int)).push(v@[i as int]) =~= old(
                out,
            )@ + v@.subrange(lo as int, i + 1));
        }
        i = i + 1;
    }
    proof {
        assert(out@ =~= old(out)@ + v@.subrange(lo as int, hi as int));
    }
}

/// The value of the first attribute named `name` among the attributes
/// written from position `i` of the tag content on.
fn lookup_in_attrs(t: &Vec<char>, i: usize, name: &str) -> (r: Option<String>)
    requires
        i <= t@.len(),
    ensures
        ({
            let spec_r = attr_lookup(parse_attrs(t@, i as int), name@);
            &&& (r is Some <==> spec_r is Some)
            &&& (r is Some ==> r->0@ == spec_r->0)
        }),
    decreases t@.len() - i,
{
    if i >= t.len() {
        return None;
    }
    let c = t[i];
    if is_space_exec(c) || c == '/' {
        return lookup_in_attrs(t, i + 1, name);
    }
    let ne = scan_name_end_exec(t, i);
    proof {
        assert(ne as int == clamp_idx(scan_name_end(t@, i as int), i as int, t@.len() as int));
    }
    if ne == i {
        return lookup_in_attrs(t, i + 1, name);
    }
    let ghost nm = t@.subrange(i as int, ne as int);
    let namev = copy_range(t, i, ne);
    let matches_name = chars_eq(&namev, name);
    let j = skip_spaces_exec(t, ne);
    proof {
        assert(j as int == clamp_idx(skip_spaces(t@, ne as int), ne as int, t@.len() as int));
    }
    if j < t.len() && t[j] == '=' {
        let k = skip_spaces_exec(t, j + 1);
        proof {
            assert(k as int == clamp_idx(skip_spaces(t@, j + 1), j + 1, t@.len() as int));
        }
        if k < t.len() && (t[k] == '"' || t[k] == '\'') {
            let close = scan_char_exec(t, k + 1, t[k]);
            proof {
                assert(close as int == clamp_idx(
                    scan_char(t@, k + 1, t@[k as int]),
                    k + 1,
                    t@.len() as int,
                ));
            }
            let ghost val = t@.subrange(k + 1, close as int);
            let next = if close < t.len() {
                close + 1
            } else {
                close
            };
            proof {
                lemma_attr_step(t@, i as int, nm, val, next as int, name@);
            }
            if matches_name {
                return Some(string_of_range(t, k + 1, close));
            }
            return lookup_in_attrs(t, next, name);
        } else if k < t.len() {
            let e = scan_value_end_exec(t, k);
            proof {
                assert(e as int == clamp_idx(scan_value_end(t@, k as int), k as int, t@.len() as int));
                lemma_attr_step(t@, i as int, nm, t@.subrange(k as int, e as int), e as int, name@);
            }
            if matches_name {
                return Some(string_of_range(t, k, e));
            }
            return lookup_in_attrs(t, e, name);
        } else {
            proof {
                lemma_attr_step(t@, i as int, nm, Seq::<char>::empty(), k as int, name@);
            }
            if matches_name {
                return Some(String::new());
            }
            return lookup_in_attrs(t, k, name);
        }
    } else {
        proof {
            lemma_attr_step(t@, i as int, nm, Seq::<char>::empty(), j as int, name@);
        }
        if matches_name {
            return Some(String::new());
        }
        return lookup_in_attrs(t, j, name);
    }
}

/// Applies one tag's effect: appends the tag's text to `out` and updates the
/// stack of open-anchor URLs.
fn tag_effect_exec(tag: &Vec<char>, stack: &mut Vec<String>, out: &mut String)
    ensures
        final(out)@ == old(out)@ + tag_effect(tag@, views(old(stack)@)).0,
        views(final(stack)@) == tag_effect(tag@, views(old(stack)@)).1,
{
    let ghost eff = tag_effect(tag@, views(old(stack)@));
    let n = tag.len();
    if n > 0 && tag[0] == '!' {
        proof {
            assert(out@ =~= old(out)@ + eff.0);
        }
        return ;
    }
    if n > 0 && tag[0] == '/' {
        let ne = scan_name_end_exec(tag, 1);
        proof {
            assert(ne as int == clamp_idx(scan_name_end(tag@, 1), 1, tag@.len() as int));
        }
        let name = copy_range(tag, 1, ne);
        if chars_eq(&name, "a") {
            if stack.len() > 0 {
                let url = match stack.pop() {
                    Some(u) => u,
                    None => String::new(),
                };
                out.append("](<");
                out.append(url.as_str());
                out.append(">)");
                proof {
                    assert(url@ == views(old(stack)@).last());
                    assert(views(stack@) =~= views(old(stack)@).drop_last());
                    assert(out@ =~= old(out)@ + eff.0);
                }
            } else {
                proof {
                    assert(out@ =~= old(out)@ + eff.0);
                }
            }
        } else if chars_eq(&name, "b") || chars_eq(&name, "strong") {
            out.append("**");
            proof {
                assert(out@ =~= old(out)@ + eff.0);
            }
        } else if chars_eq(&name, "i") || chars_eq(&name, "em") {
            out.append("*");
            proof {
                assert(out@ =~= old(out)@ + eff.0);
            }
        } else if chars_eq(&name, "p") {
            out.append("\n\n");
            proof {
                assert(out@ =~= old(out)@ + eff.0);
            }
        } else if chars_eq(&name, "li") {
            out.append("\n");
            proof {
                assert(out@ =~= old(out)@ + eff.0);
            }
        } else {
            proof {
                assert(out@ =~= old(out)@ + eff.0);
            }
        }
        return ;
    }
    let ne = scan_name_end_exec(tag, 0);
    proof {
        assert(ne as int == clamp_idx(scan_name_end(tag@, 0), 0, tag@.len() as int));
    }
    let name = copy_range(tag, 0, ne);
    if chars_eq(&name, "a") {
        let url = match lookup_in_attrs(tag, ne, "href") {
            Some(u) => u,
            None => String::from_str("https://rustlang-es.org"),
        };
        out.append("[");
        stack.push(url);
        proof {
            assert(views(stack@) =~= eff.1);
            assert(out@ =~= old(out)@ + eff.0);
        }
    } else if chars_eq(&name, "img") {
        let src = match lookup_in_attrs(tag, ne, "src") {
            Some(u) => u,
            None => String::new(),
        };
        match lookup_in_attrs(tag, ne, "alt") {
            Some(alt) => {
                out.append("![");
                out.append(alt.as_str());
                out.append("](");
                out.append(src.as_str());
                out.append(")");
                proof {
                    assert(out@ =~= old(out)@ + eff.0);
                }
            },
            None => {
                out.append(src.as_str());
                proof {
                    assert(out@ =~= old(out)@ + eff.0);
                }
            },
        }
    } else if chars_eq(&name, "b") || chars_eq(&name, "strong") {
        out.append("**");
        proof {
            assert(out@ =~= old(out)@ + eff.0);
        }
    } else if chars_eq(&name, "i") || chars_eq(&name, "em") {
        out.append("*");
        proof {
            assert(out@ =~= old(out)@ + eff.0);
        }
    } else if chars_eq(&name, "br") {
        out.append("\n");
        proof {
            assert(out@ =~= old(out)@ + eff.0);
        }
    } else if chars_eq(&name, "li") {
        out.append("- ");
        proof {
            assert(out@ =~= old(out)@ + eff.0);
        }
    } else {
        proof {
            assert(out@ =~= old(out)@ + eff.0);
        }
    }
}

/// Normalizes HTML-flavored text into the markdown-like plain form; see the
/// module's description and `norm_spec`.
pub fn normalize(html: &str) -> (r: String)
    ensures
        r@ == norm_spec(html@),
{
    let v = chars_of(html);
    let n = v.len();
    let mut out = String::new();
    let mut stack: Vec<String> = Vec::new();
    let mut i: usize = 0;
    proof {
        assert(views(stack@) =~= Seq::<Seq<char>>::empty());
    }
    while i < n
        invariant
            i <= n,
            n == v@.len(),
            norm_rec(v@, i as int, views(stack@), out@) == norm_spec(v@),
        decreases n - i,
    {
        let ghost st0 = views(stack@);
        let ghost out0 = out@;
        let c = v[i];
        if c == '<' {
            let j = find_gt_exec(&v, i + 1);
            if j == n {
                append_range(&mut out, &v, i, n);
                proof {
                    assert(norm_rec(v@, i as int, st0, out0) == out0 + v@.subrange(
                        i as int,
                        n as int,
                    ));
                    assert(norm_rec(v@, n as int, views(stack@), out@) == out@);
                }
                i = n;
            } else {
                proof {
                    assert(j as int == clamp_idx(find_gt(v@, i + 1), i + 1, n - 1));
                }
                let tag = copy_range(&v, i + 1, j);
                tag_effect_exec(&tag, &mut stack, &mut out);
                proof {
                    let pe = tag_effect(v@.subrange(i + 1, j as int), st0);
                    assert(norm_rec(v@, i as int, st0, out0) == norm_rec(
                        v@,
                        j + 1,
                        pe.1,
                        out0 + pe.0,
                    ));
                    assert(out@ == out0 + pe.0);
                    assert(views(stack@) == pe.1);
                }
                i = j + 1;
            }
        } else {
            push_char(&mut out, c);
            proof {
                assert(norm_rec(v@, i as int, st0, out0) == norm_rec(
                    v@,
                    i + 1,
                    st0,
                    out0.push(v@[i as int]),
                ));
            }
            i = i + 1;
        }
    }
    out
}

/// Normalization is a pure function of the text: two evaluations of
/// identical inputs agree — there is no hidden state to diverge on.
pub proof fn lemma_normalize_deterministic(s: Seq<char>, r1: Seq<char>, r2: Seq<char>)
    requires
        r1 == norm_spec(s),
        r2 == norm_spec(s),
    ensures
        r1 == r2,
{
}

/// Looking an attribute up in `seq![(nm, val)] + rest` finds `val` when the
/// name matches and continues in `rest` otherwise.
proof fn lemma_attr_step(t: Seq<char>, i: int, nm: Seq<char>, val: Seq<char>, next: int, name: Seq<char>)
    requires
        parse_attrs(t, i) == seq![(nm, val)] + parse_attrs(t, next),
    ensures
        nm == name ==> attr_lookup(parse_attrs(t, i), name) == Some(val),
        nm != name ==> attr_lookup(parse_attrs(t, i), name) == attr_lookup(
            parse_attrs(t, next),
            name,
        ),
{
    let pa = parse_attrs(t, i);
    assert(pa.len() > 0);
    assert(pa[0] == (nm, val));
    assert(pa.drop_first() =~= parse_attrs(t, next));
}

} // verus!
