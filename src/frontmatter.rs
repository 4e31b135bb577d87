//! The front matter of a Markdown post: `key: value` lines between a first
//! line `---` and the next `---`.
use vstd::prelude::*;

use crate::text::{find_char, first_index_of, split_char, split_spec, str_eq, views};

verus! {

/// `char::is_whitespace`: the Unicode `White_Space` characters.
pub open spec fn is_ws(c: char) -> bool {
    ('\t' <= c && c <= '\r') || c == ' ' || c == '\u{85}' || c == '\u{a0}' || c == '\u{1680}' || (
    '\u{2000}' <= c && c <= '\u{200a}') || c == '\u{2028}' || c == '\u{2029}' || c == '\u{202f}'
        || c == '\u{205f}' || c == '\u{3000}'
}

fn ws(c: char) -> (r: bool)
    ensures
        r == is_ws(c),
{
    ('\t' <= c && c <= '\r') || c == ' ' || c == '\u{85}' || c == '\u{a0}' || c == '\u{1680}' || (
    '\u{2000}' <= c && c <= '\u{200a}') || c == '\u{2028}' || c == '\u{2029}' || c == '\u{202f}'
        || c == '\u{205f}' || c == '\u{3000}'
}

/// `s` without leading and trailing whitespace, as `str::trim` gives it.
pub open spec fn trim_spec(s: Seq<char>) -> Seq<char>
    decreases s.len(),
{
    if s.len() > 0 && is_ws(s[0]) {
        trim_spec(s.drop_first())
    } else if s.len() > 0 && is_ws(s.last()) {
        trim_spec(s.drop_last())
    } else {
        s
    }
}

proof fn lemma_trim_front(s: Seq<char>, a: int)
    requires
        0 <= a <= s.len(),
        forall|k: int| 0 <= k < a ==> is_ws(#[trigger] s[k]),
    ensures
        trim_spec(s) == trim_spec(s.subrange(a, s.len() as int)),
    decreases a,
{
    if a > 0 {
        assert(s.drop_first().subrange(a - 1, s.drop_first().len() as int) =~= s.subrange(a, s.len() as int));
        lemma_trim_front(s.drop_first(), a - 1);
    } else {
        assert(s.subrange(0, s.len() as int) =~= s);
    }
}

proof fn lemma_trim_back(s: Seq<char>, b: int)
    requires
        0 <= b <= s.len(),
        s.len() == 0 || !is_ws(s[0]),
        forall|k: int| b <= k < s.len() ==> is_ws(#[trigger] s[k]),
        b > 0 || s.len() == 0,
        b == 0 || !is_ws(s[b - 1]),
    ensures
        trim_spec(s) == s.subrange(0, b),
    decreases s.len() - b,
{
    if b < s.len() {
        assert(is_ws(s[s.len() - 1]));
        assert(s.drop_last().len() == 0 || s.drop_last()[0] == s[0]);
        assert(b == 0 || s.drop_last()[b - 1] == s[b - 1]);
        lemma_trim_back(s.drop_last(), b);
        assert(s.drop_last().subrange(0, b) =~= s.subrange(0, b));
    } else {
        assert(s.subrange(0, b) =~= s);
    }
}

/// `s.trim()`.
pub fn trim(s: &str) -> (r: String)
    ensures
        r@ == trim_spec(s@),
{
    let n = s.unicode_len();
    let mut a: usize = 0;
    while a < n && ws(s.get_char(a))
        invariant
            n == s@.len(),
            a <= n,
            forall|k: int| 0 <= k < a ==> is_ws(#[trigger] s@[k]),
        decreases n - a,
    {
        a = a + 1;
    }
    let mut b: usize = n;
    while b > a && ws(s.get_char(b - 1))
        invariant
            n == s@.len(),
            a <= b <= n,
            forall|k: int| b <= k < n ==> is_ws(#[trigger] s@[k]),
        decreases b,
    {
        b = b - 1;
    }
    proof {
        lemma_trim_front(s@, a as int);
        let t = s@.subrange(a as int, n as int);
        assert forall|k: int| b - a <= k < t.len() implies is_ws(#[trigger] t[k]) by {
            assert(t[k] == s@[a + k]);
        }
        if a < n {
            assert(t[0] == s@[a as int]);
            if b == a {
                assert(is_ws(t[0]));
            }
        }
        if b > a {
            assert(t[b - a - 1] == s@[b - 1]);
        }
        lemma_trim_back(t, b - a);
        assert(t.subrange(0, b - a) =~= s@.subrange(a as int, b as int));
    }
    String::from_str(s.substring_char(a, b))
}

/// `s` without one trailing `\r`.
pub open spec fn strip_cr(s: Seq<char>) -> Seq<char> {
    if s.len() > 0 && s.last() == '\r' {
        s.drop_last()
    } else {
        s
    }
}

/// Piece `k` of `parts` as a line: one that a `\n` ended loses a `\r`
/// before it.
pub open spec fn line_of(parts: Seq<Seq<char>>, k: int) -> Seq<char> {
    if k < parts.len() - 1 {
        strip_cr(parts[k])
    } else {
        parts[k]
    }
}

/// The lines of `s`, as `str::lines` yields them: split at `\n` or
/// `\r\n`, with no empty last line.
pub open spec fn lines_spec(s: Seq<char>) -> Seq<Seq<char>> {
    let parts = split_spec(s, '\n');
    let count = if parts.last().len() == 0 {
        parts.len() - 1
    } else {
        parts.len() as int
    };
    Seq::new(count as nat, |k: int| line_of(parts, k))
}

fn strip_cr_exec(s: &str) -> (r: String)
    ensures
        r@ == strip_cr(s@),
{
    let n = s.unicode_len();
    if n > 0 && s.get_char(n - 1) == '\r' {
        assert(s@.subrange(0, n - 1) =~= s@.drop_last());
        String::from_str(s.substring_char(0, n - 1))
    } else {
        String::from_str(s)
    }
}

/// `s.lines()`.
pub fn lines(s: &str) -> (r: Vec<String>)
    ensures
        views(r@) == lines_spec(s@),
{
    let parts = split_char(s, '\n');
    proof {
        crate::text::lemma_split_nonempty(s@, '\n');
    }
    let ghost pv = views(parts@);
    let last = parts.len() - 1;
    assert(parts@[last as int]@ == pv.last());
    let count = if parts[last].unicode_len() == 0 {
        last
    } else {
        parts.len()
    };
    let mut out: Vec<String> = Vec::new();
    let mut i: usize = 0;
    while i < count
        invariant
            count <= parts@.len(),
            last == parts@.len() - 1,
            pv == views(parts@),
            pv == split_spec(s@, '\n'),
            count == if pv.last().len() == 0 { pv.len() - 1 } else { pv.len() as int },
            i <= count,
            views(out@) =~= Seq::new(i as nat, |k: int| line_of(pv, k)),
        decreases count - i,
    {
        let ghost before = out@;
        assert(pv[i as int] == parts@[i as int]@);
        let l = if i < last {
            strip_cr_exec(parts[i].as_str())
        } else {
            parts[i].clone()
        };
        out.push(l);
        assert(views(out@) =~= views(before).push(l@));
        i = i + 1;
        assert(views(out@) =~= Seq::new(i as nat, |k: int| line_of(pv, k)));
    }
    out
}

/// Whether `l` is a `---` line.
pub open spec fn is_fence(l: Seq<char>) -> bool {
    trim_spec(l) == "---"@
}

/// The position of the first `---` line of `rest`, or its length.
pub open spec fn fence_end(rest: Seq<Seq<char>>) -> int
    decreases rest.len(),
{
    if rest.len() == 0 || is_fence(rest[0]) {
        0
    } else {
        1 + fence_end(rest.drop_first())
    }
}

/// The front matter lines of `md`: those after a first line `---`, up to
/// the next line `---` or the end; none where the first line is not `---`.
pub open spec fn front_lines(md: Seq<char>) -> Seq<Seq<char>> {
    let ls = lines_spec(md);
    if ls.len() > 0 && is_fence(ls[0]) {
        ls.drop_first().take(fence_end(ls.drop_first()))
    } else {
        Seq::<Seq<char>>::empty()
    }
}

proof fn lemma_fence_end(rest: Seq<Seq<char>>, m: int)
    requires
        0 <= m <= rest.len(),
        forall|j: int| 0 <= j < m ==> !is_fence(#[trigger] rest[j]),
    ensures
        fence_end(rest) >= m,
        fence_end(rest) <= rest.len(),
        m == rest.len() ==> fence_end(rest) == m,
        m < rest.len() && is_fence(rest[m]) ==> fence_end(rest) == m,
    decreases rest.len(),
{
    if rest.len() > 0 && !is_fence(rest[0]) {
        let tail = rest.drop_first();
        let m2 = if m > 0 {
            m - 1
        } else {
            0
        };
        assert forall|j: int| 0 <= j < m2 implies !is_fence(#[trigger] tail[j]) by {
            assert(tail[j] == rest[j + 1]);
        }
        lemma_fence_end(tail, m2);
        if m > 0 && m < rest.len() {
            assert(tail[m - 1] == rest[m]);
        }
    }
}

/// `attrs` after the front matter line `line`: the attribute that its key
/// names takes its value.
pub open spec fn after_line(attrs: (Seq<char>, Seq<char>, Seq<char>, Seq<char>), line: Seq<char>) -> (
    Seq<char>,
    Seq<char>,
    Seq<char>,
    Seq<char>,
) {
    let k = line_key(line);
    let v = line_value(line);
    (
        if k == "title"@ { v } else { attrs.0 },
        if k == "author"@ { v } else { attrs.1 },
        if k == "avatar"@ { v } else { attrs.2 },
        if k == "published"@ { v } else { attrs.3 },
    )
}

pub open spec fn attrs_view(a: MarkdownAttrs) -> (Seq<char>, Seq<char>, Seq<char>, Seq<char>) {
    (a.title@, a.author@, a.avatar@, a.published@)
}

fn apply_line(attrs: &mut MarkdownAttrs, line: &str)
    requires
        first_index_of(line@, ':') is Some,
    ensures
        attrs_view(*final(attrs)) == after_line(attrs_view(*old(attrs)), line@),
{
    proof {
        reveal_strlit("title");
        reveal_strlit("author");
        reveal_strlit("avatar");
        reveal_strlit("published");
        assert("title"@.len() == 5);
        assert("author"@.len() == 6);
        assert("avatar"@.len() == 6);
        assert("published"@.len() == 9);
        assert("author"@[1] == 'u');
        assert("avatar"@[1] == 'v');
    }
    if let Some(o) = find_char(line, ':') {
        let n = line.unicode_len();
        let key = line.substring_char(0, o);
        let val = trim(line.substring_char(o + 1, n));
        assert(key@ =~= line_key(line@));
        assert(line@.subrange(o + 1, n as int) =~= line@.skip(o + 1));
        assert(val@ == line_value(line@));
        if str_eq(key, "title") {
            attrs.title = val;
        } else if str_eq(key, "author") {
            attrs.author = val;
        } else if str_eq(key, "avatar") {
            attrs.avatar = val;
        } else if str_eq(key, "published") {
            attrs.published = val;
        }
    }
}

/// The attributes after the lines `fl`, from empty ones.
pub open spec fn attrs_after(fl: Seq<Seq<char>>) -> (Seq<char>, Seq<char>, Seq<char>, Seq<char>)
    decreases fl.len(),
{
    if fl.len() == 0 {
        (Seq::<char>::empty(), Seq::<char>::empty(), Seq::<char>::empty(), Seq::<char>::empty())
    } else {
        after_line(attrs_after(fl.drop_last()), fl.last())
    }
}

/// The key of a front matter line: what stands before its first `:`.
pub open spec fn line_key(l: Seq<char>) -> Seq<char> {
    match first_index_of(l, ':') {
        Some(i) => l.take(i),
        None => l,
    }
}

/// The value of a front matter line: what follows its first `:`, trimmed.
pub open spec fn line_value(l: Seq<char>) -> Seq<char> {
    match first_index_of(l, ':') {
        Some(i) => trim_spec(l.skip(i + 1)),
        None => Seq::<char>::empty(),
    }
}

pub struct MarkdownAttrs {
    pub title: String,
    pub author: String,
    pub avatar: String,
    pub published: String,
}

/// Reads the title, author, avatar and publication date from the front
/// matter of `mdtext`; each is empty where the front matter does not give
/// it, and where a key comes twice the later line wins.
pub fn parse(mdtext: &str) -> (r: MarkdownAttrs)
    requires
        forall|k: int|
            0 <= k < front_lines(mdtext@).len() ==> first_index_of(#[trigger] front_lines(mdtext@)[k], ':')
                is Some,
    ensures
        attrs_view(r) == attrs_after(front_lines(mdtext@)),
{
    let ls = lines(mdtext);
    let ghost lv = views(ls@);
    let ghost fl = front_lines(mdtext@);
    let mut attrs = MarkdownAttrs {
        title: String::new(),
        author: String::new(),
        avatar: String::new(),
        published: String::new(),
    };
    if ls.len() == 0 || !str_eq(trim(ls[0].as_str()).as_str(), "---") {
        assert(ls.len() > 0 ==> lv[0] == ls@[0]@);
        assert(fl =~= Seq::<Seq<char>>::empty());
        return attrs;
    }
    assert(lv[0] == ls@[0]@);
    let ghost rest = lv.drop_first();
    let mut i: usize = 1;
    assert(rest.take(0) =~= Seq::<Seq<char>>::empty());
    while i < ls.len()
        invariant
            1 <= i <= ls@.len(),
            lv == views(ls@),
            lv == lines_spec(mdtext@),
            lv.len() > 0 && is_fence(lv[0]),
            rest == lv.drop_first(),
            fl == front_lines(mdtext@),
            forall|j: int| 0 <= j < i - 1 ==> !is_fence(#[trigger] rest[j]),
            forall|k: int| 0 <= k < fl.len() ==> first_index_of(#[trigger] fl[k], ':') is Some,
            attrs_view(attrs) == attrs_after(rest.take(i - 1)),
        decreases ls@.len() - i,
    {
        let line = ls[i].as_str();
        assert(rest[i - 1] == line@);
        if str_eq(trim(line).as_str(), "---") {
            proof {
                lemma_fence_end(rest, i - 1);
                assert(fl =~= rest.take(i - 1));
            }
            return attrs;
        }
        proof {
            lemma_fence_end(rest, i as int);
            assert(fl[i - 1] == rest[i - 1]);
        }
        apply_line(&mut attrs, line);
        assert(rest.take(i as int).drop_last() =~= rest.take(i - 1));
        assert(rest.take(i as int).last() == rest[i - 1]);
        i = i + 1;
    }
    proof {
        lemma_fence_end(rest, rest.len() as int);
        assert(fl =~= rest.take(i - 1));
    }
    attrs
}

} // verus!
