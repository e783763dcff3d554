//! Character-level text handling shared by the ASCII point-cloud readers:
//! whitespace, trimming, tokenising, splitting into lines and prefix tests.
//! The exec functions work on ranges of a character vector; each is tied to a
//! spec function over `Seq<char>`.
use vstd::prelude::*;
use vstd::std_specs::iter::IteratorSpec;

verus! {

broadcast use {vstd::string::axiom_spec_iter, vstd::string::next_postcondition};

/// Unicode `White_Space`, the property behind `char::is_whitespace`.
pub open spec fn is_ws(c: char) -> bool {
    let u = c as u32;
    ||| 9 <= u <= 13
    ||| u == 32
    ||| u == 0x85
    ||| u == 0xa0
    ||| u == 0x1680
    ||| 0x2000 <= u <= 0x200a
    ||| u == 0x2028
    ||| u == 0x2029
    ||| u == 0x202f
    ||| u == 0x205f
    ||| u == 0x3000
}

/// `s` without its leading whitespace.
pub open spec fn trim_start(s: Seq<char>) -> Seq<char>
    decreases s.len(),
{
    if s.len() > 0 && is_ws(s[0]) {
        trim_start(s.drop_first())
    } else {
        s
    }
}

/// `s` without its trailing whitespace.
pub open spec fn trim_end(s: Seq<char>) -> Seq<char>
    decreases s.len(),
{
    if s.len() > 0 && is_ws(s.last()) {
        trim_end(s.drop_last())
    } else {
        s
    }
}

/// `s` without leading and trailing whitespace.
pub open spec fn trim(s: Seq<char>) -> Seq<char> {
    trim_end(trim_start(s))
}

/// The pending token `cur` as a list of zero or one tokens.
pub open spec fn flush(cur: Seq<char>) -> Seq<Seq<char>> {
    if cur.len() == 0 {
        Seq::empty()
    } else {
        seq![cur]
    }
}

/// The whitespace-separated tokens of `cur + s`, where `cur` holds no whitespace.
pub open spec fn tokens_from(s: Seq<char>, cur: Seq<char>) -> Seq<Seq<char>>
    decreases s.len(),
{
    if s.len() == 0 {
        flush(cur)
    } else if is_ws(s[0]) {
        flush(cur) + tokens_from(s.drop_first(), Seq::empty())
    } else {
        tokens_from(s.drop_first(), cur.push(s[0]))
    }
}

/// The maximal non-empty runs of non-whitespace characters of `s`, in order.
pub open spec fn split_ws(s: Seq<char>) -> Seq<Seq<char>> {
    tokens_from(s, Seq::empty())
}

/// The pieces of `cur + s` between newline characters.
pub open spec fn lines_from(s: Seq<char>, cur: Seq<char>) -> Seq<Seq<char>>
    decreases s.len(),
{
    if s.len() == 0 {
        seq![cur]
    } else if s[0] == '\n' {
        seq![cur] + lines_from(s.drop_first(), Seq::empty())
    } else {
        lines_from(s.drop_first(), cur.push(s[0]))
    }
}

/// The pieces of `s` between newline characters (a text with `k` newlines has `k + 1`).
pub open spec fn split_lines(s: Seq<char>) -> Seq<Seq<char>> {
    lines_from(s, Seq::empty())
}

/// The lines `lines` joined back into one text, a newline between each two.
pub open spec fn join_lines(lines: Seq<Seq<char>>) -> Seq<char>
    decreases lines.len(),
{
    if lines.len() == 0 {
        Seq::empty()
    } else if lines.len() == 1 {
        lines[0]
    } else {
        lines[0] + seq!['\n'] + join_lines(lines.drop_first())
    }
}

/// The number of newline characters in `s`.
pub open spec fn newline_count(s: Seq<char>) -> nat
    decreases s.len(),
{
    if s.len() == 0 {
        0
    } else {
        (if s[0] == '\n' {
            1nat
        } else {
            0nat
        }) + newline_count(s.drop_first())
    }
}

proof fn lemma_lines_from_join(s: Seq<char>, cur: Seq<char>)
    requires
        !cur.contains('\n'),
    ensures
        join_lines(lines_from(s, cur)) == cur + s,
        lines_from(s, cur).len() == newline_count(s) + 1,
        forall|k: int|
            0 <= k < lines_from(s, cur).len() ==> !(#[trigger] lines_from(s, cur)[k]).contains('\n'),
    decreases s.len(),
{
    let rest = s.drop_first();
    if s.len() == 0 {
        assert(cur + s =~= cur);
    } else if s[0] == '\n' {
        lemma_lines_from_join(rest, Seq::empty());
        let tail = lines_from(rest, Seq::empty());
        let all = seq![cur] + tail;
        assert(all[0] == cur);
        assert(all.drop_first() =~= tail);
        assert(Seq::<char>::empty() + rest =~= rest);
        assert(cur + seq!['\n'] + rest =~= cur + s);
        assert forall|k: int| 0 <= k < all.len() implies !(#[trigger] all[k]).contains('\n') by {
            if k > 0 {
                assert(all[k] == tail[k - 1]);
            }
        }
    } else {
        let next = cur.push(s[0]);
        assert(!next.contains('\n')) by {
            if next.contains('\n') {
                let j = choose|j: int| 0 <= j < next.len() && next[j] == '\n';
                if j < cur.len() {
                    assert(cur[j] == '\n');
                }
            }
        }
        lemma_lines_from_join(rest, next);
        assert(next + rest =~= cur + s);
    }
}

/// Splitting into lines loses nothing and finds every line, the last one
/// included: the lines contain no newline, there is one more line than there
/// are newlines, and joining them with newlines gives back the text.
pub proof fn law_split_lines_join(s: Seq<char>)
    ensures
        join_lines(split_lines(s)) == s,
        split_lines(s).len() == newline_count(s) + 1,
        forall|k: int|
            0 <= k < split_lines(s).len() ==> !(#[trigger] split_lines(s)[k]).contains('\n'),
{
    lemma_lines_from_join(s, Seq::empty());
    assert(Seq::<char>::empty() + s =~= s);
}

/// A line appended after a newline is one more line.
pub(crate) proof fn lemma_lines_from_append(s: Seq<char>, cur: Seq<char>, l: Seq<char>)
    requires
        !l.contains('\n'),
    ensures
        lines_from(s + seq!['\n'] + l, cur) == lines_from(s, cur).push(l),
    decreases s.len(),
{
    let t = s + seq!['\n'] + l;
    if s.len() == 0 {
        assert(t[0] == '\n');
        assert(t.drop_first() =~= l);
        lemma_lines_from_plain(l, Seq::empty());
        assert(Seq::<char>::empty() + l =~= l);
        assert(seq![cur] + seq![l] =~= seq![cur].push(l));
    } else {
        assert(t[0] == s[0]);
        assert(t.drop_first() =~= s.drop_first() + seq!['\n'] + l);
        if s[0] == '\n' {
            lemma_lines_from_append(s.drop_first(), Seq::empty(), l);
            assert(seq![cur] + lines_from(s.drop_first(), Seq::empty()).push(l) =~= (seq![cur]
                + lines_from(s.drop_first(), Seq::empty())).push(l));
        } else {
            lemma_lines_from_append(s.drop_first(), cur.push(s[0]), l);
        }
    }
}

/// A text without newlines is a single line.
proof fn lemma_lines_from_plain(l: Seq<char>, cur: Seq<char>)
    requires
        !l.contains('\n'),
    ensures
        lines_from(l, cur) == seq![cur + l],
    decreases l.len(),
{
    if l.len() == 0 {
        assert(cur + l =~= cur);
    } else {
        assert(l[0] != '\n') by {
            assert(l.contains(l[0]));
        }
        assert(!l.drop_first().contains('\n')) by {
            if l.drop_first().contains('\n') {
                let j = choose|j: int| 0 <= j < l.drop_first().len() && l.drop_first()[j] == '\n';
                assert(l[j + 1] == '\n');
            }
        }
        lemma_lines_from_plain(l.drop_first(), cur.push(l[0]));
        assert(cur.push(l[0]) + l.drop_first() =~= cur + l);
    }
}

/// A newline at the end of a text adds one empty last line.
pub(crate) proof fn lemma_lines_from_trailing_newline(s: Seq<char>, cur: Seq<char>)
    ensures
        lines_from(s.push('\n'), cur) == lines_from(s, cur).push(Seq::<char>::empty()),
{
    assert(s.push('\n') =~= s + seq!['\n'] + Seq::<char>::empty());
    lemma_lines_from_append(s, cur, Seq::empty());
}

/// `s` begins with `prefix`.
pub open spec fn starts_with(s: Seq<char>, prefix: Seq<char>) -> bool {
    prefix.len() <= s.len() && s.take(prefix.len() as int) == prefix
}

/// The characters that `spans` cut out of `s`, one sequence per span.
pub open spec fn span_texts(s: Seq<char>, spans: Seq<(usize, usize)>) -> Seq<Seq<char>> {
    Seq::new(spans.len(), |j: int| s.subrange(spans[j].0 as int, spans[j].1 as int))
}

/// Every span lies inside `lo..hi` and is well ordered.
pub open spec fn spans_within(spans: Seq<(usize, usize)>, lo: int, hi: int) -> bool {
    forall|j: int|
        0 <= j < spans.len() ==> lo <= (#[trigger] spans[j]).0 <= spans[j].1 <= hi
}

proof fn lemma_span_texts_push(s: Seq<char>, spans: Seq<(usize, usize)>, p: (usize, usize))
    ensures
        span_texts(s, spans.push(p)) == span_texts(s, spans).push(
            s.subrange(p.0 as int, p.1 as int),
        ),
{
    assert(span_texts(s, spans.push(p)) =~= span_texts(s, spans).push(
        s.subrange(p.0 as int, p.1 as int),
    ));
}

/// A non-empty trimmed text starts with a character that is not whitespace.
pub(crate) proof fn lemma_trim_first(s: Seq<char>)
    ensures
        trim(s).len() > 0 ==> !is_ws(trim(s)[0]),
{
    lemma_trim_start_first(trim_start(s));
    lemma_trim_start_first(s);
    lemma_trim_end_prefix(trim_start(s));
}

proof fn lemma_trim_start_first(s: Seq<char>)
    ensures
        trim_start(s).len() > 0 ==> !is_ws(trim_start(s)[0]),
    decreases s.len(),
{
    if s.len() > 0 && is_ws(s[0]) {
        lemma_trim_start_first(s.drop_first());
    }
}

proof fn lemma_trim_end_prefix(s: Seq<char>)
    ensures
        trim_end(s).len() <= s.len(),
        trim_end(s) == s.take(trim_end(s).len() as int),
    decreases s.len(),
{
    if s.len() > 0 && is_ws(s.last()) {
        lemma_trim_end_prefix(s.drop_last());
        assert(s.drop_last().take(trim_end(s).len() as int) =~= s.take(trim_end(s).len() as int));
    } else {
        assert(s.take(s.len() as int) =~= s);
    }
}

proof fn lemma_trim_start_push(p: Seq<char>, c: char)
    ensures
        trim_start(p.push(c)) == (if trim_start(p).len() > 0 {
            trim_start(p).push(c)
        } else {
            trim_start(seq![c])
        }),
    decreases p.len(),
{
    if p.len() == 0 {
        assert(p.push(c) =~= seq![c]);
    } else {
        assert(p.push(c)[0] == p[0]);
        assert(p.push(c).drop_first() =~= p.drop_first().push(c));
        if is_ws(p[0]) {
            lemma_trim_start_push(p.drop_first(), c);
        }
    }
}

/// A trailing whitespace character changes nothing once the text is trimmed.
pub(crate) proof fn lemma_trim_push_ws(p: Seq<char>, c: char)
    requires
        is_ws(c),
    ensures
        trim(p.push(c)) == trim(p),
{
    lemma_trim_start_push(p, c);
    if trim_start(p).len() > 0 {
        let q = trim_start(p).push(c);
        assert(q.drop_last() =~= trim_start(p));
    } else {
        assert(seq![c].drop_first() =~= Seq::<char>::empty());
        assert(seq![c][0] == c);
        assert(trim_start(Seq::<char>::empty()) =~= Seq::<char>::empty());
        assert(trim_start(seq![c]) =~= Seq::<char>::empty());
        assert(trim_start(p) =~= Seq::<char>::empty());
    }
}

/// `s` with a carriage return before every newline.
pub open spec fn with_crlf(s: Seq<char>) -> Seq<char>
    decreases s.len(),
{
    if s.len() == 0 {
        Seq::empty()
    } else if s[0] == '\n' {
        seq!['\r', '\n'] + with_crlf(s.drop_first())
    } else {
        seq![s[0]] + with_crlf(s.drop_first())
    }
}

/// The lines `a` are the lines `b`, some with a carriage return appended.
pub open spec fn lines_with_returns(a: Seq<Seq<char>>, b: Seq<Seq<char>>) -> bool {
    &&& a.len() == b.len()
    &&& forall|k: int| 0 <= k < a.len() ==> #[trigger] a[k] == b[k] || a[k] == b[k].push('\r')
}

pub(crate) proof fn lemma_lines_from_crlf(s: Seq<char>, cur: Seq<char>)
    ensures
        lines_with_returns(lines_from(with_crlf(s), cur), lines_from(s, cur)),
    decreases s.len(),
{
    let w = with_crlf(s);
    if s.len() == 0 {
        assert(w.len() == 0);
    } else if s[0] == '\n' {
        let rest = s.drop_first();
        let x = with_crlf(rest);
        lemma_lines_from_crlf(rest, Seq::empty());
        assert(w == seq!['\r', '\n'] + x);
        assert(w[0] == '\r');
        assert(w.drop_first() =~= seq!['\n'] + x);
        assert((seq!['\n'] + x)[0] == '\n');
        assert((seq!['\n'] + x).drop_first() =~= x);
        let a = lines_from(w, cur);
        let b = lines_from(s, cur);
        assert(a == lines_from(seq!['\n'] + x, cur.push('\r')));
        assert(lines_from(seq!['\n'] + x, cur.push('\r')) == seq![cur.push('\r')] + lines_from(
            (seq!['\n'] + x).drop_first(),
            Seq::empty(),
        ));
        assert(a == seq![cur.push('\r')] + lines_from(x, Seq::empty()));
        assert(b == seq![cur] + lines_from(rest, Seq::empty()));
        assert forall|k: int| 0 <= k < a.len() implies #[trigger] a[k] == b[k] || a[k] == b[k].push(
            '\r',
        ) by {
            if k > 0 {
                assert(a[k] == lines_from(x, Seq::empty())[k - 1]);
                assert(b[k] == lines_from(rest, Seq::empty())[k - 1]);
            }
        }
    } else {
        let rest = s.drop_first();
        let x = with_crlf(rest);
        lemma_lines_from_crlf(rest, cur.push(s[0]));
        assert(w == seq![s[0]] + x);
        assert(w[0] == s[0]);
        assert(w.drop_first() =~= x);
    }
}

/// A text that starts with a character that is not whitespace has a token.
pub(crate) proof fn lemma_split_ws_nonempty(s: Seq<char>)
    requires
        s.len() > 0,
        !is_ws(s[0]),
    ensures
        split_ws(s).len() > 0,
{
    lemma_tokens_from_pending(s.drop_first(), seq![s[0]]);
    assert(Seq::<char>::empty().push(s[0]) =~= seq![s[0]]);
}

proof fn lemma_tokens_from_pending(s: Seq<char>, cur: Seq<char>)
    requires
        cur.len() > 0,
    ensures
        tokens_from(s, cur).len() > 0,
    decreases s.len(),
{
    if s.len() > 0 && !is_ws(s[0]) {
        lemma_tokens_from_pending(s.drop_first(), cur.push(s[0]));
    }
}

/// Whether `c` is whitespace, as `char::is_whitespace` decides.
pub(crate) fn is_ws_char(c: char) -> (b: bool)
    ensures
        b == is_ws(c),
{
    let u: u32 = c as u32;
    (9 <= u && u <= 13) || u == 32 || u == 0x85 || u == 0xa0 || u == 0x1680 || (0x2000 <= u
        && u <= 0x200a) || u == 0x2028 || u == 0x2029 || u == 0x202f || u == 0x205f || u
        == 0x3000
}

/// The characters of `text`, in order.
pub(crate) fn collect_chars(text: &str) -> (chars: Vec<char>)
    ensures
        chars@ == text@,
{
    let mut chars: Vec<char> = Vec::new();
    let mut it = text.chars();
    let ghost all = text@;
    loop
        invariant
            it.obeys_prophetic_iter_laws(),
            it.decrease() is Some,
            all == text@,
            chars@ + it.remaining() == all,
        decreases it.decrease()->0,
    {
        let ghost before = it.remaining();
        match it.next() {
            Some(c) => {
                assert(before.len() > 0);
                chars.push(c);
                assert(chars@ + it.remaining() =~= all);
            },
            None => {
                assert(chars@ =~= all);
                return chars;
            },
        }
    }
}

/// The bounds of the trimmed text of `s[lo..hi]`.
pub(crate) fn trim_bounds(s: &Vec<char>, lo: usize, hi: usize) -> (r: (usize, usize))
    requires
        lo <= hi <= s.len(),
    ensures
        lo <= r.0 <= r.1 <= hi,
        s@.subrange(r.0 as int, r.1 as int) == trim(s@.subrange(lo as int, hi as int)),
{
    let mut a = lo;
    while a < hi && is_ws_char(s[a])
        invariant
            lo <= a <= hi <= s.len(),
            trim_start(s@.subrange(lo as int, hi as int)) == trim_start(
                s@.subrange(a as int, hi as int),
            ),
        decreases hi - a,
    {
        assert(s@.subrange(a as int, hi as int).drop_first() =~= s@.subrange(
            a + 1,
            hi as int,
        ));
        a = a + 1;
    }
    let mut b = hi;
    while b > a && is_ws_char(s[b - 1])
        invariant
            lo <= a <= b <= hi <= s.len(),
            trim(s@.subrange(lo as int, hi as int)) == trim_end(s@.subrange(a as int, b as int)),
        decreases b - a,
    {
        assert(s@.subrange(a as int, b as int).drop_last() =~= s@.subrange(a as int, b - 1));
        b = b - 1;
    }
    (a, b)
}

/// The spans of the whitespace-separated tokens of `s[lo..hi]`.
pub(crate) fn token_spans(s: &Vec<char>, lo: usize, hi: usize) -> (spans: Vec<(usize, usize)>)
    requires
        lo <= hi <= s.len(),
    ensures
        spans_within(spans@, lo as int, hi as int),
        span_texts(s@, spans@) == split_ws(s@.subrange(lo as int, hi as int)),
{
    let mut spans: Vec<(usize, usize)> = Vec::new();
    let mut start = lo;
    let mut i = lo;
    assert(s@.subrange(lo as int, lo as int) =~= Seq::<char>::empty());
    assert(span_texts(s@, spans@) + split_ws(s@.subrange(lo as int, hi as int)) =~= split_ws(
        s@.subrange(lo as int, hi as int),
    ));
    while i < hi
        invariant
            lo <= start <= i <= hi <= s.len(),
            spans_within(spans@, lo as int, hi as int),
            span_texts(s@, spans@) + tokens_from(
                s@.subrange(i as int, hi as int),
                s@.subrange(start as int, i as int),
            ) == split_ws(s@.subrange(lo as int, hi as int)),
        decreases hi - i,
    {
        let ghost rest = s@.subrange(i as int, hi as int);
        let ghost cur = s@.subrange(start as int, i as int);
        assert(rest[0] == s@[i as int]);
        assert(rest.drop_first() =~= s@.subrange(i + 1, hi as int));
        if is_ws_char(s[i]) {
            let ghost old_spans = spans@;
            if start < i {
                spans.push((start, i));
                proof {
                    lemma_span_texts_push(s@, old_spans, (start, i));
                }
            }
            assert(span_texts(s@, spans@) == span_texts(s@, old_spans) + flush(cur));
            assert(s@.subrange(i + 1, i + 1) =~= Seq::<char>::empty());
            assert(span_texts(s@, old_spans) + (flush(cur) + tokens_from(
                s@.subrange(i + 1, hi as int),
                Seq::empty(),
            )) =~= span_texts(s@, spans@) + tokens_from(
                s@.subrange(i + 1, hi as int),
                Seq::empty(),
            ));
            start = i + 1;
        } else {
            assert(cur.push(s@[i as int]) =~= s@.subrange(start as int, i + 1));
        }
        i = i + 1;
    }
    let ghost cur = s@.subrange(start as int, hi as int);
    assert(s@.subrange(hi as int, hi as int) =~= Seq::<char>::empty());
    let ghost old_spans = spans@;
    if start < hi {
        spans.push((start, hi));
        proof {
            lemma_span_texts_push(s@, old_spans, (start, hi));
        }
    }
    assert(span_texts(s@, spans@) =~= span_texts(s@, old_spans) + flush(cur));
    spans
}

/// Whether `s[lo..hi]` begins with the text `lit`.
pub(crate) fn range_starts_with(s: &Vec<char>, lo: usize, hi: usize, lit: &str) -> (b: bool)
    requires
        lo <= hi <= s.len(),
    ensures
        b == starts_with(s@.subrange(lo as int, hi as int), lit@),
{
    let n = lit.unicode_len();
    if n > hi - lo {
        return false;
    }
    let mut j: usize = 0;
    while j < n
        invariant
            n == lit@.len(),
            lo + n <= hi <= s.len(),
            j <= n,
            forall|k: int| 0 <= k < j ==> s@[lo + k] == lit@[k],
        decreases n - j,
    {
        if s[lo + j] != lit.get_char(j) {
            assert(s@.subrange(lo as int, hi as int).take(n as int)[j as int] != lit@[j as int]);
            return false;
        }
        j = j + 1;
    }
    assert(s@.subrange(lo as int, hi as int).take(n as int) =~= lit@);
    true
}

/// Whether `s[lo..hi]` is exactly the text `lit`.
pub(crate) fn range_equals(s: &Vec<char>, lo: usize, hi: usize, lit: &str) -> (b: bool)
    requires
        lo <= hi <= s.len(),
    ensures
        b == (s@.subrange(lo as int, hi as int) == lit@),
{
    let n = lit.unicode_len();
    if n != hi - lo {
        return false;
    }
    let r = range_starts_with(s, lo, hi, lit);
    assert(s@.subrange(lo as int, hi as int).take(n as int) =~= s@.subrange(lo as int, hi as int));
    r
}

/// A copy of `s[lo..hi]`.
pub(crate) fn copy_range(s: &Vec<char>, lo: usize, hi: usize) -> (r: Vec<char>)
    requires
        lo <= hi <= s.len(),
    ensures
        r@ == s@.subrange(lo as int, hi as int),
{
    let mut r: Vec<char> = Vec::new();
    let mut i = lo;
    while i < hi
        invariant
            lo <= i <= hi <= s.len(),
            r@ == s@.subrange(lo as int, i as int),
        decreases hi - i,
    {
        r.push(s[i]);
        assert(r@ =~= s@.subrange(lo as int, i + 1));
        i = i + 1;
    }
    r
}

} // verus!
