//! Whitespace trimming and splitting of text, as the command line parsers use them.

use vstd::prelude::*;
use vstd::string::StrSliceExecFns;

verus! {

/// The Unicode `White_Space` property, which is what `char::is_whitespace` tests.
pub open spec fn is_space(c: char) -> bool {
    ||| ('\u{9}' <= c && c <= '\u{d}')
    ||| c == ' '
    ||| c == '\u{85}'
    ||| c == '\u{a0}'
    ||| c == '\u{1680}'
    ||| ('\u{2000}' <= c && c <= '\u{200a}')
    ||| c == '\u{2028}'
    ||| c == '\u{2029}'
    ||| c == '\u{202f}'
    ||| c == '\u{205f}'
    ||| c == '\u{3000}'
}

/// Tests a character for the Unicode `White_Space` property.
pub fn is_space_char(c: char) -> (b: bool)
    ensures
        b == is_space(c),
{
    ('\u{9}' <= c && c <= '\u{d}') || c == ' ' || c == '\u{85}' || c == '\u{a0}' || c
        == '\u{1680}' || ('\u{2000}' <= c && c <= '\u{200a}') || c == '\u{2028}' || c
        == '\u{2029}' || c == '\u{202f}' || c == '\u{205f}' || c == '\u{3000}'
}

/// `s` without its leading whitespace.
pub open spec fn trim_start(s: Seq<char>) -> Seq<char>
    decreases s.len(),
{
    if s.len() > 0 && is_space(s[0]) {
        trim_start(s.drop_first())
    } else {
        s
    }
}

/// `s` without its trailing whitespace.
pub open spec fn trim_end(s: Seq<char>) -> Seq<char>
    decreases s.len(),
{
    if s.len() > 0 && is_space(s.last()) {
        trim_end(s.drop_last())
    } else {
        s
    }
}

/// `s` without leading and trailing whitespace (what `str::trim` gives).
pub open spec fn trim(s: Seq<char>) -> Seq<char> {
    trim_end(trim_start(s))
}

/// The pieces of `s` between the characters that `is_sep` accepts, in order,
/// empty pieces included (what `str::split` with a character predicate gives).
pub open spec fn split_by(s: Seq<char>, is_sep: spec_fn(char) -> bool) -> Seq<Seq<char>>
    decreases s.len(),
{
    if s.len() == 0 {
        seq![Seq::<char>::empty()]
    } else {
        let p = split_by(s.drop_last(), is_sep);
        if is_sep(s.last()) {
            p.push(Seq::<char>::empty())
        } else {
            p.update(p.len() - 1, p.last().push(s.last()))
        }
    }
}

/// The separator test for whitespace.
pub open spec fn space_sep() -> spec_fn(char) -> bool {
    |c: char| is_space(c)
}

/// The separator test for a single character.
pub open spec fn char_sep(sep: char) -> spec_fn(char) -> bool {
    |c: char| c == sep
}

/// The non-empty pieces of `p`, in order.
pub open spec fn nonempty(p: Seq<Seq<char>>) -> Seq<Seq<char>>
    decreases p.len(),
{
    if p.len() == 0 {
        p
    } else if p.last().len() > 0 {
        nonempty(p.drop_last()).push(p.last())
    } else {
        nonempty(p.drop_last())
    }
}

/// The words of `s`: its maximal runs of non-whitespace characters
/// (what `str::split_whitespace` gives).
pub open spec fn words(s: Seq<char>) -> Seq<Seq<char>> {
    nonempty(split_by(s, space_sep()))
}

/// The pieces of `s` between occurrences of `sep` (what `str::split(sep)` gives).
pub open spec fn split_on(s: Seq<char>, sep: char) -> Seq<Seq<char>> {
    split_by(s, char_sep(sep))
}

/// The texts of a sequence of strings.
pub open spec fn texts(v: Seq<String>) -> Seq<Seq<char>> {
    v.map_values(|w: String| w@)
}

proof fn lemma_trim_start_skip(s: Seq<char>, a: int)
    requires
        0 <= a <= s.len(),
        forall|i: int| 0 <= i < a ==> is_space(#[trigger] s[i]),
        a == s.len() || !is_space(s[a]),
    ensures
        trim_start(s) == s.skip(a),
    decreases a,
{
    if a == 0 {
        assert(s.skip(0) =~= s);
    } else {
        let t = s.drop_first();
        assert forall|i: int| 0 <= i < a - 1 implies is_space(#[trigger] t[i]) by {
            assert(t[i] == s[i + 1]);
        }
        if a - 1 < t.len() {
            assert(t[a - 1] == s[a]);
        }
        lemma_trim_start_skip(t, a - 1);
        assert(t.skip(a - 1) =~= s.skip(a));
    }
}

proof fn lemma_trim_end_take(s: Seq<char>, b: int)
    requires
        0 <= b <= s.len(),
        forall|i: int| b <= i < s.len() ==> is_space(#[trigger] s[i]),
        b == 0 || !is_space(s[b - 1]),
    ensures
        trim_end(s) == s.take(b),
    decreases s.len() - b,
{
    if b == s.len() {
        assert(s.take(b) =~= s);
    } else {
        let t = s.drop_last();
        assert(is_space(s[s.len() - 1]));
        assert forall|i: int| b <= i < t.len() implies is_space(#[trigger] t[i]) by {
            assert(t[i] == s[i]);
        }
        if b > 0 {
            assert(t[b - 1] == s[b - 1]);
        }
        lemma_trim_end_take(t, b);
        assert(t.take(b) =~= s.take(b));
    }
}

/// The text of `s` without leading and trailing whitespace.
pub fn trim_str(s: &str) -> (r: &str)
    ensures
        r@ == trim(s@),
{
    let n = s.unicode_len();
    let mut a: usize = 0;
    while a < n && is_space_char(s.get_char(a))
        invariant
            n == s@.len(),
            a <= n,
            forall|i: int| 0 <= i < a ==> is_space(#[trigger] s@[i]),
        decreases n - a,
    {
        a = a + 1;
    }
    let mut b: usize = n;
    while b > a && is_space_char(s.get_char(b - 1))
        invariant
            n == s@.len(),
            a <= b <= n,
            forall|i: int| b <= i < n ==> is_space(#[trigger] s@[i]),
        decreases b - a,
    {
        b = b - 1;
    }
    proof {
        lemma_trim_start_skip(s@, a as int);
        let t = s@.skip(a as int);
        assert forall|i: int| (b - a) <= i < t.len() implies is_space(#[trigger] t[i]) by {
            assert(t[i] == s@[a + i]);
        }
        if b > a {
            assert(t[b - a - 1] == s@[b - 1]);
        }
        lemma_trim_end_take(t, (b - a) as int);
        assert(t.take((b - a) as int) =~= s@.subrange(a as int, b as int));
    }
    s.substring_char(a, b)
}

/// How the pieces are separated: by whitespace, or by one character.
#[derive(Clone, Copy)]
enum Separator {
    Space,
    Char(char),
}

impl Separator {
    spec fn test(self) -> spec_fn(char) -> bool {
        match self {
            Separator::Space => space_sep(),
            Separator::Char(c) => char_sep(c),
        }
    }

    fn accepts(&self, c: char) -> (b: bool)
        ensures
            b == (self.test())(c),
    {
        match self {
            Separator::Space => is_space_char(c),
            Separator::Char(sep) => c == *sep,
        }
    }
}

proof fn lemma_split_by_nonempty(s: Seq<char>, p: spec_fn(char) -> bool)
    ensures
        split_by(s, p).len() >= 1,
    decreases s.len(),
{
    if s.len() > 0 {
        lemma_split_by_nonempty(s.drop_last(), p);
    }
}

fn split_pieces(s: &str, sep: Separator) -> (out: Vec<String>)
    ensures
        texts(out@) == split_by(s@, sep.test()),
{
    let n = s.unicode_len();
    let mut out: Vec<String> = Vec::new();
    let mut start: usize = 0;
    let mut i: usize = 0;
    assert(s@.take(0) =~= Seq::<char>::empty());
    assert(texts(out@).push(s@.subrange(0, 0)) =~= seq![Seq::<char>::empty()]);
    while i < n
        invariant
            n == s@.len(),
            start <= i <= n,
            texts(out@).push(s@.subrange(start as int, i as int)) == split_by(
                s@.take(i as int),
                sep.test(),
            ),
        decreases n - i,
    {
        let c = s.get_char(i);
        let ghost prev = texts(out@);
        proof {
            assert(s@.take(i + 1).drop_last() =~= s@.take(i as int));
            assert(s@.take(i + 1).last() == c);
            lemma_split_by_nonempty(s@.take(i as int), sep.test());
        }
        if sep.accepts(c) {
            let piece = s.substring_char(start, i).to_owned();
            out.push(piece);
            proof {
                assert(texts(out@) =~= prev.push(s@.subrange(start as int, i as int)));
            }
            start = i + 1;
            proof {
                assert(s@.subrange(start as int, (i + 1) as int) =~= Seq::<char>::empty());
            }
        } else {
            proof {
                assert(s@.subrange(start as int, (i + 1) as int) =~= s@.subrange(
                    start as int,
                    i as int,
                ).push(c));
                assert(prev.push(s@.subrange(start as int, (i + 1) as int)) =~= prev.push(
                    s@.subrange(start as int, i as int),
                ).update(prev.len() as int, s@.subrange(start as int, i as int).push(c)));
            }
        }
        i = i + 1;
    }
    let last = s.substring_char(start, n).to_owned();
    let ghost prev = texts(out@);
    out.push(last);
    proof {
        assert(texts(out@) =~= prev.push(s@.subrange(start as int, n as int)));
        assert(s@.take(n as int) =~= s@);
    }
    out
}

proof fn lemma_nonempty_push(p: Seq<Seq<char>>, w: Seq<char>)
    ensures
        nonempty(p.push(w)) == (if w.len() > 0 {
            nonempty(p).push(w)
        } else {
            nonempty(p)
        }),
{
    assert(p.push(w).drop_last() =~= p);
}

/// The words of `s`, in order (what `str::split_whitespace` gives).
pub fn split_whitespace(s: &str) -> (out: Vec<String>)
    ensures
        texts(out@) == words(s@),
{
    let pieces = split_pieces(s, Separator::Space);
    let mut out: Vec<String> = Vec::new();
    let mut k: usize = 0;
    assert(texts(pieces@).take(0) =~= Seq::<Seq<char>>::empty());
    while k < pieces.len()
        invariant
            k <= pieces.len(),
            texts(pieces@) == split_by(s@, space_sep()),
            texts(out@) == nonempty(texts(pieces@).take(k as int)),
        decreases pieces.len() - k,
    {
        let ghost prev = texts(out@);
        proof {
            assert(texts(pieces@).take(k + 1) =~= texts(pieces@).take(k as int).push(
                pieces@[k as int]@,
            ));
            lemma_nonempty_push(texts(pieces@).take(k as int), pieces@[k as int]@);
        }
        if pieces[k].as_str().unicode_len() > 0 {
            out.push(pieces[k].clone());
            assert(texts(out@) =~= prev.push(pieces@[k as int]@));
        }
        k = k + 1;
    }
    assert(texts(pieces@).take(pieces.len() as int) =~= texts(pieces@));
    out
}

/// The pieces of `s` between occurrences of `sep`, in order (what `str::split(sep)` gives).
pub fn split_char(s: &str, sep: char) -> (out: Vec<String>)
    ensures
        texts(out@) == split_on(s@, sep),
{
    split_pieces(s, Separator::Char(sep))
}

/// Whether two texts are the same.
pub fn text_eq(a: &str, b: &str) -> (r: bool)
    ensures
        r == (a@ == b@),
{
    let n = a.unicode_len();
    let m = b.unicode_len();
    if n != m {
        return false;
    }
    let mut i: usize = 0;
    while i < n
        invariant
            n == a@.len(),
            m == b@.len(),
            n == m,
            i <= n,
            forall|j: int| 0 <= j < i ==> a@[j] == b@[j],
        decreases n - i,
    {
        if a.get_char(i) != b.get_char(i) {
            return false;
        }
        i = i + 1;
    }
    assert(a@ =~= b@);
    true
}

/// Lexicographic order of two texts by character: negative, zero or positive
/// as `a` comes before, equals or comes after `b` (for UTF-8 strings this is
/// the byte order that `str::cmp` uses).
pub open spec fn lex(a: Seq<char>, b: Seq<char>) -> int
    decreases a.len(),
{
    if a.len() == 0 {
        if b.len() == 0 {
            0
        } else {
            -1
        }
    } else if b.len() == 0 {
        1
    } else if a[0] < b[0] {
        -1
    } else if a[0] > b[0] {
        1
    } else {
        lex(a.drop_first(), b.drop_first())
    }
}

/// Compares two texts lexicographically by character: -1, 0 or 1.
pub fn compare_text(a: &str, b: &str) -> (r: i8)
    ensures
        r == lex(a@, b@),
{
    let n = a.unicode_len();
    let m = b.unicode_len();
    let mut i: usize = 0;
    assert(a@.skip(0) =~= a@ && b@.skip(0) =~= b@);
    while i < n && i < m
        invariant
            n == a@.len(),
            m == b@.len(),
            i <= n,
            i <= m,
            lex(a@.skip(i as int), b@.skip(i as int)) == lex(a@, b@),
        decreases n - i,
    {
        let x = a.get_char(i);
        let y = b.get_char(i);
        assert(a@.skip(i as int)[0] == x && b@.skip(i as int)[0] == y);
        if x < y {
            return -1;
        }
        if x > y {
            return 1;
        }
        assert(a@.skip(i as int).drop_first() =~= a@.skip(i + 1));
        assert(b@.skip(i as int).drop_first() =~= b@.skip(i + 1));
        i = i + 1;
    }
    if i == n {
        if i == m {
            0
        } else {
            -1
        }
    } else {
        1
    }
}

/// `lex` is zero exactly on equal texts.
pub proof fn lemma_lex_zero(a: Seq<char>, b: Seq<char>)
    ensures
        (lex(a, b) == 0) == (a == b),
    decreases a.len(),
{
    if a.len() > 0 && b.len() > 0 && a[0] == b[0] {
        lemma_lex_zero(a.drop_first(), b.drop_first());
        if a.drop_first() == b.drop_first() {
            assert(a =~= seq![a[0]] + a.drop_first());
            assert(b =~= seq![b[0]] + b.drop_first());
        }
    } else if a.len() > 0 && b.len() > 0 {
        assert(a[0] != b[0]);
    } else if a.len() == 0 && b.len() == 0 {
        assert(a =~= b);
    }
}

/// Swapping the texts negates `lex`.
pub proof fn lemma_lex_antisymmetric(a: Seq<char>, b: Seq<char>)
    ensures
        lex(a, b) == -lex(b, a),
        -1 <= lex(a, b) <= 1,
    decreases a.len(),
{
    if a.len() > 0 && b.len() > 0 && a[0] == b[0] {
        lemma_lex_antisymmetric(a.drop_first(), b.drop_first());
    }
}

/// `lex` is transitive.
pub proof fn lemma_lex_transitive(a: Seq<char>, b: Seq<char>, c: Seq<char>)
    requires
        lex(a, b) <= 0,
        lex(b, c) <= 0,
    ensures
        lex(a, c) <= 0,
        lex(a, b) < 0 || lex(b, c) < 0 ==> lex(a, c) < 0,
    decreases a.len(),
{
    if a.len() > 0 && b.len() > 0 && c.len() > 0 && a[0] == b[0] && b[0] == c[0] {
        lemma_lex_transitive(a.drop_first(), b.drop_first(), c.drop_first());
    }
}

/// Splitting after an added separator adds an empty piece.
pub proof fn lemma_split_push_sep(s: Seq<char>, p: spec_fn(char) -> bool, c: char)
    requires
        p(c),
    ensures
        split_by(s.push(c), p) == split_by(s, p).push(Seq::<char>::empty()),
{
    assert(s.push(c).drop_last() =~= s);
}

/// Splitting after added text without separators extends the last piece.
pub proof fn lemma_split_append_plain(s: Seq<char>, t: Seq<char>, p: spec_fn(char) -> bool)
    requires
        forall|i: int| 0 <= i < t.len() ==> !p(#[trigger] t[i]),
    ensures
        split_by(s + t, p) == split_by(s, p).update(
            split_by(s, p).len() - 1,
            split_by(s, p).last() + t,
        ),
    decreases t.len(),
{
    lemma_split_by_nonempty(s, p);
    let q = split_by(s, p);
    if t.len() == 0 {
        assert(s + t =~= s);
        assert(q.last() + t =~= q.last());
        assert(q.update(q.len() - 1, q.last()) =~= q);
    } else {
        let u = t.drop_last();
        assert forall|i: int| 0 <= i < u.len() implies !p(#[trigger] u[i]) by {
            assert(u[i] == t[i]);
        }
        lemma_split_append_plain(s, u, p);
        assert((s + t).drop_last() =~= s + u);
        assert((s + t).last() == t.last());
        assert(!p(t[t.len() - 1]));
        let r = split_by(s + u, p);
        assert(r.last() == q.last() + u);
        assert(r.len() == q.len());
        assert(r.last().push(t.last()) =~= q.last() + t);
        assert(r.update(r.len() - 1, r.last().push(t.last())) =~= q.update(
            q.len() - 1,
            q.last() + t,
        ));
    }
}

proof fn lemma_trim_start_all_space(s: Seq<char>)
    requires
        forall|i: int| 0 <= i < s.len() ==> is_space(#[trigger] s[i]),
    ensures
        trim_start(s).len() == 0,
    decreases s.len(),
{
    if s.len() > 0 {
        let t = s.drop_first();
        assert forall|i: int| 0 <= i < t.len() implies is_space(#[trigger] t[i]) by {
            assert(t[i] == s[i + 1]);
        }
        lemma_trim_start_all_space(t);
    }
}

proof fn lemma_trim_start_keeps_text(s: Seq<char>, k: int)
    requires
        0 <= k < s.len(),
        !is_space(s[k]),
    ensures
        trim_start(s).len() > 0,
        !is_space(trim_start(s)[0]),
    decreases s.len(),
{
    if is_space(s[0]) {
        let t = s.drop_first();
        assert(t[k - 1] == s[k]);
        lemma_trim_start_keeps_text(t, k - 1);
    }
}

proof fn lemma_trim_end_keeps_first(t: Seq<char>)
    requires
        t.len() > 0,
        !is_space(t[0]),
    ensures
        trim_end(t).len() > 0,
    decreases t.len(),
{
    if is_space(t.last()) {
        let u = t.drop_last();
        assert(u[0] == t[0]);
        lemma_trim_end_keeps_first(u);
    }
}

/// Trimming leaves nothing exactly when the text is all whitespace.
pub proof fn lemma_trim_empty(s: Seq<char>)
    ensures
        (trim(s).len() == 0) == (forall|i: int| 0 <= i < s.len() ==> is_space(#[trigger] s[i])),
{
    if forall|i: int| 0 <= i < s.len() ==> is_space(#[trigger] s[i]) {
        lemma_trim_start_all_space(s);
    } else {
        let k = choose|k: int| 0 <= k < s.len() && !is_space(#[trigger] s[k]);
        lemma_trim_start_keeps_text(s, k);
        lemma_trim_end_keeps_first(trim_start(s));
    }
}

/// A word: non-empty text without whitespace.
pub open spec fn is_word(w: Seq<char>) -> bool {
    w.len() > 0 && forall|i: int| 0 <= i < w.len() ==> !is_space(#[trigger] w[i])
}

/// The words, each preceded by one space: ` w1 w2 ... wn`.
pub open spec fn spaced(ws: Seq<Seq<char>>) -> Seq<char>
    decreases ws.len(),
{
    if ws.len() == 0 {
        Seq::<char>::empty()
    } else {
        spaced(ws.drop_last()) + seq![' '] + ws.last()
    }
}

proof fn lemma_split_spaced(head: Seq<char>, rest: Seq<Seq<char>>)
    requires
        is_word(head),
        forall|j: int| 0 <= j < rest.len() ==> is_word(#[trigger] rest[j]),
    ensures
        split_by(head + spaced(rest), space_sep()) == seq![head] + rest,
    decreases rest.len(),
{
    let p = space_sep();
    if rest.len() == 0 {
        let e = Seq::<char>::empty();
        assert forall|i: int| 0 <= i < head.len() implies !p(#[trigger] head[i]) by {}
        lemma_split_append_plain(e, head, p);
        assert(e + head =~= head);
        assert(head + spaced(rest) =~= head);
        assert(split_by(e, p) =~= seq![e]);
        assert(split_by(head, p) =~= seq![head]);
        assert(seq![head] + rest =~= seq![head]);
    } else {
        let r = rest.drop_last();
        let w = rest.last();
        assert forall|j: int| 0 <= j < r.len() implies is_word(#[trigger] r[j]) by {
            assert(r[j] == rest[j]);
        }
        lemma_split_spaced(head, r);
        let s = head + spaced(r);
        assert(head + spaced(rest) =~= s.push(' ') + w);
        assert(p(' '));
        lemma_split_push_sep(s, p, ' ');
        assert(is_word(rest[rest.len() - 1]));
        assert forall|i: int| 0 <= i < w.len() implies !p(#[trigger] w[i]) by {}
        lemma_split_append_plain(s.push(' '), w, p);
        let q = (seq![head] + r).push(Seq::<char>::empty());
        assert(Seq::<char>::empty() + w =~= w);
        assert(q.update(q.len() - 1, q.last() + w) =~= seq![head] + rest);
    }
}

proof fn lemma_nonempty_all(p: Seq<Seq<char>>)
    requires
        forall|j: int| 0 <= j < p.len() ==> (#[trigger] p[j]).len() > 0,
    ensures
        nonempty(p) == p,
    decreases p.len(),
{
    if p.len() > 0 {
        let q = p.drop_last();
        assert forall|j: int| 0 <= j < q.len() implies (#[trigger] q[j]).len() > 0 by {
            assert(q[j] == p[j]);
        }
        lemma_nonempty_all(q);
        assert(q.push(p.last()) =~= p);
    }
}

proof fn lemma_spaced_last(head: Seq<char>, rest: Seq<Seq<char>>)
    requires
        is_word(head),
        forall|j: int| 0 <= j < rest.len() ==> is_word(#[trigger] rest[j]),
    ensures
        (head + spaced(rest)).len() > 0,
        !is_space((head + spaced(rest))[0]),
        !is_space((head + spaced(rest)).last()),
{
    let s = head + spaced(rest);
    assert(s[0] == head[0]);
    if rest.len() == 0 {
        assert(s =~= head);
        assert(is_word(head) && !is_space(head[head.len() - 1]));
    } else {
        let w = rest.last();
        assert(is_word(rest[rest.len() - 1]));
        assert(spaced(rest) == spaced(rest.drop_last()) + seq![' '] + w);
        assert(s.last() == w[w.len() - 1]);
    }
}

/// A first word followed by further words, each after one space, is neither
/// changed by trimming nor split other than into exactly those words.
pub proof fn lemma_words_of_spaced(head: Seq<char>, rest: Seq<Seq<char>>)
    requires
        is_word(head),
        forall|j: int| 0 <= j < rest.len() ==> is_word(#[trigger] rest[j]),
    ensures
        trim(head + spaced(rest)) == head + spaced(rest),
        words(head + spaced(rest)) == seq![head] + rest,
{
    let s = head + spaced(rest);
    lemma_spaced_last(head, rest);
    assert(trim_start(s) == s);
    assert(trim_end(s) == s);
    lemma_split_spaced(head, rest);
    let p = seq![head] + rest;
    assert forall|j: int| 0 <= j < p.len() implies (#[trigger] p[j]).len() > 0 by {
        if j > 0 {
            assert(p[j] == rest[j - 1]);
            assert(is_word(rest[j - 1]));
        }
    }
    lemma_nonempty_all(p);
}

/// Whatever follows an added separator, the pieces before it stay the first pieces.
pub proof fn lemma_split_keeps_prefix(s: Seq<char>, c: char, y: Seq<char>, p: spec_fn(char) -> bool)
    requires
        p(c),
    ensures
        split_by(s.push(c) + y, p).len() > split_by(s, p).len(),
        split_by(s.push(c) + y, p).take(split_by(s, p).len() as int) == split_by(s, p),
    decreases y.len(),
{
    let n = split_by(s, p).len() as int;
    if y.len() == 0 {
        assert(s.push(c) + y =~= s.push(c));
        lemma_split_push_sep(s, p, c);
        assert(split_by(s, p).push(Seq::<char>::empty()).take(n) =~= split_by(s, p));
    } else {
        let y0 = y.drop_last();
        lemma_split_keeps_prefix(s, c, y0, p);
        let z = s.push(c) + y0;
        assert((s.push(c) + y).drop_last() =~= z);
        assert((s.push(c) + y).last() == y.last());
        let q = split_by(z, p);
        if p(y.last()) {
            assert(q.push(Seq::<char>::empty()).take(n) =~= q.take(n));
        } else {
            assert(q.update(q.len() - 1, q.last().push(y.last())).take(n) =~= q.take(n));
        }
    }
}

proof fn lemma_first_text(s: Seq<char>, a: int) -> (r: int)
    requires
        0 <= a <= s.len(),
        forall|i: int| 0 <= i < a ==> is_space(#[trigger] s[i]),
    ensures
        a <= r <= s.len(),
        forall|i: int| 0 <= i < r ==> is_space(#[trigger] s[i]),
        r == s.len() || !is_space(s[r]),
    decreases s.len() - a,
{
    if a < s.len() && is_space(s[a]) {
        lemma_first_text(s, a + 1)
    } else {
        a
    }
}

proof fn lemma_last_text(s: Seq<char>, a: int, b: int) -> (r: int)
    requires
        0 <= a <= b <= s.len(),
        forall|i: int| b <= i < s.len() ==> is_space(#[trigger] s[i]),
    ensures
        a <= r <= b,
        forall|i: int| r <= i < s.len() ==> is_space(#[trigger] s[i]),
        r == a || !is_space(s[r - 1]),
    decreases b - a,
{
    if b > a && is_space(s[b - 1]) {
        lemma_last_text(s, a, b - 1)
    } else {
        b
    }
}

/// A proper prefix comes first: `lex(a, b) < 0` when `a` is a proper prefix of `b`.
pub proof fn law_lex_prefix_first(a: Seq<char>, b: Seq<char>)
    requires
        a.len() < b.len(),
        b.take(a.len() as int) == a,
    ensures
        lex(a, b) < 0,
    decreases a.len(),
{
    if a.len() > 0 {
        assert(a[0] == b[0]);
        assert(b.drop_first().take(a.drop_first().len() as int) =~= a.drop_first());
        law_lex_prefix_first(a.drop_first(), b.drop_first());
    }
}

/// At the first position where two texts differ, the smaller character decides.
pub proof fn law_lex_first_difference(a: Seq<char>, b: Seq<char>, k: int)
    requires
        0 <= k < a.len(),
        k < b.len(),
        a.take(k) == b.take(k),
        a[k] < b[k],
    ensures
        lex(a, b) < 0,
    decreases k,
{
    if k > 0 {
        assert(a[0] == a.take(k)[0] && b[0] == b.take(k)[0]);
        assert(a.drop_first().take(k - 1) =~= a.take(k).drop_first());
        assert(b.drop_first().take(k - 1) =~= b.take(k).drop_first());
        law_lex_first_difference(a.drop_first(), b.drop_first(), k - 1);
    }
}

/// Trimming removes exactly the whitespace at both ends: the result is a
/// contiguous part of the text, everything cut off is whitespace, and the
/// result neither starts nor ends with whitespace.
pub proof fn law_trim_cuts_whitespace_only(s: Seq<char>)
    ensures
        exists|a: int, b: int|
            #![trigger s.subrange(a, b)]
            {
                &&& 0 <= a <= b <= s.len()
                &&& trim(s) == s.subrange(a, b)
                &&& forall|i: int| 0 <= i < a ==> is_space(#[trigger] s[i])
                &&& forall|i: int| b <= i < s.len() ==> is_space(#[trigger] s[i])
                &&& a < b ==> !is_space(s[a]) && !is_space(s[b - 1])
            },
{
    let a = lemma_first_text(s, 0);
    lemma_trim_start_skip(s, a);
    let t = s.skip(a);
    let b = lemma_last_text(s, a, s.len() as int);
    assert forall|i: int| (b - a) <= i < t.len() implies is_space(#[trigger] t[i]) by {
        assert(t[i] == s[a + i]);
    }
    if b > a {
        assert(t[b - a - 1] == s[b - 1]);
    }
    lemma_trim_end_take(t, b - a);
    assert(t.take(b - a) =~= s.subrange(a, b));
    assert(trim(s) == s.subrange(a, b));
}

} // verus!
