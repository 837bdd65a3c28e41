//! Splitting a decoded HTTP message into its header lines and its body.
//!
//! Lines are read the way `str::lines` reads them: they end at `\n` or at
//! `\r\n`, the terminator is not part of the line, and a final terminator does
//! not start another line. The header lines are the lines before the first
//! blank line (one made of white space only); the body is every line after it,
//! joined with `\n`.

use vstd::prelude::*;
use crate::text::{chars_of, is_whitespace, push_char, string_from_chars, texts, white_space};

verus! {

/// Index of the first `\n` in `s`, or `s.len()` where there is none.
pub open spec fn newline_index(s: Seq<char>) -> nat
    decreases s.len(),
{
    if s.len() == 0 {
        0
    } else if s[0] == '\n' {
        0
    } else {
        1 + newline_index(s.drop_first())
    }
}

/// `l` without one trailing carriage return.
pub open spec fn strip_cr(l: Seq<char>) -> Seq<char> {
    if l.len() > 0 && l.last() == '\r' {
        l.drop_last()
    } else {
        l
    }
}

/// The lines of `s`, as `str::lines` yields them.
pub open spec fn lines_of(s: Seq<char>) -> Seq<Seq<char>>
    decreases s.len(),
{
    if s.len() == 0 {
        seq![]
    } else {
        let k = newline_index(s);
        if k >= s.len() {
            seq![s]
        } else {
            seq![strip_cr(s.take(k as int))] + lines_of(s.skip(k + 1 as int))
        }
    }
}

/// A line made of white space only (the empty line among them).
pub open spec fn is_blank(l: Seq<char>) -> bool {
    forall|j: int| 0 <= j < l.len() ==> #[trigger] white_space(l[j])
}

/// Index of the first blank line of `ls`, or `ls.len()` where there is none.
pub open spec fn first_blank(ls: Seq<Seq<char>>) -> nat
    decreases ls.len(),
{
    if ls.len() == 0 {
        0
    } else if is_blank(ls[0]) {
        0
    } else {
        1 + first_blank(ls.drop_first())
    }
}

/// The lines of `ls` joined with `\n` between them.
pub open spec fn join_lines(ls: Seq<Seq<char>>) -> Seq<char>
    decreases ls.len(),
{
    if ls.len() == 0 {
        seq![]
    } else if ls.len() == 1 {
        ls[0]
    } else {
        join_lines(ls.drop_last()) + seq!['\n'] + ls.last()
    }
}

/// The header lines of the message `text`.
pub open spec fn message_headers(text: Seq<char>) -> Seq<Seq<char>> {
    lines_of(text).take(first_blank(lines_of(text)) as int)
}

/// The body of the message `text`: every line after the first blank one,
/// joined with `\n`; empty where there is no blank line.
pub open spec fn message_body(text: Seq<char>) -> Seq<char> {
    let ls = lines_of(text);
    let k = first_blank(ls);
    if k < ls.len() {
        join_lines(ls.skip(k + 1 as int))
    } else {
        seq![]
    }
}

/// `l` holds no line feed.
pub open spec fn no_newline(l: Seq<char>) -> bool {
    forall|j: int| 0 <= j < l.len() ==> l[j] != '\n'
}

/// A header line: not blank, and holding no line feed.
pub open spec fn proper_header_line(l: Seq<char>) -> bool {
    !is_blank(l) && no_newline(l)
}

/// Every line of `hs` is a proper header line.
pub open spec fn header_lines_ok(hs: Seq<Seq<char>>) -> bool {
    forall|i: int| 0 <= i < hs.len() ==> proper_header_line(#[trigger] hs[i])
}

/// Some line of `ls` is blank.
pub open spec fn has_blank_line(ls: Seq<Seq<char>>) -> bool {
    exists|i: int| 0 <= i < ls.len() && is_blank(#[trigger] ls[i])
}

proof fn lemma_newline_index(s: Seq<char>)
    ensures
        newline_index(s) <= s.len(),
        forall|j: int| 0 <= j < newline_index(s) ==> s[j] != '\n',
        newline_index(s) < s.len() ==> s[newline_index(s) as int] == '\n',
    decreases s.len(),
{
    if s.len() > 0 && s[0] != '\n' {
        lemma_newline_index(s.drop_first());
        assert forall|j: int| 0 <= j < newline_index(s) implies s[j] != '\n' by {
            if j > 0 {
                assert(s[j] == s.drop_first()[j - 1]);
            }
        }
    }
}

/// Where `s[..k]` holds no `\n` and `s[k]` is one, the first `\n` is at `k`.
proof fn lemma_newline_at(s: Seq<char>, k: int)
    requires
        0 <= k < s.len(),
        s[k] == '\n',
        forall|j: int| 0 <= j < k ==> s[j] != '\n',
    ensures
        newline_index(s) == k,
{
    lemma_newline_index(s);
}

/// Where `s` holds no `\n`, it is one line, or none when empty.
proof fn lemma_lines_without_newline(s: Seq<char>)
    requires
        forall|j: int| 0 <= j < s.len() ==> s[j] != '\n',
    ensures
        lines_of(s) == (if s.len() == 0 { Seq::<Seq<char>>::empty() } else { seq![s] }),
{
    lemma_newline_index(s);
    if s.len() > 0 {
        assert(newline_index(s) >= s.len());
    }
}

/// The lines of `text`, as `str::lines` yields them.
pub fn split_lines(text: &str) -> (lines: Vec<String>)
    ensures
        texts(lines@) == lines_of(text@),
        forall|i: int| 0 <= i < lines@.len() ==> no_newline(#[trigger] texts(lines@)[i]),
{
    let cs = chars_of(text);
    let n = cs.len();
    let mut lines: Vec<String> = Vec::new();
    let mut start: usize = 0;
    let mut i: usize = 0;
    assert(cs@.skip(0) == cs@);
    while i < n
        invariant
            n == cs.len(),
            cs@ == text@,
            start <= i <= n,
            forall|j: int| start <= j < i ==> cs@[j] != '\n',
            lines_of(cs@) == texts(lines@) + lines_of(cs@.skip(start as int)),
        decreases n - i,
    {
        if cs[i] == '\n' {
            let end = if i > start && cs[i - 1] == '\r' { i - 1 } else { i };
            let line = string_from_chars(&cs, start, end);
            proof {
                let t = cs@.skip(start as int);
                let k = (i - start) as int;
                assert forall|j: int| 0 <= j < k implies t[j] != '\n' by {
                    assert(t[j] == cs@[start + j]);
                }
                lemma_newline_at(t, k);
                assert(t.take(k) == cs@.subrange(start as int, i as int));
                assert(line@ == strip_cr(t.take(k)));
                assert(t.skip(k + 1) == cs@.skip(i + 1));
                assert(lines_of(t) == seq![line@] + lines_of(cs@.skip(i + 1)));
            }
            let ghost before = lines@;
            lines.push(line);
            proof {
                assert(texts(lines@) == texts(before) + seq![line@]);
            }
            start = i + 1;
        }
        i += 1;
    }
    proof {
        let t = cs@.skip(start as int);
        assert forall|j: int| 0 <= j < t.len() implies t[j] != '\n' by {
            assert(t[j] == cs@[start + j]);
        }
        lemma_lines_without_newline(t);
    }
    if start < n {
        let last = string_from_chars(&cs, start, n);
        let ghost before = lines@;
        lines.push(last);
        proof {
            assert(last@ == cs@.skip(start as int));
            assert(texts(lines@) == texts(before) + seq![last@]);
        }
    } else {
        assert(texts(lines@) + Seq::<Seq<char>>::empty() == texts(lines@));
    }
    proof {
        lemma_lines_no_newline(text@);
    }
    lines
}

proof fn lemma_first_blank(ls: Seq<Seq<char>>)
    ensures
        first_blank(ls) <= ls.len(),
        forall|j: int| 0 <= j < first_blank(ls) ==> !is_blank(#[trigger] ls[j]),
        first_blank(ls) < ls.len() ==> is_blank(ls[first_blank(ls) as int]),
    decreases ls.len(),
{
    if ls.len() > 0 && !is_blank(ls[0]) {
        lemma_first_blank(ls.drop_first());
        assert forall|j: int| 0 <= j < first_blank(ls) implies !is_blank(#[trigger] ls[j]) by {
            if j > 0 {
                assert(ls[j] == ls.drop_first()[j - 1]);
            }
        }
    }
}

/// Whether `line` is made of white space only.
pub fn is_blank_line(line: &str) -> (b: bool)
    ensures
        b == is_blank(line@),
{
    let cs = chars_of(line);
    let n = cs.len();
    let mut i: usize = 0;
    while i < n
        invariant
            n == cs.len(),
            cs@ == line@,
            i <= n,
            forall|j: int| 0 <= j < i ==> #[trigger] white_space(cs@[j]),
        decreases n - i,
    {
        if !is_whitespace(cs[i]) {
            return false;
        }
        i += 1;
    }
    true
}

/// Splits the decoded message `text` into its header lines and its body.
pub fn split_message(text: &str) -> (parts: (Vec<String>, String))
    ensures
        texts(parts.0@) == message_headers(text@),
        parts.1@ == message_body(text@),
        header_lines_ok(texts(parts.0@)),
        parts.1@.len() > 0 ==> has_blank_line(lines_of(text@)),
{
    proof {
        lemma_header_lines(text@);
    }
    let lines = split_lines(text);
    let ghost ls = lines_of(text@);
    let n = lines.len();
    let mut k: usize = 0;
    let mut headers: Vec<String> = Vec::new();
    while k < n
        invariant
            n == lines.len(),
            texts(lines@) == ls,
            k <= n,
            forall|j: int| 0 <= j < k ==> !is_blank(#[trigger] ls[j]),
            texts(headers@) == ls.take(k as int),
        ensures
            k < n ==> is_blank(ls[k as int]),
        decreases n - k,
    {
        assert(texts(lines@)[k as int] == lines@[k as int]@);
        if is_blank_line(lines[k].as_str()) {
            break;
        }
        let ghost before = headers@;
        headers.push(lines[k].clone());
        assert(texts(headers@) =~= texts(before) + seq![ls[k as int]]);
        assert(ls.take(k + 1) =~= ls.take(k as int) + seq![ls[k as int]]);
        k += 1;
    }
    proof {
        lemma_first_blank(ls);
        if first_blank(ls) < k {
            assert(!is_blank(ls[first_blank(ls) as int]));
        }
        if k < n {
            assert(is_blank(ls[k as int]));
        }
        assert(first_blank(ls) == k);
    }
    let mut body = String::new();
    if k < n {
        let mut i: usize = k + 1;
        while i < n
            invariant
                n == lines.len(),
                texts(lines@) == ls,
                k < i <= n,
                body@ == join_lines(ls.subrange(k + 1, i as int)),
            decreases n - i,
        {
            assert(texts(lines@)[i as int] == lines@[i as int]@);
            let ghost sub = ls.subrange(k + 1, i + 1);
            assert(sub.drop_last() =~= ls.subrange(k + 1, i as int));
            assert(sub.last() == ls[i as int]);
            if i > k + 1 {
                push_char(&mut body, '\n');
            }
            body.append(lines[i].as_str());
            i += 1;
        }
        assert(ls.subrange(k + 1, n as int) =~= ls.skip(k + 1));
    }
    (headers, body)
}

/// A final line ending, `\n` or `\r\n`, does not start another line: a text
/// that ends neither in `\n` nor in `\r` has the same lines with or without one.
pub proof fn lemma_final_line_ending(s: Seq<char>, ending: Seq<char>)
    requires
        s.len() > 0,
        s.last() != '\n',
        s.last() != '\r',
        ending == seq!['\n'] || ending == seq!['\r', '\n'],
    ensures
        lines_of(s + ending) == lines_of(s),
    decreases s.len(),
{
    let t = s + ending;
    lemma_newline_index(s);
    let k = newline_index(s);
    if k < s.len() {
        assert forall|j: int| 0 <= j < k implies t[j] != '\n' by {
            assert(t[j] == s[j]);
        }
        assert(t[k as int] == s[k as int]);
        lemma_newline_at(t, k as int);
        assert(t.take(k as int) =~= s.take(k as int));
        let rest = s.skip(k + 1 as int);
        assert(k + 1 < s.len());
        assert(t.skip(k + 1 as int) =~= rest + ending);
        assert(rest.last() == s.last());
        lemma_final_line_ending(rest, ending);
    } else {
        lemma_lines_without_newline(s);
        let n = s.len() as int;
        assert forall|j: int| 0 <= j < n implies t[j] != '\n' by {
            assert(t[j] == s[j]);
        }
        let empty = Seq::<char>::empty();
        if ending == seq!['\n'] {
            lemma_newline_at(t, n);
            assert(t.take(n) =~= s);
            assert(t.skip(n + 1) =~= empty);
        } else {
            assert(t[n] == '\r');
            assert forall|j: int| 0 <= j < n + 1 implies t[j] != '\n' by {
                if j < n {
                    assert(t[j] == s[j]);
                }
            }
            lemma_newline_at(t, n + 1);
            assert(t.take(n + 1) =~= s.push('\r'));
            assert(t.take(n + 1).drop_last() =~= s);
            assert(t.skip(n + 2) =~= empty);
        }
        assert(lines_of(empty) =~= Seq::<Seq<char>>::empty());
    }
}

/// No header line is blank or holds a line feed, and the header lines are the
/// lines of the message up to its first blank line; where the message has no
/// blank line, every line is a header line and the body is empty.
pub proof fn lemma_header_lines(text: Seq<char>)
    ensures
        header_lines_ok(message_headers(text)),
        message_headers(text).len() <= lines_of(text).len(),
        forall|i: int|
            0 <= i < message_headers(text).len() ==> #[trigger] message_headers(text)[i]
                == lines_of(text)[i],
        !has_blank_line(lines_of(text)) ==> message_headers(text) == lines_of(text)
            && message_body(text) == Seq::<char>::empty(),
        message_body(text).len() > 0 ==> has_blank_line(lines_of(text)),
{
    let ls = lines_of(text);
    lemma_first_blank(ls);
    lemma_lines_no_newline(text);
    let k = first_blank(ls);
    assert forall|i: int| 0 <= i < message_headers(text).len() implies proper_header_line(
        #[trigger] message_headers(text)[i],
    ) by {
        assert(message_headers(text)[i] == ls[i]);
    }
    if !has_blank_line(ls) {
        if k < ls.len() {
            assert(is_blank(ls[k as int]));
        }
        assert(ls.take(ls.len() as int) =~= ls);
    }
    if k < ls.len() {
        assert(is_blank(ls[k as int]));
    }
}

/// No line holds a line feed.
pub proof fn lemma_lines_no_newline(s: Seq<char>)
    ensures
        forall|i: int| 0 <= i < lines_of(s).len() ==> no_newline(#[trigger] lines_of(s)[i]),
    decreases s.len(),
{
    lemma_newline_index(s);
    if s.len() > 0 {
        let k = newline_index(s);
        if k < s.len() {
            let rest = s.skip(k + 1 as int);
            lemma_lines_no_newline(rest);
            let first = strip_cr(s.take(k as int));
            assert(no_newline(first)) by {
                assert forall|j: int| 0 <= j < first.len() implies first[j] != '\n' by {
                    assert(first[j] == s[j]);
                }
            }
            let ls = lines_of(s);
            assert(ls == seq![first] + lines_of(rest));
            assert forall|i: int| 0 <= i < ls.len() implies no_newline(#[trigger] ls[i]) by {
                if i > 0 {
                    assert(ls[i] == lines_of(rest)[i - 1]);
                }
            }
        }
    }
}

/// A line ended by `\r\n` is the first line of what it starts.
proof fn lemma_lines_prepend(a: Seq<char>, rest: Seq<char>)
    requires
        no_newline(a),
    ensures
        lines_of(a + seq!['\r', '\n'] + rest) == seq![a] + lines_of(rest),
{
    let t = a + seq!['\r', '\n'] + rest;
    let n = a.len() as int;
    assert forall|j: int| 0 <= j < n + 1 implies t[j] != '\n' by {
        if j < n {
            assert(t[j] == a[j]);
        } else {
            assert(t[j] == '\r');
        }
    }
    assert(t[n + 1] == '\n');
    lemma_newline_at(t, n + 1);
    assert(t.take(n + 1) =~= a.push('\r'));
    assert(t.take(n + 1).drop_last() =~= a);
    assert(t.skip(n + 2) =~= rest);
}

/// The header lines `hs`, each followed by `\r\n`, then `tail`.
pub open spec fn crlf_lines(hs: Seq<Seq<char>>, tail: Seq<char>) -> Seq<char>
    decreases hs.len(),
{
    if hs.len() == 0 {
        tail
    } else {
        hs[0] + seq!['\r', '\n'] + crlf_lines(hs.drop_first(), tail)
    }
}

/// The message with header lines `hs` and body `body`: each header line
/// followed by `\r\n`, then an empty line `\r\n`, then the body.
pub open spec fn compose_message(hs: Seq<Seq<char>>, body: Seq<char>) -> Seq<char> {
    crlf_lines(hs, seq!['\r', '\n'] + body)
}

proof fn lemma_crlf_lines(hs: Seq<Seq<char>>, tail: Seq<char>)
    requires
        forall|i: int| 0 <= i < hs.len() ==> no_newline(#[trigger] hs[i]),
    ensures
        lines_of(crlf_lines(hs, tail)) == hs + lines_of(tail),
    decreases hs.len(),
{
    if hs.len() > 0 {
        let d = hs.drop_first();
        assert forall|i: int| 0 <= i < d.len() implies no_newline(#[trigger] d[i]) by {
            assert(d[i] == hs[i + 1]);
        }
        lemma_crlf_lines(d, tail);
        assert(no_newline(hs[0]));
        lemma_lines_prepend(hs[0], crlf_lines(d, tail));
        assert(hs =~= seq![hs[0]] + d);
        assert(seq![hs[0]] + (d + lines_of(tail)) =~= hs + lines_of(tail));
    }
}

/// A body that a message can carry whole: it holds no `\r` and does not end in
/// `\n`, so splitting it into lines and joining them gives it back.
pub open spec fn plain_body(body: Seq<char>) -> bool {
    &&& forall|j: int| 0 <= j < body.len() ==> body[j] != '\r'
    &&& body.len() > 0 ==> body.last() != '\n'
}

/// A message made of header lines, an empty line and a body splits back into
/// those header lines and that body, where each header line is a proper one and
/// the body holds no `\r` and does not end in `\n`.
pub proof fn lemma_message_roundtrip(hs: Seq<Seq<char>>, body: Seq<char>)
    requires
        header_lines_ok(hs),
        plain_body(body),
    ensures
        message_headers(compose_message(hs, body)) == hs,
        message_body(compose_message(hs, body)) == body,
{
    let text = compose_message(hs, body);
    assert forall|i: int| 0 <= i < hs.len() implies no_newline(#[trigger] hs[i]) by {
        assert(proper_header_line(hs[i]));
    }
    lemma_crlf_lines(hs, seq!['\r', '\n'] + body);
    let e = Seq::<char>::empty();
    assert(no_newline(e));
    lemma_lines_prepend(e, body);
    assert(e + seq!['\r', '\n'] + body =~= seq!['\r', '\n'] + body);
    let ls = lines_of(text);
    assert(ls == hs + (seq![e] + lines_of(body)));
    let n = hs.len() as int;
    assert(ls[n] == e);
    assert(is_blank(e));
    lemma_first_blank(ls);
    let k = first_blank(ls);
    if k < n {
        assert(ls[k as int] == hs[k as int]);
        assert(proper_header_line(hs[k as int]));
    }
    if k > n {
        assert(!is_blank(ls[n]));
    }
    assert(k == n);
    assert(ls.take(n) =~= hs);
    assert(ls.skip(n + 1) =~= lines_of(body));
    lemma_lines_rejoin(body);
}

proof fn lemma_join_lines_cons(a: Seq<char>, ls: Seq<Seq<char>>)
    requires
        ls.len() >= 1,
    ensures
        join_lines(seq![a] + ls) == a + seq!['\n'] + join_lines(ls),
    decreases ls.len(),
{
    let all = seq![a] + ls;
    assert(all.drop_last() =~= seq![a] + ls.drop_last());
    assert(all.last() == ls.last());
    if ls.len() == 1 {
        assert(all.drop_last() =~= seq![a]);
        assert(join_lines(seq![a]) == a);
        assert(join_lines(ls) == ls[0]);
        assert(join_lines(all) == join_lines(all.drop_last()) + seq!['\n'] + all.last());
    } else {
        lemma_join_lines_cons(a, ls.drop_last());
        assert(join_lines(all) =~= a + seq!['\n'] + join_lines(ls));
    }
}

/// Splitting a text into lines loses nothing but the line endings: where the
/// text holds no `\r` and does not end in `\n`, joining its lines with `\n`
/// gives it back.
pub proof fn lemma_lines_rejoin(s: Seq<char>)
    requires
        forall|j: int| 0 <= j < s.len() ==> s[j] != '\r',
        s.len() > 0 ==> s.last() != '\n',
    ensures
        join_lines(lines_of(s)) == s,
    decreases s.len(),
{
    lemma_newline_index(s);
    let k = newline_index(s);
    if s.len() == 0 {
    } else if k >= s.len() {
        assert(lines_of(s) == seq![s]);
    } else {
        let a = s.take(k as int);
        let rest = s.skip(k + 1 as int);
        assert(k + 1 < s.len());
        assert(rest.last() == s.last());
        assert forall|j: int| 0 <= j < rest.len() implies rest[j] != '\r' by {
            assert(rest[j] == s[k + 1 + j]);
        }
        if a.len() > 0 {
            assert(a.last() == s[k - 1]);
        }
        assert(strip_cr(a) == a);
        lemma_lines_rejoin(rest);
        let lr = lines_of(rest);
        lemma_newline_index(rest);
        assert(lr.len() >= 1);
        lemma_join_lines_cons(a, lr);
        assert(s =~= a + seq!['\n'] + rest);
    }
}

} // verus!
