use vstd::prelude::*;

use crate::json::{escaped, escaped_char, hex_digit, quoted};
use crate::text::has_substring;

verus! {

/// Whether `c` stands for itself inside a JSON string.
pub open spec fn plain(c: char) -> bool {
    (c as u32) >= 0x20 && c != '"' && c != '\\'
}

/// Whether `c` can follow the backslash of an escape sequence.
pub open spec fn escape_tail_char(c: char) -> bool {
    ||| c == '"'
    ||| c == '\\'
    ||| c == 'b'
    ||| c == 't'
    ||| c == 'n'
    ||| c == 'f'
    ||| c == 'r'
    ||| c == 'u'
    ||| ('0' <= c && c <= '9')
    ||| ('a' <= c && c <= 'f')
}

/// Whether `w` can only stand in an escaped text where it stood in the text itself:
/// all its characters stand for themselves, and the first one ends no escape sequence.
pub open spec fn escape_proof_word(w: Seq<char>) -> bool {
    &&& w.len() > 0
    &&& forall|i: int| 0 <= i < w.len() ==> plain(#[trigger] w[i])
    &&& !escape_tail_char(w[0])
}

/// Whether `s` ends with `w`.
pub open spec fn ends_with(s: Seq<char>, w: Seq<char>) -> bool {
    w.len() <= s.len() && s.subrange(s.len() - w.len(), s.len() as int) == w
}

proof fn lemma_hex_digit(n: u32)
    requires
        n < 16,
    ensures
        escape_tail_char(hex_digit(n)),
{
    if n < 10 {
        assert(('0' as u32 + n) as char == hex_digit(n));
        assert('0' as u32 <= hex_digit(n) as u32 <= '9' as u32);
    } else {
        assert('a' as u32 <= hex_digit(n) as u32 <= 'f' as u32);
    }
}

/// A character that does not stand for itself is written as a backslash followed by
/// characters that can follow one.
proof fn lemma_escape_shape(c: char)
    requires
        !plain(c),
    ensures
        escaped_char(c).len() >= 2,
        escaped_char(c)[0] == '\\',
        forall|j: int| 1 <= j < escaped_char(c).len() ==> escape_tail_char(#[trigger] escaped_char(c)[j]),
{
    if c != '"' && c != '\\' && c != '\u{8}' && c != '\t' && c != '\n' && c != '\u{c}' && c != '\r' {
        assert((c as u32) < 0x20);
        lemma_hex_digit((c as u32) / 16);
        lemma_hex_digit((c as u32) % 16);
    }
}

proof fn lemma_plain_shape(c: char)
    requires
        plain(c),
    ensures
        escaped_char(c) == seq![c],
{
}

/// Escaping a joined text escapes each part.
proof fn lemma_escaped_add(a: Seq<char>, b: Seq<char>)
    ensures
        escaped(a + b) == escaped(a) + escaped(b),
    decreases b.len(),
{
    if b.len() == 0 {
        assert(a + b =~= a);
        assert(escaped(a) + escaped(b) =~= escaped(a));
    } else {
        lemma_escaped_add(a, b.drop_last());
        assert((a + b).drop_last() =~= a + b.drop_last());
        assert((a + b).last() == b.last());
        assert(escaped(a + b) =~= escaped(a) + escaped(b));
    }
}

/// A text whose characters all stand for themselves is its own escaped form.
proof fn lemma_escaped_plain(w: Seq<char>)
    requires
        forall|i: int| 0 <= i < w.len() ==> plain(#[trigger] w[i]),
    ensures
        escaped(w) == w,
    decreases w.len(),
{
    if w.len() > 0 {
        lemma_escaped_plain(w.drop_last());
        lemma_plain_shape(w.last());
        assert(escaped(w) =~= w);
    }
}

/// An escaped text ends with such a word only where the text itself does.
proof fn lemma_suffix(s: Seq<char>, w: Seq<char>)
    requires
        escape_proof_word(w),
        ends_with(escaped(s), w),
    ensures
        ends_with(s, w),
    decreases s.len(),
{
    let e = escaped(s);
    if s.len() == 0 {
        assert(false);
    }
    let rest = s.drop_last();
    let c = s.last();
    let head = escaped(rest);
    let tail = escaped_char(c);
    assert(e == head + tail);
    if plain(c) {
        lemma_plain_shape(c);
        assert(w.last() == e[e.len() - 1]);
        if w.len() == 1 {
            assert(s.subrange(s.len() - 1, s.len() as int) =~= w);
        } else {
            let v = w.drop_last();
            assert(v[0] == w[0]);
            assert(escape_proof_word(v));
            assert(head.subrange(head.len() - v.len(), head.len() as int) =~= v) by {
                assert forall|j: int| 0 <= j < v.len() implies #[trigger] head.subrange(head.len() - v.len(), head.len() as int)[j] == v[j] by {
                    assert(e.subrange(e.len() - w.len(), e.len() as int)[j] == w[j]);
                }
            }
            lemma_suffix(rest, v);
            assert(s.subrange(s.len() - w.len(), s.len() as int) =~= w) by {
                assert forall|j: int| 0 <= j < w.len() implies #[trigger] s.subrange(s.len() - w.len(), s.len() as int)[j] == w[j] by {
                    if j < w.len() - 1 {
                        assert(rest.subrange(rest.len() - v.len(), rest.len() as int)[j] == v[j]);
                    } else {
                        assert(e[e.len() - 1] == c);
                        assert(e.subrange(e.len() - w.len(), e.len() as int)[j] == w[j]);
                    }
                }
            }
        }
    } else {
        lemma_escape_shape(c);
        if w.len() <= tail.len() {
            let j = tail.len() - w.len();
            assert(e.subrange(e.len() - w.len(), e.len() as int)[0] == w[0]);
            assert(w[0] == tail[j]);
            if j == 0 {
                assert(!plain(w[0]));
            } else {
                assert(escape_tail_char(tail[j]));
            }
        } else {
            let j = w.len() - tail.len();
            assert(e.subrange(e.len() - w.len(), e.len() as int)[j] == w[j]);
            assert(w[j] == tail[0]);
            assert(plain(w[j]));
        }
    }
}

/// Such a word stands in an escaped text exactly where it stands in the text.
pub proof fn lemma_escaped_substring(s: Seq<char>, w: Seq<char>)
    requires
        escape_proof_word(w),
    ensures
        has_substring(escaped(s), w) == has_substring(s, w),
    decreases s.len(),
{
    if has_substring(s, w) {
        let i = choose|i: int| 0 <= i && i + w.len() <= s.len() && #[trigger] s.subrange(i, i + w.len()) == w;
        let pre = s.subrange(0, i);
        let post = s.subrange(i + w.len(), s.len() as int);
        assert(s =~= pre + w + post);
        lemma_escaped_add(pre + w, post);
        lemma_escaped_add(pre, w);
        lemma_escaped_plain(w);
        let e = escaped(s);
        let k = escaped(pre).len() as int;
        assert(e == escaped(pre) + w + escaped(post));
        assert(e.subrange(k, k + w.len()) =~= w);
    }
    if has_substring(escaped(s), w) {
        let e = escaped(s);
        let k = choose|k: int| 0 <= k && k + w.len() <= e.len() && #[trigger] e.subrange(k, k + w.len()) == w;
        if s.len() == 0 {
            assert(e.len() == 0);
            assert(false);
        }
        let rest = s.drop_last();
        let c = s.last();
        let head = escaped(rest);
        let tail = escaped_char(c);
        assert(e == head + tail);
        if k + w.len() <= head.len() {
            assert(head.subrange(k, k + w.len()) =~= e.subrange(k, k + w.len()));
            lemma_escaped_substring(rest, w);
            let i = choose|i: int| 0 <= i && i + w.len() <= rest.len() && #[trigger] rest.subrange(i, i + w.len()) == w;
            assert(s.subrange(i, i + w.len()) =~= rest.subrange(i, i + w.len()));
        } else if plain(c) {
            lemma_plain_shape(c);
            let upto = e.subrange(0, k + w.len());
            assert(upto =~= e);
            assert(ends_with(e, w)) by {
                assert(e.subrange(e.len() - w.len(), e.len() as int) =~= w);
            }
            lemma_suffix(s, w);
            let i = s.len() - w.len();
            assert(s.subrange(i, i + w.len()) == w);
        } else {
            lemma_escape_shape(c);
            if k <= head.len() {
                let j = head.len() - k;
                assert(e.subrange(k, k + w.len())[j] == w[j]);
                assert(w[j] == tail[0]);
                assert(plain(w[j]));
            } else {
                assert(e.subrange(k, k + w.len())[0] == w[0]);
                assert(w[0] == tail[k - head.len()]);
                assert(escape_tail_char(tail[k - head.len()]));
            }
        }
    }
}

/// Such a word stands in a quoted text exactly where it stands in the text.
pub proof fn lemma_quoted_substring(s: Seq<char>, w: Seq<char>)
    requires
        escape_proof_word(w),
    ensures
        has_substring(quoted(s), w) == has_substring(s, w),
{
    let q = quoted(s);
    let e = escaped(s);
    lemma_escaped_substring(s, w);
    assert(q == seq!['"'] + e + seq!['"']);
    if has_substring(e, w) {
        let k = choose|k: int| 0 <= k && k + w.len() <= e.len() && #[trigger] e.subrange(k, k + w.len()) == w;
        assert(q.subrange(k + 1, k + 1 + w.len()) =~= e.subrange(k, k + w.len()));
    }
    if has_substring(q, w) {
        let k = choose|k: int| 0 <= k && k + w.len() <= q.len() && #[trigger] q.subrange(k, k + w.len()) == w;
        if k == 0 {
            assert(q.subrange(k, k + w.len())[0] == w[0]);
            assert(!plain(w[0]));
        } else if k + w.len() == q.len() {
            let j = w.len() - 1;
            assert(q.subrange(k, k + w.len())[j] == w[j]);
            assert(!plain(w[j]));
        } else {
            assert(e.subrange(k - 1, k - 1 + w.len()) =~= q.subrange(k, k + w.len()));
        }
    }
}

} // verus!
