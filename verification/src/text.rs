//! Text as a sequence of characters, and its lexicographic order.

use vstd::prelude::*;
use vstd::string::{StrSliceExecFns, StringExecFns};

verus! {

/// Whether `a` comes before `b`, or equals it, in lexicographic order:
/// character by character, by code point, a proper prefix first.
pub open spec fn text_le(a: Seq<char>, b: Seq<char>) -> bool
    decreases a.len(),
{
    if a.len() == 0 {
        true
    } else if b.len() == 0 {
        false
    } else if a[0] != b[0] {
        a[0] < b[0]
    } else {
        text_le(a.drop_first(), b.drop_first())
    }
}

/// Of two texts, one comes before the other or equals it.
pub proof fn lemma_text_le_total(a: Seq<char>, b: Seq<char>)
    ensures
        text_le(a, b) || text_le(b, a),
    decreases a.len(),
{
    if a.len() > 0 && b.len() > 0 && a[0] == b[0] {
        lemma_text_le_total(a.drop_first(), b.drop_first());
    }
}

/// The lexicographic order is transitive.
pub proof fn lemma_text_le_transitive(a: Seq<char>, b: Seq<char>, c: Seq<char>)
    requires
        text_le(a, b),
        text_le(b, c),
    ensures
        text_le(a, c),
    decreases a.len(),
{
    if a.len() > 0 && b.len() > 0 && c.len() > 0 && a[0] == b[0] && b[0] == c[0] {
        lemma_text_le_transitive(a.drop_first(), b.drop_first(), c.drop_first());
    }
}

/// The lexicographic order of two texts is that of what is left of them
/// after a common prefix.
pub proof fn lemma_text_le_skip(a: Seq<char>, b: Seq<char>, n: int)
    requires
        0 <= n <= a.len(),
        n <= b.len(),
        a.take(n) == b.take(n),
    ensures
        text_le(a, b) == text_le(a.skip(n), b.skip(n)),
    decreases n,
{
    if n > 0 {
        assert(a.take(n)[0] == b.take(n)[0]);
        assert(a.take(n - 1) =~= a.take(n).take(n - 1));
        assert(b.take(n - 1) =~= b.take(n).take(n - 1));
        lemma_text_le_skip(a, b, n - 1);
        let x = a.skip(n - 1);
        let y = b.skip(n - 1);
        assert(a.take(n)[n - 1] == a[n - 1]);
        assert(b.take(n)[n - 1] == b[n - 1]);
        assert(x[0] == a[n - 1]);
        assert(y[0] == b[n - 1]);
        assert(x.drop_first() =~= a.skip(n));
        assert(y.drop_first() =~= b.skip(n));
    } else {
        assert(a.skip(0) =~= a);
        assert(b.skip(0) =~= b);
    }
}

/// The characters of a text, in order.
pub fn chars_of(text: &str) -> (chars: Vec<char>)
    ensures
        chars@ == text@,
{
    let mut chars: Vec<char> = Vec::new();
    for c in it: text.chars()
        invariant
            it.seq() == text@,
            chars@ == it.seq().take(it.index()),
    {
        chars.push(c);
        assert(it.seq().take(it.index() + 1) =~= it.seq().take(it.index()).push(c));
    }
    assert(chars@ =~= text@);
    chars
}

/// Decides the lexicographic order of two texts.
pub fn text_precedes(a: &str, b: &str) -> (le: bool)
    ensures
        le == text_le(a@, b@),
{
    let x = chars_of(a);
    let y = chars_of(b);
    let mut i: usize = 0;
    while i < x.len() && i < y.len()
        invariant
            i <= x.len(),
            i <= y.len(),
            x@ == a@,
            y@ == b@,
            x@.take(i as int) == y@.take(i as int),
        decreases x.len() - i,
    {
        proof {
            lemma_text_le_skip(x@, y@, i as int);
        }
        if x[i] != y[i] {
            assert(x@.skip(i as int)[0] == x@[i as int]);
            assert(y@.skip(i as int)[0] == y@[i as int]);
            return x[i] < y[i];
        }
        assert(x@.take(i + 1) =~= x@.take(i as int).push(x@[i as int]));
        assert(y@.take(i + 1) =~= y@.take(i as int).push(y@[i as int]));
        i += 1;
    }
    proof {
        lemma_text_le_skip(x@, y@, i as int);
    }
    i == x.len()
}

/// Whether `s` ends with `suffix`.
pub open spec fn ends_with(s: Seq<char>, suffix: Seq<char>) -> bool {
    s.len() >= suffix.len() && s.subrange(s.len() - suffix.len(), s.len() as int) == suffix
}

/// `s` without the copies of `suffix` that it ends with, however many.
pub open spec fn trim_end(s: Seq<char>, suffix: Seq<char>) -> Seq<char>
    decreases s.len(),
{
    if suffix.len() > 0 && ends_with(s, suffix) {
        trim_end(s.take(s.len() - suffix.len()), suffix)
    } else {
        s
    }
}

/// The title as it is drawn: the name of a database without the file
/// extensions `.sqlite`, `.sqlite3` and `.db`, removed in that order.
pub open spec fn display_title_spec(title: Seq<char>) -> Seq<char> {
    trim_end(trim_end(trim_end(title, ".sqlite"@), ".sqlite3"@), ".db"@)
}

/// Decides whether the first `len` characters of `chars` end with `suffix`.
fn prefix_ends_with(chars: &Vec<char>, len: usize, suffix: &Vec<char>) -> (yes: bool)
    requires
        len <= chars.len(),
    ensures
        yes == ends_with(chars@.take(len as int), suffix@),
{
    let n = suffix.len();
    if len < n {
        return false;
    }
    let start = len - n;
    let ghost tail = chars@.take(len as int).subrange(start as int, len as int);
    let mut i: usize = 0;
    while i < n
        invariant
            i <= n,
            n == suffix.len(),
            start + n == len,
            len <= chars.len(),
            tail == chars@.take(len as int).subrange(start as int, len as int),
            forall|k: int| 0 <= k < i ==> tail[k] == suffix@[k],
        decreases n - i,
    {
        if chars[start + i] != suffix[i] {
            assert(tail[i as int] != suffix@[i as int]);
            return false;
        }
        i += 1;
    }
    assert(tail =~= suffix@);
    true
}

/// The length of what is left of the first `len` characters of `chars` once
/// every trailing copy of `suffix` is removed.
fn trimmed_len(chars: &Vec<char>, len: usize, suffix: &Vec<char>) -> (end: usize)
    requires
        len <= chars.len(),
    ensures
        end <= len,
        chars@.take(end as int) == trim_end(chars@.take(len as int), suffix@),
{
    let mut end = len;
    if suffix.len() == 0 {
        return end;
    }
    while prefix_ends_with(chars, end, suffix)
        invariant
            end <= len,
            len <= chars.len(),
            suffix.len() > 0,
            trim_end(chars@.take(end as int), suffix@) == trim_end(
                chars@.take(len as int),
                suffix@,
            ),
        decreases end,
    {
        assert(chars@.take(end as int).take(end - suffix.len()) =~= chars@.take(
            end - suffix.len(),
        ));
        end -= suffix.len();
    }
    end
}

/// Removes the database file extensions from a title.
pub fn display_title(title: &str) -> (shown: String)
    ensures
        shown@ == display_title_spec(title@),
{
    let chars = chars_of(title);
    let len = chars.len();
    assert(chars@.take(len as int) =~= title@);
    let first = trimmed_len(&chars, len, &chars_of(".sqlite"));
    let second = trimmed_len(&chars, first, &chars_of(".sqlite3"));
    let third = trimmed_len(&chars, second, &chars_of(".db"));
    assert(title@.subrange(0, third as int) =~= chars@.take(third as int));
    String::from_str(title.substring_char(0, third))
}

} // verus!
