//! Character-level string helpers shared by the buffer and the pickers:
//! substring search, line splitting, and small builders over `Seq<char>`.
use vstd::prelude::*;
use vstd::string::StrSliceExecFns;

verus! {

/// Relies on String::push: appends the given character to the end of the string.
pub assume_specification[ String::push ](s: &mut String, ch: char)
    ensures
        final(s)@ == old(s)@.push(ch),
;

/// `needle` occurs contiguously somewhere inside `hay`; the empty needle
/// occurs in every string.
pub open spec fn is_substring(needle: Seq<char>, hay: Seq<char>) -> bool {
    exists|i: int|
        0 <= i <= hay.len() - needle.len() && #[trigger] hay.subrange(i, i + needle.len())
            == needle
}

/// Case-sensitive substring test, the matcher behind every picker filter.
pub fn contains_substring(hay: &str, needle: &str) -> (r: bool)
    ensures
        r == is_substring(needle@, hay@),
{
    let hn = hay.unicode_len();
    let nn = needle.unicode_len();
    if nn > hn {
        return false;
    }
    let mut i: usize = 0;
    while i <= hn - nn
        invariant
            nn <= hn,
            hn == hay@.len(),
            nn == needle@.len(),
            i <= hn - nn + 1,
            forall|s: int| 0 <= s < i ==> #[trigger] hay@.subrange(s, s + nn) != needle@,
        decreases hn - nn + 1 - i,
    {
        let mut j: usize = 0;
        let mut candidate = true;
        while candidate && j < nn
            invariant
                j <= nn,
                i <= hn - nn,
                nn <= hn,
                hn == hay@.len(),
                nn == needle@.len(),
                candidate ==> forall|k: int| 0 <= k < j ==> hay@[i + k] == #[trigger] needle@[k],
                !candidate ==> exists|k: int| 0 <= k < nn && hay@[i + k] != #[trigger] needle@[k],
            decreases nn - j,
        {
            if hay.get_char(i + j) != needle.get_char(j) {
                candidate = false;
            }
            j = j + 1;
        }
        if candidate {
            assert(hay@.subrange(i as int, i + nn) =~= needle@);
            return true;
        }
        proof {
            let k = choose|k: int| 0 <= k < nn && hay@[i + k] != needle@[k];
            assert(hay@.subrange(i as int, i + nn)[k] == hay@[i + k]);
        }
        i = i + 1;
    }
    false
}

/// A line with a trailing carriage return removed, as happens at each
/// newline when splitting text into lines.
pub open spec fn chomp_cr(l: Seq<char>) -> Seq<char> {
    if l.len() > 0 && l.last() == '\r' {
        l.drop_last()
    } else {
        l
    }
}

/// The lines of `t` after the first `cur` characters of the current line
/// have already been read: text is split at every newline, a carriage
/// return directly before a newline is dropped, and a final line without a
/// newline still counts.
pub open spec fn split_rest(t: Seq<char>, cur: Seq<char>) -> Seq<Seq<char>>
    decreases t.len(),
{
    if t.len() == 0 {
        if cur.len() == 0 {
            Seq::empty()
        } else {
            seq![cur]
        }
    } else if t[0] == '\n' {
        seq![chomp_cr(cur)] + split_rest(t.drop_first(), Seq::empty())
    } else {
        split_rest(t.drop_first(), cur.push(t[0]))
    }
}

/// The lines of `t`: what splitting at the line boundaries yields.
pub open spec fn split_lines_spec(t: Seq<char>) -> Seq<Seq<char>> {
    split_rest(t, Seq::empty())
}

/// Splits text into its lines: one entry per newline-terminated line, the
/// carriage return of a CRLF pair dropped, a trailing fragment kept, and
/// nothing for empty text.
pub fn split_lines(text: &str) -> (lines: Vec<String>)
    ensures
        lines@.map_values(|l: String| l@) == split_lines_spec(text@),
{
    let n = text.unicode_len();
    let mut lines: Vec<String> = Vec::new();
    let mut cur = String::new();
    let mut cur_n: usize = 0;
    let mut i: usize = 0;
    proof {
        assert(text@.skip(0) =~= text@);
        assert(lines@.map_values(|l: String| l@) =~= Seq::<Seq<char>>::empty());
        assert(Seq::<Seq<char>>::empty() + split_rest(text@, cur@) =~= split_rest(text@, cur@));
    }
    while i < n
        invariant
            n == text@.len(),
            i <= n,
            cur_n <= i,
            cur_n == cur@.len(),
            split_lines_spec(text@) == lines@.map_values(|l: String| l@) + split_rest(
                text@.skip(i as int),
                cur@,
            ),
        decreases n - i,
    {
        let c = text.get_char(i);
        proof {
            assert(text@.skip(i as int)[0] == text@[i as int]);
            assert(text@.skip(i as int).drop_first() =~= text@.skip(i + 1));
        }
        if c == '\n' {
            let line = if cur_n > 0 && cur.as_str().get_char(cur_n - 1) == '\r' {
                let trimmed = cur.as_str().substring_char(0, cur_n - 1);
                proof {
                    assert(trimmed@ =~= chomp_cr(cur@));
                }
                trimmed.to_owned()
            } else {
                proof {
                    assert(cur@ =~= chomp_cr(cur@));
                }
                cur.clone()
            };
            lines.push(line);
            cur = String::new();
            cur_n = 0;
            proof {
                assert(lines@.map_values(|l: String| l@) =~= lines@.drop_last().map_values(
                    |l: String| l@,
                ).push(line@));
            }
        } else {
            cur.push(c);
            cur_n = cur_n + 1;
        }
        i = i + 1;
    }
    proof {
        assert(text@.skip(n as int) =~= Seq::<char>::empty());
    }
    if cur_n > 0 {
        lines.push(cur);
        proof {
            assert(lines@.map_values(|l: String| l@) =~= lines@.drop_last().map_values(
                |l: String| l@,
            ).push(lines@.last()@));
        }
    }
    lines
}

/// Reading newline-free text just extends the current line.
pub proof fn lemma_split_rest_line(l: Seq<char>, rest: Seq<char>, cur: Seq<char>)
    requires
        forall|i: int| 0 <= i < l.len() ==> #[trigger] l[i] != '\n',
    ensures
        split_rest(l + rest, cur) == split_rest(rest, cur + l),
    decreases l.len(),
{
    if l.len() == 0 {
        assert(l + rest =~= rest);
        assert(cur + l =~= cur);
    } else {
        assert((l + rest)[0] == l[0]);
        assert((l + rest).drop_first() =~= l.drop_first() + rest);
        lemma_split_rest_line(l.drop_first(), rest, cur.push(l[0]));
        assert(cur.push(l[0]) + l.drop_first() =~= cur + l);
    }
}

/// What lowercasing a string yields; left unspecified beyond being a
/// function of the characters alone.
pub uninterp spec fn lower_of(s: Seq<char>) -> Seq<char>;

/// Relies on str::to_lowercase: the result depends on the characters alone.
#[verifier::external_body]
pub fn lowercase(s: &str) -> (r: String)
    ensures
        r@ == lower_of(s@),
{
    s.to_lowercase()
}

/// Lexicographic order on character sequences by code point, with a prefix
/// ordered before everything it prefixes.
pub open spec fn lex_le(a: Seq<char>, b: Seq<char>) -> bool
    decreases a.len(),
{
    if a.len() == 0 {
        true
    } else if b.len() == 0 {
        false
    } else if (a[0] as u32) < (b[0] as u32) {
        true
    } else if (a[0] as u32) > (b[0] as u32) {
        false
    } else {
        lex_le(a.drop_first(), b.drop_first())
    }
}

/// The lexicographic order relates every pair of sequences one way or the
/// other.
pub proof fn lemma_lex_le_total(a: Seq<char>, b: Seq<char>)
    ensures
        lex_le(a, b) || lex_le(b, a),
    decreases a.len(),
{
    if a.len() == 0 || b.len() == 0 {
    } else if (a[0] as u32) == (b[0] as u32) {
        lemma_lex_le_total(a.drop_first(), b.drop_first());
    }
}

/// The lexicographic order is transitive.
pub proof fn lemma_lex_le_trans(a: Seq<char>, b: Seq<char>, c: Seq<char>)
    requires
        lex_le(a, b),
        lex_le(b, c),
    ensures
        lex_le(a, c),
    decreases a.len(),
{
    if a.len() == 0 {
    } else if (a[0] as u32) == (b[0] as u32) && (b[0] as u32) == (c[0] as u32) {
        lemma_lex_le_trans(a.drop_first(), b.drop_first(), c.drop_first());
    }
}

/// Decides the lexicographic order between two strings, character by
/// character.
pub fn lex_le_exec(a: &str, b: &str) -> (r: bool)
    ensures
        r == lex_le(a@, b@),
{
    let an = a.unicode_len();
    let bn = b.unicode_len();
    let mut i: usize = 0;
    proof {
        assert(a@.skip(0) =~= a@);
        assert(b@.skip(0) =~= b@);
    }
    while i < an && i < bn
        invariant
            i <= an,
            i <= bn,
            an == a@.len(),
            bn == b@.len(),
            lex_le(a@, b@) == lex_le(a@.skip(i as int), b@.skip(i as int)),
        decreases an - i,
    {
        let ca = a.get_char(i);
        let cb = b.get_char(i);
        proof {
            assert(a@.skip(i as int)[0] == a@[i as int]);
            assert(b@.skip(i as int)[0] == b@[i as int]);
            assert(a@.skip(i as int).drop_first() =~= a@.skip(i + 1));
            assert(b@.skip(i as int).drop_first() =~= b@.skip(i + 1));
        }
        if (ca as u32) < (cb as u32) {
            return true;
        }
        if (ca as u32) > (cb as u32) {
            return false;
        }
        i = i + 1;
    }
    proof {
        if i == an {
            assert(a@.skip(i as int).len() == 0);
        } else {
            assert(b@.skip(i as int).len() == 0);
            assert(a@.skip(i as int).len() > 0);
        }
    }
    i == an
}

/// The index of the last path separator in `p`, or -1 when there is none.
pub open spec fn last_slash(p: Seq<char>) -> int
    decreases p.len(),
{
    if p.len() == 0 {
        -1
    } else if p.last() == '/' {
        p.len() - 1
    } else {
        last_slash(p.drop_last())
    }
}

/// The path with its last component popped: everything before the last
/// separator, the root staying the root, and a path without separators
/// staying as it is.
pub open spec fn parent_of(p: Seq<char>) -> Seq<char> {
    let i = last_slash(p);
    if i < 0 {
        p
    } else if i == 0 {
        seq!['/']
    } else {
        p.take(i)
    }
}

/// The last component of the path: everything after the last separator.
pub open spec fn base_name_of(p: Seq<char>) -> Seq<char> {
    p.skip(last_slash(p) + 1)
}

/// Finds the last path separator, scanning from the end.
fn find_last_slash(p: &str) -> (r: Option<usize>)
    ensures
        match r {
            Some(k) => last_slash(p@) == k as int && (k as int) < p@.len(),
            None => last_slash(p@) == -1,
        },
{
    let n = p.unicode_len();
    let mut j = n;
    proof {
        assert(p@.take(n as int) =~= p@);
    }
    while j > 0
        invariant
            j <= n,
            n == p@.len(),
            last_slash(p@) == last_slash(p@.take(j as int)),
        decreases j,
    {
        if p.get_char(j - 1) == '/' {
            proof {
                assert(p@.take(j as int).last() == p@[j - 1]);
            }
            return Some(j - 1);
        }
        proof {
            assert(p@.take(j as int).last() == p@[j - 1]);
            assert(p@.take(j as int).drop_last() =~= p@.take(j - 1));
        }
        j = j - 1;
    }
    proof {
        assert(p@.take(0).len() == 0);
    }
    None
}

/// The path with its last component popped, as `parent_of` describes.
pub fn parent_path(p: &str) -> (r: String)
    ensures
        r@ == parent_of(p@),
{
    let n = p.unicode_len();
    match find_last_slash(p) {
        None => p.to_owned(),
        Some(k) => {
            if k == 0 {
                let root = "/";
                proof {
                    reveal_strlit("/");
                    assert(root@ =~= seq!['/']);
                }
                root.to_owned()
            } else {
                p.substring_char(0, k).to_owned()
            }
        },
    }
}

/// The last component of the path, as `base_name_of` describes.
pub fn base_name(p: &str) -> (r: String)
    ensures
        r@ == base_name_of(p@),
{
    let n = p.unicode_len();
    match find_last_slash(p) {
        None => {
            proof {
                assert(p@.skip(0) =~= p@);
            }
            p.to_owned()
        },
        Some(k) => p.substring_char(k + 1, n).to_owned(),
    }
}

/// `s` ends with `suf`.
pub open spec fn has_suffix(s: Seq<char>, suf: Seq<char>) -> bool {
    s.len() >= suf.len() && s.skip(s.len() - suf.len()) == suf
}

/// `s` starts with `pre`.
pub open spec fn has_prefix(s: Seq<char>, pre: Seq<char>) -> bool {
    s.len() >= pre.len() && s.take(pre.len() as int) == pre
}

/// Decides whether `s` ends with `suf`, character by character.
pub fn ends_with_chars(s: &str, suf: &str) -> (r: bool)
    ensures
        r == has_suffix(s@, suf@),
{
    let n = s.unicode_len();
    let m = suf.unicode_len();
    if m > n {
        return false;
    }
    let mut j: usize = 0;
    while j < m
        invariant
            j <= m,
            m <= n,
            n == s@.len(),
            m == suf@.len(),
            forall|k: int| 0 <= k < j ==> s@[n - m + k] == #[trigger] suf@[k],
        decreases m - j,
    {
        if s.get_char(n - m + j) != suf.get_char(j) {
            proof {
                assert(s@.skip(n - m)[j as int] == s@[n - m + j]);
            }
            return false;
        }
        j = j + 1;
    }
    proof {
        assert(s@.skip(n - m) =~= suf@);
    }
    true
}

/// Decides whether `s` starts with `pre`, character by character.
pub fn starts_with_chars(s: &str, pre: &str) -> (r: bool)
    ensures
        r == has_prefix(s@, pre@),
{
    let n = s.unicode_len();
    let m = pre.unicode_len();
    if m > n {
        return false;
    }
    let mut j: usize = 0;
    while j < m
        invariant
            j <= m,
            m <= n,
            n == s@.len(),
            m == pre@.len(),
            forall|k: int| 0 <= k < j ==> s@[k] == #[trigger] pre@[k],
        decreases m - j,
    {
        if s.get_char(j) != pre.get_char(j) {
            proof {
                assert(s@.take(m as int)[j as int] == s@[j as int]);
            }
            return false;
        }
        j = j + 1;
    }
    proof {
        assert(s@.take(m as int) =~= pre@);
    }
    true
}

} // verus!
