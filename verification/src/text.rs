//! Character-sequence utilities shared by request parsing and routing:
//! finding separators, splitting into lines, path segments and
//! whitespace-delimited tokens, and substring tests.
use vstd::prelude::*;

verus! {

/// The whitespace characters on which a request start line is tokenized.
pub open spec fn is_ws_char(c: char) -> bool {
    c == ' ' || c == '\t'
}

/// Index of the first occurrence of `c` in `s`, or -1 if absent.
pub open spec fn find_char(s: Seq<char>, c: char) -> int
    decreases s.len(),
{
    if s.len() == 0 {
        -1
    } else if s[0] == c {
        0
    } else {
        let r = find_char(s.drop_first(), c);
        if r == -1 {
            -1
        } else {
            r + 1
        }
    }
}

pub proof fn lemma_find_char(s: Seq<char>, c: char)
    ensures
        -1 <= find_char(s, c) < s.len(),
        find_char(s, c) >= 0 ==> s[find_char(s, c)] == c,
        forall|j: int| 0 <= j < find_char(s, c) ==> s[j] != c,
        find_char(s, c) == -1 ==> forall|j: int| 0 <= j < s.len() ==> s[j] != c,
    decreases s.len(),
{
    if s.len() == 0 {
    } else if s[0] == c {
    } else {
        lemma_find_char(s.drop_first(), c);
        assert forall|j: int| 0 <= j < find_char(s, c) implies s[j] != c by {
            if j > 0 {
                assert(s.drop_first()[j - 1] == s[j]);
            }
        }
        if find_char(s, c) == -1 {
            assert forall|j: int| 0 <= j < s.len() implies s[j] != c by {
                if j > 0 {
                    assert(s.drop_first()[j - 1] == s[j]);
                }
            }
        }
    }
}

/// A found position with no earlier occurrence pins `find_char` down.
pub proof fn lemma_find_char_at(s: Seq<char>, c: char, i: int)
    requires
        0 <= i < s.len(),
        s[i] == c,
        forall|j: int| 0 <= j < i ==> s[j] != c,
    ensures
        find_char(s, c) == i,
    decreases s.len(),
{
    if i == 0 {
    } else {
        assert forall|j: int| 0 <= j < i - 1 implies s.drop_first()[j] != c by {
            assert(s.drop_first()[j] == s[j + 1]);
        }
        assert(s.drop_first()[i - 1] == s[i]);
        lemma_find_char_at(s.drop_first(), c, i - 1);
    }
}

pub proof fn lemma_find_char_absent(s: Seq<char>, c: char)
    requires
        forall|j: int| 0 <= j < s.len() ==> s[j] != c,
    ensures
        find_char(s, c) == -1,
    decreases s.len(),
{
    if s.len() > 0 {
        assert forall|j: int| 0 <= j < s.drop_first().len() implies s.drop_first()[j] != c by {
            assert(s.drop_first()[j] == s[j + 1]);
        }
        lemma_find_char_absent(s.drop_first(), c);
    }
}

/// Index of the first whitespace character in `s`, or -1 if absent.
pub open spec fn find_ws(s: Seq<char>) -> int
    decreases s.len(),
{
    if s.len() == 0 {
        -1
    } else if is_ws_char(s[0]) {
        0
    } else {
        let r = find_ws(s.drop_first());
        if r == -1 {
            -1
        } else {
            r + 1
        }
    }
}

pub proof fn lemma_find_ws(s: Seq<char>)
    ensures
        -1 <= find_ws(s) < s.len(),
        find_ws(s) >= 0 ==> is_ws_char(s[find_ws(s)]),
        forall|j: int| 0 <= j < find_ws(s) ==> !is_ws_char(s[j]),
        find_ws(s) == -1 ==> forall|j: int| 0 <= j < s.len() ==> !is_ws_char(s[j]),
    decreases s.len(),
{
    if s.len() == 0 {
    } else if is_ws_char(s[0]) {
    } else {
        lemma_find_ws(s.drop_first());
        assert forall|j: int| 0 <= j < find_ws(s) implies !is_ws_char(s[j]) by {
            if j > 0 {
                assert(s.drop_first()[j - 1] == s[j]);
            }
        }
        if find_ws(s) == -1 {
            assert forall|j: int| 0 <= j < s.len() implies !is_ws_char(s[j]) by {
                if j > 0 {
                    assert(s.drop_first()[j - 1] == s[j]);
                }
            }
        }
    }
}

pub proof fn lemma_find_ws_at(s: Seq<char>, i: int)
    requires
        0 <= i < s.len(),
        is_ws_char(s[i]),
        forall|j: int| 0 <= j < i ==> !is_ws_char(s[j]),
    ensures
        find_ws(s) == i,
    decreases s.len(),
{
    if i == 0 {
    } else {
        assert forall|j: int| 0 <= j < i - 1 implies !is_ws_char(s.drop_first()[j]) by {
            assert(s.drop_first()[j] == s[j + 1]);
        }
        assert(s.drop_first()[i - 1] == s[i]);
        lemma_find_ws_at(s.drop_first(), i - 1);
    }
}

pub proof fn lemma_find_ws_absent(s: Seq<char>)
    requires
        forall|j: int| 0 <= j < s.len() ==> !is_ws_char(s[j]),
    ensures
        find_ws(s) == -1,
    decreases s.len(),
{
    if s.len() > 0 {
        assert forall|j: int| 0 <= j < s.drop_first().len() implies !is_ws_char(
            s.drop_first()[j],
        ) by {
            assert(s.drop_first()[j] == s[j + 1]);
        }
        lemma_find_ws_absent(s.drop_first());
    }
}

/// Splits `s` at every occurrence of `sep`; empty fields are kept, and a
/// string without `sep` is a single field.
pub open spec fn split_on(s: Seq<char>, sep: char) -> Seq<Seq<char>>
    decreases s.len(),
    via split_on_dec
{
    let i = find_char(s, sep);
    if i < 0 {
        seq![s]
    } else {
        seq![s.take(i)] + split_on(s.skip(i + 1), sep)
    }
}

#[via_fn]
proof fn split_on_dec(s: Seq<char>, sep: char) {
    lemma_find_char(s, sep);
}

/// A line's trailing carriage return, when one is there, is dropped.
pub open spec fn strip_cr(l: Seq<char>) -> Seq<char> {
    if l.len() > 0 && l[l.len() - 1] == '\r' {
        l.drop_last()
    } else {
        l
    }
}

/// The lines of `s`: fields before each newline with any trailing carriage
/// return removed, plus a final unterminated line kept verbatim.
pub open spec fn spec_lines(s: Seq<char>) -> Seq<Seq<char>>
    decreases s.len(),
    via spec_lines_dec
{
    if s.len() == 0 {
        Seq::empty()
    } else {
        let i = find_char(s, '\n');
        if i < 0 {
            seq![s]
        } else {
            seq![strip_cr(s.take(i))] + spec_lines(s.skip(i + 1))
        }
    }
}

#[via_fn]
proof fn spec_lines_dec(s: Seq<char>) {
    lemma_find_char(s, '\n');
}

/// The maximal whitespace-free tokens of `s`, in order.
pub open spec fn tokens_of(s: Seq<char>) -> Seq<Seq<char>>
    decreases s.len(),
    via tokens_of_dec
{
    if s.len() == 0 {
        Seq::empty()
    } else if is_ws_char(s[0]) {
        tokens_of(s.drop_first())
    } else {
        let i = find_ws(s);
        if i < 0 {
            seq![s]
        } else {
            seq![s.take(i)] + tokens_of(s.skip(i))
        }
    }
}

#[via_fn]
proof fn tokens_of_dec(s: Seq<char>) {
    if s.len() > 0 && !is_ws_char(s[0]) {
        lemma_find_ws(s);
    }
}

/// `pat` occurs somewhere in `s`.
pub open spec fn contains_seq(s: Seq<char>, pat: Seq<char>) -> bool {
    exists|i: int| 0 <= i && i + pat.len() <= s.len() && #[trigger] s.subrange(i, i + pat.len())
        == pat
}

/// Character-for-character string equality.
pub fn str_eq(a: &str, b: &str) -> (r: bool)
    ensures
        r == (a@ == b@),
{
    let n = a.unicode_len();
    let m = b.unicode_len();
    if n != m {
        return false;
    }
    let mut i: usize = 0;
    while i < n
        invariant
            n == a@.len(),
            n == b@.len(),
            0 <= i <= n,
            forall|j: int| 0 <= j < i ==> a@[j] == b@[j],
        decreases n - i,
    {
        if a.get_char(i) != b.get_char(i) {
            return false;
        }
        i = i + 1;
    }
    proof {
        assert(a@ =~= b@);
    }
    true
}

/// Position of the first `c` at or after `from`, or the length if absent.
pub fn scan_char(s: &str, from: usize, c: char) -> (j: usize)
    requires
        from <= s@.len(),
    ensures
        from <= j <= s@.len(),
        j < s@.len() ==> s@[j as int] == c,
        forall|k: int| from <= k < j ==> s@[k] != c,
{
    let n = s.unicode_len();
    let mut j: usize = from;
    while j < n
        invariant
            n == s@.len(),
            from <= j <= n,
            forall|k: int| from <= k < j ==> s@[k] != c,
        decreases n - j,
    {
        if s.get_char(j) == c {
            return j;
        }
        j = j + 1;
    }
    j
}

/// The lines of `s`, as `spec_lines` gives them.
pub fn lines_of(s: &str) -> (r: Vec<String>)
    ensures
        r.deep_view() == spec_lines(s@),
{
    let n = s.unicode_len();
    let mut out: Vec<String> = Vec::new();
    let mut pos: usize = 0;
    proof {
        assert(out.deep_view() =~= Seq::<Seq<char>>::empty());
        assert(s@.skip(0) =~= s@);
    }
    while pos < n
        invariant
            n == s@.len(),
            0 <= pos <= n,
            out.deep_view() + spec_lines(s@.skip(pos as int)) =~= spec_lines(s@),
        decreases n - pos,
    {
        let j = scan_char(s, pos, '\n');
        let ghost rest = s@.skip(pos as int);
        if j == n {
            proof {
                assert forall|k: int| 0 <= k < rest.len() implies rest[k] != '\n' by {
                    assert(rest[k] == s@[pos + k]);
                }
                lemma_find_char_absent(rest, '\n');
                assert(spec_lines(rest) =~= seq![rest]);
            }
            let line = s.substring_char(pos, n);
            let line_s = String::from_str(line);
            let ghost prev = out.deep_view();
            out.push(line_s);
            proof {
                assert(out.deep_view() =~= prev + seq![rest]);
                assert(out.deep_view() + spec_lines(s@.skip(n as int)) =~= spec_lines(s@));
            }
            pos = n;
        } else {
            proof {
                assert(rest[j - pos] == s@[j as int]);
                assert forall|k: int| 0 <= k < j - pos implies rest[k] != '\n' by {
                    assert(rest[k] == s@[pos + k]);
                }
                lemma_find_char_at(rest, '\n', j - pos);
            }
            let end: usize = if j > pos && s.get_char(j - 1) == '\r' {
                j - 1
            } else {
                j
            };
            let line = s.substring_char(pos, end);
            proof {
                assert(rest.take(j - pos) =~= s@.subrange(pos as int, j as int));
                if j > pos && s@[j - 1] == '\r' {
                    assert(strip_cr(rest.take(j - pos)) =~= s@.subrange(pos as int, end as int));
                } else {
                    assert(strip_cr(rest.take(j - pos)) =~= s@.subrange(pos as int, end as int));
                }
                assert(rest.skip(j - pos + 1) =~= s@.skip(j + 1));
                assert(spec_lines(rest) =~= seq![strip_cr(rest.take(j - pos))] + spec_lines(
                    s@.skip(j + 1),
                ));
            }
            let line_s = String::from_str(line);
            let ghost prev = out.deep_view();
            out.push(line_s);
            proof {
                assert(out.deep_view() =~= prev + seq![line_s@]);
                assert(out.deep_view() + spec_lines(s@.skip(j + 1)) =~= spec_lines(s@));
            }
            pos = j + 1;
        }
    }
    proof {
        assert(s@.skip(pos as int) =~= Seq::<char>::empty());
        assert(out.deep_view() + spec_lines(s@.skip(pos as int)) =~= out.deep_view());
    }
    out
}

/// The `sep`-separated fields of `s`, as `split_on` gives them.
pub fn split_str(s: &str, sep: char) -> (r: Vec<String>)
    ensures
        r.deep_view() == split_on(s@, sep),
{
    let n = s.unicode_len();
    let mut out: Vec<String> = Vec::new();
    let mut pos: usize = 0;
    proof {
        assert(out.deep_view() =~= Seq::<Seq<char>>::empty());
        assert(s@.skip(0) =~= s@);
    }
    loop
        invariant
            n == s@.len(),
            0 <= pos <= n,
            out.deep_view() + split_on(s@.skip(pos as int), sep) =~= split_on(s@, sep),
        decreases n - pos + 1,
    {
        let j = scan_char(s, pos, sep);
        let ghost rest = s@.skip(pos as int);
        if j == n {
            proof {
                assert forall|k: int| 0 <= k < rest.len() implies rest[k] != sep by {
                    assert(rest[k] == s@[pos + k]);
                }
                lemma_find_char_absent(rest, sep);
                assert(split_on(rest, sep) =~= seq![rest]);
            }
            let field = s.substring_char(pos, n);
            let field_s = String::from_str(field);
            let ghost prev = out.deep_view();
            out.push(field_s);
            proof {
                assert(out.deep_view() =~= prev + seq![rest]);
            }
            return out;
        } else {
            proof {
                assert(rest[j - pos] == s@[j as int]);
                assert forall|k: int| 0 <= k < j - pos implies rest[k] != sep by {
                    assert(rest[k] == s@[pos + k]);
                }
                lemma_find_char_at(rest, sep, j - pos);
            }
            let field = s.substring_char(pos, j);
            proof {
                assert(rest.take(j - pos) =~= s@.subrange(pos as int, j as int));
                assert(rest.skip(j - pos + 1) =~= s@.skip(j + 1));
                assert(split_on(rest, sep) =~= seq![rest.take(j - pos)] + split_on(
                    s@.skip(j + 1),
                    sep,
                ));
            }
            let field_s = String::from_str(field);
            let ghost prev = out.deep_view();
            out.push(field_s);
            proof {
                assert(out.deep_view() =~= prev + seq![field_s@]);
                assert(out.deep_view() + split_on(s@.skip(j + 1), sep) =~= split_on(s@, sep));
            }
            pos = j + 1;
        }
    }
}

/// Position of the first whitespace character at or after `from`, or the
/// length if absent.
fn scan_ws(s: &str, from: usize) -> (j: usize)
    requires
        from <= s@.len(),
    ensures
        from <= j <= s@.len(),
        j < s@.len() ==> is_ws_char(s@[j as int]),
        forall|k: int| from <= k < j ==> !is_ws_char(s@[k]),
{
    let n = s.unicode_len();
    let mut j: usize = from;
    while j < n
        invariant
            n == s@.len(),
            from <= j <= n,
            forall|k: int| from <= k < j ==> !is_ws_char(s@[k]),
        decreases n - j,
    {
        let c = s.get_char(j);
        if c == ' ' || c == '\t' {
            return j;
        }
        j = j + 1;
    }
    j
}

/// The whitespace-delimited tokens of `s`, as `tokens_of` gives them.
pub fn tokens_vec(s: &str) -> (r: Vec<String>)
    ensures
        r.deep_view() == tokens_of(s@),
{
    let n = s.unicode_len();
    let mut out: Vec<String> = Vec::new();
    let mut pos: usize = 0;
    proof {
        assert(out.deep_view() =~= Seq::<Seq<char>>::empty());
        assert(s@.skip(0) =~= s@);
    }
    while pos < n
        invariant
            n == s@.len(),
            0 <= pos <= n,
            out.deep_view() + tokens_of(s@.skip(pos as int)) =~= tokens_of(s@),
        decreases n - pos,
    {
        let c = s.get_char(pos);
        let ghost rest = s@.skip(pos as int);
        if c == ' ' || c == '\t' {
            proof {
                assert(rest[0] == s@[pos as int]);
                assert(rest.drop_first() =~= s@.skip(pos + 1));
                assert(tokens_of(rest) =~= tokens_of(s@.skip(pos + 1)));
            }
            pos = pos + 1;
        } else {
            let j = scan_ws(s, pos);
            proof {
                assert(rest[0] == s@[pos as int]);
                assert forall|k: int| 0 <= k < j - pos implies !is_ws_char(rest[k]) by {
                    assert(rest[k] == s@[pos + k]);
                }
            }
            let tok = s.substring_char(pos, j);
            let tok_s = String::from_str(tok);
            let ghost prev = out.deep_view();
            if j == n {
                proof {
                    lemma_find_ws_absent(rest);
                    assert(rest =~= s@.subrange(pos as int, j as int));
                    assert(tokens_of(rest) =~= seq![rest]);
                }
                out.push(tok_s);
                proof {
                    assert(out.deep_view() =~= prev + seq![tok_s@]);
                    assert(out.deep_view() + tokens_of(s@.skip(n as int)) =~= tokens_of(s@));
                }
                pos = n;
            } else {
                proof {
                    assert(rest[j - pos] == s@[j as int]);
                    lemma_find_ws_at(rest, j - pos);
                    assert(rest.take(j - pos) =~= s@.subrange(pos as int, j as int));
                    assert(rest.skip(j - pos) =~= s@.skip(j as int));
                    assert(tokens_of(rest) =~= seq![rest.take(j - pos)] + tokens_of(
                        s@.skip(j as int),
                    ));
                }
                out.push(tok_s);
                proof {
                    assert(out.deep_view() =~= prev + seq![tok_s@]);
                    assert(out.deep_view() + tokens_of(s@.skip(j as int)) =~= tokens_of(s@));
                }
                pos = j;
            }
        }
    }
    proof {
        assert(s@.skip(pos as int) =~= Seq::<char>::empty());
    }
    out
}

/// Whether the four characters of `pat` occur contiguously in `s`; `pat`
/// is passed as a string slice of exactly four characters.
pub fn contains4(s: &str, pat: &str) -> (b: bool)
    requires
        pat@.len() == 4,
    ensures
        b == contains_seq(s@, pat@),
{
    let n = s.unicode_len();
    if n < 4 {
        proof {
            assert forall|i: int| 0 <= i && i + 4 <= s@.len() implies #[trigger] s@.subrange(
                i,
                i + 4,
            ) != pat@ by {}
        }
        return false;
    }
    let mut i: usize = 0;
    while i <= n - 4
        invariant
            n == s@.len(),
            4 <= n,
            0 <= i <= n - 4 + 1,
            pat@.len() == 4,
            forall|k: int| 0 <= k < i ==> #[trigger] s@.subrange(k, k + 4) != pat@,
        decreases n - i,
    {
        if s.get_char(i) == pat.get_char(0) && s.get_char(i + 1) == pat.get_char(1) && s.get_char(
            i + 2,
        ) == pat.get_char(2) && s.get_char(i + 3) == pat.get_char(3) {
            proof {
                assert(s@.subrange(i as int, i + 4) =~= pat@);
            }
            return true;
        }
        proof {
            assert(s@.subrange(i as int, i + 4)[0] == s@[i as int]);
            assert(s@.subrange(i as int, i + 4)[1] == s@[i + 1]);
            assert(s@.subrange(i as int, i + 4)[2] == s@[i + 2]);
            assert(s@.subrange(i as int, i + 4)[3] == s@[i + 3]);
            assert(s@.subrange(i as int, i + 4) != pat@);
        }
        i = i + 1;
    }
    proof {
        assert forall|k: int| 0 <= k && k + 4 <= s@.len() implies #[trigger] s@.subrange(k, k + 4)
            != pat@ by {}
    }
    false
}

/// `s` ends with the characters of `suffix`.
pub open spec fn ends_with(s: Seq<char>, suffix: Seq<char>) -> bool {
    s.len() >= suffix.len() && s.skip(s.len() - suffix.len()) == suffix
}

/// Character-for-character suffix test.
pub fn str_ends_with(s: &str, suffix: &str) -> (b: bool)
    ensures
        b == ends_with(s@, suffix@),
{
    let n = s.unicode_len();
    let m = suffix.unicode_len();
    if n < m {
        return false;
    }
    let tail = s.substring_char(n - m, n);
    let r = str_eq(tail, suffix);
    proof {
        assert(tail@ =~= s@.skip(s@.len() - suffix@.len()));
    }
    r
}

} // verus!
