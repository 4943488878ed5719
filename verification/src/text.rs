//! Character-level text utilities shared by the probe parsers: scanning for
//! the first character satisfying a predicate, trimming, substring search,
//! splitting into lines and joining lines back.
//!
//! All specifications are stated over `Seq<char>` views.

use vstd::prelude::*;

verus! {

/// The mathematical view of a sequence of strings.
pub open spec fn strs_view(ls: Seq<String>) -> Seq<Seq<char>> {
    ls.map_values(|l: String| l@)
}

/// Whitespace for the purposes of this library: the ASCII blank characters
/// that appear in the host files it parses.
pub open spec fn is_wspace(c: char) -> bool {
    c == ' ' || c == '\t' || c == '\r' || c == '\n'
}

pub open spec fn ws_p() -> spec_fn(char) -> bool {
    |c: char| is_wspace(c)
}

pub open spec fn neg_p(p: spec_fn(char) -> bool) -> spec_fn(char) -> bool {
    |c: char| !p(c)
}

pub open spec fn not_ws_p() -> spec_fn(char) -> bool {
    neg_p(ws_p())
}

pub open spec fn quote_p() -> spec_fn(char) -> bool {
    |c: char| c == '"'
}

pub open spec fn eq_p(c: char) -> spec_fn(char) -> bool {
    |x: char| x == c
}

/// Index of the first position at or after `i` whose character satisfies `p`;
/// `s.len()` if there is none.
pub open spec fn first_where(s: Seq<char>, i: int, p: spec_fn(char) -> bool) -> int
    decreases s.len() - i,
{
    if i < 0 || i >= s.len() {
        s.len() as int
    } else if p(s[i]) {
        i
    } else {
        first_where(s, i + 1, p)
    }
}

/// One past the last position before `i` whose character fails `p`;
/// 0 if every character before `i` satisfies `p`.
pub open spec fn last_until(s: Seq<char>, i: int, p: spec_fn(char) -> bool) -> int
    decreases i,
{
    if i <= 0 || i > s.len() {
        0
    } else if p(s[i - 1]) {
        last_until(s, i - 1, p)
    } else {
        i
    }
}

pub proof fn lemma_first_where_props(s: Seq<char>, i: int, p: spec_fn(char) -> bool)
    requires
        0 <= i <= s.len(),
    ensures
        i <= first_where(s, i, p) <= s.len(),
        first_where(s, i, p) < s.len() ==> p(s[first_where(s, i, p)]),
        forall|j: int| i <= j < first_where(s, i, p) ==> !p(s[j]),
    decreases s.len() - i,
{
    if i < s.len() && !p(s[i]) {
        lemma_first_where_props(s, i + 1, p);
    }
}

pub proof fn lemma_first_where_is(s: Seq<char>, i: int, p: spec_fn(char) -> bool, r: int)
    requires
        0 <= i <= r <= s.len(),
        forall|j: int| i <= j < r ==> !p(s[j]),
        r == s.len() || p(s[r]),
    ensures
        first_where(s, i, p) == r,
    decreases r - i,
{
    if i < r {
        lemma_first_where_is(s, i + 1, p, r);
    }
}

pub proof fn lemma_last_until_is(s: Seq<char>, i: int, p: spec_fn(char) -> bool, r: int)
    requires
        0 <= r <= i <= s.len(),
        forall|j: int| r <= j < i ==> p(s[j]),
        r == 0 || !p(s[r - 1]),
    ensures
        last_until(s, i, p) == r,
    decreases i - r,
{
    if r < i {
        lemma_last_until_is(s, i - 1, p, r);
    }
}

/// `first_where` looks only at the characters from `i` on, so it commutes
/// with taking the suffix at `pos`.
pub proof fn lemma_first_where_shift(s: Seq<char>, pos: int, p: spec_fn(char) -> bool)
    requires
        0 <= pos <= s.len(),
    ensures
        first_where(s.subrange(pos, s.len() as int), 0, p) == first_where(s, pos, p) - pos,
{
    let sub = s.subrange(pos, s.len() as int);
    let r = first_where(s, pos, p);
    lemma_first_where_props(s, pos, p);
    lemma_first_where_is(sub, 0, p, r - pos);
}

/// Strip all leading and trailing characters satisfying `p`.
pub open spec fn trim_by(s: Seq<char>, p: spec_fn(char) -> bool) -> Seq<char> {
    let a = first_where(s, 0, neg_p(p));
    let b = last_until(s, s.len() as int, p);
    if a <= b {
        s.subrange(a, b)
    } else {
        Seq::empty()
    }
}

pub open spec fn trim_ws(s: Seq<char>) -> Seq<char> {
    trim_by(s, ws_p())
}

pub open spec fn trim_quotes(s: Seq<char>) -> Seq<char> {
    trim_by(s, quote_p())
}

pub open spec fn trim_start_ws(s: Seq<char>) -> Seq<char> {
    s.subrange(first_where(s, 0, not_ws_p()), s.len() as int)
}

/// A match of `pat` inside `s` at offset `i`.
pub open spec fn match_at(s: Seq<char>, pat: Seq<char>, i: int) -> bool {
    0 <= i && i + pat.len() <= s.len() && s.subrange(i, i + pat.len() as int) == pat
}

pub open spec fn has_substring(s: Seq<char>, pat: Seq<char>) -> bool {
    exists|i: int| match_at(s, pat, i)
}

/// The lines of `s`: maximal `'\n'`-free pieces, the terminator removed and a
/// final empty piece after a trailing `'\n'` dropped, so that
/// `"a\nb\n"` and `"a\nb"` both read as two lines.
pub open spec fn lines_of(s: Seq<char>) -> Seq<Seq<char>>
    decreases s.len(),
{
    if s.len() == 0 {
        Seq::empty()
    } else {
        let j = first_where(s, 0, eq_p('\n'));
        if 0 <= j && j < s.len() {
            seq![s.subrange(0, j)] + lines_of(s.subrange(j + 1, s.len() as int))
        } else {
            seq![s]
        }
    }
}

/// Join lines, terminating each with `'\n'`.
pub open spec fn join_nl(ls: Seq<Seq<char>>) -> Seq<char>
    decreases ls.len(),
{
    if ls.len() == 0 {
        Seq::empty()
    } else {
        ls[0] + seq!['\n'] + join_nl(ls.drop_first())
    }
}


/// A piece of text with no line terminator in it.
pub open spec fn nl_free(l: Seq<char>) -> bool {
    forall|k: int| 0 <= k < l.len() ==> l[k] != '\n'
}

/// Every line that `lines_of` yields is newline-free.
pub proof fn lemma_lines_of_nl_free(s: Seq<char>)
    ensures
        forall|k: int| 0 <= k < lines_of(s).len() ==> nl_free(#[trigger] lines_of(s)[k]),
    decreases s.len(),
{
    if s.len() > 0 {
        let j = first_where(s, 0, eq_p('\n'));
        lemma_first_where_props(s, 0, eq_p('\n'));
        if j < s.len() {
            lemma_lines_of_nl_free(s.subrange(j + 1, s.len() as int));
            assert forall|k: int| 0 <= k < lines_of(s).len() implies nl_free(
                #[trigger] lines_of(s)[k],
            ) by {
                if k == 0 {
                    assert(forall|i: int| 0 <= i < j ==> s.subrange(0, j)[i] == s[i]);
                } else {
                    assert(lines_of(s)[k] == lines_of(s.subrange(j + 1, s.len() as int))[k - 1]);
                }
            }
        } else {
            assert(lines_of(s) == seq![s]);
        }
    }
}

/// Splitting the joined lines gives the lines back, provided no line holds a
/// newline of its own.
pub proof fn lemma_lines_of_join_nl(ls: Seq<Seq<char>>)
    requires
        forall|k: int| 0 <= k < ls.len() ==> nl_free(#[trigger] ls[k]),
    ensures
        lines_of(join_nl(ls)) == ls,
    decreases ls.len(),
{
    if ls.len() == 0 {
        assert(lines_of(join_nl(ls)) =~= ls);
    } else {
        let s = join_nl(ls);
        let l0 = ls[0];
        let rest = join_nl(ls.drop_first());
        assert(s == l0 + seq!['\n'] + rest);
        assert(s.len() == l0.len() + 1 + rest.len());
        assert(nl_free(l0));
        assert(forall|k: int| 0 <= k < l0.len() ==> s[k] == l0[k]);
        assert(s[l0.len() as int] == '\n');
        lemma_first_where_is(s, 0, eq_p('\n'), l0.len() as int);
        let j = l0.len() as int;
        assert(s.subrange(0, j) =~= l0);
        assert(s.subrange(j + 1, s.len() as int) =~= rest);
        assert(forall|k: int| 0 <= k < ls.drop_first().len() ==> nl_free(
            #[trigger] ls.drop_first()[k],
        ));
        lemma_lines_of_join_nl(ls.drop_first());
        assert(lines_of(s) == seq![l0] + ls.drop_first());
        assert(lines_of(s) =~= ls);
    }
}

fn is_ws_exec(c: char) -> (r: bool)
    ensures
        r == is_wspace(c),
{
    c == ' ' || c == '\t' || c == '\r' || c == '\n'
}

/// Character-wise string equality, stated over the views.
pub fn str_eq(a: &str, b: &str) -> (r: bool)
    ensures
        r == (a@ == b@),
{
    let alen = a.unicode_len();
    let blen = b.unicode_len();
    if alen != blen {
        return false;
    }
    let mut i: usize = 0;
    while i < alen
        invariant
            alen == a@.len(),
            alen == b@.len(),
            i <= alen,
            forall|k: int| 0 <= k < i ==> a@[k] == b@[k],
        decreases alen - i,
    {
        if a.get_char(i) != b.get_char(i) {
            return false;
        }
        i += 1;
    }
    proof {
        assert(a@ =~= b@);
    }
    true
}

/// Does `pre` stand at offset `at` of `s`?
pub fn matches_at(s: &str, pat: &str, at: usize) -> (r: bool)
    requires
        at <= s@.len(),
    ensures
        r == match_at(s@, pat@, at as int),
{
    let slen = s.unicode_len();
    let plen = pat.unicode_len();
    if plen > slen - at {
        return false;
    }
    let mut i: usize = 0;
    while i < plen
        invariant
            slen == s@.len(),
            plen == pat@.len(),
            at + plen <= slen,
            i <= plen,
            forall|k: int| 0 <= k < i ==> s@[at + k] == pat@[k],
        decreases plen - i,
    {
        if s.get_char(at + i) != pat.get_char(i) {
            return false;
        }
        i += 1;
    }
    proof {
        assert(s@.subrange(at as int, at + plen) =~= pat@);
    }
    true
}

pub fn starts_with_str(s: &str, pre: &str) -> (r: bool)
    ensures
        r == pre@.is_prefix_of(s@),
{
    let slen = s.unicode_len();
    let plen = pre.unicode_len();
    if plen > slen {
        return false;
    }
    let r = matches_at(s, pre, 0);
    proof {
        assert(s@.subrange(0, pre@.len() as int) == s@.take(pre@.len() as int));
    }
    r
}

pub fn ends_with_str(s: &str, suf: &str) -> (r: bool)
    ensures
        r == suf@.is_suffix_of(s@),
{
    let slen = s.unicode_len();
    let plen = suf.unicode_len();
    if plen > slen {
        return false;
    }
    let r = matches_at(s, suf, slen - plen);
    proof {
        assert(s@.subrange(s@.len() - suf@.len(), s@.len() as int) == s@.skip(
            s@.len() - suf@.len(),
        ));
    }
    r
}

/// Naive substring search.
pub fn contains_str(s: &str, pat: &str) -> (r: bool)
    ensures
        r == has_substring(s@, pat@),
{
    let slen = s.unicode_len();
    let plen = pat.unicode_len();
    if plen > slen {
        proof {
            assert(forall|i: int| !match_at(s@, pat@, i));
        }
        return false;
    }
    if plen == 0 {
        proof {
            assert(s@.subrange(0, 0) =~= pat@);
            assert(match_at(s@, pat@, 0));
        }
        return true;
    }
    let mut i: usize = 0;
    while i <= slen - plen
        invariant
            slen == s@.len(),
            plen == pat@.len(),
            1 <= plen <= slen,
            i <= slen - plen + 1,
            forall|k: int| 0 <= k < i ==> !match_at(s@, pat@, k),
        decreases slen - i,
    {
        if matches_at(s, pat, i) {
            return true;
        }
        i += 1;
    }
    proof {
        assert(forall|k: int| match_at(s@, pat@, k) ==> 0 <= k <= slen - plen);
        assert(forall|k: int| !match_at(s@, pat@, k));
    }
    false
}

/// Index of the first occurrence of `c` at or after `from`; `s` length if none.
pub fn find_char(s: &str, from: usize, c: char) -> (r: usize)
    requires
        from <= s@.len(),
    ensures
        r == first_where(s@, from as int, eq_p(c)),
        from <= r <= s@.len(),
    {
    let slen = s.unicode_len();
    let mut i: usize = from;
    while i < slen
        invariant
            slen == s@.len(),
            from <= i <= slen,
            forall|j: int| from <= j < i ==> s@[j] != c,
        decreases slen - i,
    {
        if s.get_char(i) == c {
            proof {
                lemma_first_where_is(s@, from as int, eq_p(c), i as int);
            }
            return i;
        }
        i += 1;
    }
    proof {
        lemma_first_where_is(s@, from as int, eq_p(c), slen as int);
    }
    slen
}

/// Index of the first non-whitespace character at or after `from`.
pub fn skip_ws(s: &str, from: usize) -> (r: usize)
    requires
        from <= s@.len(),
    ensures
        r == first_where(s@, from as int, not_ws_p()),
        from <= r <= s@.len(),
{
    let slen = s.unicode_len();
    let mut i: usize = from;
    while i < slen
        invariant
            slen == s@.len(),
            from <= i <= slen,
            forall|j: int| from <= j < i ==> is_wspace(s@[j]),
        decreases slen - i,
    {
        if !is_ws_exec(s.get_char(i)) {
            proof {
                lemma_first_where_is(s@, from as int, not_ws_p(), i as int);
            }
            return i;
        }
        i += 1;
    }
    proof {
        lemma_first_where_is(s@, from as int, not_ws_p(), slen as int);
    }
    slen
}

/// Index of the first whitespace character at or after `from`.
pub fn find_ws(s: &str, from: usize) -> (r: usize)
    requires
        from <= s@.len(),
    ensures
        r == first_where(s@, from as int, ws_p()),
        from <= r <= s@.len(),
{
    let slen = s.unicode_len();
    let mut i: usize = from;
    while i < slen
        invariant
            slen == s@.len(),
            from <= i <= slen,
            forall|j: int| from <= j < i ==> !is_wspace(s@[j]),
        decreases slen - i,
    {
        if is_ws_exec(s.get_char(i)) {
            proof {
                lemma_first_where_is(s@, from as int, ws_p(), i as int);
            }
            return i;
        }
        i += 1;
    }
    proof {
        lemma_first_where_is(s@, from as int, ws_p(), slen as int);
    }
    slen
}

/// Strip leading and trailing whitespace.
pub fn trim(s: &str) -> (r: &str)
    ensures
        r@ == trim_ws(s@),
{
    let slen = s.unicode_len();
    let a = skip_ws(s, 0);
    proof {
        lemma_first_where_props(s@, 0, not_ws_p());
    }
    if a == slen {
        proof {
            lemma_last_until_is(s@, slen as int, ws_p(), 0);
        }
        let r = s.substring_char(0, 0);
        proof {
            assert(r@ =~= trim_ws(s@));
        }
        return r;
    }
    let mut b: usize = slen;
    while b > a && is_ws_exec(s.get_char(b - 1))
        invariant
            slen == s@.len(),
            a < slen,
            a <= b <= slen,
            forall|j: int| b <= j < slen ==> is_wspace(s@[j]),
        decreases b,
    {
        b -= 1;
    }
    proof {
        assert(!is_wspace(s@[a as int]));
        assert(b > a);
        lemma_last_until_is(s@, slen as int, ws_p(), b as int);
    }
    s.substring_char(a, b)
}

/// Strip leading whitespace only.
pub fn trim_start(s: &str) -> (r: &str)
    ensures
        r@ == trim_start_ws(s@),
{
    let slen = s.unicode_len();
    let a = skip_ws(s, 0);
    s.substring_char(a, slen)
}

/// Strip all leading and trailing double quotes.
pub fn trim_quote_chars(s: &str) -> (r: &str)
    ensures
        r@ == trim_quotes(s@),
{
    let slen = s.unicode_len();
    let mut a: usize = 0;
    while a < slen && s.get_char(a) == '"'
        invariant
            slen == s@.len(),
            a <= slen,
            forall|j: int| 0 <= j < a ==> s@[j] == '"',
        decreases slen - a,
    {
        a += 1;
    }
    proof {
        lemma_first_where_is(s@, 0, neg_p(quote_p()), a as int);
    }
    if a == slen {
        proof {
            lemma_last_until_is(s@, slen as int, quote_p(), 0);
        }
        let r = s.substring_char(0, 0);
        proof {
            assert(r@ =~= trim_quotes(s@));
        }
        return r;
    }
    let mut b: usize = slen;
    while b > a && s.get_char(b - 1) == '"'
        invariant
            slen == s@.len(),
            a < slen,
            a <= b <= slen,
            forall|j: int| b <= j < slen ==> s@[j] == '"',
        decreases b,
    {
        b -= 1;
    }
    proof {
        assert(s@[a as int] != '"');
        assert(b > a);
        lemma_last_until_is(s@, slen as int, quote_p(), b as int);
    }
    s.substring_char(a, b)
}

/// Split into lines as `lines_of` describes.
pub fn split_lines(s: &str) -> (r: Vec<String>)
    ensures
        strs_view(r@) == lines_of(s@),
{
    let slen = s.unicode_len();
    let mut out: Vec<String> = Vec::new();
    let mut pos: usize = 0;
    proof {
        assert(s@.subrange(0, slen as int) =~= s@);
        assert(strs_view(out@) + lines_of(s@) =~= lines_of(s@));
    }
    while pos < slen
        invariant
            slen == s@.len(),
            pos <= slen,
            lines_of(s@) == strs_view(out@) + lines_of(
                s@.subrange(pos as int, slen as int),
            ),
        decreases slen - pos,
    {
        let j = find_char(s, pos, '\n');
        let ghost suffix = s@.subrange(pos as int, slen as int);
        proof {
            lemma_first_where_shift(s@, pos as int, eq_p('\n'));
            assert(suffix.len() > 0);
        }
        let piece = s.substring_char(pos, j);
        let line = piece.to_owned();
        proof {
            assert(line@ =~= suffix.subrange(0, j - pos));
        }
        out.push(line);
        if j == slen {
            proof {
                assert(first_where(suffix, 0, eq_p('\n')) == suffix.len());
                assert(lines_of(suffix) =~= seq![suffix]);
                assert(line@ =~= suffix);
                assert(strs_view(out@) =~= lines_of(s@));
            }
            pos = slen;
        } else {
            proof {
                let jj = (j - pos) as int;
                assert(0 <= jj && jj < suffix.len());
                assert(lines_of(suffix) == seq![suffix.subrange(0, jj)] + lines_of(
                    suffix.subrange(jj + 1, suffix.len() as int),
                ));
                assert(suffix.subrange(jj + 1, suffix.len() as int) =~= s@.subrange(
                    j + 1,
                    slen as int,
                ));
                assert(strs_view(out@) + lines_of(
                    s@.subrange(j + 1, slen as int),
                ) =~= lines_of(s@));
            }
            pos = j + 1;
        }
    }
    proof {
        assert(lines_of(s@.subrange(pos as int, slen as int)) =~= Seq::<Seq<char>>::empty());
        assert(strs_view(out@) =~= lines_of(s@));
    }
    out
}

/// `join_nl` grows line by line when a line is appended at the end.
pub proof fn lemma_join_nl_push(ls: Seq<Seq<char>>, l: Seq<char>)
    ensures
        join_nl(ls.push(l)) == join_nl(ls) + l + seq!['\n'],
    decreases ls.len(),
{
    assert(join_nl(Seq::<Seq<char>>::empty()) == Seq::<char>::empty());
    if ls.len() == 0 {
        assert(ls.push(l)[0] == l);
        assert(ls.push(l).drop_first() =~= Seq::<Seq<char>>::empty());
        assert(ls =~= Seq::<Seq<char>>::empty());
        assert(join_nl(ls.push(l)) =~= join_nl(ls) + l + seq!['\n']);
    } else {
        lemma_join_nl_push(ls.drop_first(), l);
        assert(ls.push(l).drop_first() =~= ls.drop_first().push(l));
        assert(ls.push(l)[0] == ls[0]);
        assert(join_nl(ls.push(l)) == ls[0] + seq!['\n'] + join_nl(ls.drop_first().push(l)));
        assert(join_nl(ls) == ls[0] + seq!['\n'] + join_nl(ls.drop_first()));
        assert(join_nl(ls.push(l)) =~= join_nl(ls) + l + seq!['\n']);
    }
}

/// Join lines, terminating each with a newline.
pub fn join_lines(ls: &Vec<String>) -> (r: String)
    ensures
        r@ == join_nl(strs_view(ls@)),
{
    let mut out = String::new();
    let mut i: usize = 0;
    while i < ls.len()
        invariant
            i <= ls@.len(),
            out@ == join_nl(strs_view(ls@.subrange(0, i as int))),
        decreases ls@.len() - i,
    {
        out.append(ls[i].as_str());
        out.append("\n");
        proof {
            reveal_strlit("\n");
            let prefix = strs_view(ls@.subrange(0, i as int));
            lemma_join_nl_push(prefix, ls@[i as int]@);
            assert(prefix.push(ls@[i as int]@) =~= strs_view(ls@.subrange(0, i + 1)));
            assert(out@ =~= join_nl(strs_view(ls@.subrange(0, i + 1))));
        }
        i += 1;
    }
    proof {
        assert(ls@.subrange(0, ls@.len() as int) =~= ls@);
    }
    out
}

} // verus!
