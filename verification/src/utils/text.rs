//! Character-level text handling: cutting at a separator, searching for a
//! pattern, trimming white space.
use vstd::prelude::*;

verus! {

/// The models of a list of character vectors.
pub open spec fn char_views(v: Seq<Vec<char>>) -> Seq<Seq<char>> {
    v.map_values(|c: Vec<char>| c@)
}

/// A text cut at every occurrence of `sep`, as `str::split` with a
/// character pattern cuts it: a text without `sep` is one piece, and a
/// separator at either end gives an empty piece there.
pub open spec fn split_on(t: Seq<char>, sep: char) -> Seq<Seq<char>>
    decreases t.len(),
{
    if t.len() == 0 {
        seq![Seq::<char>::empty()]
    } else {
        let prev = split_on(t.drop_last(), sep);
        if t.last() == sep {
            prev.push(Seq::<char>::empty())
        } else {
            prev.update(prev.len() - 1, prev.last().push(t.last()))
        }
    }
}

/// Cutting a text always gives at least one piece.
pub proof fn lemma_split_on_nonempty(t: Seq<char>, sep: char)
    ensures
        split_on(t, sep).len() >= 1,
    decreases t.len(),
{
    if t.len() > 0 {
        lemma_split_on_nonempty(t.drop_last(), sep);
    }
}

/// Cuts a text at every occurrence of `sep`.
pub fn split_chars(text: &Vec<char>, sep: char) -> (r: Vec<Vec<char>>)
    ensures
        char_views(r@) == split_on(text@, sep),
{
    let mut pieces: Vec<Vec<char>> = Vec::new();
    let mut cur: Vec<char> = Vec::new();
    let mut i: usize = 0;
    assert(text@.take(0) =~= Seq::<char>::empty());
    assert(char_views(pieces@).push(cur@) =~= split_on(text@.take(0), sep));
    while i < text.len()
        invariant
            i <= text@.len(),
            char_views(pieces@).push(cur@) == split_on(text@.take(i as int), sep),
        decreases text@.len() - i,
    {
        let c = text[i];
        proof {
            assert(text@.take(i + 1).drop_last() =~= text@.take(i as int));
            assert(text@.take(i + 1).last() == c);
            lemma_split_on_nonempty(text@.take(i as int), sep);
        }
        let ghost before = char_views(pieces@);
        if c == sep {
            pieces.push(cur);
            cur = Vec::new();
            assert(char_views(pieces@) =~= before.push(char_views(pieces@).last()));
            assert(char_views(pieces@).push(cur@) =~= split_on(text@.take(i + 1), sep));
        } else {
            cur.push(c);
            assert(char_views(pieces@).push(cur@) =~= split_on(text@.take(i + 1), sep));
        }
        i = i + 1;
    }
    assert(text@.take(text@.len() as int) =~= text@);
    pieces.push(cur);
    assert(char_views(pieces@) =~= split_on(text@, sep));
    pieces
}

/// The text before the first `c`, as `str::split(c).next()` gives it: the
/// whole text when it holds no `c`.
pub open spec fn before_char(t: Seq<char>, c: char) -> Seq<char> {
    split_on(t, c)[0]
}

/// The characters before the first `c`.
pub fn chars_before(text: &Vec<char>, c: char) -> (r: Vec<char>)
    ensures
        r@ == before_char(text@, c),
{
    proof {
        lemma_split_on_nonempty(text@, c);
    }
    let mut pieces = split_chars(text, c);
    assert(char_views(pieces@)[0] == pieces@[0]@);
    pieces.swap_remove(0)
}

/// `pat` occurs in `t` starting at `i`.
pub open spec fn occurs_at(t: Seq<char>, pat: Seq<char>, i: int) -> bool {
    0 <= i && i + pat.len() <= t.len() && t.subrange(i, i + pat.len()) == pat
}

/// The first position at or after `from` where `pat` occurs in `t`.
pub open spec fn find_from(t: Seq<char>, pat: Seq<char>, from: int) -> Option<int>
    decreases t.len() + 1 - from,
{
    if from < 0 || from + pat.len() > t.len() {
        None
    } else if occurs_at(t, pat, from) {
        Some(from)
    } else {
        find_from(t, pat, from + 1)
    }
}

/// Whether `pat` occurs in `text` at `i`.
fn occurs_in_at(text: &Vec<char>, pat: &Vec<char>, i: usize) -> (r: bool)
    requires
        i + pat@.len() <= text@.len(),
    ensures
        r == occurs_at(text@, pat@, i as int),
{
    let mut k: usize = 0;
    let n = text.len();
    while k < pat.len()
        invariant
            n == text@.len(),
            i + pat@.len() <= text@.len(),
            k <= pat@.len(),
            forall|j: int| 0 <= j < k ==> text@[i + j] == pat@[j],
        decreases pat@.len() - k,
    {
        if text[i + k] != pat[k] {
            assert(text@.subrange(i as int, i + pat@.len())[k as int] != pat@[k as int]);
            return false;
        }
        k = k + 1;
    }
    assert(text@.subrange(i as int, i + pat@.len()) =~= pat@);
    true
}

/// The first position at or after `from` where `pat` occurs in `text`.
pub fn find_in(text: &Vec<char>, pat: &Vec<char>, from: usize) -> (r: Option<usize>)
    ensures
        match r {
            Some(i) => find_from(text@, pat@, from as int) == Some(i as int),
            None => find_from(text@, pat@, from as int) is None,
        },
{
    if pat.len() > text.len() {
        return None;
    }
    let last = text.len() - pat.len();
    let mut i = from;
    while i <= last
        invariant
            last == text@.len() - pat@.len(),
            from <= i,
            find_from(text@, pat@, from as int) == find_from(text@, pat@, i as int),
        decreases last + 1 - i,
    {
        if occurs_in_at(text, pat, i) {
            return Some(i);
        }
        if i == last {
            assert(find_from(text@, pat@, i + 1) is None);
            assert(find_from(text@, pat@, i as int) is None);
            return None;
        }
        i = i + 1;
    }
    None
}

/// The piece of `t` that `str::split(pat).nth(1)` gives: what lies between
/// the first occurrence of `pat` and the next one (or the end), and nothing
/// when `pat` does not occur.
pub open spec fn second_piece(t: Seq<char>, pat: Seq<char>) -> Option<Seq<char>> {
    match find_from(t, pat, 0) {
        None => None,
        Some(i) => {
            let rest = t.skip(i + pat.len());
            match find_from(rest, pat, 0) {
                None => Some(rest),
                Some(j) => Some(rest.take(j)),
            }
        },
    }
}

/// The characters from `start` to the end.
fn chars_from(text: &Vec<char>, start: usize) -> (r: Vec<char>)
    requires
        start <= text@.len(),
    ensures
        r@ == text@.skip(start as int),
{
    let mut r: Vec<char> = Vec::new();
    let mut i = start;
    while i < text.len()
        invariant
            start <= i <= text@.len(),
            r@ == text@.subrange(start as int, i as int),
        decreases text@.len() - i,
    {
        r.push(text[i]);
        i = i + 1;
    }
    r
}

/// The first `n` characters.
fn chars_take(text: &Vec<char>, n: usize) -> (r: Vec<char>)
    requires
        n <= text@.len(),
    ensures
        r@ == text@.take(n as int),
{
    let mut r: Vec<char> = Vec::new();
    let mut i: usize = 0;
    while i < n
        invariant
            i <= n <= text@.len(),
            r@ == text@.take(i as int),
        decreases n - i,
    {
        r.push(text[i]);
        i = i + 1;
    }
    r
}

/// The piece after the first occurrence of a non-empty `pat`, up to the
/// next one.
pub fn piece_after(text: &Vec<char>, pat: &Vec<char>) -> (r: Option<Vec<char>>)
    requires
        pat@.len() > 0,
    ensures
        match r {
            Some(v) => second_piece(text@, pat@) == Some(v@),
            None => second_piece(text@, pat@) is None,
        },
{
    match find_in(text, pat, 0) {
        None => None,
        Some(i) => {
            proof {
                lemma_find_bounds(text@, pat@, 0);
                assert(text@.len() == text.len());
            }
            let rest = chars_from(text, i + pat.len());
            match find_in(&rest, pat, 0) {
                None => Some(rest),
                Some(j) => {
                    proof {
                        lemma_find_bounds(rest@, pat@, 0);
                    }
                    Some(chars_take(&rest, j))
                },
            }
        },
    }
}

/// A position `find_from` gives leaves room for the pattern.
pub proof fn lemma_find_bounds(t: Seq<char>, pat: Seq<char>, from: int)
    ensures
        find_from(t, pat, from) matches Some(i) ==> from <= i && i + pat.len() <= t.len()
            && occurs_at(t, pat, i),
    decreases t.len() + 1 - from,
{
    if !(from < 0 || from + pat.len() > t.len()) && !occurs_at(t, pat, from) {
        lemma_find_bounds(t, pat, from + 1);
    }
}

/// White space as `char::is_whitespace` defines it: the characters with the
/// Unicode `White_Space` property.
pub open spec fn is_white(c: char) -> bool {
    ||| '\t' <= c <= '\r'
    ||| c == ' '
    ||| c == '\u{85}'
    ||| c == '\u{a0}'
    ||| c == '\u{1680}'
    ||| '\u{2000}' <= c <= '\u{200a}'
    ||| c == '\u{2028}'
    ||| c == '\u{2029}'
    ||| c == '\u{202f}'
    ||| c == '\u{205f}'
    ||| c == '\u{3000}'
}

/// Whether a character is white space.
pub fn white(c: char) -> (r: bool)
    ensures
        r == is_white(c),
{
    ('\t' <= c && c <= '\r') || c == ' ' || c == '\u{85}' || c == '\u{a0}' || c == '\u{1680}'
        || ('\u{2000}' <= c && c <= '\u{200a}') || c == '\u{2028}' || c == '\u{2029}' || c
        == '\u{202f}' || c == '\u{205f}' || c == '\u{3000}'
}

/// `t` without its leading white space.
pub open spec fn trim_start(t: Seq<char>) -> Seq<char>
    decreases t.len(),
{
    if t.len() > 0 && is_white(t[0]) {
        trim_start(t.drop_first())
    } else {
        t
    }
}

/// `t` without its trailing white space.
pub open spec fn trim_end(t: Seq<char>) -> Seq<char>
    decreases t.len(),
{
    if t.len() > 0 && is_white(t.last()) {
        trim_end(t.drop_last())
    } else {
        t
    }
}

/// `t` without white space at either end, as `str::trim` gives it.
pub open spec fn trim(t: Seq<char>) -> Seq<char> {
    trim_end(trim_start(t))
}

/// The characters without white space at either end.
pub fn trimmed(text: &Vec<char>) -> (r: Vec<char>)
    ensures
        r@ == trim(text@),
{
    let mut start: usize = 0;
    assert(text@.skip(0) =~= text@);
    while start < text.len() && white(text[start])
        invariant
            start <= text@.len(),
            trim_start(text@) == trim_start(text@.skip(start as int)),
        decreases text@.len() - start,
    {
        assert(text@.skip(start as int).drop_first() =~= text@.skip(start + 1));
        start = start + 1;
    }
    let rest = chars_from(text, start);
    assert(trim_start(text@) == rest@);
    let mut end = rest.len();
    assert(rest@.take(end as int) =~= rest@);
    while end > 0 && white(rest[end - 1])
        invariant
            end <= rest@.len(),
            trim_end(rest@) == trim_end(rest@.take(end as int)),
        decreases end,
    {
        assert(rest@.take(end as int).drop_last() =~= rest@.take(end - 1));
        end = end - 1;
    }
    chars_take(&rest, end)
}

/// `t` without `prefix` when it starts with it, as `str::strip_prefix`.
pub open spec fn strip_prefix(t: Seq<char>, prefix: Seq<char>) -> Option<Seq<char>> {
    if prefix.len() <= t.len() && t.take(prefix.len() as int) == prefix {
        Some(t.skip(prefix.len() as int))
    } else {
        None
    }
}

/// The characters after `prefix`, when they start with it.
pub fn without_prefix(text: &Vec<char>, prefix: &Vec<char>) -> (r: Option<Vec<char>>)
    ensures
        match r {
            Some(v) => strip_prefix(text@, prefix@) == Some(v@),
            None => strip_prefix(text@, prefix@) is None,
        },
{
    if prefix.len() > text.len() {
        return None;
    }
    if occurs_in_at(text, prefix, 0) {
        assert(text@.subrange(0, prefix@.len() as int) =~= text@.take(prefix@.len() as int));
        Some(chars_from(text, prefix.len()))
    } else {
        assert(text@.subrange(0, prefix@.len() as int) =~= text@.take(prefix@.len() as int));
        None
    }
}

/// `a` followed by `b`.
pub fn concat(a: &str, b: &str) -> (r: String)
    ensures
        r@ == a@ + b@,
{
    let mut s = String::from_str(a);
    s.append(b);
    s
}

/// `a`, then `b`, then `c`.
pub fn concat3(a: &str, b: &str, c: &str) -> (r: String)
    ensures
        r@ == a@ + b@ + c@,
{
    let ab = concat(a, b);
    concat(ab.as_str(), c)
}

/// The characters without trailing white space, as `str::trim_end`.
pub fn trimmed_end(text: &Vec<char>) -> (r: Vec<char>)
    ensures
        r@ == trim_end(text@),
{
    let mut end = text.len();
    assert(text@.take(end as int) =~= text@);
    while end > 0 && white(text[end - 1])
        invariant
            end <= text@.len(),
            trim_end(text@) == trim_end(text@.take(end as int)),
        decreases end,
    {
        assert(text@.take(end as int).drop_last() =~= text@.take(end - 1));
        end = end - 1;
    }
    chars_take(text, end)
}

/// Whether two texts hold the same characters.
pub fn same_text(a: &str, b: &str) -> (r: bool)
    ensures
        r == (a@ == b@),
{
    let n = a.unicode_len();
    if n != b.unicode_len() {
        return false;
    }
    let mut i: usize = 0;
    while i < n
        invariant
            n == a@.len(),
            n == b@.len(),
            i <= n,
            forall|j: int| 0 <= j < i ==> a@[j] == b@[j],
        decreases n - i,
    {
        if a.get_char(i) != b.get_char(i) {
            return false;
        }
        i = i + 1;
    }
    assert(a@ =~= b@);
    true
}

/// Pieces joined back together with `sep` between each two.
pub open spec fn joined(pieces: Seq<Seq<char>>, sep: char) -> Seq<char>
    decreases pieces.len(),
{
    if pieces.len() == 0 {
        Seq::empty()
    } else if pieces.len() == 1 {
        pieces[0]
    } else {
        joined(pieces.drop_last(), sep).push(sep) + pieces.last()
    }
}

/// Cutting a text at `sep` loses nothing and cuts at every `sep`: no piece
/// holds `sep`, and the pieces joined with `sep` between them give the text
/// back.
pub proof fn law_split_then_join(t: Seq<char>, sep: char)
    ensures
        joined(split_on(t, sep), sep) == t,
        forall|i: int| 0 <= i < split_on(t, sep).len() ==> !(#[trigger] split_on(t, sep)[i]).contains(sep),
    decreases t.len(),
{
    lemma_split_on_nonempty(t, sep);
    if t.len() == 0 {
        assert(split_on(t, sep)[0] =~= Seq::<char>::empty());
        assert(t =~= Seq::<char>::empty());
    } else {
        let init = t.drop_last();
        let c = t.last();
        let prev = split_on(init, sep);
        law_split_then_join(init, sep);
        lemma_split_on_nonempty(init, sep);
        let n = prev.len();
        if c == sep {
            let ps = prev.push(Seq::<char>::empty());
            assert(ps.drop_last() =~= prev);
            assert(joined(ps, sep) =~= t);
            assert forall|i: int| 0 <= i < ps.len() implies !(#[trigger] ps[i]).contains(sep) by {
                if i < n {
                    assert(ps[i] == prev[i]);
                }
            }
        } else {
            let last = prev.last().push(c);
            let ps = prev.update(n - 1, last);
            assert(!prev[n - 1].contains(sep));
            assert forall|i: int| 0 <= i < ps.len() implies !(#[trigger] ps[i]).contains(sep) by {
                if i < n - 1 {
                    assert(ps[i] == prev[i]);
                } else {
                    if last.contains(sep) {
                        let k = choose|k: int| 0 <= k < last.len() && last[k] == sep;
                        if k < last.len() - 1 {
                            assert(prev[n - 1][k] == sep);
                        }
                    }
                }
            }
            if n == 1 {
                assert(joined(ps, sep) == last);
                assert(joined(prev, sep) == prev[0]);
                assert(last =~= t);
            } else {
                assert(ps.drop_last() =~= prev.drop_last());
                assert(joined(ps, sep) == joined(prev.drop_last(), sep).push(sep) + last);
                assert(joined(prev, sep) == joined(prev.drop_last(), sep).push(sep) + prev.last());
                assert(joined(ps, sep) =~= joined(prev, sep).push(c));
                assert(init.push(c) =~= t);
            }
        }
    }
}

/// The position found is the first one at or after `from` where the
/// pattern occurs, and none is found exactly when it occurs nowhere from
/// there on.
pub proof fn law_find_first(t: Seq<char>, pat: Seq<char>, from: int)
    requires
        from >= 0,
    ensures
        find_from(t, pat, from) matches Some(i) ==> from <= i && occurs_at(t, pat, i) && forall|k: int|
            from <= k < i ==> !occurs_at(t, pat, k),
        find_from(t, pat, from) is None ==> forall|k: int| from <= k ==> !occurs_at(t, pat, k),
    decreases t.len() + 1 - from,
{
    lemma_find_bounds(t, pat, from);
    if !(from < 0 || from + pat.len() > t.len()) && !occurs_at(t, pat, from) {
        law_find_first(t, pat, from + 1);
    }
}

/// Trimming drops white space at both ends and nothing else: what is left
/// is a stretch of the text, everything before and after it is white
/// space, and it neither starts nor ends with white space.
pub proof fn law_trim_drops_only_white_ends(t: Seq<char>)
    ensures
        exists|a: int, b: int|
            0 <= a <= b <= t.len() && trim(t) == t.subrange(a, b) && (forall|k: int|
                0 <= k < a ==> is_white(#[trigger] t[k])) && (forall|k: int| b <= k < t.len() ==> is_white(
                #[trigger] t[k],
            )),
        trim(t).len() > 0 ==> !is_white(trim(t)[0]) && !is_white(trim(t).last()),
{
    lemma_trim_start_shape(t);
    let s = trim_start(t);
    let a = t.len() - s.len();
    lemma_trim_end_shape(s);
    let b = a + trim_end(s).len();
    assert(trim(t) =~= t.subrange(a, b));
    assert forall|k: int| b <= k < t.len() implies is_white(#[trigger] t[k]) by {
        assert(t[k] == s[k - a]);
    }
    if trim(t).len() > 0 {
        assert(trim(t)[0] == s[0]);
    }
}

proof fn lemma_trim_start_shape(t: Seq<char>)
    ensures
        trim_start(t).len() <= t.len(),
        trim_start(t) == t.skip(t.len() - trim_start(t).len()),
        forall|k: int| 0 <= k < t.len() - trim_start(t).len() ==> is_white(#[trigger] t[k]),
        trim_start(t).len() > 0 ==> !is_white(trim_start(t)[0]),
    decreases t.len(),
{
    if t.len() > 0 && is_white(t[0]) {
        let d = t.drop_first();
        lemma_trim_start_shape(d);
        assert(d.skip(d.len() - trim_start(d).len()) =~= t.skip(t.len() - trim_start(d).len()));
        assert forall|k: int| 0 <= k < t.len() - trim_start(t).len() implies is_white(#[trigger] t[k]) by {
            if k > 0 {
                assert(t[k] == d[k - 1]);
            }
        }
    } else {
        assert(t.skip(0) =~= t);
    }
}

proof fn lemma_trim_end_shape(t: Seq<char>)
    ensures
        trim_end(t).len() <= t.len(),
        trim_end(t) == t.take(trim_end(t).len() as int),
        forall|k: int| trim_end(t).len() <= k < t.len() ==> is_white(#[trigger] t[k]),
        trim_end(t).len() > 0 ==> !is_white(trim_end(t).last()),
    decreases t.len(),
{
    if t.len() > 0 && is_white(t.last()) {
        let d = t.drop_last();
        lemma_trim_end_shape(d);
        assert(d.take(trim_end(d).len() as int) =~= t.take(trim_end(d).len() as int));
        assert forall|k: int| trim_end(t).len() <= k < t.len() implies is_white(#[trigger] t[k]) by {
            if k < t.len() - 1 {
                assert(t[k] == d[k]);
            }
        }
    } else {
        assert(t.take(t.len() as int) =~= t);
    }
}

} // verus!
