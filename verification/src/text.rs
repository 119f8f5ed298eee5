//! Character-level text operations used by the runtime, each proved against
//! a spec function over `Seq<char>`.
use vstd::prelude::*;

verus! {

broadcast use vstd::string::group_string_axioms;

// ---------------------------------------------------------------------------
// Specifications
// ---------------------------------------------------------------------------

/// `needle` occurs in `hay` starting at position `i`.
pub open spec fn occurs_at(hay: Seq<char>, needle: Seq<char>, i: int) -> bool {
    &&& 0 <= i
    &&& i + needle.len() <= hay.len()
    &&& hay.subrange(i, i + needle.len()) == needle
}

/// `needle` is a substring of `hay` (as `str::contains` with a string pattern).
pub open spec fn contains(hay: Seq<char>, needle: Seq<char>) -> bool {
    exists|i: int| occurs_at(hay, needle, i)
}

/// The pieces of `s` between occurrences of `sep`, as `str::split` with a
/// one-character pattern yields them: one more piece than there are separators.
pub open spec fn split_on(s: Seq<char>, sep: char) -> Seq<Seq<char>>
    decreases s.len(),
{
    if s.len() == 0 {
        seq![Seq::<char>::empty()]
    } else {
        let pieces = split_on(s.drop_last(), sep);
        if s.last() == sep {
            pieces.push(Seq::<char>::empty())
        } else {
            pieces.update(pieces.len() - 1, pieces.last().push(s.last()))
        }
    }
}

/// Unicode `White_Space`, the property by which `char::is_whitespace` is defined.
pub open spec fn is_white_space(c: char) -> bool {
    let u = c as u32;
    ||| 0x09 <= u <= 0x0D
    ||| u == 0x20
    ||| u == 0x85
    ||| u == 0xA0
    ||| u == 0x1680
    ||| 0x2000 <= u <= 0x200A
    ||| u == 0x2028
    ||| u == 0x2029
    ||| u == 0x202F
    ||| u == 0x205F
    ||| u == 0x3000
}

/// The pieces of `s` between single white-space characters (empty pieces kept).
pub open spec fn split_on_white_space(s: Seq<char>) -> Seq<Seq<char>>
    decreases s.len(),
{
    if s.len() == 0 {
        seq![Seq::<char>::empty()]
    } else {
        let pieces = split_on_white_space(s.drop_last());
        if is_white_space(s.last()) {
            pieces.push(Seq::<char>::empty())
        } else {
            pieces.update(pieces.len() - 1, pieces.last().push(s.last()))
        }
    }
}

/// The texts held by a sequence of character vectors.
pub open spec fn views(v: Seq<Vec<char>>) -> Seq<Seq<char>> {
    v.map_values(|p: Vec<char>| p@)
}

/// The pieces of `ps` that hold at least one character, in order.
pub open spec fn non_empty_pieces(ps: Seq<Seq<char>>) -> Seq<Seq<char>>
    decreases ps.len(),
{
    if ps.len() == 0 {
        ps
    } else if ps.last().len() > 0 {
        non_empty_pieces(ps.drop_last()).push(ps.last())
    } else {
        non_empty_pieces(ps.drop_last())
    }
}

/// The words of `s`, as `str::split_whitespace` yields them: the non-empty
/// pieces between white space.
pub open spec fn words(s: Seq<char>) -> Seq<Seq<char>> {
    non_empty_pieces(split_on_white_space(s))
}

/// `s` with every occurrence of `c` taken out (as `str::replace(c, "")`).
pub open spec fn remove_char(s: Seq<char>, c: char) -> Seq<char>
    decreases s.len(),
{
    if s.len() == 0 {
        s
    } else if s.last() == c {
        remove_char(s.drop_last(), c)
    } else {
        remove_char(s.drop_last(), c).push(s.last())
    }
}

/// The separators of `s` joined back with their pieces: `pieces[0] + sep + pieces[1] + ...`.
pub open spec fn join_with(pieces: Seq<Seq<char>>, sep: char) -> Seq<char>
    decreases pieces.len(),
{
    if pieces.len() == 0 {
        Seq::empty()
    } else if pieces.len() == 1 {
        pieces[0]
    } else {
        join_with(pieces.drop_last(), sep).push(sep) + pieces.last()
    }
}

// ---------------------------------------------------------------------------
// Lemmas
// ---------------------------------------------------------------------------

/// Splitting always yields at least one piece.
pub proof fn lemma_split_on_len(s: Seq<char>, sep: char)
    ensures
        split_on(s, sep).len() >= 1,
    decreases s.len(),
{
    if s.len() > 0 {
        lemma_split_on_len(s.drop_last(), sep);
    }
}

/// Splitting on white space always yields at least one piece.
pub proof fn lemma_split_on_white_space_len(s: Seq<char>)
    ensures
        split_on_white_space(s).len() >= 1,
    decreases s.len(),
{
    if s.len() > 0 {
        lemma_split_on_white_space_len(s.drop_last());
    }
}

/// No piece of a split holds the separator.
pub proof fn lemma_split_on_pieces_free_of_sep(s: Seq<char>, sep: char)
    ensures
        forall|k: int|
            0 <= k < split_on(s, sep).len() ==> !(#[trigger] split_on(s, sep)[k]).contains(sep),
    decreases s.len(),
{
    lemma_split_on_len(s, sep);
    if s.len() > 0 {
        let p = split_on(s.drop_last(), sep);
        lemma_split_on_pieces_free_of_sep(s.drop_last(), sep);
        lemma_split_on_len(s.drop_last(), sep);
        if s.last() != sep {
            let q = split_on(s, sep);
            assert forall|k: int| 0 <= k < q.len() implies !(#[trigger] q[k]).contains(sep) by {
                if k == q.len() - 1 {
                    let w = p.last().push(s.last());
                    assert(q[k] == w);
                    if w.contains(sep) {
                        let j = choose|j: int| 0 <= j < w.len() && w[j] == sep;
                        if j < w.len() - 1 {
                            assert(p.last()[j] == sep);
                            assert(p[p.len() - 1].contains(sep));
                        }
                    }
                } else {
                    assert(q[k] == p[k]);
                }
            }
        }
    }
}

/// Joining the pieces of a split with the separator gives back the text.
pub proof fn lemma_split_on_join(s: Seq<char>, sep: char)
    ensures
        join_with(split_on(s, sep), sep) == s,
    decreases s.len(),
{
    if s.len() > 0 {
        let t = s.drop_last();
        let p = split_on(t, sep);
        lemma_split_on_join(t, sep);
        lemma_split_on_len(t, sep);
        if s.last() == sep {
            let q = p.push(Seq::<char>::empty());
            assert(q.drop_last() == p);
            assert(join_with(q, sep) == join_with(p, sep).push(sep) + Seq::<char>::empty());
            assert(s == t.push(sep));
        } else {
            let q = p.update(p.len() - 1, p.last().push(s.last()));
            if p.len() == 1 {
                assert(join_with(q, sep) == q[0]);
                assert(p[0] == join_with(p, sep));
                assert(s == t.push(s.last()));
            } else {
                assert(q.drop_last() == p.drop_last());
                assert(join_with(q, sep) == join_with(p.drop_last(), sep).push(sep) + p.last().push(
                    s.last(),
                ));
                assert(join_with(p, sep) == join_with(p.drop_last(), sep).push(sep) + p.last());
                assert(s == t.push(s.last()));
                assert((join_with(p.drop_last(), sep).push(sep) + p.last()).push(s.last())
                    == join_with(p.drop_last(), sep).push(sep) + p.last().push(s.last()));
            }
        }
    }
}

/// Taking a character out leaves no occurrence of it.
pub proof fn lemma_remove_char_free(s: Seq<char>, c: char)
    ensures
        !remove_char(s, c).contains(c),
    decreases s.len(),
{
    if s.len() > 0 {
        lemma_remove_char_free(s.drop_last(), c);
        let r = remove_char(s.drop_last(), c);
        if s.last() != c {
            if r.push(s.last()).contains(c) {
                let j = choose|j: int| 0 <= j < r.push(s.last()).len() && r.push(s.last())[j] == c;
                assert(r[j] == c);
            }
        }
    }
}

/// Taking out a character that does not occur changes nothing.
pub proof fn lemma_remove_char_absent(s: Seq<char>, c: char)
    requires
        !s.contains(c),
    ensures
        remove_char(s, c) == s,
    decreases s.len(),
{
    if s.len() > 0 {
        let t = s.drop_last();
        if t.contains(c) {
            let j = choose|j: int| 0 <= j < t.len() && t[j] == c;
            assert(s[j] == c);
        }
        assert(s.last() == s[s.len() - 1]);
        lemma_remove_char_absent(t, c);
        assert(s == t.push(s.last()));
    }
}

/// No piece of a split on white space holds white space.
pub proof fn lemma_split_on_white_space_pieces(s: Seq<char>)
    ensures
        forall|k: int, j: int|
            0 <= k < split_on_white_space(s).len() && 0 <= j < split_on_white_space(s)[k].len()
                ==> !is_white_space(#[trigger] split_on_white_space(s)[k][j]),
    decreases s.len(),
{
    lemma_split_on_white_space_len(s);
    if s.len() > 0 {
        let t = s.drop_last();
        let p = split_on_white_space(t);
        lemma_split_on_white_space_pieces(t);
        lemma_split_on_white_space_len(t);
        let q = split_on_white_space(s);
        assert forall|k: int, j: int| 0 <= k < q.len() && 0 <= j < q[k].len() implies !is_white_space(
            #[trigger] q[k][j],
        ) by {
            if !is_white_space(s.last()) && k == q.len() - 1 {
                let w = p.last().push(s.last());
                assert(q[k] == w);
                if j < w.len() - 1 {
                    assert(w[j] == p[p.len() - 1][j]);
                }
            } else if k < p.len() {
                assert(q[k] == p[k]);
            }
        }
    }
}

/// The non-empty pieces are non-empty, and each is one of the pieces.
pub proof fn lemma_non_empty_pieces(ps: Seq<Seq<char>>)
    ensures
        forall|k: int|
            0 <= k < non_empty_pieces(ps).len() ==> (#[trigger] non_empty_pieces(ps)[k]).len() > 0
                && ps.contains(non_empty_pieces(ps)[k]),
        non_empty_pieces(ps).len() <= ps.len(),
    decreases ps.len(),
{
    if ps.len() > 0 {
        let t = ps.drop_last();
        lemma_non_empty_pieces(t);
        let r = non_empty_pieces(ps);
        assert forall|k: int| 0 <= k < r.len() implies (#[trigger] r[k]).len() > 0 && ps.contains(
            r[k],
        ) by {
            if k < non_empty_pieces(t).len() {
                assert(r[k] == non_empty_pieces(t)[k]);
                let m = choose|m: int| 0 <= m < t.len() && t[m] == r[k];
                assert(ps[m] == t[m]);
            } else {
                assert(r[k] == ps.last());
                assert(ps[ps.len() - 1] == ps.last());
            }
        }
    }
}

/// Every word is non-empty and free of white space.
pub proof fn lemma_words_clean(s: Seq<char>)
    ensures
        forall|k: int| 0 <= k < words(s).len() ==> (#[trigger] words(s)[k]).len() > 0,
        forall|k: int, j: int|
            0 <= k < words(s).len() && 0 <= j < words(s)[k].len() ==> !is_white_space(
                #[trigger] words(s)[k][j],
            ),
{
    let ps = split_on_white_space(s);
    lemma_non_empty_pieces(ps);
    lemma_split_on_white_space_pieces(s);
    assert forall|k: int, j: int|
        0 <= k < words(s).len() && 0 <= j < words(s)[k].len() implies !is_white_space(
        #[trigger] words(s)[k][j],
    ) by {
        let m = choose|m: int| 0 <= m < ps.len() && ps[m] == words(s)[k];
        assert(ps[m][j] == words(s)[k][j]);
    }
}

/// Taking a character out twice is taking it out once.
pub proof fn lemma_remove_char_idempotent(s: Seq<char>, c: char)
    ensures
        remove_char(remove_char(s, c), c) == remove_char(s, c),
{
    lemma_remove_char_free(s, c);
    lemma_remove_char_absent(remove_char(s, c), c);
}

/// A text without the separator splits into itself alone.
pub proof fn lemma_split_on_without_sep(s: Seq<char>, sep: char)
    requires
        !s.contains(sep),
    ensures
        split_on(s, sep) == seq![s],
    decreases s.len(),
{
    if s.len() > 0 {
        let t = s.drop_last();
        if t.contains(sep) {
            let j = choose|j: int| 0 <= j < t.len() && t[j] == sep;
            assert(s[j] == sep);
        }
        assert(s.last() == s[s.len() - 1]);
        lemma_split_on_without_sep(t, sep);
        assert(s == t.push(s.last()));
        assert(s.last() != sep);
        let p = split_on(t, sep);
        assert(p.last() == t);
        assert(p == seq![t]);
        assert(split_on(s, sep) == p.update(0, t.push(s.last())));
        assert(p.update(0, s).len() == 1);
        assert(p.update(0, s)[0] == s);
        assert(p.update(0, s) =~= seq![s]);
    } else {
        assert(s =~= Seq::<char>::empty());
    }
}

/// Where a text holds the separator, the first piece is everything before its
/// first occurrence, and the second piece runs from there to the next
/// occurrence or to the end of the text (the end exactly when there are only
/// two pieces).
pub proof fn lemma_split_front(s: Seq<char>, sep: char)
    requires
        split_on(s, sep).len() >= 2,
    ensures
        ({
            let q = split_on(s, sep);
            let a = q[0].len() as int;
            let e = a + 1 + q[1].len();
            &&& a < s.len()
            &&& s.take(a) == q[0]
            &&& s[a] == sep
            &&& e <= s.len()
            &&& s.subrange(a + 1, e) == q[1]
            &&& q.len() == 2 ==> e == s.len()
            &&& q.len() > 2 ==> e < s.len() && s[e] == sep
        }),
    decreases s.len(),
{
    let t = s.drop_last();
    let p = split_on(t, sep);
    lemma_split_on_len(t, sep);
    let q = split_on(s, sep);
    let c = s.last();
    assert(s == t.push(c));
    if c == sep {
        assert(q == p.push(Seq::<char>::empty()));
        if p.len() >= 2 {
            lemma_split_front(t, sep);
            assert(q[0] == p[0]);
            assert(q[1] == p[1]);
            let a = p[0].len() as int;
            let e = a + 1 + p[1].len();
            assert(s.take(a) =~= t.take(a));
            assert(s.subrange(a + 1, e) =~= t.subrange(a + 1, e));
            assert(s[a] == t[a]);
            if e < t.len() {
                assert(s[e] == t[e]);
            }
        } else {
            lemma_split_on_join(t, sep);
            assert(join_with(p, sep) == p[0]);
            assert(q[0] == t);
            assert(q[1] == Seq::<char>::empty());
            assert(s.take(t.len() as int) =~= t);
            assert(s.subrange(t.len() as int + 1, t.len() as int + 1) =~= Seq::<char>::empty());
        }
    } else {
        assert(q == p.update(p.len() - 1, p.last().push(c)));
        assert(p.len() == q.len());
        lemma_split_front(t, sep);
        let a = p[0].len() as int;
        assert(q[0] == p[0]);
        assert(s.take(a) =~= t.take(a));
        assert(s[a] == t[a]);
        if p.len() == 2 {
            assert(q[1] == p[1].push(c));
            let e = a + 1 + p[1].len();
            assert(e == t.len());
            assert(s.subrange(a + 1, e + 1) =~= t.subrange(a + 1, e).push(c));
        } else {
            assert(q[1] == p[1]);
            let e = a + 1 + p[1].len();
            assert(s.subrange(a + 1, e) =~= t.subrange(a + 1, e));
            assert(s[e] == t[e]);
        }
    }
}

// ---------------------------------------------------------------------------
// Executable operations
// ---------------------------------------------------------------------------

/// `String::push` from std: appends one character at the end.
#[verifier::external_body]
fn push_char(s: &mut String, c: char)
    ensures
        final(s)@ == old(s)@.push(c),
{
    s.push(c);
}

/// The characters of `s`, in order.
pub fn to_chars(s: &str) -> (v: Vec<char>)
    ensures
        v@ == s@,
{
    let mut v: Vec<char> = Vec::new();
    for c in it: s.chars()
        invariant
            it.seq() == s@,
            v@ == it.seq().take(it.index() as int),
    {
        v.push(c);
    }
    v
}

/// A string made of the characters `v`.
pub fn from_chars(v: &Vec<char>) -> (s: String)
    ensures
        s@ == v@,
{
    let mut s = String::new();
    let n = v.len();
    for i in 0..n
        invariant
            n == v@.len(),
            s@ == v@.take(i as int),
    {
        push_char(&mut s, v[i]);
        assert(v@.take(i + 1) == v@.take(i as int).push(v@[i as int]));
    }
    assert(v@.take(n as int) == v@);
    s
}

/// Whether the two texts are the same.
pub fn same_text(a: &str, b: &str) -> (r: bool)
    ensures
        r == (a@ == b@),
{
    let x = to_chars(a);
    let y = to_chars(b);
    if x.len() != y.len() {
        return false;
    }
    let n = x.len();
    for i in 0..n
        invariant
            n == x@.len(),
            n == y@.len(),
            x@ == a@,
            y@ == b@,
            forall|j: int| 0 <= j < i ==> x@[j] == y@[j],
    {
        if x[i] != y[i] {
            assert(x@[i as int] != y@[i as int]);
            return false;
        }
    }
    assert(x@ =~= y@);
    true
}

/// Whether `needle` occurs in `hay` at position `i`.
fn occurs_at_exec(hay: &Vec<char>, needle: &Vec<char>, i: usize) -> (r: bool)
    requires
        i + needle@.len() <= hay@.len(),
    ensures
        r == occurs_at(hay@, needle@, i as int),
{
    let n = needle.len();
    for k in 0..n
        invariant
            n == needle@.len(),
            i + n <= hay.len(),
            forall|j: int| 0 <= j < k ==> hay@[i + j] == needle@[j],
    {
        assert(i + k < hay@.len());
        if hay[i + k] != needle[k] {
            assert(hay@.subrange(i as int, i + n)[k as int] != needle@[k as int]);
            return false;
        }
    }
    assert(hay@.subrange(i as int, i + n) =~= needle@);
    true
}

/// Whether `needle` is a substring of `hay`.
pub fn contains_chars(hay: &Vec<char>, needle: &Vec<char>) -> (r: bool)
    ensures
        r == contains(hay@, needle@),
{
    if needle.len() > hay.len() {
        return false;
    }
    let last = hay.len() - needle.len();
    for i in 0..last
        invariant
            last + needle@.len() == hay@.len(),
            forall|j: int| 0 <= j < i ==> !occurs_at(hay@, needle@, j),
    {
        if occurs_at_exec(hay, needle, i) {
            return true;
        }
    }
    let found = occurs_at_exec(hay, needle, last);
    assert forall|j: int| j != last implies !occurs_at(hay@, needle@, j) by {
        if 0 <= j && j + needle@.len() <= hay@.len() {
            assert(j < last);
        }
    }
    found
}

/// Whether `needle` is a substring of `hay` (as `str::contains`).
pub fn contains_text(hay: &str, needle: &str) -> (r: bool)
    ensures
        r == contains(hay@, needle@),
{
    let h = to_chars(hay);
    let n = to_chars(needle);
    contains_chars(&h, &n)
}

/// The pieces of `s` between occurrences of `sep` (as `str::split`).
pub fn split_chars(s: &Vec<char>, sep: char) -> (r: Vec<Vec<char>>)
    ensures
        views(r@) == split_on(s@, sep),
{
    let mut done: Vec<Vec<char>> = Vec::new();
    let mut cur: Vec<char> = Vec::new();
    let n = s.len();
    assert(s@.take(0) =~= Seq::<char>::empty());
    for i in 0..n
        invariant
            n == s@.len(),
            views(done@).push(cur@) == split_on(s@.take(i as int), sep),
    {
        let ghost t = s@.take(i + 1);
        assert(t.drop_last() == s@.take(i as int));
        assert(t.last() == s@[i as int]);
        proof {
            lemma_split_on_len(s@.take(i as int), sep);
        }
        let c = s[i];
        if c == sep {
            let piece = cur;
            done.push(piece);
            cur = Vec::new();
            assert(views(done@) =~= split_on(s@.take(i as int), sep));
        } else {
            let ghost before = views(done@);
            cur.push(c);
            assert(views(done@) == before);
            assert(views(done@).push(cur@) =~= split_on(t, sep));
        }
    }
    assert(s@.take(n as int) == s@);
    let ghost before = views(done@);
    done.push(cur);
    assert(views(done@) =~= before.push(cur@));
    done
}

/// The words of `s` (as `str::split_whitespace`).
pub fn split_white_space_chars(s: &Vec<char>) -> (r: Vec<Vec<char>>)
    ensures
        views(r@) == words(s@),
{
    let mut done: Vec<Vec<char>> = Vec::new();
    let mut cur: Vec<char> = Vec::new();
    let n = s.len();
    assert(s@.take(0) =~= Seq::<char>::empty());
    for i in 0..n
        invariant
            n == s@.len(),
            split_on_white_space(s@.take(i as int)).len() >= 1,
            cur@ == split_on_white_space(s@.take(i as int)).last(),
            views(done@) == non_empty_pieces(split_on_white_space(s@.take(i as int)).drop_last()),
    {
        let ghost t = s@.take(i + 1);
        let ghost p = split_on_white_space(s@.take(i as int));
        assert(t.drop_last() == s@.take(i as int));
        assert(t.last() == s@[i as int]);
        let c = s[i];
        if is_white_space_exec(c) {
            let ghost q = p.push(Seq::<char>::empty());
            assert(q.drop_last() == p);
            assert(p == p.drop_last().push(p.last()));
            if cur.len() > 0 {
                let piece = cur;
                done.push(piece);
                assert(views(done@) =~= non_empty_pieces(p));
            } else {
                assert(non_empty_pieces(p) == non_empty_pieces(p.drop_last()));
            }
            cur = Vec::new();
            assert(cur@ =~= q.last());
        } else {
            cur.push(c);
            let ghost q = p.update(p.len() - 1, p.last().push(c));
            assert(q.drop_last() =~= p.drop_last());
            assert(cur@ == q.last());
        }
    }
    assert(s@.take(n as int) == s@);
    let ghost p = split_on_white_space(s@);
    assert(p == p.drop_last().push(p.last()));
    if cur.len() > 0 {
        let ghost before = views(done@);
        done.push(cur);
        assert(views(done@) =~= before.push(p.last()));
    }
    done
}

/// Whether `c` is white space (as `char::is_whitespace`).
pub fn is_white_space_exec(c: char) -> (r: bool)
    ensures
        r == is_white_space(c),
{
    let u = c as u32;
    (0x09 <= u && u <= 0x0D) || u == 0x20 || u == 0x85 || u == 0xA0 || u == 0x1680 || (0x2000
        <= u && u <= 0x200A) || u == 0x2028 || u == 0x2029 || u == 0x202F || u == 0x205F || u
        == 0x3000
}

/// `s` with every occurrence of `c` taken out (as `str::replace(c, "")`).
pub fn remove_char_exec(s: &str, c: char) -> (r: String)
    ensures
        r@ == remove_char(s@, c),
{
    let v = to_chars(s);
    let mut out: Vec<char> = Vec::new();
    let n = v.len();
    assert(v@.take(0) =~= Seq::<char>::empty());
    for i in 0..n
        invariant
            n == v@.len(),
            out@ == remove_char(v@.take(i as int), c),
    {
        let ghost t = v@.take(i + 1);
        assert(t.drop_last() == v@.take(i as int));
        assert(t.last() == v@[i as int]);
        if v[i] != c {
            out.push(v[i]);
        }
    }
    assert(v@.take(n as int) == v@);
    from_chars(&out)
}

} // verus!
