//! Reading `KEY=value` entries from a container's environment the way the
//! runtime does: the first entry that mentions the key, and the text after its
//! first `=` up to the next one.
use crate::schema::texts;
use crate::text::{
    join_with, lemma_split_front, lemma_split_on_join, lemma_split_on_without_sep,
    contains, contains_text, from_chars, lemma_split_on_len, lemma_split_on_pieces_free_of_sep,
    split_chars, split_on, to_chars, views,
};
use vstd::prelude::*;

verus! {

/// What an environment says of a key, as a mathematical value.
pub enum EnvEntry {
    /// No entry mentions the key.
    Missing,
    /// The first entry that mentions the key has no `=`.
    Malformed,
    /// The first entry that mentions the key, cut at `=`, holds this as its second piece.
    Value(Seq<char>),
}

/// What an environment says of a key.
#[derive(Debug, Clone, PartialEq, Eq)]
pub enum EnvLookup {
    /// No entry mentions the key.
    Missing,
    /// The first entry that mentions the key has no `=`.
    Malformed,
    /// The text after the first `=` of the first entry that mentions the key,
    /// up to the next `=`.
    Value(String),
}

impl View for EnvLookup {
    type V = EnvEntry;

    open spec fn view(&self) -> EnvEntry {
        match self {
            EnvLookup::Missing => EnvEntry::Missing,
            EnvLookup::Malformed => EnvEntry::Malformed,
            EnvLookup::Value(v) => EnvEntry::Value(v@),
        }
    }
}

/// The position of the first entry of `envs` in which `key` occurs.
pub open spec fn first_containing(envs: Seq<Seq<char>>, key: Seq<char>) -> Option<int>
    decreases envs.len(),
{
    if envs.len() == 0 {
        None
    } else {
        match first_containing(envs.drop_last(), key) {
            Some(i) => Some(i),
            None => if contains(envs.last(), key) {
                Some(envs.len() - 1)
            } else {
                None
            },
        }
    }
}

/// What `envs` says of `key`: the first entry in which `key` occurs, split at
/// `=`, gives its second piece.
pub open spec fn env_entry(envs: Seq<Seq<char>>, key: Seq<char>) -> EnvEntry {
    match first_containing(envs, key) {
        None => EnvEntry::Missing,
        Some(i) => {
            let pieces = split_on(envs[i], '=');
            if pieces.len() >= 2 {
                EnvEntry::Value(pieces[1])
            } else {
                EnvEntry::Malformed
            }
        },
    }
}

/// The first entry that mentions the key is a real entry that mentions it, and
/// no earlier entry does.
pub proof fn lemma_first_containing(envs: Seq<Seq<char>>, key: Seq<char>)
    ensures
        first_containing(envs, key) matches Some(i) ==> 0 <= i < envs.len() && contains(
            envs[i],
            key,
        ) && forall|j: int| 0 <= j < i ==> !contains(#[trigger] envs[j], key),
        first_containing(envs, key) is None ==> forall|j: int|
            0 <= j < envs.len() ==> !contains(#[trigger] envs[j], key),
    decreases envs.len(),
{
    if envs.len() > 0 {
        let t = envs.drop_last();
        lemma_first_containing(t, key);
        assert forall|j: int| 0 <= j < t.len() implies #[trigger] t[j] == envs[j] by {}
        match first_containing(t, key) {
            Some(i) => {
                assert forall|j: int| 0 <= j < i implies !contains(#[trigger] envs[j], key) by {
                    assert(t[j] == envs[j]);
                }
                assert(envs[i] == t[i]);
            },
            None => {
                assert(envs.last() == envs[envs.len() - 1]);
                assert forall|j: int| 0 <= j < envs.len() - 1 implies !contains(
                    #[trigger] envs[j],
                    key,
                ) by {
                    assert(t[j] == envs[j]);
                }
            },
        }
    }
}

/// A prefix that already mentions the key decides the first such entry.
proof fn lemma_first_containing_prefix(envs: Seq<Seq<char>>, key: Seq<char>, k: int)
    requires
        0 <= k <= envs.len(),
        first_containing(envs.take(k), key) is Some,
    ensures
        first_containing(envs, key) == first_containing(envs.take(k), key),
    decreases envs.len() - k,
{
    if k < envs.len() {
        let t = envs.take(k + 1);
        assert(t.drop_last() == envs.take(k));
        lemma_first_containing_prefix(envs, key, k + 1);
    } else {
        assert(envs.take(k) == envs);
    }
}

/// What the environment `envs` says of `key`.
pub fn env_value(envs: &Vec<String>, key: &str) -> (r: EnvLookup)
    ensures
        r@ == env_entry(texts(envs@), key@),
{
    let ghost all = texts(envs@);
    let n = envs.len();
    assert(all.take(0) =~= Seq::<Seq<char>>::empty());
    for i in 0..n
        invariant
            n == envs@.len(),
            all == texts(envs@),
            first_containing(all.take(i as int), key@) is None,
    {
        let ghost t = all.take(i + 1);
        assert(t.drop_last() =~= all.take(i as int));
        assert(t.last() == envs@[i as int]@);
        if contains_text(envs[i].as_str(), key) {
            assert(first_containing(t, key@) == Some(i as int));
            proof {
                lemma_first_containing_prefix(all, key@, i + 1);
            }
            let chars = to_chars(envs[i].as_str());
            let pieces = split_chars(&chars, '=');
            assert(views(pieces@) == split_on(all[i as int], '='));
            if pieces.len() >= 2 {
                assert(views(pieces@)[1] == pieces@[1]@);
                return EnvLookup::Value(from_chars(&pieces[1]));
            } else {
                return EnvLookup::Malformed;
            }
        }
    }
    assert(all.take(n as int) =~= all);
    EnvLookup::Missing
}

/// A value read from an environment never holds `=`, and it stands in the first
/// entry that mentions the key, right after that entry's first `=`.
pub proof fn lemma_env_value_shape(envs: Seq<Seq<char>>, key: Seq<char>)
    ensures
        env_entry(envs, key) matches EnvEntry::Value(v) ==> {
            &&& !v.contains('=')
            &&& first_containing(envs, key) matches Some(i) && contains(envs[i], key) && {
                let pieces = split_on(envs[i], '=');
                &&& !pieces[0].contains('=')
                &&& envs[i].subrange(pieces[0].len() as int + 1, pieces[0].len() as int + 1 + v.len())
                    == v
            }
        },
{
    lemma_first_containing(envs, key);
    if let Some(i) = first_containing(envs, key) {
        let pieces = split_on(envs[i], '=');
        lemma_split_on_len(envs[i], '=');
        lemma_split_on_pieces_free_of_sep(envs[i], '=');
        if pieces.len() >= 2 {
            assert(!pieces[0].contains('='));
            assert(!pieces[1].contains('='));
            lemma_split_prefix(envs[i], '=');
        }
    }
}

/// Nothing is read exactly when no entry mentions the key.
pub proof fn lemma_env_entry_missing(envs: Seq<Seq<char>>, key: Seq<char>)
    ensures
        (env_entry(envs, key) is Missing) <==> (forall|j: int|
            0 <= j < envs.len() ==> !contains(#[trigger] envs[j], key)),
{
    lemma_first_containing(envs, key);
}

/// What is read for a key comes from the first entry `envs[i]` that mentions
/// it: `Malformed` exactly when that entry has no `=`; otherwise a value that is
/// the whole text between the entry's first `=` and its next `=`, or its end.
pub proof fn lemma_env_entry_first_mention(envs: Seq<Seq<char>>, key: Seq<char>, i: int)
    requires
        0 <= i < envs.len(),
        contains(envs[i], key),
        forall|j: int| 0 <= j < i ==> !contains(#[trigger] envs[j], key),
    ensures
        (env_entry(envs, key) is Malformed) <==> !envs[i].contains('='),
        envs[i].contains('=') ==> env_entry(envs, key) is Value,
        env_entry(envs, key) matches EnvEntry::Value(v) ==> exists|a: int|
            #![trigger envs[i][a]]
            {
                &&& 0 <= a
                &&& a + 1 + v.len() <= envs[i].len()
                &&& envs[i][a] == '='
                &&& !envs[i].take(a).contains('=')
                &&& envs[i].subrange(a + 1, a + 1 + v.len()) == v
                &&& !v.contains('=')
                &&& (a + 1 + v.len() == envs[i].len() || envs[i][a + 1 + v.len()] == '=')
            },
{
    lemma_first_containing(envs, key);
    match first_containing(envs, key) {
        Some(k) => {
            if k < i {
                assert(!contains(envs[k], key));
            }
            if k > i {
                assert(!contains(envs[i], key));
            }
            assert(k == i);
        },
        None => {
            assert(!contains(envs[i], key));
        },
    }
    let s = envs[i];
    let q = split_on(s, '=');
    lemma_split_on_len(s, '=');
    lemma_split_on_pieces_free_of_sep(s, '=');
    if !s.contains('=') {
        lemma_split_on_without_sep(s, '=');
        assert(q.len() == 1);
    }
    if q.len() < 2 {
        lemma_split_on_join(s, '=');
        assert(join_with(q, '=') == q[0]);
        assert(!q[0].contains('='));
        assert(!s.contains('='));
    }
    assert(first_containing(envs, key) == Some(i));
    if q.len() >= 2 {
        lemma_split_front(s, '=');
        let a = q[0].len() as int;
        assert(s.contains('='));
        assert(!q[0].contains('='));
        assert(!q[1].contains('='));
        assert(s[a] == '=');
    }
}

/// The first two pieces of a split stand at the front of the text, with the
/// separator between them.
proof fn lemma_split_prefix(s: Seq<char>, sep: char)
    requires
        split_on(s, sep).len() >= 2,
    ensures
        s.subrange(
            split_on(s, sep)[0].len() as int + 1,
            split_on(s, sep)[0].len() as int + 1 + split_on(s, sep)[1].len(),
        ) == split_on(s, sep)[1],
        split_on(s, sep)[0].len() as int + 1 + split_on(s, sep)[1].len() <= s.len(),
    decreases s.len(),
{
    let t = s.drop_last();
    let p = split_on(t, sep);
    lemma_split_on_len(t, sep);
    let q = split_on(s, sep);
    if s.last() == sep {
        if p.len() >= 2 {
            lemma_split_prefix(t, sep);
            assert(q[0] == p[0]);
            assert(q[1] == p[1]);
            assert(s.subrange(p[0].len() as int + 1, p[0].len() as int + 1 + p[1].len()) =~= t.subrange(
                p[0].len() as int + 1,
                p[0].len() as int + 1 + p[1].len(),
            ));
        } else {
            lemma_split_on_join(t, sep);
            assert(p[0] == t);
            assert(q[1] == Seq::<char>::empty());
            assert(q[0] == t);
            assert(s.subrange(t.len() as int + 1, t.len() as int + 1) =~= Seq::<char>::empty());
        }
    } else {
        assert(p.len() >= 2);
        lemma_split_prefix(t, sep);
        if p.len() == 2 {
            lemma_split_on_join(t, sep);
            assert(q[0] == p[0]);
            assert(q[1] == p[1].push(s.last()));
            assert(join_with(p, sep) == join_with(p.drop_last(), sep).push(sep) + p[1]);
            assert(p.drop_last().len() == 1);
            assert(join_with(p.drop_last(), sep) == p[0]);
            assert(t == p[0].push(sep) + p[1]);
            assert(t.len() == p[0].len() as int + 1 + p[1].len());
            assert(s == t.push(s.last()));
            assert(s.subrange(p[0].len() as int + 1, p[0].len() as int + 1 + q[1].len()) =~= q[1]);
        } else {
            assert(q[0] == p[0]);
            assert(q[1] == p[1]);
            assert(s.subrange(p[0].len() as int + 1, p[0].len() as int + 1 + p[1].len()) =~= t.subrange(
                p[0].len() as int + 1,
                p[0].len() as int + 1 + p[1].len(),
            ));
        }
    }
}

} // verus!
