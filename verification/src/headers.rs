//! Header collections.
//!
//! Wire headers live in a [`HeaderMap`]: keys are case-insensitive (stored
//! lowercase), values are wire-safe (no control characters), and a repeated
//! insert overwrites — last write wins.  [`StringMap`] is the plain
//! case-sensitive map a middleware holds its fixed entries in.
#![allow(unused_imports)]
use crate::text::ascii_lower;
use crate::text::lower_char;
use crate::text::lower_chars;
use vstd::pervasive::VecAdditionalExecFns;
use vstd::prelude::*;
use vstd::string::StrSliceExecFns;
use vstd::utf8::is_ascii_chars;

verus! {

/// True for the characters an HTTP token (header name) may contain.
pub open spec fn is_token_char(c: char) -> bool {
    ||| '0' <= c <= '9'
    ||| 'a' <= c <= 'z'
    ||| 'A' <= c <= 'Z'
    ||| c == '!'
    ||| c == '#'
    ||| c == '$'
    ||| c == '%'
    ||| c == '&'
    ||| c == '\''
    ||| c == '*'
    ||| c == '+'
    ||| c == '-'
    ||| c == '.'
    ||| c == '^'
    ||| c == '_'
    ||| c == '`'
    ||| c == '|'
    ||| c == '~'
}

/// A valid header name: a non-empty token.
pub open spec fn valid_header_name(s: Seq<char>) -> bool {
    s.len() > 0 && forall|i: int| 0 <= i < s.len() ==> is_token_char(#[trigger] s[i])
}

/// A valid header value: no control characters (tab is allowed).
pub open spec fn valid_header_value(s: Seq<char>) -> bool {
    forall|i: int|
        0 <= i < s.len() ==> (#[trigger] s[i] == '\t' || (s[i] as u32 >= 32 && s[i] as u32 != 127))
}

/// Token characters are ASCII, so a valid header name is an ASCII string.
pub proof fn lemma_valid_name_ascii(s: Seq<char>)
    requires
        valid_header_name(s),
    ensures
        is_ascii_chars(s),
{
    assert forall|i: int| 0 <= i < s.len() implies '\0' <= #[trigger] s[i] <= '\u{7f}' by {
        assert(is_token_char(s[i]));
    }
}

/// Lowercasing keeps a non-ASCII character in place, so the lowercase image
/// of a non-ASCII string is still non-ASCII.
pub proof fn lemma_lower_not_ascii(s: Seq<char>)
    requires
        !is_ascii_chars(s),
    ensures
        !is_ascii_chars(lower_chars(s)),
{
    let i = choose|i: int| 0 <= i < s.len() && !('\0' <= #[trigger] s[i] <= '\u{7f}');
    assert(lower_chars(s)[i] == lower_char(s[i]));
    assert(!('\0' <= lower_chars(s)[i] <= '\u{7f}'));
}

/// Lowercasing a valid header name yields a valid header name.
pub proof fn lemma_lower_name_valid(s: Seq<char>)
    requires
        valid_header_name(s),
    ensures
        valid_header_name(lower_chars(s)),
        lower_chars(lower_chars(s)) == lower_chars(s),
{
    assert forall|i: int| 0 <= i < lower_chars(s).len() implies is_token_char(
        #[trigger] lower_chars(s)[i],
    ) by {
        assert(lower_chars(s)[i] == lower_char(s[i]));
        assert(is_token_char(s[i]));
    }
    assert forall|i: int| 0 <= i < lower_chars(s).len() implies lower_char(
        #[trigger] lower_chars(s)[i],
    ) == lower_chars(s)[i] by {
        assert(lower_chars(s)[i] == lower_char(s[i]));
    }
    assert(lower_chars(lower_chars(s)) =~= lower_chars(s));
}

/// Reports whether a string is usable as a header name.
pub fn header_name_ok(s: &str) -> (r: bool)
    ensures
        r == valid_header_name(s@),
{
    let n = s.unicode_len();
    if n == 0 {
        return false;
    }
    let mut i: usize = 0;
    while i < n
        invariant
            i <= n,
            n == s@.len(),
            forall|j: int| 0 <= j < i ==> is_token_char(#[trigger] s@[j]),
        decreases n - i,
    {
        let c = s.get_char(i);
        let ok = ('0' <= c && c <= '9') || ('a' <= c && c <= 'z') || ('A' <= c && c <= 'Z') || c
            == '!' || c == '#' || c == '$' || c == '%' || c == '&' || c == '\'' || c == '*' || c
            == '+' || c == '-' || c == '.' || c == '^' || c == '_' || c == '`' || c == '|' || c
            == '~';
        if !ok {
            return false;
        }
        i = i + 1;
    }
    true
}

/// Reports whether a string is usable as a header value.
pub fn header_value_ok(s: &str) -> (r: bool)
    ensures
        r == valid_header_value(s@),
{
    let n = s.unicode_len();
    let mut i: usize = 0;
    while i < n
        invariant
            i <= n,
            n == s@.len(),
            forall|j: int|
                0 <= j < i ==> (#[trigger] s@[j] == '\t' || (s@[j] as u32 >= 32 && s@[j] as u32
                    != 127)),
        decreases n - i,
    {
        let c = s.get_char(i);
        let code = c as u32;
        if !(c == '\t' || (code >= 32 && code != 127)) {
            return false;
        }
        i = i + 1;
    }
    true
}

/// The first index at which the key appears in an entry sequence, or -1.
pub open spec fn entries_index_of(hs: Seq<(Seq<char>, Seq<char>)>, key: Seq<char>) -> int
    decreases hs.len(),
{
    if hs.len() == 0 {
        -1
    } else if hs[0].0 == key {
        0
    } else {
        let r = entries_index_of(hs.drop_first(), key);
        if r == -1 {
            -1
        } else {
            r + 1
        }
    }
}

/// What `entries_index_of` finds: the first matching entry, if any.
pub proof fn lemma_entries_index_of(hs: Seq<(Seq<char>, Seq<char>)>, key: Seq<char>)
    ensures
        ({
            let i = entries_index_of(hs, key);
            &&& -1 <= i < hs.len()
            &&& i >= 0 ==> hs[i].0 == key && (forall|j: int| 0 <= j < i ==> (#[trigger] hs[j]).0
                != key)
            &&& i == -1 ==> (forall|j: int| 0 <= j < hs.len() ==> (#[trigger] hs[j]).0 != key)
        }),
    decreases hs.len(),
{
    if hs.len() > 0 && hs[0].0 != key {
        lemma_entries_index_of(hs.drop_first(), key);
        let r = entries_index_of(hs.drop_first(), key);
        assert forall|j: int| 1 <= j < hs.len() implies (#[trigger] hs[j]).0 == hs.drop_first()[j
            - 1].0 by {}
    }
}

/// The value stored under a (case-insensitive) header name.
pub open spec fn entries_get(hs: Seq<(Seq<char>, Seq<char>)>, name: Seq<char>) -> Option<
    Seq<char>,
> {
    let i = entries_index_of(hs, lower_chars(name));
    if i == -1 {
        None
    } else {
        Some(hs[i].1)
    }
}

/// The entry sequence after a last-write-wins insert under the lowercased
/// name.
pub open spec fn entries_insert(
    hs: Seq<(Seq<char>, Seq<char>)>,
    name: Seq<char>,
    value: Seq<char>,
) -> Seq<(Seq<char>, Seq<char>)> {
    let key = lower_chars(name);
    let i = entries_index_of(hs, key);
    if i == -1 {
        hs.push((key, value))
    } else {
        hs.update(i, (key, value))
    }
}

/// An ordered header collection with case-insensitive keys and
/// last-write-wins inserts.
#[derive(Debug)]
pub struct HeaderMap {
    entries: Vec<(String, String)>,
}

/// The character-level view of a raw entry vector.
pub open spec fn entries_view(es: Seq<(String, String)>) -> Seq<(Seq<char>, Seq<char>)> {
    Seq::new(es.len(), |i: int| (es[i].0@, es[i].1@))
}

/// Every key a lowercase valid header name, every value wire-safe, no key
/// repeated.
pub(crate) open spec fn entries_wf(hs: Seq<(Seq<char>, Seq<char>)>) -> bool {
    &&& forall|i: int|
        0 <= i < hs.len() ==> valid_header_name(#[trigger] hs[i].0) && lower_chars(hs[i].0)
            == hs[i].0 && valid_header_value(hs[i].1)
    &&& forall|i: int, j: int| 0 <= i < j < hs.len() ==> hs[i].0 != hs[j].0
}

impl View for HeaderMap {
    type V = Seq<(Seq<char>, Seq<char>)>;

    closed spec fn view(&self) -> Seq<(Seq<char>, Seq<char>)> {
        entries_view(self.entries@)
    }
}

impl HeaderMap {
    /// Every key is a lowercase valid header name, every value wire-safe,
    /// and no key repeats.
    #[verifier::type_invariant]
    spec fn wf(self) -> bool {
        entries_wf(self@)
    }

    /// An empty header collection.
    pub fn new() -> (r: HeaderMap)
        ensures
            r@ == Seq::<(Seq<char>, Seq<char>)>::empty(),
    {
        let r = HeaderMap { entries: Vec::new() };
        proof {
            assert(r@ =~= Seq::<(Seq<char>, Seq<char>)>::empty());
        }
        r
    }

    /// How many distinct headers are stored.
    pub fn len(&self) -> (r: usize)
        ensures
            r == self@.len(),
    {
        self.entries.len()
    }

    /// The stored (lowercased) name and value at an index.
    pub fn pair_at(&self, i: usize) -> (r: (String, String))
        requires
            i < self@.len(),
        ensures
            r.0@ == self@[i as int].0,
            r.1@ == self@[i as int].1,
    {
        let p = &self.entries[i];
        (p.0.clone(), p.1.clone())
    }

    /// Inserts a header, overwriting any entry stored under the same
    /// case-insensitive name.
    pub fn insert(&mut self, name: &str, value: &str)
        requires
            valid_header_name(name@),
            valid_header_value(value@),
        ensures
            final(self)@ == entries_insert(old(self)@, name@, value@),
    {
        proof {
            use_type_invariant(&*self);
            lemma_valid_name_ascii(name@);
            lemma_lower_name_valid(name@);
        }
        let key = ascii_lower(name);
        let val = value.to_owned();
        let ghost gkey = lower_chars(name@);
        let ghost pre = self@;
        let mut es: Vec<(String, String)> = Vec::new();
        core::mem::swap(&mut es, &mut self.entries);
        proof {
            assert(self@ =~= Seq::<(Seq<char>, Seq<char>)>::empty());
            assert(entries_view(es@) == pre);
        }
        let n = es.len();
        let mut i: usize = 0;
        let mut found = false;
        while i < n && !found
            invariant
                i <= n,
                n == es@.len(),
                key@ == gkey,
                gkey == lower_chars(name@),
                val@ == value@,
                valid_header_value(value@),
                !found ==> entries_view(es@) == pre && (forall|j: int|
                    0 <= j < i ==> (#[trigger] pre[j]).0 != gkey),
                found ==> entries_view(es@) == entries_insert(pre, name@, value@),
            decreases n - i + (if found {
                0int
            } else {
                1int
            }),
        {
            if es[i].0 == key {
                proof {
                    assert(entries_view(es@)[i as int].0 == es@[i as int].0@);
                    assert(pre[i as int].0 == gkey);
                    lemma_entries_index_of(pre, gkey);
                    assert(entries_index_of(pre, gkey) == i);
                }
                es.set(i, (key.clone(), val.clone()));
                found = true;
                proof {
                    assert(entries_view(es@) =~= pre.update(i as int, (gkey, value@)));
                }
            } else {
                i = i + 1;
            }
        }
        if !found {
            proof {
                lemma_entries_index_of(pre, gkey);
                assert(entries_index_of(pre, gkey) == -1);
            }
            es.push((key, val));
            proof {
                assert(entries_view(es@) =~= pre.push((gkey, value@)));
            }
        }
        proof {
            let post = entries_insert(pre, name@, value@);
            lemma_entries_index_of(pre, gkey);
            assert forall|a: int|
                0 <= a < post.len() implies valid_header_name(#[trigger] post[a].0) && lower_chars(
                post[a].0,
            ) == post[a].0 && valid_header_value(post[a].1) by {
                if entries_index_of(pre, gkey) == -1 && a == post.len() - 1 {
                } else if entries_index_of(pre, gkey) == a {
                } else {
                    assert(post[a] == pre[a]);
                }
            }
            assert forall|a: int, b: int| 0 <= a < b < post.len() implies post[a].0 != post[b].0 by {
                let m = entries_index_of(pre, gkey);
                if m == -1 {
                    if b == post.len() - 1 {
                        assert(post[a] == pre[a]);
                        assert(post[b].0 == gkey);
                    } else {
                        assert(post[a] == pre[a]);
                        assert(post[b] == pre[b]);
                    }
                } else {
                    if a == m {
                        assert(post[b] == pre[b]);
                        assert(pre[m].0 == gkey);
                    } else if b == m {
                        assert(post[a] == pre[a]);
                        assert(pre[m].0 == gkey);
                    } else {
                        assert(post[a] == pre[a]);
                        assert(post[b] == pre[b]);
                    }
                }
            }
            assert(entries_wf(post));
        }
        core::mem::swap(&mut es, &mut self.entries);
    }

    /// Looks a header up by name, case-insensitively.
    pub fn get(&self, name: &str) -> (r: Option<String>)
        ensures
            match r {
                Some(v) => entries_get(self@, name@) == Some(v@),
                None => entries_get(self@, name@) is None,
            },
    {
        proof {
            use_type_invariant(&*self);
        }
        if !name.is_ascii() {
            proof {
                lemma_lower_not_ascii(name@);
                lemma_entries_index_of(self@, lower_chars(name@));
                let i = entries_index_of(self@, lower_chars(name@));
                if i >= 0 {
                    lemma_valid_name_ascii(self@[i].0);
                    let q = lower_chars(name@);
                    let k = choose|k: int| 0 <= k < q.len() && !('\0' <= #[trigger] q[k] <= '\u{7f}');
                    assert(self@[i].0[k] == q[k]);
                    assert(false);
                }
            }
            return None;
        }
        let key = ascii_lower(name);
        let ghost gkey = lower_chars(name@);
        let n = self.entries.len();
        let mut i: usize = 0;
        while i < n
            invariant
                i <= n,
                n == self@.len(),
                self.wf(),
                key@ == gkey,
                gkey == lower_chars(name@),
                self@.len() == self.entries@.len(),
                forall|j: int|
                    0 <= j < self@.len() ==> (#[trigger] self@[j]) == (
                    self.entries@[j].0@,
                    self.entries@[j].1@,
                ),
                forall|j: int| 0 <= j < i ==> (#[trigger] self@[j]).0 != gkey,
            decreases n - i,
        {
            if self.entries[i].0 == key {
                proof {
                    assert(self@[i as int].0 == self.entries@[i as int].0@);
                    assert(self@[i as int].0 == gkey);
                    lemma_entries_index_of(self@, gkey);
                    assert(entries_index_of(self@, gkey) == i);
                }
                return Some(self.entries[i].1.clone());
            }
            i = i + 1;
        }
        proof {
            lemma_entries_index_of(self@, gkey);
        }
        None
    }

    /// Reports whether a header is present, case-insensitively.
    pub fn contains(&self, name: &str) -> (r: bool)
        ensures
            r == (entries_get(self@, name@) is Some),
    {
        match self.get(name) {
            Some(_) => true,
            None => false,
        }
    }

    /// A copy of this collection with the same entries.
    pub fn copied(&self) -> (r: HeaderMap)
        ensures
            r@ == self@,
    {
        proof {
            use_type_invariant(&*self);
        }
        let mut out: Vec<(String, String)> = Vec::new();
        let n = self.entries.len();
        let mut i: usize = 0;
        while i < n
            invariant
                i <= n,
                n == self.entries@.len(),
                out@.len() == i,
                forall|j: int|
                    0 <= j < i ==> (#[trigger] out@[j]).0@ == self.entries@[j].0@ && out@[j].1@
                        == self.entries@[j].1@,
                self.wf(),
                forall|j: int|
                    0 <= j < self@.len() ==> (#[trigger] self@[j]) == (
                    self.entries@[j].0@,
                    self.entries@[j].1@,
                ),
                self@.len() == self.entries@.len(),
            decreases n - i,
        {
            let p = &self.entries[i];
            out.push((p.0.clone(), p.1.clone()));
            i = i + 1;
        }
        proof {
            assert(entries_view(out@) =~= self@);
        }
        let r = HeaderMap { entries: out };
        r
    }
}

/// Last write wins: after an insert, the inserted name (in any casing
/// that lowercases the same) reads back the value written, and every
/// other name reads what it read before.
pub proof fn lemma_insert_get(
    hs: Seq<(Seq<char>, Seq<char>)>,
    name: Seq<char>,
    value: Seq<char>,
    other: Seq<char>,
)
    ensures
        lower_chars(other) == lower_chars(name) ==> entries_get(
            entries_insert(hs, name, value),
            other,
        ) == Some(value),
        lower_chars(other) != lower_chars(name) ==> entries_get(
            entries_insert(hs, name, value),
            other,
        ) == entries_get(hs, other),
{
    let k = lower_chars(name);
    let k2 = lower_chars(other);
    let m = entries_index_of(hs, k);
    let hs2 = entries_insert(hs, name, value);
    lemma_entries_index_of(hs, k);
    lemma_entries_index_of(hs, k2);
    lemma_entries_index_of(hs2, k);
    lemma_entries_index_of(hs2, k2);
    let i = entries_index_of(hs2, k);
    if m == -1 {
        assert(hs2 == hs.push((k, value)));
        assert(hs2[hs.len() as int].0 == k);
        assert(i != -1);
        assert forall|j: int| 0 <= j < hs.len() implies (#[trigger] hs2[j]).0 == hs[j].0 by {}
        assert(i == hs.len() as int);
        assert(entries_get(hs2, name) == Some(value));
        if k2 != k {
            let i2 = entries_index_of(hs2, k2);
            let m2 = entries_index_of(hs, k2);
            if m2 == -1 {
                if i2 != -1 {
                    assert(hs2[i2].0 == k2);
                    assert(i2 == hs.len() as int || hs[i2].0 == k2);
                    assert(false);
                }
            } else {
                assert(hs2[m2].0 == k2);
                if i2 == -1 {
                    assert(false);
                }
                if i2 < m2 {
                    assert(hs2[i2].0 == hs[i2].0);
                    assert(false);
                }
                if i2 > m2 {
                    assert(false);
                }
                assert(entries_get(hs2, other) == Some(hs[m2].1));
            }
        }
    } else {
        assert(hs2 == hs.update(m, (k, value)));
        assert(hs2[m].0 == k);
        assert(i != -1);
        if i < m {
            assert(hs2[i].0 == hs[i].0);
            assert(false);
        }
        if i > m {
            assert(false);
        }
        assert(entries_get(hs2, name) == Some(value));
        if k2 != k {
            let i2 = entries_index_of(hs2, k2);
            let m2 = entries_index_of(hs, k2);
            if m2 == -1 {
                if i2 != -1 {
                    assert(hs2[i2].0 == k2);
                    assert(i2 == m || hs[i2].0 == k2);
                    assert(false);
                }
            } else {
                assert(hs2[m2].0 == hs[m2].0);
                if i2 == -1 {
                    assert(false);
                }
                if i2 < m2 {
                    assert(i2 != m);
                    assert(hs2[i2].0 == hs[i2].0);
                    assert(false);
                }
                if i2 > m2 {
                    assert(m2 != m);
                    assert(hs2[m2].0 == k2);
                    assert(false);
                }
                assert(entries_get(hs2, other) == Some(hs[m2].1));
            }
        }
    }
}

/// Inserting two headers whose names differ case-insensitively commutes,
/// as far as any lookup can tell: a fixed set of distinct headers acts as
/// a map, whatever order it is inserted in.
pub proof fn lemma_insert_commutes(
    hs: Seq<(Seq<char>, Seq<char>)>,
    a: Seq<char>,
    va: Seq<char>,
    b: Seq<char>,
    vb: Seq<char>,
    q: Seq<char>,
)
    requires
        lower_chars(a) != lower_chars(b),
    ensures
        entries_get(entries_insert(entries_insert(hs, a, va), b, vb), q) == entries_get(
            entries_insert(entries_insert(hs, b, vb), a, va),
            q,
        ),
{
    lemma_insert_get(hs, a, va, q);
    lemma_insert_get(entries_insert(hs, a, va), b, vb, q);
    lemma_insert_get(hs, b, vb, q);
    lemma_insert_get(entries_insert(hs, b, vb), a, va, q);
}

/// The value stored under an exact (case-sensitive) key.
pub open spec fn smap_get(hs: Seq<(Seq<char>, Seq<char>)>, name: Seq<char>) -> Option<Seq<char>> {
    let i = entries_index_of(hs, name);
    if i == -1 {
        None
    } else {
        Some(hs[i].1)
    }
}

/// The entry sequence after a last-write-wins insert under an exact key.
pub open spec fn smap_insert(
    hs: Seq<(Seq<char>, Seq<char>)>,
    name: Seq<char>,
    value: Seq<char>,
) -> Seq<(Seq<char>, Seq<char>)> {
    let i = entries_index_of(hs, name);
    if i == -1 {
        hs.push((name, value))
    } else {
        hs.update(i, (name, value))
    }
}

/// An ordered map from strings to strings with exact, case-sensitive keys.
#[derive(Debug)]
pub struct StringMap {
    entries: Vec<(String, String)>,
}

impl View for StringMap {
    type V = Seq<(Seq<char>, Seq<char>)>;

    closed spec fn view(&self) -> Seq<(Seq<char>, Seq<char>)> {
        entries_view(self.entries@)
    }
}

impl StringMap {
    /// No key repeats.
    #[verifier::type_invariant]
    spec fn wf(self) -> bool {
        forall|i: int, j: int| 0 <= i < j < self@.len() ==> self@[i].0 != self@[j].0
    }

    /// An empty map.
    pub fn new() -> (r: StringMap)
        ensures
            r@ == Seq::<(Seq<char>, Seq<char>)>::empty(),
    {
        let r = StringMap { entries: Vec::new() };
        proof {
            assert(r@ =~= Seq::<(Seq<char>, Seq<char>)>::empty());
        }
        r
    }

    /// How many entries are stored.
    pub fn len(&self) -> (r: usize)
        ensures
            r == self@.len(),
    {
        self.entries.len()
    }

    /// The key and value at an index.
    pub fn pair_at(&self, i: usize) -> (r: (String, String))
        requires
            i < self@.len(),
        ensures
            r.0@ == self@[i as int].0,
            r.1@ == self@[i as int].1,
    {
        let p = &self.entries[i];
        (p.0.clone(), p.1.clone())
    }

    /// Inserts an entry, overwriting any entry with the same key.
    pub fn insert(&mut self, name: &str, value: &str)
        ensures
            final(self)@ == smap_insert(old(self)@, name@, value@),
    {
        proof {
            use_type_invariant(&*self);
        }
        let key = name.to_owned();
        let val = value.to_owned();
        let ghost pre = self@;
        let mut es: Vec<(String, String)> = Vec::new();
        core::mem::swap(&mut es, &mut self.entries);
        proof {
            assert(entries_view(es@) == pre);
        }
        let n = es.len();
        let mut i: usize = 0;
        let mut found = false;
        while i < n && !found
            invariant
                i <= n,
                n == es@.len(),
                key@ == name@,
                val@ == value@,
                !found ==> entries_view(es@) == pre && (forall|j: int|
                    0 <= j < i ==> (#[trigger] pre[j]).0 != name@),
                found ==> entries_view(es@) == smap_insert(pre, name@, value@),
            decreases n - i + (if found {
                0int
            } else {
                1int
            }),
        {
            if es[i].0 == key {
                proof {
                    assert(entries_view(es@)[i as int].0 == es@[i as int].0@);
                    assert(pre[i as int].0 == name@);
                    lemma_entries_index_of(pre, name@);
                    assert(entries_index_of(pre, name@) == i);
                }
                es.set(i, (key.clone(), val.clone()));
                found = true;
                proof {
                    assert(entries_view(es@) =~= pre.update(i as int, (name@, value@)));
                }
            } else {
                i = i + 1;
            }
        }
        if !found {
            proof {
                lemma_entries_index_of(pre, name@);
                assert(entries_index_of(pre, name@) == -1);
            }
            es.push((key, val));
            proof {
                assert(entries_view(es@) =~= pre.push((name@, value@)));
            }
        }
        proof {
            let post = smap_insert(pre, name@, value@);
            lemma_entries_index_of(pre, name@);
            assert forall|a: int, b: int| 0 <= a < b < post.len() implies post[a].0 != post[b].0 by {
                let m = entries_index_of(pre, name@);
                if m == -1 {
                    if b == post.len() - 1 {
                        assert(post[a] == pre[a]);
                        assert(post[b].0 == name@);
                    } else {
                        assert(post[a] == pre[a]);
                        assert(post[b] == pre[b]);
                    }
                } else {
                    if a == m {
                        assert(post[b] == pre[b]);
                        assert(pre[m].0 == name@);
                    } else if b == m {
                        assert(post[a] == pre[a]);
                        assert(pre[m].0 == name@);
                    } else {
                        assert(post[a] == pre[a]);
                        assert(post[b] == pre[b]);
                    }
                }
            }
        }
        core::mem::swap(&mut es, &mut self.entries);
    }

    /// Looks an entry up by its exact key.
    pub fn get(&self, name: &str) -> (r: Option<String>)
        ensures
            match r {
                Some(v) => smap_get(self@, name@) == Some(v@),
                None => smap_get(self@, name@) is None,
            },
    {
        proof {
            use_type_invariant(&*self);
        }
        let key = name.to_owned();
        let n = self.entries.len();
        let mut i: usize = 0;
        while i < n
            invariant
                i <= n,
                n == self@.len(),
                key@ == name@,
                self@.len() == self.entries@.len(),
                forall|j: int|
                    0 <= j < self@.len() ==> (#[trigger] self@[j]) == (
                    self.entries@[j].0@,
                    self.entries@[j].1@,
                ),
                forall|j: int| 0 <= j < i ==> (#[trigger] self@[j]).0 != name@,
            decreases n - i,
        {
            if self.entries[i].0 == key {
                proof {
                    assert(self@[i as int].0 == self.entries@[i as int].0@);
                    assert(self@[i as int].0 == name@);
                    lemma_entries_index_of(self@, name@);
                    assert(entries_index_of(self@, name@) == i);
                }
                return Some(self.entries[i].1.clone());
            }
            i = i + 1;
        }
        proof {
            lemma_entries_index_of(self@, name@);
        }
        None
    }
}

} // verus!
