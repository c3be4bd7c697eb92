//! Header lists in normal form: sorted by name, each name once.
//!
//! A list of headers stands for a mapping from names to values, in which a
//! later entry for a name replaces an earlier one. The normal form of a
//! list is the one list for that mapping that is strictly sorted by name,
//! so that two lists that say the same are equal once they are normalized.

use vstd::prelude::*;
use vstd::string::StrSliceExecFns;

verus! {

/// A list of headers as plain data: names with their values.
pub type Headers = Seq<(Seq<char>, Seq<char>)>;

/// Whether `a` comes before `b`, given that they agree before position
/// `i`: at the first position from `i` on where they differ, `a` has the
/// lower character, or `a` ends there and `b` goes on.
pub open spec fn text_before_from(a: Seq<char>, b: Seq<char>, i: int) -> bool
    decreases b.len() - i,
{
    if i >= b.len() {
        false
    } else if i >= a.len() {
        true
    } else if a[i] != b[i] {
        a[i] < b[i]
    } else {
        text_before_from(a, b, i + 1)
    }
}

/// Whether `a` comes before `b` in the order of the dictionary, character
/// by character.
pub open spec fn text_before(a: Seq<char>, b: Seq<char>) -> bool {
    text_before_from(a, b, 0)
}

/// Strictly sorted by name: every entry's name comes before the names of
/// all entries after it. No name occurs twice in such a list.
pub open spec fn normalized(headers: Headers) -> bool {
    forall|i: int, j: int|
        0 <= i < j < headers.len() ==> text_before(
            (#[trigger] headers[i]).0,
            (#[trigger] headers[j]).0,
        )
}

/// The value a list gives a name: that of the last entry for the name.
pub open spec fn header_value(headers: Headers, name: Seq<char>) -> Option<Seq<char>>
    decreases headers.len(),
{
    if headers.len() == 0 {
        None
    } else if headers.last().0 == name {
        Some(headers.last().1)
    } else {
        header_value(headers.drop_last(), name)
    }
}

/// Whether two lists give every name the same value.
pub open spec fn same_values(a: Headers, b: Headers) -> bool {
    forall|name: Seq<char>| #[trigger] header_value(a, name) == header_value(b, name)
}

/// The normal form of a list: the normalized list that gives every name
/// the value that the list gives it.
pub open spec fn normal_form(headers: Headers) -> Headers {
    choose|r: Headers| normalized(r) && same_values(r, headers)
}

/// Nothing comes before itself.
pub proof fn lemma_before_irreflexive(a: Seq<char>, i: int)
    requires
        0 <= i,
    ensures
        !text_before_from(a, a, i),
    decreases a.len() - i,
{
    if i < a.len() {
        lemma_before_irreflexive(a, i + 1);
    }
}

/// If `a` comes before `b` and `b` before `c`, then `a` comes before `c`.
pub proof fn lemma_before_transitive(a: Seq<char>, b: Seq<char>, c: Seq<char>, i: int)
    requires
        0 <= i,
        text_before_from(a, b, i),
        text_before_from(b, c, i),
    ensures
        text_before_from(a, c, i),
    decreases c.len() - i,
{
    if i < a.len() && i < b.len() && i < c.len() && a[i] == b[i] && b[i] == c[i] {
        lemma_before_transitive(a, b, c, i + 1);
    }
}

/// Of two texts that agree before position `i`, one comes before the
/// other, or they are the same text.
pub proof fn lemma_before_total(a: Seq<char>, b: Seq<char>, i: int)
    requires
        0 <= i <= a.len(),
        i <= b.len(),
        forall|j: int| 0 <= j < i ==> a[j] == b[j],
        !text_before_from(a, b, i),
        !text_before_from(b, a, i),
    ensures
        a == b,
    decreases a.len() - i,
{
    if i < a.len() && i < b.len() {
        lemma_before_total(a, b, i + 1);
    } else {
        assert(a =~= b);
    }
}

/// How two texts stand to each other.
#[derive(Clone, Copy, Debug, PartialEq, Eq, Structural)]
pub enum Place {
    /// The first comes before the second.
    Before,
    /// They are the same text.
    Same,
    /// The first comes after the second.
    After,
}

/// How `a` stands to `b` in the order of the dictionary.
pub fn place_of(a: &str, b: &str) -> (p: Place)
    ensures
        p == Place::Before <==> text_before(a@, b@),
        p == Place::Same <==> a@ == b@,
        p == Place::After <==> text_before(b@, a@),
{
    let n = a.unicode_len();
    let m = b.unicode_len();
    let mut i: usize = 0;
    while i < n && i < m
        invariant
            n == a@.len(),
            m == b@.len(),
            i <= n,
            i <= m,
            forall|j: int| 0 <= j < i ==> a@[j] == b@[j],
            text_before(a@, b@) == text_before_from(a@, b@, i as int),
            text_before(b@, a@) == text_before_from(b@, a@, i as int),
        decreases n - i,
    {
        let x = a.get_char(i);
        let y = b.get_char(i);
        if x != y {
            proof {
                if a@ == b@ {
                    assert(a@[i as int] == b@[i as int]);
                }
            }
            if x < y {
                return Place::Before;
            } else {
                return Place::After;
            }
        }
        i = i + 1;
    }
    proof {
        lemma_before_irreflexive(a@, 0);
        if !text_before_from(a@, b@, i as int) && !text_before_from(b@, a@, i as int) {
            lemma_before_total(a@, b@, i as int);
        }
    }
    if n < m {
        Place::Before
    } else if m < n {
        Place::After
    } else {
        Place::Same
    }
}

/// In a normalized list no name occurs twice.
pub proof fn lemma_normalized_distinct(headers: Headers, i: int, j: int)
    requires
        normalized(headers),
        0 <= i < headers.len(),
        0 <= j < headers.len(),
        i != j,
    ensures
        headers[i].0 != headers[j].0,
{
    lemma_before_irreflexive(headers[i].0, 0);
    if i < j {
        assert(text_before(headers[i].0, headers[j].0));
    } else {
        assert(text_before(headers[j].0, headers[i].0));
    }
}

/// A normalized list gives the name of each of its entries that entry's
/// value.
pub proof fn lemma_value_at(headers: Headers, i: int)
    requires
        normalized(headers),
        0 <= i < headers.len(),
    ensures
        header_value(headers, headers[i].0) == Some(headers[i].1),
    decreases headers.len(),
{
    if i < headers.len() - 1 {
        lemma_normalized_distinct(headers, i, headers.len() - 1);
        let front = headers.drop_last();
        assert forall|x: int, y: int| 0 <= x < y < front.len() implies text_before(
            (#[trigger] front[x]).0,
            (#[trigger] front[y]).0,
        ) by {
            assert(front[x] == headers[x]);
            assert(front[y] == headers[y]);
        }
        assert(front[i] == headers[i]);
        lemma_value_at(front, i);
    }
}

/// A list gives a name a value only if it has an entry for the name, and
/// then the value is that of some entry for it.
pub proof fn lemma_value_from_entry(headers: Headers, name: Seq<char>)
    ensures
        match header_value(headers, name) {
            Some(value) => exists|i: int|
                0 <= i < headers.len() && #[trigger] headers[i] == (name, value),
            None => forall|i: int| 0 <= i < headers.len() ==> (#[trigger] headers[i]).0 != name,
        },
    decreases headers.len(),
{
    if headers.len() > 0 {
        let front = headers.drop_last();
        if headers.last().0 == name {
            assert(headers[headers.len() - 1] == (name, headers.last().1));
        } else {
            lemma_value_from_entry(front, name);
            match header_value(front, name) {
                Some(value) => {
                    let i = choose|i: int| 0 <= i < front.len() && #[trigger] front[i] == (name, value);
                    assert(headers[i] == (name, value));
                },
                None => {
                    assert forall|i: int| 0 <= i < headers.len() implies (
                    #[trigger] headers[i]).0 != name by {
                        if i < front.len() {
                            assert(front[i] == headers[i]);
                        }
                    }
                },
            }
        }
    }
}

/// The views of a list of headers, in order.
pub open spec fn header_views(headers: Seq<(String, String)>) -> Headers {
    Seq::new(headers.len(), |i: int| (headers[i].0@, headers[i].1@))
}

/// Puts an entry into a normalized list, at the place of its name: in
/// place of the entry for that name if there is one, and else between the
/// names before and after it. The list stays normalized, gives the name
/// the new value, and gives every other name the value it gave before.
fn put_sorted(headers: &mut Vec<(String, String)>, name: String, value: String)
    requires
        normalized(header_views(old(headers)@)),
    ensures
        normalized(header_views(final(headers)@)),
        forall|other: Seq<char>|
            #[trigger] header_value(header_views(final(headers)@), other) == if other == name@ {
                Some(value@)
            } else {
                header_value(header_views(old(headers)@), other)
            },
{
    let ghost before = header_views(headers@);
    let mut k: usize = 0;
    let mut found = false;
    while k < headers.len()
        invariant_except_break
            !found,
        invariant
            k <= headers.len(),
            before == header_views(headers@),
            forall|i: int| 0 <= i < k ==> text_before((#[trigger] before[i]).0, name@),
        ensures
            k <= headers.len(),
            before == header_views(headers@),
            forall|i: int| 0 <= i < k ==> text_before((#[trigger] before[i]).0, name@),
            found ==> k < headers.len() && before[k as int].0 == name@,
            !found && k < headers.len() ==> text_before(name@, before[k as int].0),
        decreases headers.len() - k,
    {
        assert(before[k as int].0 == headers@[k as int].0@);
        match place_of(headers[k].0.as_str(), name.as_str()) {
            Place::Before => {
                k = k + 1;
            },
            Place::Same => {
                found = true;
                break ;
            },
            Place::After => {
                break ;
            },
        }
    }
    let ghost entry = (name@, value@);
    if found {
        headers[k] = (name, value);
    } else {
        headers.insert(k, (name, value));
    }
    let ghost after = header_views(headers@);
    proof {
        if found {
            assert(after =~= before.update(k as int, entry));
        } else {
            assert(after =~= before.insert(k as int, entry));
        }
        let at = |i: int|
            if found || i < k {
                i
            } else {
                i + 1
            };
        assert forall|i: int| 0 <= i < before.len() && !(found && i == k) implies after[at(i)]
            == before[i] by {}
        assert forall|i: int, j: int| 0 <= i < j < after.len() implies text_before(
            (#[trigger] after[i]).0,
            (#[trigger] after[j]).0,
        ) by {
            let back = |x: int|
                if found || x < k {
                    x
                } else {
                    x - 1
                };
            if i == k {
                // The new entry comes before everything after its place.
                assert(after[j] == before[back(j)]);
                if found {
                    assert(text_before(before[k as int].0, before[back(j)].0));
                } else {
                    assert(text_before(name@, before[k as int].0));
                    if back(j) > k {
                        assert(text_before(before[k as int].0, before[back(j)].0));
                        lemma_before_transitive(name@, before[k as int].0, before[back(j)].0, 0);
                    }
                }
            } else if j == k {
                assert(after[i] == before[i]);
            } else {
                assert(after[i] == before[back(i)]);
                assert(after[j] == before[back(j)]);
                assert(text_before(before[back(i)].0, before[back(j)].0));
            }
        }
        assert forall|other: Seq<char>| #[trigger]
            header_value(after, other) == if other == name@ {
                Some(value@)
            } else {
                header_value(before, other)
            } by {
            if other == name@ {
                lemma_value_at(after, k as int);
            } else {
                lemma_value_from_entry(before, other);
                lemma_value_from_entry(after, other);
                match header_value(before, other) {
                    Some(held) => {
                        let i = choose|i: int|
                            0 <= i < before.len() && #[trigger] before[i] == (other, held);
                        assert(after[at(i)] == before[i]);
                        lemma_value_at(after, at(i));
                    },
                    None => {
                        if header_value(after, other) is Some {
                            let got = header_value(after, other).unwrap();
                            let i = choose|i: int|
                                0 <= i < after.len() && #[trigger] after[i] == (other, got);
                            if i != k {
                                let back = if found || i < k {
                                    i
                                } else {
                                    i - 1
                                };
                                assert(after[i] == before[back]);
                            }
                        }
                    },
                }
            }
        }
    }
}

/// The normal form of a list of headers: sorted by name, each name once,
/// with the value that the list gives the name.
pub fn normalize_headers(headers: &Vec<(String, String)>) -> (r: Vec<(String, String)>)
    ensures
        header_views(r@) == normal_form(header_views(headers@)),
        normalized(header_views(r@)),
        same_values(header_views(r@), header_views(headers@)),
{
    let ghost views = header_views(headers@);
    let mut r: Vec<(String, String)> = Vec::new();
    let mut i: usize = 0;
    while i < headers.len()
        invariant
            i <= headers.len(),
            views == header_views(headers@),
            normalized(header_views(r@)),
            forall|name: Seq<char>| #[trigger]
                header_value(header_views(r@), name) == header_value(
                    views.subrange(0, i as int),
                    name,
                ),
        decreases headers.len() - i,
    {
        let ghost earlier = header_views(r@);
        assert(views.subrange(0, i + 1).drop_last() =~= views.subrange(0, i as int));
        assert(views.subrange(0, i + 1).last() == (headers@[i as int].0@, headers@[i as int].1@));
        let pair = &headers[i];
        put_sorted(&mut r, pair.0.clone(), pair.1.clone());
        assert forall|name: Seq<char>| #[trigger]
            header_value(header_views(r@), name) == header_value(
                views.subrange(0, i + 1),
                name,
            ) by {
            assert(header_value(earlier, name) == header_value(views.subrange(0, i as int), name));
        }
        i = i + 1;
    }
    assert(views.subrange(0, i as int) =~= views);
    proof {
        lemma_normal_form(views, header_views(r@));
    }
    r
}

/// Sets the value of a name in a list of headers, and puts the list into
/// normal form: afterwards the list is sorted by name with each name once,
/// gives the name the new value, and gives every other name the value it
/// gave before.
pub fn put_header(headers: &mut Vec<(String, String)>, name: String, value: String)
    ensures
        normalized(header_views(final(headers)@)),
        forall|other: Seq<char>|
            #[trigger] header_value(header_views(final(headers)@), other) == if other == name@ {
                Some(value@)
            } else {
                header_value(header_views(old(headers)@), other)
            },
{
    let mut normal = normalize_headers(headers);
    put_sorted(&mut normal, name, value);
    *headers = normal;
}

/// The front of a normalized list is normalized, and gives no value to the
/// name of the last entry.
pub proof fn lemma_normalized_front(headers: Headers)
    requires
        normalized(headers),
        headers.len() > 0,
    ensures
        normalized(headers.drop_last()),
        header_value(headers.drop_last(), headers.last().0) is None,
{
    let front = headers.drop_last();
    assert forall|x: int, y: int| 0 <= x < y < front.len() implies text_before(
        (#[trigger] front[x]).0,
        (#[trigger] front[y]).0,
    ) by {
        assert(front[x] == headers[x]);
        assert(front[y] == headers[y]);
    }
    lemma_value_from_entry(front, headers.last().0);
    if header_value(front, headers.last().0) is Some {
        let value = header_value(front, headers.last().0).unwrap();
        let i = choose|i: int|
            0 <= i < front.len() && #[trigger] front[i] == (headers.last().0, value);
        assert(front[i] == headers[i]);
        lemma_normalized_distinct(headers, i, headers.len() - 1);
    }
}

/// Two normalized lists that give every name the same value are the same
/// list: a mapping from names to values has one normal form.
pub proof fn lemma_normal_form_unique(a: Headers, b: Headers)
    requires
        normalized(a),
        normalized(b),
        forall|name: Seq<char>| #[trigger] header_value(a, name) == header_value(b, name),
    ensures
        a == b,
    decreases a.len(),
{
    if a.len() == 0 {
        if b.len() > 0 {
            lemma_value_at(b, 0);
            assert(header_value(a, b[0].0) == header_value(b, b[0].0));
        }
        assert(a =~= b);
    } else {
        let la = a.len() - 1;
        let m = a[la].0;
        lemma_value_at(a, la);
        assert(header_value(a, m) == header_value(b, m));
        lemma_value_from_entry(b, m);
        let j = choose|j: int| 0 <= j < b.len() && #[trigger] b[j] == (m, a[la].1);
        let lb = b.len() - 1;
        let n = b[lb].0;
        lemma_value_at(b, lb);
        assert(header_value(a, n) == header_value(b, n));
        lemma_value_from_entry(a, n);
        let i = choose|i: int| 0 <= i < a.len() && #[trigger] a[i] == (n, b[lb].1);
        if j < lb {
            assert(text_before(b[j].0, b[lb].0));
            if i < la {
                assert(text_before(a[i].0, a[la].0));
                lemma_before_transitive(m, n, m, 0);
            }
            lemma_before_irreflexive(m, 0);
        }
        assert(b[lb] == a[la]);
        lemma_normalized_front(a);
        lemma_normalized_front(b);
        let fa = a.drop_last();
        let fb = b.drop_last();
        assert forall|name: Seq<char>| #[trigger] header_value(fa, name) == header_value(
            fb,
            name,
        ) by {
            assert(header_value(a, name) == header_value(b, name));
        }
        lemma_normal_form_unique(fa, fb);
        assert(a =~= fa.push(a[la]));
        assert(b =~= fb.push(b[lb]));
    }
}

/// A normalized list that gives every name the value that `headers` gives
/// it is the normal form of `headers`.
pub proof fn lemma_normal_form(headers: Headers, r: Headers)
    requires
        normalized(r),
        same_values(r, headers),
    ensures
        r == normal_form(headers),
        normalized(normal_form(headers)),
        same_values(normal_form(headers), headers),
{
    let n = normal_form(headers);
    assert(normalized(n) && same_values(n, headers));
    assert forall|name: Seq<char>| #[trigger] header_value(r, name) == header_value(n, name) by {
        assert(header_value(r, name) == header_value(headers, name));
        assert(header_value(n, name) == header_value(headers, name));
    }
    lemma_normal_form_unique(r, n);
}

/// Lists that give every name the same value have the same normal form.
pub proof fn lemma_same_values_same_normal_form(a: Headers, b: Headers)
    requires
        same_values(a, b),
        exists|r: Headers| normalized(r) && same_values(r, a),
    ensures
        normal_form(a) == normal_form(b),
{
    let r = choose|r: Headers| normalized(r) && same_values(r, a);
    lemma_normal_form(a, r);
    assert forall|name: Seq<char>| #[trigger] header_value(r, name) == header_value(b, name) by {
        assert(header_value(r, name) == header_value(a, name));
        assert(header_value(a, name) == header_value(b, name));
    }
    lemma_normal_form(b, r);
}

} // verus!
