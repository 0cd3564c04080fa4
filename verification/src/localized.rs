//! The localized value container.

use vstd::prelude::*;

verus! {

/// Entry sequences with at most one entry per distinct tag.
pub open spec fn distinct_tags(s: Seq<(Option<Seq<char>>, Seq<char>)>) -> bool {
    forall|i: int, j: int| 0 <= i < j < s.len() ==> s[i].0 != s[j].0
}

/// The mapping denoted by an entry sequence: each tag maps to the value
/// inserted with it.
pub open spec fn map_of_entries(s: Seq<(Option<Seq<char>>, Seq<char>)>) -> Map<
    Option<Seq<char>>,
    Seq<char>,
>
    decreases s.len(),
{
    if s.len() == 0 {
        Map::empty()
    } else {
        map_of_entries(s.drop_last()).insert(s.last().0, s.last().1)
    }
}

/// With distinct tags, the denoted mapping holds exactly the entries of the
/// sequence.
pub proof fn lemma_map_of_entries(s: Seq<(Option<Seq<char>>, Seq<char>)>)
    requires
        distinct_tags(s),
    ensures
        forall|k: Option<Seq<char>>|
            map_of_entries(s).contains_key(k) <==> exists|i: int|
                0 <= i < s.len() && s[i].0 == k,
        forall|i: int|
            0 <= i < s.len() ==> map_of_entries(s).contains_key(#[trigger] s[i].0)
                && map_of_entries(s)[s[i].0] == s[i].1,
    decreases s.len(),
{
    if s.len() == 0 {
    } else {
        let s0 = s.drop_last();
        assert(distinct_tags(s0));
        lemma_map_of_entries(s0);
        assert forall|i: int|
            0 <= i < s.len() implies map_of_entries(s).contains_key(#[trigger] s[i].0)
            && map_of_entries(s)[s[i].0] == s[i].1 by {
            if i < s.len() - 1 {
                assert(s0[i] == s[i]);
                assert(s[i].0 != s.last().0);
            }
        }
        assert forall|k: Option<Seq<char>>| map_of_entries(s).contains_key(k) implies exists|i: int|
            0 <= i < s.len() && s[i].0 == k by {
            if k != s.last().0 {
                assert(map_of_entries(s0).contains_key(k));
                let i = choose|i: int| 0 <= i < s0.len() && s0[i].0 == k;
                assert(s0[i] == s[i]);
                assert(s[i].0 == k);
            } else {
                assert(s[s.len() - 1].0 == k);
            }
        }
    }
}

/// Two entry sequences with distinct tags that hold the same collection of
/// entries denote the same mapping, whatever their order.
pub proof fn lemma_map_of_entries_permutation(
    s1: Seq<(Option<Seq<char>>, Seq<char>)>,
    s2: Seq<(Option<Seq<char>>, Seq<char>)>,
)
    requires
        distinct_tags(s1),
        distinct_tags(s2),
        s1.to_multiset() == s2.to_multiset(),
    ensures
        map_of_entries(s1) == map_of_entries(s2),
{
    broadcast use vstd::seq_lib::group_to_multiset_ensures;

    lemma_map_of_entries(s1);
    lemma_map_of_entries(s2);
    let m1 = map_of_entries(s1);
    let m2 = map_of_entries(s2);
    assert forall|k: Option<Seq<char>>| #[trigger]
        m1.contains_key(k) implies m2.contains_key(k) && m1[k] == m2[k] by {
        let i = choose|i: int| 0 <= i < s1.len() && s1[i].0 == k;
        assert(s1.contains(s1[i]));
        assert(s1.to_multiset().count(s1[i]) > 0);
        assert(s2.to_multiset().count(s1[i]) > 0);
        assert(s2.contains(s1[i]));
        let j = choose|j: int| 0 <= j < s2.len() && s2[j] == s1[i];
        assert(s2[j].0 == k);
    }
    assert forall|k: Option<Seq<char>>| #[trigger] m2.contains_key(k) implies m1.contains_key(
        k,
    ) by {
        let j = choose|j: int| 0 <= j < s2.len() && s2[j].0 == k;
        assert(s2.contains(s2[j]));
        assert(s2.to_multiset().count(s2[j]) > 0);
        assert(s1.to_multiset().count(s2[j]) > 0);
        assert(s1.contains(s2[j]));
        let i = choose|i: int| 0 <= i < s1.len() && s1[i] == s2[j];
        assert(s1[i].0 == k);
    }
    assert(m1 =~= m2);
}

/// An ordered collection of `(optional language tag, value)` pairs with at
/// most one entry per distinct tag.
///
/// The entry with tag `None` is the field's unlocalized default value; each
/// `Some(tag)` entry is one localized variant. Tags are compared by exact
/// string equality, and an empty tag is a tag like any other. Entries keep
/// their insertion order, which fixes the encoding order; the mapping a
/// container denotes, [`LocalizedClaim::as_map`], does not depend on that
/// order.
#[derive(Clone, Debug, PartialEq)]
pub struct LocalizedClaim {
    entries: Vec<(Option<String>, String)>,
}

impl View for LocalizedClaim {
    type V = Seq<(Option<Seq<char>>, Seq<char>)>;

    closed spec fn view(&self) -> Self::V {
        self.entries.deep_view()
    }
}

impl LocalizedClaim {
    /// At most one entry per distinct tag.
    pub open spec fn wf(&self) -> bool {
        distinct_tags(self@)
    }

    /// The mapping from tags to values that this container denotes.
    pub open spec fn as_map(&self) -> Map<Option<Seq<char>>, Seq<char>> {
        map_of_entries(self@)
    }

    /// An empty container.
    pub fn new() -> (r: Self)
        ensures
            r@ == Seq::<(Option<Seq<char>>, Seq<char>)>::empty(),
            r.wf(),
    {
        let r = LocalizedClaim { entries: Vec::new() };
        proof {
            assert(r@ =~= Seq::<(Option<Seq<char>>, Seq<char>)>::empty());
        }
        r
    }

    /// Number of entries.
    pub fn len(&self) -> (r: usize)
        ensures
            r == self@.len(),
    {
        self.entries.len()
    }

    /// The `i`th `(tag, value)` pair, in insertion order.
    pub fn entry(&self, i: usize) -> (r: &(Option<String>, String))
        requires
            i < self@.len(),
        ensures
            r.deep_view() == self@[i as int],
    {
        &self.entries[i]
    }

    /// Insert a value for a tag. Fails, leaving the container unchanged, if
    /// an entry for the tag already exists; otherwise appends the entry.
    pub fn insert(&mut self, tag: Option<String>, value: String) -> (r: bool)
        requires
            old(self).wf(),
        ensures
            final(self).wf(),
            r == !old(self).as_map().contains_key(tag.deep_view()),
            r ==> final(self)@ == old(self)@.push((tag.deep_view(), value@)),
            !r ==> *final(self) == *old(self),
    {
        let mut i: usize = 0;
        let n = self.entries.len();
        while i < n
            invariant
                i <= n,
                n == self@.len(),
                forall|j: int| 0 <= j < i ==> self@[j].0 != tag.deep_view(),
                self.wf(),
                *self == *old(self),
            decreases n - i,
        {
            if tag_eq(&self.entries[i].0, &tag) {
                proof {
                    lemma_map_of_entries(old(self)@);
                    assert(self@[i as int] == self.entries@[i as int].deep_view());
                    assert(old(self)@[i as int].0 == tag.deep_view());
                }
                return false;
            }
            proof {
                assert(self@[i as int] == self.entries@[i as int].deep_view());
            }
            i = i + 1;
        }
        self.entries.push((tag, value));
        proof {
            lemma_map_of_entries(old(self)@);
            assert(forall|j: int| 0 <= j < old(self)@.len() ==> old(self)@[j].0 != tag.deep_view());
            assert(!old(self).as_map().contains_key(tag.deep_view()));
            assert(self@ =~= old(self)@.push((tag.deep_view(), value@)));
            assert(self.wf());
        }
        true
    }

    /// Look up the value for a tag, comparing tags by exact string equality.
    pub fn get(&self, tag: &Option<String>) -> (r: Option<&String>)
        requires
            self.wf(),
        ensures
            match r {
                Some(v) => self.as_map().contains_key(tag.deep_view()) && v@ == self.as_map()[
                    tag.deep_view()
                ],
                None => !self.as_map().contains_key(tag.deep_view()),
            },
    {
        let mut i: usize = 0;
        let n = self.entries.len();
        while i < n
            invariant
                i <= n,
                n == self@.len(),
                self.wf(),
                forall|j: int| 0 <= j < i ==> self@[j].0 != tag.deep_view(),
            decreases n - i,
        {
            if tag_eq(&self.entries[i].0, tag) {
                proof {
                    lemma_map_of_entries(self@);
                    assert(self@[i as int] == self.entries@[i as int].deep_view());
                    assert(self@[i as int].0 == tag.deep_view());
                }
                return Some(&self.entries[i].1);
            }
            proof {
                assert(self@[i as int] == self.entries@[i as int].deep_view());
            }
            i = i + 1;
        }
        proof {
            lemma_map_of_entries(self@);
        }
        None
    }

    /// True exactly when the two well-formed containers denote the same
    /// mapping: the same entries, in any order.
    pub fn same_entries(&self, other: &Self) -> (r: bool)
        requires
            self.wf(),
            other.wf(),
        ensures
            r == (self.as_map() == other.as_map()),
    {
        proof {
            lemma_map_of_entries(self@);
            lemma_map_of_entries(other@);
        }
        let r = entries_included(self, other) && entries_included(other, self);
        proof {
            if r {
                assert(self.as_map() =~= other.as_map());
            }
        }
        r
    }
}

/// Compare two optional tags by exact string equality.
pub fn tag_eq(a: &Option<String>, b: &Option<String>) -> (r: bool)
    ensures
        r == (a.deep_view() == b.deep_view()),
{
    match (a, b) {
        (None, None) => true,
        (Some(x), Some(y)) => *x == *y,
        _ => false,
    }
}

/// True when every entry of `a` is present, with the same value, in `b`'s
/// mapping.
fn entries_included(a: &LocalizedClaim, b: &LocalizedClaim) -> (r: bool)
    requires
        a.wf(),
        b.wf(),
    ensures
        r == forall|i: int|
            0 <= i < a@.len() ==> b.as_map().contains_key(#[trigger] a@[i].0) && b.as_map()[a@[
                i
            ].0] == a@[i].1,
{
    let n = a.len();
    let mut i: usize = 0;
    while i < n
        invariant
            i <= n,
            n == a@.len(),
            a.wf(),
            b.wf(),
            forall|j: int|
                0 <= j < i ==> b.as_map().contains_key(#[trigger] a@[j].0) && b.as_map()[a@[j].0]
                    == a@[j].1,
        decreases n - i,
    {
        let e = a.entry(i);
        match b.get(&e.0) {
            Some(v) => {
                if !(*v == e.1) {
                    proof {
                        assert(e.deep_view() == a@[i as int]);
                        assert(a@[i as int].0 == e.0.deep_view());
                        assert(a@[i as int].1 == e.1@);
                        assert(b.as_map()[a@[i as int].0] != a@[i as int].1);
                    }
                    return false;
                }
            },
            None => {
                proof {
                    assert(e.deep_view() == a@[i as int]);
                    assert(!b.as_map().contains_key(a@[i as int].0));
                }
                return false;
            },
        }
        proof {
            assert(e.deep_view() == a@[i as int]);
            assert(a@[i as int].0 == e.0.deep_view());
            assert(a@[i as int].1 == e.1@);
        }
        i = i + 1;
    }
    true
}

} // verus!
