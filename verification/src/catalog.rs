//! The catalog of a build: its documents, in the order of their slugs.
//!
//! The documents are kept in a vector, and the order of the slugs is the
//! order of a dictionary as `precedes` defines it, which is the order in
//! which the standard library sorts strings. That the vector is in this
//! order, with no slug twice, is what `wf` says and `insert` keeps.

use vstd::prelude::*;
use crate::markdown::Element;
use crate::text::{from_chars, opt_view, to_chars};

verus! {

/// Whether `a` comes before `b` in the order of a dictionary, character by
/// character.
pub open spec fn precedes(a: Seq<char>, b: Seq<char>) -> bool
    decreases a.len(),
{
    if b.len() == 0 {
        false
    } else if a.len() == 0 {
        true
    } else if a[0] != b[0] {
        a[0] < b[0]
    } else {
        precedes(a.drop_first(), b.drop_first())
    }
}

/// Of two strings one comes before the other, or they are the same.
pub proof fn lemma_precedes_total(a: Seq<char>, b: Seq<char>)
    ensures
        precedes(a, b) || precedes(b, a) || a == b,
        !(precedes(a, b) && precedes(b, a)),
        !precedes(a, a),
    decreases a.len(),
{
    if a.len() > 0 && b.len() > 0 && a[0] == b[0] {
        lemma_precedes_total(a.drop_first(), b.drop_first());
        if a.drop_first() == b.drop_first() {
            assert(a =~= seq![a[0]] + a.drop_first());
            assert(b =~= seq![b[0]] + b.drop_first());
        }
    } else if a.len() == 0 && b.len() == 0 {
        assert(a =~= b);
    }
    if a.len() > 0 {
        lemma_precedes_total(a.drop_first(), a.drop_first());
    }
}

/// What comes before something that comes before a third comes before the
/// third.
pub proof fn lemma_precedes_transitive(a: Seq<char>, b: Seq<char>, c: Seq<char>)
    requires
        precedes(a, b),
        precedes(b, c),
    ensures
        precedes(a, c),
    decreases a.len(),
{
    if a.len() > 0 && a[0] == b[0] && b[0] == c[0] {
        lemma_precedes_transitive(a.drop_first(), b.drop_first(), c.drop_first());
    }
}

/// How two strings stand to each other in the order of a dictionary.
#[derive(Debug, Clone, Copy, PartialEq, Eq)]
pub enum Place {
    Before,
    Same,
    After,
}

/// Finds how `a` stands to `b` in the order of a dictionary.
pub fn place(a: &str, b: &str) -> (place: Place)
    ensures
        place == Place::Before <==> precedes(a@, b@),
        place == Place::Same <==> a@ == b@,
        place == Place::After <==> precedes(b@, a@),
{
    let left = to_chars(a);
    let right = to_chars(b);
    proof {
        lemma_precedes_total(a@, b@);
        assert(left@.subrange(0, left@.len() as int) =~= left@);
        assert(right@.subrange(0, right@.len() as int) =~= right@);
    }
    let mut i: usize = 0;
    while i < left.len() && i < right.len()
        invariant
            i <= left.len(),
            i <= right.len(),
            left@ == a@,
            right@ == b@,
            left@.subrange(0, i as int) == right@.subrange(0, i as int),
            precedes(left@, right@) == precedes(
                left@.subrange(i as int, left@.len() as int),
                right@.subrange(i as int, right@.len() as int),
            ),
            precedes(right@, left@) == precedes(
                right@.subrange(i as int, right@.len() as int),
                left@.subrange(i as int, left@.len() as int),
            ),
        decreases left.len() - i,
    {
        let ghost rest_left = left@.subrange(i as int, left@.len() as int);
        let ghost rest_right = right@.subrange(i as int, right@.len() as int);
        assert(rest_left[0] == left@[i as int]);
        assert(rest_right[0] == right@[i as int]);
        if left[i] < right[i] {
            return Place::Before;
        }
        if left[i] > right[i] {
            return Place::After;
        }
        assert(rest_left.drop_first() =~= left@.subrange(i + 1, left@.len() as int));
        assert(rest_right.drop_first() =~= right@.subrange(i + 1, right@.len() as int));
        assert(left@.subrange(0, i + 1) =~= left@.subrange(0, i as int).push(left@[i as int]));
        assert(right@.subrange(0, i + 1) =~= right@.subrange(0, i as int).push(right@[i as int]));
        i += 1;
    }
    let ghost rest_left = left@.subrange(i as int, left@.len() as int);
    let ghost rest_right = right@.subrange(i as int, right@.len() as int);
    if left.len() < right.len() {
        assert(rest_left.len() == 0 && rest_right.len() > 0);
        Place::Before
    } else if left.len() > right.len() {
        assert(rest_right.len() == 0 && rest_left.len() > 0);
        Place::After
    } else {
        assert(left@ =~= left@.subrange(0, i as int));
        assert(right@ =~= right@.subrange(0, i as int));
        Place::Same
    }
}

/// How many characters the name of a document's file starts with before its
/// slug: the date, as in `2019-03-28-`.
pub const DATE_PREFIX: usize = 11;

/// The slug in the name `stem` of a document's file, without the date that
/// the name starts with; nothing where the name holds no more than a date.
pub open spec fn slug_in(stem: Seq<char>) -> Option<Seq<char>> {
    if stem.len() > DATE_PREFIX {
        Some(stem.subrange(DATE_PREFIX as int, stem.len() as int))
    } else {
        None
    }
}

/// Reads the slug from the name of a document's file.
pub fn slug_of(stem: &str) -> (slug: Option<String>)
    ensures
        opt_view(slug) == slug_in(stem@),
{
    let chars = to_chars(stem);
    if chars.len() > DATE_PREFIX {
        Some(from_chars(&chars, DATE_PREFIX, chars.len()))
    } else {
        None
    }
}

/// A document of the build: the slug it is known by, where it was read from,
/// and its output tree.
#[derive(Debug)]
pub struct Asset {
    pub slug: String,
    pub path: String,
    pub elements: Element,
}

/// The documents of a build, each under its slug.
#[derive(Debug)]
pub struct Catalog {
    assets: Vec<Asset>,
}

impl Catalog {
    /// The documents, as they are kept.
    pub closed spec fn items(&self) -> Seq<Asset> {
        self.assets@
    }

    /// Whether the documents are kept in the order of their slugs, no slug
    /// twice.
    pub open spec fn wf(&self) -> bool {
        forall|i: int, j: int|
            0 <= i < j < self.items().len() ==> precedes(
                (#[trigger] self.items()[i]).slug@,
                (#[trigger] self.items()[j]).slug@,
            )
    }

    /// Whether a document is kept under `slug`.
    pub open spec fn has(&self, slug: Seq<char>) -> bool {
        exists|i: int| 0 <= i < self.items().len() && (#[trigger] self.items()[i]).slug@ == slug
    }

    /// A catalog without documents.
    pub fn new() -> (catalog: Self)
        ensures
            catalog.wf(),
            catalog.items().len() == 0,
    {
        Catalog { assets: Vec::new() }
    }

    /// How many documents the catalog holds.
    pub fn len(&self) -> (n: usize)
        ensures
            n == self.items().len(),
    {
        self.assets.len()
    }

    /// Where the document with the slug `slug` is kept, or where it would
    /// have to be put.
    fn position(&self, slug: &str) -> (at: (usize, bool))
        requires
            self.wf(),
        ensures
            at.0 <= self.items().len(),
            forall|i: int| 0 <= i < at.0 ==> precedes((#[trigger] self.items()[i]).slug@, slug@),
            at.1 ==> at.0 < self.items().len() && self.items()[at.0 as int].slug@ == slug@,
            !at.1 ==> forall|i: int|
                at.0 <= i < self.items().len() ==> precedes(
                    slug@,
                    (#[trigger] self.items()[i]).slug@,
                ),
    {
        let mut i: usize = 0;
        while i < self.assets.len()
            invariant
                self.wf(),
                i <= self.assets.len(),
                forall|k: int| 0 <= k < i ==> precedes((#[trigger] self.items()[k]).slug@, slug@),
            decreases self.assets.len() - i,
        {
            match place(self.assets[i].slug.as_str(), slug) {
                Place::Before => {},
                Place::Same => {
                    return (i, true);
                },
                Place::After => {
                    assert forall|k: int| i <= k < self.items().len() implies precedes(
                        slug@,
                        (#[trigger] self.items()[k]).slug@,
                    ) by {
                        if i < k {
                            lemma_precedes_transitive(
                                slug@,
                                self.items()[i as int].slug@,
                                self.items()[k].slug@,
                            );
                        }
                    }
                    return (i, false);
                },
            }
            i += 1;
        }
        (i, false)
    }

    /// The document kept under `slug`, if there is one.
    pub fn get(&self, slug: &str) -> (asset: Option<&Asset>)
        requires
            self.wf(),
        ensures
            match asset {
                Some(found) => found.slug@ == slug@ && self.items().contains(*found),
                None => !self.has(slug@),
            },
    {
        let (at, found) = self.position(slug);
        if found {
            Some(&self.assets[at])
        } else {
            proof {
                assert forall|i: int| 0 <= i < self.items().len() implies (
                #[trigger] self.items()[i]).slug@ != slug@ by {
                    lemma_precedes_total(slug@, slug@);
                }
            }
            None
        }
    }

    /// Puts `asset` into the catalog, in place of the document that was kept
    /// under its slug, if there was one.
    pub fn insert(&mut self, asset: Asset)
        requires
            old(self).wf(),
        ensures
            final(self).wf(),
            final(self).has(asset.slug@),
            final(self).items().contains(asset),
            old(self).has(asset.slug@) ==> final(self).items().len() == old(self).items().len(),
            !old(self).has(asset.slug@) ==> final(self).items().len() == old(self).items().len()
                + 1,
            forall|i: int|
                0 <= i < old(self).items().len() && (#[trigger] old(self).items()[i]).slug@
                    != asset.slug@ ==> final(self).items().contains(old(self).items()[i]),
            forall|i: int|
                0 <= i < final(self).items().len() ==> (#[trigger] final(self).items()[i]) == asset
                    || old(self).items().contains(final(self).items()[i]),
    {
        let (at, found) = self.position(asset.slug.as_str());
        let ghost before = self.assets@;
        proof {
            lemma_precedes_total(asset.slug@, asset.slug@);
        }
        if found {
            self.assets.set(at, asset);
            assert(self.assets@[at as int] == asset);
            assert forall|i: int|
                0 <= i < before.len() && (#[trigger] before[i]).slug@
                    != asset.slug@ implies self.assets@.contains(before[i]) by {
                assert(self.assets@[i] == before[i]);
            }
            assert forall|i: int| 0 <= i < self.assets@.len() implies (#[trigger] self.assets@[i])
                == asset || before.contains(self.assets@[i]) by {
                if i != at {
                    assert(before[i] == self.assets@[i]);
                }
            }
        } else {
            assert forall|i: int| 0 <= i < before.len() implies (#[trigger] before[i]).slug@
                != asset.slug@ by {}
            self.assets.insert(at, asset);
            assert(self.assets@[at as int] == asset);
            assert forall|i: int| 0 <= i < before.len() implies self.assets@.contains(
                #[trigger] before[i],
            ) by {
                if i < at {
                    assert(self.assets@[i] == before[i]);
                } else {
                    assert(self.assets@[i + 1] == before[i]);
                }
            }
            assert forall|i: int| 0 <= i < self.assets@.len() implies (#[trigger] self.assets@[i])
                == asset || before.contains(self.assets@[i]) by {
                if i < at {
                    assert(before[i] == self.assets@[i]);
                } else if i > at {
                    assert(before[i - 1] == self.assets@[i]);
                }
            }
        }
    }

    /// The documents of the catalog, as they are kept: in the order of their
    /// slugs, where the catalog is in order.
    pub fn assets(&self) -> (assets: Vec<&Asset>)
        ensures
            assets@.len() == self.items().len(),
            forall|i: int| 0 <= i < assets@.len() ==> *(#[trigger] assets@[i]) == self.items()[i],
            self.wf() ==> forall|i: int, j: int|
                0 <= i < j < assets@.len() ==> precedes(
                    (#[trigger] assets@[i]).slug@,
                    (#[trigger] assets@[j]).slug@,
                ),
    {
        let mut assets: Vec<&Asset> = Vec::new();
        let mut i: usize = 0;
        while i < self.assets.len()
            invariant
                i <= self.assets.len(),
                assets@.len() == i,
                forall|k: int| 0 <= k < i ==> *(#[trigger] assets@[k]) == self.assets@[k],
            decreases self.assets.len() - i,
        {
            assets.push(&self.assets[i]);
            i += 1;
        }
        assets
    }
}

} // verus!
