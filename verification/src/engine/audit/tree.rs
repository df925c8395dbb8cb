//! The index of a document's elements by tag name.

use vstd::prelude::*;
use crate::dom::document::{Document, ElementRef};
use crate::dom::html::NodeKind;
use crate::engine::rules::utils::nodes::{nodes_wf, ElementNodes};
use crate::text::{lex_less, lex_total, lex_transitive, str_eq, str_less};

verus! {

/// The elements of a document, in one bucket for each tag name. The buckets stand in the
/// order of their tag names; a bucket holds its elements in document order.
pub struct AccessibilityTree {
    /// The tag names, each with its bucket.
    pub entries: Vec<(String, ElementNodes)>,
}

impl AccessibilityTree {
    /// The tag name of the bucket at index `i`.
    pub open spec fn key(&self, i: int) -> Seq<char> {
        self.entries@[i].0@
    }

    /// The bucket at index `i`.
    pub open spec fn items(&self, i: int) -> Seq<(ElementRef, Option<u64>)> {
        self.entries@[i].1@
    }

    /// The number of buckets.
    pub open spec fn spec_len(&self) -> int {
        self.entries@.len() as int
    }

    /// Whether the buckets stand in the strict order of their tag names, so that no tag
    /// name has two buckets.
    pub open spec fn wf(&self) -> bool {
        forall|i: int, j: int|
            0 <= i < j < self.spec_len() ==> lex_less(#[trigger] self.key(i), #[trigger] self.key(j))
    }

    /// Whether there is a bucket for `tag`.
    pub open spec fn has_key(&self, tag: Seq<char>) -> bool {
        exists|i: int| 0 <= i < self.spec_len() && #[trigger] self.key(i) == tag
    }

    /// The bucket for `tag`; empty where there is none.
    pub open spec fn bucket(&self, tag: Seq<char>) -> Seq<(ElementRef, Option<u64>)> {
        if self.has_key(tag) {
            self.items(choose|i: int| 0 <= i < self.spec_len() && #[trigger] self.key(i) == tag)
        } else {
            Seq::empty()
        }
    }

    /// Whether every bucket holds elements of `doc` only.
    pub open spec fn within(&self, doc: &Document) -> bool {
        forall|i: int| 0 <= i < self.spec_len() ==> nodes_wf(doc, #[trigger] self.items(i))
    }

    /// In a tree whose buckets stand in order, the bucket for the tag name at index `k` is
    /// the bucket at index `k`.
    pub proof fn bucket_at(&self, k: int)
        requires
            self.wf(),
            0 <= k < self.spec_len(),
        ensures
            self.has_key(self.key(k)),
            self.bucket(self.key(k)) == self.items(k),
    {
        let tag = self.key(k);
        let c = choose|i: int| 0 <= i < self.spec_len() && #[trigger] self.key(i) == tag;
        if c < k {
            assert(lex_less(self.key(c), self.key(k)));
            lex_total(self.key(c), self.key(k));
        } else if k < c {
            assert(lex_less(self.key(k), self.key(c)));
            lex_total(self.key(k), self.key(c));
        }
    }

    /// A tree without buckets.
    pub fn new() -> (tree: AccessibilityTree)
        ensures
            tree.wf(),
            tree.spec_len() == 0,
    {
        AccessibilityTree { entries: Vec::new() }
    }

    /// The number of buckets.
    pub fn len(&self) -> (n: usize)
        ensures
            n == self.spec_len(),
    {
        self.entries.len()
    }

    /// The index of the first bucket whose tag name does not stand before `tag`.
    fn position(&self, tag: &str) -> (pos: usize)
        requires
            self.wf(),
        ensures
            pos <= self.spec_len(),
            forall|i: int| 0 <= i < pos ==> lex_less(#[trigger] self.key(i), tag@),
            forall|i: int| pos <= i < self.spec_len() ==> !lex_less(#[trigger] self.key(i), tag@),
    {
        let mut pos: usize = 0;
        while pos < self.entries.len()
            invariant
                pos <= self.spec_len(),
                self.wf(),
                forall|i: int| 0 <= i < pos ==> lex_less(#[trigger] self.key(i), tag@),
            decreases self.entries.len() - pos,
        {
            if !str_less(self.entries[pos].0.as_str(), tag) {
                assert forall|i: int| pos <= i < self.spec_len() implies !lex_less(
                    #[trigger] self.key(i),
                    tag@,
                ) by {
                    if i > pos && lex_less(self.key(i), tag@) {
                        assert(lex_less(self.key(pos as int), self.key(i)));
                        lex_transitive(self.key(pos as int), self.key(i), tag@);
                    }
                }
                return pos;
            }
            pos += 1;
        }
        pos
    }

    /// The bucket for `tag`, if there is one.
    pub fn get(&self, tag: &str) -> (found: Option<&ElementNodes>)
        requires
            self.wf(),
        ensures
            found is Some <==> self.has_key(tag@),
            found matches Some(nodes) ==> nodes@ == self.bucket(tag@),
            found matches Some(nodes) ==> forall|d: &Document|
                self.within(d) ==> #[trigger] nodes_wf(d, nodes@),
    {
        let pos = self.position(tag);
        if pos < self.entries.len() && str_eq(self.entries[pos].0.as_str(), tag) {
            proof {
                self.bucket_at(pos as int);
                assert forall|d: &Document| self.within(d) implies #[trigger] nodes_wf(
                    d,
                    self.items(pos as int),
                ) by {}
            }
            Some(&self.entries[pos].1)
        } else {
            proof {
                assert forall|i: int| 0 <= i < self.spec_len() implies #[trigger] self.key(i)
                    != tag@ by {
                    lex_total(self.key(i), tag@);
                    if i > pos {
                        assert(lex_less(self.key(pos as int), self.key(i)));
                        lex_total(self.key(pos as int), tag@);
                        if lex_less(tag@, self.key(pos as int)) && self.key(i) == tag@ {
                            lex_total(self.key(pos as int), self.key(i));
                        }
                    }
                }
            }
            None
        }
    }

    /// Makes sure that there is a bucket for `tag`: an empty one is put in where there is
    /// none.
    pub fn seed(&mut self, tag: String)
        requires
            old(self).wf(),
        ensures
            final(self).wf(),
            forall|t: Seq<char>|
                #[trigger] final(self).has_key(t) <==> (old(self).has_key(t) || t == tag@),
            forall|t: Seq<char>| #[trigger] final(self).bucket(t) == old(self).bucket(t),
            forall|d: &Document| old(self).within(d) ==> #[trigger] final(self).within(d),
    {
        let pos = self.position(tag.as_str());
        if pos < self.entries.len() && str_eq(self.entries[pos].0.as_str(), tag.as_str()) {
            assert(self.key(pos as int) == tag@);
            return ;
        }
        let ghost before = *self;
        let ghost tag_view = tag@;
        self.entries.insert(pos, (tag, Vec::new()));
        proof {
            before.inserted(self, pos as int, tag_view, Seq::empty());
            assert forall|t: Seq<char>| #[trigger] self.bucket(t) == before.bucket(t) by {
                if t == tag_view {
                    assert(!before.has_key(t));
                }
            }
        }
    }

    /// Puts `item` at the end of the bucket for `tag`, which is made where there is none.
    pub fn add(&mut self, tag: String, item: (ElementRef, Option<u64>))
        requires
            old(self).wf(),
        ensures
            final(self).wf(),
            forall|t: Seq<char>|
                #[trigger] final(self).has_key(t) <==> (old(self).has_key(t) || t == tag@),
            forall|t: Seq<char>|
                #[trigger] final(self).bucket(t) == if t == tag@ {
                    old(self).bucket(t).push(item)
                } else {
                    old(self).bucket(t)
                },
            forall|d: &Document|
                old(self).within(d) && item.0.wf(d) ==> #[trigger] final(self).within(d),
    {
        let pos = self.position(tag.as_str());
        let ghost before = *self;
        let ghost tag_view = tag@;
        if pos < self.entries.len() && str_eq(self.entries[pos].0.as_str(), tag.as_str()) {
            let (key, mut bucket) = self.entries.remove(pos);
            bucket.push(item);
            self.entries.insert(pos, (key, bucket));
            proof {
                assert(self.spec_len() == before.spec_len());
                assert forall|i: int| 0 <= i < self.spec_len() implies #[trigger] self.key(i)
                    == before.key(i) by {}
                assert forall|i: int| 0 <= i < self.spec_len() && i != pos implies #[trigger] self.items(
                    i,
                ) == before.items(i) by {}
                assert(self.items(pos as int) == before.items(pos as int).push(item));
                assert(self.wf()) by {
                    assert forall|i: int, j: int| 0 <= i < j < self.spec_len() implies lex_less(
                        #[trigger] self.key(i),
                        #[trigger] self.key(j),
                    ) by {
                        assert(lex_less(before.key(i), before.key(j)));
                    }
                }
                assert forall|t: Seq<char>| #[trigger] self.has_key(t) <==> (before.has_key(t) || t
                    == tag_view) by {
                    if self.has_key(t) {
                        let i = choose|i: int| 0 <= i < self.spec_len() && #[trigger] self.key(i) == t;
                        assert(before.key(i) == t);
                    }
                    if before.has_key(t) {
                        let i = choose|i: int|
                            0 <= i < before.spec_len() && #[trigger] before.key(i) == t;
                        assert(self.key(i) == t);
                    }
                    if t == tag_view {
                        assert(self.key(pos as int) == t);
                    }
                }
                assert forall|t: Seq<char>| #[trigger] self.bucket(t) == (if t == tag_view {
                    before.bucket(t).push(item)
                } else {
                    before.bucket(t)
                }) by {
                    if self.has_key(t) {
                        let i = choose|i: int| 0 <= i < self.spec_len() && #[trigger] self.key(i) == t;
                        assert(before.key(i) == t);
                        self.bucket_at(i);
                        before.bucket_at(i);
                        if t == tag_view {
                            self.bucket_at(pos as int);
                            before.bucket_at(pos as int);
                        } else {
                            assert(i != pos);
                        }
                    } else {
                        assert(!before.has_key(t));
                    }
                }
                assert forall|d: &Document| before.within(d) && item.0.wf(d) implies #[trigger] self.within(
                    d,
                ) by {
                    assert forall|i: int| 0 <= i < self.spec_len() implies nodes_wf(
                        d,
                        #[trigger] self.items(i),
                    ) by {
                        assert(nodes_wf(d, before.items(i)));
                    }
                }
            }
        } else {
            let mut bucket: ElementNodes = Vec::new();
            bucket.push(item);
            self.entries.insert(pos, (tag, bucket));
            proof {
                before.inserted(self, pos as int, tag_view, seq![item]);
                assert forall|t: Seq<char>| #[trigger] self.bucket(t) == (if t == tag_view {
                    before.bucket(t).push(item)
                } else {
                    before.bucket(t)
                }) by {
                    if t == tag_view {
                        assert(!before.has_key(t));
                        assert(Seq::<(ElementRef, Option<u64>)>::empty().push(item) =~= seq![item]);
                    }
                }
            }
        }
    }

    /// What holds of a tree `after` that is this tree with one bucket put in at `pos`, where
    /// `pos` is the place of the new tag name in the order of the tag names.
    proof fn inserted(
        &self,
        after: &AccessibilityTree,
        pos: int,
        tag: Seq<char>,
        items: Seq<(ElementRef, Option<u64>)>,
    )
        requires
            self.wf(),
            0 <= pos <= self.spec_len(),
            forall|i: int| 0 <= i < pos ==> lex_less(#[trigger] self.key(i), tag),
            forall|i: int| pos <= i < self.spec_len() ==> !lex_less(#[trigger] self.key(i), tag),
            pos < self.spec_len() ==> self.key(pos) != tag,
            after.spec_len() == self.spec_len() + 1,
            after.key(pos) == tag,
            after.items(pos) == items,
            forall|i: int|
                0 <= i < pos ==> #[trigger] after.key(i) == self.key(i) && after.items(i)
                    == self.items(i),
            forall|i: int|
                pos < i < after.spec_len() ==> #[trigger] after.key(i) == self.key(i - 1)
                    && after.items(i) == self.items(i - 1),
        ensures
            after.wf(),
            !self.has_key(tag),
            forall|t: Seq<char>| #[trigger] after.has_key(t) <==> (self.has_key(t) || t == tag),
            after.bucket(tag) == items,
            forall|t: Seq<char>| t != tag ==> #[trigger] after.bucket(t) == self.bucket(t),
            forall|d: &Document|
                self.within(d) && nodes_wf(d, items) ==> #[trigger] after.within(d),
    {
        assert forall|i: int| pos <= i < self.spec_len() implies lex_less(
            tag,
            #[trigger] self.key(i),
        ) by {
            lex_total(self.key(pos), tag);
            if i > pos {
                assert(lex_less(self.key(pos), self.key(i)));
                lex_transitive(tag, self.key(pos), self.key(i));
            }
        }
        assert forall|i: int| 0 <= i < self.spec_len() implies #[trigger] self.key(i) != tag by {
            lex_total(self.key(i), tag);
        }
        assert(after.wf()) by {
            assert forall|i: int, j: int| 0 <= i < j < after.spec_len() implies lex_less(
                #[trigger] after.key(i),
                #[trigger] after.key(j),
            ) by {
                if j < pos {
                    assert(lex_less(self.key(i), self.key(j)));
                } else if j == pos {
                    assert(lex_less(self.key(i), tag));
                } else if i < pos {
                    assert(lex_less(self.key(i), tag));
                    assert(lex_less(tag, self.key(j - 1)));
                    lex_transitive(self.key(i), tag, self.key(j - 1));
                } else if i == pos {
                    assert(lex_less(tag, self.key(j - 1)));
                } else {
                    assert(lex_less(self.key(i - 1), self.key(j - 1)));
                }
            }
        }
        assert forall|t: Seq<char>| #[trigger] after.has_key(t) <==> (self.has_key(t) || t
            == tag) by {
            if after.has_key(t) && t != tag {
                let i = choose|i: int| 0 <= i < after.spec_len() && #[trigger] after.key(i) == t;
                if i < pos {
                    assert(self.key(i) == t);
                } else {
                    assert(self.key(i - 1) == t);
                }
            }
            if self.has_key(t) {
                let i = choose|i: int| 0 <= i < self.spec_len() && #[trigger] self.key(i) == t;
                if i < pos {
                    assert(after.key(i) == t);
                } else {
                    assert(after.key(i + 1) == t);
                }
            }
            if t == tag {
                assert(after.key(pos) == t);
            }
        }
        after.bucket_at(pos);
        assert forall|t: Seq<char>| t != tag implies #[trigger] after.bucket(t) == self.bucket(
            t,
        ) by {
            if self.has_key(t) {
                let i = choose|i: int| 0 <= i < self.spec_len() && #[trigger] self.key(i) == t;
                self.bucket_at(i);
                if i < pos {
                    assert(after.key(i) == t);
                    after.bucket_at(i);
                } else {
                    assert(after.key(i + 1) == t);
                    after.bucket_at(i + 1);
                }
            }
        }
        assert forall|d: &Document| self.within(d) && nodes_wf(d, items) implies #[trigger] after.within(
            d,
        ) by {
            assert forall|i: int| 0 <= i < after.spec_len() implies nodes_wf(
                d,
                #[trigger] after.items(i),
            ) by {
                if i < pos {
                    assert(after.key(i) == self.key(i));
                    assert(nodes_wf(d, self.items(i)));
                } else if i > pos {
                    assert(after.key(i) == self.key(i - 1));
                    assert(nodes_wf(d, self.items(i - 1)));
                } else {
                    assert(after.items(i) == items);
                }
            }
        }
    }
}

} // verus!

verus! {

/// The handle of the layout box of node `node`, where `handles` gives one for each node.
pub open spec fn handle_of(handles: Option<Seq<u64>>, node: int) -> Option<u64> {
    match handles {
        Some(h) => Some(h[node]),
        None => None,
    }
}

/// The elements named `tag` among the first `upto` nodes of `doc`, in document order, each
/// with the handle of its layout box.
pub open spec fn elements_named(
    doc: &Document,
    tag: Seq<char>,
    handles: Option<Seq<u64>>,
    upto: int,
) -> Seq<(ElementRef, Option<u64>)>
    decreases upto,
{
    if upto <= 0 {
        Seq::empty()
    } else {
        let before = elements_named(doc, tag, handles, upto - 1);
        let node = doc.nodes()[upto - 1];
        if node.kind == NodeKind::Element && node.name == tag {
            before.push((ElementRef { node: (upto - 1) as usize }, handle_of(handles, upto - 1)))
        } else {
            before
        }
    }
}

/// Whether one of the first `upto` nodes of `doc` is an element named `tag`.
pub open spec fn some_named(doc: &Document, tag: Seq<char>, upto: int) -> bool {
    exists|i: int|
        0 <= i < upto && i < doc.nodes().len() && (#[trigger] doc.nodes()[i]).kind
            == NodeKind::Element && doc.nodes()[i].name == tag
}

/// The tag name that has a bucket whatever the document holds: `title` where the root
/// element is `html`, the empty name where it is not.
pub open spec fn seed_tag(doc: &Document) -> Seq<char> {
    if doc.root() is Some && doc.nodes()[doc.root()->0].name == "html"@ {
        "title"@
    } else {
        ""@
    }
}

/// Whether `tree` indexes the first `upto` nodes of `doc`: the buckets stand in the order of
/// their tag names, there is a bucket for the seeded tag name and for the tag name of each
/// element and for no other, and the bucket for a tag name holds the elements of that name
/// in document order. So every element is in exactly one bucket, that of its own tag name.
pub open spec fn indexes(
    tree: &AccessibilityTree,
    doc: &Document,
    handles: Option<Seq<u64>>,
    upto: int,
) -> bool {
    &&& tree.wf()
    &&& tree.within(doc)
    &&& forall|t: Seq<char>|
        #[trigger] tree.has_key(t) <==> (t == seed_tag(doc) || some_named(doc, t, upto))
    &&& forall|t: Seq<char>| #[trigger] tree.bucket(t) == elements_named(doc, t, handles, upto)
}

/// Two trees that index the same document have the same buckets: the same tag names, each
/// with the same elements in the same order.
pub proof fn index_is_repeatable(
    first: &AccessibilityTree,
    second: &AccessibilityTree,
    doc: &Document,
    handles: Option<Seq<u64>>,
)
    requires
        indexes(first, doc, handles, doc.nodes().len() as int),
        indexes(second, doc, handles, doc.nodes().len() as int),
    ensures
        forall|t: Seq<char>| first.has_key(t) == second.has_key(t),
        forall|t: Seq<char>| first.bucket(t) == second.bucket(t),
{
}

/// Every element of an indexed document is in the bucket of its own tag name.
pub proof fn element_is_indexed(
    tree: &AccessibilityTree,
    doc: &Document,
    handles: Option<Seq<u64>>,
    node: int,
)
    requires
        indexes(tree, doc, handles, doc.nodes().len() as int),
        0 <= node < doc.nodes().len(),
        doc.nodes()[node].kind == NodeKind::Element,
    ensures
        tree.has_key(doc.nodes()[node].name),
        tree.bucket(doc.nodes()[node].name).contains(
            (ElementRef { node: node as usize }, handle_of(handles, node)),
        ),
{
    let tag = doc.nodes()[node].name;
    assert(some_named(doc, tag, doc.nodes().len() as int));
    named_holds(doc, tag, handles, doc.nodes().len() as int, node);
}

/// An element named `tag` among the first `upto` nodes is among the elements named `tag`.
proof fn named_holds(
    doc: &Document,
    tag: Seq<char>,
    handles: Option<Seq<u64>>,
    upto: int,
    node: int,
)
    requires
        0 <= node < upto <= doc.nodes().len(),
        doc.nodes()[node].kind == NodeKind::Element,
        doc.nodes()[node].name == tag,
    ensures
        elements_named(doc, tag, handles, upto).contains(
            (ElementRef { node: node as usize }, handle_of(handles, node)),
        ),
    decreases upto,
{
    let all = elements_named(doc, tag, handles, upto);
    let item = (ElementRef { node: node as usize }, handle_of(handles, node));
    if node == upto - 1 {
        assert(all.last() == item);
    } else {
        named_holds(doc, tag, handles, upto - 1, node);
        let before = elements_named(doc, tag, handles, upto - 1);
        let k = choose|k: int| 0 <= k < before.len() && before[k] == item;
        assert(all[k] == item);
    }
}

/// An element among those named `tag` is an element of the document with that name, and
/// no element occurs twice among them.
pub proof fn named_are_elements(
    doc: &Document,
    tag: Seq<char>,
    handles: Option<Seq<u64>>,
    upto: int,
)
    requires
        0 <= upto <= doc.nodes().len() <= usize::MAX,
    ensures
        forall|k: int|
            0 <= k < elements_named(doc, tag, handles, upto).len() ==> {
                let e = (#[trigger] elements_named(doc, tag, handles, upto)[k]).0;
                e.node < upto && e.wf(doc) && doc.nodes()[e.node as int].name == tag
            },
        forall|j: int, k: int|
            0 <= j < k < elements_named(doc, tag, handles, upto).len() ==> (
            #[trigger] elements_named(doc, tag, handles, upto)[j]).0.node < (
            #[trigger] elements_named(doc, tag, handles, upto)[k]).0.node,
        forall|k: int|
            0 <= k < elements_named(doc, tag, handles, upto).len() ==> (
            #[trigger] elements_named(doc, tag, handles, upto)[k]).1 == handle_of(
                handles,
                elements_named(doc, tag, handles, upto)[k].0.node as int,
            ),
    decreases upto,
{
    if upto > 0 {
        named_are_elements(doc, tag, handles, upto - 1);
        let all = elements_named(doc, tag, handles, upto);
        let before = elements_named(doc, tag, handles, upto - 1);
        assert forall|k: int| 0 <= k < all.len() implies {
            let e = (#[trigger] all[k]).0;
            e.node < upto && e.wf(doc) && doc.nodes()[e.node as int].name == tag
        } by {
            if k < before.len() {
                assert(all[k] == before[k]);
            }
        }
        assert forall|j: int, k: int| 0 <= j < k < all.len() implies (#[trigger] all[j]).0.node < (
        #[trigger] all[k]).0.node by {
            assert(all[j] == before[j]);
            if k < before.len() {
                assert(all[k] == before[k]);
            }
        }
        assert forall|k: int| 0 <= k < all.len() implies (#[trigger] all[k]).1 == handle_of(
            handles,
            all[k].0.node as int,
        ) by {
            if k < before.len() {
                assert(all[k] == before[k]);
            }
        }
    }
}

/// Whether every entry of `tree` carries the handle that `handles` gives for its node, and
/// none where no handles are given.
pub open spec fn carries(tree: &AccessibilityTree, handles: Option<Seq<u64>>) -> bool {
    forall|i: int, k: int|
        0 <= i < tree.spec_len() && 0 <= k < tree.items(i).len() ==> (
        #[trigger] tree.items(i)[k]).1 == handle_of(handles, tree.items(i)[k].0.node as int)
}

/// In the index of a document every entry carries the handle of its node: each entry has
/// a handle where handles are given, and none has one where they are not.
pub proof fn index_carries(tree: &AccessibilityTree, doc: &Document, handles: Option<Seq<u64>>)
    requires
        indexes(tree, doc, handles, doc.nodes().len() as int),
        doc.nodes().len() <= usize::MAX,
    ensures
        carries(tree, handles),
        forall|i: int, k: int|
            0 <= i < tree.spec_len() && 0 <= k < tree.items(i).len() ==> ((
            #[trigger] tree.items(i)[k]).1 is Some <==> handles is Some),
{
    assert forall|i: int, k: int|
        0 <= i < tree.spec_len() && 0 <= k < tree.items(i).len() implies (
    #[trigger] tree.items(i)[k]).1 == handle_of(handles, tree.items(i)[k].0.node as int) by {
        tree.bucket_at(i);
        named_are_elements(doc, tree.key(i), handles, doc.nodes().len() as int);
    }
}

/// Where every node has a handle of its own, no two entries of the index share a handle.
pub proof fn handles_are_not_shared(
    tree: &AccessibilityTree,
    doc: &Document,
    handles: Seq<u64>,
    i: int,
    k: int,
    j: int,
    l: int,
)
    requires
        indexes(tree, doc, Some(handles), doc.nodes().len() as int),
        doc.nodes().len() <= usize::MAX,
        handles.len() == doc.nodes().len(),
        handles.no_duplicates(),
        0 <= i < tree.spec_len(),
        0 <= k < tree.items(i).len(),
        0 <= j < tree.spec_len(),
        0 <= l < tree.items(j).len(),
        i != j || k != l,
    ensures
        tree.items(i)[k].1 is Some,
        tree.items(j)[l].1 is Some,
        tree.items(i)[k].1 != tree.items(j)[l].1,
{
    let n = doc.nodes().len() as int;
    index_carries(tree, doc, Some(handles));
    tree.bucket_at(i);
    tree.bucket_at(j);
    named_are_elements(doc, tree.key(i), Some(handles), n);
    named_are_elements(doc, tree.key(j), Some(handles), n);
    let a = tree.items(i)[k].0.node as int;
    let b = tree.items(j)[l].0.node as int;
    if i == j {
        if k < l {
            assert(tree.items(i)[k].0.node < tree.items(i)[l].0.node);
        } else {
            assert(tree.items(i)[l].0.node < tree.items(i)[k].0.node);
        }
    } else {
        if i < j {
            assert(lex_less(tree.key(i), tree.key(j)));
        } else {
            assert(lex_less(tree.key(j), tree.key(i)));
        }
        lex_total(tree.key(i), tree.key(j));
        assert(doc.nodes()[a].name == tree.key(i));
        assert(doc.nodes()[b].name == tree.key(j));
    }
    assert(a != b);
    assert(handles[a] != handles[b]);
}

/// The index of `document`, with the handles of the layout boxes where `handles` gives them.
fn build_tree(document: &Document, handles: Option<&Vec<u64>>) -> (tree: AccessibilityTree)
    requires
        handles matches Some(h) ==> h@.len() == document.nodes().len(),
    ensures
        indexes(
            &tree,
            document,
            match handles {
                Some(h) => Some(h@),
                None => None,
            },
            document.nodes().len() as int,
        ),
{
    let ghost hs: Option<Seq<u64>> = match handles {
        Some(h) => Some(h@),
        None => None,
    };
    let mut tree = AccessibilityTree::new();
    let html_root = match document.root_element() {
        Some(root) => str_eq(root.name(document).as_str(), "html"),
        None => false,
    };
    if html_root {
        tree.seed("title".to_owned());
    } else {
        tree.seed("".to_owned());
    }
    let len = document.len();
    let mut i: usize = 0;
    proof {
        assert forall|t: Seq<char>| #[trigger] tree.bucket(t) == elements_named(
            document,
            t,
            hs,
            0,
        ) by {}
        assert forall|t: Seq<char>| #[trigger] tree.has_key(t) <==> (t == seed_tag(document)
            || some_named(document, t, 0)) by {}
        assert(tree.within(document));
    }
    while i < len
        invariant
            i <= len,
            len == document.nodes().len(),
            handles matches Some(h) ==> h@.len() == document.nodes().len(),
            hs == match handles {
                Some(h) => Some(h@),
                None => None,
            },
            indexes(&tree, document, hs, i as int),
        decreases len - i,
    {
        let ghost before = tree;
        match ElementRef::wrap(document, i) {
            Some(element) => {
                let name = element.name(document);
                let ghost tag = name@;
                let handle: Option<u64> = match handles {
                    Some(h) => Some(h[i]),
                    None => None,
                };
                tree.add(name, (element, handle));
                proof {
                    assert forall|t: Seq<char>| #[trigger] tree.has_key(t) <==> (t == seed_tag(
                        document,
                    ) || some_named(document, t, i + 1)) by {
                        if some_named(document, t, i + 1) && !some_named(document, t, i as int) {
                            assert(t == tag);
                        }
                        if t == tag {
                            assert(document.nodes()[i as int].name == t);
                            assert(some_named(document, t, i + 1));
                        }
                        if some_named(document, t, i as int) {
                            assert(some_named(document, t, i + 1));
                        }
                    }
                    assert forall|t: Seq<char>| #[trigger] tree.bucket(t) == elements_named(
                        document,
                        t,
                        hs,
                        i + 1,
                    ) by {
                        assert(before.bucket(t) == elements_named(document, t, hs, i as int));
                    }
                }
            },
            None => {
                proof {
                    assert forall|t: Seq<char>| #[trigger] tree.has_key(t) <==> (t == seed_tag(
                        document,
                    ) || some_named(document, t, i + 1)) by {
                        if some_named(document, t, i as int) {
                            assert(some_named(document, t, i + 1));
                        }
                    }
                    assert forall|t: Seq<char>| #[trigger] tree.bucket(t) == elements_named(
                        document,
                        t,
                        hs,
                        i + 1,
                    ) by {
                        assert(before.bucket(t) == elements_named(document, t, hs, i as int));
                    }
                }
            },
        }
        i += 1;
    }
    tree
}

/// The index of a document: every element in the bucket of its tag name, with no layout
/// boxes.
pub fn parse_accessibility_tree(document: &Document) -> (tree: AccessibilityTree)
    ensures
        indexes(&tree, document, None, document.nodes().len() as int),
        carries(&tree, None),
{
    let len = document.len();
    let tree = build_tree(document, None);
    proof {
        index_carries(&tree, document, None);
    }
    tree
}

/// The index of a document whose layout boxes were laid out: every element in the bucket
/// of its tag name, with the handle that `handles` gives for its node.
pub fn parse_accessibility_tree_bounded(document: &Document, handles: &Vec<u64>) -> (tree:
    AccessibilityTree)
    requires
        handles@.len() == document.nodes().len(),
    ensures
        indexes(&tree, document, Some(handles@), document.nodes().len() as int),
        carries(&tree, Some(handles@)),
{
    let len = document.len();
    let tree = build_tree(document, Some(handles));
    proof {
        index_carries(&tree, document, Some(handles@));
    }
    tree
}

} // verus!
