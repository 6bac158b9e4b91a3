//! The in-memory model of a DICOM object: a collection of string-valued
//! attributes keyed by tag, with at most one attribute per tag.

use crate::tags::{Element, Tag, Vr};
use vstd::prelude::*;

verus! {

/// A DICOM object as this library sees it: the attributes whose values the
/// anonymization rules read or write, each coerced to a string.  The binary
/// encoding, pixel data, and on-disk form stay with the caller.
pub struct DicomFile {
    elements: Vec<Element>,
}

impl DicomFile {
    /// Well-formed: no tag occurs twice.
    pub closed spec fn wf(self) -> bool {
        forall|i: int, j: int|
            0 <= i < j < self.elements@.len() ==> self.elements@[i].tag != self.elements@[j].tag
    }

    /// The file holds an attribute with tag `t`.
    pub closed spec fn spec_has(self, t: Tag) -> bool {
        exists|i: int| 0 <= i < self.elements@.len() && self.elements@[i].tag == t
    }

    /// The attribute with tag `t` (meaningful only when `spec_has(t)`).
    pub closed spec fn spec_elem(self, t: Tag) -> Element {
        self.elements@[choose|i: int|
            0 <= i < self.elements@.len() && self.elements@[i].tag == t]
    }

    /// The value of the attribute with tag `t`.
    pub open spec fn spec_value(self, t: Tag) -> Seq<char> {
        self.spec_elem(t).value@
    }

    /// The value representation of the attribute with tag `t`.
    pub open spec fn spec_vr(self, t: Tag) -> Vr {
        self.spec_elem(t).vr
    }

    /// The value of the attribute with tag `t`, or the empty string when the
    /// attribute is absent.
    pub open spec fn spec_value_or_empty(self, t: Tag) -> Seq<char> {
        if self.spec_has(t) {
            self.spec_value(t)
        } else {
            Seq::<char>::empty()
        }
    }

    proof fn lemma_elem_at(self, i: int)
        requires
            self.wf(),
            0 <= i < self.elements@.len(),
        ensures
            self.spec_has(self.elements@[i].tag),
            self.spec_elem(self.elements@[i].tag) == self.elements@[i],
    {
        let t = self.elements@[i].tag;
        assert(self.spec_has(t));
        let j = choose|j: int| 0 <= j < self.elements@.len() && self.elements@[j].tag == t;
        if i < j {
            assert(self.elements@[i].tag != self.elements@[j].tag);
        } else if j < i {
            assert(self.elements@[j].tag != self.elements@[i].tag);
        }
    }

    /// An empty file: no attributes at all.
    pub fn new() -> (r: DicomFile)
        ensures
            r.wf(),
            forall|t: Tag| !r.spec_has(t),
    {
        DicomFile { elements: Vec::new() }
    }

    fn find_index(&self, tag: Tag) -> (r: Option<usize>)
        ensures
            match r {
                Some(i) => i < self.elements@.len() && self.elements@[i as int].tag == tag,
                None => forall|i: int|
                    0 <= i < self.elements@.len() ==> self.elements@[i].tag != tag,
            },
    {
        let n = self.elements.len();
        let mut i: usize = 0;
        while i < n
            invariant
                i <= n,
                n == self.elements@.len(),
                forall|j: int| 0 <= j < i ==> self.elements@[j].tag != tag,
            decreases n - i,
        {
            if self.elements[i].tag == tag {
                return Some(i);
            }
            i += 1;
        }
        None
    }

    /// Looks the attribute with tag `tag` up and returns a copy of its
    /// value, or `None` when the file has no such attribute.
    pub fn element_value(&self, tag: Tag) -> (r: Option<String>)
        requires
            self.wf(),
        ensures
            match r {
                Some(v) => self.spec_has(tag) && v@ == self.spec_value(tag),
                None => !self.spec_has(tag),
            },
    {
        match self.find_index(tag) {
            Some(i) => {
                proof {
                    self.lemma_elem_at(i as int);
                }
                Some(self.elements[i].value.clone())
            },
            None => {
                proof {
                    if self.spec_has(tag) {
                        let j = choose|j: int|
                            0 <= j < self.elements@.len() && self.elements@[j].tag == tag;
                        assert(self.elements@[j].tag != tag);
                    }
                }
                None
            },
        }
    }

    /// Looks the attribute with tag `tag` up and returns its value
    /// representation, or `None` when the file has no such attribute.
    pub fn element_vr(&self, tag: Tag) -> (r: Option<Vr>)
        requires
            self.wf(),
        ensures
            match r {
                Some(vr) => self.spec_has(tag) && vr == self.spec_vr(tag),
                None => !self.spec_has(tag),
            },
    {
        match self.find_index(tag) {
            Some(i) => {
                proof {
                    self.lemma_elem_at(i as int);
                }
                Some(self.elements[i].vr)
            },
            None => {
                proof {
                    if self.spec_has(tag) {
                        let j = choose|j: int|
                            0 <= j < self.elements@.len() && self.elements@[j].tag == tag;
                        assert(self.elements@[j].tag != tag);
                    }
                }
                None
            },
        }
    }

    /// The value of the attribute with tag `tag`, or an empty string when
    /// the attribute is absent.
    pub fn element_value_or_empty(&self, tag: Tag) -> (r: String)
        requires
            self.wf(),
        ensures
            r@ == self.spec_value_or_empty(tag),
    {
        match self.element_value(tag) {
            Some(v) => v,
            None => String::new(),
        }
    }

    /// Adds the attribute `e`, overwriting any attribute with the same tag;
    /// every other attribute is kept as it was.
    pub fn put_element(&mut self, e: Element)
        requires
            old(self).wf(),
        ensures
            final(self).wf(),
            final(self).spec_has(e.tag),
            final(self).spec_elem(e.tag) == e,
            forall|t: Tag| t != e.tag ==> final(self).spec_has(t) == old(self).spec_has(t),
            forall|t: Tag|
                t != e.tag && old(self).spec_has(t) ==> final(self).spec_elem(t) == old(self).spec_elem(t),
    {
        let ghost pre = *self;
        match self.find_index(e.tag) {
            Some(i) => {
                let ghost tag = e.tag;
                self.elements.set(i, e);
                proof {
                    assert(self.elements@ =~= pre.elements@.update(i as int, e));
                    assert(self.wf());
                    self.lemma_elem_at(i as int);
                    assert forall|t: Tag| t != tag implies final(self).spec_has(t) == pre.spec_has(t) by {
                        if pre.spec_has(t) {
                            let k = choose|k: int|
                                0 <= k < pre.elements@.len() && pre.elements@[k].tag == t;
                            assert(k != i);
                            assert(self.elements@[k].tag == t);
                        }
                        if self.spec_has(t) {
                            let k = choose|k: int|
                                0 <= k < self.elements@.len() && self.elements@[k].tag == t;
                            assert(k != i);
                            assert(pre.elements@[k].tag == t);
                        }
                    }
                    assert forall|t: Tag| t != tag && pre.spec_has(t) implies final(self).spec_elem(t) == pre.spec_elem(t) by {
                        let k = choose|k: int|
                            0 <= k < pre.elements@.len() && pre.elements@[k].tag == t;
                        assert(k != i);
                        pre.lemma_elem_at(k);
                        assert(self.elements@[k].tag == t);
                        self.lemma_elem_at(k);
                    }
                }
            },
            None => {
                let ghost tag = e.tag;
                self.elements.push(e);
                proof {
                    assert(self.elements@ =~= pre.elements@.push(e));
                    let n = pre.elements@.len() as int;
                    assert(self.wf());
                    self.lemma_elem_at(n);
                    assert forall|t: Tag| t != tag implies final(self).spec_has(t) == pre.spec_has(t) by {
                        if self.spec_has(t) {
                            let k = choose|k: int|
                                0 <= k < self.elements@.len() && self.elements@[k].tag == t;
                            assert(k != n);
                            assert(pre.elements@[k].tag == t);
                        }
                        if pre.spec_has(t) {
                            let k = choose|k: int|
                                0 <= k < pre.elements@.len() && pre.elements@[k].tag == t;
                            assert(self.elements@[k].tag == t);
                            assert(self.spec_has(t));
                        }
                    }
                    assert forall|t: Tag| t != tag && pre.spec_has(t) implies final(self).spec_elem(t) == pre.spec_elem(t) by {
                        let k = choose|k: int|
                            0 <= k < pre.elements@.len() && pre.elements@[k].tag == t;
                        pre.lemma_elem_at(k);
                        assert(self.elements@[k].tag == t);
                        self.lemma_elem_at(k);
                    }
                }
            },
        }
    }

    /// Removes the attribute with tag `tag`, if present; every other
    /// attribute is kept as it was.
    pub fn remove_element(&mut self, tag: Tag)
        requires
            old(self).wf(),
        ensures
            final(self).wf(),
            !final(self).spec_has(tag),
            forall|t: Tag| t != tag ==> final(self).spec_has(t) == old(self).spec_has(t),
            forall|t: Tag|
                t != tag && old(self).spec_has(t) ==> final(self).spec_elem(t) == old(self).spec_elem(t),
    {
        let ghost pre = *self;
        match self.find_index(tag) {
            Some(i) => {
                self.elements.remove(i);
                proof {
                    assert(self.elements@ =~= pre.elements@.remove(i as int));
                    let n = pre.elements@.len() as int;
                    assert forall|a: int, b: int|
                        0 <= a < b < self.elements@.len() implies self.elements@[a].tag
                        != self.elements@[b].tag by {
                        let a0 = if a < i { a } else { a + 1 };
                        let b0 = if b < i { b } else { b + 1 };
                        assert(self.elements@[a] == pre.elements@[a0]);
                        assert(self.elements@[b] == pre.elements@[b0]);
                    }
                    assert(self.wf());
                    assert forall|k: int| 0 <= k < self.elements@.len() implies self.elements@[
                        k
                    ].tag != tag by {
                        let k0 = if k < i { k } else { k + 1 };
                        assert(self.elements@[k] == pre.elements@[k0]);
                        if k0 < i {
                            assert(pre.elements@[k0].tag != pre.elements@[i as int].tag);
                        } else if k0 > i {
                            assert(pre.elements@[i as int].tag != pre.elements@[k0].tag);
                        }
                    }
                    assert(!self.spec_has(tag));
                    assert forall|t: Tag| t != tag implies final(self).spec_has(t) == pre.spec_has(t) by {
                        if pre.spec_has(t) {
                            let k = choose|k: int|
                                0 <= k < pre.elements@.len() && pre.elements@[k].tag == t;
                            assert(k != i);
                            let k1 = if k < i { k } else { k - 1 };
                            assert(self.elements@[k1] == pre.elements@[k]);
                            assert(self.spec_has(t));
                        }
                        if self.spec_has(t) {
                            let k = choose|k: int|
                                0 <= k < self.elements@.len() && self.elements@[k].tag == t;
                            let k0 = if k < i { k } else { k + 1 };
                            assert(pre.elements@[k0].tag == t);
                            assert(pre.spec_has(t));
                        }
                    }
                    assert forall|t: Tag| t != tag && pre.spec_has(t) implies final(self).spec_elem(t) == pre.spec_elem(t) by {
                        let k = choose|k: int|
                            0 <= k < pre.elements@.len() && pre.elements@[k].tag == t;
                        pre.lemma_elem_at(k);
                        assert(k != i);
                        let k1 = if k < i { k } else { k - 1 };
                        assert(self.elements@[k1] == pre.elements@[k]);
                        self.lemma_elem_at(k1);
                    }
                }
            },
            None => {
                proof {
                    if self.spec_has(tag) {
                        let j = choose|j: int|
                            0 <= j < self.elements@.len() && self.elements@[j].tag == tag;
                        assert(self.elements@[j].tag != tag);
                    }
                }
            },
        }
    }
}

} // verus!
