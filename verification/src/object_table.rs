//! The object database: 1-based object numbers, each object carrying 32
//! attribute flags, parent/sibling/child links, and a property table.
//!
//! The table is abstracted as a map from object numbers to records, so the
//! tree algorithms — detaching an object from its parent's child chain and
//! inserting it as a first child — are written and verified once, against
//! any backing store.  The memory-mapped store used by the virtual machine
//! and a plain in-memory store both implement the abstraction.

use vstd::prelude::*;

use crate::result::{Error, ZResult};

verus! {

/// One object's fields, as an abstract record.
pub struct ObjRec {
    pub attributes: u32,
    pub parent: u16,
    pub sibling: u16,
    pub child: u16,
}

/// The child chain starting at `start`: the objects reached by following
/// sibling links until 0, a missing object, or exhaustion of `fuel`.
pub open spec fn chain(m: Map<u16, ObjRec>, start: u16, fuel: nat) -> Seq<u16>
    decreases fuel,
{
    if start == 0 || fuel == 0 || !m.contains_key(start) {
        Seq::empty()
    } else {
        seq![start] + chain(m, m[start].sibling, (fuel - 1) as nat)
    }
}

/// How often `x` occurs in `s`.
pub open spec fn occurrences(s: Seq<u16>, x: u16) -> nat
    decreases s.len(),
{
    if s.len() == 0 {
        0
    } else {
        (if s.last() == x {
            1nat
        } else {
            0nat
        }) + occurrences(s.drop_last(), x)
    }
}

/// The record `r` with its parent field replaced.
pub open spec fn with_parent(r: ObjRec, parent: u16) -> ObjRec {
    ObjRec { parent, ..r }
}

/// The record `r` with its sibling field replaced.
pub open spec fn with_sibling(r: ObjRec, sibling: u16) -> ObjRec {
    ObjRec { sibling, ..r }
}

/// The record `r` with its child field replaced.
pub open spec fn with_child(r: ObjRec, child: u16) -> ObjRec {
    ObjRec { child, ..r }
}

/// The relation `remove_object_from_parent` establishes on the object map:
/// an orphan is left alone; a first child is unlinked through its parent's
/// child field; any other object is unlinked through the sibling field of
/// a predecessor `x` holding it as sibling.  In the latter two cases the
/// object's own parent and sibling become 0.
pub open spec fn remove_rel(pre: Map<u16, ObjRec>, post: Map<u16, ObjRec>, o: u16) -> bool {
    let p = pre[o].parent;
    if p == 0 {
        post == pre
    } else if pre[p].child == o {
        pre.contains_key(p) && post == pre.insert(p, with_child(pre[p], pre[o].sibling)).insert(
            o,
            with_parent(with_sibling(pre[o], 0), 0),
        )
    } else {
        pre.contains_key(p) && exists|x: u16|
            {
                &&& #[trigger] pre.contains_key(x)
                &&& x != o
                &&& pre[x].sibling == o
                &&& post == pre.insert(x, with_sibling(pre[x], pre[o].sibling)).insert(
                    o,
                    with_parent(with_sibling(pre[o], 0), 0),
                )
            }
    }
}

/// The relation `add_object_to_parent` establishes: the object becomes the
/// parent's first child, its sibling the parent's former first child.
pub open spec fn add_rel(pre: Map<u16, ObjRec>, post: Map<u16, ObjRec>, o: u16, p: u16) -> bool {
    post == pre.insert(o, with_parent(with_sibling(pre[o], pre[p].child), p)).insert(
        p,
        with_child(pre[p], o),
    )
}

/// Whether the sibling walk from `start` reaches an object whose sibling
/// link is `o`, within `fuel` steps.
pub open spec fn sibling_reaches(m: Map<u16, ObjRec>, start: u16, o: u16, fuel: nat) -> bool
    decreases fuel,
{
    if fuel == 0 {
        false
    } else if start == 0 || !m.contains_key(start) {
        false
    } else if m[start].sibling == o {
        true
    } else {
        sibling_reaches(m, m[start].sibling, o, (fuel - 1) as nat)
    }
}

/// When detaching `o` succeeds: it has no parent, or its parent exists
/// and holds it as first child, or a predecessor in the parent's child
/// chain links to it within the walk bound.
pub open spec fn remove_ok(pre: Map<u16, ObjRec>, o: u16) -> bool {
    let p = pre[o].parent;
    ||| p == 0
    ||| (pre.contains_key(p) && (pre[p].child == o || sibling_reaches(pre, pre[p].child, o, 256)))
}

/// When moving `o` under `p` succeeds: the null object is always a
/// no-op; otherwise `o` must exist, not be its own parent, be detachable,
/// and the destination must be the null object or a real object other
/// than `o`.
pub open spec fn insert_ok(pre: Map<u16, ObjRec>, o: u16, p: u16) -> bool {
    ||| o == 0
    ||| (pre.contains_key(o) && pre[o].parent != o && remove_ok(pre, o) && (p == 0 || (
    pre.contains_key(p) && p != o)))
}

/// The relation `insert_obj` establishes: nothing for the null object; for
/// a real object, a detach, followed — when the destination is a real
/// object — by an insertion as its first child.
pub open spec fn insert_rel(
    pre: Map<u16, ObjRec>,
    post: Map<u16, ObjRec>,
    o: u16,
    p: u16,
) -> bool {
    if o == 0 {
        post == pre
    } else if p == 0 {
        pre.contains_key(o) && remove_rel(pre, post, o)
    } else {
        exists|mid: Map<u16, ObjRec>|
            {
                &&& pre.contains_key(o)
                &&& pre.contains_key(p)
                &&& o != p
                &&& #[trigger] remove_rel(pre, mid, o)
                &&& mid.contains_key(o)
                &&& mid.contains_key(p)
                &&& add_rel(mid, post, o, p)
            }
    }
}

/// Detaching preserves the set of objects: `remove_rel` only rewrites
/// fields of records that were already present.
pub proof fn lemma_remove_rel_dom(pre: Map<u16, ObjRec>, post: Map<u16, ObjRec>, o: u16)
    requires
        pre.contains_key(o),
        remove_rel(pre, post, o),
    ensures
        post.dom() == pre.dom(),
{
    let p = pre[o].parent;
    if p == 0 {
    } else if pre[p].child == o {
        assert(post.dom() =~= pre.dom());
    } else {
        let x = choose|x: u16|
            {
                &&& #[trigger] pre.contains_key(x)
                &&& x != o
                &&& pre[x].sibling == o
                &&& post == pre.insert(x, with_sibling(pre[x], pre[o].sibling)).insert(
                    o,
                    with_parent(with_sibling(pre[o], 0), 0),
                )
            };
        assert(pre.contains_key(x));
        assert(post == pre.insert(x, with_sibling(pre[x], pre[o].sibling)).insert(
            o,
            with_parent(with_sibling(pre[o], 0), 0),
        ));
        assert(post.dom() =~= pre.dom());
    }
}

/// The abstract object table: a view of the backing store as a map of
/// object records, together with the accessors the tree algorithms need.
///
/// `store_frame` bounds what any table operation may do to the backing
/// store: an implementation whose store carries more than the object
/// records (the memory-mapped one) promises here that everything outside
/// the object link fields is untouched.
pub trait ZObjectTable: Sized {
    type DataAccess;

    /// The object records the store currently holds.
    spec fn objs(&self, storage: Self::DataAccess) -> Map<u16, ObjRec>;

    /// Well-formedness of the store for this table.
    spec fn table_wf(&self, storage: Self::DataAccess) -> bool;

    /// What a table operation may change in the store.
    spec fn store_frame(&self, pre: Self::DataAccess, post: Self::DataAccess) -> bool;

    proof fn store_frame_refl(&self, s: Self::DataAccess)
        ensures
            self.store_frame(s, s),
    ;

    proof fn store_frame_trans(
        &self,
        a: Self::DataAccess,
        b: Self::DataAccess,
        c: Self::DataAccess,
    )
        requires
            self.store_frame(a, b),
            self.store_frame(b, c),
        ensures
            self.store_frame(a, c),
    ;

    /// Every object number the table can hold is at most 255 (version 3
    /// numbers are single bytes), so every stored link is encodable.
    proof fn objs_bounded(&self, storage: Self::DataAccess)
        requires
            self.table_wf(storage),
        ensures
            forall|o: u16|
                #[trigger] self.objs(storage).contains_key(o) ==> {
                    &&& 0 < o <= 0xff
                    &&& self.objs(storage)[o].parent <= 0xff
                    &&& self.objs(storage)[o].sibling <= 0xff
                    &&& self.objs(storage)[o].child <= 0xff
                },
    ;

    /// Whether the table holds an object numbered `object_number`.
    fn has_object(&self, storage: &Self::DataAccess, object_number: u16) -> (r: bool)
        requires
            self.table_wf(*storage),
        ensures
            r == self.objs(*storage).contains_key(object_number),
    ;

    fn attributes(&self, storage: &Self::DataAccess, object_number: u16) -> (r: u32)
        requires
            self.table_wf(*storage),
            self.objs(*storage).contains_key(object_number),
        ensures
            r == self.objs(*storage)[object_number].attributes,
    ;

    fn set_attributes(&self, storage: &mut Self::DataAccess, object_number: u16, attrs: u32)
        requires
            self.table_wf(*old(storage)),
            self.objs(*old(storage)).contains_key(object_number),
        ensures
            self.table_wf(*final(storage)),
            self.store_frame(*old(storage), *final(storage)),
            self.objs(*final(storage)) == self.objs(*old(storage)).insert(
                object_number,
                ObjRec { attributes: attrs, ..self.objs(*old(storage))[object_number] },
            ),
    ;

    fn parent(&self, storage: &Self::DataAccess, object_number: u16) -> (r: u16)
        requires
            self.table_wf(*storage),
            self.objs(*storage).contains_key(object_number),
        ensures
            r == self.objs(*storage)[object_number].parent,
    ;

    fn set_parent(&self, storage: &mut Self::DataAccess, object_number: u16, parent: u16)
        requires
            self.table_wf(*old(storage)),
            self.objs(*old(storage)).contains_key(object_number),
            parent <= 0xff,
        ensures
            self.table_wf(*final(storage)),
            self.store_frame(*old(storage), *final(storage)),
            self.objs(*final(storage)) == self.objs(*old(storage)).insert(
                object_number,
                with_parent(self.objs(*old(storage))[object_number], parent),
            ),
    ;

    fn sibling(&self, storage: &Self::DataAccess, object_number: u16) -> (r: u16)
        requires
            self.table_wf(*storage),
            self.objs(*storage).contains_key(object_number),
        ensures
            r == self.objs(*storage)[object_number].sibling,
    ;

    fn set_sibling(&self, storage: &mut Self::DataAccess, object_number: u16, sibling: u16)
        requires
            self.table_wf(*old(storage)),
            self.objs(*old(storage)).contains_key(object_number),
            sibling <= 0xff,
        ensures
            self.table_wf(*final(storage)),
            self.store_frame(*old(storage), *final(storage)),
            self.objs(*final(storage)) == self.objs(*old(storage)).insert(
                object_number,
                with_sibling(self.objs(*old(storage))[object_number], sibling),
            ),
    ;

    fn child(&self, storage: &Self::DataAccess, object_number: u16) -> (r: u16)
        requires
            self.table_wf(*storage),
            self.objs(*storage).contains_key(object_number),
        ensures
            r == self.objs(*storage)[object_number].child,
    ;

    fn set_child(&self, storage: &mut Self::DataAccess, object_number: u16, child: u16)
        requires
            self.table_wf(*old(storage)),
            self.objs(*old(storage)).contains_key(object_number),
            child <= 0xff,
        ensures
            self.table_wf(*final(storage)),
            self.store_frame(*old(storage), *final(storage)),
            self.objs(*final(storage)) == self.objs(*old(storage)).insert(
                object_number,
                with_child(self.objs(*old(storage))[object_number], child),
            ),
    ;

    /// Detach `object_number` from its parent, fixing up the parent's
    /// child link or the predecessor's sibling link, and zero the object's
    /// own parent and sibling.  A no-op when the object has no parent.
    /// Fatal when the chain that should contain the object is corrupt.
    fn remove_object_from_parent(&self, storage: &mut Self::DataAccess, object_number: u16) -> (r:
        ZResult<()>)
        requires
            self.table_wf(*old(storage)),
            self.objs(*old(storage)).contains_key(object_number),
            self.objs(*old(storage))[object_number].parent != object_number,
        ensures
            self.table_wf(*final(storage)),
            self.store_frame(*old(storage), *final(storage)),
            r.is_ok() == remove_ok(self.objs(*old(storage)), object_number),
            match r {
                Ok(()) => remove_rel(
                    self.objs(*old(storage)),
                    self.objs(*final(storage)),
                    object_number,
                ),
                Err(e) => e == Error::Fatal && *final(storage) == *old(storage),
            },
    {
        let ghost pre = self.objs(*old(storage));
        let parent_number = self.parent(storage, object_number);
        proof {
            self.store_frame_refl(*old(storage));
            self.objs_bounded(*old(storage));
        }
        if parent_number == 0 {
            return Ok(());
        }
        if !self.has_object(storage, parent_number) {
            return Err(Error::Fatal);
        }
        let first_child = self.child(storage, parent_number);
        if first_child == object_number {
            let new_child = self.sibling(storage, object_number);
            self.set_child(storage, parent_number, new_child);
            let ghost s1 = *storage;
            self.set_sibling(storage, object_number, 0);
            let ghost s2 = *storage;
            self.set_parent(storage, object_number, 0);
            proof {
                self.store_frame_trans(*old(storage), s1, s2);
                self.store_frame_trans(*old(storage), s2, *storage);
                assert(self.objs(*storage) =~= pre.insert(
                    parent_number,
                    with_child(pre[parent_number], pre[object_number].sibling),
                ).insert(object_number, with_parent(with_sibling(pre[object_number], 0), 0)));
            }
            return Ok(());
        }
        // The object should sit somewhere in the parent's child chain:
        // find its predecessor without mutating anything, then splice.
        let ghost s0 = *storage;
        let mut current_number = first_child;
        let mut steps: u16 = 0;
        loop
            invariant
                self.table_wf(*storage),
                *storage == s0,
                s0 == *old(storage),
                self.objs(s0) == pre,
                pre.contains_key(object_number),
                pre.contains_key(parent_number),
                parent_number == pre[object_number].parent,
                parent_number != 0,
                parent_number != object_number,
                pre[parent_number].child != object_number,
                pre[parent_number].child == first_child,
                steps <= 256,
                current_number != object_number,
                sibling_reaches(pre, first_child, object_number, 256) == sibling_reaches(
                    pre,
                    current_number,
                    object_number,
                    (256 - steps) as nat,
                ),
            decreases 256 - steps,
        {
            if current_number == 0 || steps >= 256 {
                proof {
                    self.store_frame_refl(s0);
                }
                return Err(Error::Fatal);
            }
            if !self.has_object(storage, current_number) {
                proof {
                    self.store_frame_refl(s0);
                }
                return Err(Error::Fatal);
            }
            let next_sibling = self.sibling(storage, current_number);
            if next_sibling == object_number {
                proof {
                    self.objs_bounded(s0);
                }
                let new_next_sibling = self.sibling(storage, object_number);
                self.set_sibling(storage, current_number, new_next_sibling);
                let ghost s1 = *storage;
                self.set_sibling(storage, object_number, 0);
                let ghost s2 = *storage;
                self.set_parent(storage, object_number, 0);
                proof {
                    self.store_frame_trans(*old(storage), s1, s2);
                    self.store_frame_trans(*old(storage), s2, *storage);
                    let x = current_number;
                    assert(self.objs(*storage) =~= pre.insert(
                        x,
                        with_sibling(pre[x], pre[object_number].sibling),
                    ).insert(object_number, with_parent(with_sibling(pre[object_number], 0), 0)));
                    assert(pre.contains_key(x) && x != object_number && pre[x].sibling
                        == object_number);
                    assert(remove_rel(pre, self.objs(*storage), object_number));
                }
                return Ok(());
            }
            current_number = next_sibling;
            steps = steps + 1;
        }
    }

    /// Make `object_number` the first child of `parent_number`; its
    /// sibling becomes the former first child.
    fn add_object_to_parent(
        &self,
        storage: &mut Self::DataAccess,
        object_number: u16,
        parent_number: u16,
    ) -> (r: ZResult<()>)
        requires
            self.table_wf(*old(storage)),
            self.objs(*old(storage)).contains_key(object_number),
            self.objs(*old(storage)).contains_key(parent_number),
            object_number != parent_number,
        ensures
            self.table_wf(*final(storage)),
            self.store_frame(*old(storage), *final(storage)),
            r == ZResult::<()>::Ok(()),
            add_rel(
                self.objs(*old(storage)),
                self.objs(*final(storage)),
                object_number,
                parent_number,
            ),
    {
        let ghost pre = self.objs(*old(storage));
        proof {
            self.objs_bounded(*old(storage));
        }
        let new_sibling = self.child(storage, parent_number);
        self.set_parent(storage, object_number, parent_number);
        let ghost s1 = *storage;
        self.set_sibling(storage, object_number, new_sibling);
        let ghost s2 = *storage;
        self.set_child(storage, parent_number, object_number);
        proof {
            self.store_frame_trans(*old(storage), s1, s2);
            self.store_frame_trans(*old(storage), s2, *storage);
            assert(self.objs(*storage) =~= pre.insert(
                object_number,
                with_parent(with_sibling(pre[object_number], pre[parent_number].child), parent_number),
            ).insert(parent_number, with_child(pre[parent_number], object_number)));
        }
        Ok(())
    }

    /// Move `object_number` under `parent_number`: detach it from its old
    /// parent, then insert it as the new parent's first child.  Object 0
    /// is the null object and nothing is done; destination 0 leaves the
    /// object detached.
    fn insert_obj(&self, storage: &mut Self::DataAccess, object_number: u16, parent_number: u16) -> (r:
        ZResult<()>)
        requires
            self.table_wf(*old(storage)),
        ensures
            self.table_wf(*final(storage)),
            self.store_frame(*old(storage), *final(storage)),
            r.is_ok() == insert_ok(self.objs(*old(storage)), object_number, parent_number),
            match r {
                Ok(()) => insert_rel(
                    self.objs(*old(storage)),
                    self.objs(*final(storage)),
                    object_number,
                    parent_number,
                ),
                Err(e) => e == Error::Fatal,
            },
    {
        proof {
            self.store_frame_refl(*old(storage));
        }
        if object_number == 0 {
            return Ok(());
        }
        if !self.has_object(storage, object_number) {
            return Err(Error::Fatal);
        }
        if self.parent(storage, object_number) == object_number {
            return Err(Error::Fatal);
        }
        if parent_number != 0 && !self.has_object(storage, parent_number) {
            return Err(Error::Fatal);
        }
        if parent_number == object_number {
            return Err(Error::Fatal);
        }
        let r = self.remove_object_from_parent(storage, object_number);
        if r.is_err() {
            return Err(Error::Fatal);
        }
        if parent_number == 0 {
            return Ok(());
        }
        let ghost mid = *storage;
        proof {
            lemma_remove_rel_dom(
                self.objs(*old(storage)),
                self.objs(mid),
                object_number,
            );
            assert(self.objs(mid).dom() == self.objs(*old(storage)).dom());
            assert(self.objs(mid).contains_key(object_number));
            assert(self.objs(mid).contains_key(parent_number));
        }
        let r2 = self.add_object_to_parent(storage, object_number, parent_number);
        proof {
            self.store_frame_trans(*old(storage), mid, *storage);
            let pre_m = self.objs(*old(storage));
            let mid_m = self.objs(mid);
            assert(remove_rel(pre_m, mid_m, object_number));
            assert(add_rel(mid_m, self.objs(*storage), object_number, parent_number));
            assert(mid_m.contains_key(object_number) && mid_m.contains_key(parent_number));
            assert(insert_rel(pre_m, self.objs(*storage), object_number, parent_number));
        }
        Ok(())
    }
}

/// An occurrence count of zero is exactly absence.
pub proof fn lemma_occurrences_absent(s: Seq<u16>, x: u16)
    requires
        !s.contains(x),
    ensures
        occurrences(s, x) == 0,
    decreases s.len(),
{
    if s.len() > 0 {
        assert(s.last() != x);
        assert(!s.drop_last().contains(x)) by {
            if s.drop_last().contains(x) {
                let i = choose|i: int| 0 <= i < s.drop_last().len() && s.drop_last()[i] == x;
                assert(s[i] == x);
            }
        };
        lemma_occurrences_absent(s.drop_last(), x);
    }
}

/// Counting distributes over concatenation.
pub proof fn lemma_occurrences_add(a: Seq<u16>, b: Seq<u16>, x: u16)
    ensures
        occurrences(a + b, x) == occurrences(a, x) + occurrences(b, x),
    decreases b.len(),
{
    if b.len() == 0 {
        assert(a + b =~= a);
    } else {
        assert((a + b).drop_last() =~= a + b.drop_last());
        assert((a + b).last() == b.last());
        lemma_occurrences_add(a, b.drop_last(), x);
    }
}

/// A chain is unchanged when no record along it changed its sibling
/// link: the chain reads nothing else.
pub proof fn lemma_chain_same(
    pre: Map<u16, ObjRec>,
    post: Map<u16, ObjRec>,
    c: u16,
    fuel: nat,
)
    requires
        post.dom() == pre.dom(),
        forall|x: u16|
            chain(pre, c, fuel).contains(x) ==> (#[trigger] post[x]).sibling == pre[x].sibling,
    ensures
        chain(post, c, fuel) == chain(pre, c, fuel),
    decreases fuel,
{
    if c == 0 || fuel == 0 || !pre.contains_key(c) {
    } else {
        assert(chain(pre, c, fuel)[0] == c);
        assert(chain(pre, c, fuel).contains(c));
        assert(post[c].sibling == pre[c].sibling);
        let s = pre[c].sibling;
        assert forall|x: u16| chain(pre, s, (fuel - 1) as nat).contains(x) implies (
        #[trigger] post[x]).sibling == pre[x].sibling by {
            let i = choose|i: int|
                0 <= i < chain(pre, s, (fuel - 1) as nat).len() && #[trigger] chain(
                    pre,
                    s,
                    (fuel - 1) as nat,
                )[i] == x;
            assert(chain(pre, c, fuel)[i + 1] == x);
            assert(chain(pre, c, fuel).contains(x));
        };
        lemma_chain_same(pre, post, s, (fuel - 1) as nat);
        assert(chain(post, c, fuel) =~= chain(pre, c, fuel));
    }
}

/// A sibling walk never reaches `o` when it does not start there and no
/// record links to it.
proof fn lemma_chain_avoids(m: Map<u16, ObjRec>, s: u16, o: u16, fuel: nat)
    requires
        s != o,
        forall|y: u16| m.contains_key(y) ==> (#[trigger] m[y]).sibling != o,
    ensures
        !chain(m, s, fuel).contains(o),
    decreases fuel,
{
    if s == 0 || fuel == 0 || !m.contains_key(s) {
    } else {
        assert(m[s].sibling != o);
        lemma_chain_avoids(m, m[s].sibling, o, (fuel - 1) as nat);
        if chain(m, s, fuel).contains(o) {
            let i = choose|i: int| 0 <= i < chain(m, s, fuel).len() && chain(m, s, fuel)[i] == o;
            assert(i > 0);
            assert(chain(m, m[s].sibling, (fuel - 1) as nat)[i - 1] == o);
        }
    }
}

/// Detaching an object takes it out of its old parent's child chain: after
/// `remove_object_from_parent` on an object with a real parent, the object
/// occurs nowhere in that parent's chain and its own parent link is clear.
/// The hypotheses are the object-tree invariants: no object is its own
/// sibling or parent, a first child has no sibling predecessor, and no
/// object has two sibling predecessors.
pub proof fn lemma_remove_clears_old_chain(pre: Map<u16, ObjRec>, post: Map<u16, ObjRec>, o: u16)
    requires
        o != 0,
        pre.contains_key(o),
        pre[o].parent != 0,
        pre[o].parent != o,
        pre.contains_key(pre[o].parent),
        remove_rel(pre, post, o),
        pre[o].sibling != o,
        forall|y: u16|
            pre.contains_key(y) && (#[trigger] pre[y]).sibling == o ==> pre[pre[o].parent].child
                != o,
        forall|y1: u16, y2: u16|
            pre.contains_key(y1) && pre.contains_key(y2) && (#[trigger] pre[y1]).sibling == o && (
            #[trigger] pre[y2]).sibling == o ==> y1 == y2,
    ensures
        post.contains_key(pre[o].parent),
        post.contains_key(o),
        post[o].parent == 0,
        post[o].sibling == 0,
        occurrences(chain(post, post[pre[o].parent].child, 256), o) == 0,
{
    let p = pre[o].parent;
    if pre[p].child == o {
        assert(post == pre.insert(p, with_child(pre[p], pre[o].sibling)).insert(
            o,
            with_parent(with_sibling(pre[o], 0), 0),
        ));
        assert forall|y: u16| post.contains_key(y) implies (#[trigger] post[y]).sibling != o by {
            if y == o {
            } else if y == p {
                assert(post[p].sibling == pre[p].sibling);
                assert(pre[p].sibling != o);
            } else {
                assert(post[y].sibling == pre[y].sibling);
            }
        }
        assert(post[p].child == pre[o].sibling);
        lemma_chain_avoids(post, post[p].child, o, 256);
        lemma_occurrences_absent(chain(post, post[p].child, 256), o);
    } else {
        let x = choose|x: u16|
            {
                &&& #[trigger] pre.contains_key(x)
                &&& x != o
                &&& pre[x].sibling == o
                &&& post == pre.insert(x, with_sibling(pre[x], pre[o].sibling)).insert(
                    o,
                    with_parent(with_sibling(pre[o], 0), 0),
                )
            };
        assert forall|y: u16| post.contains_key(y) implies (#[trigger] post[y]).sibling != o by {
            if y == o {
            } else if y == x {
                assert(post[x].sibling == pre[o].sibling);
            } else {
                assert(post[y].sibling == pre[y].sibling);
            }
        }
        assert(post[p].child == pre[p].child);
        lemma_chain_avoids(post, post[p].child, o, 256);
        lemma_occurrences_absent(chain(post, post[p].child, 256), o);
    }
}

/// The parent after an insertion: once `insert_obj(o, q)` succeeds with a
/// real destination, `o`'s parent is `q`.
pub proof fn lemma_insert_sets_parent(
    pre: Map<u16, ObjRec>,
    post: Map<u16, ObjRec>,
    o: u16,
    q: u16,
)
    requires
        o != 0,
        q != 0,
        insert_rel(pre, post, o, q),
    ensures
        post.contains_key(o),
        post[o].parent == q,
{
    let mid = choose|mid: Map<u16, ObjRec>|
        {
            &&& pre.contains_key(o)
            &&& pre.contains_key(q)
            &&& o != q
            &&& #[trigger] remove_rel(pre, mid, o)
            &&& mid.contains_key(o)
            &&& mid.contains_key(q)
            &&& add_rel(mid, post, o, q)
        };
}

/// Detaching an orphan changes nothing: for an object with no parent,
/// `remove_object_from_parent` is a no-op on the object map.
pub proof fn lemma_remove_orphan_is_noop(pre: Map<u16, ObjRec>, post: Map<u16, ObjRec>, o: u16)
    requires
        pre[o].parent == 0,
        remove_rel(pre, post, o),
    ensures
        post == pre,
{
}

/// Inserting a detached object under a real parent makes it that
/// parent's first child, appearing exactly once in the parent's child
/// chain.  The hypotheses are the object-tree invariants: every chain
/// member's parent field points back at the chain's owner, and no object
/// is its own parent.
pub proof fn lemma_insert_detached_once_in_chain(
    pre: Map<u16, ObjRec>,
    post: Map<u16, ObjRec>,
    o: u16,
    q: u16,
)
    requires
        o != 0,
        q != 0,
        insert_rel(pre, post, o, q),
        pre.contains_key(o),
        pre.contains_key(q),
        pre[o].parent == 0,
        pre[q].parent != q,
        forall|x: u16|
            chain(pre, pre[q].child, 255).contains(x) ==> pre.contains_key(x) && (#[trigger] pre[x].parent)
                == q,
    ensures
        post[q].child == o,
        post[o].parent == q,
        occurrences(chain(post, post[q].child, 256), o) == 1,
{
    let mid = choose|mid: Map<u16, ObjRec>|
        {
            &&& pre.contains_key(o)
            &&& pre.contains_key(q)
            &&& o != q
            &&& #[trigger] remove_rel(pre, mid, o)
            &&& mid.contains_key(o)
            &&& mid.contains_key(q)
            &&& add_rel(mid, post, o, q)
        };
    lemma_remove_orphan_is_noop(pre, mid, o);
    // post = pre with o re-linked at the head and q's child set to o.
    assert(post == pre.insert(o, with_parent(with_sibling(pre[o], pre[q].child), q)).insert(
        q,
        with_child(pre[q], o),
    ));
    assert(post.dom() =~= pre.dom());
    let c = pre[q].child;
    // The old chain does not contain o (its members' parents are q, but
    // o's parent is 0) nor q (q is not its own parent), so it survives
    // the two record updates untouched.
    assert(!chain(pre, c, 255).contains(o));
    assert(!chain(pre, c, 255).contains(q));
    assert forall|x: u16| chain(pre, c, 255).contains(x) implies post[x] == pre[x] by {
        assert(x != o && x != q);
    };
    lemma_chain_same(pre, post, c, 255);
    // The new chain is o followed by the old chain.
    assert(post.contains_key(o));
    assert(post[o].sibling == c);
    assert(chain(post, o, 256) =~= seq![o] + chain(post, c, 255));
    lemma_occurrences_add(seq![o], chain(post, c, 255), o);
    assert(seq![o].drop_last() =~= Seq::<u16>::empty());
    assert(occurrences(Seq::<u16>::empty(), o) == 0);
    assert(seq![o].last() == o);
    assert(occurrences(seq![o], o) == 1);
    lemma_occurrences_absent(chain(post, c, 255), o);
    assert(post[q].child == o);
}

/// Inserting an object that was its parent's first child under a new
/// real parent makes it the new parent's first child, appearing exactly
/// once in that parent's child chain.  The hypotheses are the
/// object-tree invariants: chain membership implies parenthood (for the
/// two chains touched), and no object is its own parent.
pub proof fn lemma_insert_first_child_once_in_chain(
    pre: Map<u16, ObjRec>,
    post: Map<u16, ObjRec>,
    o: u16,
    q: u16,
)
    requires
        o != 0,
        q != 0,
        insert_rel(pre, post, o, q),
        pre.contains_key(o),
        pre.contains_key(q),
        pre[o].parent != 0,
        pre[o].parent != q,
        pre.contains_key(pre[o].parent),
        pre[pre[o].parent].child == o,
        pre[q].parent != q,
        forall|x: u16|
            chain(pre, pre[q].child, 255).contains(x) ==> pre.contains_key(x) && (#[trigger] pre[x].parent)
                == q,
    ensures
        post[q].child == o,
        post[o].parent == q,
        occurrences(chain(post, post[q].child, 256), o) == 1,
{
    let p0 = pre[o].parent;
    let mid = choose|mid: Map<u16, ObjRec>|
        {
            &&& pre.contains_key(o)
            &&& pre.contains_key(q)
            &&& o != q
            &&& #[trigger] remove_rel(pre, mid, o)
            &&& mid.contains_key(o)
            &&& mid.contains_key(q)
            &&& add_rel(mid, post, o, q)
        };
    // The detach is the first-child case: only p0's child link and o's
    // own links changed, so sibling links along q's chain are untouched.
    assert(mid == pre.insert(p0, with_child(pre[p0], pre[o].sibling)).insert(
        o,
        with_parent(with_sibling(pre[o], 0), 0),
    ));
    assert(mid.dom() =~= pre.dom());
    let c = pre[q].child;
    // o is not in q's chain (its parent is p0, not q), and q is not in
    // its own child chain (it is not its own parent).
    assert(!chain(pre, c, 255).contains(o));
    assert(!chain(pre, c, 255).contains(q));
    assert forall|x: u16|
        chain(pre, c, 255).contains(x) implies (#[trigger] mid[x]).sibling == pre[x].sibling by {
        assert(x != o);
        if x == p0 {
            assert(mid[p0].sibling == pre[p0].sibling);
        }
    };
    lemma_chain_same(pre, mid, c, 255);
    assert(mid[q].child == c);
    // The insertion then prepends o, whose sibling becomes the old first
    // child; the rest of the chain keeps its sibling links.
    assert(post == mid.insert(o, with_parent(with_sibling(mid[o], mid[q].child), q)).insert(
        q,
        with_child(mid[q], o),
    ));
    assert(post.dom() =~= pre.dom());
    assert forall|x: u16|
        chain(mid, c, 255).contains(x) implies (#[trigger] post[x]).sibling == mid[x].sibling by {
        assert(x != o && x != q);
    };
    lemma_chain_same(mid, post, c, 255);
    assert(post.contains_key(o));
    assert(post[o].sibling == c);
    assert(chain(post, o, 256) =~= seq![o] + chain(post, c, 255));
    lemma_occurrences_add(seq![o], chain(post, c, 255), o);
    assert(seq![o].drop_last() =~= Seq::<u16>::empty());
    assert(occurrences(Seq::<u16>::empty(), o) == 0);
    assert(seq![o].last() == o);
    assert(occurrences(seq![o], o) == 1);
    lemma_occurrences_absent(chain(post, c, 255), o);
    assert(post[q].child == o);
}

} // verus!
