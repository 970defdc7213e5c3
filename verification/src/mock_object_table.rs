//! A plain in-memory object store: object records held in a vector,
//! 1-indexed by object number.  Setting up a memory image with objects is
//! laborious, so the tree algorithms are exercised against this store,
//! while the memory-mapped store is what the virtual machine runs on.

use vstd::prelude::*;

use crate::object_table::{with_child, with_parent, with_sibling, ObjRec, ZObjectTable};

verus! {

/// One stored object record.
#[derive(Debug, Clone, Copy, PartialEq, Eq, Structural)]
pub struct MockObjectRep {
    pub attributes: u32,
    pub parent: u16,
    pub sibling: u16,
    pub child: u16,
}

/// The backing store: record `i` of the vector is object `i + 1`.
#[derive(Debug, Clone, PartialEq, Eq)]
pub struct MockObjectTableStorage {
    objects: Vec<MockObjectRep>,
}

impl View for MockObjectTableStorage {
    type V = Seq<MockObjectRep>;

    closed spec fn view(&self) -> Seq<MockObjectRep> {
        self.objects@
    }
}

/// The records of the store, as the abstract object map.
pub open spec fn mock_objs(s: Seq<MockObjectRep>) -> Map<u16, ObjRec> {
    Map::new(
        |o: u16| 1 <= o <= s.len(),
        |o: u16|
            ObjRec {
                attributes: s[o - 1].attributes,
                parent: s[o - 1].parent,
                sibling: s[o - 1].sibling,
                child: s[o - 1].child,
            },
    )
}

/// Links fit in a byte and the store stays within the 255 objects that
/// version 3 allows.
pub open spec fn mock_wf(s: Seq<MockObjectRep>) -> bool {
    &&& s.len() <= 255
    &&& forall|i: int|
        0 <= i < s.len() ==> {
            &&& #[trigger] s[i].parent <= 0xff
            &&& s[i].sibling <= 0xff
            &&& s[i].child <= 0xff
        }
}

impl MockObjectTableStorage {
    pub fn new() -> (r: MockObjectTableStorage)
        ensures
            r@ == Seq::<MockObjectRep>::empty(),
            mock_wf(r@),
    {
        let r = MockObjectTableStorage { objects: Vec::new() };
        assert(r@ =~= Seq::<MockObjectRep>::empty());
        r
    }

    /// Append an object with the given fields; it becomes the highest
    /// numbered object.
    pub fn add_mock_object(&mut self, attributes: u32, parent: u16, sibling: u16, child: u16)
        requires
            mock_wf(old(self)@),
            old(self)@.len() < 255,
            parent <= 0xff,
            sibling <= 0xff,
            child <= 0xff,
        ensures
            final(self)@ == old(self)@.push(
                MockObjectRep { attributes, parent, sibling, child },
            ),
            mock_wf(final(self)@),
    {
        self.objects.push(MockObjectRep { attributes, parent, sibling, child });
    }

    /// The number of objects held.
    pub fn len(&self) -> (r: usize)
        ensures
            r == self@.len(),
    {
        self.objects.len()
    }

    /// The stored record of object `object_number`.
    pub fn rep(&self, object_number: u16) -> (r: MockObjectRep)
        requires
            1 <= object_number <= self@.len(),
        ensures
            r == self@[object_number - 1],
    {
        self.objects[object_number as usize - 1]
    }

    fn set_rep(&mut self, object_number: u16, rep: MockObjectRep)
        requires
            1 <= object_number <= old(self)@.len(),
        ensures
            final(self)@ == old(self)@.update(object_number - 1, rep),
    {
        self.objects.set(object_number as usize - 1, rep);
    }
}

/// The table over a mock store carries no state of its own.
#[derive(Debug)]
pub struct MockObjectTable {}

impl MockObjectTable {
    pub fn new() -> (r: MockObjectTable) {
        MockObjectTable {  }
    }

    /// The object handle for `object_number`.
    pub fn object_with_number(&self, object_number: u16) -> (r: MockObject)
        ensures
            r.object_number == object_number,
    {
        MockObject { object_number }
    }
}

/// A handle on one mock object; the store is passed to each accessor.
pub struct MockObject {
    pub object_number: u16,
}

impl MockObject {
    pub fn attributes(&self, helper: &MockObjectTableStorage) -> (r: u32)
        requires
            1 <= self.object_number <= helper@.len(),
        ensures
            r == helper@[self.object_number - 1].attributes,
    {
        helper.rep(self.object_number).attributes
    }

    pub fn set_attributes(&self, attrs: u32, helper: &mut MockObjectTableStorage)
        requires
            1 <= self.object_number <= old(helper)@.len(),
        ensures
            final(helper)@ == old(helper)@.update(
                self.object_number - 1,
                MockObjectRep { attributes: attrs, ..old(helper)@[self.object_number - 1] },
            ),
    {
        let mut rep = helper.rep(self.object_number);
        rep.attributes = attrs;
        helper.set_rep(self.object_number, rep);
    }

    pub fn parent(&self, helper: &MockObjectTableStorage) -> (r: u16)
        requires
            1 <= self.object_number <= helper@.len(),
        ensures
            r == helper@[self.object_number - 1].parent,
    {
        helper.rep(self.object_number).parent
    }

    pub fn set_parent(&self, parent: u16, helper: &mut MockObjectTableStorage)
        requires
            1 <= self.object_number <= old(helper)@.len(),
        ensures
            final(helper)@ == old(helper)@.update(
                self.object_number - 1,
                MockObjectRep { parent, ..old(helper)@[self.object_number - 1] },
            ),
    {
        let mut rep = helper.rep(self.object_number);
        rep.parent = parent;
        helper.set_rep(self.object_number, rep);
    }

    pub fn sibling(&self, helper: &MockObjectTableStorage) -> (r: u16)
        requires
            1 <= self.object_number <= helper@.len(),
        ensures
            r == helper@[self.object_number - 1].sibling,
    {
        helper.rep(self.object_number).sibling
    }

    pub fn set_sibling(&self, sibling: u16, helper: &mut MockObjectTableStorage)
        requires
            1 <= self.object_number <= old(helper)@.len(),
        ensures
            final(helper)@ == old(helper)@.update(
                self.object_number - 1,
                MockObjectRep { sibling, ..old(helper)@[self.object_number - 1] },
            ),
    {
        let mut rep = helper.rep(self.object_number);
        rep.sibling = sibling;
        helper.set_rep(self.object_number, rep);
    }

    pub fn child(&self, helper: &MockObjectTableStorage) -> (r: u16)
        requires
            1 <= self.object_number <= helper@.len(),
        ensures
            r == helper@[self.object_number - 1].child,
    {
        helper.rep(self.object_number).child
    }

    pub fn set_child(&self, child: u16, helper: &mut MockObjectTableStorage)
        requires
            1 <= self.object_number <= old(helper)@.len(),
        ensures
            final(helper)@ == old(helper)@.update(
                self.object_number - 1,
                MockObjectRep { child, ..old(helper)@[self.object_number - 1] },
            ),
    {
        let mut rep = helper.rep(self.object_number);
        rep.child = child;
        helper.set_rep(self.object_number, rep);
    }
}

impl ZObjectTable for MockObjectTable {
    type DataAccess = MockObjectTableStorage;

    open spec fn objs(&self, storage: MockObjectTableStorage) -> Map<u16, ObjRec> {
        mock_objs(storage@)
    }

    open spec fn table_wf(&self, storage: MockObjectTableStorage) -> bool {
        mock_wf(storage@)
    }

    open spec fn store_frame(
        &self,
        pre: MockObjectTableStorage,
        post: MockObjectTableStorage,
    ) -> bool {
        pre@.len() == post@.len()
    }

    proof fn store_frame_refl(&self, s: MockObjectTableStorage) {
    }

    proof fn store_frame_trans(
        &self,
        a: MockObjectTableStorage,
        b: MockObjectTableStorage,
        c: MockObjectTableStorage,
    ) {
    }

    proof fn objs_bounded(&self, storage: MockObjectTableStorage) {
    }

    fn has_object(&self, storage: &MockObjectTableStorage, object_number: u16) -> (r: bool) {
        1 <= object_number && (object_number as usize) <= storage.len()
    }

    fn attributes(&self, storage: &MockObjectTableStorage, object_number: u16) -> (r: u32) {
        storage.rep(object_number).attributes
    }

    fn set_attributes(&self, storage: &mut MockObjectTableStorage, object_number: u16, attrs: u32) {
        let mut rep = storage.rep(object_number);
        rep.attributes = attrs;
        storage.set_rep(object_number, rep);
        proof {
            assert(self.objs(*storage) =~= self.objs(*old(storage)).insert(
                object_number,
                ObjRec { attributes: attrs, ..self.objs(*old(storage))[object_number] },
            ));
        }
    }

    fn parent(&self, storage: &MockObjectTableStorage, object_number: u16) -> (r: u16) {
        storage.rep(object_number).parent
    }

    fn set_parent(&self, storage: &mut MockObjectTableStorage, object_number: u16, parent: u16) {
        let mut rep = storage.rep(object_number);
        rep.parent = parent;
        storage.set_rep(object_number, rep);
        proof {
            assert(self.objs(*storage) =~= self.objs(*old(storage)).insert(
                object_number,
                with_parent(self.objs(*old(storage))[object_number], parent),
            ));
        }
    }

    fn sibling(&self, storage: &MockObjectTableStorage, object_number: u16) -> (r: u16) {
        storage.rep(object_number).sibling
    }

    fn set_sibling(&self, storage: &mut MockObjectTableStorage, object_number: u16, sibling: u16) {
        let mut rep = storage.rep(object_number);
        rep.sibling = sibling;
        storage.set_rep(object_number, rep);
        proof {
            assert(self.objs(*storage) =~= self.objs(*old(storage)).insert(
                object_number,
                with_sibling(self.objs(*old(storage))[object_number], sibling),
            ));
        }
    }

    fn child(&self, storage: &MockObjectTableStorage, object_number: u16) -> (r: u16) {
        storage.rep(object_number).child
    }

    fn set_child(&self, storage: &mut MockObjectTableStorage, object_number: u16, child: u16) {
        let mut rep = storage.rep(object_number);
        rep.child = child;
        storage.set_rep(object_number, rep);
        proof {
            assert(self.objs(*storage) =~= self.objs(*old(storage)).insert(
                object_number,
                with_child(self.objs(*old(storage))[object_number], child),
            ));
        }
    }
}

} // verus!
