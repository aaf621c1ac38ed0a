use vstd::prelude::*;

use crate::bitcode::{clone_element, element_model, Bitcode, BitcodeElement, Block, ElementModel, Record, Signature};
use crate::read::VisitorCall;

verus! {

/// Receives the contents of a bitstream while it is read.
pub trait BitStreamVisitor {
    /// Whether the visitor keeps `log` and answers as `accepts` and `enters_all` say. A
    /// visitor that does not claims nothing of its calls.
    open spec fn tracks(&self) -> bool {
        false
    }

    /// The calls received so far, in order, for a visitor that tracks them.
    open spec fn log(&self) -> Seq<VisitorCall> {
        Seq::empty()
    }

    /// Whether a tracking visitor takes a stream with this signature.
    open spec fn accepts(&self, signature: Signature) -> bool {
        true
    }

    /// Whether a tracking visitor enters every block.
    open spec fn enters_all(&self) -> bool {
        false
    }

    /// Checks the stream's signature; `false` stops the read.
    fn validate(&self, signature: Signature) -> (r: bool)
        ensures
            self.tracks() ==> r == self.accepts(signature),
    ;

    /// Called when a block starts: `true` to read its contents, `false` to skip it.
    fn should_enter_block(&mut self, id: u64) -> (r: bool)
        ensures
            old(self).tracks() ==> final(self).tracks() && final(self).enters_all() == old(self).enters_all()
                && final(self).log() == old(self).log().push(VisitorCall::ShouldEnter(id)),
            old(self).tracks() && old(self).enters_all() ==> r,
    ;

    /// Called when a block ends.
    fn did_exit_block(&mut self, id: u64)
        ensures
            old(self).tracks() ==> final(self).tracks() && final(self).enters_all() == old(self).enters_all()
                && final(self).log() == old(self).log().push(VisitorCall::DidExit(id)),
    ;

    /// Called for each record, with the ID of the block that holds it.
    fn visit(&mut self, block_id: u64, record: Record)
        ensures
            old(self).tracks() ==> final(self).tracks() && final(self).enters_all() == old(self).enters_all()
                && final(self).log() == old(self).log().push(VisitorCall::Visit(block_id, record@)),
    ;
}

/// The ID given to the stream's outermost level, which is no block.
pub const TOP_LEVEL_BLOCK_ID: u64 = 0xFFFF_FFFF_FFFF_FFFF;

/// The model of a list of levels.
pub open spec fn levels_model(levels: Seq<(u64, Seq<BitcodeElement>)>) -> Seq<(u64, Seq<ElementModel>)> {
    levels.map_values(|l: (u64, Seq<BitcodeElement>)| (l.0, l.1.map_values(|e: BitcodeElement| element_model(e))))
}

/// `levels` with its innermost level closed into a block at the end of its parent.
pub open spec fn close_top(levels: Seq<(u64, Seq<ElementModel>)>) -> Seq<(u64, Seq<ElementModel>)> {
    let n = levels.len();
    if n > 1 {
        let inner = levels[n - 1];
        let parent = levels[n - 2];
        levels.take(n - 2).push((parent.0, parent.1.push(ElementModel::Block(inner.0, inner.1))))
    } else {
        levels
    }
}

/// The open levels a collecting visitor holds after the calls `calls`: a block's level
/// opens when it is entered and closes into its parent when it is exited; a record goes
/// to the end of the innermost level.
pub open spec fn build(calls: Seq<VisitorCall>) -> Seq<(u64, Seq<ElementModel>)>
    decreases calls.len(),
{
    if calls.len() == 0 {
        seq![(TOP_LEVEL_BLOCK_ID, Seq::<ElementModel>::empty())]
    } else {
        let l = build(calls.drop_last());
        match calls.last() {
            VisitorCall::ShouldEnter(id) => l.push((id, Seq::<ElementModel>::empty())),
            VisitorCall::DidExit(_) => close_top(l),
            VisitorCall::Visit(_, rec) => if l.len() > 0 {
                l.update(l.len() - 1, (l.last().0, l.last().1.push(ElementModel::Record(rec))))
            } else {
                seq![(TOP_LEVEL_BLOCK_ID, seq![ElementModel::Record(rec)])]
            },
            VisitorCall::Validate(_, _) => l,
        }
    }
}

proof fn lemma_build_len(calls: Seq<VisitorCall>)
    ensures
        build(calls).len() >= 1,
    decreases calls.len(),
{
    if calls.len() > 0 {
        lemma_build_len(calls.drop_last());
    }
}

/// The top-level items once every open level of `levels` is closed.
pub open spec fn close_all(levels: Seq<(u64, Seq<ElementModel>)>) -> Seq<ElementModel>
    decreases levels.len(),
{
    if levels.len() > 1 {
        close_all(close_top(levels))
    } else if levels.len() == 1 {
        levels[0].1
    } else {
        Seq::empty()
    }
}

proof fn lemma_close_model(before: Seq<(u64, Seq<BitcodeElement>)>, after: Seq<(u64, Seq<BitcodeElement>)>)
    requires
        before.len() > 1,
        after.len() == before.len() - 1,
        after.take(before.len() - 2) == before.take(before.len() - 2),
        after.last().0 == before[before.len() - 2].0,
        after.last().1.len() == before[before.len() - 2].1.len() + 1,
        after.last().1.drop_last() == before[before.len() - 2].1,
        after.last().1.last() matches BitcodeElement::Block(b) && b.id == before.last().0 && b.elements@
            == before.last().1,
    ensures
        levels_model(after) == close_top(levels_model(before)),
{
    let n = before.len();
    let e = after.last().1.last();
    let b = e->Block_0;
    let inner = levels_model(before)[n - 1];
    assert(inner.0 == before[n - 1].0);
    assert(inner.1 == before[n - 1].1.map_values(|x: BitcodeElement| element_model(x)));
    assert(before.last() == before[n - 1]);
    let m = element_model(e);
    assert(m is Block && m->Block_0 == b.id);
    let ks = m->Block_1;
    assert(ks.len() == b.elements@.len());
    assert forall|i: int| 0 <= i < ks.len() implies ks[i] == inner.1[i] by {
        assert(ks[i] == element_model(b.elements@[i]));
    }
    assert(ks =~= inner.1);
    assert(element_model(e) == ElementModel::Block(inner.0, inner.1));
    assert(after.last().1 =~= before[n - 2].1.push(after.last().1.last()));
    let pm = levels_model(before)[n - 2];
    assert(after[n - 2] == after.last());
    assert(after.last().1.map_values(|x: BitcodeElement| element_model(x)) =~= pm.1.push(
        ElementModel::Block(inner.0, inner.1),
    ));
    assert(levels_model(after)[n - 2] == (pm.0, pm.1.push(ElementModel::Block(inner.0, inner.1))));
    assert forall|i: int| 0 <= i < n - 2 implies levels_model(after)[i] == levels_model(before)[i] by {
        assert(after[i] == after.take(n - 2)[i]);
        assert(before[i] == before.take(n - 2)[i]);
    }
    assert(levels_model(after) =~= close_top(levels_model(before)));
}

/// The tree that a collecting visitor builds from the calls `calls`.
pub open spec fn tree_of(calls: Seq<VisitorCall>) -> Seq<ElementModel> {
    close_all(build(calls))
}

/// A visitor that collects all blocks and records of a stream into a tree.
pub struct CollectingVisitor {
    /// The open blocks, outermost first, each with the items collected so far.
    stack: Vec<(u64, Vec<BitcodeElement>)>,
    /// The calls received so far.
    calls: Ghost<Seq<VisitorCall>>,
}

impl CollectingVisitor {
    /// The number of open levels, the outermost one included.
    pub closed spec fn depth(&self) -> nat {
        self.stack@.len()
    }

    /// The items collected so far in the innermost open level.
    pub closed spec fn current(&self) -> Seq<BitcodeElement> {
        self.stack@.last().1@
    }

    /// The ID of the innermost open level.
    pub closed spec fn current_id(&self) -> u64 {
        self.stack@.last().0
    }

    /// The open levels, outermost first: each one's ID and the items collected in it.
    pub closed spec fn levels(&self) -> Seq<(u64, Seq<BitcodeElement>)> {
        self.stack@.map_values(|l: (u64, Vec<BitcodeElement>)| (l.0, l.1@))
    }

    /// Opens a level for a block with ID `id`.
    pub fn open_block(&mut self, id: u64)
        ensures
            final(self).log() == old(self).log(),
            final(self).levels() == old(self).levels().push((id, Seq::<BitcodeElement>::empty())),
    {
        self.stack.push((id, Vec::new()));
        proof {
            assert(self.levels() =~= old(self).levels().push((id, Seq::<BitcodeElement>::empty())));
        }
    }

    /// Adds a record at the end of the innermost open level; with no level open, opens the
    /// outermost one with it.
    pub fn add_record(&mut self, record: Record)
        ensures
            final(self).log() == old(self).log(),
            old(self).levels().len() > 0 ==> final(self).levels() == old(self).levels().update(
                old(self).levels().len() - 1,
                (
                    old(self).levels().last().0,
                    old(self).levels().last().1.push(BitcodeElement::Record(record)),
                ),
            ),
            old(self).levels().len() == 0 ==> final(self).levels() == seq![
                (TOP_LEVEL_BLOCK_ID, seq![BitcodeElement::Record(record)]),
            ],
    {
        let ghost rec = record;
        match self.stack.pop() {
            Some((id, mut elements)) => {
                elements.push(BitcodeElement::Record(record));
                self.stack.push((id, elements));
                proof {
                    assert(self.levels() =~= old(self).levels().update(
                        old(self).levels().len() - 1,
                        (old(self).levels().last().0, old(self).levels().last().1.push(BitcodeElement::Record(rec))),
                    ));
                }
            },
            None => {
                let mut elements: Vec<BitcodeElement> = Vec::new();
                elements.push(BitcodeElement::Record(record));
                self.stack.push((TOP_LEVEL_BLOCK_ID, elements));
                proof {
                    assert(self.levels() =~= seq![(TOP_LEVEL_BLOCK_ID, seq![BitcodeElement::Record(rec)])]);
                }
            },
        }
    }

    pub fn new() -> (r: Self)
        ensures
            r.depth() == 1,
            r.current() == Seq::<BitcodeElement>::empty(),
            r.current_id() == TOP_LEVEL_BLOCK_ID,
            r.levels() == seq![(TOP_LEVEL_BLOCK_ID, Seq::<BitcodeElement>::empty())],
            r.log() == Seq::<VisitorCall>::empty(),
            r.tracks(),
            r.enters_all(),
    {
        let mut stack: Vec<(u64, Vec<BitcodeElement>)> = Vec::new();
        stack.push((TOP_LEVEL_BLOCK_ID, Vec::new()));
        let r = Self { stack, calls: Ghost(Seq::empty()) };
        proof {
            assert(levels_model(r.levels()) =~~= build(Seq::<VisitorCall>::empty()));
            assert(r.levels() =~= seq![(TOP_LEVEL_BLOCK_ID, Seq::<BitcodeElement>::empty())]);
        }
        r
    }

    /// Closes the innermost open block: it becomes a block, with its ID and items, at the
    /// end of its parent. No change at the outermost level.
    pub fn close_block(&mut self)
        ensures
            final(self).log() == old(self).log(),
            old(self).depth() > 1 ==> final(self).depth() == old(self).depth() - 1,
            old(self).depth() > 1 ==> ({
                let n = old(self).levels().len();
                let inner = old(self).levels()[n - 1];
                let parent = old(self).levels()[n - 2];
                &&& final(self).levels().take(n - 2) == old(self).levels().take(n - 2)
                &&& final(self).levels().last().0 == parent.0
                &&& final(self).levels().last().1.len() == parent.1.len() + 1
                &&& final(self).levels().last().1.drop_last() == parent.1
                &&& final(self).levels().last().1.last() matches BitcodeElement::Block(b)
                &&& b.id == inner.0
                &&& b.elements@ == inner.1
            }),
            old(self).depth() <= 1 ==> *final(self) == *old(self),
    {
        if self.stack.len() > 1 {
            let (id, elements) = self.stack.pop().unwrap();
            let (parent_id, mut parent) = self.stack.pop().unwrap();
            parent.push(BitcodeElement::Block(Block { id, elements }));
            self.stack.push((parent_id, parent));
            proof {
                let n = old(self).levels().len();
                assert(self.levels().take(n - 2) =~= old(self).levels().take(n - 2));
                assert(self.levels().last().1.drop_last() =~= old(self).levels()[n - 2].1);
            }
        }
    }

    /// The top-level items. Blocks still open are closed first, each into its parent.
    pub fn finalize_top_level_elements(self) -> (r: Vec<BitcodeElement>)
        ensures
            self.depth() == 1 ==> r@ == self.current(),
            self.tracks() ==> r@.map_values(|e: BitcodeElement| element_model(e)) == tree_of(self.log()),
    {
        let mut v = self;
        proof {
            if self.tracks() {
                lemma_build_len(self.log());
                assert(v.stack@.len() == levels_model(v.levels()).len());
            }
        }
        while v.stack.len() > 1
            invariant
                self.depth() == 1 ==> v == self,
                self.tracks() ==> close_all(levels_model(v.levels())) == tree_of(self.log()) && v.stack@.len()
                    >= 1,
            decreases v.stack@.len(),
        {
            let ghost before = v;
            v.close_block();
            proof {
                if self.tracks() {
                    lemma_close_model(before.levels(), v.levels());
                }
            }
        }
        proof {
            if self.tracks() {
                assert(levels_model(v.levels()).len() == 1);
                let l = v.stack@[0].1@;
                assert(l.map_values(|e: BitcodeElement| element_model(e)) == levels_model(v.levels())[0].1);
            }
        }
        match v.stack.pop() {
            Some((_, elements)) => elements,
            None => Vec::new(),
        }
    }
}

impl BitStreamVisitor for CollectingVisitor {
    closed spec fn tracks(&self) -> bool {
        levels_model(self.levels()) == build(self.calls@)
    }

    closed spec fn log(&self) -> Seq<VisitorCall> {
        self.calls@
    }

    open spec fn accepts(&self, signature: Signature) -> bool {
        true
    }

    open spec fn enters_all(&self) -> bool {
        true
    }

    fn validate(&self, _signature: Signature) -> (r: bool) {
        true
    }

    fn should_enter_block(&mut self, id: u64) -> (r: bool) {
        let ghost before = *self;
        self.open_block(id);
        self.calls = Ghost(self.calls@.push(VisitorCall::ShouldEnter(id)));
        proof {
            assert(self.calls@.drop_last() =~= before.calls@);
            assert(levels_model(self.levels()) =~~= levels_model(before.levels()).push(
                (id, Seq::<ElementModel>::empty()),
            ));
        }
        true
    }

    fn did_exit_block(&mut self, id: u64) {
        let ghost before = *self;
        self.close_block();
        self.calls = Ghost(self.calls@.push(VisitorCall::DidExit(id)));
        proof {
            assert(self.calls@.drop_last() =~= before.calls@);
            if before.tracks() {
                assert(levels_model(before.levels()).len() == before.levels().len());
                if before.depth() > 1 {
                    lemma_close_model(before.levels(), self.levels());
                }
            }
        }
    }

    fn visit(&mut self, block_id: u64, record: Record) {
        let ghost rec = record@;
        let ghost before = *self;
        self.add_record(record);
        self.calls = Ghost(self.calls@.push(VisitorCall::Visit(block_id, rec)));
        proof {
            assert(self.calls@.drop_last() =~= before.calls@);
            if before.tracks() {
                let l = levels_model(before.levels());
                if l.len() > 0 {
                    assert(levels_model(self.levels()) =~~= l.update(
                        l.len() - 1,
                        (l.last().0, l.last().1.push(ElementModel::Record(rec))),
                    ));
                } else {
                    assert(levels_model(self.levels()) =~~= seq![
                        (TOP_LEVEL_BLOCK_ID, seq![ElementModel::Record(rec)]),
                    ]);
                }
            }
        }
    }
}

impl Clone for Bitcode {
    fn clone(&self) -> Self {
        let mut elements: Vec<BitcodeElement> = Vec::new();
        let mut i: usize = 0;
        while i < self.elements.len()
            invariant
                i <= self.elements@.len(),
            decreases self.elements@.len() - i,
        {
            elements.push(clone_element(&self.elements[i]));
            i = i + 1;
        }
        Bitcode { signature: self.signature, elements, block_info: self.block_info.clone() }
    }
}

} // verus!
