//! The atomic write batch: an ordered list of operations that the store
//! applies all together or not at all.

use vstd::prelude::*;
use crate::keys::{ClassModel, DirectoryClass};
use crate::principal::{HashedModel, HashedPrincipal, Principal, PrincipalModel};
use crate::types::{DynamicPrincipalInfo, PrincipalInfo};

verus! {

/// The collection in which a batch creates its document.
#[derive(Clone, Copy, Debug, PartialEq, Eq, Structural)]
pub enum Collection {
    Principal,
}

/// What the store holds under a key.
pub enum Stored {
    /// A principal record.
    Record(PrincipalModel),
    /// An index payload.
    Info(PrincipalInfo),
    /// The bytes on a membership edge.
    Bytes(Seq<u8>),
    /// A usage counter.
    Counter(int),
}

/// A value to be written. The dynamic forms take the identifier that the
/// store assigns to the batch's new document.
#[derive(Clone, Debug, PartialEq, Eq)]
pub enum BatchValue {
    Record(Principal),
    DynamicRecord(Principal),
    Info(PrincipalInfo),
    DynamicInfo(DynamicPrincipalInfo),
    Bytes(Vec<u8>),
}

/// The mathematical value of a [`BatchValue`].
pub enum PayloadModel {
    Record(PrincipalModel),
    DynamicRecord(PrincipalModel),
    Info(PrincipalInfo),
    DynamicInfo(DynamicPrincipalInfo),
    Bytes(Seq<u8>),
}

impl View for BatchValue {
    type V = PayloadModel;

    open spec fn view(&self) -> PayloadModel {
        match self {
            BatchValue::Record(p) => PayloadModel::Record(p@),
            BatchValue::DynamicRecord(p) => PayloadModel::DynamicRecord(p@),
            BatchValue::Info(info) => PayloadModel::Info(*info),
            BatchValue::DynamicInfo(info) => PayloadModel::DynamicInfo(*info),
            BatchValue::Bytes(bytes) => PayloadModel::Bytes(bytes@),
        }
    }
}

impl PayloadModel {
    /// What is stored once the store has assigned `id` to the batch.
    pub open spec fn bind(self, id: u32) -> Stored {
        match self {
            PayloadModel::Record(p) => Stored::Record(p),
            PayloadModel::DynamicRecord(p) => Stored::Record(p.with_id(id)),
            PayloadModel::Info(info) => Stored::Info(info),
            PayloadModel::DynamicInfo(info) => Stored::Info(info.bind(id)),
            PayloadModel::Bytes(bytes) => Stored::Bytes(bytes),
        }
    }
}

/// What a batch requires of the value under a key before it may be applied.
#[derive(Clone, Debug, PartialEq, Eq)]
pub enum AssertValue {
    /// The key holds nothing.
    Absent,
    /// The key still holds the record that was read, told by its hash.
    Unchanged(HashedPrincipal),
}

/// The mathematical value of an [`AssertValue`].
pub enum AssertModel {
    Absent,
    Unchanged(HashedModel),
}

impl View for AssertValue {
    type V = AssertModel;

    open spec fn view(&self) -> AssertModel {
        match self {
            AssertValue::Absent => AssertModel::Absent,
            AssertValue::Unchanged(hashed) => AssertModel::Unchanged(hashed@),
        }
    }
}

/// One operation of a batch.
#[derive(Clone, Debug, PartialEq, Eq)]
pub enum Operation {
    /// The operations that follow belong to this account.
    AccountId(u32),
    /// The operations that follow belong to this collection.
    Collection(Collection),
    /// Reserve a fresh document identifier, which the placeholders of the
    /// operations that follow stand for.
    CreateDocument,
    /// Reject the whole batch unless the key holds what is expected.
    AssertValue { class: DirectoryClass, assert_value: AssertValue },
    /// Write a value.
    Put { class: DirectoryClass, value: BatchValue },
    /// Remove a key.
    Clear { class: DirectoryClass },
    /// Add to a counter.
    Add { class: DirectoryClass, by: i64 },
}

/// The mathematical value of an [`Operation`].
pub enum OpModel {
    AccountId(u32),
    Collection(Collection),
    CreateDocument,
    AssertValue { class: ClassModel, assert_value: AssertModel },
    Put { class: ClassModel, value: PayloadModel },
    Clear { class: ClassModel },
    Add { class: ClassModel, by: i64 },
}

impl View for Operation {
    type V = OpModel;

    open spec fn view(&self) -> OpModel {
        match self {
            Operation::AccountId(id) => OpModel::AccountId(*id),
            Operation::Collection(c) => OpModel::Collection(*c),
            Operation::CreateDocument => OpModel::CreateDocument,
            Operation::AssertValue { class, assert_value } => OpModel::AssertValue {
                class: class@,
                assert_value: assert_value@,
            },
            Operation::Put { class, value } => OpModel::Put { class: class@, value: value@ },
            Operation::Clear { class } => OpModel::Clear { class: class@ },
            Operation::Add { class, by } => OpModel::Add { class: class@, by: *by },
        }
    }
}

impl DeepView for Operation {
    type V = OpModel;

    open spec fn deep_view(&self) -> OpModel {
        self@
    }
}

impl OpModel {
    /// Whether the operation writes or removes a membership edge.
    pub open spec fn touches_edge(self) -> bool {
        match self {
            OpModel::Put { class, .. } => class.is_edge(),
            OpModel::Clear { class } => class.is_edge(),
            _ => false,
        }
    }
}

/// Whether `first` writes a forward edge and `second` the reverse edge
/// between the same two principals.
pub open spec fn is_link(first: OpModel, second: OpModel) -> bool {
    &&& first matches OpModel::Put { class: ClassModel::MemberOf { principal_id, member_of }, .. }
    &&& second matches OpModel::Put {
        class: ClassModel::Members { principal_id: owner, has_member },
        ..
    }
    &&& owner == member_of
    &&& has_member == principal_id
}

/// Whether `first` removes a forward edge and `second` the reverse edge
/// between the same two principals.
pub open spec fn is_unlink(first: OpModel, second: OpModel) -> bool {
    &&& first matches OpModel::Clear { class: ClassModel::MemberOf { principal_id, member_of } }
    &&& second matches OpModel::Clear { class: ClassModel::Members { principal_id: owner, has_member } }
    &&& owner == member_of
    &&& has_member == principal_id
}

/// Whether every operation on a membership edge stands next to the same
/// operation on the opposite edge.
pub open spec fn edges_paired(ops: Seq<OpModel>) -> bool
    decreases ops.len(),
{
    if ops.len() == 0 {
        true
    } else if !ops.last().touches_edge() {
        edges_paired(ops.drop_last())
    } else {
        let n = ops.len() as int;
        n >= 2 && (is_link(ops[n - 2], ops[n - 1]) || is_unlink(ops[n - 2], ops[n - 1]))
            && edges_paired(ops.take(n - 2))
    }
}

/// An operation that touches no edge keeps a list paired.
pub proof fn paired_push(ops: Seq<OpModel>, op: OpModel)
    requires
        edges_paired(ops),
        !op.touches_edge(),
    ensures
        edges_paired(ops.push(op)),
{
    assert(ops.push(op).drop_last() =~= ops);
}

/// Two matching edge operations keep a list paired.
pub proof fn paired_push_pair(ops: Seq<OpModel>, first: OpModel, second: OpModel)
    requires
        edges_paired(ops),
        is_link(first, second) || is_unlink(first, second),
    ensures
        edges_paired(ops.push(first).push(second)),
{
    let all = ops.push(first).push(second);
    assert(all.take(all.len() - 2) =~= ops);
}

/// Accumulates the operations of one batch in order.
#[derive(Debug)]
pub struct BatchBuilder {
    pub ops: Vec<Operation>,
}

impl View for BatchBuilder {
    type V = Seq<OpModel>;

    open spec fn view(&self) -> Seq<OpModel> {
        self.ops.deep_view()
    }
}

/// A finished batch, ready to be committed.
#[derive(Debug, PartialEq, Eq)]
pub struct Batch {
    pub ops: Vec<Operation>,
}

impl View for Batch {
    type V = Seq<OpModel>;

    open spec fn view(&self) -> Seq<OpModel> {
        self.ops.deep_view()
    }
}

impl BatchBuilder {
    /// An empty batch.
    pub fn new() -> (r: BatchBuilder)
        ensures
            r@ == Seq::<OpModel>::empty(),
    {
        let r = BatchBuilder { ops: Vec::new() };
        assert(r@ =~= Seq::<OpModel>::empty());
        r
    }

    /// Appends one operation.
    pub fn push(&mut self, op: Operation)
        ensures
            final(self)@ == old(self)@.push(op@),
    {
        self.ops.push(op);
        assert(self@ =~= old(self)@.push(op@));
    }

    /// Scopes the operations that follow to an account.
    pub fn with_account_id(&mut self, account_id: u32)
        ensures
            final(self)@ == old(self)@.push(OpModel::AccountId(account_id)),
    {
        self.push(Operation::AccountId(account_id));
    }

    /// Scopes the operations that follow to a collection.
    pub fn with_collection(&mut self, collection: Collection)
        ensures
            final(self)@ == old(self)@.push(OpModel::Collection(collection)),
    {
        self.push(Operation::Collection(collection));
    }

    /// Reserves a fresh document identifier for the placeholders that follow.
    pub fn create_document(&mut self)
        ensures
            final(self)@ == old(self)@.push(OpModel::CreateDocument),
    {
        self.push(Operation::CreateDocument);
    }

    /// Makes the batch depend on what a key holds.
    pub fn assert_value(&mut self, class: DirectoryClass, assert_value: AssertValue)
        ensures
            final(self)@ == old(self)@.push(
                OpModel::AssertValue { class: class@, assert_value: assert_value@ },
            ),
    {
        self.push(Operation::AssertValue { class, assert_value });
    }

    /// Writes a value under a key.
    pub fn set(&mut self, class: DirectoryClass, value: BatchValue)
        ensures
            final(self)@ == old(self)@.push(OpModel::Put { class: class@, value: value@ }),
    {
        self.push(Operation::Put { class, value });
    }

    /// Removes a key.
    pub fn clear(&mut self, class: DirectoryClass)
        ensures
            final(self)@ == old(self)@.push(OpModel::Clear { class: class@ }),
    {
        self.push(Operation::Clear { class });
    }

    /// Adds to the counter under a key.
    pub fn add(&mut self, class: DirectoryClass, by: i64)
        ensures
            final(self)@ == old(self)@.push(OpModel::Add { class: class@, by }),
    {
        self.push(Operation::Add { class, by });
    }

    /// The finished batch.
    pub fn build(self) -> (r: Batch)
        ensures
            r@ == self@,
    {
        Batch { ops: self.ops }
    }
}

impl BatchValue {
    /// The value with the assigned identifier filled in.
    pub fn resolve(&self, id: u32) -> (r: BatchValue)
        ensures
            forall|other: u32| r@.bind(other) == self@.bind(id),
    {
        match self {
            BatchValue::Record(p) => BatchValue::Record(p.duplicate()),
            BatchValue::DynamicRecord(p) => {
                let mut record = p.duplicate();
                record.id = id;
                BatchValue::Record(record)
            },
            BatchValue::Info(info) => BatchValue::Info(*info),
            BatchValue::DynamicInfo(info) => BatchValue::Info(info.with_id(id)),
            BatchValue::Bytes(bytes) => BatchValue::Bytes(crate::lists::clone_bytes(bytes)),
        }
    }
}

impl AssertValue {
    /// A copy of the assertion.
    pub fn duplicate(&self) -> (r: AssertValue)
        ensures
            r@ == self@,
    {
        match self {
            AssertValue::Absent => AssertValue::Absent,
            AssertValue::Unchanged(hashed) => AssertValue::Unchanged(hashed.duplicate()),
        }
    }
}

impl OpModel {
    /// Whether two operations do the same to the store once the first is
    /// given `id` and the second any identifier at all.
    pub open spec fn resolved_from(self, origin: OpModel, id: u32) -> bool {
        match origin {
            OpModel::AccountId(a) => self == origin,
            OpModel::Collection(c) => self == origin,
            OpModel::CreateDocument => self == origin,
            OpModel::AssertValue { class, assert_value } => {
                &&& self matches OpModel::AssertValue { class: c, assert_value: a }
                &&& a == assert_value
                &&& forall|other: u32| c.bind(other) == class.bind(id)
            },
            OpModel::Put { class, value } => {
                &&& self matches OpModel::Put { class: c, value: v }
                &&& forall|other: u32| c.bind(other) == class.bind(id)
                &&& forall|other: u32| v.bind(other) == value.bind(id)
            },
            OpModel::Clear { class } => {
                &&& self matches OpModel::Clear { class: c }
                &&& forall|other: u32| c.bind(other) == class.bind(id)
            },
            OpModel::Add { class, by } => {
                &&& self matches OpModel::Add { class: c, by: b }
                &&& b == by
                &&& forall|other: u32| c.bind(other) == class.bind(id)
            },
        }
    }
}

impl Operation {
    /// The operation with every placeholder replaced by the identifier that
    /// the store assigned.
    pub fn resolve(&self, id: u32) -> (r: Operation)
        ensures
            r@.resolved_from(self@, id),
    {
        match self {
            Operation::AccountId(a) => Operation::AccountId(*a),
            Operation::Collection(c) => Operation::Collection(*c),
            Operation::CreateDocument => Operation::CreateDocument,
            Operation::AssertValue { class, assert_value } => Operation::AssertValue {
                class: class.resolve(id),
                assert_value: assert_value.duplicate(),
            },
            Operation::Put { class, value } => Operation::Put {
                class: class.resolve(id),
                value: value.resolve(id),
            },
            Operation::Clear { class } => Operation::Clear { class: class.resolve(id) },
            Operation::Add { class, by } => Operation::Add { class: class.resolve(id), by: *by },
        }
    }
}

impl Batch {
    /// Substitutes the identifier that the store assigned to the batch's new
    /// document into every placeholder.
    pub fn resolve(&self, id: u32) -> (r: Batch)
        ensures
            r@.len() == self@.len(),
            forall|i: int| 0 <= i < self@.len() ==> (#[trigger] r@[i]).resolved_from(self@[i], id),
    {
        let mut out: Vec<Operation> = Vec::new();
        let mut i: usize = 0;
        while i < self.ops.len()
            invariant
                i <= self.ops.len(),
                out.len() == i,
                forall|j: int|
                    0 <= j < i ==> (#[trigger] out.deep_view()[j]).resolved_from(
                        self.ops.deep_view()[j],
                        id,
                    ),
            decreases self.ops.len() - i,
        {
            let op = self.ops[i].resolve(id);
            let ghost before = out.deep_view();
            out.push(op);
            assert(out.deep_view() =~= before.push(op@));
            i = i + 1;
        }
        Batch { ops: out }
    }
}

} // verus!
