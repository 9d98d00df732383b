//! The operation log: an append-only record of the changes that were sent
//! to peers or applied from them, looked up by kind to suppress echoes.
use vstd::prelude::*;

verus! {

/// What a recorded change did, without the device that made it.
#[derive(Debug, Clone)]
pub enum OperationKind {
    Create { path: String, contents: String },
    Remove { path: String },
}

/// The mathematical form of an [`OperationKind`].
pub enum KindModel {
    Create { path: Seq<char>, contents: Seq<char> },
    Remove { path: Seq<char> },
}

impl View for OperationKind {
    type V = KindModel;

    open spec fn view(&self) -> KindModel {
        match self {
            OperationKind::Create { path, contents } => KindModel::Create {
                path: path@,
                contents: contents@,
            },
            OperationKind::Remove { path } => KindModel::Remove { path: path@ },
        }
    }
}

impl PartialEq for OperationKind {
    fn eq(&self, other: &OperationKind) -> (r: bool) {
        match (self, other) {
            (
                OperationKind::Create { path: p1, contents: c1 },
                OperationKind::Create { path: p2, contents: c2 },
            ) => *p1 == *p2 && *c1 == *c2,
            (OperationKind::Remove { path: p1 }, OperationKind::Remove { path: p2 }) => *p1 == *p2,
            _ => false,
        }
    }
}

impl vstd::std_specs::cmp::PartialEqSpecImpl for OperationKind {
    open spec fn obeys_eq_spec() -> bool {
        true
    }

    open spec fn eq_spec(&self, other: &OperationKind) -> bool {
        self@ == other@
    }
}

/// The mathematical form of an [`Operation`]: the device it came from and
/// what it did.
pub struct OperationModel {
    pub origin: Seq<char>,
    pub kind: KindModel,
}

/// One recorded change, tagged with the device that produced it (an empty
/// origin marks a change made on this device).
#[derive(Debug)]
pub struct Operation {
    device_addr: String,
    kind: OperationKind,
}

impl View for Operation {
    type V = OperationModel;

    closed spec fn view(&self) -> OperationModel {
        OperationModel { origin: self.device_addr@, kind: self.kind@ }
    }
}

impl Operation {
    /// A file at `path` that now holds `contents`.
    pub fn create(device_addr: String, path: String, contents: String) -> (r: Operation)
        ensures
            r@ == (OperationModel {
                origin: device_addr@,
                kind: KindModel::Create { path: path@, contents: contents@ },
            }),
    {
        Operation { device_addr, kind: OperationKind::Create { path, contents } }
    }

    /// A file at `path` that was removed.
    pub fn remove(device_addr: String, path: String) -> (r: Operation)
        ensures
            r@ == (OperationModel { origin: device_addr@, kind: KindModel::Remove { path: path@ } }),
    {
        Operation { device_addr, kind: OperationKind::Remove { path } }
    }

    pub fn device_addr(&self) -> (r: &String)
        ensures
            r@ == self@.origin,
    {
        &self.device_addr
    }

    pub fn kind(&self) -> (r: &OperationKind)
        ensures
            r@ == self@.kind,
    {
        &self.kind
    }
}

/// Whether some operation of `ops` has kind `k`.
pub open spec fn records(ops: Seq<OperationModel>, k: KindModel) -> bool {
    exists|i: int| 0 <= i < ops.len() && #[trigger] ops[i].kind == k
}

/// After `op` is appended to a log, a lookup of its kind finds a match,
/// whatever device it came from; a lookup of any other kind finds one
/// exactly when it did before.
pub proof fn lemma_push_then_find(log: Seq<OperationModel>, op: OperationModel, k: KindModel)
    ensures
        records(log.push(op), op.kind),
        k != op.kind ==> (records(log.push(op), k) <==> records(log, k)),
{
    let l2 = log.push(op);
    assert(l2[log.len() as int].kind == op.kind);
    if k != op.kind {
        if records(l2, k) {
            let i = choose|i: int| 0 <= i < l2.len() && #[trigger] l2[i].kind == k;
            assert(log[i].kind == k);
        }
        if records(log, k) {
            let i = choose|i: int| 0 <= i < log.len() && #[trigger] log[i].kind == k;
            assert(l2[i].kind == k);
        }
    }
}

/// The log of operations, oldest first.
#[derive(Debug)]
pub struct Index {
    ops: Vec<Operation>,
}

impl View for Index {
    type V = Seq<OperationModel>;

    closed spec fn view(&self) -> Seq<OperationModel> {
        self.ops@.map_values(|op: Operation| op@)
    }
}

impl Index {
    /// An empty log.
    pub fn new() -> (r: Index)
        ensures
            r@ == Seq::<OperationModel>::empty(),
    {
        let r = Index { ops: Vec::new() };
        assert(r@ =~= Seq::<OperationModel>::empty());
        r
    }

    /// Appends `op` at the end of the log.
    pub fn push(&mut self, op: Operation)
        ensures
            final(self)@ == old(self)@.push(op@),
    {
        self.ops.push(op);
        assert(self@ =~= old(self)@.push(op@));
    }

    /// The number of operations recorded.
    pub fn len(&self) -> (r: usize)
        ensures
            r == self@.len(),
    {
        self.ops.len()
    }

    /// The oldest operation whose kind equals `op_kind`, the origin aside.
    pub fn find(&self, op_kind: OperationKind) -> (r: Option<&Operation>)
        ensures
            r is None <==> !records(self@, op_kind@),
            r matches Some(op) ==> exists|i: int|
                {
                    &&& 0 <= i < self@.len()
                    &&& self@[i] == op@
                    &&& op@.kind == op_kind@
                    &&& forall|j: int| 0 <= j < i ==> #[trigger] self@[j].kind != op_kind@
                },
    {
        let mut i: usize = 0;
        while i < self.ops.len()
            invariant
                i <= self.ops@.len(),
                self@.len() == self.ops@.len(),
                forall|j: int| 0 <= j < i ==> #[trigger] self@[j].kind != op_kind@,
            decreases self.ops@.len() - i,
        {
            let found = self.ops[i].kind == op_kind;
            assert(self@[i as int] == self.ops@[i as int]@);
            if found {
                assert(self@[i as int].kind == op_kind@);
                return Some(&self.ops[i]);
            }
            i = i + 1;
        }
        None
    }
}

} // verus!
