//! The record layout cache: one canonical shared layout per record shape,
//! safe to use from many threads at once.
use vstd::prelude::*;
use vstd::rwlock::{RwLock, RwLockPredicate};
use crate::data_type::DataTypeInfo;
use crate::model::{has_duplicate_names, layout_fits, layout_of, RecordModel, TypeModel};
use crate::record_info::{
    build_record_info, specs_model, RecordError, RecordFieldSpec, SharedRecordInfo, TypedRecordInfo,
};
use crate::record_type::RecordType;
use crate::shared_name::{intern_name, SharedName};

verus! {

/// The identity of a record shape: its name and its ordered field specification.
#[derive(Debug)]
pub struct RecordShape {
    pub name: SharedName,
    pub fields: Vec<RecordFieldSpec>,
}

impl RecordShape {
    pub open spec fn model(&self) -> (Seq<char>, Seq<(Seq<char>, TypeModel)>) {
        (self.name@, specs_model(self.fields@))
    }

    /// The layout that the shape declares.
    pub open spec fn layout(&self) -> RecordModel {
        layout_of(self.model().0, self.model().1)
    }

    /// The shape can be laid out: no two fields share a name and the layout fits.
    pub open spec fn is_declarable(&self) -> bool {
        !has_duplicate_names(self.model().1) && layout_fits(self.model().1)
    }

    /// A shape with the given name and no fields yet.
    pub fn new(name: SharedName) -> (r: Self)
        ensures
            r.name@ == name@,
            r.fields@.len() == 0,
    {
        RecordShape { name, fields: Vec::new() }
    }

    /// Appends a field to the specification.
    pub fn push_field(&mut self, name: SharedName, data_type: DataTypeInfo)
        ensures
            final(self).model() == (old(self).model().0, old(self).model().1.push((name@, data_type@))),
    {
        let ghost before = self.fields@;
        self.fields.push(RecordFieldSpec::new(name, data_type));
        assert(specs_model(self.fields@) =~= specs_model(before).push((name@, data_type@)));
    }

    /// Whether the two shapes are the same.
    pub fn same(&self, other: &RecordShape) -> (r: bool)
        ensures
            r == (self.model() == other.model()),
    {
        if !self.name.same(&other.name) {
            return false;
        }
        let n = self.fields.len();
        if other.fields.len() != n {
            assert(specs_model(self.fields@).len() != specs_model(other.fields@).len());
            return false;
        }
        let ghost a = specs_model(self.fields@);
        let ghost b = specs_model(other.fields@);
        let mut i: usize = 0;
        while i < n
            invariant
                n == self.fields@.len(),
                n == other.fields@.len(),
                a == specs_model(self.fields@),
                b == specs_model(other.fields@),
                0 <= i <= n,
                forall|k: int| 0 <= k < i ==> #[trigger] a[k] == b[k],
            decreases n - i,
        {
            let fa = &self.fields[i];
            let fb = &other.fields[i];
            if !fa.name.same(&fb.name) || !fa.data_type.same(&fb.data_type) {
                assert(a[i as int] != b[i as int]);
                return false;
            }
            i = i + 1;
        }
        assert(a =~= b);
        true
    }
}

impl Clone for RecordShape {
    fn clone(&self) -> (r: Self)
        ensures
            r.model() == self.model(),
    {
        let n = self.fields.len();
        let mut fields: Vec<RecordFieldSpec> = Vec::new();
        let mut i: usize = 0;
        while i < n
            invariant
                n == self.fields@.len(),
                0 <= i <= n,
                specs_model(fields@) == specs_model(self.fields@).take(i as int),
            decreases n - i,
        {
            let ghost before = fields@;
            fields.push(self.fields[i].clone());
            assert(specs_model(fields@) =~= specs_model(before).push(self.fields@[i as int].model()));
            assert(specs_model(self.fields@).take(i + 1) =~= specs_model(self.fields@).take(i as int).push(
                self.fields@[i as int].model(),
            ));
            i = i + 1;
        }
        assert(specs_model(self.fields@).take(n as int) =~= specs_model(self.fields@));
        RecordShape { name: self.name.clone(), fields }
    }
}

/// One cached layout.
struct CacheEntry {
    shape: RecordShape,
    info: SharedRecordInfo,
}

/// What every state of the cache satisfies: each entry holds the layout its
/// shape declares, and no two entries hold the same shape.
struct CacheInvariant {}

pub open spec fn entry_valid(shape: (Seq<char>, Seq<(Seq<char>, TypeModel)>), info: RecordModel) -> bool {
    &&& !has_duplicate_names(shape.1)
    &&& layout_fits(shape.1)
    &&& info == layout_of(shape.0, shape.1)
}

impl RwLockPredicate<Vec<CacheEntry>> for CacheInvariant {
    closed spec fn inv(self, entries: Vec<CacheEntry>) -> bool {
        &&& forall|i: int| 0 <= i < entries@.len() ==> entry_valid(#[trigger] entries@[i].shape.model(), entries@[i].info@)
        &&& forall|i: int, j: int|
            0 <= i < j < entries@.len() ==> #[trigger] entries@[i].shape.model() != #[trigger] entries@[j].shape.model()
    }
}

/// The entry holding `shape`, if any.
fn find_entry(entries: &Vec<CacheEntry>, shape: &RecordShape) -> (r: Option<SharedRecordInfo>)
    ensures
        match r {
            Some(info) => exists|i: int|
                0 <= i < entries@.len() && #[trigger] entries@[i].shape.model() == shape.model() && info
                    == entries@[i].info,
            None => forall|i: int| 0 <= i < entries@.len() ==> #[trigger] entries@[i].shape.model() != shape.model(),
        },
{
    let n = entries.len();
    let mut i: usize = 0;
    while i < n
        invariant
            n == entries@.len(),
            0 <= i <= n,
            forall|k: int| 0 <= k < i ==> #[trigger] entries@[k].shape.model() != shape.model(),
        decreases n - i,
    {
        if entries[i].shape.same(shape) {
            return Some(entries[i].info.clone());
        }
        i = i + 1;
    }
    None
}

/// A cache of record layouts, keyed by record shape, that any number of
/// threads may share. Lookups and insertions hold its lock only while they
/// touch the table; layouts are built outside the lock.
pub struct RecordRegistry {
    entries: RwLock<Vec<CacheEntry>, CacheInvariant>,
}

impl RecordRegistry {
    pub fn new() -> (r: Self) {
        RecordRegistry { entries: RwLock::new(Vec::new(), Ghost(CacheInvariant {})) }
    }

    /// The canonical layout of `shape`: the cached one when the shape was seen
    /// before, or else one built now and cached, unless another thread cached
    /// one in the meantime, which is then returned instead.
    pub fn record_info_for_shape(&self, shape: &RecordShape) -> (r: Result<SharedRecordInfo, RecordError>)
        ensures
            match r {
                Ok(info) => shape.is_declarable() && info@ == shape.layout(),
                Err(RecordError::DuplicateField) => has_duplicate_names(shape.model().1),
                Err(RecordError::TooLarge) => !has_duplicate_names(shape.model().1) && !layout_fits(
                    shape.model().1,
                ),
                Err(RecordError::Cyclic) => false,
            },
    {
        let read = self.entries.acquire_read();
        let cached = find_entry(read.borrow(), shape);
        read.release_read();
        if let Some(info) = cached {
            return Ok(info);
        }
        let built = match build_record_info(&shape.name, &shape.fields) {
            Ok(info) => SharedRecordInfo::new(info),
            Err(e) => {
                return Err(e);
            },
        };
        let (mut entries, write) = self.entries.acquire_write();
        let result = match find_entry(&entries, shape) {
            Some(info) => info,
            None => {
                let ghost before = entries@;
                entries.push(CacheEntry { shape: shape.clone(), info: built.clone() });
                assert forall|i: int, j: int|
                    0 <= i < j < entries@.len() implies #[trigger] entries@[i].shape.model()
                    != #[trigger] entries@[j].shape.model() by {
                    if j == before.len() {
                        assert(before[i] == entries@[i]);
                    } else {
                        assert(before[i] == entries@[i] && before[j] == entries@[j]);
                    }
                }
                assert forall|i: int| 0 <= i < entries@.len() implies entry_valid(
                    #[trigger] entries@[i].shape.model(),
                    entries@[i].info@,
                ) by {
                    if i < before.len() {
                        assert(before[i] == entries@[i]);
                    }
                }
                built
            },
        };
        write.release_write(entries);
        Ok(result)
    }

    /// How many cached entries hold `shape`: never more than one.
    pub fn cached_count(&self, shape: &RecordShape) -> (r: usize)
        ensures
            r <= 1,
    {
        let read = self.entries.acquire_read();
        let entries = read.borrow();
        let n = entries.len();
        let mut count: usize = 0;
        let mut i: usize = 0;
        while i < n
            invariant
                n == entries@.len(),
                (CacheInvariant {}).inv(*entries),
                0 <= i <= n,
                count <= 1,
                count == 1 ==> exists|k: int| 0 <= k < i && #[trigger] entries@[k].shape.model() == shape.model(),
            decreases n - i,
        {
            if entries[i].shape.same(shape) {
                if count == 1 {
                    proof {
                        let k = choose|k: int| 0 <= k < i && #[trigger] entries@[k].shape.model() == shape.model();
                        assert(entries@[k].shape.model() == entries@[i as int].shape.model());
                    }
                }
                count = 1;
            }
            i = i + 1;
        }
        read.release_read();
        count
    }
}

/// Any two requests for one shape, made from any threads and at any times,
/// get equal layouts: the layout is a function of the shape.
pub proof fn lemma_canonical_layout(
    s1: RecordShape,
    s2: RecordShape,
    a: SharedRecordInfo,
    b: SharedRecordInfo,
)
    requires
        s1.model() == s2.model(),
        a@ == s1.layout(),
        b@ == s2.layout(),
    ensures
        a@ == b@,
{
}


/// The record declarations under way on one chain of nested requests, and
/// the registry they draw on.
pub struct DeclarationScope<'a> {
    registry: &'a RecordRegistry,
    pending: Vec<SharedName>,
}

impl<'a> DeclarationScope<'a> {
    /// The names of the records being declared, outermost first.
    pub closed spec fn pending(&self) -> Seq<Seq<char>> {
        self.pending@.map_values(|n: SharedName| n@)
    }

    /// A scope with no declaration under way.
    pub fn new(registry: &'a RecordRegistry) -> (r: Self)
        ensures
            r.pending() == Seq::<Seq<char>>::empty(),
    {
        let r = DeclarationScope { registry, pending: Vec::new() };
        assert(r.pending() =~= Seq::<Seq<char>>::empty());
        r
    }

    pub fn registry(&self) -> &'a RecordRegistry {
        self.registry
    }

    /// Whether a record named `name` is being declared.
    pub fn is_pending(&self, name: &SharedName) -> (r: bool)
        ensures
            r == self.pending().contains(name@),
    {
        let n = self.pending.len();
        let mut i: usize = 0;
        while i < n
            invariant
                n == self.pending@.len(),
                0 <= i <= n,
                forall|k: int| 0 <= k < i ==> #[trigger] self.pending()[k] != name@,
            decreases n - i,
        {
            if self.pending[i].same(name) {
                assert(self.pending()[i as int] == name@);
                return true;
            }
            i = i + 1;
        }
        false
    }

    /// The scope for the fields of a record named `name`, declared within this one.
    fn enter(&self, name: &SharedName) -> (r: DeclarationScope<'a>)
        ensures
            r.pending() == self.pending().push(name@),
    {
        let mut pending: Vec<SharedName> = Vec::new();
        let n = self.pending.len();
        let mut i: usize = 0;
        while i < n
            invariant
                n == self.pending@.len(),
                0 <= i <= n,
                pending@.map_values(|m: SharedName| m@) == self.pending().take(i as int),
            decreases n - i,
        {
            let ghost before = pending@;
            pending.push(self.pending[i].clone());
            assert(pending@.map_values(|m: SharedName| m@) =~= before.map_values(|m: SharedName| m@).push(self.pending()[i as int]));
            assert(self.pending().take(i + 1) =~= self.pending().take(i as int).push(self.pending()[i as int]));
            i = i + 1;
        }
        let ghost before = pending@;
        pending.push(name.clone());
        assert(pending@.map_values(|m: SharedName| m@) =~= before.map_values(|m: SharedName| m@).push(name@));
        assert(self.pending().take(n as int) =~= self.pending());
        DeclarationScope { registry: self.registry, pending }
    }
}

/// The canonical layout of the record type `RT`, declared under its name with
/// the fields that `RT` specifies.
pub fn record_info_for_type<RT: RecordType>(registry: &RecordRegistry) -> (r: Result<
    TypedRecordInfo<RT>,
    RecordError,
>)
    ensures
        !(r matches Err(RecordError::Cyclic)),
        r matches Ok(t) ==> exists|specs: Seq<(Seq<char>, TypeModel)>|
            !has_duplicate_names(specs) && layout_fits(specs) && t@ == #[trigger] layout_of(t@.name, specs),
{
    declare_record_type::<RT>(&DeclarationScope::new(registry))
}

/// The canonical layout of the record type `RT`, declared within `scope` under
/// the name that `RT` gives.
pub fn declare_record_type<RT: RecordType>(scope: &DeclarationScope) -> (r: Result<
    TypedRecordInfo<RT>,
    RecordError,
>)
    ensures
        r matches Err(RecordError::Cyclic) ==> scope.pending().len() > 0,
        r matches Ok(t) ==> !scope.pending().contains(t@.name) && exists|specs: Seq<(Seq<char>, TypeModel)>|
            !has_duplicate_names(specs) && layout_fits(specs) && t@ == #[trigger] layout_of(t@.name, specs),
{
    let name = intern_name(RT::name());
    declare_record_named::<RT>(scope, &name)
}

/// The canonical layout of the record type `RT`, declared within `scope` under
/// `name` with the fields that `RT` specifies. A record whose name is already
/// being declared in `scope` would contain itself, and is rejected.
pub fn declare_record_named<RT: RecordType>(scope: &DeclarationScope, name: &SharedName) -> (r: Result<
    TypedRecordInfo<RT>,
    RecordError,
>)
    ensures
        (r matches Err(RecordError::Cyclic)) <==> scope.pending().contains(name@),
        r matches Ok(t) ==> t@.name == name@ && exists|specs: Seq<(Seq<char>, TypeModel)>|
            !has_duplicate_names(specs) && layout_fits(specs) && t@ == #[trigger] layout_of(name@, specs),
{
    if scope.is_pending(name) {
        return Err(RecordError::Cyclic);
    }
    let inner = scope.enter(name);
    let mut declared = RecordShape::new(name.clone());
    RT::specify_fields(&inner, &mut declared);
    let shape = RecordShape { name: name.clone(), fields: declared.fields };
    match scope.registry.record_info_for_shape(&shape) {
        Ok(info) => {
            Ok(TypedRecordInfo::new(info))
        },
        Err(e) => Err(e),
    }
}

} // verus!
