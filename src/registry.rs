//! Hash algorithm registry: algorithm ids mapped to kernel descriptors.
use vstd::prelude::*;

verus! {

/// One registered hash algorithm: its id, digest size, the bytes it consumes
/// per block, and the name of the kernel entry point that implements it.
#[derive(Debug)]
pub struct AlgorithmDescriptor {
    pub id: String,
    pub output_size_bytes: usize,
    pub block_bytes: usize,
    pub kernel_entry: String,
}

/// The abstract value of a descriptor.
pub struct AlgorithmView {
    pub id: Seq<char>,
    pub output_size_bytes: nat,
    pub block_bytes: nat,
    pub kernel_entry: Seq<char>,
}

impl View for AlgorithmDescriptor {
    type V = AlgorithmView;

    open spec fn view(&self) -> AlgorithmView {
        AlgorithmView {
            id: self.id@,
            output_size_bytes: self.output_size_bytes as nat,
            block_bytes: self.block_bytes as nat,
            kernel_entry: self.kernel_entry@,
        }
    }
}

impl AlgorithmDescriptor {
    /// A copy with the same fields.
    pub fn duplicate(&self) -> (r: AlgorithmDescriptor)
        ensures
            r@ == self@,
    {
        AlgorithmDescriptor {
            id: self.id.clone(),
            output_size_bytes: self.output_size_bytes,
            block_bytes: self.block_bytes,
            kernel_entry: self.kernel_entry.clone(),
        }
    }

    /// Whether two descriptors agree in every field.
    pub fn same_as(&self, other: &AlgorithmDescriptor) -> (r: bool)
        ensures
            r == (self@ == other@),
    {
        self.id == other.id && self.output_size_bytes == other.output_size_bytes
            && self.block_bytes == other.block_bytes && self.kernel_entry == other.kernel_entry
    }
}

/// No algorithm is registered under the requested id.
#[derive(Debug)]
pub struct UnknownAlgorithm {
    pub id: String,
}

/// The id is already registered with a different descriptor.
#[derive(Debug)]
pub struct RegistrationConflict {
    pub id: String,
}

/// The registered algorithms; ids are unique.
#[derive(Debug)]
pub struct Registry {
    entries: Vec<AlgorithmDescriptor>,
}

/// Whether `entries` holds an algorithm with id `id`.
pub open spec fn has_id(entries: Seq<AlgorithmView>, id: Seq<char>) -> bool {
    exists|i: int| 0 <= i < entries.len() && entries[i].id == id
}

impl Registry {
    /// The registered descriptors, in the order they were registered.
    pub closed spec fn entries(&self) -> Seq<AlgorithmView> {
        self.entries@.map_values(|d: AlgorithmDescriptor| d@)
    }

    /// No two entries share an id.
    pub open spec fn wf(&self) -> bool {
        forall|i: int, j: int|
            0 <= i < self.entries().len() && 0 <= j < self.entries().len() && i != j
                ==> self.entries()[i].id != self.entries()[j].id
    }

    /// An empty registry.
    pub fn new() -> (r: Registry)
        ensures
            r.wf(),
            r.entries() == Seq::<AlgorithmView>::empty(),
    {
        let r = Registry { entries: Vec::new() };
        assert(r.entries() =~= Seq::<AlgorithmView>::empty());
        r
    }

    /// A registry holding SHA-256 (32-byte digest) and MD5 (16-byte digest),
    /// both processing 64-byte blocks.
    pub fn standard() -> (r: Registry)
        ensures
            r.wf(),
            r.entries().len() == 2,
            r.entries()[0] == (AlgorithmView {
                id: "sha256"@,
                output_size_bytes: 32,
                block_bytes: 64,
                kernel_entry: "sha256_kernel"@,
            }),
            r.entries()[1] == (AlgorithmView {
                id: "md5"@,
                output_size_bytes: 16,
                block_bytes: 64,
                kernel_entry: "md5_kernel"@,
            }),
    {
        let mut r = Registry::new();
        let sha = AlgorithmDescriptor {
            id: "sha256".to_owned(),
            output_size_bytes: 32,
            block_bytes: 64,
            kernel_entry: "sha256_kernel".to_owned(),
        };
        let md5 = AlgorithmDescriptor {
            id: "md5".to_owned(),
            output_size_bytes: 16,
            block_bytes: 64,
            kernel_entry: "md5_kernel".to_owned(),
        };
        proof {
            reveal_strlit("sha256");
            reveal_strlit("md5");
            assert("sha256"@.len() == 6);
            assert("md5"@.len() == 3);
            assert(sha@.id != md5@.id);
        }
        let _ = r.register(sha);
        let _ = r.register(md5);
        r
    }

    /// Position of the entry with id `id`, if any.
    fn position(&self, id: &String) -> (r: Option<usize>)
        ensures
            r matches Some(i) ==> i < self.entries().len() && self.entries()[i as int].id == id@,
            r is None ==> !has_id(self.entries(), id@),
    {
        let mut i: usize = 0;
        while i < self.entries.len()
            invariant
                i <= self.entries@.len(),
                forall|j: int| 0 <= j < i ==> self.entries()[j].id != id@,
            decreases self.entries.len() - i,
        {
            if self.entries[i].id == *id {
                return Some(i);
            }
            i = i + 1;
        }
        None
    }

    /// Adds `d`. Registering an id again with the same descriptor changes
    /// nothing; with a different one it is refused and changes nothing.
    pub fn register(&mut self, d: AlgorithmDescriptor) -> (r: Result<(), RegistrationConflict>)
        requires
            old(self).wf(),
        ensures
            final(self).wf(),
            !has_id(old(self).entries(), d@.id) ==> r is Ok && final(self).entries()
                == old(self).entries().push(d@),
            has_id(old(self).entries(), d@.id) ==> final(self).entries() == old(self).entries(),
            has_id(old(self).entries(), d@.id) ==> (r is Ok <==> exists|i: int|
                0 <= i < old(self).entries().len() && old(self).entries()[i] == d@),
            r matches Err(e) ==> e.id@ == d@.id,
    {
        match self.position(&d.id) {
            Some(i) => {
                if self.entries[i].same_as(&d) {
                    Ok(())
                } else {
                    proof {
                        assert forall|j: int|
                            0 <= j < self.entries().len() && self.entries()[j] == d@ implies false by {
                            if j != i {
                                assert(self.entries()[j].id == self.entries()[i as int].id);
                            }
                        }
                    }
                    Err(RegistrationConflict { id: d.id })
                }
            },
            None => {
                let ghost before = self.entries();
                self.entries.push(d);
                assert(self.entries() =~= before.push(d@));
                Ok(())
            },
        }
    }

    /// The descriptor registered under `id`.
    pub fn lookup(&self, id: &String) -> (r: Result<AlgorithmDescriptor, UnknownAlgorithm>)
        requires
            self.wf(),
        ensures
            r is Ok <==> has_id(self.entries(), id@),
            r matches Ok(d) ==> d@.id == id@ && exists|i: int|
                0 <= i < self.entries().len() && self.entries()[i] == d@,
            r matches Err(e) ==> e.id@ == id@,
    {
        match self.position(id) {
            Some(i) => Ok(self.entries[i].duplicate()),
            None => Err(UnknownAlgorithm { id: id.clone() }),
        }
    }
}

} // verus!
