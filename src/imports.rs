//! Host-provided functions and the binding of a module's imports to them.
use vstd::prelude::*;

use crate::errors::ErrorKind;

verus! {

/// One host function offered under `module.field`.
#[derive(Clone, Debug)]
pub struct ImportEntry {
    pub module: String,
    pub field: String,
    pub address: u64,
}

/// The address offered under `module.field` in `s`; a later entry hides an
/// earlier one with the same name.
pub open spec fn lookup_in(s: Seq<ImportEntry>, module: Seq<char>, field: Seq<char>) -> Option<u64>
    decreases s.len(),
{
    if s.len() == 0 {
        None
    } else if s.last().module@ == module && s.last().field@ == field {
        Some(s.last().address)
    } else {
        lookup_in(s.drop_last(), module, field)
    }
}

/// Host functions keyed by `(module, field)`.
#[derive(Clone, Debug)]
pub struct ImportObject {
    entries: Vec<ImportEntry>,
}

impl ImportObject {
    /// The address offered under `module.field`, if any.
    pub closed spec fn lookup(&self, module: Seq<char>, field: Seq<char>) -> Option<u64> {
        lookup_in(self.entries@, module, field)
    }

    /// An import object that offers nothing.
    pub fn new() -> (r: ImportObject)
        ensures
            forall|m: Seq<char>, f: Seq<char>| #[trigger] r.lookup(m, f) is None,
    {
        ImportObject { entries: Vec::new() }
    }

    /// Offers `address` under `module.field`, replacing what was offered there.
    pub fn set(&mut self, module: String, field: String, address: u64)
        ensures
            final(self).lookup(module@, field@) == Some(address),
            forall|m: Seq<char>, f: Seq<char>|
                !(m == module@ && f == field@) ==> #[trigger] final(self).lookup(m, f) == old(
                    self,
                ).lookup(m, f),
    {
        let ghost before = self.entries@;
        let ghost mv = module@;
        let ghost fv = field@;
        self.entries.push(ImportEntry { module, field, address });
        assert(self.entries@.drop_last() =~= before);
        assert forall|m: Seq<char>, f: Seq<char>|
            !(m == mv && f == fv) implies #[trigger] lookup_in(self.entries@, m, f) == lookup_in(
            before,
            m,
            f,
        ) by {
            assert(self.entries@.drop_last() =~= before);
        }
    }

    /// The address offered under `module.field`, if any.
    pub fn get(&self, module: &String, field: &String) -> (r: Option<u64>)
        ensures
            r == self.lookup(module@, field@),
    {
        let mut i: usize = self.entries.len();
        assert(self.entries@.subrange(0, i as int) =~= self.entries@);
        while i > 0
            invariant
                i <= self.entries@.len(),
                lookup_in(self.entries@, module@, field@) == lookup_in(
                    self.entries@.subrange(0, i as int),
                    module@,
                    field@,
                ),
            decreases i,
        {
            let e = &self.entries[i - 1];
            let ghost pre = self.entries@.subrange(0, i as int);
            assert(pre.drop_last() =~= self.entries@.subrange(0, i - 1));
            if e.module == *module && e.field == *field {
                return Some(e.address);
            }
            i = i - 1;
        }
        assert(self.entries@.subrange(0, 0) =~= Seq::<ImportEntry>::empty());
        None
    }
}

/// The address an import named `module.field` is bound to: the one offered,
/// else the mock stub where mocking is on.
pub open spec fn bound_address(
    obj: ImportObject,
    module: Seq<char>,
    field: Seq<char>,
    mock_missing_imports: bool,
    mock: u64,
) -> Option<u64> {
    match obj.lookup(module, field) {
        Some(a) => Some(a),
        None => if mock_missing_imports {
            Some(mock)
        } else {
            None
        },
    }
}

/// Binds each imported function `(module, field)` in order. Fails on the
/// first import that is neither offered nor mocked, naming it.
pub fn bind_imports(
    imported: &Vec<(String, String)>,
    obj: &ImportObject,
    mock_missing_imports: bool,
    mock: u64,
) -> (r: Result<Vec<u64>, ErrorKind>)
    ensures
        r is Ok <==> forall|i: int|
            0 <= i < imported.len() ==> #[trigger] bound_address(
                *obj,
                imported@[i].0@,
                imported@[i].1@,
                mock_missing_imports,
                mock,
            ) is Some,
        r matches Ok(v) ==> v@.len() == imported.len() && forall|i: int|
            0 <= i < imported.len() ==> bound_address(
                *obj,
                imported@[i].0@,
                imported@[i].1@,
                mock_missing_imports,
                mock,
            ) == Some(#[trigger] v@[i]),
        r matches Err(e) ==> exists|j: int|
            0 <= j < imported.len() && #[trigger] bound_address(
                *obj,
                imported@[j].0@,
                imported@[j].1@,
                mock_missing_imports,
                mock,
            ) is None && (e matches ErrorKind::MissingImport { module, field } && module@
                == imported@[j].0@ && field@ == imported@[j].1@) && forall|k: int|
                0 <= k < j ==> #[trigger] bound_address(
                    *obj,
                    imported@[k].0@,
                    imported@[k].1@,
                    mock_missing_imports,
                    mock,
                ) is Some,
{
    let mut out: Vec<u64> = Vec::new();
    let mut i: usize = 0;
    while i < imported.len()
        invariant
            i <= imported.len(),
            out@.len() == i,
            forall|k: int|
                0 <= k < i ==> bound_address(
                    *obj,
                    imported@[k].0@,
                    imported@[k].1@,
                    mock_missing_imports,
                    mock,
                ) == Some(#[trigger] out@[k]),
        decreases imported.len() - i,
    {
        let module = &imported[i].0;
        let field = &imported[i].1;
        assert(module@ == imported@[i as int].0@ && field@ == imported@[i as int].1@);
        match obj.get(module, field) {
            Some(a) => out.push(a),
            None => {
                if mock_missing_imports {
                    out.push(mock);
                } else {
                    assert(bound_address(
                        *obj,
                        imported@[i as int].0@,
                        imported@[i as int].1@,
                        mock_missing_imports,
                        mock,
                    ) is None);
                    assert forall|k: int| 0 <= k < i implies #[trigger] bound_address(
                        *obj,
                        imported@[k].0@,
                        imported@[k].1@,
                        mock_missing_imports,
                        mock,
                    ) is Some by {
                        assert(bound_address(*obj, imported@[k].0@, imported@[k].1@, mock_missing_imports, mock)
                            == Some(out@[k]));
                    }
                    return Err(ErrorKind::MissingImport { module: module.clone(), field: field.clone() });
                }
            },
        }
        i = i + 1;
    }
    assert forall|k: int| 0 <= k < imported.len() implies #[trigger] bound_address(
        *obj,
        imported@[k].0@,
        imported@[k].1@,
        mock_missing_imports,
        mock,
    ) is Some by {
        assert(bound_address(*obj, imported@[k].0@, imported@[k].1@, mock_missing_imports, mock)
            == Some(out@[k]));
    }
    Ok(out)
}

} // verus!
