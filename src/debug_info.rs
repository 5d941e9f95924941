use crate::mapping::{base_address, included_in, is_selection, min_start, select_maps, MapClass, MapNotFound, MemMap};
use object::{Object, ObjectSymbol};
use vstd::prelude::*;

verus! {

/// One executable symbol: its name and link-time offset.
#[derive(Clone, Debug)]
pub struct FunctionInfo {
    pub name: String,
    pub offset: u64,
}

/// One data symbol: its name and link-time offset.
#[derive(Clone, Debug)]
pub struct VariableInfo {
    pub name: String,
    pub offset: u64,
}

/// The kind of a symbol-table entry, as far as extraction tells kinds apart.
#[derive(Clone, Copy, Debug, PartialEq, Eq, Structural)]
pub enum SymbolClass {
    Text,
    Data,
    Other,
}

/// One entry of an object file's symbol table; `name` is `None` where the
/// name could not be read.
#[derive(Clone, Debug)]
pub struct RawSymbol {
    pub class: SymbolClass,
    pub name: Option<String>,
    pub address: u64,
}

/// The symbol table of an object-file image, in table order; `None` where the
/// bytes are not an object file of a supported format.
pub uninterp spec fn symbol_table_of(image: Seq<u8>) -> Option<Seq<RawSymbol>>;

/// Relies on `object::File::parse` and `Object::symbols`: the symbols of the
/// parsed image, in iteration order, or `None` when parsing fails.
#[verifier::external_body]
fn read_symbol_table(image: &[u8]) -> (r: Option<Vec<RawSymbol>>)
    ensures
        symbol_table_of(image@) == match r {
            Some(v) => Some(v@),
            None => None::<Seq<RawSymbol>>,
        },
{
    let file = object::File::parse(image).ok()?;
    let mut table = Vec::new();
    for sym in file.symbols() {
        let class = match sym.kind() {
            object::SymbolKind::Text => SymbolClass::Text,
            object::SymbolKind::Data => SymbolClass::Data,
            _ => SymbolClass::Other,
        };
        table.push(RawSymbol { class, name: sym.name().ok().map(String::from), address: sym.address() });
    }
    Some(table)
}

/// The function entries of a symbol table: text symbols with a readable name,
/// in table order.
pub open spec fn function_entries(table: Seq<RawSymbol>) -> Seq<FunctionInfo>
    decreases table.len(),
{
    if table.len() == 0 {
        Seq::empty()
    } else {
        let rest = function_entries(table.drop_last());
        let s = table.last();
        if s.class == SymbolClass::Text && s.name is Some {
            rest.push(FunctionInfo { name: s.name.unwrap(), offset: s.address })
        } else {
            rest
        }
    }
}

/// The variable entries of a symbol table: data symbols with a readable name,
/// in table order.
pub open spec fn variable_entries(table: Seq<RawSymbol>) -> Seq<VariableInfo>
    decreases table.len(),
{
    if table.len() == 0 {
        Seq::empty()
    } else {
        let rest = variable_entries(table.drop_last());
        let s = table.last();
        if s.class == SymbolClass::Data && s.name is Some {
            rest.push(VariableInfo { name: s.name.unwrap(), offset: s.address })
        } else {
            rest
        }
    }
}

/// Where `name` first appears among the functions, the offset recorded there.
pub open spec fn first_offset(fns: Seq<FunctionInfo>, name: Seq<char>) -> Option<u64>
    decreases fns.len(),
{
    if fns.len() == 0 {
        None
    } else if fns[0].name@ == name {
        Some(fns[0].offset)
    } else {
        first_offset(fns.drop_first(), name)
    }
}

/// Looking a name up yields the offset of its first occurrence, and nothing
/// where no function carries that name.
pub proof fn lemma_breakpoint_lookup(fns: Seq<FunctionInfo>, name: Seq<char>)
    ensures
        (forall|i: int| 0 <= i < fns.len() ==> #[trigger] fns[i].name@ != name) ==> first_offset(fns, name) is None,
        forall|i: int|
            0 <= i < fns.len() && #[trigger] fns[i].name@ == name && (forall|j: int| 0 <= j < i ==> fns[j].name@ != name)
                ==> first_offset(fns, name) == Some(fns[i].offset),
    decreases fns.len(),
{
    if fns.len() > 0 {
        let rest = fns.drop_first();
        lemma_breakpoint_lookup(rest, name);
        assert forall|i: int| 0 <= i < rest.len() implies #[trigger] rest[i] == fns[i + 1] by {}
        assert forall|i: int|
            0 <= i < fns.len() && #[trigger] fns[i].name@ == name && (forall|j: int| 0 <= j < i ==> fns[j].name@ != name)
            implies first_offset(fns, name) == Some(fns[i].offset) by {
            if i > 0 {
                assert(fns[0].name@ != name);
                assert(rest[i - 1].name@ == name);
                assert forall|j: int| 0 <= j < i - 1 implies rest[j].name@ != name by {
                    assert(fns[j + 1].name@ != name);
                }
            }
        }
        if forall|i: int| 0 <= i < fns.len() ==> #[trigger] fns[i].name@ != name {
            assert(fns[0].name@ != name);
            assert forall|i: int| 0 <= i < rest.len() implies #[trigger] rest[i].name@ != name by {
                assert(fns[i + 1].name@ != name);
            }
        }
    }
}

/// The function entries of a symbol table.
pub fn functions_from_table(table: &Vec<RawSymbol>) -> (r: Vec<FunctionInfo>)
    ensures
        r@ == function_entries(table@),
{
    let mut out: Vec<FunctionInfo> = Vec::new();
    let mut i: usize = 0;
    while i < table.len()
        invariant
            i <= table.len(),
            out@ == function_entries(table@.subrange(0, i as int)),
        decreases table.len() - i,
    {
        proof {
            assert(table@.subrange(0, i + 1).drop_last() =~= table@.subrange(0, i as int));
        }
        let s = &table[i];
        if s.class == SymbolClass::Text {
            match &s.name {
                Some(n) => {
                    out.push(FunctionInfo { name: n.clone(), offset: s.address });
                },
                None => {},
            }
        }
        i = i + 1;
    }
    proof {
        assert(table@.subrange(0, table.len() as int) =~= table@);
    }
    out
}

/// The variable entries of a symbol table.
pub fn variables_from_table(table: &Vec<RawSymbol>) -> (r: Vec<VariableInfo>)
    ensures
        r@ == variable_entries(table@),
{
    let mut out: Vec<VariableInfo> = Vec::new();
    let mut i: usize = 0;
    while i < table.len()
        invariant
            i <= table.len(),
            out@ == variable_entries(table@.subrange(0, i as int)),
        decreases table.len() - i,
    {
        proof {
            assert(table@.subrange(0, i + 1).drop_last() =~= table@.subrange(0, i as int));
        }
        let s = &table[i];
        if s.class == SymbolClass::Data {
            match &s.name {
                Some(n) => {
                    out.push(VariableInfo { name: n.clone(), offset: s.address });
                },
                None => {},
            }
        }
        i = i + 1;
    }
    proof {
        assert(table@.subrange(0, table.len() as int) =~= table@);
    }
    out
}


/// The function and variable entries of an image, or `None` where the image
/// is not a supported object file.
pub open spec fn extracted(image: Seq<u8>) -> Option<(Seq<FunctionInfo>, Seq<VariableInfo>)> {
    match symbol_table_of(image) {
        Some(t) => Some((function_entries(t), variable_entries(t))),
        None => None,
    }
}

/// The function and variable symbols of an object-file image, each list in
/// symbol-table order; `None` where the image cannot be parsed.
pub fn extract_symbols(image: &[u8]) -> (r: Option<(Vec<FunctionInfo>, Vec<VariableInfo>)>)
    ensures
        extracted(image@) == match r {
            Some(p) => Some((p.0@, p.1@)),
            None => None::<(Seq<FunctionInfo>, Seq<VariableInfo>)>,
        },
{
    match read_symbol_table(image) {
        Some(table) => Some((functions_from_table(&table), variables_from_table(&table))),
        None => None,
    }
}

/// Extraction is a function of the image: two images with the same bytes give
/// the same lists.
pub proof fn lemma_extraction_deterministic(a: Seq<u8>, b: Seq<u8>)
    requires
        a == b,
    ensures
        extracted(a) == extracted(b),
{
}

/// Extraction keeps table order: the entries of two consecutive parts of a
/// table are those of the first part followed by those of the second.
pub proof fn lemma_extraction_keeps_order(t1: Seq<RawSymbol>, t2: Seq<RawSymbol>)
    ensures
        function_entries(t1 + t2) == function_entries(t1) + function_entries(t2),
        variable_entries(t1 + t2) == variable_entries(t1) + variable_entries(t2),
    decreases t2.len(),
{
    if t2.len() == 0 {
        assert(t1 + t2 =~= t1);
        assert(function_entries(t2) =~= Seq::<FunctionInfo>::empty());
        assert(function_entries(t1) + function_entries(t2) =~= function_entries(t1));
        assert(variable_entries(t1) + variable_entries(t2) =~= variable_entries(t1));
    } else {
        lemma_extraction_keeps_order(t1, t2.drop_last());
        assert((t1 + t2).drop_last() =~= t1 + t2.drop_last());
        assert((t1 + t2).last() == t2.last());
        let f1 = function_entries(t1);
        let f2 = function_entries(t2.drop_last());
        let v1 = variable_entries(t1);
        let v2 = variable_entries(t2.drop_last());
        let s = t2.last();
        assert((f1 + f2).push(FunctionInfo { name: s.name.unwrap(), offset: s.address })
            =~= f1 + f2.push(FunctionInfo { name: s.name.unwrap(), offset: s.address }));
        assert((v1 + v2).push(VariableInfo { name: s.name.unwrap(), offset: s.address })
            =~= v1 + v2.push(VariableInfo { name: s.name.unwrap(), offset: s.address }));
    }
}

impl VariableInfo {
    /// Whether this symbol lies in `map`'s file range once translated by the
    /// distance of `map` above `base_addr`: an offset above that distance is
    /// reduced by it, any other offset is taken as it is.
    pub fn is_included(&self, map: &MemMap, base_addr: u64) -> (r: bool)
        requires
            base_addr <= map.start,
        ensures
            r == included_in(self.offset, *map, base_addr),
    {
        let base_diff = map.start - base_addr;
        let var_offset = if self.offset > base_diff {
            self.offset - base_diff
        } else {
            self.offset
        };
        map.offset <= var_offset && var_offset - map.offset < map.size
    }
}

/// The resolved view of one loaded executable in one tracee.
#[derive(Clone, Debug)]
pub struct TdbDebugInfo {
    pub fn_info_vec: Vec<FunctionInfo>,
    pub var_info_vec: Vec<VariableInfo>,
    pub mmap_info_vec: Vec<MemMap>,
    pub base_addr: u64,
}

impl TdbDebugInfo {
    /// The base address is the lowest start among the mappings.
    pub open spec fn wf(&self) -> bool {
        self.base_addr == min_start(self.mmap_info_vec@)
    }

    /// A snapshot from the symbols of `image` and the image's live mappings
    /// `mmap_info_vec`; `None` where the image cannot be parsed.
    pub fn init(image: &[u8], mmap_info_vec: Vec<MemMap>) -> (r: Option<Self>)
        ensures
            r is Some <==> extracted(image@) is Some,
            r matches Some(d) ==> {
                &&& d.wf()
                &&& extracted(image@) == Some((d.fn_info_vec@, d.var_info_vec@))
                &&& d.mmap_info_vec@ == mmap_info_vec@
                &&& d.base_addr == min_start(mmap_info_vec@)
            },
    {
        match extract_symbols(image) {
            Some((fn_info_vec, var_info_vec)) => {
                let base_addr = base_address(&mmap_info_vec);
                Some(TdbDebugInfo { fn_info_vec, var_info_vec, mmap_info_vec, base_addr })
            },
            None => None,
        }
    }

    /// The offset recorded for the first function named `bp_symbol_name`.
    pub fn get_breakpoint_offset(&self, bp_symbol_name: &str) -> (r: Option<u64>)
        ensures
            r == first_offset(self.fn_info_vec@, bp_symbol_name@),
    {
        let target = bp_symbol_name.to_owned();
        let fns = &self.fn_info_vec;
        let mut i: usize = 0;
        assert(fns@.subrange(0, fns.len() as int) =~= fns@);
        while i < fns.len()
            invariant
                i <= fns.len(),
                fns@ == self.fn_info_vec@,
                target@ == bp_symbol_name@,
                first_offset(fns@, target@) == first_offset(fns@.subrange(i as int, fns.len() as int), target@),
            decreases fns.len() - i,
        {
            proof {
                let rest = fns@.subrange(i as int, fns.len() as int);
                assert(rest.drop_first() =~= fns@.subrange(i + 1, fns.len() as int));
                assert(rest[0] == fns@[i as int]);
            }
            let found: bool = fns[i].name.eq(&target);
            if found {
                return Some(fns[i].offset);
            }
            i = i + 1;
        }
        None
    }

    /// The mappings with permissions (read, write, exec) = (true, false, true),
    /// in order.
    pub fn exec_maps(&self) -> (r: Result<Vec<MemMap>, MapNotFound>)
        ensures
            is_selection(r, self.mmap_info_vec@, MapClass::Exec),
    {
        select_maps(&self.mmap_info_vec, MapClass::Exec)
    }

    /// The mappings with permissions (read, write, exec) = (true, true, false),
    /// in order.
    pub fn data_maps(&self) -> (r: Result<Vec<MemMap>, MapNotFound>)
        ensures
            is_selection(r, self.mmap_info_vec@, MapClass::Data),
    {
        select_maps(&self.mmap_info_vec, MapClass::Data)
    }

    /// The mappings with permissions (read, write, exec) = (true, false, false),
    /// in order.
    pub fn rodata_maps(&self) -> (r: Result<Vec<MemMap>, MapNotFound>)
        ensures
            is_selection(r, self.mmap_info_vec@, MapClass::Rodata),
    {
        select_maps(&self.mmap_info_vec, MapClass::Rodata)
    }
}

} // verus!
