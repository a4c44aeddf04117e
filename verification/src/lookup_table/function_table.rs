use vstd::prelude::*;
use crate::field::Fe;

verus! {

/// What the function table needs to know of a function: the module that
/// defines it, its index there and its number of arguments.
#[derive(Clone, Copy, PartialEq, Eq, Debug, Structural)]
pub struct FunctionInfo {
    pub def_module_index: usize,
    pub function_index: usize,
    pub num_arg: usize,
}

/// A row of the function table.
#[derive(Clone, Copy, PartialEq, Eq, Hash, Debug, Structural)]
pub struct FunctionTableRow {
    pub module_index: usize,
    pub function_index: usize,
    pub num_arg: usize,
    pub entry: bool,
}

/// The row of a function that is not the entry.
pub open spec fn info_row(f: FunctionInfo) -> FunctionTableRow {
    FunctionTableRow { module_index: f.def_module_index, function_index: f.function_index, num_arg: f.num_arg, entry: false }
}

/// The first occurrence of each element, in the order of first occurrence.
pub open spec fn unique_seq(s: Seq<FunctionTableRow>) -> Seq<FunctionTableRow>
    decreases s.len(),
{
    if s.len() == 0 {
        s
    } else {
        let p = unique_seq(s.drop_last());
        if p.contains(s.last()) { p } else { p.push(s.last()) }
    }
}

/// The number of arguments of the first function defined as `function_index`
/// in module `module_index`, if any.
pub open spec fn find_num_arg(infos: Seq<FunctionInfo>, module_index: usize, function_index: usize) -> Option<usize>
    decreases infos.len(),
{
    if infos.len() == 0 {
        None
    } else {
        match find_num_arg(infos.drop_last(), module_index, function_index) {
            Some(n) => Some(n),
            None => if infos.last().def_module_index == module_index && infos.last().function_index == function_index {
                Some(infos.last().num_arg)
            } else {
                None
            },
        }
    }
}

/// The rows of the function table: one per distinct function, in order, then
/// the entry function once more with `entry` set.
pub open spec fn function_rows(infos: Seq<FunctionInfo>, module_index: usize, function_index: usize) -> Seq<FunctionTableRow> {
    unique_seq(infos.map_values(|f: FunctionInfo| info_row(f))).push(FunctionTableRow {
        module_index,
        function_index,
        num_arg: find_num_arg(infos, module_index, function_index)->Some_0,
        entry: true,
    })
}

impl FunctionTableRow {
    pub fn from_info(func: &FunctionInfo) -> (r: FunctionTableRow)
        ensures
            r == info_row(*func),
    {
        FunctionTableRow {
            module_index: func.def_module_index,
            function_index: func.function_index,
            num_arg: func.num_arg,
            entry: false,
        }
    }

    /// The row as field elements, in the order of the table's columns:
    /// module, function, number of arguments, entry.
    pub fn to_fields(&self) -> (r: Vec<Fe>)
        ensures
            r@.len() == 4,
            r@[0].val() == self.module_index,
            r@[1].val() == self.function_index,
            r@[2].val() == self.num_arg,
            r@[3].val() == (if self.entry { 1nat } else { 0nat }),
    {
        vec![
            Fe::from_u64(self.module_index as u64),
            Fe::from_u64(self.function_index as u64),
            Fe::from_u64(self.num_arg as u64),
            Fe::from_bool(self.entry),
        ]
    }
}

fn contains_row(rows: &Vec<FunctionTableRow>, row: &FunctionTableRow) -> (r: bool)
    ensures
        r == rows@.contains(*row),
{
    let mut i: usize = 0;
    while i < rows.len()
        invariant
            i <= rows@.len(),
            forall|k: int| 0 <= k < i ==> rows@[k] != *row,
        decreases rows.len() - i,
    {
        if rows[i] == *row {
            assert(rows@[i as int] == *row);
            return true;
        }
        i = i + 1;
    }
    false
}

/// The rows of the function table for the functions `infos` and the entry
/// function `function_index` of module `module_index` (`load`).
pub fn function_table_rows(infos: &Vec<FunctionInfo>, module_index: usize, function_index: usize)
    -> (r: Vec<FunctionTableRow>)
    requires
        find_num_arg(infos@, module_index, function_index) is Some,
    ensures
        r@ == function_rows(infos@, module_index, function_index),
{
    let ghost all = infos@.map_values(|f: FunctionInfo| info_row(f));
    let mut rows: Vec<FunctionTableRow> = Vec::new();
    let mut num_arg: Option<usize> = None;
    let mut i: usize = 0;
    while i < infos.len()
        invariant
            i <= infos@.len(),
            all == infos@.map_values(|f: FunctionInfo| info_row(f)),
            rows@ == unique_seq(all.take(i as int)),
            num_arg == find_num_arg(infos@.take(i as int), module_index, function_index),
        decreases infos.len() - i,
    {
        let row = FunctionTableRow::from_info(&infos[i]);
        proof {
            assert(all.take(i as int + 1).drop_last() =~= all.take(i as int));
            assert(infos@.take(i as int + 1).drop_last() =~= infos@.take(i as int));
        }
        if !contains_row(&rows, &row) {
            rows.push(row);
        }
        if num_arg.is_none() && infos[i].def_module_index == module_index && infos[i].function_index == function_index {
            num_arg = Some(infos[i].num_arg);
        }
        i = i + 1;
    }
    proof {
        assert(all.take(infos@.len() as int) =~= all);
        assert(infos@.take(infos@.len() as int) =~= infos@);
    }
    let n = match num_arg {
        Some(n) => n,
        None => 0,
    };
    rows.push(FunctionTableRow { module_index, function_index, num_arg: n, entry: true });
    rows
}

/// Deduplication keeps every row and keeps each once: every row of `s`
/// occurs in `unique_seq(s)`, every row of `unique_seq(s)` comes from `s`,
/// and no two of its rows are equal.
pub proof fn lemma_unique_seq(s: Seq<FunctionTableRow>)
    ensures
        forall|i: int| 0 <= i < s.len() ==> unique_seq(s).contains(#[trigger] s[i]),
        forall|j: int| 0 <= j < unique_seq(s).len() ==> s.contains(#[trigger] unique_seq(s)[j]),
        forall|j: int, k: int| 0 <= j < k < unique_seq(s).len() ==> unique_seq(s)[j] != unique_seq(s)[k],
    decreases s.len(),
{
    if s.len() > 0 {
        let t = s.drop_last();
        let p = unique_seq(t);
        lemma_unique_seq(t);
        assert forall|i: int| 0 <= i < s.len() implies unique_seq(s).contains(#[trigger] s[i]) by {
            if i < s.len() - 1 {
                assert(t[i] == s[i]);
                let j = choose|j: int| 0 <= j < p.len() && p[j] == t[i];
                if !p.contains(s.last()) {
                    assert(unique_seq(s)[j] == s[i]);
                }
            } else if !p.contains(s.last()) {
                assert(unique_seq(s)[p.len() as int] == s.last());
            }
        }
        assert forall|j: int| 0 <= j < unique_seq(s).len() implies s.contains(#[trigger] unique_seq(s)[j]) by {
            if j < p.len() {
                assert(t.contains(p[j]));
                let k = choose|k: int| 0 <= k < t.len() && t[k] == p[j];
                assert(s[k] == t[k]);
            } else {
                assert(s[s.len() - 1] == s.last());
            }
        }
    }
}

/// Every function's row stands in the function table, and its rows other than
/// the last (the entry row) are distinct.
pub proof fn lemma_function_rows(infos: Seq<FunctionInfo>, module_index: usize, function_index: usize)
    ensures
        ({
            let rows = function_rows(infos, module_index, function_index);
            &&& forall|i: int| 0 <= i < infos.len() ==> rows.drop_last().contains(#[trigger] info_row(infos[i]))
            &&& forall|j: int, k: int| 0 <= j < k < rows.len() - 1 ==> rows[j] != rows[k]
            &&& rows.last().entry
        }),
{
    let all = infos.map_values(|f: FunctionInfo| info_row(f));
    lemma_unique_seq(all);
    let rows = function_rows(infos, module_index, function_index);
    assert(rows.drop_last() =~= unique_seq(all));
    assert forall|i: int| 0 <= i < infos.len() implies rows.drop_last().contains(#[trigger] info_row(infos[i])) by {
        assert(all[i] == info_row(infos[i]));
    }
}

} // verus!
