use vstd::prelude::*;
use crate::field::Fe;

verus! {

/// One flattened item of a value: its sub index, whether it is a header, and
/// its two limbs, as field elements.
#[derive(Clone, Copy, Debug)]
pub struct ValueItem {
    pub sub_index: Fe,
    pub header: Fe,
    pub limbs: [Fe; 2],
}

impl ValueItem {
    /// `[sub_index, header, limb 0, limb 1]`.
    pub open spec fn spec_fields(self) -> Seq<Fe> {
        seq![self.sub_index, self.header, self.limbs[0], self.limbs[1]]
    }

    pub fn to_fields(&self) -> (r: Vec<Fe>)
        ensures
            r@ == self.spec_fields(),
    {
        let r = vec![self.sub_index, self.header, self.limbs[0], self.limbs[1]];
        proof {
            assert(r@ =~= self.spec_fields());
        }
        r
    }
}

/// The items of the arguments named by `public_inputs`, in order; an index
/// past the arguments names nothing.
pub open spec fn public_items(args: Seq<Vec<ValueItem>>, public_inputs: Seq<usize>) -> Seq<ValueItem>
    decreases public_inputs.len(),
{
    if public_inputs.len() == 0 {
        Seq::empty()
    } else {
        let index = public_inputs.last();
        public_items(args, public_inputs.drop_last())
            + if index < args.len() { args[index as int]@ } else { Seq::empty() }
    }
}

/// The number of items of the arguments named by `public_inputs`: the sum
/// of their lengths, an index past the arguments counting none.
pub open spec fn named_count(args: Seq<Vec<ValueItem>>, public_inputs: Seq<usize>) -> nat
    decreases public_inputs.len(),
{
    if public_inputs.len() == 0 {
        0
    } else {
        let index = public_inputs.last();
        named_count(args, public_inputs.drop_last()) + if index < args.len() { args[index as int]@.len() } else { 0 }
    }
}

/// The public items are all the items of the named arguments, each argument
/// whole and in the order named: there are `named_count` of them, and the
/// items of the `k`-th named argument stand, contiguous and in order, right
/// after those of the arguments named before it.
pub proof fn lemma_public_items_layout(args: Seq<Vec<ValueItem>>, public_inputs: Seq<usize>)
    ensures
        public_items(args, public_inputs).len() == named_count(args, public_inputs),
        forall|k: int| 0 <= k < public_inputs.len() && #[trigger] public_inputs[k] < args.len() ==> {
            let start = named_count(args, public_inputs.take(k)) as int;
            &&& start + args[public_inputs[k] as int]@.len() <= public_items(args, public_inputs).len()
            &&& public_items(args, public_inputs).subrange(start, start + args[public_inputs[k] as int]@.len())
                == args[public_inputs[k] as int]@
        },
    decreases public_inputs.len(),
{
    if public_inputs.len() > 0 {
        let t = public_inputs.drop_last();
        let n = public_inputs.len() - 1;
        lemma_public_items_layout(args, t);
        let head = public_items(args, t);
        let all = public_items(args, public_inputs);
        assert forall|k: int| 0 <= k < public_inputs.len() && #[trigger] public_inputs[k] < args.len() implies {
            let start = named_count(args, public_inputs.take(k)) as int;
            &&& start + args[public_inputs[k] as int]@.len() <= all.len()
            &&& all.subrange(start, start + args[public_inputs[k] as int]@.len()) == args[public_inputs[k] as int]@
        } by {
            let a = args[public_inputs[k] as int]@;
            let start = named_count(args, public_inputs.take(k)) as int;
            if k < n {
                assert(public_inputs.take(k) =~= t.take(k));
                assert(t[k] == public_inputs[k]);
                assert(head.subrange(start, start + a.len()) == a);
                assert(all.subrange(start, start + a.len()) =~= head.subrange(start, start + a.len()));
            } else {
                assert(public_inputs.take(k) =~= t);
                assert(all.subrange(start, start + a.len()) =~= a);
            }
        }
    }
}

/// Column `i` of the public inputs: field `i` of every item.
pub open spec fn public_column(items: Seq<ValueItem>, i: int) -> Seq<Fe> {
    items.map_values(|it: ValueItem| it.spec_fields()[i])
}

/// The public inputs as the columns of the instance table.
pub fn public_inputs_to_fields(args: &Vec<Vec<ValueItem>>, public_inputs: &Vec<usize>) -> (r: Vec<Vec<Fe>>)
    ensures
        r@.len() == 4,
        public_items(args@, public_inputs@).len() > 0 ==> forall|i: int| 0 <= i < 4 ==>
            #[trigger] r@[i]@ == public_column(public_items(args@, public_inputs@), i),
        public_items(args@, public_inputs@).len() == 0 ==> forall|i: int| 0 <= i < 4 ==>
            (#[trigger] r@[i]@).len() == 1 && r@[i]@[0].val() == 0,
        named_count(args@, public_inputs@) > 0 ==> forall|i: int| 0 <= i < 4 ==>
            (#[trigger] r@[i]@).len() == named_count(args@, public_inputs@),
{
    proof {
        lemma_public_items_layout(args@, public_inputs@);
    }
    let mut rows: Vec<ValueItem> = Vec::new();
    let mut k: usize = 0;
    while k < public_inputs.len()
        invariant
            k <= public_inputs@.len(),
            rows@ == public_items(args@, public_inputs@.take(k as int)),
        decreases public_inputs.len() - k,
    {
        let index = public_inputs[k];
        proof {
            assert(public_inputs@.take(k as int + 1).drop_last() =~= public_inputs@.take(k as int));
        }
        if index < args.len() {
            let items = &args[index];
            let ghost start = rows@;
            let mut j: usize = 0;
            while j < items.len()
                invariant
                    j <= items@.len(),
                    rows@ == start + items@.take(j as int),
                decreases items.len() - j,
            {
                rows.push(items[j]);
                proof {
                    assert(items@.take(j as int + 1) =~= items@.take(j as int).push(items@[j as int]));
                }
                j = j + 1;
            }
            proof {
                assert(items@.take(items@.len() as int) =~= items@);
            }
        }
        proof {
            assert(rows@ =~= public_items(args@, public_inputs@.take(k as int + 1)));
        }
        k = k + 1;
    }
    proof {
        assert(public_inputs@.take(public_inputs@.len() as int) =~= public_inputs@);
    }
    let ghost items = rows@;
    let mut columns: Vec<Vec<Fe>> = Vec::new();
    let mut i: usize = 0;
    while i < 4
        invariant
            i <= 4,
            rows@ == items,
            columns@.len() == i,
            items.len() > 0 ==> forall|c: int| 0 <= c < i ==> #[trigger] columns@[c]@ == public_column(items, c),
            items.len() == 0 ==> forall|c: int| 0 <= c < i ==> (#[trigger] columns@[c]@).len() == 1
                && columns@[c]@[0].val() == 0,
        decreases 4 - i,
    {
        let mut col: Vec<Fe> = Vec::new();
        if rows.len() == 0 {
            col.push(Fe::zero());
        } else {
            let mut j: usize = 0;
            while j < rows.len()
                invariant
                    i < 4,
                    j <= rows@.len(),
                    rows@ == items,
                    col@ == public_column(items.take(j as int), i as int),
                decreases rows.len() - j,
            {
                let f = rows[j].to_fields();
                col.push(f[i]);
                proof {
                    assert(public_column(items.take(j as int + 1), i as int)
                        =~= public_column(items.take(j as int), i as int).push(items[j as int].spec_fields()[i as int]));
                }
                j = j + 1;
            }
            proof {
                assert(items.take(items.len() as int) =~= items);
            }
        }
        columns.push(col);
        i = i + 1;
    }
    columns
}

} // verus!
