//! The heap: a flat vector of values addressed by integer handles.
//!
//! Slot `0` is the null sentinel. An object at handle `h` occupies its header
//! `ClassIndex(class, n)` and `n` field slots; an array occupies its header
//! `ArrayOf(..)`, an `Int(length)` slot and its elements.
use vstd::prelude::*;
use crate::value::{copy_values, ClassIdx, FieldIdx, HeapPtr, Type, Value};

verus! {

/// `n` null references.
pub open spec fn null_slots(n: int) -> Seq<Value> {
    Seq::new(if n < 0 { 0nat } else { n as nat }, |i: int| Value::Reference(0))
}

/// The slots that freeing may leave behind: each one unchanged or cleared.
pub open spec fn only_cleared(before: Seq<Value>, after: Seq<Value>) -> bool {
    forall|i: int| 0 <= i < after.len() ==> (#[trigger] after[i] == before[i] || after[i] is Void)
}

/// The flat value store.
pub struct HeapMemory {
    pub values: Vec<Value>,
}

impl View for HeapMemory {
    type V = Seq<Value>;

    open spec fn view(&self) -> Seq<Value> {
        self.values@
    }
}

/// The number of elements of the array whose header is at `p` (its length
/// slot, when it holds a positive `Int`).
pub open spec fn array_len(heap: Seq<Value>, p: int) -> int {
    if p + 1 < heap.len() && heap[p + 1] is Int && heap[p + 1]->Int_0 > 0 {
        heap[p + 1]->Int_0 as int
    } else {
        0
    }
}

/// Whether slot `q` hangs off slot `p`: the target of a reference, a field slot
/// of an object header, or the length or an element slot of an array header.
pub open spec fn child_of(heap: Seq<Value>, p: int, q: int) -> bool {
    0 < p < heap.len() && match heap[p] {
        Value::Reference(r) => q == r,
        Value::ClassIndex(_, n) => p < q <= p + n,
        Value::ArrayOf(_, _) => p < q <= p + 1 + array_len(heap, p),
        _ => false,
    }
}

/// Whether `ord` lists slots reachable from `ptr` in `heap`, each after a slot it
/// hangs off.
#[verifier::opaque]
pub open spec fn reach_order(heap: Seq<Value>, ptr: int, ord: Seq<int>) -> bool {
    forall|k: int| 0 <= k < ord.len() ==> (#[trigger] ord[k] == ptr || exists|j: int| 0 <= j < k && child_of(heap, ord[j], ord[k]))
}

/// Whether every slot that differs between `before` and `after` is listed in `ord`.
#[verifier::opaque]
pub open spec fn changes_within(before: Seq<Value>, after: Seq<Value>, ord: Seq<int>) -> bool {
    forall|i: int| 0 <= i < after.len() && after[i] != before[i] ==> ord.contains(i)
}

/// Whether slot `i` is reachable from `ptr` in `heap`.
pub open spec fn reachable(heap: Seq<Value>, ptr: int, i: int) -> bool {
    exists|ord: Seq<int>| reach_order(heap, ptr, ord) && ord.contains(i)
}

/// What a cleared (and possibly shortened) heap reaches, the original reached.
pub proof fn lemma_reach_in_cleared(h1: Seq<Value>, h2: Seq<Value>, ptr: int, i: int)
    requires
        h2.len() <= h1.len(),
        only_cleared(h1, h2),
        reachable(h2, ptr, i),
    ensures
        reachable(h1, ptr, i),
{
    let ord = choose|ord: Seq<int>| reach_order(h2, ptr, ord) && ord.contains(i);
    reveal(reach_order);
    assert forall|k: int| 0 <= k < ord.len() implies (#[trigger] ord[k] == ptr || exists|j: int|
        0 <= j < k && child_of(h1, ord[j], ord[k])) by {
        if ord[k] != ptr {
            let j = choose|j: int| 0 <= j < k && child_of(h2, ord[j], ord[k]);
            let p = ord[j];
            assert(h2[p] == h1[p]);
            if p + 1 < h2.len() && h2[p + 1] is Int {
                assert(h2[p + 1] == h1[p + 1]);
            }
            assert(child_of(h1, ord[j], ord[k]));
        }
    }
    assert(reach_order(h1, ptr, ord));
}

/// Whether slot `w` may be visited: it is `ptr` or hangs off a visited slot.
#[verifier::opaque]
pub open spec fn candidate(heap: Seq<Value>, ptr: int, ord: Seq<int>, w: int) -> bool {
    w == ptr || exists|j: int| 0 <= j < ord.len() && child_of(heap, ord[j], w)
}

proof fn lemma_child_candidate(start: Seq<Value>, ptr: int, ord: Seq<int>, last: int, q: int)
    requires
        0 <= last < ord.len(),
        child_of(start, ord[last], q),
    ensures
        candidate(start, ptr, ord, q),
{
    reveal(candidate);
}

proof fn lemma_visit(start: Seq<Value>, ptr: int, ord: Seq<int>, work: Seq<usize>, p: int)
    requires
        reach_order(start, ptr, ord),
        candidate(start, ptr, ord, p),
        forall|k: int| 0 <= k < work.len() ==> candidate(start, ptr, ord, #[trigger] work[k] as int),
    ensures
        reach_order(start, ptr, ord.push(p)),
        forall|k: int| 0 <= k < work.len() ==> candidate(start, ptr, ord.push(p), #[trigger] work[k] as int),
{
    reveal(reach_order);
    reveal(candidate);
    let o2 = ord.push(p);
    assert forall|k: int| 0 <= k < o2.len() implies (#[trigger] o2[k] == ptr || exists|j: int|
        0 <= j < k && child_of(start, o2[j], o2[k])) by {
        if k < o2.len() - 1 {
            assert(o2[k] == ord[k]);
            if ord[k] != ptr {
                let j = choose|j: int| 0 <= j < k && child_of(start, ord[j], ord[k]);
                assert(o2[j] == ord[j]);
            }
        } else if p != ptr {
            let j = choose|j: int| 0 <= j < ord.len() && child_of(start, ord[j], p);
            assert(o2[j] == ord[j]);
        }
    }
    assert forall|k: int| 0 <= k < work.len() implies candidate(start, ptr, o2, #[trigger] work[k] as int) by {
        let w = work[k] as int;
        if w != ptr {
            let j = choose|j: int| 0 <= j < ord.len() && child_of(start, ord[j], w);
            assert(o2[j] == ord[j]);
        }
    }
}

/// Number of unmarked slots.
pub open spec fn unmarked_count(m: Seq<bool>) -> nat
    decreases m.len(),
{
    if m.len() == 0 {
        0
    } else {
        unmarked_count(m.drop_last()) + if m.last() {
            0nat
        } else {
            1nat
        }
    }
}

proof fn lemma_unmarked_mark(m: Seq<bool>, i: int)
    requires
        0 <= i < m.len(),
        !m[i],
    ensures
        unmarked_count(m.update(i, true)) + 1 == unmarked_count(m),
    decreases m.len(),
{
    let t = m.update(i, true);
    if i == m.len() - 1 {
        assert(t.drop_last() =~= m.drop_last());
    } else {
        assert(t.drop_last() =~= m.drop_last().update(i, true));
        lemma_unmarked_mark(m.drop_last(), i);
    }
}

/// Whether slot `c` needs no visit from a marked slot: it is marked, waiting in
/// `work`, outside the heap, the null slot, or empty.
pub open spec fn settled(heap: Seq<Value>, marked: Seq<bool>, work: Seq<usize>, c: int) -> bool {
    c <= 0 || c >= heap.len() || heap[c] is Void || marked[c] || work.contains(c as usize)
}

/// Whether the children of every marked slot are settled.
pub open spec fn marks_closed(heap: Seq<Value>, marked: Seq<bool>, work: Seq<usize>) -> bool {
    forall|q: int, c: int| 0 <= q < heap.len() && marked[q] && #[trigger] child_of(heap, q, c) ==> settled(heap, marked, work, c)
}

proof fn lemma_marked_complete(heap: Seq<Value>, marked: Seq<bool>, ptr: int, ord: Seq<int>, k: int)
    requires
        marked.len() == heap.len(),
        marks_closed(heap, marked, Seq::empty()),
        settled(heap, marked, Seq::empty(), ptr),
        reach_order(heap, ptr, ord),
        0 <= k < ord.len(),
    ensures
        settled(heap, marked, Seq::empty(), ord[k]),
    decreases k,
{
    reveal(reach_order);
    if ord[k] != ptr {
        let j = choose|j: int| 0 <= j < k && child_of(heap, ord[j], ord[k]);
        lemma_marked_complete(heap, marked, ptr, ord, j);
        assert(child_of(heap, ord[j], ord[k]));
    }
}

/// Marks the slots reachable from `ptr`: returns the marks and the order in which
/// slots were marked.
fn mark_reachable(values: &Vec<Value>, ptr: HeapPtr) -> (r: (Vec<bool>, Ghost<Seq<int>>))
    ensures
        r.0@.len() == values@.len(),
        reach_order(values@, ptr as int, r.1@),
        forall|i: int| 0 <= i < values@.len() && #[trigger] r.0@[i] ==> r.1@.contains(i) && !(values@[i] is Void),
        forall|i: int| 0 < i < values@.len() && !(values@[i] is Void) && reachable(values@, ptr as int, i) ==> #[trigger] r.0@[i],
{
    let n = values.len();
    let mut marked: Vec<bool> = Vec::new();
    let mut z: usize = 0;
    while z < n
        invariant
            n == values@.len(),
            z <= n,
            marked@ == Seq::new(z as nat, |x: int| false),
        decreases n - z,
    {
        marked.push(false);
        z = z + 1;
        assert(marked@ =~= Seq::new(z as nat, |x: int| false));
    }
    let ghost mut ord: Seq<int> = Seq::empty();
    let mut work: Vec<usize> = Vec::new();
    work.push(ptr);
    proof {
        reveal(reach_order);
        reveal(candidate);
        assert(candidate(values@, ptr as int, ord, work@[0] as int));
        assert(work@[0] == ptr);
        assert(settled(values@, marked@, work@, ptr as int));
    }
    while work.len() > 0
        invariant
            n == values@.len(),
            marked@.len() == n,
            reach_order(values@, ptr as int, ord),
            forall|i: int| 0 <= i < n && #[trigger] marked@[i] ==> ord.contains(i) && !(values@[i] is Void),
            forall|k: int| 0 <= k < work@.len() ==> candidate(values@, ptr as int, ord, #[trigger] work@[k] as int),
            marks_closed(values@, marked@, work@),
            settled(values@, marked@, work@, ptr as int),
        decreases unmarked_count(marked@), work.len(),
    {
        let ghost w0 = work@;
        let ghost m0 = marked@;
        let p = work.pop().unwrap();
        assert(candidate(values@, ptr as int, ord, w0[w0.len() - 1] as int));
        assert forall|k: int| 0 <= k < work@.len() implies candidate(values@, ptr as int, ord, #[trigger] work@[k] as int) by {
            assert(work@[k] == w0[k]);
        }
        let ghost wp0 = work@;
        assert forall|c: int| settled(values@, m0, w0, c) && c != p as int implies #[trigger] settled(values@, m0, wp0, c) by {
            if w0.contains(c as usize) && !(c <= 0 || c >= n || values@[c] is Void || m0[c]) {
                let x = choose|x: int| 0 <= x < w0.len() && w0[x] == c as usize;
                assert(x != w0.len() - 1);
                assert(work@[x] == c as usize);
            }
        }
        if p == 0 || p >= values.len() || marked[p] || values[p].is_void() {
            proof {
                assert(marks_closed(values@, marked@, work@)) by {
                    assert forall|q: int, c: int| 0 <= q < n && marked@[q] && #[trigger] child_of(values@, q, c) implies settled(
                        values@,
                        marked@,
                        work@,
                        c,
                    ) by {
                        assert(settled(values@, m0, w0, c));
                    }
                }
            }
            continue;
        }
        let ghost ordp = ord;
        proof {
            lemma_unmarked_mark(marked@, p as int);
            lemma_visit(values@, ptr as int, ord, work@, p as int);
            ord = ord.push(p as int);
        }
        marked.set(p, true);
        proof {
            assert forall|i: int| 0 <= i < n && #[trigger] marked@[i] implies ord.contains(i) && !(values@[i] is Void) by {
                if i == p as int {
                    assert(ord[ord.len() - 1] == i);
                } else {
                    assert(m0[i]);
                    assert(ordp.contains(i));
                    let x = choose|x: int| 0 <= x < ordp.len() && ordp[x] == i;
                    assert(ord[x] == i);
                }
            }
        }
        let ghost last = ord.len() - 1;
        let ghost wp = work@;
        // Push every child of `p`.
        match &values[p] {
            Value::Reference(r) => {
                proof {
                    lemma_child_candidate(values@, ptr as int, ord, last, *r as int);
                }
                work.push(*r);
                proof {
                    assert(work@[work@.len() - 1] == *r);
                    assert(forall|x: int| 0 <= x < wp.len() ==> #[trigger] work@[x] == wp[x]);
                    assert forall|c: int| #[trigger] child_of(values@, p as int, c) && 0 < c < n implies work@.contains(c as usize) by {
                        assert(c == *r as int);
                    }
                }
            },
            Value::ClassIndex(_, fields) => {
                let mut q: usize = p + 1;
                while q < values.len() && q - p <= *fields as usize
                    invariant
                        0 < p < q,
                        (p as int) < n,
                        q <= n,
                        n == values@.len(),
                        0 <= last < ord.len(),
                        ord[last] == p as int,
                        values@[p as int] == Value::ClassIndex(values@[p as int]->ClassIndex_0, *fields),
                        work@.len() >= wp.len(),
                        forall|x: int| 0 <= x < wp.len() ==> #[trigger] work@[x] == wp[x],
                        forall|c: usize| p < c < q ==> #[trigger] work@.contains(c),
                        forall|k: int| 0 <= k < work@.len() ==> candidate(values@, ptr as int, ord, #[trigger] work@[k] as int),
                    decreases n - q,
                {
                    proof {
                        lemma_child_candidate(values@, ptr as int, ord, last, q as int);
                    }
                    let ghost wb = work@;
                    work.push(q);
                    proof {
                        assert(work@[work@.len() - 1] == q);
                        assert forall|c: usize| p < c < q + 1 implies #[trigger] work@.contains(c) by {
                            if c < q {
                                assert(wb.contains(c));
                                let x = choose|x: int| 0 <= x < wb.len() && wb[x] == c;
                                assert(work@[x] == wb[x]);
                            } else {
                                assert(work@[work@.len() - 1] == c);
                            }
                        }
                    }
                    q = q + 1;
                }
                proof {
                    assert forall|c: int| #[trigger] child_of(values@, p as int, c) && 0 < c < n implies work@.contains(c as usize) by {
                        let cu = c as usize;
                        assert(p < cu < q);
                        assert(work@.contains(cu));
                    }
                }
            },
            Value::ArrayOf(_, _) => {
                let mut count: usize = 1;
                if p + 1 < values.len() {
                    if let Value::Int(l) = values[p + 1] {
                        if l > 0 {
                            count = 1 + l as usize;
                        }
                    }
                }
                assert(count == 1 + array_len(values@, p as int));
                let mut q: usize = p + 1;
                while q < values.len() && q - p <= count
                    invariant
                        0 < p < q,
                        (p as int) < n,
                        q <= n,
                        n == values@.len(),
                        0 <= last < ord.len(),
                        ord[last] == p as int,
                        values@[p as int] is ArrayOf,
                        count == 1 + array_len(values@, p as int),
                        work@.len() >= wp.len(),
                        forall|x: int| 0 <= x < wp.len() ==> #[trigger] work@[x] == wp[x],
                        forall|c: usize| p < c < q ==> #[trigger] work@.contains(c),
                        forall|k: int| 0 <= k < work@.len() ==> candidate(values@, ptr as int, ord, #[trigger] work@[k] as int),
                    decreases n - q,
                {
                    proof {
                        lemma_child_candidate(values@, ptr as int, ord, last, q as int);
                    }
                    let ghost wb = work@;
                    work.push(q);
                    proof {
                        assert(work@[work@.len() - 1] == q);
                        assert forall|c: usize| p < c < q + 1 implies #[trigger] work@.contains(c) by {
                            if c < q {
                                assert(wb.contains(c));
                                let x = choose|x: int| 0 <= x < wb.len() && wb[x] == c;
                                assert(work@[x] == wb[x]);
                            } else {
                                assert(work@[work@.len() - 1] == c);
                            }
                        }
                    }
                    q = q + 1;
                }
                proof {
                    assert forall|c: int| #[trigger] child_of(values@, p as int, c) && 0 < c < n implies work@.contains(c as usize) by {
                        let cu = c as usize;
                        assert(p < cu < q);
                        assert(work@.contains(cu));
                    }
                }
            },
            _ => {
                proof {
                    assert forall|c: int| #[trigger] child_of(values@, p as int, c) && 0 < c < n implies work@.contains(c as usize) by {
                    }
                }
            },
        }
        proof {
            assert forall|c: int| #[trigger] settled(values@, m0, w0, c) implies settled(values@, marked@, work@, c) by {
                if c != p as int {
                    assert(settled(values@, m0, wp0, c));
                    assert(wp == wp0);
                    if wp.contains(c as usize) && !(c <= 0 || c >= n || values@[c] is Void || m0[c]) {
                        let x = choose|x: int| 0 <= x < wp.len() && wp[x] == c as usize;
                        assert(work@[x] == wp[x]);
                    }
                    if 0 <= c < n && m0[c] {
                        assert(marked@[c] == m0[c]);
                    }
                } else {
                    assert(marked@[c]);
                }
            }
            assert forall|q: int, c: int| 0 <= q < n && marked@[q] && #[trigger] child_of(values@, q, c) implies settled(
                values@,
                marked@,
                work@,
                c,
            ) by {
                if q == p as int {
                    if 0 < c < n {
                        assert(work@.contains(c as usize));
                    }
                } else {
                    assert(m0[q]);
                    assert(settled(values@, m0, w0, c));
                }
            }
            assert(settled(values@, m0, w0, ptr as int));
        }
    }
    proof {
        assert(work@ =~= Seq::<usize>::empty());
        assert forall|i: int| 0 < i < n && !(values@[i] is Void) && reachable(values@, ptr as int, i) implies #[trigger] marked@[i] by {
            let o2 = choose|o2: Seq<int>| reach_order(values@, ptr as int, o2) && o2.contains(i);
            let k = choose|k: int| 0 <= k < o2.len() && o2[k] == i;
            lemma_marked_complete(values@, marked@, ptr as int, o2, k);
        }
    }
    (marked, Ghost(ord))
}

/// Clears the slot at `ptr` and everything reachable from it, without shrinking;
/// returns the order in which slots were reached.
fn clear_reachable(values: &mut Vec<Value>, ptr: HeapPtr) -> (ord: Ghost<Seq<int>>)
    ensures
        final(values)@.len() == old(values)@.len(),
        only_cleared(old(values)@, final(values)@),
        0 < ptr < old(values)@.len() ==> final(values)@[ptr as int] is Void,
        reach_order(old(values)@, ptr as int, ord@),
        changes_within(old(values)@, final(values)@, ord@),
        forall|i: int| 0 < i < old(values)@.len() && reachable(old(values)@, ptr as int, i) ==> #[trigger] final(values)@[i] is Void,
        forall|i: int| 0 <= i < old(values)@.len() && #[trigger] final(values)@[i] is Void ==> old(values)@[i] is Void
            || reachable(old(values)@, ptr as int, i),
{
    let (marked, ord) = mark_reachable(values, ptr);
    let ghost start = values@;
    let mut i: usize = 0;
    while i < values.len()
        invariant
            values@.len() == start.len(),
            marked@.len() == start.len(),
            i <= start.len(),
            forall|x: int| 0 <= x < start.len() ==> #[trigger] values@[x] == if x < i && marked@[x] {
                Value::Void
            } else {
                start[x]
            },
        decreases start.len() - i,
    {
        if marked[i] {
            values.set(i, Value::Void);
        }
        i = i + 1;
    }
    proof {
        reveal(changes_within);
        assert forall|x: int| 0 <= x < start.len() && #[trigger] marked@[x] implies reachable(start, ptr as int, x) by {
            assert(ord@.contains(x));
        }
        assert forall|x: int| 0 < x < start.len() && reachable(start, ptr as int, x) implies #[trigger] values@[x] is Void by {
            if !(start[x] is Void) {
                assert(marked@[x]);
            }
        }
        if 0 < ptr < start.len() {
            reveal(reach_order);
            assert(reach_order(start, ptr as int, seq![ptr as int]));
            assert(seq![ptr as int].contains(ptr as int)) by {
                assert(seq![ptr as int][0] == ptr as int);
            }
            assert(reachable(start, ptr as int, ptr as int));
        }
        assert forall|x: int| 0 <= x < values@.len() && values@[x] != start[x] implies ord@.contains(x) by {
            assert(marked@[x]);
        }
        assert forall|x: int| 0 <= x < values@.len() implies (#[trigger] values@[x] == start[x] || values@[x] is Void) by {
        }
    }
    ord
}

impl HeapMemory {
    /// An empty heap holding only the null sentinel.
    pub fn new() -> (r: HeapMemory)
        ensures
            r@ == seq![Value::Void],
    {
        let mut values = Vec::new();
        values.push(Value::Void);
        HeapMemory { values }
    }

    /// Appends a raw string slot (the field of a string object).
    pub fn append(&mut self, data: &String)
        ensures
            final(self)@ == old(self)@.push(Value::String(*data)),
    {
        self.values.push(Value::String(data.clone()));
    }

    /// Appends an object header; the caller appends the `fields_count` field slots.
    pub fn new_object(&mut self, class_index: ClassIdx, fields_count: u16) -> (r: HeapPtr)
        ensures
            r == old(self)@.len(),
            final(self)@ == old(self)@.push(Value::ClassIndex(class_index, fields_count)),
    {
        let r = self.values.len();
        self.values.push(Value::ClassIndex(class_index, fields_count));
        r
    }

    /// Frees the value at `ptr` and everything reachable from it, then drops the
    /// trailing `Void` slots (keeping the null sentinel).
    pub fn free(&mut self, ptr: HeapPtr)
        ensures
            final(self)@.len() <= old(self)@.len(),
            old(self)@.len() >= 1 ==> final(self)@.len() >= 1,
            only_cleared(old(self)@, final(self)@),
            0 < ptr < old(self)@.len() ==> (ptr >= final(self)@.len() || final(self)@[ptr as int] is Void),
            final(self)@.len() > 1 ==> !(final(self)@.last() is Void),
            exists|ord: Seq<int>| reach_order(old(self)@, ptr as int, ord) && changes_within(old(self)@, final(self)@, ord),
            forall|i: int| 0 <= i < old(self)@.len() && !(#[trigger] old(self)@[i] is Void) ==> reachable(old(self)@, ptr as int, i)
                || (i < final(self)@.len() && final(self)@[i] == old(self)@[i]),
            forall|i: int| 0 < i < old(self)@.len() && #[trigger] reachable(old(self)@, ptr as int, i) ==> i >= final(self)@.len()
                || final(self)@[i] is Void,
            forall|i: int| final(self)@.len() <= i < old(self)@.len() ==> #[trigger] old(self)@[i] is Void || reachable(
                old(self)@,
                ptr as int,
                i,
            ),
    {
        let ghost before = self.values@;
        let ord = clear_reachable(&mut self.values, ptr);
        let ghost cleared = self.values@;
        let mut n = self.values.len();
        while n > 1 && self.values[n - 1].is_void()
            invariant
                n <= self.values@.len(),
                self.values@ == cleared,
                forall|i: int| n <= i < cleared.len() ==> (#[trigger] cleared[i]) is Void,
                self.values@.len() >= 1 ==> n >= 1,
            decreases n,
        {
            n = n - 1;
        }
        self.values.truncate(n);
        assert forall|i: int| 0 < i < old(self)@.len() && #[trigger] reachable(old(self)@, ptr as int, i) implies i
            >= self@.len() || self@[i] is Void by {
            assert(cleared[i] is Void);
            if i < self@.len() {
                assert(self.values@[i] == cleared[i]);
            }
        }
        assert forall|i: int| self@.len() <= i < old(self)@.len() implies #[trigger] old(self)@[i] is Void || reachable(
            old(self)@,
            ptr as int,
            i,
        ) by {
            assert(cleared[i] is Void);
        }
        assert(changes_within(before, self.values@, ord@)) by {
            reveal(changes_within);
            assert forall|i: int| 0 <= i < self.values@.len() && self.values@[i] != before[i] implies ord@.contains(i) by {
                assert(self.values@[i] == cleared[i]);
            }
        }
        assert forall|i: int| 0 <= i < old(self)@.len() && !(#[trigger] old(self)@[i] is Void) implies reachable(old(self)@, ptr as int, i)
            || (i < self@.len() && self@[i] == old(self)@[i]) by {
            reveal(changes_within);
            assert(before == old(self)@);
            assert(cleared.len() == before.len());
            if cleared[i] != before[i] {
                assert(ord@.contains(i));
                assert(reach_order(before, ptr as int, ord@));
                assert(reachable(before, ptr as int, i));
            } else {
                assert(!(cleared[i] is Void));
                assert(i < n);
                assert(self.values@ == cleared.subrange(0, n as int));
                assert(self.values@[i] == cleared[i]);
            }
        }
    }

    /// Appends an array of `count` null elements and returns its handle.
    pub fn new_object_array(&mut self, class_index: ClassIdx, count: i32) -> (r: HeapPtr)
        ensures
            r == old(self)@.len(),
            final(self)@ == old(self)@ + seq![Value::ArrayOf(Type::Reference, class_index), Value::Int(count)]
                + null_slots(count as int),
    {
        let ptr = self.values.len();
        self.values.push(Value::ArrayOf(Type::Reference, class_index));
        self.values.push(Value::Int(count));
        let ghost base = self.values@;
        assert(base =~= old(self)@ + seq![Value::ArrayOf(Type::Reference, class_index), Value::Int(count)]);
        let mut i: i32 = 0;
        while i < count
            invariant
                0 <= i,
                count >= 0 ==> i <= count,
                count < 0 ==> i == 0,
                self.values@ == base + null_slots(i as int),
            decreases count - i,
        {
            self.values.push(Value::Reference(0));
            assert(null_slots(i as int).push(Value::Reference(0)) =~= null_slots(i + 1));
            i = i + 1;
        }
        if count > 0 {
            assert(i == count);
        } else {
            assert(i == 0);
            assert(null_slots(count as int) =~= null_slots(0));
        }
        assert(self.values@ == base + null_slots(count as int));
        assert(self.values@ =~= old(self)@ + seq![Value::ArrayOf(Type::Reference, class_index), Value::Int(count)]
            + null_slots(count as int));
        ptr
    }

    /// Element `idx` of the array at `ptr`.
    pub fn get_array_element(&self, ptr: HeapPtr, idx: usize) -> (r: Value)
        requires
            ptr + 2 + idx < self@.len(),
        ensures
            r == self@[ptr + 2 + idx],
    {
        let _n = self.values.len();
        self.values[ptr + 2 + idx].clone_value()
    }

    /// Overwrites element `idx` of the array at `ptr`.
    pub fn set_array_element(&mut self, ptr: HeapPtr, idx: usize, value: Value)
        requires
            ptr + 2 + idx < old(self)@.len(),
        ensures
            final(self)@ == old(self)@.update(ptr + 2 + idx, value),
    {
        let _n = self.values.len();
        self.values[ptr + 2 + idx] = value;
    }

    /// A copy of every slot.
    pub fn inspect(&self) -> (r: Vec<Value>)
        ensures
            r@ == self@,
    {
        copy_values(&self.values)
    }

    /// Appends one field slot of the object being built.
    pub fn new_object_field(&mut self, value: Value)
        ensures
            final(self)@ == old(self)@.push(value),
    {
        self.values.push(value);
    }

    /// Appends a raw slot and returns its handle.
    pub fn put_value(&mut self, value: Value) -> (r: HeapPtr)
        ensures
            r == old(self)@.len(),
            final(self)@ == old(self)@.push(value),
    {
        let r = self.values.len();
        self.values.push(value);
        r
    }

    /// The raw slot at `reference`.
    pub fn get_value(&self, reference: HeapPtr) -> (r: Value)
        requires
            reference < self@.len(),
        ensures
            r == self@[reference as int],
    {
        self.values[reference].clone_value()
    }

    /// Field `field_idx` of the object at `reference`.
    pub fn get_field(&self, reference: HeapPtr, field_idx: FieldIdx) -> (r: Value)
        requires
            reference + 1 + field_idx < self@.len(),
        ensures
            r == self@[reference + 1 + field_idx],
    {
        let _n = self.values.len();
        self.values[reference + 1 + field_idx].clone_value()
    }

    /// Overwrites field `field_idx` of the object at `reference`.
    pub fn set_field(&mut self, reference: HeapPtr, field_idx: FieldIdx, value: Value)
        requires
            reference + 1 + field_idx < old(self)@.len(),
        ensures
            final(self)@ == old(self)@.update(reference + 1 + field_idx, value),
    {
        let _n = self.values.len();
        self.values[reference + 1 + field_idx] = value;
    }

    /// Number of slots, the null sentinel included.
    pub fn len(&self) -> (r: usize)
        ensures
            r == self@.len(),
    {
        self.values.len()
    }
}

} // verus!
