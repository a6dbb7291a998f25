//! Sets of symbols, held as strictly increasing lists.
use crate::text::views;
use vstd::prelude::*;

verus! {

broadcast use vstd::string::group_string_axioms;

/// `a` comes before `b` in the dictionary order of their characters.
pub open spec fn precedes(a: Seq<char>, b: Seq<char>) -> bool
    decreases a.len(),
{
    if b.len() == 0 {
        false
    } else if a.len() == 0 {
        true
    } else if a[0] != b[0] {
        (a[0] as int) < (b[0] as int)
    } else {
        precedes(a.drop_first(), b.drop_first())
    }
}

/// Each text of the list comes before the ones behind it.
pub open spec fn strictly_increasing(list: Seq<Seq<char>>) -> bool {
    forall|i: int, j: int| 0 <= i < j < list.len() ==> precedes(#[trigger] list[i], #[trigger] list[j])
}

/// The list holds the members of the set, each once, in dictionary order.
pub open spec fn lists(list: Seq<Seq<char>>, set: Set<Seq<char>>) -> bool {
    &&& strictly_increasing(list)
    &&& forall|x: Seq<char>| #[trigger] list.contains(x) <==> set.contains(x)
}

/// The members of a finite set in dictionary order.
pub open spec fn in_order(set: Set<Seq<char>>) -> Seq<Seq<char>> {
    choose|list: Seq<Seq<char>>| lists(list, set)
}

pub proof fn lemma_precedes_irreflexive(a: Seq<char>)
    ensures
        !precedes(a, a),
    decreases a.len(),
{
    if a.len() > 0 {
        lemma_precedes_irreflexive(a.drop_first());
    }
}

pub proof fn lemma_precedes_transitive(a: Seq<char>, b: Seq<char>, c: Seq<char>)
    requires
        precedes(a, b),
        precedes(b, c),
    ensures
        precedes(a, c),
    decreases a.len(),
{
    if a.len() > 0 && a[0] == b[0] && b[0] == c[0] {
        lemma_precedes_transitive(a.drop_first(), b.drop_first(), c.drop_first());
    }
}

/// Of two different texts one comes before the other.
pub proof fn lemma_precedes_total(a: Seq<char>, b: Seq<char>)
    ensures
        a == b || precedes(a, b) || precedes(b, a),
    decreases a.len(),
{
    if a.len() == 0 || b.len() == 0 {
        if a.len() == 0 && b.len() == 0 {
            assert(a =~= b);
        }
    } else if a[0] == b[0] {
        lemma_precedes_total(a.drop_first(), b.drop_first());
        if a.drop_first() == b.drop_first() {
            assert(a =~= seq![a[0]] + a.drop_first());
            assert(b =~= seq![b[0]] + b.drop_first());
        }
    }
}

/// A set is listed in one way only.
pub proof fn lemma_lists_unique(a: Seq<Seq<char>>, b: Seq<Seq<char>>, set: Set<Seq<char>>)
    requires
        lists(a, set),
        lists(b, set),
    ensures
        a == b,
    decreases a.len(),
{
    if a.len() == 0 {
        if b.len() > 0 {
            assert(b.contains(b[0]));
            assert(a.contains(b[0]));
        }
        assert(a =~= b);
    } else {
        assert(a.contains(a.last()));
        assert(b.contains(a.last()));
        assert(b.contains(b.last()));
        assert(a.contains(b.last()));
        let i = choose|i: int| 0 <= i < b.len() && b[i] == a.last();
        let j = choose|j: int| 0 <= j < a.len() && a[j] == b.last();
        if a.last() != b.last() {
            assert(precedes(b[i], b[b.len() - 1]));
            assert(precedes(a[j], a[a.len() - 1]));
            lemma_precedes_transitive(a.last(), b.last(), a.last());
            lemma_precedes_irreflexive(a.last());
        }
        let rest = set.remove(a.last());
        lemma_lists_without_last(a, set);
        lemma_lists_without_last(b, set);
        lemma_lists_unique(a.drop_last(), b.drop_last(), rest);
        assert(a =~= a.drop_last().push(a.last()));
        assert(b =~= b.drop_last().push(b.last()));
    }
}

proof fn lemma_lists_without_last(a: Seq<Seq<char>>, set: Set<Seq<char>>)
    requires
        lists(a, set),
        a.len() > 0,
    ensures
        lists(a.drop_last(), set.remove(a.last())),
{
    let rest = set.remove(a.last());
    let short = a.drop_last();
    assert forall|x: Seq<char>| #[trigger] short.contains(x) implies rest.contains(x) by {
        let i = choose|i: int| 0 <= i < short.len() && short[i] == x;
        assert(a[i] == x);
        assert(a.contains(x));
        assert(precedes(a[i], a[a.len() - 1]));
        lemma_precedes_irreflexive(x);
    }
    assert forall|x: Seq<char>| rest.contains(x) implies #[trigger] short.contains(x) by {
        assert(a.contains(x));
        let i = choose|i: int| 0 <= i < a.len() && a[i] == x;
        assert(short[i] == x);
    }
}

/// What lists a set is the list of the set.
pub proof fn lemma_in_order_is(list: Seq<Seq<char>>, set: Set<Seq<char>>)
    requires
        lists(list, set),
    ensures
        list == in_order(set),
        set.finite(),
        set.len() == list.len(),
{
    lemma_lists_unique(list, in_order(set), set);
    assert forall|i: int, j: int| 0 <= i < list.len() && 0 <= j < list.len() && i != j implies list[i]
        != list[j] by {
        lemma_precedes_irreflexive(list[i]);
        if i < j {
            assert(precedes(list[i], list[j]));
        } else {
            assert(precedes(list[j], list[i]));
        }
    }
    assert(list.no_duplicates());
    list.unique_seq_to_set();
    assert(list.to_set() =~= set);
}

/// The list with `x` put behind the texts that come before it.
spec fn with_text(list: Seq<Seq<char>>, x: Seq<char>) -> Seq<Seq<char>>
    decreases list.len(),
{
    if list.len() == 0 || precedes(list.last(), x) {
        list.push(x)
    } else {
        with_text(list.drop_last(), x).push(list.last())
    }
}

proof fn lemma_with_text(list: Seq<Seq<char>>, x: Seq<char>)
    requires
        strictly_increasing(list),
        !list.contains(x),
    ensures
        strictly_increasing(with_text(list, x)),
        forall|y: Seq<char>| #[trigger] with_text(list, x).contains(y) <==> (y == x || list.contains(y)),
    decreases list.len(),
{
    let longer = with_text(list, x);
    if list.len() == 0 || precedes(list.last(), x) {
        assert forall|i: int, j: int| 0 <= i < j < longer.len() implies precedes(
            #[trigger] longer[i],
            #[trigger] longer[j],
        ) by {
            if j == list.len() && i < list.len() - 1 {
                assert(precedes(list[i], list[list.len() - 1]));
                lemma_precedes_transitive(list[i], list.last(), x);
            }
        }
        assert forall|y: Seq<char>| #[trigger] longer.contains(y) <==> (y == x || list.contains(y)) by {
            if list.contains(y) {
                let k = choose|k: int| 0 <= k < list.len() && list[k] == y;
                assert(longer[k] == y);
            }
            assert(longer[list.len() as int] == x);
        }
    } else {
        let short = list.drop_last();
        let last = list.last();
        assert(list.contains(last)) by {
            assert(list[list.len() - 1] == last);
        }
        lemma_precedes_total(last, x);
        assert forall|y: Seq<char>| short.contains(y) implies list.contains(y) && precedes(y, last) by {
            let k = choose|k: int| 0 <= k < short.len() && short[k] == y;
            assert(list[k] == y);
            assert(precedes(list[k], list[list.len() - 1]));
        }
        lemma_with_text(short, x);
        let inner = with_text(short, x);
        assert(longer == inner.push(last));
        assert forall|i: int, j: int| 0 <= i < j < longer.len() implies precedes(
            #[trigger] longer[i],
            #[trigger] longer[j],
        ) by {
            if j == inner.len() {
                assert(inner.contains(inner[i]));
                assert(inner[i] == x || short.contains(inner[i]));
            }
        }
        assert forall|y: Seq<char>| #[trigger] longer.contains(y) <==> (y == x || list.contains(y)) by {
            if list.contains(y) && y != last {
                let k = choose|k: int| 0 <= k < list.len() && list[k] == y;
                assert(short[k] == y);
                assert(inner.contains(y));
            }
            if inner.contains(y) {
                let k = choose|k: int| 0 <= k < inner.len() && inner[k] == y;
                assert(longer[k] == y);
            }
            if longer.contains(y) {
                let k = choose|k: int| 0 <= k < longer.len() && longer[k] == y;
                if k < inner.len() {
                    assert(inner[k] == y);
                }
            }
            assert(longer[inner.len() as int] == last);
        }
    }
}

/// Every finite set of texts can be listed in dictionary order, and in one way
/// only.
pub proof fn law_finite_sets_are_listed(set: Set<Seq<char>>)
    requires
        set.finite(),
    ensures
        lists(in_order(set), set),
        forall|list: Seq<Seq<char>>| lists(list, set) ==> list == in_order(set),
    decreases set.len(),
{
    if set.len() == 0 {
        set.lemma_len0_is_empty();
        assert(lists(Seq::empty(), set));
    } else {
        let x = set.choose();
        let rest = set.remove(x);
        law_finite_sets_are_listed(rest);
        let list = in_order(rest);
        assert(!list.contains(x));
        lemma_with_text(list, x);
        assert(lists(with_text(list, x), set));
    }
    assert forall|list: Seq<Seq<char>>| lists(list, set) implies list == in_order(set) by {
        lemma_lists_unique(list, in_order(set), set);
    }
}

/// Whether `a` comes before `b` in dictionary order.
pub fn text_precedes(a: &str, b: &str) -> (r: bool)
    ensures
        r == precedes(a@, b@),
{
    let a_len: usize = a.unicode_len();
    let b_len: usize = b.unicode_len();
    let mut i: usize = 0;
    proof {
        assert(a@.skip(0) =~= a@);
        assert(b@.skip(0) =~= b@);
    }
    loop
        invariant
            a_len == a@.len(),
            b_len == b@.len(),
            i <= a_len,
            i <= b_len,
            precedes(a@, b@) == precedes(a@.skip(i as int), b@.skip(i as int)),
        decreases a_len - i,
    {
        if i == b_len {
            return false;
        }
        if i == a_len {
            return true;
        }
        let x: char = a.get_char(i);
        let y: char = b.get_char(i);
        if x != y {
            return (x as u32) < (y as u32);
        }
        proof {
            assert(a@.skip(i as int).drop_first() =~= a@.skip(i + 1));
            assert(b@.skip(i as int).drop_first() =~= b@.skip(i + 1));
        }
        i = i + 1;
    }
}

/// A set of symbols, in dictionary order.
pub struct SymbolSet {
    list: Vec<String>,
}

impl View for SymbolSet {
    type V = Set<Seq<char>>;

    closed spec fn view(&self) -> Set<Seq<char>> {
        views(self.list@).to_set()
    }
}

impl SymbolSet {
    #[verifier::type_invariant]
    spec fn ordered(self) -> bool {
        strictly_increasing(views(self.list@))
    }

    pub fn new() -> (r: SymbolSet)
        ensures
            r@ == Set::<Seq<char>>::empty(),
    {
        let r = SymbolSet { list: Vec::new() };
        assert(r@ =~= Set::<Seq<char>>::empty());
        r
    }

    /// The members in dictionary order.
    pub fn members(&self) -> (r: &Vec<String>)
        ensures
            views(r@) == in_order(self@),
            lists(views(r@), self@),
            r@.len() == self@.len(),
            self@.finite(),
    {
        proof {
            use_type_invariant(self);
            let list = views(self.list@);
            assert forall|x: Seq<char>| #[trigger] list.contains(x) <==> self@.contains(x) by {
                assert(list.to_set().contains(x) <==> list.contains(x));
            }
            lemma_in_order_is(list, self@);
        }
        &self.list
    }

    pub fn contains(&self, symbol: &str) -> (r: bool)
        ensures
            r == self@.contains(symbol@),
    {
        let mut i: usize = 0;
        while i < self.list.len()
            invariant
                i <= self.list.len(),
                forall|j: int| 0 <= j < i ==> (#[trigger] self.list@[j])@ != symbol@,
            decreases self.list.len() - i,
        {
            if crate::text::same_text(self.list[i].as_str(), symbol) {
                assert(views(self.list@)[i as int] == symbol@);
                assert(views(self.list@).contains(symbol@));
                return true;
            }
            i = i + 1;
        }
        proof {
            if views(self.list@).contains(symbol@) {
                let k = choose|k: int| 0 <= k < views(self.list@).len() && views(self.list@)[k] == symbol@;
                assert(self.list@[k]@ == symbol@);
            }
        }
        false
    }

    /// Adds a symbol, where it is not yet a member.
    pub fn insert(&mut self, symbol: &str)
        ensures
            final(self)@ == old(self)@.insert(symbol@),
    {
        proof {
            use_type_invariant(&*self);
        }
        let ghost before = views(self.list@);
        let mut at: usize = 0;
        while at < self.list.len() && text_precedes(self.list[at].as_str(), symbol)
            invariant
                at <= self.list.len(),
                before == views(self.list@),
                forall|j: int| 0 <= j < at ==> precedes(#[trigger] before[j], symbol@),
            decreases self.list.len() - at,
        {
            at = at + 1;
        }
        if at < self.list.len() && crate::text::same_text(self.list[at].as_str(), symbol) {
            proof {
                assert(before[at as int] == symbol@);
                assert(before.contains(symbol@));
                assert(before.to_set().insert(symbol@) =~= before.to_set());
            }
            return;
        }
        let mut list: Vec<String> = Vec::new();
        proof {
            assert(strictly_increasing(views(list@)));
        }
        std::mem::swap(&mut list, &mut self.list);
        list.insert(at, symbol.to_owned());
        proof {
            let after = views(list@);
            assert(after =~= before.insert(at as int, symbol@));
            if at < before.len() {
                lemma_precedes_total(before[at as int], symbol@);
                assert(precedes(symbol@, before[at as int]));
            }
            assert forall|i: int, j: int| 0 <= i < j < after.len() implies precedes(
                #[trigger] after[i],
                #[trigger] after[j],
            ) by {
                if j < at {
                    assert(precedes(before[i], before[j]));
                } else if j == at {
                    assert(precedes(before[i], symbol@));
                } else if i < at {
                    assert(precedes(before[i], before[j - 1]));
                } else if i == at {
                    if j - 1 > at {
                        assert(precedes(before[at as int], before[j - 1]));
                        lemma_precedes_transitive(symbol@, before[at as int], before[j - 1]);
                    }
                } else {
                    assert(precedes(before[i - 1], before[j - 1]));
                }
            }
            assert forall|x: Seq<char>| after.to_set().contains(x) <==> before.to_set().insert(
                symbol@,
            ).contains(x) by {
                if after.contains(x) {
                    let k = choose|k: int| 0 <= k < after.len() && after[k] == x;
                    if k < at {
                        assert(before[k] == x);
                    } else if k > at {
                        assert(before[k - 1] == x);
                    }
                }
                if before.contains(x) {
                    let k = choose|k: int| 0 <= k < before.len() && before[k] == x;
                    if k < at {
                        assert(after[k] == x);
                    } else {
                        assert(after[k + 1] == x);
                    }
                }
                assert(after[at as int] == symbol@);
                assert(after.contains(symbol@));
            }
            assert(after.to_set() =~= before.to_set().insert(symbol@));
        }
        self.list = list;
    }
}

/// A text comes before one that goes on where it ends, and of two others the one with the
/// smaller character comes first at the first place where they differ.
pub proof fn law_the_first_difference_decides(
    front: Seq<char>,
    x: char,
    y: char,
    a: Seq<char>,
    b: Seq<char>,
)
    ensures
        b.len() > 0 ==> precedes(front, front + b),
        !precedes(front + b, front),
        x != y ==> (precedes(front + seq![x] + a, front + seq![y] + b) <==> (x as int) < (y as int)),
    decreases front.len(),
{
    let left = front + seq![x] + a;
    let right = front + seq![y] + b;
    if front.len() == 0 {
        assert(left[0] == x);
        assert(right[0] == y);
    } else {
        let rest = front.drop_first();
        law_the_first_difference_decides(rest, x, y, a, b);
        assert((front + b).drop_first() =~= rest + b);
        assert(left.drop_first() =~= rest + seq![x] + a);
        assert(right.drop_first() =~= rest + seq![y] + b);
        assert(left[0] == right[0]);
    }
}

} // verus!
