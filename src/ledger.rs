use vstd::prelude::*;
use crate::options::Settings;
use crate::topology::{declaration_views, declarations_of, Declaration, DeclarationView, NamesView};

verus! {

/// The declarations a broker has accepted, under its rule for repeated ones:
/// declaring again with the same parameters changes nothing, while declaring
/// a queue or exchange again with other parameters is refused.
pub struct Ledger {
    entries: Vec<Declaration>,
}

/// A declaration that conflicts with one made before under the same name.
#[derive(Clone, Copy, Debug, PartialEq, Eq, Structural)]
pub enum DeclarationError {
    Conflict,
}

/// Whether two declarations are about the same queue, exchange or binding.
pub open spec fn same_subject(a: DeclarationView, b: DeclarationView) -> bool {
    match (a, b) {
        (DeclarationView::Queue { name: x, .. }, DeclarationView::Queue { name: y, .. }) => x == y,
        (DeclarationView::Exchange { name: x }, DeclarationView::Exchange { name: y }) => x == y,
        (DeclarationView::Binding { .. }, DeclarationView::Binding { .. }) => a == b,
        _ => false,
    }
}

/// Whether `d` agrees with everything declared so far about its subject.
pub open spec fn accepts(s: Seq<DeclarationView>, d: DeclarationView) -> bool {
    forall|i: int| 0 <= i < s.len() && same_subject(#[trigger] s[i], d) ==> s[i] == d
}

pub open spec fn recorded(s: Seq<DeclarationView>, d: DeclarationView) -> bool {
    exists|i: int| 0 <= i < s.len() && #[trigger] s[i] == d
}

/// The record after `d` is accepted: unchanged if `d` was made before.
pub open spec fn after(s: Seq<DeclarationView>, d: DeclarationView) -> Seq<DeclarationView> {
    if recorded(s, d) {
        s
    } else {
        s.push(d)
    }
}

/// Each subject is recorded with one set of parameters.
pub open spec fn consistent(s: Seq<DeclarationView>) -> bool {
    forall|i: int, j: int|
        0 <= i < s.len() && 0 <= j < s.len() && same_subject(#[trigger] s[i], #[trigger] s[j]) ==> s[i] == s[j]
}

/// The record after declaring each of `ds` in turn, or the refusal of the first conflict.
pub open spec fn after_all(s: Seq<DeclarationView>, ds: Seq<DeclarationView>) -> Result<Seq<DeclarationView>, DeclarationError>
    decreases ds.len(),
{
    if ds.len() == 0 {
        Ok(s)
    } else if accepts(s, ds[0]) {
        after_all(after(s, ds[0]), ds.drop_first())
    } else {
        Err(DeclarationError::Conflict)
    }
}

impl View for Ledger {
    type V = Seq<DeclarationView>;

    closed spec fn view(&self) -> Seq<DeclarationView> {
        declaration_views(self.entries@)
    }
}

fn same_declaration(a: &Declaration, b: &Declaration) -> (r: bool)
    ensures
        r == (a@ == b@),
{
    match (a, b) {
        (Declaration::Queue { name: x, durable: p }, Declaration::Queue { name: y, durable: q }) => *x
            == *y && *p == *q,
        (Declaration::Exchange { name: x }, Declaration::Exchange { name: y }) => *x == *y,
        (
            Declaration::Binding { queue: x, exchange: e },
            Declaration::Binding { queue: y, exchange: f },
        ) => *x == *y && *e == *f,
        _ => false,
    }
}

fn same_subject_exec(a: &Declaration, b: &Declaration) -> (r: bool)
    ensures
        r == same_subject(a@, b@),
{
    match (a, b) {
        (Declaration::Queue { name: x, .. }, Declaration::Queue { name: y, .. }) => *x == *y,
        (Declaration::Exchange { name: x }, Declaration::Exchange { name: y }) => *x == *y,
        (
            Declaration::Binding { queue: x, exchange: e },
            Declaration::Binding { queue: y, exchange: f },
        ) => *x == *y && *e == *f,
        _ => false,
    }
}

fn clone_declaration(d: &Declaration) -> (r: Declaration)
    ensures
        r@ == d@,
{
    match d {
        Declaration::Queue { name, durable } => Declaration::Queue {
            name: name.clone(),
            durable: *durable,
        },
        Declaration::Exchange { name } => Declaration::Exchange { name: name.clone() },
        Declaration::Binding { queue, exchange } => Declaration::Binding {
            queue: queue.clone(),
            exchange: exchange.clone(),
        },
    }
}

impl Ledger {
    /// A broker on which nothing has been declared.
    pub fn new() -> (r: Ledger)
        ensures
            r@ == Seq::<DeclarationView>::empty(),
    {
        let r = Ledger { entries: Vec::new() };
        assert(r@ =~= Seq::<DeclarationView>::empty());
        r
    }

    /// Records one declaration, or refuses it when it conflicts with one
    /// made before; a refused declaration changes nothing.
    pub fn declare(&mut self, d: &Declaration) -> (r: Result<(), DeclarationError>)
        ensures
            r is Ok <==> accepts(old(self)@, d@),
            r is Ok ==> final(self)@ == after(old(self)@, d@),
            r is Err ==> final(self)@ == old(self)@,
    {
        let ghost s = self@;
        let mut found = false;
        let mut i: usize = 0;
        while i < self.entries.len()
            invariant
                s == self@,
                i <= s.len(),
                forall|k: int| 0 <= k < i && same_subject(#[trigger] s[k], d@) ==> s[k] == d@,
                found == recorded(s.subrange(0, i as int), d@),
            decreases self.entries.len() - i,
        {
            assert(s[i as int] == self.entries@[i as int]@);
            let e = &self.entries[i];
            if same_subject_exec(e, d) && !same_declaration(e, d) {
                return Err(DeclarationError::Conflict);
            }
            let ghost before = s.subrange(0, i as int);
            let ghost now = s.subrange(0, i + 1);
            assert(now =~= before.push(s[i as int]));
            if same_declaration(e, d) {
                assert(now[i as int] == d@);
                found = true;
            } else {
                assert(recorded(now, d@) ==> recorded(before, d@)) by {
                    if recorded(now, d@) {
                        let k = choose|k: int| 0 <= k < now.len() && #[trigger] now[k] == d@;
                        assert(before[k] == d@);
                    }
                }
            }
            i = i + 1;
        }
        assert(s.subrange(0, s.len() as int) =~= s);
        if !found {
            self.entries.push(clone_declaration(d));
            assert(self@ =~= s.push(d@));
        }
        Ok(())
    }

    /// Makes each declaration in turn, stopping at the first one refused.
    pub fn declare_all(&mut self, ds: &Vec<Declaration>) -> (r: Result<(), DeclarationError>)
        ensures
            r is Ok <==> after_all(old(self)@, declaration_views(ds@)) is Ok,
            r is Ok ==> after_all(old(self)@, declaration_views(ds@)) == Ok::<
                Seq<DeclarationView>,
                DeclarationError,
            >(final(self)@),
    {
        let ghost dv = declaration_views(ds@);
        assert(dv.subrange(0, dv.len() as int) =~= dv);
        let mut i: usize = 0;
        while i < ds.len()
            invariant
                i <= ds@.len(),
                dv == declaration_views(ds@),
                after_all(old(self)@, dv) == after_all(self@, dv.subrange(i as int, dv.len() as int)),
            decreases ds.len() - i,
        {
            let ghost rest = dv.subrange(i as int, dv.len() as int);
            assert(rest[0] == ds@[i as int]@);
            assert(rest.drop_first() =~= dv.subrange(i + 1, dv.len() as int));
            match self.declare(&ds[i]) {
                Ok(()) => {},
                Err(e) => {
                    return Err(e);
                },
            }
            i = i + 1;
        }
        assert(dv.subrange(i as int, dv.len() as int) =~= Seq::<DeclarationView>::empty());
        Ok(())
    }
}

proof fn lemma_after_all_records(s: Seq<DeclarationView>, ds: Seq<DeclarationView>)
    requires
        consistent(s),
        after_all(s, ds) is Ok,
    ensures
        consistent(after_all(s, ds)->Ok_0),
        forall|k: int| 0 <= k < ds.len() ==> recorded(after_all(s, ds)->Ok_0, #[trigger] ds[k]),
        forall|d: DeclarationView| recorded(s, d) ==> recorded(after_all(s, ds)->Ok_0, d),
    decreases ds.len(),
{
    if ds.len() > 0 {
        let d = ds[0];
        let s1 = after(s, d);
        if !recorded(s, d) {
            assert(s1[s.len() as int] == d);
            assert forall|i: int, j: int|
                0 <= i < s1.len() && 0 <= j < s1.len() && same_subject(#[trigger] s1[i], #[trigger] s1[j]) implies s1[i] == s1[j] by {
                if i == s.len() && j < s.len() {
                    assert(same_subject(s[j], d));
                } else if j == s.len() && i < s.len() {
                    assert(same_subject(s[i], d));
                }
            }
            assert forall|e: DeclarationView| recorded(s, e) implies recorded(s1, e) by {
                let k = choose|k: int| 0 <= k < s.len() && #[trigger] s[k] == e;
                assert(s1[k] == e);
            }
        }
        assert(recorded(s1, d));
        lemma_after_all_records(s1, ds.drop_first());
        assert forall|k: int| 0 <= k < ds.len() implies recorded(after_all(s, ds)->Ok_0, #[trigger] ds[k]) by {
            if k > 0 {
                assert(ds[k] == ds.drop_first()[k - 1]);
            }
        }
    }
}

proof fn lemma_redeclare_unchanged(s: Seq<DeclarationView>, ds: Seq<DeclarationView>)
    requires
        consistent(s),
        forall|k: int| 0 <= k < ds.len() ==> recorded(s, #[trigger] ds[k]),
    ensures
        after_all(s, ds) == Ok::<Seq<DeclarationView>, DeclarationError>(s),
    decreases ds.len(),
{
    if ds.len() > 0 {
        let d = ds[0];
        assert(recorded(s, ds[0]));
        let i = choose|i: int| 0 <= i < s.len() && #[trigger] s[i] == d;
        assert forall|j: int| 0 <= j < s.len() && same_subject(#[trigger] s[j], d) implies s[j] == d by {
            assert(same_subject(s[j], s[i]));
        }
        assert forall|k: int| 0 <= k < ds.drop_first().len() implies recorded(s, #[trigger] ds.drop_first()[k]) by {
            assert(ds.drop_first()[k] == ds[k + 1]);
        }
        lemma_redeclare_unchanged(s, ds.drop_first());
    }
}

/// Declaring twice: once every declaration of a list has been accepted,
/// declaring the whole list again, from any channel, is accepted and
/// changes nothing.
pub proof fn lemma_declare_again(s: Seq<DeclarationView>, ds: Seq<DeclarationView>)
    requires
        consistent(s),
        after_all(s, ds) is Ok,
    ensures
        after_all(after_all(s, ds)->Ok_0, ds) == after_all(s, ds),
{
    lemma_after_all_records(s, ds);
    lemma_redeclare_unchanged(after_all(s, ds)->Ok_0, ds);
}

proof fn lemma_fresh_declarations(ds: Seq<DeclarationView>, k: int)
    requires
        0 <= k <= ds.len(),
        forall|i: int, j: int|
            0 <= i < j < ds.len() ==> !same_subject(#[trigger] ds[i], #[trigger] ds[j]),
    ensures
        after_all(ds.subrange(0, k), ds.subrange(k, ds.len() as int)) == Ok::<
            Seq<DeclarationView>,
            DeclarationError,
        >(ds),
    decreases ds.len() - k,
{
    let t = ds.subrange(0, k);
    let rest = ds.subrange(k, ds.len() as int);
    if k < ds.len() {
        let d = ds[k];
        assert(rest[0] == d);
        assert(accepts(t, d)) by {
            assert forall|i: int| 0 <= i < t.len() && same_subject(#[trigger] t[i], d) implies t[i] == d by {
                assert(t[i] == ds[i]);
            }
        }
        assert(!recorded(t, d)) by {
            if recorded(t, d) {
                let i = choose|i: int| 0 <= i < t.len() && #[trigger] t[i] == d;
                assert(t[i] == ds[i]);
                assert(same_subject(ds[i], ds[k]));
            }
        }
        assert(after(t, d) =~= ds.subrange(0, k + 1));
        assert(rest.drop_first() =~= ds.subrange(k + 1, ds.len() as int));
        lemma_fresh_declarations(ds, k + 1);
    } else {
        assert(t =~= ds);
    }
}

/// Idempotent topology: for every choice of durability, prefetch limit and
/// fan-out, the declarations that each channel makes are accepted on a
/// fresh broker, and accepted again, with no change, when a second channel
/// makes them.
pub proof fn lemma_topology_idempotent(names: NamesView, s: Settings)
    requires
        names.wf(),
    ensures
        after_all(Seq::empty(), declarations_of(names, s)) is Ok,
        after_all(after_all(Seq::empty(), declarations_of(names, s))->Ok_0, declarations_of(names, s))
            == after_all(Seq::empty(), declarations_of(names, s)),
{
    let ds = declarations_of(names, s);
    let e = Seq::<DeclarationView>::empty();
    assert(consistent(e));
    assert forall|i: int, j: int| 0 <= i < j < ds.len() implies !same_subject(#[trigger] ds[i], #[trigger] ds[j]) by {
        if s.fanout {
            assert(names.first_queue != names.second_queue);
        }
    }
    lemma_fresh_declarations(ds, 0);
    assert(ds.subrange(0, 0) =~= e);
    assert(ds.subrange(0, ds.len() as int) =~= ds);
    lemma_declare_again(e, ds);
}

} // verus!
