use vstd::prelude::*;
use crate::options::Settings;

verus! {

/// The broker address and the names of the queues and exchange. Every role
/// takes its declarations from one value of this type, so that they agree.
#[derive(Clone, Debug, PartialEq, Eq)]
pub struct Names {
    pub url: String,
    pub first_queue: String,
    pub second_queue: String,
    pub exchange: String,
}

pub struct NamesView {
    pub url: Seq<char>,
    pub first_queue: Seq<char>,
    pub second_queue: Seq<char>,
    pub exchange: Seq<char>,
}

impl View for Names {
    type V = NamesView;

    open spec fn view(&self) -> NamesView {
        NamesView {
            url: self.url@,
            first_queue: self.first_queue@,
            second_queue: self.second_queue@,
            exchange: self.exchange@,
        }
    }
}

impl NamesView {
    /// The two queues have different names, and no name is empty.
    pub open spec fn wf(self) -> bool {
        &&& self.first_queue != self.second_queue
        &&& self.first_queue.len() > 0
        &&& self.second_queue.len() > 0
        &&& self.exchange.len() > 0
    }
}

impl Names {
    /// The names this harness uses by default.
    pub fn standard() -> (r: Names)
        ensures
            r.url@ == "amqp://rust_rabbitmq_example_queue_1//"@,
            r.first_queue@ == "queue-1"@,
            r.second_queue@ == "queue-2"@,
            r.exchange@ == "fanout-exchange"@,
            r@.wf(),
    {
        proof {
            reveal_strlit("queue-1");
            reveal_strlit("queue-2");
            reveal_strlit("fanout-exchange");
            assert("queue-1"@[6] != "queue-2"@[6]);
        }
        Names {
            url: String::from_str("amqp://rust_rabbitmq_example_queue_1//"),
            first_queue: String::from_str("queue-1"),
            second_queue: String::from_str("queue-2"),
            exchange: String::from_str("fanout-exchange"),
        }
    }

    /// A copy of the names.
    pub fn duplicate(&self) -> (r: Names)
        ensures
            r@ == self@,
    {
        Names {
            url: self.url.clone(),
            first_queue: self.first_queue.clone(),
            second_queue: self.second_queue.clone(),
            exchange: self.exchange.clone(),
        }
    }
}

/// One thing a channel declares to the broker before it publishes or consumes.
#[derive(Clone, Debug, PartialEq, Eq)]
pub enum Declaration {
    /// A queue, neither exclusive nor auto-deleted.
    Queue { name: String, durable: bool },
    /// A durable fan-out exchange.
    Exchange { name: String },
    /// A binding of a queue to an exchange.
    Binding { queue: String, exchange: String },
}

pub enum DeclarationView {
    Queue { name: Seq<char>, durable: bool },
    Exchange { name: Seq<char> },
    Binding { queue: Seq<char>, exchange: Seq<char> },
}

impl View for Declaration {
    type V = DeclarationView;

    open spec fn view(&self) -> DeclarationView {
        match self {
            Declaration::Queue { name, durable } => DeclarationView::Queue {
                name: name@,
                durable: *durable,
            },
            Declaration::Exchange { name } => DeclarationView::Exchange { name: name@ },
            Declaration::Binding { queue, exchange } => DeclarationView::Binding {
                queue: queue@,
                exchange: exchange@,
            },
        }
    }
}

pub open spec fn declaration_views(s: Seq<Declaration>) -> Seq<DeclarationView> {
    s.map_values(|d: Declaration| d@)
}

/// The queues that messages go to: the first alone, or both under fan-out.
pub open spec fn queues_of(names: NamesView, fanout: bool) -> Seq<Seq<char>> {
    if fanout {
        seq![names.first_queue, names.second_queue]
    } else {
        seq![names.first_queue]
    }
}

/// What every channel declares, the producer's and each worker's alike.
pub open spec fn declarations_of(names: NamesView, s: Settings) -> Seq<DeclarationView> {
    if s.fanout {
        seq![
            DeclarationView::Queue { name: names.first_queue, durable: s.durable },
            DeclarationView::Queue { name: names.second_queue, durable: s.durable },
            DeclarationView::Exchange { name: names.exchange },
            DeclarationView::Binding { queue: names.first_queue, exchange: names.exchange },
            DeclarationView::Binding { queue: names.second_queue, exchange: names.exchange },
        ]
    } else {
        seq![DeclarationView::Queue { name: names.first_queue, durable: s.durable }]
    }
}

/// Builds the declarations that every channel makes before any other use.
pub fn declarations(names: &Names, s: &Settings) -> (r: Vec<Declaration>)
    ensures
        declaration_views(r@) == declarations_of(names@, *s),
{
    let mut r: Vec<Declaration> = Vec::new();
    r.push(Declaration::Queue { name: names.first_queue.clone(), durable: s.durable });
    if s.fanout {
        r.push(Declaration::Queue { name: names.second_queue.clone(), durable: s.durable });
        r.push(Declaration::Exchange { name: names.exchange.clone() });
        r.push(
            Declaration::Binding {
                queue: names.first_queue.clone(),
                exchange: names.exchange.clone(),
            },
        );
        r.push(
            Declaration::Binding {
                queue: names.second_queue.clone(),
                exchange: names.exchange.clone(),
            },
        );
    }
    assert(declaration_views(r@) =~= declarations_of(names@, *s));
    r
}

/// Where the producer publishes: an exchange (empty for the broker's default
/// exchange) and a routing key.
#[derive(Clone, Debug, PartialEq, Eq)]
pub struct PublishTarget {
    pub exchange: String,
    pub routing_key: String,
}

/// The destination: the exchange under fan-out, else the first queue.
pub open spec fn destination_of(names: NamesView, fanout: bool) -> Seq<char> {
    if fanout {
        names.exchange
    } else {
        names.first_queue
    }
}

/// Under fan-out, the exchange with an empty key; else the default exchange
/// with the first queue's name as key.
pub open spec fn target_of(names: NamesView, fanout: bool) -> (Seq<char>, Seq<char>) {
    if fanout {
        (names.exchange, Seq::empty())
    } else {
        (Seq::empty(), names.first_queue)
    }
}

/// The name that messages are published to.
pub fn destination(names: &Names, fanout: bool) -> (r: String)
    ensures
        r@ == destination_of(names@, fanout),
{
    if fanout {
        names.exchange.clone()
    } else {
        names.first_queue.clone()
    }
}

/// The exchange and routing key of every publication.
pub fn publish_target(names: &Names, fanout: bool) -> (r: PublishTarget)
    ensures
        (r.exchange@, r.routing_key@) == target_of(names@, fanout),
        fanout ==> r.exchange@ == destination_of(names@, fanout),
        !fanout ==> r.routing_key@ == destination_of(names@, fanout),
{
    if fanout {
        PublishTarget { exchange: names.exchange.clone(), routing_key: String::new() }
    } else {
        PublishTarget { exchange: String::new(), routing_key: names.first_queue.clone() }
    }
}

pub open spec fn declares_queue(d: Seq<DeclarationView>, q: Seq<char>) -> bool {
    exists|i: int| 0 <= i < d.len() && #[trigger] d[i] is Queue && d[i]->Queue_name == q
}

pub open spec fn declares_exchange(d: Seq<DeclarationView>, x: Seq<char>) -> bool {
    exists|i: int| 0 <= i < d.len() && #[trigger] d[i] == (DeclarationView::Exchange { name: x })
}

pub open spec fn declares_binding(d: Seq<DeclarationView>, q: Seq<char>, x: Seq<char>) -> bool {
    exists|i: int| 0 <= i < d.len() && #[trigger] d[i] == (DeclarationView::Binding { queue: q, exchange: x })
}

/// Whether a message published to `exchange` with `key` lands in queue `q`:
/// the default exchange (empty name) routes to the queue named by the key; a
/// fan-out exchange routes to every queue bound to it, whatever the key.
pub open spec fn receives(
    d: Seq<DeclarationView>,
    exchange: Seq<char>,
    key: Seq<char>,
    q: Seq<char>,
) -> bool {
    &&& declares_queue(d, q)
    &&& if exchange.len() == 0 {
        q == key
    } else {
        declares_exchange(d, exchange) && declares_binding(d, q, exchange)
    }
}

pub open spec fn receiving_queues(d: Seq<DeclarationView>, exchange: Seq<char>, key: Seq<char>) -> Set<Seq<char>> {
    Set::new(|q: Seq<char>| receives(d, exchange, key, q))
}

fn has_exchange(d: &Vec<Declaration>, x: &String) -> (r: bool)
    ensures
        r == declares_exchange(declaration_views(d@), x@),
{
    let ghost dv = declaration_views(d@);
    let mut i: usize = 0;
    while i < d.len()
        invariant
            i <= d@.len(),
            dv == declaration_views(d@),
            forall|k: int| 0 <= k < i ==> dv[k] != (DeclarationView::Exchange { name: x@ }),
        decreases d.len() - i,
    {
        assert(dv[i as int] == d@[i as int]@);
        match &d[i] {
            Declaration::Exchange { name } => {
                if *name == *x {
                    assert(dv[i as int] == (DeclarationView::Exchange { name: x@ }));
                    return true;
                }
            },
            _ => {},
        }
        i = i + 1;
    }
    false
}

fn has_binding(d: &Vec<Declaration>, q: &String, x: &String) -> (r: bool)
    ensures
        r == declares_binding(declaration_views(d@), q@, x@),
{
    let ghost dv = declaration_views(d@);
    let mut i: usize = 0;
    while i < d.len()
        invariant
            i <= d@.len(),
            dv == declaration_views(d@),
            forall|k: int| 0 <= k < i ==> dv[k] != (DeclarationView::Binding { queue: q@, exchange: x@ }),
        decreases d.len() - i,
    {
        assert(dv[i as int] == d@[i as int]@);
        match &d[i] {
            Declaration::Binding { queue, exchange } => {
                if *queue == *q && *exchange == *x {
                    assert(dv[i as int] == (DeclarationView::Binding { queue: q@, exchange: x@ }));
                    return true;
                }
            },
            _ => {},
        }
        i = i + 1;
    }
    false
}

/// The queues, in order of declaration, that a message published to
/// `target` lands in, given what was declared. A queue declared twice is
/// listed at each of its declarations.
pub fn route(d: &Vec<Declaration>, target: &PublishTarget) -> (r: Vec<String>)
    ensures
        forall|q: Seq<char>|
            receives(declaration_views(d@), target.exchange@, target.routing_key@, q) <==> exists|j: int|
                0 <= j < r@.len() && #[trigger] r@[j]@ == q,
{
    let ghost dv = declaration_views(d@);
    let default_exchange = target.exchange.unicode_len() == 0;
    let exchange_known = has_exchange(d, &target.exchange);
    let mut r: Vec<String> = Vec::new();
    let mut i: usize = 0;
    while i < d.len()
        invariant
            i <= d@.len(),
            dv == declaration_views(d@),
            default_exchange == (target.exchange@.len() == 0),
            exchange_known == declares_exchange(dv, target.exchange@),
            forall|j: int|
                0 <= j < r@.len() ==> receives(dv, target.exchange@, target.routing_key@, #[trigger] r@[j]@),
            forall|q: Seq<char>|
                (exists|k: int| 0 <= k < i && #[trigger] dv[k] is Queue && dv[k]->Queue_name == q)
                    && receives(dv, target.exchange@, target.routing_key@, q) ==> exists|j: int|
                    0 <= j < r@.len() && #[trigger] r@[j]@ == q,
        decreases d.len() - i,
    {
        assert(dv[i as int] == d@[i as int]@);
        let ghost r0 = r@;
        match &d[i] {
            Declaration::Queue { name, .. } => {
                assert(dv[i as int] is Queue && dv[i as int]->Queue_name == name@);
                let lands = if default_exchange {
                    *name == target.routing_key
                } else {
                    exchange_known && has_binding(d, name, &target.exchange)
                };
                assert(lands == receives(dv, target.exchange@, target.routing_key@, name@));
                if lands {
                    r.push(name.clone());
                    assert(r@[r@.len() - 1]@ == name@);
                }
            },
            _ => {},
        }
        assert forall|q: Seq<char>|
            (exists|k: int| 0 <= k < i + 1 && #[trigger] dv[k] is Queue && dv[k]->Queue_name == q)
                && receives(dv, target.exchange@, target.routing_key@, q) implies exists|j: int|
                0 <= j < r@.len() && #[trigger] r@[j]@ == q by {
            let k = choose|k: int| 0 <= k < i + 1 && #[trigger] dv[k] is Queue && dv[k]->Queue_name == q;
            if k < i {
                let j = choose|j: int| 0 <= j < r0.len() && #[trigger] r0[j]@ == q;
                assert(r@[j] == r0[j]);
            } else {
                assert(r@[r@.len() - 1]@ == q);
            }
        }
        i = i + 1;
    }
    r
}

/// Fan-out correctness: what the producer publishes reaches the first queue
/// alone when fan-out is off, and each of the two queues when it is on.
pub proof fn lemma_fanout_routing(names: NamesView, s: Settings)
    requires
        names.wf(),
    ensures
        receiving_queues(
            declarations_of(names, s),
            target_of(names, s.fanout).0,
            target_of(names, s.fanout).1,
        ) == (if s.fanout {
            set![names.first_queue, names.second_queue]
        } else {
            set![names.first_queue]
        }),
        !s.fanout ==> receiving_queues(
            declarations_of(names, s),
            target_of(names, s.fanout).0,
            target_of(names, s.fanout).1,
        ).len() == 1,
        s.fanout ==> receiving_queues(
            declarations_of(names, s),
            target_of(names, s.fanout).0,
            target_of(names, s.fanout).1,
        ).len() == 2,
{
    let d = declarations_of(names, s);
    let (x, k) = target_of(names, s.fanout);
    let q1 = names.first_queue;
    let q2 = names.second_queue;
    if s.fanout {
        assert(d[0] is Queue && d[0]->Queue_name == q1);
        assert(d[1] is Queue && d[1]->Queue_name == q2);
        assert(d[2] == (DeclarationView::Exchange { name: x }));
        assert(d[3] == (DeclarationView::Binding { queue: q1, exchange: x }));
        assert(d[4] == (DeclarationView::Binding { queue: q2, exchange: x }));
        assert(receiving_queues(d, x, k) =~= set![q1, q2]);
        assert(set![q1].insert(q2).len() == 2);
    } else {
        assert(d[0] is Queue && d[0]->Queue_name == q1);
        assert(receiving_queues(d, x, k) =~= set![q1]);
    }
    assert(set![q1].len() == 1) by {
        assert(set![q1] =~= Set::<Seq<char>>::empty().insert(q1));
    }
}

} // verus!
