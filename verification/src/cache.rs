//! The schemas known to exist, and the operation they call for.
//!
//! A pool of connections remembers which schemas it has already created.
//! For a known schema a connection only switches to it; for an unknown one it
//! creates the schema first, and the schema becomes known once that has
//! succeeded. This saves the `CREATE ... IF NOT EXISTS` round trip on every
//! later request for the same schema.
use vstd::prelude::*;
use crate::statement::{Backend, ensure_sql, search_path_sql};
use crate::switch::{SchemaOp, drive, initial_state, op_plan};

verus! {

/// The operation a pooled connection runs for `schema`, given the schemas
/// `known` to exist.
pub open spec fn cached_op(known: Set<Seq<char>>, schema: Seq<char>) -> SchemaOp {
    if known.contains(schema) {
        SchemaOp::SetSearchPath
    } else {
        SchemaOp::SetSchema
    }
}

/// The known schemas after `op` ran for `schema` and succeeded (`ok`) or
/// failed: only a successful `SetSchema` adds the schema.
pub open spec fn recorded(known: Set<Seq<char>>, schema: Seq<char>, op: SchemaOp, ok: bool) -> Set<Seq<char>> {
    if ok && op == SchemaOp::SetSchema {
        known.insert(schema)
    } else {
        known
    }
}

/// Law: recording an outcome never forgets a schema.
pub proof fn law_known_schemas_only_grow(known: Set<Seq<char>>, schema: Seq<char>, op: SchemaOp, ok: bool)
    ensures
        known.subset_of(recorded(known, schema, op, ok)),
{
}

/// Law: a failed operation leaves the known schemas as they were.
pub proof fn law_failure_leaves_cache_unchanged(known: Set<Seq<char>>, schema: Seq<char>, op: SchemaOp)
    ensures
        recorded(known, schema, op, false) == known,
{
}

/// Law: for a known schema a pooled connection only switches to it; no
/// `CREATE` statement runs.
pub proof fn law_known_schema_is_only_selected(backend: Backend, known: Set<Seq<char>>, schema: Seq<char>)
    requires
        known.contains(schema),
    ensures
        op_plan(backend, cached_op(known, schema), schema) == seq![search_path_sql(backend, schema)],
{
}

/// Law: for an unknown schema a pooled connection creates it if needed and
/// then switches to it.
pub proof fn law_unknown_schema_is_created_then_selected(backend: Backend, known: Set<Seq<char>>, schema: Seq<char>)
    requires
        !known.contains(schema),
    ensures
        op_plan(backend, cached_op(known, schema), schema)
            == seq![ensure_sql(backend, schema), search_path_sql(backend, schema)],
{
}

/// Law: once the operation chosen for a schema has succeeded, the schema is
/// known, and the next request for it only switches to it.
pub proof fn law_success_skips_create_next_time<E>(
    backend: Backend,
    known: Set<Seq<char>>,
    schema: Seq<char>,
    outcomes: Seq<Result<(), E>>,
)
    requires
        outcomes.len() >= op_plan(backend, cached_op(known, schema), schema).len(),
        forall|i: int|
            0 <= i < op_plan(backend, cached_op(known, schema), schema).len() ==> #[trigger] outcomes[i] is Ok,
    ensures
        ({
            let op = cached_op(known, schema);
            let result = drive(initial_state(op_plan(backend, op, schema)), outcomes).1;
            let after = recorded(known, schema, op, result == Some(Ok::<(), E>(())));
            &&& result == Some(Ok::<(), E>(()))
            &&& after.contains(schema)
            &&& cached_op(after, schema) == SchemaOp::SetSearchPath
        }),
{
    crate::switch::law_operation_succeeds(backend, cached_op(known, schema), schema, outcomes);
}

/// The known schemas after a series of pooled requests, starting from
/// `known`. Each request names a schema and says whether the operation
/// chosen for it (by the schemas known at that point) succeeded.
pub open spec fn after_requests(known: Set<Seq<char>>, requests: Seq<(Seq<char>, bool)>) -> Set<Seq<char>>
    decreases requests.len(),
{
    if requests.len() == 0 {
        known
    } else {
        let before = after_requests(known, requests.drop_last());
        let (schema, ok) = requests.last();
        recorded(before, schema, cached_op(before, schema), ok)
    }
}

/// Request `i` of `requests` created its schema: the schema was unknown at
/// that point, so the request ran `SetSchema`, and that succeeded.
pub open spec fn created_by_request(known: Set<Seq<char>>, requests: Seq<(Seq<char>, bool)>, i: int) -> bool {
    let before = after_requests(known, requests.take(i));
    &&& requests[i].1
    &&& cached_op(before, requests[i].0) == SchemaOp::SetSchema
}

/// Law: along any series of pooled requests the known schemas never shrink,
/// and every schema known at the end was known at the start or was created by
/// one of the requests, through a successful `SetSchema`. Starting from an
/// empty set (a new pool), every known schema was created through the pool.
pub proof fn law_known_schemas_were_created(known: Set<Seq<char>>, requests: Seq<(Seq<char>, bool)>)
    ensures
        forall|i: int, j: int|
            0 <= i <= j <= requests.len() ==> #[trigger] after_requests(known, requests.take(i)).subset_of(
                #[trigger] after_requests(known, requests.take(j)),
            ),
        forall|name: Seq<char>|
            #[trigger] after_requests(known, requests).contains(name) ==> known.contains(name) || exists|i: int|
                0 <= i < requests.len() && requests[i].0 == name && #[trigger] created_by_request(known, requests, i),
    decreases requests.len(),
{
    if requests.len() > 0 {
        let prefix = requests.drop_last();
        law_known_schemas_were_created(known, prefix);
        assert forall|i: int| 0 <= i <= prefix.len() implies #[trigger] requests.take(i) == prefix.take(i) by {
            assert(requests.take(i) =~= prefix.take(i));
        }
        assert(requests.take(requests.len() as int) =~= requests);
        assert(prefix.take(prefix.len() as int) =~= prefix);
        assert forall|i: int, j: int|
            0 <= i <= j <= requests.len() implies #[trigger] after_requests(known, requests.take(i)).subset_of(
                #[trigger] after_requests(known, requests.take(j)),
            ) by {
            let plen = prefix.len() as int;
            let whole = after_requests(known, requests);
            let before = after_requests(known, prefix);
            assert(whole == recorded(before, requests.last().0, cached_op(before, requests.last().0), requests.last().1));
            law_known_schemas_only_grow(before, requests.last().0, cached_op(before, requests.last().0), requests.last().1);
            if i <= plen {
                assert(requests.take(i) == prefix.take(i));
                if j <= plen {
                    assert(requests.take(j) == prefix.take(j));
                } else {
                    assert(after_requests(known, prefix.take(i)).subset_of(after_requests(known, prefix.take(plen))));
                }
            }
        }
        assert forall|name: Seq<char>|
            #[trigger] after_requests(known, requests).contains(name) implies known.contains(name) || exists|i: int|
                0 <= i < requests.len() && requests[i].0 == name && #[trigger] created_by_request(known, requests, i) by {
            let before = after_requests(known, prefix);
            if before.contains(name) {
                if !known.contains(name) {
                    let i = choose|i: int|
                        0 <= i < prefix.len() && prefix[i].0 == name && #[trigger] created_by_request(known, prefix, i);
                    assert(requests[i] == prefix[i]);
                    assert(created_by_request(known, requests, i));
                }
            } else {
                let last = requests.len() - 1;
                assert(requests.take(last) =~= prefix);
                assert(created_by_request(known, requests, last));
            }
        }
    }
}

/// Law: whether the schema is known or not, the last statement a pooled
/// request runs switches to the requested schema, named in full.
pub proof fn law_pooled_request_selects_requested_schema(backend: Backend, known: Set<Seq<char>>, schema: Seq<char>)
    ensures
        ({
            let plan = op_plan(backend, cached_op(known, schema), schema);
            let last = plan[plan.len() - 1];
            &&& last == search_path_sql(backend, schema)
            &&& backend is Postgres ==> last.skip(19) == schema
            &&& backend is Mysql ==> last.subrange(5, 5 + schema.len() as int) == schema
        }),
{
    crate::statement::law_search_path_statement_names_schema(backend, schema);
}

/// A set of schema names, each held once.
///
/// The names are kept in a vector whose entries are pairwise distinct.
/// vstd specifies std's `HashSet` only for key types known to obey its key
/// model, and `String` is not proved to be one, so a hashed set would leave
/// `contains` and `insert` without a usable contract; the vector keeps both
/// exact, at the price of a linear lookup. A pool knows few schemas, so the
/// lookup stays cheap.
pub struct SchemaCache {
    known: Vec<String>,
}

impl SchemaCache {
    #[verifier::type_invariant]
    spec fn names_distinct(self) -> bool {
        forall|i: int, j: int|
            0 <= i < j < self.known.len() ==> #[trigger] self.known[i]@ != #[trigger] self.known[j]@
    }
}

impl View for SchemaCache {
    type V = Set<Seq<char>>;

    closed spec fn view(&self) -> Set<Seq<char>> {
        Set::new(|name: Seq<char>| exists|i: int| 0 <= i < self.known.len() && #[trigger] self.known[i]@ == name)
    }
}

impl SchemaCache {
    /// An empty set: no schema is known yet.
    pub fn new() -> (cache: SchemaCache)
        ensures
            cache@ == Set::<Seq<char>>::empty(),
    {
        let cache = SchemaCache { known: Vec::new() };
        assert(cache@ =~= Set::<Seq<char>>::empty());
        cache
    }

    /// Whether `schema` is known.
    pub fn contains(&self, schema: &str) -> (found: bool)
        ensures
            found == self@.contains(schema@),
    {
        let target = schema.to_owned();
        let mut i: usize = 0;
        while i < self.known.len()
            invariant
                i <= self.known.len(),
                target@ == schema@,
                forall|j: int| 0 <= j < i ==> #[trigger] self.known[j]@ != schema@,
            decreases self.known.len() - i,
        {
            if self.known[i] == target {
                assert(self@.contains(schema@)) by {
                    assert(self.known[i as int]@ == schema@);
                }
                return true;
            }
            i = i + 1;
        }
        false
    }

    /// Adds `schema` to the known schemas. Outside this module a schema
    /// becomes known only through [`SchemaCache::record`], after it was
    /// created.
    pub(crate) fn insert(&mut self, schema: &str)
        ensures
            final(self)@ == old(self)@.insert(schema@),
    {
        proof { use_type_invariant(&*self); }
        if !self.contains(schema) {
            let ghost before = self.known@;
            let mut known: Vec<String> = Vec::new();
            std::mem::swap(&mut known, &mut self.known);
            known.push(schema.to_owned());
            assert forall|i: int, j: int| 0 <= i < j < known.len() implies #[trigger] known[i]@ != #[trigger] known[j]@ by {
                if j == before.len() {
                    assert(old(self)@.contains(known[i]@)) by {
                        assert(before[i]@ == known[i]@);
                    }
                }
            }
            self.known = known;
            assert forall|name: Seq<char>| #[trigger] self@.contains(name) == old(self)@.insert(schema@).contains(name) by {
                if old(self)@.contains(name) {
                    let i = choose|i: int| 0 <= i < before.len() && #[trigger] before[i]@ == name;
                    assert(self.known[i]@ == name);
                }
                if self@.contains(name) {
                    let i = choose|i: int| 0 <= i < self.known.len() && #[trigger] self.known[i]@ == name;
                    if i < before.len() {
                        assert(before[i]@ == name);
                    }
                }
                if name == schema@ {
                    assert(self.known[before.len() as int]@ == name);
                }
            }
            assert(self@ =~= old(self)@.insert(schema@));
        } else {
            assert(old(self)@.insert(schema@) =~= old(self)@);
        }
    }

    /// The operation a pooled connection runs to switch to `schema`.
    pub fn op_for(&self, schema: &str) -> (op: SchemaOp)
        ensures
            op == cached_op(self@, schema@),
    {
        if self.contains(schema) {
            SchemaOp::SetSearchPath
        } else {
            SchemaOp::SetSchema
        }
    }

    /// Whether recording an outcome of `op` that succeeded (`ok`) or failed
    /// can change any set of known schemas. When it cannot, a caller that
    /// shares the set between threads need not lock it for writing.
    pub fn changes_cache(op: SchemaOp, ok: bool) -> (res: bool)
        ensures
            res == (ok && op == SchemaOp::SetSchema),
            !res ==> forall|known: Set<Seq<char>>, schema: Seq<char>| #[trigger] recorded(known, schema, op, ok) == known,
    {
        ok && matches!(op, SchemaOp::SetSchema)
    }

    /// Records how `op` ended for `schema`: a successful `SetSchema` makes
    /// the schema known.
    pub fn record<E>(&mut self, schema: &str, op: SchemaOp, outcome: &Result<(), E>)
        ensures
            final(self)@ == recorded(old(self)@, schema@, op, outcome is Ok),
    {
        match (outcome, op) {
            (Ok(_), SchemaOp::SetSchema) => self.insert(schema),
            _ => {},
        }
    }
}

} // verus!
