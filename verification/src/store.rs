//! The per-tenant endpoint table: records keyed by `(tenant, alias)` mapping
//! to an endpoint base URL, with upsert/delete/list operations, lazy seeding
//! of a default endpoint set, and protection of the `default` alias.

use vstd::prelude::*;
use vstd::string::StringExecFns;
use crate::strutil::str_eq;

verus! {

/// One row of the endpoint table.
pub struct EndpointRecord {
    pub tenant: String,
    pub alias: String,
    pub endpoint: String,
}

/// The mathematical content of an `EndpointRecord`.
pub struct SpecRecord {
    pub tenant: Seq<char>,
    pub alias: Seq<char>,
    pub endpoint: Seq<char>,
}

impl View for EndpointRecord {
    type V = SpecRecord;

    open spec fn view(&self) -> SpecRecord {
        SpecRecord { tenant: self.tenant@, alias: self.alias@, endpoint: self.endpoint@ }
    }
}

/// The views of a sequence of records, in order.
pub open spec fn rec_views(s: Seq<EndpointRecord>) -> Seq<SpecRecord> {
    s.map_values(|r: EndpointRecord| r@)
}

/// Some record carries the key `(t, a)`.
pub open spec fn has_key(s: Seq<SpecRecord>, t: Seq<char>, a: Seq<char>) -> bool {
    exists|i: int| 0 <= i < s.len() && s[i].tenant == t && s[i].alias == a
}

/// Some record belongs to tenant `t`.
pub open spec fn has_tenant(s: Seq<SpecRecord>, t: Seq<char>) -> bool {
    exists|i: int| 0 <= i < s.len() && s[i].tenant == t
}

/// No two records share a key: the store's uniqueness invariant.
pub open spec fn wf(s: Seq<SpecRecord>) -> bool {
    forall|i: int, j: int|
        0 <= i < j < s.len() ==> !(s[i].tenant == s[j].tenant && s[i].alias == s[j].alias)
}

/// The endpoint of the first record carrying the key `(t, a)`, scanning from
/// position `i`.
pub open spec fn spec_get_from(s: Seq<SpecRecord>, i: int, t: Seq<char>, a: Seq<char>) -> Option<
    Seq<char>,
>
    decreases s.len() - i,
{
    if i < 0 || i >= s.len() {
        None
    } else if s[i].tenant == t && s[i].alias == a {
        Some(s[i].endpoint)
    } else {
        spec_get_from(s, i + 1, t, a)
    }
}

/// The endpoint stored under the key `(t, a)`, if any.
pub open spec fn spec_get(s: Seq<SpecRecord>, t: Seq<char>, a: Seq<char>) -> Option<Seq<char>> {
    spec_get_from(s, 0, t, a)
}

/// Every record carrying the key `(t, a)` rewritten to hold endpoint `e`.
pub open spec fn spec_replaced(s: Seq<SpecRecord>, t: Seq<char>, a: Seq<char>, e: Seq<char>) -> Seq<
    SpecRecord,
> {
    Seq::new(
        s.len(),
        |i: int|
            if s[i].tenant == t && s[i].alias == a {
                SpecRecord { tenant: t, alias: a, endpoint: e }
            } else {
                s[i]
            },
    )
}

/// Upsert: update the records under the key when the key is present, insert a
/// fresh record otherwise.
pub open spec fn spec_upsert(s: Seq<SpecRecord>, t: Seq<char>, a: Seq<char>, e: Seq<char>) -> Seq<
    SpecRecord,
> {
    if has_key(s, t, a) {
        spec_replaced(s, t, a, e)
    } else {
        s.push(SpecRecord { tenant: t, alias: a, endpoint: e })
    }
}

/// The records that remain after deleting the key `(t, a)`, in order.
pub open spec fn spec_remove_key(s: Seq<SpecRecord>, t: Seq<char>, a: Seq<char>) -> Seq<SpecRecord>
    decreases s.len(),
{
    if s.len() == 0 {
        Seq::empty()
    } else {
        let rest = spec_remove_key(s.drop_last(), t, a);
        if s.last().tenant == t && s.last().alias == a {
            rest
        } else {
            rest.push(s.last())
        }
    }
}

/// The records that remain after deleting a whole tenant, in order.
pub open spec fn spec_remove_tenant(s: Seq<SpecRecord>, t: Seq<char>) -> Seq<SpecRecord>
    decreases s.len(),
{
    if s.len() == 0 {
        Seq::empty()
    } else {
        let rest = spec_remove_tenant(s.drop_last(), t);
        if s.last().tenant == t {
            rest
        } else {
            rest.push(s.last())
        }
    }
}

/// The `(alias, endpoint)` pairs of tenant `t`, in table order.
pub open spec fn spec_tenant_list(s: Seq<SpecRecord>, t: Seq<char>) -> Seq<(Seq<char>, Seq<char>)>
    decreases s.len(),
{
    if s.len() == 0 {
        Seq::empty()
    } else {
        let rest = spec_tenant_list(s.drop_last(), t);
        if s.last().tenant == t {
            rest.push((s.last().alias, s.last().endpoint))
        } else {
            rest
        }
    }
}

/// The default endpoint set a fresh tenant is seeded with: the `default`
/// alias plus one alias per major language edition.
pub open spec fn spec_default_records(t: Seq<char>) -> Seq<SpecRecord> {
    seq![
        SpecRecord { tenant: t, alias: "default"@, endpoint: "https://en.wikipedia.org/w/api.php"@ },
        SpecRecord { tenant: t, alias: "en"@, endpoint: "https://en.wikipedia.org/w/api.php"@ },
        SpecRecord { tenant: t, alias: "de"@, endpoint: "https://de.wikipedia.org/w/api.php"@ },
        SpecRecord { tenant: t, alias: "fr"@, endpoint: "https://fr.wikipedia.org/w/api.php"@ },
        SpecRecord { tenant: t, alias: "ja"@, endpoint: "https://ja.wikipedia.org/w/api.php"@ },
        SpecRecord { tenant: t, alias: "es"@, endpoint: "https://es.wikipedia.org/w/api.php"@ },
        SpecRecord { tenant: t, alias: "ru"@, endpoint: "https://ru.wikipedia.org/w/api.php"@ },
        SpecRecord { tenant: t, alias: "pt"@, endpoint: "https://pt.wikipedia.org/w/api.php"@ },
        SpecRecord { tenant: t, alias: "zh"@, endpoint: "https://zh.wikipedia.org/w/api.php"@ },
        SpecRecord { tenant: t, alias: "it"@, endpoint: "https://it.wikipedia.org/w/api.php"@ },
        SpecRecord { tenant: t, alias: "ar"@, endpoint: "https://ar.wikipedia.org/w/api.php"@ },
    ]
}

/// Seeding: a tenant that already has any record is left untouched; a fresh
/// tenant receives the default endpoint set.
pub open spec fn spec_seed(s: Seq<SpecRecord>, t: Seq<char>) -> Seq<SpecRecord> {
    if has_tenant(s, t) {
        s
    } else {
        s + spec_default_records(t)
    }
}

/// The endpoint table.  Its records model a single relational table keyed by
/// `(tenant, alias)`.
pub struct EndpointStore {
    records: Vec<EndpointRecord>,
}

impl View for EndpointStore {
    type V = Seq<SpecRecord>;

    closed spec fn view(&self) -> Seq<SpecRecord> {
        rec_views(self.records@)
    }
}

impl EndpointStore {
    /// An empty table.
    pub fn new() -> (r: EndpointStore)
        ensures
            r@ =~= Seq::<SpecRecord>::empty(),
    {
        EndpointStore { records: Vec::new() }
    }

    /// How many records the table holds.
    pub fn len(&self) -> (r: usize)
        ensures
            r == self@.len(),
    {
        self.records.len()
    }

    /// The record at a position, for enumeration.
    pub fn record_at(&self, i: usize) -> (r: &EndpointRecord)
        requires
            i < self@.len(),
        ensures
            r@ == self@[i as int],
    {
        &self.records[i]
    }

    /// Whether the key `(tenant, alias)` is present.
    pub fn contains_key(&self, tenant: &str, alias: &str) -> (r: bool)
        ensures
            r == has_key(self@, tenant@, alias@),
    {
        let n = self.records.len();
        let mut i: usize = 0;
        while i < n
            invariant
                n == self.records@.len(),
                i <= n,
                forall|j: int|
                    0 <= j < i ==> !(self@[j].tenant == tenant@ && self@[j].alias == alias@),
            decreases n - i,
        {
            let rec = &self.records[i];
            if str_eq(rec.tenant.as_str(), tenant) && str_eq(rec.alias.as_str(), alias) {
                proof {
                    assert(self@[i as int].tenant == tenant@ && self@[i as int].alias == alias@);
                }
                return true;
            }
            i = i + 1;
        }
        false
    }

    /// Whether the tenant has any record at all.
    pub fn contains_tenant(&self, tenant: &str) -> (r: bool)
        ensures
            r == has_tenant(self@, tenant@),
    {
        let n = self.records.len();
        let mut i: usize = 0;
        while i < n
            invariant
                n == self.records@.len(),
                i <= n,
                forall|j: int| 0 <= j < i ==> self@[j].tenant != tenant@,
            decreases n - i,
        {
            let rec = &self.records[i];
            if str_eq(rec.tenant.as_str(), tenant) {
                proof {
                    assert(self@[i as int].tenant == tenant@);
                }
                return true;
            }
            i = i + 1;
        }
        false
    }

    /// Look the key `(tenant, alias)` up and return its endpoint.
    pub fn get(&self, tenant: &str, alias: &str) -> (r: Option<String>)
        ensures
            match r {
                Some(v) => spec_get(self@, tenant@, alias@) == Some(v@),
                None => spec_get(self@, tenant@, alias@) is None,
            },
    {
        let n = self.records.len();
        let mut i: usize = 0;
        while i < n
            invariant
                n == self.records@.len(),
                i <= n,
                spec_get_from(self@, 0, tenant@, alias@) == spec_get_from(
                    self@,
                    i as int,
                    tenant@,
                    alias@,
                ),
            decreases n - i,
        {
            let rec = &self.records[i];
            if str_eq(rec.tenant.as_str(), tenant) && str_eq(rec.alias.as_str(), alias) {
                return Some(rec.endpoint.clone());
            }
            i = i + 1;
        }
        None
    }

    /// Write `endpoint` under the key `(tenant, alias)`: update the existing
    /// record when the key is present, insert a fresh record otherwise.
    pub fn upsert(&mut self, tenant: &str, alias: &str, endpoint: &str)
        ensures
            final(self)@ == spec_upsert(old(self)@, tenant@, alias@, endpoint@),
    {
        if self.contains_key(tenant, alias) {
            let n = self.records.len();
            let mut out: Vec<EndpointRecord> = Vec::new();
            let mut i: usize = 0;
            while i < n
                invariant
                    n == self.records@.len(),
                    i <= n,
                    rec_views(out@) =~= spec_replaced(self@, tenant@, alias@, endpoint@).subrange(
                        0,
                        i as int,
                    ),
                decreases n - i,
            {
                let rec = &self.records[i];
                let next: EndpointRecord = if str_eq(rec.tenant.as_str(), tenant) && str_eq(
                    rec.alias.as_str(),
                    alias,
                ) {
                    EndpointRecord {
                        tenant: tenant.to_owned(),
                        alias: alias.to_owned(),
                        endpoint: endpoint.to_owned(),
                    }
                } else {
                    EndpointRecord {
                        tenant: rec.tenant.clone(),
                        alias: rec.alias.clone(),
                        endpoint: rec.endpoint.clone(),
                    }
                };
                proof {
                    assert(rec_views(out@.push(next)) =~= rec_views(out@).push(next@));
                    assert(rec_views(out@).push(next@) =~= spec_replaced(
                        self@,
                        tenant@,
                        alias@,
                        endpoint@,
                    ).subrange(0, i + 1));
                }
                out.push(next);
                i = i + 1;
            }
            proof {
                assert(spec_replaced(self@, tenant@, alias@, endpoint@).subrange(0, n as int)
                    =~= spec_replaced(self@, tenant@, alias@, endpoint@));
            }
            self.records = out;
        } else {
            self.records.push(
                EndpointRecord {
                    tenant: tenant.to_owned(),
                    alias: alias.to_owned(),
                    endpoint: endpoint.to_owned(),
                },
            );
            proof {
                assert(rec_views(self.records@) =~= spec_upsert(
                    old(self)@,
                    tenant@,
                    alias@,
                    endpoint@,
                ));
            }
        }
    }

    /// Delete every record under the key `(tenant, alias)`.
    pub fn delete(&mut self, tenant: &str, alias: &str)
        ensures
            final(self)@ == spec_remove_key(old(self)@, tenant@, alias@),
    {
        let n = self.records.len();
        let mut out: Vec<EndpointRecord> = Vec::new();
        let mut i: usize = 0;
        while i < n
            invariant
                n == self.records@.len(),
                i <= n,
                rec_views(out@) =~= spec_remove_key(
                    self@.subrange(0, i as int),
                    tenant@,
                    alias@,
                ),
            decreases n - i,
        {
            let rec = &self.records[i];
            let keep = !(str_eq(rec.tenant.as_str(), tenant) && str_eq(
                rec.alias.as_str(),
                alias,
            ));
            proof {
                assert(self@.subrange(0, i + 1).drop_last() =~= self@.subrange(0, i as int));
                assert(self@.subrange(0, i + 1).last() == self@[i as int]);
            }
            if keep {
                let next = EndpointRecord {
                    tenant: rec.tenant.clone(),
                    alias: rec.alias.clone(),
                    endpoint: rec.endpoint.clone(),
                };
                proof {
                    assert(rec_views(out@.push(next)) =~= rec_views(out@).push(next@));
                }
                out.push(next);
            }
            i = i + 1;
        }
        proof {
            assert(self@.subrange(0, n as int) =~= self@);
        }
        self.records = out;
    }

    /// Delete every record of a tenant.
    pub fn delete_tenant(&mut self, tenant: &str)
        ensures
            final(self)@ == spec_remove_tenant(old(self)@, tenant@),
    {
        let n = self.records.len();
        let mut out: Vec<EndpointRecord> = Vec::new();
        let mut i: usize = 0;
        while i < n
            invariant
                n == self.records@.len(),
                i <= n,
                rec_views(out@) =~= spec_remove_tenant(self@.subrange(0, i as int), tenant@),
            decreases n - i,
        {
            let rec = &self.records[i];
            let keep = !str_eq(rec.tenant.as_str(), tenant);
            proof {
                assert(self@.subrange(0, i + 1).drop_last() =~= self@.subrange(0, i as int));
                assert(self@.subrange(0, i + 1).last() == self@[i as int]);
            }
            if keep {
                let next = EndpointRecord {
                    tenant: rec.tenant.clone(),
                    alias: rec.alias.clone(),
                    endpoint: rec.endpoint.clone(),
                };
                proof {
                    assert(rec_views(out@.push(next)) =~= rec_views(out@).push(next@));
                }
                out.push(next);
            }
            i = i + 1;
        }
        proof {
            assert(self@.subrange(0, n as int) =~= self@);
        }
        self.records = out;
    }

    /// The `(alias, endpoint)` pairs of a tenant, in table order.
    pub fn list_by_tenant(&self, tenant: &str) -> (r: Vec<(String, String)>)
        ensures
            pair_views(r@) == spec_tenant_list(self@, tenant@),
    {
        let n = self.records.len();
        let mut out: Vec<(String, String)> = Vec::new();
        let mut i: usize = 0;
        proof {
            assert(pair_views(out@) =~= spec_tenant_list(self@.subrange(0, 0), tenant@));
        }
        while i < n
            invariant
                n == self.records@.len(),
                i <= n,
                pair_views(out@) =~= spec_tenant_list(self@.subrange(0, i as int), tenant@),
            decreases n - i,
        {
            let rec = &self.records[i];
            let take = str_eq(rec.tenant.as_str(), tenant);
            proof {
                assert(self@.subrange(0, i + 1).drop_last() =~= self@.subrange(0, i as int));
                assert(self@.subrange(0, i + 1).last() == self@[i as int]);
            }
            if take {
                let next = (rec.alias.clone(), rec.endpoint.clone());
                proof {
                    assert(pair_views(out@.push(next)) =~= pair_views(out@).push(
                        (next.0@, next.1@),
                    ));
                }
                out.push(next);
            }
            i = i + 1;
        }
        proof {
            assert(self@.subrange(0, n as int) =~= self@);
        }
        out
    }

    /// Seed the default endpoint set for a tenant on first contact; a tenant
    /// that already has any record is left untouched.
    pub fn seed_defaults(&mut self, tenant: &str)
        ensures
            final(self)@ == spec_seed(old(self)@, tenant@),
    {
        if self.contains_tenant(tenant) {
            return ;
        }
        self.push_default(tenant, "default", "https://en.wikipedia.org/w/api.php");
        self.push_default(tenant, "en", "https://en.wikipedia.org/w/api.php");
        self.push_default(tenant, "de", "https://de.wikipedia.org/w/api.php");
        self.push_default(tenant, "fr", "https://fr.wikipedia.org/w/api.php");
        self.push_default(tenant, "ja", "https://ja.wikipedia.org/w/api.php");
        self.push_default(tenant, "es", "https://es.wikipedia.org/w/api.php");
        self.push_default(tenant, "ru", "https://ru.wikipedia.org/w/api.php");
        self.push_default(tenant, "pt", "https://pt.wikipedia.org/w/api.php");
        self.push_default(tenant, "zh", "https://zh.wikipedia.org/w/api.php");
        self.push_default(tenant, "it", "https://it.wikipedia.org/w/api.php");
        self.push_default(tenant, "ar", "https://ar.wikipedia.org/w/api.php");
        proof {
            assert(self@ =~= old(self)@ + spec_default_records(tenant@));
        }
    }

    /// Append one record.
    fn push_default(&mut self, tenant: &str, alias: &str, endpoint: &str)
        ensures
            final(self)@ == old(self)@.push(
                SpecRecord { tenant: tenant@, alias: alias@, endpoint: endpoint@ },
            ),
    {
        self.records.push(
            EndpointRecord {
                tenant: tenant.to_owned(),
                alias: alias.to_owned(),
                endpoint: endpoint.to_owned(),
            },
        );
        proof {
            assert(rec_views(self.records@) =~= rec_views(old(self).records@).push(
                SpecRecord { tenant: tenant@, alias: alias@, endpoint: endpoint@ },
            ));
        }
    }
}

/// The views of a sequence of string pairs, in order.
pub open spec fn pair_views(s: Seq<(String, String)>) -> Seq<(Seq<char>, Seq<char>)> {
    s.map_values(|p: (String, String)| (p.0@, p.1@))
}

/// One listing line per `(alias, endpoint)` pair, each preceded by a line
/// break: `alias | endpoint`.
pub open spec fn spec_lines(l: Seq<(Seq<char>, Seq<char>)>) -> Seq<char>
    decreases l.len(),
{
    if l.len() == 0 {
        Seq::empty()
    } else {
        spec_lines(l.drop_last()) + "\n"@ + l.last().0 + " | "@ + l.last().1
    }
}

/// The listing of a tenant's endpoints as rendered for operators: the
/// tenant's lines inside a fenced block.
pub open spec fn spec_all_endpoints(s: Seq<SpecRecord>, t: Seq<char>) -> Seq<char> {
    "```"@ + spec_lines(spec_tenant_list(s, t)) + "\n```"@
}

/// Write an endpoint under an alias for a tenant and describe the change.
pub fn set_endpoint(store: &mut EndpointStore, alias: &str, endpoint: &str, tenant: &str) -> (r:
    String)
    ensures
        final(store)@ == spec_upsert(old(store)@, tenant@, alias@, endpoint@),
        r@ == "Set alias "@ + alias@ + " as endpoint "@ + endpoint@,
{
    store.upsert(tenant, alias, endpoint);
    let mut r = "Set alias ".to_owned();
    r.append(alias);
    r.append(" as endpoint ");
    r.append(endpoint);
    proof {
        assert(r@ =~= "Set alias "@ + alias@ + " as endpoint "@ + endpoint@);
    }
    r
}

/// Delete an alias for a tenant and describe the change.  The `default`
/// alias is protected: asking to delete it changes nothing.
pub fn delete_endpoint(store: &mut EndpointStore, alias: &str, tenant: &str) -> (r: String)
    ensures
        alias@ == "default"@ ==> final(store)@ == old(store)@ && r@
            == "Can't delete the default endpoint"@,
        alias@ != "default"@ ==> final(store)@ == spec_remove_key(old(store)@, tenant@, alias@)
            && r@ == "Deleted alias "@ + alias@,
{
    if !str_eq(alias, "default") {
        store.delete(tenant, alias);
        let mut r = "Deleted alias ".to_owned();
        r.append(alias);
        proof {
            assert(r@ =~= "Deleted alias "@ + alias@);
        }
        r
    } else {
        "Can't delete the default endpoint".to_owned()
    }
}

/// Render every endpoint of a tenant, one line per alias, inside a fenced
/// block.
pub fn all_endpoints(store: &EndpointStore, tenant: &str) -> (r: String)
    ensures
        r@ == spec_all_endpoints(store@, tenant@),
{
    let list = store.list_by_tenant(tenant);
    let n = list.len();
    let mut out = "```".to_owned();
    let mut i: usize = 0;
    proof {
        assert(pair_views(list@).subrange(0, 0) =~= Seq::<(Seq<char>, Seq<char>)>::empty());
        assert(out@ =~= "```"@ + spec_lines(pair_views(list@).subrange(0, 0)));
    }
    while i < n
        invariant
            n == list@.len(),
            i <= n,
            pair_views(list@) == spec_tenant_list(store@, tenant@),
            out@ == "```"@ + spec_lines(pair_views(list@).subrange(0, i as int)),
        decreases n - i,
    {
        out.append("\n");
        let p = &list[i];
        out.append(p.0.as_str());
        out.append(" | ");
        out.append(p.1.as_str());
        proof {
            let pv = pair_views(list@);
            assert(pv.subrange(0, i + 1).drop_last() =~= pv.subrange(0, i as int));
            assert(pv.subrange(0, i + 1).last() == pv[i as int]);
            assert(pv[i as int] == (list@[i as int].0@, list@[i as int].1@));
            assert(out@ =~= "```"@ + spec_lines(pv.subrange(0, i + 1)));
        }
        i = i + 1;
    }
    proof {
        assert(pair_views(list@).subrange(0, n as int) =~= pair_views(list@));
    }
    out.append("\n```");
    proof {
        assert(out@ =~= spec_all_endpoints(store@, tenant@));
    }
    out
}

proof fn lemma_get_replaced_from(
    s: Seq<SpecRecord>,
    t: Seq<char>,
    a: Seq<char>,
    e: Seq<char>,
    i: int,
)
    requires
        0 <= i <= s.len(),
        exists|j: int| i <= j < s.len() && s[j].tenant == t && s[j].alias == a,
    ensures
        spec_get_from(spec_replaced(s, t, a, e), i, t, a) == Some(e),
    decreases s.len() - i,
{
    let r = spec_replaced(s, t, a, e);
    if s[i].tenant == t && s[i].alias == a {
        assert(r[i] == SpecRecord { tenant: t, alias: a, endpoint: e });
    } else {
        let j = choose|j: int| i <= j < s.len() && s[j].tenant == t && s[j].alias == a;
        assert(i + 1 <= j < s.len() && s[j].tenant == t && s[j].alias == a);
        lemma_get_replaced_from(s, t, a, e, i + 1);
    }
}

proof fn lemma_get_pushed_from(
    s: Seq<SpecRecord>,
    t: Seq<char>,
    a: Seq<char>,
    e: Seq<char>,
    i: int,
)
    requires
        0 <= i <= s.len(),
        forall|j: int| i <= j < s.len() ==> !(s[j].tenant == t && s[j].alias == a),
    ensures
        spec_get_from(s.push(SpecRecord { tenant: t, alias: a, endpoint: e }), i, t, a) == Some(
            e,
        ),
    decreases s.len() - i,
{
    let r = s.push(SpecRecord { tenant: t, alias: a, endpoint: e });
    if i == s.len() {
        assert(r[i] == SpecRecord { tenant: t, alias: a, endpoint: e });
    } else {
        assert(r[i] == s[i]);
        lemma_get_pushed_from(s, t, a, e, i + 1);
    }
}

/// Law: an upsert followed by a lookup of the same key yields exactly the
/// endpoint written, whatever the table held before.
pub proof fn lemma_upsert_then_get(s: Seq<SpecRecord>, t: Seq<char>, a: Seq<char>, e: Seq<char>)
    ensures
        spec_get(spec_upsert(s, t, a, e), t, a) == Some(e),
{
    if has_key(s, t, a) {
        lemma_get_replaced_from(s, t, a, e, 0);
    } else {
        lemma_get_pushed_from(s, t, a, e, 0);
    }
}

/// Law: an upsert leaves every other key's lookup unchanged.
pub proof fn lemma_upsert_other_keys(
    s: Seq<SpecRecord>,
    t: Seq<char>,
    a: Seq<char>,
    e: Seq<char>,
    t2: Seq<char>,
    a2: Seq<char>,
)
    requires
        !(t2 == t && a2 == a),
    ensures
        spec_get(spec_upsert(s, t, a, e), t2, a2) == spec_get(s, t2, a2),
{
    lemma_upsert_other_keys_from(s, t, a, e, t2, a2, 0);
}

proof fn lemma_upsert_other_keys_from(
    s: Seq<SpecRecord>,
    t: Seq<char>,
    a: Seq<char>,
    e: Seq<char>,
    t2: Seq<char>,
    a2: Seq<char>,
    i: int,
)
    requires
        !(t2 == t && a2 == a),
        0 <= i <= s.len(),
    ensures
        spec_get_from(spec_upsert(s, t, a, e), i, t2, a2) == spec_get_from(s, i, t2, a2),
    decreases s.len() - i,
{
    if i < s.len() {
        lemma_upsert_other_keys_from(s, t, a, e, t2, a2, i + 1);
    } else {
        if !has_key(s, t, a) {
            let r = s.push(SpecRecord { tenant: t, alias: a, endpoint: e });
            assert(r[i] == SpecRecord { tenant: t, alias: a, endpoint: e });
            assert(spec_get_from(r, i + 1, t2, a2) is None);
            assert(spec_get_from(r, i, t2, a2) is None);
        }
    }
}

/// Law: seeding is idempotent — a second seeding of the same tenant changes
/// nothing, because the first left the tenant populated.
pub proof fn lemma_seed_idempotent(s: Seq<SpecRecord>, t: Seq<char>)
    ensures
        spec_seed(spec_seed(s, t), t) == spec_seed(s, t),
{
    if !has_tenant(s, t) {
        let r = spec_seed(s, t);
        assert(r[s.len() as int].tenant == t);
        assert(has_tenant(r, t));
    }
}

/// The default record set: one record per alias, each belonging to the
/// seeded tenant, with no alias repeated.
proof fn lemma_defaults_distinct(t: Seq<char>)
    ensures
        forall|k: int|
            0 <= k < spec_default_records(t).len() ==> (#[trigger] spec_default_records(
                t,
            )[k]).tenant == t,
        forall|k1: int, k2: int|
            0 <= k1 < k2 < spec_default_records(t).len() ==> (#[trigger] spec_default_records(
                t,
            )[k1]).alias != (#[trigger] spec_default_records(t)[k2]).alias,
{
    reveal_strlit("default");
    reveal_strlit("en");
    reveal_strlit("de");
    reveal_strlit("fr");
    reveal_strlit("ja");
    reveal_strlit("es");
    reveal_strlit("ru");
    reveal_strlit("pt");
    reveal_strlit("zh");
    reveal_strlit("it");
    reveal_strlit("ar");
    let d = spec_default_records(t);
    assert(d[0].tenant == t && d[0].alias == "default"@);
    assert(d[1].tenant == t && d[1].alias == "en"@);
    assert(d[2].tenant == t && d[2].alias == "de"@);
    assert(d[3].tenant == t && d[3].alias == "fr"@);
    assert(d[4].tenant == t && d[4].alias == "ja"@);
    assert(d[5].tenant == t && d[5].alias == "es"@);
    assert(d[6].tenant == t && d[6].alias == "ru"@);
    assert(d[7].tenant == t && d[7].alias == "pt"@);
    assert(d[8].tenant == t && d[8].alias == "zh"@);
    assert(d[9].tenant == t && d[9].alias == "it"@);
    assert(d[10].tenant == t && d[10].alias == "ar"@);
    assert(("default"@)[0] == 'd');
    assert(("default"@)[1] == 'e');
    assert(("en"@)[0] == 'e');
    assert(("en"@)[1] == 'n');
    assert(("de"@)[0] == 'd');
    assert(("de"@)[1] == 'e');
    assert(("fr"@)[0] == 'f');
    assert(("fr"@)[1] == 'r');
    assert(("ja"@)[0] == 'j');
    assert(("ja"@)[1] == 'a');
    assert(("es"@)[0] == 'e');
    assert(("es"@)[1] == 's');
    assert(("ru"@)[0] == 'r');
    assert(("ru"@)[1] == 'u');
    assert(("pt"@)[0] == 'p');
    assert(("pt"@)[1] == 't');
    assert(("zh"@)[0] == 'z');
    assert(("zh"@)[1] == 'h');
    assert(("it"@)[0] == 'i');
    assert(("it"@)[1] == 't');
    assert(("ar"@)[0] == 'a');
    assert(("ar"@)[1] == 'r');
    assert(d[0].alias != d[1].alias);
    assert(d[0].alias != d[2].alias);
    assert(d[0].alias != d[3].alias);
    assert(d[0].alias != d[4].alias);
    assert(d[0].alias != d[5].alias);
    assert(d[0].alias != d[6].alias);
    assert(d[0].alias != d[7].alias);
    assert(d[0].alias != d[8].alias);
    assert(d[0].alias != d[9].alias);
    assert(d[0].alias != d[10].alias);
    assert(d[1].alias != d[2].alias);
    assert(d[1].alias != d[3].alias);
    assert(d[1].alias != d[4].alias);
    assert(d[1].alias != d[5].alias);
    assert(d[1].alias != d[6].alias);
    assert(d[1].alias != d[7].alias);
    assert(d[1].alias != d[8].alias);
    assert(d[1].alias != d[9].alias);
    assert(d[1].alias != d[10].alias);
    assert(d[2].alias != d[3].alias);
    assert(d[2].alias != d[4].alias);
    assert(d[2].alias != d[5].alias);
    assert(d[2].alias != d[6].alias);
    assert(d[2].alias != d[7].alias);
    assert(d[2].alias != d[8].alias);
    assert(d[2].alias != d[9].alias);
    assert(d[2].alias != d[10].alias);
    assert(d[3].alias != d[4].alias);
    assert(d[3].alias != d[5].alias);
    assert(d[3].alias != d[6].alias);
    assert(d[3].alias != d[7].alias);
    assert(d[3].alias != d[8].alias);
    assert(d[3].alias != d[9].alias);
    assert(d[3].alias != d[10].alias);
    assert(d[4].alias != d[5].alias);
    assert(d[4].alias != d[6].alias);
    assert(d[4].alias != d[7].alias);
    assert(d[4].alias != d[8].alias);
    assert(d[4].alias != d[9].alias);
    assert(d[4].alias != d[10].alias);
    assert(d[5].alias != d[6].alias);
    assert(d[5].alias != d[7].alias);
    assert(d[5].alias != d[8].alias);
    assert(d[5].alias != d[9].alias);
    assert(d[5].alias != d[10].alias);
    assert(d[6].alias != d[7].alias);
    assert(d[6].alias != d[8].alias);
    assert(d[6].alias != d[9].alias);
    assert(d[6].alias != d[10].alias);
    assert(d[7].alias != d[8].alias);
    assert(d[7].alias != d[9].alias);
    assert(d[7].alias != d[10].alias);
    assert(d[8].alias != d[9].alias);
    assert(d[8].alias != d[10].alias);
    assert(d[9].alias != d[10].alias);
}

/// Law: seeding keeps keys unique, so a freshly seeded tenant holds exactly
/// one record per default alias.
pub proof fn lemma_seed_wf(s: Seq<SpecRecord>, t: Seq<char>)
    requires
        wf(s),
    ensures
        wf(spec_seed(s, t)),
{
    if !has_tenant(s, t) {
        let d = spec_default_records(t);
        let r = s + d;
        lemma_defaults_distinct(t);
        assert forall|i: int, j: int| 0 <= i < j < r.len() implies !(r[i].tenant == r[j].tenant
            && r[i].alias == r[j].alias) by {
            if j < s.len() {
            } else if i < s.len() {
                assert(r[j] == d[j - s.len()]);
                assert(r[j].tenant == t);
                assert(r[i] == s[i]);
                if r[i].tenant == t {
                    assert(has_tenant(s, t));
                }
            } else {
                assert(r[i] == d[i - s.len()]);
                assert(r[j] == d[j - s.len()]);
                assert(d[i - s.len()].alias != d[j - s.len()].alias);
            }
        }
    }
}

/// Law: an upsert keeps keys unique.
pub proof fn lemma_upsert_wf(s: Seq<SpecRecord>, t: Seq<char>, a: Seq<char>, e: Seq<char>)
    requires
        wf(s),
    ensures
        wf(spec_upsert(s, t, a, e)),
{
    if has_key(s, t, a) {
        let r = spec_replaced(s, t, a, e);
        assert forall|i: int| 0 <= i < s.len() implies r[i].tenant == s[i].tenant && r[i].alias
            == s[i].alias by {}
    }
}

/// Law: deleting a key keeps keys unique, and introduces no key that the
/// table did not already hold.
pub proof fn lemma_remove_key_wf(s: Seq<SpecRecord>, t: Seq<char>, a: Seq<char>)
    requires
        wf(s),
    ensures
        wf(spec_remove_key(s, t, a)),
        forall|t2: Seq<char>, a2: Seq<char>|
            has_key(spec_remove_key(s, t, a), t2, a2) ==> has_key(s, t2, a2),
    decreases s.len(),
{
    if s.len() > 0 {
        let prefix = s.drop_last();
        assert(wf(prefix));
        lemma_remove_key_wf(prefix, t, a);
        let rest = spec_remove_key(prefix, t, a);
        let r = spec_remove_key(s, t, a);
        assert forall|t2: Seq<char>, a2: Seq<char>| has_key(prefix, t2, a2) implies has_key(
            s,
            t2,
            a2,
        ) by {
            let j = choose|j: int|
                0 <= j < prefix.len() && prefix[j].tenant == t2 && prefix[j].alias == a2;
            assert(s[j].tenant == t2 && s[j].alias == a2);
        }
        if !(s.last().tenant == t && s.last().alias == a) {
            assert(r == rest.push(s.last()));
            if has_key(rest, s.last().tenant, s.last().alias) {
                assert(has_key(prefix, s.last().tenant, s.last().alias));
                let j = choose|j: int|
                    0 <= j < prefix.len() && prefix[j].tenant == s.last().tenant
                        && prefix[j].alias == s.last().alias;
                assert(s[j].tenant == s.last().tenant && s[j].alias == s.last().alias);
                assert(false);
            }
            assert forall|i: int, j: int| 0 <= i < j < r.len() implies !(r[i].tenant
                == r[j].tenant && r[i].alias == r[j].alias) by {
                if j < rest.len() {
                } else {
                    assert(r[j] == s.last());
                    if r[i].tenant == s.last().tenant && r[i].alias == s.last().alias {
                        assert(has_key(rest, s.last().tenant, s.last().alias));
                    }
                }
            }
            assert forall|t2: Seq<char>, a2: Seq<char>| has_key(r, t2, a2) implies has_key(
                s,
                t2,
                a2,
            ) by {
                let j = choose|j: int| 0 <= j < r.len() && r[j].tenant == t2 && r[j].alias == a2;
                if j < rest.len() {
                    assert(has_key(rest, t2, a2));
                } else {
                    assert(r[j] == s.last());
                    assert(s[s.len() - 1].tenant == t2 && s[s.len() - 1].alias == a2);
                }
            }
        } else {
            assert forall|t2: Seq<char>, a2: Seq<char>| has_key(r, t2, a2) implies has_key(
                s,
                t2,
                a2,
            ) by {
                assert(has_key(rest, t2, a2));
            }
        }
    }
}

/// Law: deleting a tenant keeps keys unique, and introduces no key that the
/// table did not already hold.
pub proof fn lemma_remove_tenant_wf(s: Seq<SpecRecord>, t: Seq<char>)
    requires
        wf(s),
    ensures
        wf(spec_remove_tenant(s, t)),
        forall|t2: Seq<char>, a2: Seq<char>|
            has_key(spec_remove_tenant(s, t), t2, a2) ==> has_key(s, t2, a2),
    decreases s.len(),
{
    if s.len() > 0 {
        let prefix = s.drop_last();
        assert(wf(prefix));
        lemma_remove_tenant_wf(prefix, t);
        let rest = spec_remove_tenant(prefix, t);
        let r = spec_remove_tenant(s, t);
        assert forall|t2: Seq<char>, a2: Seq<char>| has_key(prefix, t2, a2) implies has_key(
            s,
            t2,
            a2,
        ) by {
            let j = choose|j: int|
                0 <= j < prefix.len() && prefix[j].tenant == t2 && prefix[j].alias == a2;
            assert(s[j].tenant == t2 && s[j].alias == a2);
        }
        if s.last().tenant != t {
            assert(r == rest.push(s.last()));
            if has_key(rest, s.last().tenant, s.last().alias) {
                assert(has_key(prefix, s.last().tenant, s.last().alias));
                let j = choose|j: int|
                    0 <= j < prefix.len() && prefix[j].tenant == s.last().tenant
                        && prefix[j].alias == s.last().alias;
                assert(s[j].tenant == s.last().tenant && s[j].alias == s.last().alias);
                assert(false);
            }
            assert forall|i: int, j: int| 0 <= i < j < r.len() implies !(r[i].tenant
                == r[j].tenant && r[i].alias == r[j].alias) by {
                if j < rest.len() {
                } else {
                    assert(r[j] == s.last());
                    if r[i].tenant == s.last().tenant && r[i].alias == s.last().alias {
                        assert(has_key(rest, s.last().tenant, s.last().alias));
                    }
                }
            }
            assert forall|t2: Seq<char>, a2: Seq<char>| has_key(r, t2, a2) implies has_key(
                s,
                t2,
                a2,
            ) by {
                let j = choose|j: int| 0 <= j < r.len() && r[j].tenant == t2 && r[j].alias == a2;
                if j < rest.len() {
                    assert(has_key(rest, t2, a2));
                } else {
                    assert(r[j] == s.last());
                    assert(s[s.len() - 1].tenant == t2 && s[s.len() - 1].alias == a2);
                }
            }
        } else {
            assert forall|t2: Seq<char>, a2: Seq<char>| has_key(r, t2, a2) implies has_key(
                s,
                t2,
                a2,
            ) by {
                assert(has_key(rest, t2, a2));
            }
        }
    }
}

} // verus!
