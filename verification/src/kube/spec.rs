//! The environment reconciler and the resource limit updater.
//!
//! Extraction turns the pod template's containers into an editable list of
//! [`ContainerEnv`] values; merge-back re-applies an edited list onto the
//! template, keeping untouched entries and appending net-new literal ones.
//! The resource updater upserts the cpu and memory limits of one named
//! container. Contracts are stated over the spec-level mirror
//! [`ContainerEnvModel`] and the association-list theory of [`crate::strmap`].

use vstd::prelude::*;
use crate::error::Error;
use crate::kube::model::{Container, EnvVar, EnvVarSource, JobSpec, PodSpec, ResourceRequirements};
use crate::strmap::{
    StrMap, chars_le, lookup, remove_key, str_le, upsert, lemma_lookup_none_absent,
    lemma_lookup_upsert_other, lemma_lookup_upsert_same, lemma_upsert_absent,
};

verus! {

/// The editable value of one environment variable: either a literal string,
/// or an opaque external reference that is never rendered for editing.
#[derive(Debug, PartialEq)]
pub enum EnvKind {
    Literal(String),
    ConfigMap(Box<EnvVarSource>),
}

/// The editable environment of one container: the container's name (the
/// join key on merge-back) and its variables.
#[derive(Debug)]
pub struct ContainerEnv {
    pub name: String,
    pub envs: StrMap<EnvKind>,
}

/// The spec-level mirror of a [`ContainerEnv`]: the same name, and the
/// variable map as its entry sequence.
pub ghost struct ContainerEnvModel {
    pub name: String,
    pub envs: Seq<(String, EnvKind)>,
}

impl ContainerEnv {
    /// The spec-level mirror of this value.
    pub open spec fn model(self) -> ContainerEnvModel {
        ContainerEnvModel { name: self.name, envs: self.envs.entries_seq() }
    }
}

impl EnvKind {
    /// An equal copy.
    pub fn duplicate(&self) -> (r: Self)
        ensures
            r == *self,
    {
        match self {
            EnvKind::Literal(v) => EnvKind::Literal(v.clone()),
            EnvKind::ConfigMap(b) => EnvKind::ConfigMap(Box::new(b.duplicate())),
        }
    }
}

/// The spec-level mirrors of a whole extraction result.
pub open spec fn models_of(s: Seq<ContainerEnv>) -> Seq<ContainerEnvModel>
    decreases s.len(),
{
    if s.len() == 0 {
        Seq::empty()
    } else {
        models_of(s.drop_last()).push(s.last().model())
    }
}

pub proof fn lemma_models_of(s: Seq<ContainerEnv>)
    ensures
        models_of(s).len() == s.len(),
        forall|i: int| 0 <= i < s.len() ==> models_of(s)[i] == s[i].model(),
    decreases s.len(),
{
    if s.len() > 0 {
        lemma_models_of(s.drop_last());
    }
}

/// How one declared entry is classified on extraction: a present literal
/// value wins over a reference; an entry with neither is dropped.
pub open spec fn kind_of(e: EnvVar) -> Option<EnvKind> {
    if e.value is Some {
        Some(EnvKind::Literal(e.value->0))
    } else if e.value_from is Some {
        Some(EnvKind::ConfigMap(Box::new(e.value_from->0)))
    } else {
        None
    }
}

/// The variable map extracted from one container's entry list, built
/// front to back so that a repeated name keeps its last value.
pub open spec fn env_map_of(es: Seq<EnvVar>) -> Seq<(String, EnvKind)>
    decreases es.len(),
{
    if es.len() == 0 {
        Seq::empty()
    } else {
        let prefix = env_map_of(es.drop_last());
        match kind_of(es.last()) {
            Some(k) => upsert(prefix, es.last().name, k),
            None => prefix,
        }
    }
}

/// The extraction result for a container list: one model per container that
/// declares an environment block, in template order.
pub open spec fn extract_model(cs: Seq<Container>) -> Seq<ContainerEnvModel>
    decreases cs.len(),
{
    if cs.len() == 0 {
        Seq::empty()
    } else {
        let prefix = extract_model(cs.drop_last());
        let c = cs.last();
        if c.env is Some {
            prefix.push(ContainerEnvModel { name: c.name, envs: env_map_of(c.env->0@) })
        } else {
            prefix
        }
    }
}

/// Overwrites the literal value or the external reference of an existing
/// entry in place; the entry's other parts stay.
pub open spec fn apply_kind(e: EnvVar, k: EnvKind) -> EnvVar {
    match k {
        EnvKind::Literal(v) => EnvVar { value: Some(v), ..e },
        EnvKind::ConfigMap(b) => EnvVar { value_from: Some(*b), ..e },
    }
}

/// Walks the declared entries front to back; each entry found in the map is
/// overwritten and its key consumed. Yields the rewritten entry list and
/// the map of unconsumed keys.
pub open spec fn apply_env_state(es: Seq<EnvVar>, m: Seq<(String, EnvKind)>) -> (Seq<EnvVar>, Seq<
    (String, EnvKind),
>)
    decreases es.len(),
{
    if es.len() == 0 {
        (Seq::empty(), m)
    } else {
        let (prefix, m1) = apply_env_state(es.drop_last(), m);
        let e = es.last();
        match lookup(m1, e.name@) {
            Some(k) => (prefix.push(apply_kind(e, k)), remove_key(m1, e.name@)),
            None => (prefix.push(e), m1),
        }
    }
}

/// Places an entry before the first entry whose key is no smaller.
pub open spec fn insert_sorted(
    x: (String, EnvKind),
    s: Seq<(String, EnvKind)>,
) -> Seq<(String, EnvKind)>
    decreases s.len(),
{
    if s.len() == 0 {
        seq![x]
    } else if chars_le(x.0@, s[0].0@) {
        seq![x] + s
    } else {
        seq![s[0]] + insert_sorted(x, s.drop_first())
    }
}

/// The entries rearranged into ascending key order, as an ordered map
/// would hold them.
pub open spec fn sort_entries(m: Seq<(String, EnvKind)>) -> Seq<(String, EnvKind)>
    decreases m.len(),
{
    if m.len() == 0 {
        m
    } else {
        insert_sorted(m.last(), sort_entries(m.drop_last()))
    }
}

/// One appended entry per literal key of the given entries, in their
/// order; external references are skipped, since a reference cannot be
/// fabricated.
pub open spec fn literal_entries(m: Seq<(String, EnvKind)>) -> Seq<EnvVar>
    decreases m.len(),
{
    if m.len() == 0 {
        Seq::empty()
    } else {
        let prefix = literal_entries(m.drop_last());
        match m.last().1 {
            EnvKind::Literal(v) => prefix.push(
                EnvVar { name: m.last().0, value: Some(v), value_from: None },
            ),
            EnvKind::ConfigMap(_) => prefix,
        }
    }
}

/// The net-new entries appended after merge-back: one literal entry per
/// unconsumed literal key, in ascending key order.
pub open spec fn leftover_literals(m: Seq<(String, EnvKind)>) -> Seq<EnvVar> {
    literal_entries(sort_entries(m))
}

pub proof fn lemma_insert_sorted_at(x: (String, EnvKind), s: Seq<(String, EnvKind)>, p: int)
    requires
        0 <= p <= s.len(),
        forall|t: int| 0 <= t < p ==> !chars_le(x.0@, #[trigger] s[t].0@),
        p < s.len() ==> chars_le(x.0@, s[p].0@),
    ensures
        insert_sorted(x, s) == s.insert(p, x),
    decreases p,
{
    if p == 0 {
        if s.len() == 0 {
            assert(insert_sorted(x, s) =~= s.insert(0, x));
        } else {
            assert(insert_sorted(x, s) =~= s.insert(0, x));
        }
    } else {
        assert(!chars_le(x.0@, s[0].0@));
        assert forall|t: int| 0 <= t < p - 1 implies !chars_le(
            x.0@,
            #[trigger] s.drop_first()[t].0@,
        ) by {
            assert(s.drop_first()[t] == s[t + 1]);
        }
        if p < s.len() {
            assert(s.drop_first()[p - 1] == s[p]);
        }
        lemma_insert_sorted_at(x, s.drop_first(), p - 1);
        assert(s.drop_first().insert(p - 1, x) =~= s.insert(p, x).drop_first());
        assert(insert_sorted(x, s) =~= s.insert(p, x));
    }
}

/// The merged entry list of one container: the rewritten declared entries
/// followed by the net-new literal ones.
pub open spec fn merged_env(es: Seq<EnvVar>, m: Seq<(String, EnvKind)>) -> Seq<EnvVar> {
    apply_env_state(es, m).0 + leftover_literals(apply_env_state(es, m).1)
}

/// Containers and edited models line up: position `i` of the edited list
/// carries the name of container `i`.
pub open spec fn env_names_match(cs: Seq<Container>, ms: Seq<ContainerEnvModel>) -> bool {
    cs.len() <= ms.len() && forall|i: int|
        #![trigger ms[i]]
        0 <= i < cs.len() ==> ms[i].name@ == cs[i].name@
}

/// The first position at which the edited list drifts from the containers.
pub open spec fn first_mismatch(cs: Seq<Container>, ms: Seq<ContainerEnvModel>) -> int
    decreases cs.len(),
{
    if cs.len() == 0 {
        0
    } else if ms.len() == 0 || ms[0].name@ != cs[0].name@ {
        0
    } else {
        1 + first_mismatch(cs.drop_first(), ms.drop_first())
    }
}

pub proof fn lemma_first_mismatch_at(cs: Seq<Container>, ms: Seq<ContainerEnvModel>, i: int)
    requires
        0 <= i < cs.len(),
        i <= ms.len(),
        forall|j: int| #![trigger ms[j]] 0 <= j < i ==> ms[j].name@ == cs[j].name@,
        i >= ms.len() || ms[i].name@ != cs[i].name@,
    ensures
        first_mismatch(cs, ms) == i,
        !env_names_match(cs, ms),
    decreases i,
{
    if i < ms.len() {
        assert(ms[i].name@ != cs[i].name@);
        assert(!env_names_match(cs, ms));
    } else {
        assert(cs.len() > ms.len());
        assert(!env_names_match(cs, ms));
    }
    if i > 0 {
        assert(ms[0].name@ == cs[0].name@);
        assert(forall|j: int|
            #![trigger ms.drop_first()[j]]
            0 <= j < i - 1 ==> ms.drop_first()[j].name@ == cs.drop_first()[j].name@) by {
            assert(forall|j: int|
                0 <= j < i - 1 ==> #[trigger] ms.drop_first()[j] == ms[j + 1]);
        }
        if i < ms.len() {
            assert(ms.drop_first()[i - 1] == ms[i]);
            assert(cs.drop_first()[i - 1] == cs[i]);
        }
        lemma_first_mismatch_at(cs.drop_first(), ms.drop_first(), i - 1);
    }
}

/// When every container position carries the matching name, the whole edited
/// list lines up.
pub proof fn lemma_names_match(cs: Seq<Container>, ms: Seq<ContainerEnvModel>)
    requires
        cs.len() <= ms.len(),
        forall|j: int| #![trigger ms[j]] 0 <= j < cs.len() ==> ms[j].name@ == cs[j].name@,
    ensures
        env_names_match(cs, ms),
{
}

pub proof fn lemma_apply_env_state_len(es: Seq<EnvVar>, m: Seq<(String, EnvKind)>)
    ensures
        apply_env_state(es, m).0.len() == es.len(),
    decreases es.len(),
{
    if es.len() > 0 {
        lemma_apply_env_state_len(es.drop_last(), m);
    }
}

/// The merge-back result for one container: entries rewritten from the
/// model's map, net-new literals appended, the container otherwise as it
/// was.
pub open spec fn container_merged(c: Container, m: ContainerEnvModel, r: Container) -> bool {
    &&& r.name == c.name
    &&& r.image == c.image
    &&& r.resources == c.resources
    &&& (c.env is None ==> r.env == c.env)
    &&& (c.env is Some ==> r.env is Some && r.env->0@ == merged_env(c.env->0@, m.envs))
}

/// The state of one editable entry after merge-back: consumed keys removed,
/// the rest (net-new literals included) still present.
pub open spec fn env_drained(c: Container, before: ContainerEnv, after: ContainerEnv) -> bool {
    &&& after.name == before.name
    &&& (c.env is None ==> after == before)
    &&& (c.env is Some ==> after.envs.entries_seq() == apply_env_state(
        c.env->0@,
        before.envs.entries_seq(),
    ).1)
}

/// Rewrites one container's declared entries from the edited map and
/// appends the map's unconsumed literal keys as new entries.
fn rebuild_container_env(list: &mut Vec<EnvVar>, m: &mut StrMap<EnvKind>)
    ensures
        final(list)@ == merged_env(old(list)@, old(m).entries_seq()),
        final(m).entries_seq() == apply_env_state(old(list)@, old(m).entries_seq()).1,
{
    let ghost es0 = list@;
    let ghost m0 = m.entries_seq();
    let n = list.len();
    let mut j: usize = 0;
    while j < n
        invariant
            j <= n,
            list@.len() == n,
            n == es0.len(),
            list@ == apply_env_state(es0.take(j as int), m0).0 + es0.skip(j as int),
            m.entries_seq() == apply_env_state(es0.take(j as int), m0).1,
        decreases n - j,
    {
        let ghost stpre = apply_env_state(es0.take(j as int), m0);
        proof {
            lemma_apply_env_state_len(es0.take(j as int), m0);
            assert(es0.take(j as int + 1).drop_last() =~= es0.take(j as int));
            assert(es0.take(j as int + 1).last() == es0[j as int]);
            assert(list@[j as int] == es0.skip(j as int)[0]);
        }
        let got = m.remove(list[j].name.as_str());
        proof {
            assert(got == lookup(stpre.1, es0[j as int].name@));
        }
        match got {
            Some(kind) => {
                let mut e = list.remove(j);
                match kind {
                    EnvKind::Literal(v) => {
                        e.value = Some(v);
                    },
                    EnvKind::ConfigMap(b) => {
                        e.value_from = Some(*b);
                    },
                }
                let ghost e2 = e;
                list.insert(j, e);
                proof {
                    assert(e2 == apply_kind(es0[j as int], lookup(stpre.1, es0[j as int].name@)->0));
                    assert(list@ =~= stpre.0.push(e2) + es0.skip(j as int + 1));
                }
            },
            None => {
                proof {
                    lemma_lookup_none_absent(stpre.1, es0[j as int].name@);
                    assert(list@ =~= stpre.0.push(es0[j as int]) + es0.skip(j as int + 1));
                }
            },
        }
        j = j + 1;
    }
    proof {
        assert(es0.take(n as int) =~= es0);
        assert(es0.skip(n as int) =~= Seq::<EnvVar>::empty());
        assert(list@ =~= apply_env_state(es0, m0).0);
    }
    let ghost applied = apply_env_state(es0, m0);
    let ghost mfin = m.entries_seq();

    // Arrange the unconsumed entries in ascending key order, as an ordered
    // map would hand them out.
    let k_n = m.len();
    let mut sorted: Vec<(String, EnvKind)> = Vec::new();
    let mut k: usize = 0;
    while k < k_n
        invariant
            k <= k_n,
            k_n == mfin.len(),
            m.entries_seq() == mfin,
            sorted@ == sort_entries(mfin.take(k as int)),
        decreases k_n - k,
    {
        proof {
            assert(mfin.take(k as int + 1).drop_last() =~= mfin.take(k as int));
            assert(mfin.take(k as int + 1).last() == mfin[k as int]);
        }
        let key = m.key_at(k).clone();
        let val = m.value_at(k).duplicate();
        let pos = sorted_position(&sorted, key.as_str());
        proof {
            lemma_insert_sorted_at((key, val), sorted@, pos as int);
            assert((key, val) == mfin[k as int]);
        }
        sorted.insert(pos, (key, val));
        k = k + 1;
    }
    proof {
        assert(mfin.take(k_n as int) =~= mfin);
    }

    // Append one literal entry per unconsumed literal key.
    let ghost ssorted = sorted@;
    let s_n = sorted.len();
    let mut t: usize = 0;
    while t < s_n
        invariant
            t <= s_n,
            s_n == ssorted.len(),
            sorted@ == ssorted,
            ssorted == sort_entries(mfin),
            list@ == applied.0 + literal_entries(ssorted.take(t as int)),
        decreases s_n - t,
    {
        proof {
            assert(ssorted.take(t as int + 1).drop_last() =~= ssorted.take(t as int));
            assert(ssorted.take(t as int + 1).last() == ssorted[t as int]);
        }
        match &sorted[t].1 {
            EnvKind::Literal(v) => {
                let nm = sorted[t].0.clone();
                let vv = v.clone();
                list.push(EnvVar { name: nm, value: Some(vv), value_from: None });
                proof {
                    assert(list@ =~= applied.0 + literal_entries(ssorted.take(t as int + 1)));
                }
            },
            EnvKind::ConfigMap(_) => {},
        }
        t = t + 1;
    }
    proof {
        assert(ssorted.take(s_n as int) =~= ssorted);
    }
}

/// The position before which a key inserts to keep ascending order: the
/// first position whose key is no smaller.
fn sorted_position(sorted: &Vec<(String, EnvKind)>, key: &str) -> (r: usize)
    ensures
        r <= sorted@.len(),
        forall|t: int| 0 <= t < r ==> !chars_le(key@, #[trigger] sorted@[t].0@),
        r < sorted@.len() ==> chars_le(key@, sorted@[r as int].0@),
{
    let n = sorted.len();
    let mut i: usize = 0;
    while i < n
        invariant
            i <= n,
            n == sorted@.len(),
            forall|t: int| 0 <= t < i ==> !chars_le(key@, #[trigger] sorted@[t].0@),
        decreases n - i,
    {
        if str_le(key, sorted[i].0.as_str()) {
            return i;
        }
        i = i + 1;
    }
    n
}

/// Some container of the list carries the name.
pub open spec fn has_container(cs: Seq<Container>, name: Seq<char>) -> bool {
    exists|i: int| 0 <= i < cs.len() && cs[i].name@ == name
}

/// The position of the last container carrying the name (the one the
/// resource override targets when a name is repeated).
pub open spec fn last_container_index(cs: Seq<Container>, name: Seq<char>) -> int
    decreases cs.len(),
{
    if cs.len() == 0 {
        0
    } else if cs.last().name@ == name {
        cs.len() - 1
    } else {
        last_container_index(cs.drop_last(), name)
    }
}

pub proof fn lemma_last_container_index_at(cs: Seq<Container>, name: Seq<char>, k: int)
    requires
        0 <= k < cs.len(),
        cs[k].name@ == name,
        forall|j: int| k < j < cs.len() ==> #[trigger] cs[j].name@ != name,
    ensures
        last_container_index(cs, name) == k,
        has_container(cs, name),
    decreases cs.len(),
{
    if k == cs.len() - 1 {
    } else {
        assert(cs.last().name@ != name);
        lemma_last_container_index_at(cs.drop_last(), name, k);
    }
}

/// How the limit map of the targeted container changes: a fresh two-entry
/// map when none existed, otherwise the cpu and memory keys upserted in
/// that order.
pub open spec fn limits_upserted(
    before: Option<Seq<(String, String)>>,
    after: Seq<(String, String)>,
    cpu: String,
    memory: String,
) -> bool {
    match before {
        None => after.len() == 2 && after[0].0@ == "cpu"@ && after[0].1 == cpu && after[1].0@
            == "memory"@ && after[1].1 == memory,
        Some(b) => upserted_cpu_memory(b, after, cpu, memory),
    }
}

/// `after` is `before` with the cpu key upserted and then the memory key
/// upserted, for some key strings spelling "cpu" and "memory".
pub open spec fn upserted_cpu_memory(
    before: Seq<(String, String)>,
    after: Seq<(String, String)>,
    cpu: String,
    memory: String,
) -> bool {
    exists|kc: String, km: String|
        #![trigger upsert(upsert(before, kc, cpu), km, memory)]
        kc@ == "cpu"@ && km@ == "memory"@ && after == upsert(upsert(before, kc, cpu), km, memory)
}

pub proof fn lemma_limits_upserted_intro(
    b: Seq<(String, String)>,
    after: Seq<(String, String)>,
    kc: String,
    km: String,
    cpu: String,
    memory: String,
)
    requires
        kc@ == "cpu"@,
        km@ == "memory"@,
        after == upsert(upsert(b, kc, cpu), km, memory),
    ensures
        limits_upserted(Some(b), after, cpu, memory),
{
    assert(upserted_cpu_memory(b, after, cpu, memory));
}

/// Builds a fresh limit map holding exactly the two overridden keys.
fn fresh_limits(cpu: String, memory: String) -> (m: StrMap<String>)
    ensures
        m.entries_seq().len() == 2,
        m.entries_seq()[0].0@ == "cpu"@,
        m.entries_seq()[0].1 == cpu,
        m.entries_seq()[1].0@ == "memory"@,
        m.entries_seq()[1].1 == memory,
        lookup(m.entries_seq(), "cpu"@) == Some(cpu),
        lookup(m.entries_seq(), "memory"@) == Some(memory),
        forall|q: Seq<char>|
            q != "cpu"@ && q != "memory"@ ==> #[trigger] lookup(m.entries_seq(), q) is None,
{
    let mut m: StrMap<String> = StrMap::new();
    let ghost cpu0 = cpu;
    let ghost memory0 = memory;
    let kc = "cpu".to_owned();
    let km = "memory".to_owned();
    proof {
        reveal_strlit("cpu");
        reveal_strlit("memory");
        assert("cpu"@.len() == 3);
        assert("memory"@.len() == 6);
        assert(kc@ != km@);
    }
    let ghost kc0 = kc;
    let ghost km0 = km;
    m.insert(kc, cpu);
    proof {
        assert(m.entries_seq() =~= seq![(kc0, cpu0)]);
    }
    m.insert(km, memory);
    proof {
        assert(seq![(kc0, cpu0)].drop_first() =~= Seq::<(String, String)>::empty());
        assert(upsert(Seq::<(String, String)>::empty(), km0, memory0) =~= seq![(km0, memory0)]);
        assert(m.entries_seq() =~= seq![(kc0, cpu0), (km0, memory0)]);
        assert(m.entries_seq().drop_first() =~= seq![(km0, memory0)]);
        assert(lookup(seq![(km0, memory0)], "memory"@) == Some(memory0));
        assert(lookup(m.entries_seq(), "memory"@) == Some(memory0));
        assert forall|q: Seq<char>| q != "cpu"@ && q != "memory"@ implies #[trigger] lookup(
            m.entries_seq(),
            q,
        ) is None by {
            assert(lookup(Seq::<(String, String)>::empty(), q) is None);
            assert(seq![(km0, memory0)].drop_first() =~= Seq::<(String, String)>::empty());
            assert(lookup(seq![(km0, memory0)], q) is None);
            assert(lookup(m.entries_seq().drop_first(), q) is None);
        }
    }
    m
}

/// Builds the variable map of one container from its declared entries.
fn build_env_map(list: &Vec<EnvVar>) -> (m: StrMap<EnvKind>)
    ensures
        m.entries_seq() == env_map_of(list@),
{
    let mut m: StrMap<EnvKind> = StrMap::new();
    let n = list.len();
    let mut i: usize = 0;
    while i < n
        invariant
            i <= n,
            n == list@.len(),
            m.entries_seq() == env_map_of(list@.take(i as int)),
        decreases n - i,
    {
        let ghost pre = list@.take(i as int);
        proof {
            assert(list@.take(i as int + 1).drop_last() =~= pre);
            assert(list@.take(i as int + 1).last() == list@[i as int]);
        }
        let e = &list[i];
        if let Some(v) = &e.value {
            m.insert(e.name.clone(), EnvKind::Literal(v.clone()));
        } else if let Some(src) = &e.value_from {
            m.insert(e.name.clone(), EnvKind::ConfigMap(Box::new(src.duplicate())));
        }
        i = i + 1;
    }
    proof {
        assert(list@.take(n as int) =~= list@);
    }
    m
}

impl JobSpec {
    /// Extracts the environment variables of each container that declares
    /// an environment block, in template order. Fails only when the job has
    /// no pod spec.
    pub fn get_env(&self) -> (r: Result<Vec<ContainerEnv>, Error>)
        ensures
            r is Err <==> self.template.spec is None,
            r is Err ==> r->Err_0 == Error::MissingTemplate,
            r is Ok ==> models_of(r->Ok_0@) == extract_model(self.template.spec->0.containers@),
    {
        match &self.template.spec {
            None => Err(Error::MissingTemplate),
            Some(pod_spec) => {
                let mut out: Vec<ContainerEnv> = Vec::new();
                let n = pod_spec.containers.len();
                let mut i: usize = 0;
                while i < n
                    invariant
                        i <= n,
                        n == pod_spec.containers@.len(),
                        models_of(out@) == extract_model(pod_spec.containers@.take(i as int)),
                    decreases n - i,
                {
                    let ghost pre = pod_spec.containers@.take(i as int);
                    proof {
                        assert(pod_spec.containers@.take(i as int + 1).drop_last() =~= pre);
                        assert(pod_spec.containers@.take(i as int + 1).last()
                            == pod_spec.containers@[i as int]);
                    }
                    let c = &pod_spec.containers[i];
                    if let Some(list) = &c.env {
                        let m = build_env_map(list);
                        let ghost out_pre = out@;
                        out.push(ContainerEnv { name: c.name.clone(), envs: m });
                        proof {
                            assert(out@.drop_last() =~= out_pre);
                        }
                    }
                    i = i + 1;
                }
                proof {
                    assert(pod_spec.containers@.take(n as int) =~= pod_spec.containers@);
                }
                Ok(out)
            },
        }
    }

    /// Re-applies an edited environment onto the template. An empty edited
    /// list is an explicit no-op; otherwise the edited entry at each
    /// position must carry the matching container's name, existing entries
    /// found in a map are overwritten and consumed, and unconsumed literal
    /// keys are appended as new entries. On any failure the template and
    /// the edited list are left as they were.
    pub fn rebuild_env(&mut self, envs: &mut Vec<ContainerEnv>) -> (r: Result<(), Error>)
        ensures
            old(envs)@.len() == 0 ==> r is Ok && *final(self) == *old(self) && final(envs)@
                == old(envs)@,
            old(envs)@.len() > 0 && old(self).template.spec is None ==> r is Err && r->Err_0
                == Error::MissingTemplate && *final(self) == *old(self) && final(envs)@ == old(
                envs,
            )@,
            (old(envs)@.len() > 0 && old(self).template.spec is Some && !env_names_match(
                old(self).template.spec->0.containers@,
                models_of(old(envs)@),
            )) ==> {
                let cs = old(self).template.spec->0.containers@;
                let ms = models_of(old(envs)@);
                let fm = first_mismatch(cs, ms);
                &&& r is Err
                &&& *final(self) == *old(self)
                &&& final(envs)@ == old(envs)@
                &&& r->Err_0 == Error::ContainerMismatch {
                    expected: cs[fm].name,
                    got: if fm < ms.len() {
                        Some(ms[fm].name)
                    } else {
                        None
                    },
                }
            },
            (old(envs)@.len() > 0 && old(self).template.spec is Some && env_names_match(
                old(self).template.spec->0.containers@,
                models_of(old(envs)@),
            )) ==> {
                let cs = old(self).template.spec->0.containers@;
                &&& r is Ok
                &&& final(self).template.spec is Some
                &&& final(self).template.spec->0.containers@.len() == cs.len()
                &&& forall|i: int|
                    0 <= i < cs.len() ==> container_merged(
                        cs[i],
                        old(envs)@[i].model(),
                        #[trigger] final(self).template.spec->0.containers@[i],
                    )
                &&& final(self).template.spec->0.restart_policy == old(
                    self,
                ).template.spec->0.restart_policy
                &&& final(self).template.metadata == old(self).template.metadata
                &&& final(self).backoff_limit == old(self).backoff_limit
                &&& final(self).parallelism == old(self).parallelism
                &&& final(self).completions == old(self).completions
                &&& final(self).selector == old(self).selector
                &&& final(envs)@.len() == old(envs)@.len()
                &&& forall|i: int|
                    0 <= i < cs.len() ==> env_drained(
                        cs[i],
                        old(envs)@[i],
                        #[trigger] final(envs)@[i],
                    )
                &&& forall|i: int|
                    cs.len() <= i < old(envs)@.len() ==> final(envs)@[i] == old(envs)@[i]
            },
    {
        if envs.is_empty() {
            return Ok(());
        }
        let mut spec_slot: Option<PodSpec> = None;
        core::mem::swap(&mut self.template.spec, &mut spec_slot);
        let mut pod_spec = match spec_slot {
            None => {
                return Err(Error::MissingTemplate);
            },
            Some(ps) => ps,
        };
        match check_env_names(&pod_spec.containers, envs) {
            Some(e) => {
                self.template.spec = Some(pod_spec);
                Err(e)
            },
            None => {
                merge_all(&mut pod_spec.containers, envs);
                self.template.spec = Some(pod_spec);
                Ok(())
            },
        }
    }

    /// Applies a cpu/memory limit override, given as
    /// `(memory, cpu, container name)`, to the last container carrying that
    /// name. A missing limits block is created; an existing one keeps its
    /// other keys; requests are never touched. On failure the template is
    /// left as it was.
    pub fn update_resources(&mut self, resources: (String, String, String)) -> (r: Result<
        (),
        Error,
    >)
        ensures
            old(self).template.spec is None ==> r is Err && r->Err_0 == Error::MissingTemplate
                && *final(self) == *old(self),
            (old(self).template.spec is Some && !has_container(
                old(self).template.spec->0.containers@,
                resources.2@,
            )) ==> r is Err && r->Err_0 == (Error::ContainerNotFound { name: resources.2 })
                && *final(self) == *old(self),
            (old(self).template.spec is Some && has_container(
                old(self).template.spec->0.containers@,
                resources.2@,
            )) ==> {
                let cs = old(self).template.spec->0.containers@;
                let k = last_container_index(cs, resources.2@);
                let c = cs[k];
                let fcs = final(self).template.spec->0.containers@;
                &&& r is Ok
                &&& final(self).template.spec is Some
                &&& fcs.len() == cs.len()
                &&& forall|j: int| 0 <= j < cs.len() && j != k ==> #[trigger] fcs[j] == cs[j]
                &&& fcs[k].name == c.name
                &&& fcs[k].image == c.image
                &&& fcs[k].env == c.env
                &&& fcs[k].resources is Some
                &&& (c.resources is Some ==> fcs[k].resources->0.requests
                    == c.resources->0.requests)
                &&& (c.resources is None ==> fcs[k].resources->0.requests is None)
                &&& fcs[k].resources->0.limits is Some
                &&& limits_upserted(
                    if c.resources is Some && c.resources->0.limits is Some {
                        Some(c.resources->0.limits->0.entries_seq())
                    } else {
                        None
                    },
                    fcs[k].resources->0.limits->0.entries_seq(),
                    resources.1,
                    resources.0,
                )
                &&& lookup(fcs[k].resources->0.limits->0.entries_seq(), "cpu"@) == Some(
                    resources.1,
                )
                &&& lookup(fcs[k].resources->0.limits->0.entries_seq(), "memory"@) == Some(
                    resources.0,
                )
                &&& forall|q: Seq<char>|
                    q != "cpu"@ && q != "memory"@ ==> #[trigger] lookup(
                        fcs[k].resources->0.limits->0.entries_seq(),
                        q,
                    ) == (if c.resources is Some && c.resources->0.limits is Some {
                        lookup(c.resources->0.limits->0.entries_seq(), q)
                    } else {
                        None
                    })
                &&& final(self).template.spec->0.restart_policy == old(
                    self,
                ).template.spec->0.restart_policy
                &&& final(self).template.metadata == old(self).template.metadata
                &&& final(self).backoff_limit == old(self).backoff_limit
                &&& final(self).parallelism == old(self).parallelism
                &&& final(self).completions == old(self).completions
                &&& final(self).selector == old(self).selector
            },
    {
        let ghost mem_g = resources.0;
        let ghost cpu_g = resources.1;
        let (memory, cpu, container_name) = resources;
        let mut spec_slot: Option<PodSpec> = None;
        core::mem::swap(&mut self.template.spec, &mut spec_slot);
        let mut pod_spec = match spec_slot {
            None => {
                return Err(Error::MissingTemplate);
            },
            Some(ps) => ps,
        };
        let ghost cs0 = pod_spec.containers@;
        let n = pod_spec.containers.len();
        let mut found: Option<usize> = None;
        let mut i: usize = 0;
        while i < n
            invariant
                i <= n,
                n == pod_spec.containers@.len(),
                cs0 == pod_spec.containers@,
                container_name == resources.2,
                match found {
                    None => forall|j: int|
                        0 <= j < i ==> #[trigger] cs0[j].name@ != container_name@,
                    Some(k) => k < i && cs0[k as int].name@ == container_name@ && forall|j: int|
                        k < j < i ==> #[trigger] cs0[j].name@ != container_name@,
                },
            decreases n - i,
        {
            if pod_spec.containers[i].name == container_name {
                found = Some(i);
            }
            i = i + 1;
        }
        match found {
            None => {
                proof {
                    assert(!has_container(cs0, container_name@));
                }
                self.template.spec = Some(pod_spec);
                Err(Error::ContainerNotFound { name: container_name })
            },
            Some(k) => {
                proof {
                    lemma_last_container_index_at(cs0, container_name@, k as int);
                }
                let ghost conts_pre = pod_spec.containers@;
                let mut c = pod_spec.containers.remove(k);
                match &mut c.resources {
                    Some(rr) => {
                        let mut limits_slot: Option<StrMap<String>> = None;
                        core::mem::swap(&mut rr.limits, &mut limits_slot);
                        match limits_slot {
                            Some(mut lm) => {
                                let ghost before = lm.entries_seq();
                                let kc = "cpu".to_owned();
                                let km = "memory".to_owned();
                                let ghost kc0 = kc;
                                let ghost km0 = km;
                                let ghost cpu0 = cpu;
                                let ghost memory0 = memory;
                                proof {
                                    reveal_strlit("cpu");
                                    reveal_strlit("memory");
                                    assert("cpu"@.len() == 3);
                                    assert("memory"@.len() == 6);
                                    lemma_lookup_upsert_same(upsert(before, kc0, cpu0), km0, memory0);
                                    lemma_lookup_upsert_other(
                                        upsert(before, kc0, cpu0),
                                        km0,
                                        memory0,
                                        "cpu"@,
                                    );
                                    lemma_lookup_upsert_same(before, kc0, cpu0);
                                }
                                lm.insert(kc, cpu);
                                lm.insert(km, memory);
                                proof {
                                    assert forall|q: Seq<char>|
                                        q != "cpu"@ && q != "memory"@ implies #[trigger] lookup(
                                        lm.entries_seq(),
                                        q,
                                    ) == lookup(before, q) by {
                                        lemma_lookup_upsert_other(
                                            upsert(before, kc0, cpu0),
                                            km0,
                                            memory0,
                                            q,
                                        );
                                        lemma_lookup_upsert_other(before, kc0, cpu0, q);
                                    }
                                    assert(kc0@ == "cpu"@);
                                    assert(km0@ == "memory"@);
                                    assert(lm.entries_seq() == upsert(
                                        upsert(before, kc0, cpu_g),
                                        km0,
                                        mem_g,
                                    ));
                                    lemma_limits_upserted_intro(
                                        before,
                                        lm.entries_seq(),
                                        kc0,
                                        km0,
                                        cpu_g,
                                        mem_g,
                                    );
                                }
                                rr.limits = Some(lm);
                            },
                            None => {
                                let fm = fresh_limits(cpu, memory);
                                proof {
                                    assert(limits_upserted(None, fm.entries_seq(), cpu_g, mem_g));
                                }
                                rr.limits = Some(fm);
                            },
                        }
                    },
                    None => {
                        let fm = fresh_limits(cpu, memory);
                        proof {
                            assert(limits_upserted(None, fm.entries_seq(), cpu_g, mem_g));
                        }
                        c.resources = Some(
                            ResourceRequirements { limits: Some(fm), requests: None },
                        );
                    },
                }
                pod_spec.containers.insert(k, c);
                proof {
                    assert(pod_spec.containers@ =~= conts_pre.update(
                        k as int,
                        pod_spec.containers@[k as int],
                    ));
                }
                self.template.spec = Some(pod_spec);
                Ok(())
            },
        }
    }
}

/// Checks that the edited list lines up with the containers by position and
/// name, and reports the first drift.
fn check_env_names(containers: &Vec<Container>, envs: &Vec<ContainerEnv>) -> (r: Option<Error>)
    ensures
        r is None <==> env_names_match(containers@, models_of(envs@)),
        r is None ==> containers@.len() <= envs@.len(),
        r is Some ==> {
            let cs = containers@;
            let ms = models_of(envs@);
            let fm = first_mismatch(cs, ms);
            r->0 == Error::ContainerMismatch {
                expected: cs[fm].name,
                got: if fm < ms.len() {
                    Some(ms[fm].name)
                } else {
                    None
                },
            }
        },
{
    proof {
        lemma_models_of(envs@);
    }
    let ghost cs0 = containers@;
    let ghost ms = models_of(envs@);
    let n = containers.len();
    let mut i: usize = 0;
    while i < n
        invariant
            i <= n,
            n == containers@.len(),
            cs0 == containers@,
            ms == models_of(envs@),
            ms.len() == envs@.len(),
            forall|j: int| #![trigger ms[j]] 0 <= j < envs@.len() ==> ms[j] == envs@[j].model(),
            i <= ms.len(),
            forall|j: int| #![trigger ms[j]] 0 <= j < i ==> ms[j].name@ == cs0[j].name@,
        decreases n - i,
    {
        if envs.len() <= i {
            proof {
                lemma_first_mismatch_at(cs0, ms, i as int);
            }
            return Some(
                Error::ContainerMismatch { expected: containers[i].name.clone(), got: None },
            );
        }
        if !(envs[i].name == containers[i].name) {
            proof {
                assert(ms[i as int] == envs@[i as int].model());
                lemma_first_mismatch_at(cs0, ms, i as int);
            }
            return Some(
                Error::ContainerMismatch {
                    expected: containers[i].name.clone(),
                    got: Some(envs[i].name.clone()),
                },
            );
        }
        proof {
            assert(ms[i as int] == envs@[i as int].model());
            assert(ms[i as int].name@ == cs0[i as int].name@);
        }
        i = i + 1;
    }
    proof {
        lemma_names_match(cs0, ms);
        if n > 0 {
            assert(ms[n - 1].name@ == cs0[n - 1].name@);
        }
    }
    None
}

/// Merges every container's environment from the edited entry at the same
/// position.
fn merge_all(containers: &mut Vec<Container>, envs: &mut Vec<ContainerEnv>)
    requires
        old(containers)@.len() <= old(envs)@.len(),
    ensures
        final(containers)@.len() == old(containers)@.len(),
        forall|i: int|
            0 <= i < old(containers)@.len() ==> container_merged(
                old(containers)@[i],
                old(envs)@[i].model(),
                #[trigger] final(containers)@[i],
            ),
        final(envs)@.len() == old(envs)@.len(),
        forall|i: int|
            0 <= i < old(containers)@.len() ==> env_drained(
                old(containers)@[i],
                old(envs)@[i],
                #[trigger] final(envs)@[i],
            ),
        forall|i: int|
            old(containers)@.len() <= i < old(envs)@.len() ==> final(envs)@[i] == old(envs)@[i],
{
    let ghost cs0 = containers@;
    let ghost envs0 = envs@;
    let n = containers.len();
    let mut i: usize = 0;
    while i < n
        invariant
            i <= n,
            n == containers@.len(),
            n == cs0.len(),
            n <= envs@.len(),
            envs@.len() == envs0.len(),
            forall|j: int|
                0 <= j < i ==> container_merged(
                    cs0[j],
                    envs0[j].model(),
                    #[trigger] containers@[j],
                ),
            forall|j: int| 0 <= j < i ==> env_drained(cs0[j], envs0[j], #[trigger] envs@[j]),
            forall|j: int| i <= j < n ==> #[trigger] containers@[j] == cs0[j],
            forall|j: int| i <= j < envs@.len() ==> #[trigger] envs@[j] == envs0[j],
        decreases n - i,
    {
        let ghost conts_pre = containers@;
        let ghost envs_pre = envs@;
        let mut c = containers.remove(i);
        match &mut c.env {
            Some(list) => {
                let mut ce = envs.remove(i);
                rebuild_container_env(list, &mut ce.envs);
                envs.insert(i, ce);
                proof {
                    assert(envs@ =~= envs_pre.update(i as int, envs@[i as int]));
                }
            },
            None => {},
        }
        containers.insert(i, c);
        proof {
            assert(containers@ =~= conts_pre.update(i as int, containers@[i as int]));
            assert(container_merged(cs0[i as int], envs0[i as int].model(), containers@[i as int]));
            assert(env_drained(cs0[i as int], envs0[i as int], envs@[i as int]));
        }
        i = i + 1;
    }
}


/// No two declared entries of one container share a name.
pub open spec fn unique_env_names(es: Seq<EnvVar>) -> bool {
    forall|i: int, j: int| 0 <= i < j < es.len() ==> es[i].name@ != es[j].name@
}

/// Every container declares an environment block whose entries carry
/// pairwise distinct names.
pub open spec fn well_named_template(cs: Seq<Container>) -> bool {
    forall|i: int|
        0 <= i < cs.len() ==> (#[trigger] cs[i].env) is Some && unique_env_names(cs[i].env->0@)
}

/// The map after consuming the name of each entry, front to back.
pub open spec fn remove_keys(m: Seq<(String, EnvKind)>, es: Seq<EnvVar>) -> Seq<(String, EnvKind)>
    decreases es.len(),
{
    if es.len() == 0 {
        m
    } else {
        remove_key(remove_keys(m, es.drop_last()), es.last().name@)
    }
}

/// When every container declares an environment block, extraction yields
/// one model per container, in order.
pub proof fn lemma_extract_model_all(cs: Seq<Container>)
    requires
        forall|i: int| 0 <= i < cs.len() ==> (#[trigger] cs[i].env) is Some,
    ensures
        extract_model(cs).len() == cs.len(),
        forall|i: int|
            0 <= i < cs.len() ==> #[trigger] extract_model(cs)[i] == (ContainerEnvModel {
                name: cs[i].name,
                envs: env_map_of(cs[i].env->0@),
            }),
    decreases cs.len(),
{
    if cs.len() > 0 {
        assert forall|i: int| 0 <= i < cs.drop_last().len() implies (
        #[trigger] cs.drop_last()[i].env) is Some by {
            assert(cs.drop_last()[i] == cs[i]);
        }
        lemma_extract_model_all(cs.drop_last());
        assert forall|i: int| 0 <= i < cs.len() implies #[trigger] extract_model(cs)[i]
            == (ContainerEnvModel {
            name: cs[i].name,
            envs: env_map_of(cs[i].env->0@),
        }) by {
            if i < cs.len() - 1 {
                assert(cs.drop_last()[i] == cs[i]);
                assert(extract_model(cs)[i] == extract_model(cs.drop_last())[i]);
            }
        }
    }
}

/// A name declared by no entry is bound by no extracted key.
pub proof fn lemma_env_map_of_absent(es: Seq<EnvVar>, k: Seq<char>)
    requires
        forall|j: int| 0 <= j < es.len() ==> #[trigger] es[j].name@ != k,
    ensures
        lookup(env_map_of(es), k) is None,
    decreases es.len(),
{
    if es.len() > 0 {
        let es2 = es.drop_last();
        assert forall|j: int| 0 <= j < es2.len() implies #[trigger] es2[j].name@ != k by {
            assert(es2[j] == es[j]);
        }
        lemma_env_map_of_absent(es2, k);
        match kind_of(es.last()) {
            Some(kd) => {
                lemma_lookup_upsert_other(env_map_of(es2), es.last().name, kd, k);
            },
            None => {},
        }
    }
}

/// With unique names, the extracted map binds each entry's name to that
/// entry's own classification — a literal value, a reference, or nothing
/// for a malformed entry.
pub proof fn lemma_env_map_of_lookup(es: Seq<EnvVar>)
    requires
        unique_env_names(es),
    ensures
        forall|j: int|
            0 <= j < es.len() ==> lookup(env_map_of(es), #[trigger] es[j].name@) == kind_of(
                es[j],
            ),
    decreases es.len(),
{
    if es.len() > 0 {
        let es2 = es.drop_last();
        let last = es.last();
        assert forall|i: int, j: int| 0 <= i < j < es2.len() implies es2[i].name@
            != es2[j].name@ by {
            assert(es2[i] == es[i]);
            assert(es2[j] == es[j]);
        }
        lemma_env_map_of_lookup(es2);
        assert forall|j: int| 0 <= j < es2.len() implies #[trigger] es2[j].name@
            != last.name@ by {
            assert(es2[j] == es[j]);
            assert(es[j].name@ != es[es.len() - 1].name@);
        }
        assert forall|j: int|
            0 <= j < es.len() implies lookup(env_map_of(es), #[trigger] es[j].name@) == kind_of(
            es[j],
        ) by {
            match kind_of(last) {
                Some(kd) => {
                    if j == es.len() - 1 {
                        lemma_lookup_upsert_same(env_map_of(es2), last.name, kd);
                    } else {
                        assert(es2[j] == es[j]);
                        lemma_lookup_upsert_other(env_map_of(es2), last.name, kd, es[j].name@);
                    }
                },
                None => {
                    if j == es.len() - 1 {
                        lemma_env_map_of_absent(es2, last.name@);
                    } else {
                        assert(es2[j] == es[j]);
                    }
                },
            }
        }
    }
}

/// Consuming names other than `k` leaves the lookup of `k` as it was.
pub proof fn lemma_lookup_remove_keys(m: Seq<(String, EnvKind)>, es: Seq<EnvVar>, k: Seq<char>)
    requires
        forall|j: int| 0 <= j < es.len() ==> #[trigger] es[j].name@ != k,
    ensures
        lookup(remove_keys(m, es), k) == lookup(m, k),
    decreases es.len(),
{
    if es.len() > 0 {
        let es2 = es.drop_last();
        assert forall|j: int| 0 <= j < es2.len() implies #[trigger] es2[j].name@ != k by {
            assert(es2[j] == es[j]);
        }
        lemma_lookup_remove_keys(m, es2, k);
        crate::strmap::lemma_lookup_remove_other(remove_keys(m, es2), es.last().name@, k);
    }
}

/// Consuming names absent from an appended entry commutes with the append.
pub proof fn lemma_remove_keys_push(
    m: Seq<(String, EnvKind)>,
    x: (String, EnvKind),
    es: Seq<EnvVar>,
)
    requires
        forall|j: int| 0 <= j < es.len() ==> #[trigger] es[j].name@ != x.0@,
    ensures
        remove_keys(m.push(x), es) == remove_keys(m, es).push(x),
    decreases es.len(),
{
    if es.len() > 0 {
        let es2 = es.drop_last();
        assert forall|j: int| 0 <= j < es2.len() implies #[trigger] es2[j].name@ != x.0@ by {
            assert(es2[j] == es[j]);
        }
        lemma_remove_keys_push(m, x, es2);
        crate::strmap::lemma_remove_key_push(remove_keys(m, es2), x, es.last().name@);
    }
}

/// Consumption looks only at keys: on two maps whose keys agree pointwise
/// it leaves the same number of entries, with keys again pointwise equal.
pub proof fn lemma_remove_keys_same_keys(
    a: Seq<(String, EnvKind)>,
    b: Seq<(String, EnvKind)>,
    es: Seq<EnvVar>,
)
    requires
        a.len() == b.len(),
        forall|i: int| 0 <= i < a.len() ==> #[trigger] a[i].0 == b[i].0,
    ensures
        remove_keys(a, es).len() == remove_keys(b, es).len(),
        forall|i: int|
            0 <= i < remove_keys(a, es).len() ==> #[trigger] remove_keys(a, es)[i].0
                == remove_keys(b, es)[i].0,
    decreases es.len(),
{
    if es.len() > 0 {
        lemma_remove_keys_same_keys(a, b, es.drop_last());
        crate::strmap::lemma_remove_key_same_keys(
            remove_keys(a, es.drop_last()),
            remove_keys(b, es.drop_last()),
            es.last().name@,
        );
    }
}

/// With unique names, merge-back rewrites each entry from the map's
/// binding of its own name — or leaves it as it was when the map binds
/// nothing — and consumes exactly the entry names.
pub proof fn lemma_apply_exact(es: Seq<EnvVar>, m: Seq<(String, EnvKind)>)
    requires
        unique_env_names(es),
    ensures
        apply_env_state(es, m).0.len() == es.len(),
        forall|j: int|
            0 <= j < es.len() ==> #[trigger] apply_env_state(es, m).0[j] == (match lookup(
                m,
                es[j].name@,
            ) {
                Some(k) => apply_kind(es[j], k),
                None => es[j],
            }),
        apply_env_state(es, m).1 == remove_keys(m, es),
    decreases es.len(),
{
    if es.len() > 0 {
        let es2 = es.drop_last();
        assert forall|i: int, j: int| 0 <= i < j < es2.len() implies es2[i].name@
            != es2[j].name@ by {
            assert(es2[i] == es[i]);
            assert(es2[j] == es[j]);
        }
        lemma_apply_exact(es2, m);
        let last = es.last();
        let m1 = apply_env_state(es2, m).1;
        assert forall|j: int| 0 <= j < es2.len() implies #[trigger] es2[j].name@
            != last.name@ by {
            assert(es2[j] == es[j]);
            assert(es[j].name@ != es[es.len() - 1].name@);
        }
        lemma_lookup_remove_keys(m, es2, last.name@);
        assert(lookup(m1, last.name@) == lookup(m, last.name@));
        if lookup(m1, last.name@) is None {
            lemma_lookup_none_absent(m1, last.name@);
        }
        assert forall|j: int| 0 <= j < es.len() implies #[trigger] apply_env_state(es, m).0[j]
            == (match lookup(m, es[j].name@) {
            Some(k) => apply_kind(es[j], k),
            None => es[j],
        }) by {
            if j < es.len() - 1 {
                assert(apply_env_state(es, m).0[j] == apply_env_state(es2, m).0[j]);
                assert(es2[j] == es[j]);
            }
        }
    }
}

/// Consuming every declared name of a container's own extracted map leaves
/// it empty.
pub proof fn lemma_remove_keys_of_own(es: Seq<EnvVar>)
    requires
        unique_env_names(es),
    ensures
        remove_keys(env_map_of(es), es) == Seq::<(String, EnvKind)>::empty(),
    decreases es.len(),
{
    if es.len() > 0 {
        let es2 = es.drop_last();
        let last = es.last();
        assert forall|i: int, j: int| 0 <= i < j < es2.len() implies es2[i].name@
            != es2[j].name@ by {
            assert(es2[i] == es[i]);
            assert(es2[j] == es[j]);
        }
        assert forall|j: int| 0 <= j < es2.len() implies #[trigger] es2[j].name@
            != last.name@ by {
            assert(es2[j] == es[j]);
            assert(es[j].name@ != es[es.len() - 1].name@);
        }
        lemma_remove_keys_of_own(es2);
        let pm = env_map_of(es2);
        match kind_of(last) {
            Some(kd) => {
                let x = (last.name, kd);
                lemma_env_map_of_absent(es2, last.name@);
                lemma_lookup_none_absent(pm, last.name@);
                lemma_upsert_absent(pm, last.name, kd);
                assert(env_map_of(es) == pm.push(x));
                lemma_remove_keys_push(pm, x, es2);
                assert(remove_keys(env_map_of(es), es2) =~= seq![x]);
                assert(remove_keys(env_map_of(es), es) == remove_key(seq![x], last.name@));
                assert(remove_key(seq![x], last.name@) =~= Seq::<(String, EnvKind)>::empty());
            },
            None => {
                assert(env_map_of(es) == pm);
                assert(remove_keys(env_map_of(es), es2) =~= Seq::<(String, EnvKind)>::empty());
                assert(remove_key(Seq::<(String, EnvKind)>::empty(), last.name@)
                    =~= Seq::<(String, EnvKind)>::empty());
            },
        }
    }
}

/// A kinded entry rewritten from its own classification is unchanged.
pub proof fn lemma_apply_own_kind(e: EnvVar)
    requires
        kind_of(e) is Some,
    ensures
        apply_kind(e, kind_of(e)->0) == e,
{
}

/// The empty drained map appends nothing.
pub proof fn lemma_leftover_empty()
    ensures
        leftover_literals(Seq::<(String, EnvKind)>::empty()) == Seq::<EnvVar>::empty(),
{
    assert(sort_entries(Seq::<(String, EnvKind)>::empty()) =~= Seq::<(String, EnvKind)>::empty());
    assert(literal_entries(Seq::<(String, EnvKind)>::empty()) =~= Seq::<EnvVar>::empty());
}

/// Merging back a container's own extracted variables is the identity:
/// every entry — literal or reference — is rewritten to its own value,
/// malformed entries are left alone, and nothing is appended.
pub proof fn lemma_merged_identity(es: Seq<EnvVar>)
    requires
        unique_env_names(es),
    ensures
        merged_env(es, env_map_of(es)) == es,
        apply_env_state(es, env_map_of(es)).1 == Seq::<(String, EnvKind)>::empty(),
{
    let m = env_map_of(es);
    lemma_env_map_of_lookup(es);
    lemma_apply_exact(es, m);
    lemma_remove_keys_of_own(es);
    assert forall|j: int| 0 <= j < es.len() implies #[trigger] apply_env_state(es, m).0[j]
        == es[j] by {
        assert(lookup(m, es[j].name@) == kind_of(es[j]));
        if kind_of(es[j]) is Some {
            lemma_apply_own_kind(es[j]);
        }
    }
    assert(apply_env_state(es, m).0 =~= es);
    lemma_leftover_empty();
    assert(merged_env(es, m) =~= es);
}

/// Editing exactly one extracted literal and merging back changes exactly
/// that entry's value; nothing is appended.
pub proof fn lemma_merged_edit(es: Seq<EnvVar>, ei: int, nv: String)
    requires
        unique_env_names(es),
        0 <= ei < es.len(),
        es[ei].value is Some,
    ensures
        ({
            let m2 = upsert(env_map_of(es), es[ei].name, EnvKind::Literal(nv));
            &&& merged_env(es, m2).len() == es.len()
            &&& forall|j: int|
                0 <= j < es.len() && j != ei ==> #[trigger] merged_env(es, m2)[j] == es[j]
            &&& merged_env(es, m2)[ei] == (EnvVar { value: Some(nv), ..es[ei] })
        }),
{
    let m = env_map_of(es);
    let m2 = upsert(m, es[ei].name, EnvKind::Literal(nv));
    lemma_env_map_of_lookup(es);
    assert(lookup(m, es[ei].name@) == Some(EnvKind::Literal(es[ei].value->0)));
    lemma_apply_exact(es, m2);

    // The upsert touches a present key, so the key set is unchanged and
    // consuming every declared name still empties the map.
    crate::strmap::lemma_upsert_present_same_keys(m, es[ei].name, EnvKind::Literal(nv));
    lemma_remove_keys_same_keys(m2, m, es);
    lemma_remove_keys_of_own(es);
    assert(remove_keys(m2, es).len() == 0);
    assert(remove_keys(m2, es) =~= Seq::<(String, EnvKind)>::empty());
    lemma_leftover_empty();
    assert(merged_env(es, m2) =~= apply_env_state(es, m2).0);

    lemma_lookup_upsert_same(m, es[ei].name, EnvKind::Literal(nv));
    assert(merged_env(es, m2)[ei] == apply_kind(es[ei], EnvKind::Literal(nv)));
    assert forall|j: int| 0 <= j < es.len() && j != ei implies #[trigger] merged_env(es, m2)[j]
        == es[j] by {
        assert(es[j].name@ != es[ei].name@);
        lemma_lookup_upsert_other(m, es[ei].name, EnvKind::Literal(nv), es[j].name@);
        assert(lookup(m2, es[j].name@) == kind_of(es[j]));
        if kind_of(es[j]) is Some {
            lemma_apply_own_kind(es[j]);
        }
    }
}

/// Merging back with one net-new literal key appends exactly one literal
/// entry carrying that key and value; every declared entry stays in place.
pub proof fn lemma_merged_append(es: Seq<EnvVar>, k0: String, v0: String)
    requires
        unique_env_names(es),
        forall|j: int| 0 <= j < es.len() ==> #[trigger] es[j].name@ != k0@,
    ensures
        merged_env(es, upsert(env_map_of(es), k0, EnvKind::Literal(v0))) == es.push(
            EnvVar { name: k0, value: Some(v0), value_from: None },
        ),
{
    let m = env_map_of(es);
    lemma_env_map_of_lookup(es);
    lemma_env_map_of_absent(es, k0@);
    lemma_lookup_none_absent(m, k0@);
    lemma_upsert_absent(m, k0, EnvKind::Literal(v0));
    let x = (k0, EnvKind::Literal(v0));
    let m2 = upsert(m, k0, EnvKind::Literal(v0));
    assert(m2 == m.push(x));
    lemma_apply_exact(es, m2);
    lemma_remove_keys_push(m, x, es);
    lemma_remove_keys_of_own(es);
    assert(apply_env_state(es, m2).1 == remove_keys(m2, es));
    assert(remove_keys(m2, es) == remove_keys(m, es).push(x));
    assert(remove_keys(m2, es) =~= seq![x]);
    assert(seq![x].drop_last() =~= Seq::<(String, EnvKind)>::empty());
    assert(seq![x].last() == x);
    assert(sort_entries(Seq::<(String, EnvKind)>::empty()) =~= Seq::<(String, EnvKind)>::empty());
    assert(insert_sorted(x, Seq::<(String, EnvKind)>::empty()) =~= seq![x]);
    assert(sort_entries(seq![x]) =~= seq![x]);
    assert(literal_entries(Seq::<(String, EnvKind)>::empty()) =~= Seq::<EnvVar>::empty());
    assert(literal_entries(seq![x]) =~= seq![
        EnvVar { name: k0, value: Some(v0), value_from: None },
    ]);
    assert(leftover_literals(seq![x]) =~= seq![
        EnvVar { name: k0, value: Some(v0), value_from: None },
    ]);
    assert forall|j: int| 0 <= j < es.len() implies #[trigger] apply_env_state(es, m2).0[j]
        == es[j] by {
        lemma_lookup_upsert_other(m, k0, EnvKind::Literal(v0), es[j].name@);
        assert(lookup(m2, es[j].name@) == kind_of(es[j]));
        if kind_of(es[j]) is Some {
            lemma_apply_own_kind(es[j]);
        }
    }
    assert(apply_env_state(es, m2).0 =~= es);
    assert(merged_env(es, m2) =~= es.push(EnvVar { name: k0, value: Some(v0), value_from: None }));
}

/// Round-trip identity: merging a template's own extracted environment
/// back onto it leaves every container's entries unchanged, in value and
/// in order. Distinct names are all it takes; the literal-only case is an
/// instance.
pub proof fn round_trip_identity(cs: Seq<Container>)
    requires
        well_named_template(cs),
    ensures
        extract_model(cs).len() == cs.len(),
        forall|i: int|
            0 <= i < cs.len() ==> merged_env(
                cs[i].env->0@,
                #[trigger] extract_model(cs)[i].envs,
            ) == cs[i].env->0@,
{
    lemma_extract_model_all(cs);
    assert forall|i: int| 0 <= i < cs.len() implies merged_env(
        cs[i].env->0@,
        #[trigger] extract_model(cs)[i].envs,
    ) == cs[i].env->0@ by {
        assert(extract_model(cs)[i].envs == env_map_of(cs[i].env->0@));
        lemma_merged_identity(cs[i].env->0@);
    }
}

/// Edit propagation: changing exactly one extracted literal changes, after
/// merge-back, exactly that variable on that container; every other entry
/// — literal, reference or malformed — and every other container is
/// untouched.
pub proof fn edit_propagation(cs: Seq<Container>, ci: int, ei: int, nv: String)
    requires
        well_named_template(cs),
        0 <= ci < cs.len(),
        0 <= ei < cs[ci].env->0@.len(),
        cs[ci].env->0@[ei].value is Some,
    ensures
        ({
            let es = cs[ci].env->0@;
            let m2 = upsert(
                extract_model(cs)[ci].envs,
                es[ei].name,
                EnvKind::Literal(nv),
            );
            &&& merged_env(es, m2).len() == es.len()
            &&& forall|j: int|
                0 <= j < es.len() && j != ei ==> #[trigger] merged_env(es, m2)[j] == es[j]
            &&& merged_env(es, m2)[ei] == (EnvVar { value: Some(nv), ..es[ei] })
        }),
        forall|i: int|
            0 <= i < cs.len() && i != ci ==> merged_env(
                cs[i].env->0@,
                #[trigger] extract_model(cs)[i].envs,
            ) == cs[i].env->0@,
{
    lemma_extract_model_all(cs);
    assert(extract_model(cs)[ci].envs == env_map_of(cs[ci].env->0@));
    lemma_merged_edit(cs[ci].env->0@, ei, nv);
    assert forall|i: int| 0 <= i < cs.len() && i != ci implies merged_env(
        cs[i].env->0@,
        #[trigger] extract_model(cs)[i].envs,
    ) == cs[i].env->0@ by {
        assert(extract_model(cs)[i].envs == env_map_of(cs[i].env->0@));
        lemma_merged_identity(cs[i].env->0@);
    }
}

/// Net-new append: merging back with one key absent from the template
/// appends exactly one literal entry to that container, leaving every
/// declared entry and every other container untouched. The promise is
/// per merge call: repeating a merge over the already-merged template is
/// a different call on different inputs.
pub proof fn net_new_append(cs: Seq<Container>, ci: int, k0: String, v0: String)
    requires
        well_named_template(cs),
        0 <= ci < cs.len(),
        forall|j: int| 0 <= j < cs[ci].env->0@.len() ==> #[trigger] cs[ci].env->0@[j].name@ != k0@,
    ensures
        merged_env(
            cs[ci].env->0@,
            upsert(extract_model(cs)[ci].envs, k0, EnvKind::Literal(v0)),
        ) == cs[ci].env->0@.push(EnvVar { name: k0, value: Some(v0), value_from: None }),
        forall|i: int|
            0 <= i < cs.len() && i != ci ==> merged_env(
                cs[i].env->0@,
                #[trigger] extract_model(cs)[i].envs,
            ) == cs[i].env->0@,
{
    lemma_extract_model_all(cs);
    assert(extract_model(cs)[ci].envs == env_map_of(cs[ci].env->0@));
    lemma_merged_append(cs[ci].env->0@, k0, v0);
    assert forall|i: int| 0 <= i < cs.len() && i != ci implies merged_env(
        cs[i].env->0@,
        #[trigger] extract_model(cs)[i].envs,
    ) == cs[i].env->0@ by {
        assert(extract_model(cs)[i].envs == env_map_of(cs[i].env->0@));
        lemma_merged_identity(cs[i].env->0@);
    }
}

/// Extraction lines up with the template by construction: when every
/// container declares an environment block, the extracted list carries the
/// matching container name at every position, so merging it back cannot
/// drift.
pub proof fn extraction_names_line_up(cs: Seq<Container>)
    requires
        forall|i: int| 0 <= i < cs.len() ==> (#[trigger] cs[i].env) is Some,
    ensures
        env_names_match(cs, extract_model(cs)),
{
    lemma_extract_model_all(cs);
    let ms = extract_model(cs);
    assert forall|i: int| #![trigger ms[i]] 0 <= i < cs.len() implies ms[i].name@
        == cs[i].name@ by {
        assert(ms[i] == (ContainerEnvModel { name: cs[i].name, envs: env_map_of(cs[i].env->0@) }));
    }
}

/// Container mismatch detection: a renamed or reordered position makes the
/// edited list drift from the containers, so merge-back reports
/// `ContainerMismatch` instead of silently misassigning the variables.
pub proof fn mismatch_on_drift(cs: Seq<Container>, ms: Seq<ContainerEnvModel>, i: int)
    requires
        0 <= i < cs.len(),
        i < ms.len(),
        ms[i].name@ != cs[i].name@,
    ensures
        !env_names_match(cs, ms),
{
}

} // verus!
