//! What is shown of the resources of a cluster: the summaries handed to the
//! presentation layer, and the rules by which events are selected and
//! ordered, pods are counted and ages are written.
//!
//! The resources themselves come from the API server through the caller,
//! who copies what these rules read into the plain records below.

use crate::client::name_le;
use crate::config::{decimal, decimal_text};
use crate::input_validation::optional_text;
use vstd::prelude::*;
use vstd::utf8::encode_utf8;

verus! {

// ---------------------------------------------------------------------------
// Numbers and ages
// ---------------------------------------------------------------------------

/// The decimal numeral of an integer, with a minus sign where it is negative.
pub open spec fn signed_text(n: int) -> Seq<char> {
    if n < 0 {
        "-"@ + decimal_text((-n) as nat)
    } else {
        decimal_text(n as nat)
    }
}

/// Writes an integer in decimal.
pub fn signed_decimal(n: i64) -> (text: String)
    ensures
        text@ == signed_text(n as int),
{
    if n < 0 {
        let magnitude: u64 = ((-(n + 1)) as u64) + 1;
        let mut text = String::from_str("-");
        let digits = decimal(magnitude);
        text.append(digits.as_str());
        text
    } else {
        decimal(n as u64)
    }
}

/// The age shown for a resource created `seconds` ago: in whole days where
/// that is at least one, else in whole hours, else in whole minutes, and
/// else in seconds (which, for a time in the future, are negative).
pub open spec fn age_text(seconds: int) -> Seq<char> {
    if seconds >= 86400 {
        decimal_text((seconds / 86400) as nat) + "d"@
    } else if seconds >= 3600 {
        decimal_text((seconds / 3600) as nat) + "h"@
    } else if seconds >= 60 {
        decimal_text((seconds / 60) as nat) + "m"@
    } else {
        signed_text(seconds) + "s"@
    }
}

/// Writes the age of a resource created `seconds` ago.
pub fn format_age(seconds: i64) -> (age: String)
    ensures
        age@ == age_text(seconds as int),
{
    if seconds >= 86400 {
        let mut age = decimal((seconds as u64) / 86400);
        age.append("d");
        age
    } else if seconds >= 3600 {
        let mut age = decimal((seconds as u64) / 3600);
        age.append("h");
        age
    } else if seconds >= 60 {
        let mut age = decimal((seconds as u64) / 60);
        age.append("m");
        age
    } else {
        let mut age = signed_decimal(seconds);
        age.append("s");
        age
    }
}

/// The age shown for a resource: that of its creation time where it has
/// one that could be read, else a dash.
pub fn calculate_age(seconds_since_creation: Option<i64>) -> (age: String)
    ensures
        age@ == match seconds_since_creation {
            Some(s) => age_text(s as int),
            None => "-"@,
        },
{
    match seconds_since_creation {
        Some(s) => format_age(s),
        None => String::from_str("-"),
    }
}

/// Two counts as `a/b`, as the readiness of a workload is shown.
pub fn ratio_text(ready: i64, total: i64) -> (text: String)
    ensures
        text@ == signed_text(ready as int) + "/"@ + signed_text(total as int),
{
    let mut text = signed_decimal(ready);
    text.append("/");
    let total_text = signed_decimal(total);
    text.append(total_text.as_str());
    text
}

// ---------------------------------------------------------------------------
// Pods of a deployment
// ---------------------------------------------------------------------------

/// What is shown of a pod that belongs to a deployment.
#[derive(Debug, Clone)]
pub struct DeploymentPodInfo {
    pub name: String,
    pub namespace: String,
    pub status: String,
    pub age: String,
    pub ready: String,
    pub restarts: i32,
    pub node: String,
    pub pod_ip: String,
}

/// The state of one container of a pod.
#[derive(Debug, Clone, Copy, PartialEq, Eq, Structural)]
pub struct ContainerState {
    pub ready: bool,
    pub restart_count: i32,
}

/// What the rules read of a pod.
#[derive(Debug, Clone)]
pub struct PodRecord {
    pub name: Option<String>,
    pub namespace: Option<String>,
    pub phase: Option<String>,
    pub seconds_since_creation: Option<i64>,
    /// The states of the containers, where the pod reports them.
    pub containers: Option<Vec<ContainerState>>,
    pub node_name: Option<String>,
    pub pod_ip: Option<String>,
}

/// How many of the first `upto` containers are ready.
pub open spec fn ready_below(containers: Seq<ContainerState>, upto: int) -> int
    decreases upto,
{
    if upto <= 0 {
        0
    } else {
        ready_below(containers, upto - 1) + if containers[upto - 1].ready {
            1int
        } else {
            0int
        }
    }
}

/// The restarts of the first `upto` containers, added up in 32 bits with
/// wrap-around.
pub open spec fn restarts_below(containers: Seq<ContainerState>, upto: int) -> i32
    decreases upto,
{
    if upto <= 0 {
        0i32
    } else {
        restarts_below(containers, upto - 1).wrapping_add(containers[upto - 1].restart_count)
    }
}

pub open spec fn text_or(v: Option<String>, default: Seq<char>) -> Seq<char> {
    match v {
        Some(s) => s@,
        None => default,
    }
}

fn owned_or(v: Option<String>, default: &str) -> (text: String)
    ensures
        text@ == text_or(v, default@),
{
    match v {
        Some(s) => s,
        None => String::from_str(default),
    }
}

/// Counts the ready containers and adds up the restarts.
pub fn container_totals(containers: &Vec<ContainerState>) -> (totals: (usize, i32))
    ensures
        totals.0 == ready_below(containers@, containers.len() as int),
        totals.1 == restarts_below(containers@, containers.len() as int),
{
    let mut ready: usize = 0;
    let mut restarts: i32 = 0;
    let mut i: usize = 0;
    while i < containers.len()
        invariant
            i <= containers.len(),
            ready <= i,
            ready == ready_below(containers@, i as int),
            restarts == restarts_below(containers@, i as int),
        decreases containers.len() - i,
    {
        if containers[i].ready {
            ready += 1;
        }
        restarts = restarts.wrapping_add(containers[i].restart_count);
        i += 1;
    }
    (ready, restarts)
}

/// What is shown of a pod of a deployment: missing names are empty, a
/// missing phase is `Unknown`, a missing node or address is a dash,
/// readiness is the ready containers out of all, and the restarts are those
/// of all containers.
pub fn map_pod_to_deployment_pod_info(pod: PodRecord) -> (info: DeploymentPodInfo)
    ensures
        info.name@ == text_or(pod.name, Seq::empty()),
        info.namespace@ == text_or(pod.namespace, Seq::empty()),
        info.status@ == text_or(pod.phase, "Unknown"@),
        info.age@ == match pod.seconds_since_creation {
            Some(s) => age_text(s as int),
            None => "-"@,
        },
        info.node@ == text_or(pod.node_name, "-"@),
        info.pod_ip@ == text_or(pod.pod_ip, "-"@),
        match pod.containers {
            Some(c) => info.ready@ == decimal_text(ready_below(c@, c@.len() as int) as nat) + "/"@
                + decimal_text(c@.len()) && info.restarts == restarts_below(c@, c@.len() as int),
            None => info.ready@ == "0"@ + "/"@ + "0"@ && info.restarts == 0,
        },
{
    let (ready_count, total, restarts) = match &pod.containers {
        Some(c) => {
            let (r, s) = container_totals(c);
            (r, c.len(), s)
        },
        None => (0, 0, 0),
    };
    let mut ready = decimal(ready_count as u64);
    ready.append("/");
    let total_text = decimal(total as u64);
    ready.append(total_text.as_str());
    proof {
        assert(decimal_text(0) == "0"@);
        reveal_strlit("");
        assert(""@ =~= Seq::<char>::empty());
    }
    DeploymentPodInfo {
        name: owned_or(pod.name, ""),
        namespace: owned_or(pod.namespace, ""),
        status: owned_or(pod.phase, "Unknown"),
        age: calculate_age(pod.seconds_since_creation),
        ready,
        restarts,
        node: owned_or(pod.node_name, "-"),
        pod_ip: owned_or(pod.pod_ip, "-"),
    }
}

// ---------------------------------------------------------------------------
// Ordering by time
// ---------------------------------------------------------------------------

/// The order of optional names: an absent one comes before every name, and
/// names go by `name_le`.
pub open spec fn key_le(a: Option<Seq<char>>, b: Option<Seq<char>>) -> bool {
    match a {
        None => true,
        Some(x) => match b {
            None => false,
            Some(y) => name_le(x, y),
        },
    }
}

/// `a` comes strictly before `b`.
pub open spec fn key_lt(a: Option<Seq<char>>, b: Option<Seq<char>>) -> bool {
    !key_le(b, a)
}

/// `order` with the position `e` put in: before the first position whose
/// key is strictly smaller than that of `e`, that is behind all positions
/// whose keys are at least as large.
pub open spec fn insert_position(keys: Seq<Option<Seq<char>>>, order: Seq<usize>, e: usize) -> Seq<
    usize,
>
    decreases order.len(),
{
    if order.len() == 0 {
        seq![e]
    } else if key_lt(keys[order[0] as int], keys[e as int]) {
        seq![e] + order
    } else {
        seq![order[0]] + insert_position(keys, order.drop_first(), e)
    }
}

/// The first `upto` positions of `keys`, arranged by descending key; where
/// keys are equal, the earlier position stays first.
pub open spec fn descending_below(keys: Seq<Option<Seq<char>>>, upto: int) -> Seq<usize>
    decreases upto,
{
    if upto <= 0 {
        Seq::empty()
    } else {
        insert_position(keys, descending_below(keys, upto - 1), (upto - 1) as usize)
    }
}

/// The positions of `keys`, most recent first.
pub open spec fn descending(keys: Seq<Option<Seq<char>>>) -> Seq<usize> {
    descending_below(keys, keys.len() as int)
}

proof fn lemma_insert_at(keys: Seq<Option<Seq<char>>>, order: Seq<usize>, e: usize, p: int)
    requires
        0 <= p <= order.len(),
        forall|q: int| 0 <= q < p ==> !key_lt(keys[#[trigger] order[q] as int], keys[e as int]),
        p < order.len() ==> key_lt(keys[order[p] as int], keys[e as int]),
    ensures
        insert_position(keys, order, e) == order.insert(p, e),
    decreases order.len(),
{
    if order.len() == 0 {
        assert(seq![e] =~= order.insert(0, e));
    } else if p == 0 {
        assert(seq![e] + order =~= order.insert(0, e));
    } else {
        assert(!key_lt(keys[order[0] as int], keys[e as int]));
        let rest = order.drop_first();
        assert forall|q: int| 0 <= q < p - 1 implies !key_lt(
            keys[#[trigger] rest[q] as int],
            keys[e as int],
        ) by {
            assert(rest[q] == order[q + 1]);
        }
        lemma_insert_at(keys, rest, e, p - 1);
        assert(seq![order[0]] + rest.insert(p - 1, e) =~= order.insert(p, e));
    }
}

proof fn lemma_bytes_le_total(a: Seq<u8>, b: Seq<u8>)
    ensures
        crate::client::bytes_le(a, b) || crate::client::bytes_le(b, a),
    decreases a.len(),
{
    if a.len() > 0 && b.len() > 0 && a[0] == b[0] {
        lemma_bytes_le_total(a.drop_first(), b.drop_first());
    }
}

proof fn lemma_bytes_le_transitive(a: Seq<u8>, b: Seq<u8>, c: Seq<u8>)
    requires
        crate::client::bytes_le(a, b),
        crate::client::bytes_le(b, c),
    ensures
        crate::client::bytes_le(a, c),
    decreases a.len(),
{
    if a.len() > 0 && b.len() > 0 && c.len() > 0 && a[0] == b[0] && b[0] == c[0] {
        lemma_bytes_le_transitive(a.drop_first(), b.drop_first(), c.drop_first());
    }
}

/// The order of keys is total and transitive.
pub proof fn lemma_key_order(a: Option<Seq<char>>, b: Option<Seq<char>>, c: Option<Seq<char>>)
    ensures
        key_le(a, b) || key_le(b, a),
        key_le(a, b) && key_le(b, c) ==> key_le(a, c),
{
    if a is Some && b is Some {
        lemma_bytes_le_total(encode_utf8(a->Some_0), encode_utf8(b->Some_0));
        if c is Some && key_le(a, b) && key_le(b, c) {
            lemma_bytes_le_transitive(
                encode_utf8(a->Some_0),
                encode_utf8(b->Some_0),
                encode_utf8(c->Some_0),
            );
        }
    }
}

/// Whether `order` arranges positions by descending key, positions of equal
/// keys in ascending order.
pub open spec fn is_stable_descending(keys: Seq<Option<Seq<char>>>, order: Seq<usize>) -> bool {
    forall|i: int, j: int|
        0 <= i < j < order.len() ==> {
            &&& key_le(keys[#[trigger] order[j] as int], keys[#[trigger] order[i] as int])
            &&& (key_le(keys[order[i] as int], keys[order[j] as int]) ==> order[i] < order[j])
        }
}

proof fn lemma_insert_keeps_order(keys: Seq<Option<Seq<char>>>, order: Seq<usize>, e: usize)
    requires
        is_stable_descending(keys, order),
        forall|i: int| 0 <= i < order.len() ==> (#[trigger] order[i]) < e,
    ensures
        is_stable_descending(keys, insert_position(keys, order, e)),
        forall|i: int|
            0 <= i < insert_position(keys, order, e).len() ==> (#[trigger] insert_position(
                keys,
                order,
                e,
            )[i]) == e || exists|j: int|
                0 <= j < order.len() && order[j] == insert_position(keys, order, e)[i],
        insert_position(keys, order, e).len() == order.len() + 1,
    decreases order.len(),
{
    let result = insert_position(keys, order, e);
    if order.len() == 0 {
    } else if key_lt(keys[order[0] as int], keys[e as int]) {
        assert(result =~= seq![e] + order);
        assert forall|i: int, j: int| 0 <= i < j < result.len() implies {
            &&& key_le(keys[#[trigger] result[j] as int], keys[#[trigger] result[i] as int])
            &&& (key_le(keys[result[i] as int], keys[result[j] as int]) ==> result[i] < result[j])
        } by {
            if i == 0 {
                let x = order[j - 1];
                lemma_key_order(keys[order[0] as int], keys[e as int], keys[x as int]);
                if j - 1 > 0 {
                    assert(key_le(keys[order[j - 1] as int], keys[order[0] as int]));
                }
                lemma_key_order(keys[x as int], keys[order[0] as int], keys[e as int]);
                lemma_key_order(keys[e as int], keys[x as int], keys[order[0] as int]);
            } else {
                assert(result[i] == order[i - 1] && result[j] == order[j - 1]);
            }
        }
        assert forall|i: int| 0 <= i < result.len() implies (#[trigger] result[i]) == e
            || exists|j: int| 0 <= j < order.len() && order[j] == result[i] by {
            if i > 0 {
                assert(order[i - 1] == result[i]);
            }
        }
    } else {
        let rest = order.drop_first();
        assert forall|i: int| 0 <= i < rest.len() implies (#[trigger] rest[i]) < e by {
            assert(rest[i] == order[i + 1]);
        }
        assert(is_stable_descending(keys, rest)) by {
            assert forall|i: int, j: int| 0 <= i < j < rest.len() implies {
                &&& key_le(keys[#[trigger] rest[j] as int], keys[#[trigger] rest[i] as int])
                &&& (key_le(keys[rest[i] as int], keys[rest[j] as int]) ==> rest[i] < rest[j])
            } by {
                assert(rest[i] == order[i + 1] && rest[j] == order[j + 1]);
            }
        }
        lemma_insert_keeps_order(keys, rest, e);
        let inner = insert_position(keys, rest, e);
        assert(result =~= seq![order[0]] + inner);
        assert forall|i: int, j: int| 0 <= i < j < result.len() implies {
            &&& key_le(keys[#[trigger] result[j] as int], keys[#[trigger] result[i] as int])
            &&& (key_le(keys[result[i] as int], keys[result[j] as int]) ==> result[i] < result[j])
        } by {
            if i == 0 {
                let x = inner[j - 1];
                if x == e {
                    assert(order[0] < e);
                } else {
                    let q = choose|q: int| 0 <= q < rest.len() && rest[q] == inner[j - 1];
                    assert(rest[q] == order[q + 1]);
                    assert(key_le(keys[order[q + 1] as int], keys[order[0] as int]));
                }
            } else {
                assert(result[i] == inner[i - 1] && result[j] == inner[j - 1]);
            }
        }
        assert forall|i: int| 0 <= i < result.len() implies (#[trigger] result[i]) == e
            || exists|j: int| 0 <= j < order.len() && order[j] == result[i] by {
            if i == 0 {
                assert(order[0] == result[i]);
            } else if inner[i - 1] != e {
                let q = choose|q: int| 0 <= q < rest.len() && rest[q] == inner[i - 1];
                assert(order[q + 1] == result[i]);
            }
        }
    }
}

/// The arrangement is what it is called: keys descend along it, and
/// positions with equal keys stay in their order.
pub proof fn law_descending_is_stable(keys: Seq<Option<Seq<char>>>, upto: int)
    requires
        0 <= upto <= keys.len(),
        upto <= usize::MAX,
    ensures
        is_stable_descending(keys, descending_below(keys, upto)),
        descending_below(keys, upto).len() == upto,
        forall|i: int| 0 <= i < upto ==> (#[trigger] descending_below(keys, upto)[i]) < upto,
    decreases upto,
{
    if upto > 0 {
        law_descending_is_stable(keys, upto - 1);
        lemma_insert_keeps_order(keys, descending_below(keys, upto - 1), (upto - 1) as usize);
        let before = descending_below(keys, upto - 1);
        let after = descending_below(keys, upto);
        assert forall|i: int| 0 <= i < upto implies (#[trigger] after[i]) < upto by {
            if after[i] != (upto - 1) as usize {
                let j = choose|j: int| 0 <= j < before.len() && before[j] == after[i];
                assert(before[j] < upto - 1);
            }
        }
    }
}

fn text_le(a: &str, b: &str) -> (r: bool)
    ensures
        r == name_le(a@, b@),
{
    let x = a.as_bytes();
    let y = b.as_bytes();
    let ghost xs = encode_utf8(a@);
    let ghost ys = encode_utf8(b@);
    let mut i: usize = 0;
    proof {
        assert(xs.skip(0) =~= xs);
        assert(ys.skip(0) =~= ys);
    }
    while i < x.len() && i < y.len()
        invariant
            i <= x.len(),
            i <= y.len(),
            x@ == xs,
            y@ == ys,
            xs == encode_utf8(a@),
            ys == encode_utf8(b@),
            crate::client::bytes_le(xs, ys) == crate::client::bytes_le(
                xs.skip(i as int),
                ys.skip(i as int),
            ),
        decreases x.len() - i,
    {
        proof {
            assert(xs.skip(i as int)[0] == xs[i as int]);
            assert(ys.skip(i as int)[0] == ys[i as int]);
            assert(xs.skip(i as int).drop_first() =~= xs.skip(i + 1));
            assert(ys.skip(i as int).drop_first() =~= ys.skip(i + 1));
        }
        if x[i] != y[i] {
            proof {
                let xr = xs.skip(i as int);
                let yr = ys.skip(i as int);
                assert(xr.len() > 0 && yr.len() > 0);
                assert(xr[0] != yr[0]);
                assert(crate::client::bytes_le(xr, yr) == (xr[0] < yr[0]));
                assert(xr[0] == x@[i as int] && yr[0] == y@[i as int]);
                assert(name_le(a@, b@) == crate::client::bytes_le(xs, ys));
            }
            return x[i] < y[i];
        }
        i += 1;
    }
    x.len() <= y.len()
}

fn optional_le(a: &Option<String>, b: &Option<String>) -> (r: bool)
    ensures
        r == key_le(optional_text(*a), optional_text(*b)),
{
    match a {
        None => true,
        Some(x) => match b {
            None => false,
            Some(y) => text_le(x.as_str(), y.as_str()),
        },
    }
}

/// The texts of a list of optional strings.
pub open spec fn optional_texts(keys: Seq<Option<String>>) -> Seq<Option<Seq<char>>> {
    keys.map_values(|k: Option<String>| optional_text(k))
}

/// Arranges the positions of `keys` by descending key; positions with equal
/// keys keep their order.
pub fn descending_order(keys: &Vec<Option<String>>) -> (order: Vec<usize>)
    ensures
        order@ == descending(optional_texts(keys@)),
        order@.len() == keys@.len(),
        forall|i: int| 0 <= i < order@.len() ==> (#[trigger] order@[i]) < keys@.len(),
{
    let ghost all = optional_texts(keys@);
    let mut order: Vec<usize> = Vec::new();
    let mut e: usize = 0;
    while e < keys.len()
        invariant
            e <= keys.len(),
            all == optional_texts(keys@),
            order@ == descending_below(all, e as int),
            order@.len() == e,
            forall|i: int| 0 <= i < order@.len() ==> (#[trigger] order@[i]) < e,
        decreases keys.len() - e,
    {
        let mut p: usize = 0;
        while p < order.len() && optional_le(&keys[e], &keys[order[p]])
            invariant
                p <= order.len(),
                e < keys.len(),
                all == optional_texts(keys@),
                forall|i: int| 0 <= i < order@.len() ==> (#[trigger] order@[i]) < e,
                forall|q: int|
                    0 <= q < p ==> !key_lt(all[#[trigger] order@[q] as int], all[e as int]),
            decreases order.len() - p,
        {
            proof {
                assert(all[e as int] == optional_text(keys@[e as int]));
                assert(all[order@[p as int] as int] == optional_text(keys@[order@[p as int] as int]));
            }
            p += 1;
        }
        proof {
            assert(all[e as int] == optional_text(keys@[e as int]));
            if p < order.len() {
                assert(all[order@[p as int] as int] == optional_text(
                    keys@[order@[p as int] as int],
                ));
            }
            lemma_insert_at(all, order@, e, p as int);
        }
        order.insert(p, e);
        e += 1;
    }
    order
}

// ---------------------------------------------------------------------------
// Events
// ---------------------------------------------------------------------------

/// What is shown of an event of a resource.
#[derive(Debug, Clone)]
pub struct K8sEventInfo {
    pub event_type: String,
    pub reason: String,
    pub message: String,
    pub count: i32,
    pub first_timestamp: Option<String>,
    pub last_timestamp: Option<String>,
    pub source: String,
}

pub struct K8sEventInfoView {
    pub event_type: Seq<char>,
    pub reason: Seq<char>,
    pub message: Seq<char>,
    pub count: i32,
    pub first_timestamp: Option<Seq<char>>,
    pub last_timestamp: Option<Seq<char>>,
    pub source: Seq<char>,
}

impl View for K8sEventInfo {
    type V = K8sEventInfoView;

    open spec fn view(&self) -> K8sEventInfoView {
        K8sEventInfoView {
            event_type: self.event_type@,
            reason: self.reason@,
            message: self.message@,
            count: self.count,
            first_timestamp: optional_text(self.first_timestamp),
            last_timestamp: optional_text(self.last_timestamp),
            source: self.source@,
        }
    }
}

/// What the rules read of an event; times are in the text form in which
/// they are shown.
#[derive(Debug, Clone)]
pub struct EventRecord {
    pub involved_name: Option<String>,
    pub involved_kind: Option<String>,
    pub involved_uid: Option<String>,
    pub event_type: Option<String>,
    pub reason: Option<String>,
    pub message: Option<String>,
    pub count: Option<i32>,
    pub first_timestamp: Option<String>,
    pub last_timestamp: Option<String>,
    pub source_component: Option<String>,
}

/// Whether an event is one of the deployment `name`: it names the
/// deployment by name and kind, and by identifier where one is asked for.
pub open spec fn concerns_deployment(e: EventRecord, name: Seq<char>, uid: Option<Seq<char>>) -> bool {
    &&& optional_text(e.involved_name) == Some(name)
    &&& optional_text(e.involved_kind) == Some("Deployment"@)
    &&& (uid is Some ==> optional_text(e.involved_uid) == uid)
}

/// What is shown of an event: a missing type is `Normal`, a missing count
/// is one, a missing source is `unknown`, other missing texts are empty.
pub open spec fn shown_event(e: EventRecord) -> K8sEventInfoView {
    K8sEventInfoView {
        event_type: text_or(e.event_type, "Normal"@),
        reason: text_or(e.reason, Seq::empty()),
        message: text_or(e.message, Seq::empty()),
        count: match e.count {
            Some(c) => c,
            None => 1,
        },
        first_timestamp: optional_text(e.first_timestamp),
        last_timestamp: optional_text(e.last_timestamp),
        source: text_or(e.source_component, "unknown"@),
    }
}

/// The events of the deployment among the first `upto` events, as shown, in
/// the order given.
pub open spec fn selected_below(
    events: Seq<EventRecord>,
    name: Seq<char>,
    uid: Option<Seq<char>>,
    upto: int,
) -> Seq<K8sEventInfoView>
    decreases upto,
{
    if upto <= 0 {
        Seq::empty()
    } else {
        let before = selected_below(events, name, uid, upto - 1);
        if concerns_deployment(events[upto - 1], name, uid) {
            before.push(shown_event(events[upto - 1]))
        } else {
            before
        }
    }
}

/// The times by which shown events are ordered.
pub open spec fn last_times(infos: Seq<K8sEventInfoView>) -> Seq<Option<Seq<char>>> {
    infos.map_values(|i: K8sEventInfoView| i.last_timestamp)
}

/// `infos` in the arrangement `order`.
pub open spec fn arranged(infos: Seq<K8sEventInfoView>, order: Seq<usize>) -> Seq<K8sEventInfoView> {
    Seq::new(order.len(), |i: int| infos[order[i] as int])
}

/// The events of a deployment as they are listed: those that concern it,
/// as shown, the most recent first.
pub open spec fn deployment_events(
    events: Seq<EventRecord>,
    name: Seq<char>,
    uid: Option<Seq<char>>,
) -> Seq<K8sEventInfoView> {
    let selected = selected_below(events, name, uid, events.len() as int);
    arranged(selected, descending(last_times(selected)))
}

pub open spec fn info_views(infos: Seq<K8sEventInfo>) -> Seq<K8sEventInfoView> {
    infos.map_values(|i: K8sEventInfo| i@)
}

fn is_text(v: &Option<String>, wanted: &String) -> (b: bool)
    ensures
        b == (optional_text(*v) == Some(wanted@)),
{
    match v {
        Some(s) => *s == *wanted,
        None => false,
    }
}

fn copy_optional(v: &Option<String>) -> (r: Option<String>)
    ensures
        optional_text(r) == optional_text(*v),
{
    match v {
        Some(s) => Some(s.clone()),
        None => None,
    }
}

fn copy_or(v: &Option<String>, default: &str) -> (text: String)
    ensures
        text@ == text_or(*v, default@),
{
    match v {
        Some(s) => s.clone(),
        None => String::from_str(default),
    }
}

fn copy_info(i: &K8sEventInfo) -> (r: K8sEventInfo)
    ensures
        r@ == i@,
{
    K8sEventInfo {
        event_type: i.event_type.clone(),
        reason: i.reason.clone(),
        message: i.message.clone(),
        count: i.count,
        first_timestamp: copy_optional(&i.first_timestamp),
        last_timestamp: copy_optional(&i.last_timestamp),
        source: i.source.clone(),
    }
}

/// Selects the events of a deployment and lists them, the most recent
/// first; events of the same time keep the order in which they came.
pub fn filter_deployment_events(
    events: Vec<EventRecord>,
    deployment_name: &str,
    deployment_uid: Option<&str>,
) -> (listed: Vec<K8sEventInfo>)
    ensures
        info_views(listed@) == deployment_events(
            events@,
            deployment_name@,
            match deployment_uid {
                Some(u) => Some(u@),
                None => None,
            },
        ),
{
    let ghost uid = match deployment_uid {
        Some(u) => Some(u@),
        None => None,
    };
    let name = String::from_str(deployment_name);
    let kind = String::from_str("Deployment");
    let wanted_uid: Option<String> = match deployment_uid {
        Some(u) => Some(String::from_str(u)),
        None => None,
    };
    let mut selected: Vec<K8sEventInfo> = Vec::new();
    let mut keys: Vec<Option<String>> = Vec::new();
    let mut i: usize = 0;
    while i < events.len()
        invariant
            i <= events.len(),
            name@ == deployment_name@,
            kind@ == "Deployment"@,
            optional_text(wanted_uid) == uid,
            info_views(selected@) == selected_below(events@, deployment_name@, uid, i as int),
            optional_texts(keys@) == last_times(info_views(selected@)),
        decreases events.len() - i,
    {
        let e = &events[i];
        let uid_matches = match &wanted_uid {
            Some(u) => is_text(&e.involved_uid, u),
            None => true,
        };
        proof {
            reveal_strlit("");
            assert(""@ =~= Seq::<char>::empty());
        }
        if is_text(&e.involved_name, &name) && is_text(&e.involved_kind, &kind) && uid_matches {
            let info = K8sEventInfo {
                event_type: copy_or(&e.event_type, "Normal"),
                reason: copy_or(&e.reason, ""),
                message: copy_or(&e.message, ""),
                count: match e.count {
                    Some(c) => c,
                    None => 1,
                },
                first_timestamp: copy_optional(&e.first_timestamp),
                last_timestamp: copy_optional(&e.last_timestamp),
                source: copy_or(&e.source_component, "unknown"),
            };
            let ghost before = info_views(selected@);
            let ghost keys_before = optional_texts(keys@);
            keys.push(copy_optional(&info.last_timestamp));
            selected.push(info);
            proof {
                assert(info_views(selected@) =~= before.push(info@));
                assert(optional_texts(keys@) =~= keys_before.push(info@.last_timestamp));
                assert(last_times(before.push(info@)) =~= last_times(before).push(
                    info@.last_timestamp,
                ));
            }
        }
        i += 1;
    }
    let order = descending_order(&keys);
    let mut listed: Vec<K8sEventInfo> = Vec::new();
    let mut k: usize = 0;
    let ghost all = info_views(selected@);
    while k < order.len()
        invariant
            k <= order.len(),
            all == info_views(selected@),
            order@.len() == selected@.len(),
            forall|j: int| 0 <= j < order@.len() ==> (#[trigger] order@[j]) < selected@.len(),
            info_views(listed@) == arranged(all, order@).take(k as int),
        decreases order.len() - k,
    {
        let ghost before = info_views(listed@);
        let item = copy_info(&selected[order[k]]);
        listed.push(item);
        proof {
            assert(all[order@[k as int] as int] == selected@[order@[k as int] as int]@);
            assert(info_views(listed@) =~= before.push(item@));
            assert(arranged(all, order@).take(k + 1) =~= arranged(all, order@).take(k as int).push(
                arranged(all, order@)[k as int],
            ));
        }
        k += 1;
    }
    proof {
        assert(arranged(all, order@).take(order@.len() as int) =~= arranged(all, order@));
    }
    listed
}

// ---------------------------------------------------------------------------
// Events of a pod
// ---------------------------------------------------------------------------

/// What is shown of an event of a pod.
#[derive(Debug, Clone)]
pub struct PodEventInfo {
    pub event_type: String,
    pub reason: String,
    pub message: String,
    pub count: i32,
    pub first_timestamp: Option<String>,
    pub last_timestamp: Option<String>,
    pub source: String,
}

impl View for PodEventInfo {
    type V = K8sEventInfoView;

    open spec fn view(&self) -> K8sEventInfoView {
        K8sEventInfoView {
            event_type: self.event_type@,
            reason: self.reason@,
            message: self.message@,
            count: self.count,
            first_timestamp: optional_text(self.first_timestamp),
            last_timestamp: optional_text(self.last_timestamp),
            source: self.source@,
        }
    }
}

pub open spec fn pod_event_views(infos: Seq<PodEventInfo>) -> Seq<K8sEventInfoView> {
    infos.map_values(|i: PodEventInfo| i@)
}

/// What is shown of an event of a pod of a registered cluster: a missing
/// type or reason is `Unknown`, a missing count is one, other missing texts
/// are empty.
pub open spec fn shown_pod_event(e: EventRecord) -> K8sEventInfoView {
    K8sEventInfoView {
        event_type: text_or(e.event_type, "Unknown"@),
        reason: text_or(e.reason, "Unknown"@),
        message: text_or(e.message, Seq::empty()),
        count: match e.count {
            Some(c) => c,
            None => 1,
        },
        first_timestamp: optional_text(e.first_timestamp),
        last_timestamp: optional_text(e.last_timestamp),
        source: text_or(e.source_component, Seq::empty()),
    }
}

/// The events as shown, in the order given.
pub open spec fn shown_pod_events(events: Seq<EventRecord>) -> Seq<K8sEventInfoView> {
    events.map_values(|e: EventRecord| shown_pod_event(e))
}

/// The events of a pod as they are listed: as shown, the most recent first.
pub open spec fn pod_events(events: Seq<EventRecord>) -> Seq<K8sEventInfoView> {
    let shown = shown_pod_events(events);
    arranged(shown, descending(last_times(shown)))
}

/// Lists the events of a pod, the most recent first; events of the same
/// time keep the order in which they came.
pub fn pod_event_infos(events: Vec<EventRecord>) -> (listed: Vec<PodEventInfo>)
    ensures
        pod_event_views(listed@) == pod_events(events@),
{
    let ghost shown = shown_pod_events(events@);
    let mut keys: Vec<Option<String>> = Vec::new();
    let mut i: usize = 0;
    while i < events.len()
        invariant
            i <= events.len(),
            shown == shown_pod_events(events@),
            optional_texts(keys@) == last_times(shown).take(i as int),
        decreases events.len() - i,
    {
        let ghost before = optional_texts(keys@);
        keys.push(copy_optional(&events[i].last_timestamp));
        proof {
            assert(optional_texts(keys@) =~= before.push(shown[i as int].last_timestamp));
            assert(last_times(shown).take(i + 1) =~= last_times(shown).take(i as int).push(
                last_times(shown)[i as int],
            ));
        }
        i += 1;
    }
    proof {
        assert(last_times(shown).take(events.len() as int) =~= last_times(shown));
    }
    let order = descending_order(&keys);
    let mut listed: Vec<PodEventInfo> = Vec::new();
    let mut k: usize = 0;
    while k < order.len()
        invariant
            k <= order.len(),
            shown == shown_pod_events(events@),
            order@.len() == events@.len(),
            forall|j: int| 0 <= j < order@.len() ==> (#[trigger] order@[j]) < events@.len(),
            pod_event_views(listed@) == arranged(shown, order@).take(k as int),
        decreases order.len() - k,
    {
        let ghost before = pod_event_views(listed@);
        let e = &events[order[k]];
        proof {
            reveal_strlit("");
            assert(""@ =~= Seq::<char>::empty());
        }
        let item = PodEventInfo {
            event_type: copy_or(&e.event_type, "Unknown"),
            reason: copy_or(&e.reason, "Unknown"),
            message: copy_or(&e.message, ""),
            count: match e.count {
                Some(c) => c,
                None => 1,
            },
            first_timestamp: copy_optional(&e.first_timestamp),
            last_timestamp: copy_optional(&e.last_timestamp),
            source: copy_or(&e.source_component, ""),
        };
        listed.push(item);
        proof {
            assert(item@ == shown[order@[k as int] as int]);
            assert(pod_event_views(listed@) =~= before.push(item@));
            assert(arranged(shown, order@).take(k + 1) =~= arranged(shown, order@).take(
                k as int,
            ).push(arranged(shown, order@)[k as int]));
        }
        k += 1;
    }
    proof {
        assert(arranged(shown, order@).take(order@.len() as int) =~= arranged(shown, order@));
    }
    listed
}

// ---------------------------------------------------------------------------
// Warnings of the cluster
// ---------------------------------------------------------------------------

/// A warning of the cluster, as shown on the dashboard.
#[derive(Debug, Clone)]
pub struct WarningEvent {
    pub message: String,
    pub object: String,
    pub type_: String,
    pub age: String,
    pub count: i32,
}

pub struct WarningEventView {
    pub message: Seq<char>,
    pub object: Seq<char>,
    pub type_: Seq<char>,
    pub age: Seq<char>,
    pub count: i32,
}

impl View for WarningEvent {
    type V = WarningEventView;

    open spec fn view(&self) -> WarningEventView {
        WarningEventView {
            message: self.message@,
            object: self.object@,
            type_: self.type_@,
            age: self.age@,
            count: self.count,
        }
    }
}

pub open spec fn warning_views(list: Seq<WarningEvent>) -> Seq<WarningEventView> {
    list.map_values(|w: WarningEvent| w@)
}

/// What the rules read of an event of the cluster.
#[derive(Debug, Clone)]
pub struct WarningRecord {
    pub event_type: Option<String>,
    pub message: Option<String>,
    pub involved_kind: Option<String>,
    pub involved_name: Option<String>,
    /// The seconds since the event was last seen, where it says when.
    pub seconds_since_last: Option<i64>,
    pub count: Option<i32>,
}

/// How many warnings the dashboard shows at most.
pub const MAX_WARNINGS: usize = 50;

pub open spec fn is_warning(r: WarningRecord) -> bool {
    optional_text(r.event_type) == Some("Warning"@)
}

/// What is shown of a warning: the object as kind and name, the age of its
/// last occurrence or a dash, a missing count as one.
pub open spec fn shown_warning(r: WarningRecord) -> WarningEventView {
    WarningEventView {
        message: text_or(r.message, Seq::empty()),
        object: text_or(r.involved_kind, Seq::empty()) + "/"@ + text_or(
            r.involved_name,
            Seq::empty(),
        ),
        type_: text_or(r.event_type, Seq::empty()),
        age: match r.seconds_since_last {
            Some(s) => age_text(s as int),
            None => "-"@,
        },
        count: match r.count {
            Some(c) => c,
            None => 1,
        },
    }
}

/// The warnings among the first `upto` events, as shown, in the order
/// given.
pub open spec fn warnings_below(records: Seq<WarningRecord>, upto: int) -> Seq<WarningEventView>
    decreases upto,
{
    if upto <= 0 {
        Seq::empty()
    } else {
        let before = warnings_below(records, upto - 1);
        if is_warning(records[upto - 1]) {
            before.push(shown_warning(records[upto - 1]))
        } else {
            before
        }
    }
}

/// The last `limit` entries of `list` at most, the last one first.
pub open spec fn latest_first<A>(list: Seq<A>, limit: nat) -> Seq<A> {
    Seq::new(
        if list.len() <= limit {
            list.len()
        } else {
            limit
        },
        |k: int| list[list.len() - 1 - k],
    )
}

/// Selects the warnings among the events of the cluster and lists the fifty
/// that came last, the last one first.
pub fn warning_events(records: Vec<WarningRecord>) -> (listed: Vec<WarningEvent>)
    ensures
        warning_views(listed@) == latest_first(
            warnings_below(records@, records.len() as int),
            MAX_WARNINGS as nat,
        ),
{
    let wanted = String::from_str("Warning");
    let mut selected: Vec<usize> = Vec::new();
    let mut i: usize = 0;
    while i < records.len()
        invariant
            i <= records.len(),
            wanted@ == "Warning"@,
            selected@.len() == warnings_below(records@, i as int).len(),
            forall|k: int|
                0 <= k < selected@.len() ==> (#[trigger] selected@[k]) < i && is_warning(
                    records@[selected@[k] as int],
                ) && warnings_below(records@, i as int)[k] == shown_warning(
                    records@[selected@[k] as int],
                ),
        decreases records.len() - i,
    {
        if is_text(&records[i].event_type, &wanted) {
            selected.push(i);
        }
        i += 1;
    }
    let ghost all = warnings_below(records@, records.len() as int);
    let n = selected.len();
    let shown = if n <= MAX_WARNINGS {
        n
    } else {
        MAX_WARNINGS
    };
    let mut listed: Vec<WarningEvent> = Vec::new();
    let mut k: usize = 0;
    while k < shown
        invariant
            k <= shown <= n,
            n == selected@.len(),
            n == all.len(),
            forall|j: int|
                0 <= j < selected@.len() ==> (#[trigger] selected@[j]) < records@.len()
                    && all[j] == shown_warning(records@[selected@[j] as int]),
            warning_views(listed@) =~= Seq::new(k as nat, |j: int| all[n - 1 - j]),
        decreases shown - k,
    {
        let r = &records[selected[n - 1 - k]];
        proof {
            reveal_strlit("");
            assert(""@ =~= Seq::<char>::empty());
        }
        let mut object = copy_or(&r.involved_kind, "");
        object.append("/");
        let name = copy_or(&r.involved_name, "");
        object.append(name.as_str());
        let item = WarningEvent {
            message: copy_or(&r.message, ""),
            object,
            type_: copy_or(&r.event_type, ""),
            age: calculate_age(r.seconds_since_last),
            count: match r.count {
                Some(c) => c,
                None => 1,
            },
        };
        let ghost before = warning_views(listed@);
        listed.push(item);
        proof {
            assert(item@ == all[n - 1 - k]);
            assert(warning_views(listed@) =~= before.push(item@));
        }
        k += 1;
    }
    proof {
        assert(warning_views(listed@) =~= latest_first(all, MAX_WARNINGS as nat));
    }
    listed
}

// ---------------------------------------------------------------------------
// Summaries
// ---------------------------------------------------------------------------

/// A port that a container exposes.
#[derive(Debug, Clone)]
pub struct ContainerPort {
    pub name: Option<String>,
    pub container_port: i32,
    pub host_port: Option<i32>,
    pub protocol: String,
}

/// A variable of the environment of a container.
#[derive(Debug, Clone)]
pub struct EnvVar {
    pub name: String,
    pub value: Option<String>,
    pub value_from: Option<String>,
}

/// A volume mounted into a container.
#[derive(Debug, Clone)]
pub struct VolumeMount {
    pub name: String,
    pub mount_path: String,
    pub sub_path: Option<String>,
    pub read_only: bool,
}

/// A probe of a container: its kind, what it runs and its timing.
#[derive(Debug, Clone)]
pub struct ProbeInfo {
    pub probe_type: String,
    pub handler_type: String,
    pub details: String,
    pub initial_delay_seconds: i32,
    pub period_seconds: i32,
    pub timeout_seconds: i32,
    pub success_threshold: i32,
    pub failure_threshold: i32,
}

/// What is shown of a container of a pod.
#[derive(Debug, Clone)]
pub struct ContainerInfo {
    pub name: String,
    pub image: String,
    pub image_pull_policy: String,
    pub ready: bool,
    pub restart_count: i32,
    pub state: String,
    pub cpu_request: Option<String>,
    pub cpu_limit: Option<String>,
    pub memory_request: Option<String>,
    pub memory_limit: Option<String>,
    pub ports: Vec<ContainerPort>,
    pub env: Vec<EnvVar>,
    pub volume_mounts: Vec<VolumeMount>,
    pub probes: Vec<ProbeInfo>,
}

/// A volume of a pod and its kind.
#[derive(Debug, Clone)]
pub struct VolumeInfo {
    pub name: String,
    pub volume_type: String,
}

/// A condition that a pod reports.
#[derive(Debug, Clone)]
pub struct PodCondition {
    pub condition_type: String,
    pub status: String,
    pub reason: Option<String>,
    pub message: Option<String>,
    pub last_transition_time: Option<String>,
}

/// What is shown of a pod.
#[derive(Debug, Clone)]
pub struct PodSummary {
    pub name: String,
    pub namespace: String,
    pub status: String,
    pub age: String,
    pub creation_timestamp: Option<String>,
    pub containers: usize,
    pub restarts: i32,
    pub node: String,
    pub qos: String,
    pub controlled_by: String,
    pub labels: std::collections::BTreeMap<String, String>,
    pub annotations: std::collections::BTreeMap<String, String>,
    pub pod_ip: String,
    pub host_ip: String,
    pub service_account: String,
    pub priority_class: String,
    pub container_details: Vec<ContainerInfo>,
    pub volumes: Vec<VolumeInfo>,
    pub conditions: Vec<PodCondition>,
}

/// A change of the pods of a watch, as sent outward.
#[derive(Debug, Clone)]
pub enum PodEvent {
    Added(PodSummary),
    Modified(PodSummary),
    Deleted(PodSummary),
    Restarted(Vec<PodSummary>),
}

/// The message sent outward for a change of a pod.
pub fn pod_event(change: crate::watcher::PodChange, pod: PodSummary) -> (event: PodEvent)
    ensures
        match change {
            crate::watcher::PodChange::Added => event matches PodEvent::Added(p) && p == pod,
            crate::watcher::PodChange::Deleted => event matches PodEvent::Deleted(p) && p == pod,
        },
{
    match change {
        crate::watcher::PodChange::Added => PodEvent::Added(pod),
        crate::watcher::PodChange::Deleted => PodEvent::Deleted(pod),
    }
}

/// What is shown of a workload.
#[derive(Debug, Clone)]
pub struct WorkloadSummary {
    pub id: String,
    pub name: String,
    pub namespace: String,
    pub age: String,
    pub labels: std::collections::BTreeMap<String, String>,
    pub status: String,
    pub images: Vec<String>,
    pub created_at: i64,
}

/// A condition that a deployment reports.
#[derive(Debug, Clone)]
pub struct DeploymentCondition {
    pub condition_type: String,
    pub status: String,
    pub reason: Option<String>,
    pub message: Option<String>,
    pub last_transition_time: Option<String>,
}

/// What is shown of one deployment.
#[derive(Debug, Clone)]
pub struct DeploymentDetails {
    pub name: String,
    pub namespace: String,
    pub uid: String,
    pub created_at: String,
    pub labels: std::collections::HashMap<String, String>,
    pub annotations: std::collections::HashMap<String, String>,
    pub replicas_desired: i32,
    pub replicas_updated: i32,
    pub replicas_total: i32,
    pub replicas_available: i32,
    pub replicas_unavailable: i32,
    pub strategy_type: String,
    pub selector: std::collections::HashMap<String, String>,
    pub conditions: Vec<DeploymentCondition>,
    pub images: Vec<String>,
}

/// What is shown of a replica set of a deployment.
#[derive(Debug, Clone)]
pub struct ReplicaSetInfo {
    pub name: String,
    pub namespace: String,
    pub revision: String,
    pub desired: i32,
    pub current: i32,
    pub ready: i32,
    pub age: String,
    pub images: Vec<String>,
    pub created_at: String,
}

/// What is shown of a namespace.
#[derive(Debug, Clone)]
pub struct NamespaceSummary {
    pub id: String,
    pub name: String,
    pub namespace: String,
    pub age: String,
    pub labels: std::collections::BTreeMap<String, String>,
    pub status: String,
    pub images: Vec<String>,
    pub created_at: i64,
}

/// What is shown of an event of the cluster.
#[derive(Debug, Clone)]
pub struct ClusterEventSummary {
    pub id: String,
    pub name: String,
    pub namespace: String,
    pub age: String,
    pub labels: std::collections::BTreeMap<String, String>,
    pub status: String,
    pub images: Vec<String>,
    pub created_at: i64,
    pub event_type: String,
    pub reason: String,
    pub message: String,
    pub object: String,
    pub count: i32,
}

/// What is shown of a node.
#[derive(Debug, Clone)]
pub struct NodeSummary {
    pub id: String,
    pub name: String,
    pub namespace: String,
    pub age: String,
    pub labels: std::collections::BTreeMap<String, String>,
    pub status: String,
    pub images: Vec<String>,
    pub created_at: i64,
    pub roles: String,
    pub version: String,
    pub internal_ip: String,
    pub os_image: String,
    pub kernel_version: String,
    pub container_runtime: String,
    pub taints: Vec<String>,
    pub capacity_cpu: String,
    pub capacity_memory: String,
    pub capacity_pods: String,
    pub allocatable_cpu: String,
    pub allocatable_memory: String,
    pub allocatable_pods: String,
}

/// What is shown of a release of the package manager.
#[derive(Debug, Clone)]
pub struct HelmReleaseSummary {
    pub id: String,
    pub name: String,
    pub namespace: String,
    pub age: String,
    pub labels: std::collections::BTreeMap<String, String>,
    pub status: String,
    pub images: Vec<String>,
    pub created_at: i64,
    pub revision: String,
    pub chart: String,
    pub app_version: String,
    pub updated: String,
}

/// What is shown of a chart of the package manager.
#[derive(Debug, Clone)]
pub struct HelmChartSummary {
    pub id: String,
    pub name: String,
    pub namespace: String,
    pub age: String,
    pub labels: std::collections::BTreeMap<String, String>,
    pub status: String,
    pub images: Vec<String>,
    pub created_at: i64,
    pub chart: String,
    pub version: String,
    pub app_version: String,
    pub description: String,
}

/// Whether the package manager can be run, and what it says of itself.
#[derive(Debug, Clone)]
pub struct HelmAvailability {
    pub available: bool,
    pub version: Option<String>,
    pub message: Option<String>,
}

} // verus!
