//! Device provisioning and update: the pure computation the device store
//! persists — the ACL rule arrays derived for the new identity, the
//! broker credentials, and the label-set reconciliation that decides
//! which label relations to add or drop.

use vstd::prelude::*;

use crate::oai_schema::CreateDevice;
use crate::oai_schema::UpdateDevice;
use crate::text::str_eq;
use crate::topics::fresh_id;
use crate::topics::is_correlation_id;
use crate::topics::publish_patterns;
use crate::topics::rules_for;
use crate::topics::subscribe_patterns;
use crate::topics::ACLRules;

verus! {

/// Membership of a string among a list of ids.
pub open spec fn in_ids(ids: Seq<Seq<char>>, x: Seq<char>) -> bool {
    exists|i: int| 0 <= i < ids.len() && ids[i] == x
}

/// No id occurs twice.
pub open spec fn distinct_ids(ids: Seq<Seq<char>>) -> bool {
    forall|i: int, j: int| 0 <= i < j < ids.len() ==> ids[i] != ids[j]
}

proof fn lemma_in_ids_push(s: Seq<Seq<char>>, e: Seq<char>, x: Seq<char>)
    ensures
        in_ids(s.push(e), x) <==> (in_ids(s, x) || x == e),
{
    if in_ids(s, x) {
        let i = choose|i: int| 0 <= i < s.len() && s[i] == x;
        assert(s.push(e)[i] == x);
    }
    if x == e {
        assert(s.push(e)[s.len() as int] == x);
    }
    if in_ids(s.push(e), x) {
        let i = choose|i: int| 0 <= i < s.push(e).len() && s.push(e)[i] == x;
        if i < s.len() {
            assert(s[i] == x);
        }
    }
}

proof fn lemma_distinct_push(s: Seq<Seq<char>>, e: Seq<char>)
    requires
        distinct_ids(s),
        !in_ids(s, e),
    ensures
        distinct_ids(s.push(e)),
{
    assert forall|i: int, j: int| 0 <= i < j < s.push(e).len() implies s.push(e)[i] != s.push(e)[j]
        by {
        if j < s.len() {
        } else {
            assert(s.push(e)[j] == e);
            assert(s.push(e)[i] == s[i]);
            if s[i] == e {
                assert(in_ids(s, e));
            }
        }
    }
}

/// Whether `v` holds a string whose characters equal `s`.
pub fn contains_str(v: &Vec<String>, s: &str) -> (r: bool)
    ensures
        r == in_ids(v.deep_view(), s@),
{
    let n = v.len();
    let mut i: usize = 0;
    while i < n
        invariant
            n == v@.len(),
            i <= n,
            forall|j: int| 0 <= j < i ==> v.deep_view()[j] != s@,
        decreases n - i,
    {
        if str_eq(v[i].as_str(), s) {
            proof {
                assert(v.deep_view()[i as int] == s@);
            }
            return true;
        }
        i = i + 1;
    }
    false
}

/// The ids of `from` that `other` lacks, each listed once.
fn diff_ids(from: &Vec<String>, other: &Vec<String>) -> (r: Vec<String>)
    ensures
        forall|x: Seq<char>|
            #[trigger] in_ids(r.deep_view(), x) <==> (in_ids(from.deep_view(), x) && !in_ids(
                other.deep_view(),
                x,
            )),
        distinct_ids(r.deep_view()),
{
    let n = from.len();
    let mut out: Vec<String> = Vec::new();
    let mut i: usize = 0;
    proof {
        assert(from.deep_view().take(0) =~= Seq::<Seq<char>>::empty());
    }
    while i < n
        invariant
            n == from@.len(),
            i <= n,
            forall|x: Seq<char>|
                #[trigger] in_ids(out.deep_view(), x) <==> (in_ids(
                    from.deep_view().take(i as int),
                    x,
                ) && !in_ids(other.deep_view(), x)),
            distinct_ids(out.deep_view()),
        decreases n - i,
    {
        let ghost pre = from.deep_view().take(i as int);
        let ghost cur = from.deep_view()[i as int];
        proof {
            assert(from.deep_view().take(i + 1) =~= pre.push(cur));
        }
        let x = &from[i];
        proof {
            assert(x@ == cur);
        }
        if !contains_str(other, x.as_str()) && !contains_str(&out, x.as_str()) {
            let ghost out0 = out.deep_view();
            out.push(x.clone());
            proof {
                assert(out.deep_view() =~= out0.push(cur));
                lemma_distinct_push(out0, cur);
                assert forall|y: Seq<char>| #[trigger] in_ids(out.deep_view(), y) <==> (in_ids(
                    pre.push(cur),
                    y,
                ) && !in_ids(other.deep_view(), y)) by {
                    lemma_in_ids_push(out0, cur, y);
                    lemma_in_ids_push(pre, cur, y);
                }
            }
        } else {
            proof {
                assert forall|y: Seq<char>| #[trigger] in_ids(out.deep_view(), y) <==> (in_ids(
                    pre.push(cur),
                    y,
                ) && !in_ids(other.deep_view(), y)) by {
                    lemma_in_ids_push(pre, cur, y);
                    if y == cur && in_ids(pre.push(cur), y) && !in_ids(other.deep_view(), y) {
                        assert(in_ids(out.deep_view(), cur) || in_ids(
                            from.deep_view().take(i as int),
                            cur,
                        ));
                    }
                }
            }
        }
        i = i + 1;
    }
    proof {
        assert(from.deep_view().take(n as int) =~= from.deep_view());
    }
    out
}

/// The label relations to add and to drop when a device's label set is
/// replaced: the first list holds the new ids not yet attached, the
/// second the attached ids no longer wanted, each without duplicates.
pub fn label_diff(old_ids: &Vec<String>, new_ids: &Vec<String>) -> (r: (Vec<String>, Vec<String>))
    ensures
        forall|x: Seq<char>|
            #[trigger] in_ids(r.0.deep_view(), x) <==> (in_ids(new_ids.deep_view(), x) && !in_ids(
                old_ids.deep_view(),
                x,
            )),
        forall|x: Seq<char>|
            #[trigger] in_ids(r.1.deep_view(), x) <==> (in_ids(old_ids.deep_view(), x) && !in_ids(
                new_ids.deep_view(),
                x,
            )),
        distinct_ids(r.0.deep_view()),
        distinct_ids(r.1.deep_view()),
{
    let need_add = diff_ids(new_ids, old_ids);
    let need_del = diff_ids(old_ids, new_ids);
    (need_add, need_del)
}

/// A device record as the store persists it at provisioning time.
#[derive(Debug, Clone, PartialEq, Eq)]
pub struct DeviceRecord {
    pub id: String,
    pub account_id: String,
    pub schema_id: String,
    pub name: String,
    pub label_version: i64,
    pub is_active: bool,
    pub is_online: bool,
    pub mqtt_username: String,
    pub mqtt_password: String,
    pub acl_pubs: Vec<String>,
    pub acl_subs: Vec<String>,
    pub is_super_device: bool,
}

/// Builds the record for a newly provisioned device: a fresh device id,
/// broker credentials of the form `{device_id}/{account_id}`, and exactly
/// the ACL rule arrays derived for the new identity.
pub fn provision_device(account_id: &str, req: &CreateDevice) -> (r: DeviceRecord)
    ensures
        is_correlation_id(r.id@),
        r.account_id@ == account_id@,
        r.schema_id == req.schema_id,
        r.name == req.name,
        r.mqtt_password == req.mqtt_password,
        r.label_version == 0,
        r.is_active == true,
        r.is_online == false,
        r.is_super_device == false,
        r.mqtt_username@ == r.id@ + "/"@ + account_id@,
        r.acl_pubs.deep_view() == publish_patterns(account_id@, r.id@),
        r.acl_subs.deep_view() == subscribe_patterns(account_id@, r.id@),
{
    let device_id = fresh_id();
    let acl = ACLRules::new(account_id.to_owned(), device_id.clone());
    let rules = rules_for(&acl);
    let mut mqtt_username = device_id.clone();
    mqtt_username.append("/");
    mqtt_username.append(account_id);
    DeviceRecord {
        id: device_id,
        account_id: account_id.to_owned(),
        schema_id: req.schema_id.clone(),
        name: req.name.clone(),
        label_version: 0,
        is_active: true,
        is_online: false,
        mqtt_username,
        mqtt_password: req.mqtt_password.clone(),
        acl_pubs: rules.publish,
        acl_subs: rules.subscribe,
        is_super_device: false,
    }
}

/// Applies a partial update to a device record. Requested fields are
/// overwritten and the rest kept; when a new label set is given, the
/// relations to add and drop are computed, and the label version is
/// stamped with the caller's clock exactly when the set actually changed.
pub fn apply_device_update(
    device: DeviceRecord,
    req: &UpdateDevice,
    old_label_ids: &Vec<String>,
    now_millis: i64,
) -> (r: (DeviceRecord, Vec<String>, Vec<String>))
    ensures
        req.name matches Some(nm) ==> r.0.name == nm,
        req.name is None ==> r.0.name == device.name,
        req.is_active matches Some(b) ==> r.0.is_active == b,
        req.is_active is None ==> r.0.is_active == device.is_active,
        req.schema_id matches Some(sid) ==> r.0.schema_id == sid,
        req.schema_id is None ==> r.0.schema_id == device.schema_id,
        req.label_ids is None ==> r.1@.len() == 0 && r.2@.len() == 0 && r.0.label_version
            == device.label_version,
        req.label_ids matches Some(new_ids) ==> ({
            &&& forall|x: Seq<char>|
                #[trigger] in_ids(r.1.deep_view(), x) <==> (in_ids(new_ids.deep_view(), x)
                    && !in_ids(old_label_ids.deep_view(), x))
            &&& forall|x: Seq<char>|
                #[trigger] in_ids(r.2.deep_view(), x) <==> (in_ids(old_label_ids.deep_view(), x)
                    && !in_ids(new_ids.deep_view(), x))
            &&& r.0.label_version == (if exists|x: Seq<char>|
                #[trigger] in_ids(new_ids.deep_view(), x) != in_ids(old_label_ids.deep_view(), x) {
                now_millis
            } else {
                device.label_version
            })
        }),
        r.0.id == device.id,
        r.0.account_id == device.account_id,
        r.0.mqtt_username == device.mqtt_username,
        r.0.mqtt_password == device.mqtt_password,
        r.0.acl_pubs == device.acl_pubs,
        r.0.acl_subs == device.acl_subs,
        r.0.is_online == device.is_online,
        r.0.is_super_device == device.is_super_device,
{
    let mut updated = device;
    let mut need_add: Vec<String> = Vec::new();
    let mut need_del: Vec<String> = Vec::new();
    match &req.label_ids {
        Some(new_ids) => {
            let (add, del) = label_diff(old_label_ids, new_ids);
            let changed = add.len() > 0 || del.len() > 0;
            proof {
                let new_dv = new_ids.deep_view();
                let old_dv = old_label_ids.deep_view();
                if changed {
                    if add.deep_view().len() > 0 {
                        assert(in_ids(add.deep_view(), add.deep_view()[0]));
                    } else {
                        assert(in_ids(del.deep_view(), del.deep_view()[0]));
                    }
                } else {
                    assert forall|x: Seq<char>| #[trigger] in_ids(new_dv, x) == in_ids(old_dv, x)
                        by {
                        if in_ids(new_dv, x) && !in_ids(old_dv, x) {
                            assert(in_ids(add.deep_view(), x));
                        }
                        if in_ids(old_dv, x) && !in_ids(new_dv, x) {
                            assert(in_ids(del.deep_view(), x));
                        }
                    }
                }
            }
            if changed {
                updated.label_version = now_millis;
            }
            need_add = add;
            need_del = del;
        },
        None => {},
    }
    match &req.name {
        Some(name) => {
            updated.name = name.clone();
        },
        None => {},
    }
    match &req.is_active {
        Some(is_active) => {
            updated.is_active = *is_active;
        },
        None => {},
    }
    match &req.schema_id {
        Some(schema_id) => {
            updated.schema_id = schema_id.clone();
        },
        None => {},
    }
    (updated, need_add, need_del)
}

} // verus!
