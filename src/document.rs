//! Documents: data held for a form, and the phase a workflow has reached.
use vstd::prelude::*;
use crate::validation::text_eq;
use crate::value::Value;

verus! {

/// Relies on `chrono::Utc::now` and `DateTime::timestamp_millis`: the current
/// time as milliseconds since the Unix epoch. Nothing is promised of it.
#[verifier::external_body]
fn now_millis() -> (r: i64) {
    chrono::Utc::now().timestamp_millis()
}

/// The value of the first entry among the first `n` whose key is `key`.
pub open spec fn lookup_in(data: Seq<(String, Value)>, key: Seq<char>, n: nat) -> Option<Value>
    decreases n,
{
    if n == 0 {
        None
    } else {
        match lookup_in(data, key, (n - 1) as nat) {
            Some(v) => Some(v),
            None => if data[n - 1].0@ == key {
                Some(data[n - 1].1)
            } else {
                None
            },
        }
    }
}

/// The value stored under `key`.
pub open spec fn lookup(data: Seq<(String, Value)>, key: Seq<char>) -> Option<Value> {
    lookup_in(data, key, data.len())
}

/// A data instance bound to one form and one workflow.
///
/// `current_phase` is empty until the document enters its workflow.
#[derive(Debug)]
pub struct Document {
    pub id: String,
    pub form_id: String,
    pub workflow_id: String,
    /// Field id and value pairs; a key's value is that of its first entry.
    pub data: Vec<(String, Value)>,
    pub current_phase: String,
    /// Milliseconds since the Unix epoch.
    pub created_at: i64,
    /// Milliseconds since the Unix epoch.
    pub updated_at: i64,
}

impl Document {
    /// A document with no data that has not entered its workflow yet.
    pub fn new(id: &str, form_id: &str, workflow_id: &str) -> (r: Self)
        ensures
            r.id@ == id@,
            r.form_id@ == form_id@,
            r.workflow_id@ == workflow_id@,
            r.data@.len() == 0,
            r.current_phase@.len() == 0,
            r.created_at == r.updated_at,
    {
        let now = now_millis();
        Document {
            id: String::from_str(id),
            form_id: String::from_str(form_id),
            workflow_id: String::from_str(workflow_id),
            data: Vec::new(),
            current_phase: String::new(),
            created_at: now,
            updated_at: now,
        }
    }

    /// The value stored for `field_id`.
    pub fn get_value(&self, field_id: &str) -> (r: Option<&Value>)
        ensures
            r is Some <==> lookup(self.data@, field_id@) is Some,
            r matches Some(v) ==> lookup(self.data@, field_id@) == Some(*v),
    {
        match find_key(&self.data, field_id) {
            Some(i) => {
                proof {
                    lemma_lookup_stays(self.data@, field_id@, (i + 1) as nat, self.data@.len());
                }
                Some(&self.data[i].1)
            },
            None => None,
        }
    }

    /// Stores `value` for `field_id`, replacing any earlier value, and
    /// records the time of the change.
    pub fn set_value(&mut self, field_id: &str, value: Value)
        ensures
            lookup(final(self).data@, field_id@) == Some(value),
            forall|k: Seq<char>|
                k != field_id@ ==> #[trigger] lookup(final(self).data@, k) == lookup(old(self).data@, k),
            final(self).id == old(self).id,
            final(self).form_id == old(self).form_id,
            final(self).workflow_id == old(self).workflow_id,
            final(self).current_phase == old(self).current_phase,
            final(self).created_at == old(self).created_at,
    {
        let ghost old_data = self.data@;
        let entry = (String::from_str(field_id), value);
        match find_key(&self.data, field_id) {
            Some(i) => {
                let _ = self.data.remove(i);
                self.data.insert(i, entry);
                proof {
                    assert(self.data@ =~= old_data.update(i as int, entry));
                    lemma_lookup_prefix(old_data, self.data@, field_id@, i as nat);
                    assert(lookup_in(self.data@, field_id@, (i + 1) as nat) == Some(value));
                    lemma_lookup_stays(self.data@, field_id@, (i + 1) as nat, self.data@.len());
                    assert forall|k: Seq<char>| k != field_id@ implies #[trigger] lookup(self.data@, k) == lookup(
                        old_data,
                        k,
                    ) by {
                        lemma_lookup_update_other(old_data, i as int, entry, k, old_data.len());
                    }
                }
            },
            None => {
                self.data.push(entry);
                proof {
                    let n = old_data.len();
                    assert(self.data@ == old_data.push(entry));
                    assert(self.data@[n as int] == entry);
                    lemma_lookup_prefix(old_data, self.data@, field_id@, n);
                    assert(lookup_in(self.data@, field_id@, n + 1) == Some(value));
                    assert forall|k: Seq<char>| k != field_id@ implies #[trigger] lookup(self.data@, k) == lookup(
                        old_data,
                        k,
                    ) by {
                        lemma_lookup_prefix(old_data, self.data@, k, n);
                        assert(lookup_in(self.data@, k, n + 1) == lookup_in(self.data@, k, n));
                    }
                }
            },
        }
        self.updated_at = now_millis();
    }
}

/// The position of the first entry whose key is `key`.
fn find_key(data: &Vec<(String, Value)>, key: &str) -> (r: Option<usize>)
    ensures
        r is None <==> lookup(data@, key@) is None,
        r matches Some(i) ==> {
            &&& i < data@.len()
            &&& data@[i as int].0@ == key@
            &&& lookup_in(data@, key@, i as nat) is None
            &&& lookup_in(data@, key@, (i + 1) as nat) == Some(data@[i as int].1)
        },
{
    let mut i: usize = 0;
    while i < data.len()
        invariant
            i <= data@.len(),
            lookup_in(data@, key@, i as nat) is None,
        decreases data@.len() - i,
    {
        if text_eq(data[i].0.as_str(), key) {
            proof {
                lemma_lookup_stays(data@, key@, (i + 1) as nat, data@.len());
            }
            return Some(i);
        }
        i = i + 1;
    }
    None
}

proof fn lemma_lookup_stays(data: Seq<(String, Value)>, key: Seq<char>, m: nat, n: nat)
    requires
        m <= n <= data.len(),
        lookup_in(data, key, m) is Some,
    ensures
        lookup_in(data, key, n) == lookup_in(data, key, m),
    decreases n - m,
{
    if m < n {
        lemma_lookup_stays(data, key, m, (n - 1) as nat);
    }
}

proof fn lemma_lookup_prefix(s: Seq<(String, Value)>, t: Seq<(String, Value)>, key: Seq<char>, n: nat)
    requires
        n <= s.len(),
        n <= t.len(),
        forall|j: int| 0 <= j < n ==> s[j] == t[j],
    ensures
        lookup_in(s, key, n) == lookup_in(t, key, n),
    decreases n,
{
    if n > 0 {
        lemma_lookup_prefix(s, t, key, (n - 1) as nat);
        assert(s[n - 1] == t[n - 1]);
    }
}

proof fn lemma_lookup_update_other(
    s: Seq<(String, Value)>,
    i: int,
    e: (String, Value),
    key: Seq<char>,
    n: nat,
)
    requires
        0 <= i < s.len(),
        n <= s.len(),
        s[i].0@ != key,
        e.0@ != key,
    ensures
        lookup_in(s.update(i, e), key, n) == lookup_in(s, key, n),
    decreases n,
{
    if n > 0 {
        lemma_lookup_update_other(s, i, e, key, (n - 1) as nat);
    }
}

} // verus!
