//! Workload objects: detached snapshots of one remote workload's metadata
//! and spec, with uniform accessors and the scale mutation's local model.

use vstd::prelude::*;

use crate::error::Error;
use crate::labels::{build_label_selector, selector_of};
use crate::patch::{prepare_scale, ScalePatch};
use crate::strmap::{map_of, StringMap};
use crate::timestamp::{parse_rfc3339, rfc3339_parse, Timestamp};

verus! {

/// What a workload object denotes: its identity and the fields the
/// accessors read.
pub ghost struct WorkloadView {
    pub namespace: Seq<char>,
    pub name: Seq<char>,
    pub replicas: Option<u32>,
    pub labels: Option<Map<Seq<char>, Seq<char>>>,
    pub annotations: Map<Seq<char>, Seq<char>>,
}

/// A snapshot of one remote workload object, taken when it was listed.
///
/// The identity never changes; the snapshot becomes stale the moment another
/// actor mutates the remote object, and nothing here detects that.
pub struct WorkloadObject {
    /// The namespace the object lives in.
    pub namespace: String,
    /// The object's name, unique within kind and namespace.
    pub name: String,
    /// The declared replica count, absent on malformed or uninitialized
    /// objects.
    pub declared_replicas: Option<u32>,
    /// The pod-template labels, absent if the template metadata is missing.
    pub template_labels: Option<StringMap>,
    /// The object's annotations.
    pub annotations: StringMap,
}

impl View for WorkloadObject {
    type V = WorkloadView;

    open spec fn view(&self) -> WorkloadView {
        WorkloadView {
            namespace: self.namespace@,
            name: self.name@,
            replicas: self.declared_replicas,
            labels: match self.template_labels {
                Some(m) => Some(m@),
                None => None,
            },
            annotations: self.annotations@,
        }
    }
}

/// What `replicas` returns on a snapshot.
pub open spec fn spec_replicas(v: WorkloadView) -> Result<u32, Error> {
    match v.replicas {
        Some(n) => Ok(n),
        None => Err(Error::SpecFieldMissing),
    }
}

/// What `last_modified` returns on a snapshot: nothing when the annotation
/// was never set, the parsed instant when it parses, and a malformed-
/// annotation error otherwise.
pub open spec fn spec_last_modified(v: WorkloadView) -> Result<Option<Timestamp>, Error> {
    if !v.annotations.contains_key(crate::spec_last_modified_key()) {
        Ok(None)
    } else {
        match rfc3339_parse(v.annotations[crate::spec_last_modified_key()]) {
            Some(p) => Ok(Some(Timestamp { secs: p.0, nanos: p.1 })),
            None => Err(Error::AnnotationMalformed),
        }
    }
}

/// The snapshot a fresh read yields after the server merged a scale patch:
/// the declared replica count is the target, and the reserved annotation
/// carries the stamp; everything else is untouched.
pub open spec fn apply_scale(v: WorkloadView, replicas: u32, stamp_text: Seq<char>) -> WorkloadView {
    WorkloadView {
        replicas: Some(replicas),
        annotations: v.annotations.insert(crate::spec_last_modified_key(), stamp_text),
        ..v
    }
}

impl WorkloadObject {
    /// The annotation map is canonical, and so are the template labels when
    /// present.
    pub open spec fn wf(&self) -> bool {
        &&& self.annotations.wf()
        &&& match self.template_labels {
            Some(m) => m.wf(),
            None => true,
        }
    }

    /// The object's identity: namespace and name. Never fails.
    pub fn identity(&self) -> (r: (String, String))
        ensures
            r.0@ == self@.namespace,
            r.1@ == self@.name,
    {
        (self.namespace.clone(), self.name.clone())
    }

    /// The declared replica count; fails when the spec never declared one.
    pub fn replicas(&self) -> (r: Result<u32, Error>)
        ensures
            r == spec_replicas(self@),
    {
        match self.declared_replicas {
            Some(n) => Ok(n),
            None => Err(Error::SpecFieldMissing),
        }
    }

    /// The instant of the last successful scale, read from the reserved
    /// annotation: `None` when the annotation is absent, the parsed instant
    /// when it parses, and `AnnotationMalformed` otherwise — never a crash.
    pub fn last_modified(&self) -> (r: Result<Option<Timestamp>, Error>)
        requires
            self.wf(),
        ensures
            r == spec_last_modified(self@),
    {
        match self.annotations.get(crate::last_modified_key()) {
            None => Ok(None),
            Some(text) => match parse_rfc3339(text.as_str()) {
                Some(t) => Ok(Some(t)),
                None => Err(Error::AnnotationMalformed),
            },
        }
    }

    /// The selector that scopes a pod list to this workload's pods; fails
    /// when the pod-template labels are missing.
    pub fn pod_selector(&self) -> (r: Result<String, Error>)
        ensures
            (match r {
                Ok(s) => self.template_labels is Some && s@ == selector_of(
                    self.template_labels->0.spec_pair_views(),
                ),
                Err(e) => self.template_labels is None && e == Error::SpecFieldMissing,
            }),
    {
        match &self.template_labels {
            Some(labels) => Ok(build_label_selector(labels)),
            None => Err(Error::SpecFieldMissing),
        }
    }

    /// Reads the clock and composes this scale's patch body; the caller
    /// sends it and reports transport failures itself. Yields `None` only
    /// when the clock cannot be read or rendered at all; for stamps below
    /// the year 10000 the stamp's text parses back to the stamped instant.
    pub fn scale_patch(&self, replicas: u32) -> (r: Option<ScalePatch>)
        ensures
            (match r {
                Some(p) => {
                    &&& p.body@ == crate::patch::patch_body(
                        crate::spec_last_modified_key(),
                        p.stamp_text@,
                        replicas as int,
                    )
                    &&& p.stamp.wf()
                    &&& 0 <= p.stamp.secs
                    &&& p.stamp.secs < 253402300800 ==> rfc3339_parse(p.stamp_text@) == Some(
                        (p.stamp.secs, p.stamp.nanos),
                    )
                },
                None => true,
            }),
    {
        prepare_scale(replicas)
    }

    /// The snapshot a fresh read would yield once the server has merged the
    /// patch of a successful `scale`: the local model of that merge.
    pub fn with_scale_applied(&self, replicas: u32, stamp_text: &str) -> (r: WorkloadObject)
        requires
            self.wf(),
        ensures
            r.wf(),
            r@ == apply_scale(self@, replicas, stamp_text@),
    {
        let mut annotations = self.annotations.duplicate();
        annotations.insert(String::from_str(crate::last_modified_key()), String::from_str(
            stamp_text,
        ));
        let template_labels = match &self.template_labels {
            Some(m) => Some(m.duplicate()),
            None => None,
        };
        WorkloadObject {
            namespace: self.namespace.clone(),
            name: self.name.clone(),
            declared_replicas: Some(replicas),
            template_labels,
            annotations,
        }
    }
}

/// What a list request hands over for one workload object, as plain values;
/// label and annotation pairs may come in any order.
pub struct WorkloadRecord {
    /// The namespace the listing was scoped to.
    pub namespace: String,
    /// The object's name.
    pub name: String,
    /// The declared replica count, if the spec carries one.
    pub replicas: Option<u32>,
    /// The pod-template labels, if the template metadata is present.
    pub template_labels: Option<Vec<(String, String)>>,
    /// The object's annotations.
    pub annotations: Vec<(String, String)>,
}

/// The snapshot a record denotes.
pub open spec fn record_view(rec: WorkloadRecord) -> WorkloadView {
    WorkloadView {
        namespace: rec.namespace@,
        name: rec.name@,
        replicas: rec.replicas,
        labels: match rec.template_labels {
            Some(v) => Some(map_of(v@)),
            None => None,
        },
        annotations: map_of(rec.annotations@),
    }
}

/// Builds the snapshot one record denotes, canonicalizing its maps.
pub fn object_from_record(rec: &WorkloadRecord) -> (r: WorkloadObject)
    ensures
        r.wf(),
        r@ == record_view(*rec),
{
    WorkloadObject {
        namespace: rec.namespace.clone(),
        name: rec.name.clone(),
        declared_replicas: rec.replicas,
        template_labels: match &rec.template_labels {
            Some(v) => Some(StringMap::from_pairs(v)),
            None => None,
        },
        annotations: StringMap::from_pairs(&rec.annotations),
    }
}

/// Builds the snapshots a whole list response denotes, in order. A response
/// that matched nothing yields the empty sequence, not an error.
pub fn objects_from_records(records: &Vec<WorkloadRecord>) -> (r: Vec<WorkloadObject>)
    ensures
        r@.len() == records@.len(),
        forall|i: int| 0 <= i < r@.len() ==> (#[trigger] r@[i]).wf() && r@[i]@ == record_view(
            records@[i],
        ),
        records@.len() == 0 ==> r@.len() == 0,
{
    let mut out: Vec<WorkloadObject> = Vec::new();
    let mut i: usize = 0;
    while i < records.len()
        invariant
            i <= records@.len(),
            out@.len() == i,
            forall|j: int| 0 <= j < i ==> (#[trigger] out@[j]).wf() && out@[j]@ == record_view(
                records@[j],
            ),
        decreases records@.len() - i,
    {
        out.push(object_from_record(&records[i]));
        i = i + 1;
    }
    out
}

/// After a successful scale to `n`, a fresh read of the same object's
/// replica count yields exactly `n`.
pub proof fn lemma_scale_then_replicas(v: WorkloadView, n: u32, stamp_text: Seq<char>)
    ensures
        spec_replicas(apply_scale(v, n, stamp_text)) == Ok::<u32, Error>(n),
{
}

/// Across two successive successful scales whose stamps were taken in time
/// order, the last-modified reads are the stamped instants, in particular
/// non-decreasing.
pub proof fn lemma_scale_stamps_monotone(
    v: WorkloadView,
    n1: u32,
    s1: Seq<char>,
    t1: Timestamp,
    n2: u32,
    s2: Seq<char>,
    t2: Timestamp,
)
    requires
        rfc3339_parse(s1) == Some((t1.secs, t1.nanos)),
        rfc3339_parse(s2) == Some((t2.secs, t2.nanos)),
        t1.spec_le(&t2),
    ensures
        spec_last_modified(apply_scale(v, n1, s1)) == Ok::<Option<Timestamp>, Error>(Some(t1)),
        spec_last_modified(apply_scale(apply_scale(v, n1, s1), n2, s2)) == Ok::<
            Option<Timestamp>,
            Error,
        >(Some(t2)),
        (match (
            spec_last_modified(apply_scale(v, n1, s1)),
            spec_last_modified(apply_scale(apply_scale(v, n1, s1), n2, s2)),
        ) {
            (Ok(Some(first)), Ok(Some(second))) => first.spec_le(&second),
            _ => false,
        }),
{
    let key = crate::spec_last_modified_key();
    let v1 = apply_scale(v, n1, s1);
    let v2 = apply_scale(v1, n2, s2);
    assert(v1.annotations.contains_key(key) && v1.annotations[key] == s1);
    assert(v2.annotations.contains_key(key) && v2.annotations[key] == s2);
    assert(Timestamp { secs: t1.secs, nanos: t1.nanos } == t1);
    assert(Timestamp { secs: t2.secs, nanos: t2.nanos } == t2);
}

} // verus!
