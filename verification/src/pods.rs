//! The pod IP resolver: out of the pods a list request returned, keep the
//! addresses of those that are running and already have an address.

use vstd::prelude::*;

verus! {

/// The lifecycle state of a pod.
#[derive(Clone, Copy, Debug, PartialEq, Eq, Structural)]
pub enum PodPhase {
    Pending,
    Running,
    Succeeded,
    Failed,
    Unknown,
}

/// What the resolver reads of one pod: its name, its phase, and its address
/// if one is assigned.
pub struct PodRecord {
    /// The pod's name, unique within its namespace.
    pub name: String,
    /// The pod's phase.
    pub phase: PodPhase,
    /// The pod's IP address, absent while the pod is not yet networked.
    pub ip: Option<String>,
}

impl PodRecord {
    /// A pod contributes its address exactly when it is running and has a
    /// non-empty address assigned.
    pub open spec fn eligible(&self) -> bool {
        &&& self.phase == PodPhase::Running
        &&& self.ip is Some
        &&& self.ip->0@.len() > 0
    }
}

/// The addresses of the eligible pods, in the order given.
pub open spec fn running_ips(pods: Seq<PodRecord>) -> Seq<Seq<char>>
    decreases pods.len(),
{
    if pods.len() == 0 {
        Seq::empty()
    } else if pods.last().eligible() {
        running_ips(pods.drop_last()).push(pods.last().ip->0@)
    } else {
        running_ips(pods.drop_last())
    }
}

/// Retains the addresses of running, address-assigned pods, in the order the
/// server returned them; pods that are pending, finished, of unknown phase,
/// or not yet networked are discarded.
pub fn resolve_pod_ips(pods: &Vec<PodRecord>) -> (r: Vec<String>)
    ensures
        r@.map_values(|ip: String| ip@) == running_ips(pods@),
{
    let mut out: Vec<String> = Vec::new();
    let mut i: usize = 0;
    proof {
        assert(out@.map_values(|ip: String| ip@) =~= running_ips(pods@.take(0)));
    }
    while i < pods.len()
        invariant
            i <= pods@.len(),
            out@.map_values(|ip: String| ip@) == running_ips(pods@.take(i as int)),
        decreases pods@.len() - i,
    {
        let keep = match (&pods[i].phase, &pods[i].ip) {
            (PodPhase::Running, Some(ip)) => !ip.as_str().is_empty(),
            _ => false,
        };
        if keep {
            let ip = match &pods[i].ip {
                Some(ip) => ip.clone(),
                None => String::new(),
            };
            out.push(ip);
        }
        proof {
            assert(pods@.take(i + 1).drop_last() =~= pods@.take(i as int));
            assert(pods@.take(i + 1).last() == pods@[i as int]);
            assert(keep == pods@[i as int].eligible());
            assert(out@.map_values(|ip: String| ip@) =~= running_ips(pods@.take(i + 1)));
        }
        i = i + 1;
    }
    proof {
        assert(pods@.take(pods@.len() as int) =~= pods@);
    }
    out
}

/// Every address in the result belongs to some running pod with that very
/// address assigned and non-empty: no pod of another phase, and no pod
/// without an address, ever contributes.
pub proof fn lemma_running_ips_only_running(pods: Seq<PodRecord>, j: int)
    requires
        0 <= j < running_ips(pods).len(),
    ensures
        exists|i: int|
            0 <= i < pods.len() && (#[trigger] pods[i]).eligible() && pods[i].ip->0@ == running_ips(
                pods,
            )[j],
    decreases pods.len(),
{
    if pods.len() == 0 {
    } else if pods.last().eligible() && j == running_ips(pods).len() - 1 {
        assert(pods[pods.len() - 1].eligible());
        assert(pods[pods.len() - 1].ip->0@ == running_ips(pods)[j]);
    } else {
        lemma_running_ips_only_running(pods.drop_last(), j);
        let i = choose|i: int|
            0 <= i < pods.drop_last().len() && (#[trigger] pods.drop_last()[i]).eligible()
                && pods.drop_last()[i].ip->0@ == running_ips(pods.drop_last())[j];
        assert(pods[i] == pods.drop_last()[i]);
        assert(pods[i].eligible() && pods[i].ip->0@ == running_ips(pods)[j]);
    }
}

/// Conversely, no eligible pod is dropped: the address of every running,
/// address-assigned pod appears in the result.
pub proof fn lemma_running_ips_complete(pods: Seq<PodRecord>, i: int)
    requires
        0 <= i < pods.len(),
        pods[i].eligible(),
    ensures
        running_ips(pods).contains(pods[i].ip->0@),
    decreases pods.len(),
{
    if i == pods.len() - 1 {
        let r = running_ips(pods);
        assert(r.last() == pods[i].ip->0@);
        assert(r.contains(pods[i].ip->0@)) by {
            assert(r[r.len() - 1] == pods[i].ip->0@);
        }
    } else {
        assert(pods.drop_last()[i] == pods[i]);
        lemma_running_ips_complete(pods.drop_last(), i);
        let prev = running_ips(pods.drop_last());
        let j = choose|j: int| 0 <= j < prev.len() && prev[j] == pods[i].ip->0@;
        assert(running_ips(pods)[j] == pods[i].ip->0@);
    }
}

} // verus!
