//! Target providers and the decisions they make

use vstd::prelude::*;

pub mod cgroups;
pub mod errors;
pub mod docker;
pub mod kubernetes;

use crate::polling::providers::docker::DockerInitError;
use crate::polling::providers::kubernetes::KubernetesInitError;

verus! {

/// Options of the Kubernetes provider
#[derive(Clone, Debug, PartialEq, Eq)]
pub struct KubernetesOptions {
    /// Location of kubernetes config file (used to connect to the cluster)
    pub kube_config: Option<String>,
}

/// Type of provider to use to generate collection events
#[derive(Clone, Debug, PartialEq, Eq)]
pub enum ProviderType {
    Docker,
    Kubernetes(KubernetesOptions),
}

impl ProviderType {
    /// The name of the provider type, as serialized
    pub fn name(&self) -> (r: &'static str)
        ensures
            self is Docker ==> r@ == "docker"@,
            self is Kubernetes ==> r@ == "kubernetes"@,
    {
        match self {
            ProviderType::Docker => "docker",
            ProviderType::Kubernetes(_) => "kubernetes",
        }
    }
}

/// An error that occurred during provider initialization/connection check:
/// the suggestion printed to the user, and the description of the error
/// behind it, if any
pub struct InitializationError {
    pub suggestion: String,
    pub original: Option<String>,
}

impl InitializationError {
    /// The initialization error a Docker provider error gives
    pub fn from_docker(err: DockerInitError) -> (r: Self)
        ensures
            r.suggestion@ == err.spec_suggestion(),
            r.original == match err {
                DockerInitError::ConnectionFailed(e) => Some(e),
                DockerInitError::InvalidCgroupMount => None::<String>,
            },
    {
        let suggestion = err.suggestion();
        match err {
            DockerInitError::ConnectionFailed(e) => InitializationError { suggestion, original: Some(e) },
            DockerInitError::InvalidCgroupMount => InitializationError { suggestion, original: None },
        }
    }

    /// The initialization error a Kubernetes provider error gives
    pub fn from_kubernetes(err: KubernetesInitError) -> (r: Self)
        ensures
            r.suggestion@ == err.spec_suggestion(),
            r.original == match err {
                KubernetesInitError::ConfigLoadError(e) => Some(e),
                KubernetesInitError::NodeFetchError(e) => Some(e),
                _ => None::<String>,
            },
    {
        let suggestion = err.suggestion();
        match err {
            KubernetesInitError::ConfigLoadError(e) => InitializationError { suggestion, original: Some(e) },
            KubernetesInitError::NodeFetchError(e) => InitializationError { suggestion, original: Some(e) },
            _ => InitializationError { suggestion, original: None },
        }
    }
}

/// A step of a poll: stop collecting the target with the given id, or start
/// collecting it
pub enum PollStep {
    Stop(String),
    Start(String),
}

/// The id a step is about, and whether it starts collection
pub open spec fn step_view(s: PollStep) -> (Seq<char>, bool) {
    match s {
        PollStep::Stop(id) => (id@, false),
        PollStep::Start(id) => (id@, true),
    }
}

/// The steps of a poll, given the ids an update of the pool reports as added
/// and removed: a stop for each removed id, in order, then a start for each
/// added id, in order
pub fn poll_steps(added: &Vec<String>, removed: &Vec<String>) -> (r: Vec<PollStep>)
    requires
        added@.len() + removed@.len() <= usize::MAX,
    ensures
        r@.len() == removed@.len() + added@.len(),
        forall|i: int| 0 <= i < removed@.len() ==> #[trigger] step_view(r@[i]) == (removed@[i]@, false),
        forall|i: int|
            0 <= i < added@.len() ==> #[trigger] step_view(r@[removed@.len() + i]) == (
                added@[i]@,
                true,
            ),
{
    let mut steps: Vec<PollStep> = Vec::new();
    let mut i: usize = 0;
    while i < removed.len()
        invariant
            i <= removed@.len(),
            steps@.len() == i,
            forall|j: int| 0 <= j < i ==> #[trigger] step_view(steps@[j]) == (removed@[j]@, false),
        decreases removed@.len() - i,
    {
        steps.push(PollStep::Stop(removed[i].clone()));
        i += 1;
    }
    let n = removed.len();
    let mut k: usize = 0;
    while k < added.len()
        invariant
            k <= added@.len(),
            n == removed@.len(),
            added@.len() + removed@.len() <= usize::MAX,
            steps@.len() == n + k,
            forall|j: int| 0 <= j < n ==> #[trigger] step_view(steps@[j]) == (removed@[j]@, false),
            forall|j: int| 0 <= j < k ==> #[trigger] step_view(steps@[n + j]) == (added@[j]@, true),
        decreases added@.len() - k,
    {
        steps.push(PollStep::Start(added[k].clone()));
        assert(step_view(steps@[n + k as int]) == (added@[k as int]@, true));
        k += 1;
    }
    steps
}

} // verus!
