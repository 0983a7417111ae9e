//! The decisions of the Kubernetes provider: the quality of service class of
//! a pod, which cgroup its statistics are read from, and the messages for the
//! pods that cannot be collected

use vstd::prelude::*;
use vstd::string::StringExecFns;
use crate::util::cgroup as cgroup_v;
use crate::util::cgroup::{build_systemd_cgroup_hierarchy, CgroupDriver, CgroupManager, CgroupPath, CgroupSlices};
use crate::util::cgroups;
use crate::util::path;
use crate::util::text::{self, to_lowercase};
use crate::shared::CollectionMethod;

verus! {

/// String representation for "None"
pub const NONE_STR: &'static str = "~";

/// Root cgroup for kubernetes pods to fall under
pub const ROOT_CGROUP: &'static str = "kubepods";

/// Name of the provider, as written in log file headers
pub const PROVIDER_TYPE: &'static str = "kubernetes";

/// Quality of service classes for pods
#[derive(Clone, Copy, Debug, PartialEq, Eq, Structural)]
pub enum QualityOfService {
    BestEffort,
    Guaranteed,
    Burstable,
}

/// The class named by a lowercase name
pub open spec fn class_named(name: Seq<char>) -> Option<QualityOfService> {
    if name == "besteffort"@ {
        Some(QualityOfService::BestEffort)
    } else if name == "guaranteed"@ {
        Some(QualityOfService::Guaranteed)
    } else if name == "burstable"@ {
        Some(QualityOfService::Burstable)
    } else {
        None
    }
}

impl QualityOfService {
    /// The lowercase name of the class
    pub open spec fn spec_name(&self) -> Seq<char> {
        match self {
            QualityOfService::BestEffort => "besteffort"@,
            QualityOfService::Guaranteed => "guaranteed"@,
            QualityOfService::Burstable => "burstable"@,
        }
    }

    /// The lowercase name of the class
    pub fn name(&self) -> (r: &'static str)
        ensures
            r@ == self.spec_name(),
    {
        match self {
            QualityOfService::BestEffort => "besteffort",
            QualityOfService::Guaranteed => "guaranteed",
            QualityOfService::Burstable => "burstable",
        }
    }

    /// The class a class name from a pod's status gives, compared in
    /// lowercase; `None` when the pod has no class or it names none
    pub fn from_class(qos_class: Option<&str>) -> (r: Option<Self>)
        ensures
            qos_class is None ==> r is None,
            qos_class matches Some(c) ==> r == class_named(text::lowercase(c@)),
    {
        match qos_class {
            None => None,
            Some(c) => {
                let lower = to_lowercase(c);
                if lower.eq(&"besteffort".to_owned()) {
                    Some(QualityOfService::BestEffort)
                } else if lower.eq(&"guaranteed".to_owned()) {
                    Some(QualityOfService::Guaranteed)
                } else if lower.eq(&"burstable".to_owned()) {
                    Some(QualityOfService::Burstable)
                } else {
                    None
                }
            },
        }
    }
}

/// The slices of a pod's cgroup: the root, its class and the pod
pub open spec fn pod_slices(uid: Seq<char>, qos: QualityOfService) -> Seq<Seq<char>> {
    seq![ROOT_CGROUP@, qos.spec_name(), "pod"@ + uid]
}

/// The path of a pod's cgroup for the given driver: the slices joined for
/// cgroupfs, their systemd slice names joined for systemd
pub open spec fn pod_path(uid: Seq<char>, qos: QualityOfService, driver: CgroupDriver) -> Seq<char> {
    let slices = pod_slices(uid, qos);
    match driver {
        CgroupDriver::Cgroupfs => path::join_spec(slices),
        CgroupDriver::Systemd => path::join_spec(
            Seq::new(slices.len(), |i: int| cgroup_v::systemd_slice_name(slices, i)),
        ),
    }
}

/// Gets the cgroup path of the pod with the given uid and class, detecting
/// the cgroup version and driver on the first lookups (systemd before
/// cgroupfs); the path is returned only when it exists
pub fn get_cgroup<F: Fn(&str) -> bool>(
    manager: &mut CgroupManager,
    uid: &str,
    qos: QualityOfService,
    probe: &F,
) -> (r: Option<CgroupPath>)
    requires
        forall|s: &str| #[trigger] probe.requires((s,)),
    ensures
        r matches Some(cp) ==> {
            &&& final(manager).spec_driver() == Some(cp.driver)
            &&& final(manager).spec_version() == Some(cp.version)
            &&& cp.path@ == pod_path(uid@, qos, cp.driver)
            &&& cgroup_v::exists_outcome(probe, Some(cp.path@), cp.version, true)
            &&& old(manager).spec_driver() matches Some(d) ==> cp.driver == d
            &&& (old(manager).spec_driver() is None && cp.driver == CgroupDriver::Cgroupfs)
                ==> cgroup_v::exists_outcome(
                probe,
                Some(pod_path(uid@, qos, CgroupDriver::Systemd)),
                cp.version,
                false,
            )
        },
        r is None ==> cgroup_v::lookup_failed(
            probe,
            pod_path(uid@, qos, CgroupDriver::Systemd),
            pod_path(uid@, qos, CgroupDriver::Cgroupfs),
            *old(manager),
            *final(manager),
        ),
        old(manager).spec_version() is Some ==> final(manager).spec_version() == old(manager).spec_version(),
        old(manager).spec_version() is None ==> cgroup_v::version_outcome(probe, final(manager).spec_version()),
{
    let mut pod_slice = "pod".to_owned();
    pod_slice.append(uid);
    let cgroupfs: [&str; 3] = [ROOT_CGROUP, qos.name(), pod_slice.as_str()];
    let ghost views = pod_slices(uid@, qos);
    assert(path::str_views(cgroupfs@) =~= views);
    let names = build_systemd_cgroup_hierarchy(cgroupfs.as_slice());
    let mut systemd: Vec<&str> = Vec::new();
    let mut i: usize = 0;
    while i < names.len()
        invariant
            i <= names@.len(),
            names@.len() == 3,
            views == pod_slices(uid@, qos),
            forall|k: int|
                0 <= k < names@.len() ==> #[trigger] names@[k]@ == cgroup_v::systemd_slice_name(views, k),
            path::str_views(systemd@) == Seq::new(i as nat, |k: int| cgroup_v::systemd_slice_name(views, k)),
        decreases names@.len() - i,
    {
        let ghost before = systemd@;
        let name = names[i].as_str();
        systemd.push(name);
        assert(path::str_views(systemd@) =~= path::str_views(before).push(name@));
        assert(path::str_views(systemd@) =~= Seq::new((i + 1) as nat, |k: int| cgroup_v::systemd_slice_name(views, k)));
        i += 1;
    }
    let slices = CgroupSlices { cgroupfs: cgroupfs.as_slice(), systemd: systemd.as_slice() };
    match manager.get_cgroup(slices, probe) {
        Ok(cp) => Some(cp),
        Err(_) => None,
    }
}

/// The class a pod's status gives through its class name, as `from_class`
/// reads it
pub open spec fn class_of(qos_class: Option<&str>) -> Option<QualityOfService> {
    match qos_class {
        None => None,
        Some(c) => class_named(text::lowercase(c@)),
    }
}

/// Gets the collection method of the pod with the given uid and class name:
/// the class must name one of the quality of service classes
/// (`FailedQosParse` otherwise, with nothing looked up), and the pod's cgroup
/// must exist (`CgroupNotFound` otherwise)
pub fn get_collection_method<F: Fn(&str) -> bool>(
    manager: &mut CgroupManager,
    uid: &str,
    qos_class: Option<&str>,
    probe: &F,
) -> (r: Result<CollectionMethod, StartCollectionError>)
    requires
        forall|s: &str| #[trigger] probe.requires((s,)),
    ensures
        (r matches Err(StartCollectionError::FailedQosParse)) <==> class_of(qos_class) is None,
        class_of(qos_class) is None ==> *final(manager) == *old(manager),
        r is Ok || (r matches Err(StartCollectionError::CgroupNotFound)) || (r matches Err(
            StartCollectionError::FailedQosParse,
        )),
        r matches Ok(CollectionMethod::LinuxCgroups(cp)) ==> {
            &&& final(manager).spec_driver() == Some(cp.driver)
            &&& final(manager).spec_version() == Some(cp.version)
            &&& cp.path@ == pod_path(uid@, class_of(qos_class).unwrap(), cp.driver)
            &&& cgroup_v::exists_outcome(probe, Some(cp.path@), cp.version, true)
            &&& old(manager).spec_driver() matches Some(d) ==> cp.driver == d
            &&& (old(manager).spec_driver() is None && cp.driver == CgroupDriver::Cgroupfs)
                ==> cgroup_v::exists_outcome(
                probe,
                Some(pod_path(uid@, class_of(qos_class).unwrap(), CgroupDriver::Systemd)),
                cp.version,
                false,
            )
        },
        (r matches Err(StartCollectionError::CgroupNotFound)) ==> cgroup_v::lookup_failed(
            probe,
            pod_path(uid@, class_of(qos_class).unwrap(), CgroupDriver::Systemd),
            pod_path(uid@, class_of(qos_class).unwrap(), CgroupDriver::Cgroupfs),
            *old(manager),
            *final(manager),
        ),
        class_of(qos_class) is Some && old(manager).spec_version() is None ==> cgroup_v::version_outcome(
            probe,
            final(manager).spec_version(),
        ),
        old(manager).spec_version() is Some ==> final(manager).spec_version() == old(manager).spec_version(),
{
    let qos = match QualityOfService::from_class(qos_class) {
        Some(q) => q,
        None => return Err(StartCollectionError::FailedQosParse),
    };
    match get_cgroup(manager, uid, qos, probe) {
        Some(cgroup) => Ok(CollectionMethod::LinuxCgroups(cgroup)),
        None => Err(StartCollectionError::CgroupNotFound),
    }
}

/// The name shown for an object: its name, or `~` when it has none
pub fn name<'a>(name_option: Option<&'a str>) -> (r: &'a str)
    ensures
        name_option matches Some(n) ==> r@ == n@,
        name_option is None ==> r@ == NONE_STR@,
{
    match name_option {
        Some(n) => n,
        None => NONE_STR,
    }
}

/// Possible error that can occur during Kubernetes pod collection target
/// initialization
pub enum StartCollectionError {
    /// The metadata could not be serialized, with the description of why
    MetadataSerializationError(String),
    CgroupNotFound,
    MissingPodUid,
    FailedQosParse,
}

/// How a pod is shown in messages: its name, else its uid, else `~`
pub open spec fn pod_display(name: Option<Seq<char>>, uid: Option<Seq<char>>) -> Seq<char> {
    match name {
        Some(n) => n,
        None => match uid {
            Some(u) => u,
            None => NONE_STR@,
        },
    }
}

/// The views of an optional string slice
pub open spec fn opt_str(s: Option<&str>) -> Option<Seq<char>> {
    match s {
        Some(x) => Some(x@),
        None => None,
    }
}

impl StartCollectionError {
    /// The warning printed for a pod with the given name, uid and class that
    /// could not be collected
    pub fn display(&self, pod_name: Option<&str>, pod_uid: Option<&str>, qos_class: Option<&str>) -> (r:
        String)
        ensures
            ({
                let shown = pod_display(opt_str(pod_name), opt_str(pod_uid));
                &&& self is CgroupNotFound ==> r@ == "Could not create pod metadata for pod "@
                    + shown + ": cgroup path could not be constructed or does not exist"@
                &&& self matches StartCollectionError::MetadataSerializationError(cause) ==> r@
                    == "Could not serialize metadata for pod "@ + shown + ": "@ + cause@
                &&& self is MissingPodUid ==> r@ == "Could not get uid for node "@ + shown
                    + "! This shouldn't happen"@
                &&& self is FailedQosParse ==> r@
                    == "Could not parse quality of service class for pod "@ + shown
                    + ": invalid value '"@ + pod_display(opt_str(qos_class), None) + "'"@
            }),
    {
        let shown = match pod_name {
            Some(n) => n,
            None => match pod_uid {
                Some(u) => u,
                None => NONE_STR,
            },
        };
        match self {
            StartCollectionError::CgroupNotFound => {
                let mut m = "Could not create pod metadata for pod ".to_owned();
                m.append(shown);
                m.append(": cgroup path could not be constructed or does not exist");
                m
            },
            StartCollectionError::MetadataSerializationError(cause) => {
                let mut m = "Could not serialize metadata for pod ".to_owned();
                m.append(shown);
                m.append(": ");
                m.append(cause.as_str());
                m
            },
            StartCollectionError::MissingPodUid => {
                let mut m = "Could not get uid for node ".to_owned();
                m.append(shown);
                m.append("! This shouldn't happen");
                m
            },
            StartCollectionError::FailedQosParse => {
                let mut m = "Could not parse quality of service class for pod ".to_owned();
                m.append(shown);
                m.append(": invalid value '");
                m.append(name(qos_class));
                m.append("'");
                m
            },
        }
    }
}

/// Possible errors that can occur during Kubernetes provider initialization;
/// the descriptions of outside errors are kept as text
pub enum KubernetesInitError {
    InvalidCgroupMount,
    /// The hostname was not valid text, with its debug representation
    InvalidHostnameError(String),
    ConfigLoadError(String),
    NodeDetectionError,
    NodeFetchError(String),
    MissingNodeNameError,
}

impl KubernetesInitError {
    /// The suggestion printed for the error
    pub open spec fn spec_suggestion(&self) -> Seq<char> {
        match self {
            KubernetesInitError::InvalidCgroupMount => cgroups::INVALID_CGROUP_MOUNT_MESSAGE@,
            KubernetesInitError::InvalidHostnameError(h) =>
                "Could not retrieve hostname to use for node detection: Invalid string '"@ + h@
                + "' returned"@,
            KubernetesInitError::ConfigLoadError(_) =>
                "Could not load kubernetes config. Make sure the current machine is a part of a cluster \nand has the cluster configuration copied to the config directory."@,
            KubernetesInitError::NodeDetectionError =>
                "Could not get the current node via the Kubernetes API. \nMake sure the current machine is running its own node."@,
            KubernetesInitError::NodeFetchError(_) => "Could not get list of nodes in the Kubernetes cluster"@,
            KubernetesInitError::MissingNodeNameError =>
                "The node running on the current host lacks a Name field. \nThe pod polling cannot function without this."@,
        }
    }

    /// The suggestion printed for the error
    pub fn suggestion(&self) -> (r: String)
        ensures
            r@ == self.spec_suggestion(),
    {
        match self {
            KubernetesInitError::InvalidCgroupMount => cgroups::INVALID_CGROUP_MOUNT_MESSAGE.to_owned(),
            KubernetesInitError::InvalidHostnameError(hostname) => {
                let mut m = "Could not retrieve hostname to use for node detection: Invalid string '".to_owned();
                m.append(hostname.as_str());
                m.append("' returned");
                m
            },
            KubernetesInitError::ConfigLoadError(_) => "Could not load kubernetes config. Make sure the current machine is a part of a cluster \nand has the cluster configuration copied to the config directory.".to_owned(),
            KubernetesInitError::NodeDetectionError => "Could not get the current node via the Kubernetes API. \nMake sure the current machine is running its own node.".to_owned(),
            KubernetesInitError::NodeFetchError(_) => "Could not get list of nodes in the Kubernetes cluster".to_owned(),
            KubernetesInitError::MissingNodeNameError => "The node running on the current host lacks a Name field. \nThe pod polling cannot function without this.".to_owned(),
        }
    }

    /// The description of the original error, if any
    pub fn original(&self) -> (r: Option<&String>)
        ensures
            self matches KubernetesInitError::ConfigLoadError(e) ==> r == Some(e),
            self matches KubernetesInitError::NodeFetchError(e) ==> r == Some(e),
            !(self is ConfigLoadError || self is NodeFetchError) ==> r is None,
    {
        match self {
            KubernetesInitError::ConfigLoadError(e) => Some(e),
            KubernetesInitError::NodeFetchError(e) => Some(e),
            _ => None,
        }
    }
}

} // verus!
