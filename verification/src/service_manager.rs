use vstd::prelude::*;
use std::collections::HashMap;

use crate::overview::{listing_for_services, overview_for_services, overview_text, services_listing};
use crate::service::{ServiceInfo, info_with_status};
use crate::types::{Health, Priority, RunTaskError, ShutdownError, StartupError, Status};
use lum_event::event_repeater::{AttachError, DetachError};
use lum_event::{Event, EventRepeater};

verus! {

broadcast use vstd::std_specs::hash::group_hash_axioms;

/// Whether some service in `s` belongs to type `id`.
pub open spec fn has_type_id(s: Seq<ServiceInfo>, id: u64) -> bool {
    exists|i: int| 0 <= i < s.len() && (#[trigger] s[i]).type_id == id
}

/// No two services in `s` belong to the same type.
pub open spec fn distinct_type_ids(s: Seq<ServiceInfo>) -> bool {
    forall|i: int, j: int|
        0 <= i < s.len() && 0 <= j < s.len() && i != j ==> (#[trigger] s[i]).type_id != (
        #[trigger] s[j]).type_id
}

/// No key occurs twice in `s`.
pub open spec fn distinct_keys(s: Seq<u64>) -> bool {
    forall|i: int, j: int| 0 <= i < s.len() && 0 <= j < s.len() && i != j ==> s[i] != s[j]
}

/// The types of the services of `s`, in order.
pub open spec fn types_of(s: Seq<ServiceInfo>) -> Seq<u64> {
    s.map_values(|info: ServiceInfo| info.type_id)
}

/// The services of `input` in their order, each type kept at its first occurrence
/// only; later services of a type already seen are ignored.
pub open spec fn first_occurrences(input: Seq<ServiceInfo>) -> Seq<ServiceInfo>
    decreases input.len(),
{
    if input.len() == 0 {
        Seq::empty()
    } else {
        let kept = first_occurrences(input.drop_last());
        if has_type_id(kept, input.last().type_id) {
            kept
        } else {
            kept.push(input.last())
        }
    }
}

/// Whether the service at `i` repeats the type of an earlier service of `s`, and
/// is therefore ignored by `ServiceManager::new`.
pub open spec fn is_repeat(s: Seq<ServiceInfo>, i: int) -> bool {
    exists|j: int| 0 <= j < i && (#[trigger] s[j]).type_id == s[i].type_id
}

/// Whether the system is healthy: unhealthy as soon as one essential service is not
/// started.
pub open spec fn health_of(s: Seq<ServiceInfo>) -> Health {
    if exists|i: int|
        0 <= i < s.len() && (#[trigger] s[i]).priority == Priority::Essential && !(
        s[i].status is Started) {
        Health::Unhealthy
    } else {
        Health::Healthy
    }
}

/// The services that `first_occurrences` keeps: pairwise distinct types, exactly
/// the types of the input, each kept service being the first of its type in the
/// input.
pub proof fn lemma_first_occurrences(input: Seq<ServiceInfo>)
    ensures
        distinct_type_ids(first_occurrences(input)),
        forall|id: u64| has_type_id(first_occurrences(input), id) == has_type_id(input, id),
        forall|k: int|
            0 <= k < first_occurrences(input).len() ==> exists|i: int|
                0 <= i < input.len() && input[i] == #[trigger] first_occurrences(input)[k] && forall|
                    j: int,
                | 0 <= j < i ==> (#[trigger] input[j]).type_id != input[i].type_id,
    decreases input.len(),
{
    if input.len() > 0 {
        let prefix = input.drop_last();
        let kept = first_occurrences(prefix);
        lemma_first_occurrences(prefix);
        let last = input.last();
        let n = input.len() - 1;
        assert forall|id: u64| has_type_id(first_occurrences(input), id) == has_type_id(input, id) by {
            if has_type_id(input, id) {
                let i = choose|i: int| 0 <= i < input.len() && (#[trigger] input[i]).type_id == id;
                if i < n {
                    assert(prefix[i].type_id == id);
                    assert(has_type_id(prefix, id));
                    assert(has_type_id(kept, id));
                    let k = choose|k: int| 0 <= k < kept.len() && (#[trigger] kept[k]).type_id == id;
                    if !has_type_id(kept, last.type_id) {
                        assert(first_occurrences(input)[k] == kept[k]);
                    }
                } else {
                    if !has_type_id(kept, last.type_id) {
                        assert(first_occurrences(input)[kept.len() as int] == last);
                    }
                }
            }
            if has_type_id(first_occurrences(input), id) {
                let k = choose|k: int|
                    0 <= k < first_occurrences(input).len() && (#[trigger] first_occurrences(
                        input,
                    )[k]).type_id == id;
                if k < kept.len() {
                    assert(first_occurrences(input)[k] == kept[k]);
                    assert(has_type_id(kept, id));
                    assert(has_type_id(prefix, id));
                    let i = choose|i: int| 0 <= i < prefix.len() && (#[trigger] prefix[i]).type_id == id;
                    assert(input[i].type_id == id);
                } else {
                    assert(input[n].type_id == id);
                }
            }
        }
        assert forall|k: int|
            0 <= k < first_occurrences(input).len() implies exists|i: int|
                0 <= i < input.len() && input[i] == #[trigger] first_occurrences(input)[k] && forall|
                    j: int,
                | 0 <= j < i ==> (#[trigger] input[j]).type_id != input[i].type_id by {
            if k < kept.len() {
                assert(first_occurrences(input)[k] == kept[k]);
                let i = choose|i: int|
                    0 <= i < prefix.len() && prefix[i] == #[trigger] kept[k] && forall|j: int|
                        0 <= j < i ==> (#[trigger] prefix[j]).type_id != prefix[i].type_id;
                assert(input[i] == prefix[i]);
                assert forall|j: int| 0 <= j < i implies (#[trigger] input[j]).type_id
                    != input[i].type_id by {
                    assert(input[j] == prefix[j]);
                }
            } else {
                assert(first_occurrences(input)[k] == last);
                assert(!has_type_id(kept, last.type_id));
                assert(!has_type_id(prefix, last.type_id));
                assert forall|j: int| 0 <= j < n implies (#[trigger] input[j]).type_id
                    != input[n].type_id by {
                    assert(input[j] == prefix[j]);
                    if input[j].type_id == last.type_id {
                        assert(prefix[j].type_id == last.type_id);
                    }
                }
            }
        }
        if !has_type_id(kept, last.type_id) {
            let out = kept.push(last);
            assert forall|i: int, j: int|
                0 <= i < out.len() && 0 <= j < out.len() && i != j implies (#[trigger] out[i]).type_id
                != (#[trigger] out[j]).type_id by {
                if i < kept.len() && j < kept.len() {
                    assert(out[i] == kept[i] && out[j] == kept[j]);
                } else if i < kept.len() {
                    assert(out[i] == kept[i]);
                } else {
                    assert(out[j] == kept[j]);
                }
            }
        }
    }
}

/// The message with which a service is failed when one of its background tasks
/// ends: a task that ends without error was not meant to end.
pub open spec fn task_end_message(result: Result<(), String>) -> Seq<char> {
    match result {
        Ok(()) => "Background task ended unexpectedly!"@,
        Err(error) => error@,
    }
}


/// The start of a service: it becomes `Starting` once its status event is
/// attached; a failed attachment leaves it as it was.
pub open spec fn attachment_step(service: ServiceInfo, attachment: Result<(), AttachError>) -> (
    ServiceInfo,
    Result<(), StartupError>,
) {
    match attachment {
        Err(error) => (
            service,
            Err(StartupError::StatusAttachmentFailed(service.name, service.type_label, error)),
        ),
        Ok(()) => (info_with_status(service, Status::Starting), Ok(())),
    }
}

/// The end of a start: the service's own start gave `outcome` (an error's message
/// when it failed or timed out).
pub open spec fn start_completion_step(service: ServiceInfo, outcome: Result<(), String>) -> (
    ServiceInfo,
    Result<(), StartupError>,
) {
    match outcome {
        Ok(()) => (info_with_status(service, Status::Started), Ok(())),
        Err(message) => (
            info_with_status(service, Status::FailedToStart(message)),
            Err(StartupError::FailedToStartService(service.name, service.type_label)),
        ),
    }
}

/// The end of a stop: the service's own stop gave `outcome`.
pub open spec fn stop_completion_step(service: ServiceInfo, outcome: Result<(), String>) -> (
    ServiceInfo,
    Result<(), ShutdownError>,
) {
    match outcome {
        Ok(()) => (info_with_status(service, Status::Stopped), Ok(())),
        Err(message) => (
            info_with_status(service, Status::FailedToStop(message)),
            Err(ShutdownError::FailedToStopService(service.name, service.type_label)),
        ),
    }
}

/// What the detachment of a stopped service's status event amounts to.
pub open spec fn detach_result(service: ServiceInfo, detachment: Result<(), DetachError>) -> Result<
    (),
    ShutdownError,
> {
    match detachment {
        Ok(()) => Ok(()),
        Err(error) => Err(ShutdownError::StatusDetachmentFailed(service.name, service.type_label, error)),
    }
}

/// The end of a failure: the service records the runtime error.
pub open spec fn fail_completion_step(service: ServiceInfo, message: String) -> ServiceInfo {
    info_with_status(service, Status::RuntimeError(message))
}

/// What a service manager holds: the managed types, in order, and for each type
/// the number of background tasks recorded for it (a type without any has no
/// entry).
pub struct ManagerState {
    pub types: Seq<u64>,
    pub tasks: Map<u64, usize>,
}

impl ManagerState {
    /// Each managed type occurs once, and a type with an entry for background tasks
    /// has at least one.
    pub open spec fn wf(self) -> bool {
        &&& distinct_keys(self.types)
        &&& forall|id: u64| #[trigger] self.tasks.contains_key(id) ==> self.tasks[id] >= 1
    }

    pub open spec fn manages(self, id: u64) -> bool {
        self.types.contains(id)
    }

    /// How many background tasks are recorded for type `id`.
    pub open spec fn task_count(self, id: u64) -> nat {
        if self.tasks.contains_key(id) {
            self.tasks[id] as nat
        } else {
            0
        }
    }

    /// Why a request to start `service` is refused, if it is. The service's own
    /// status and names decide.
    pub open spec fn start_refusal(self, service: ServiceInfo) -> Option<StartupError> {
        if !self.manages(service.type_id) {
            Some(StartupError::ServiceNotManaged(service.name, service.type_label))
        } else if !(service.status is Stopped) {
            Some(StartupError::ServiceNotStopped(service.name, service.type_label))
        } else if self.tasks.contains_key(service.type_id) {
            Some(StartupError::BackgroundTaskAlreadyRunning(service.name, service.type_label))
        } else {
            None
        }
    }

    /// A request to start `service`, after the attempt to attach its status event
    /// gave `attachment`: a refused request or a failed attachment changes nothing;
    /// otherwise the service becomes `Starting`. The manager itself is unchanged.
    pub open spec fn start_step(self, service: ServiceInfo, attachment: Result<(), AttachError>) -> (
        ServiceInfo,
        Result<(), StartupError>,
    ) {
        match self.start_refusal(service) {
            Some(error) => (service, Err(error)),
            None => attachment_step(service, attachment),
        }
    }

    /// Why a request to stop `service` is refused, if it is.
    pub open spec fn stop_refusal(self, service: ServiceInfo) -> Option<ShutdownError> {
        if !self.manages(service.type_id) {
            Some(ShutdownError::ServiceNotManaged(service.name, service.type_label))
        } else if !(service.status is Started) {
            Some(ShutdownError::ServiceNotStarted(service.name, service.type_label))
        } else {
            None
        }
    }

    /// Dropping the background tasks of type `id`; the number says how many there
    /// were to abort.
    pub open spec fn abort_step(self, id: u64) -> (ManagerState, nat) {
        (ManagerState { types: self.types, tasks: self.tasks.remove(id) }, self.task_count(id))
    }

    /// A request to stop `service`: a refused request changes nothing; otherwise the
    /// service becomes `Stopping` and its type's background tasks are dropped. The
    /// result says how many tasks there were to abort.
    pub open spec fn stop_step(self, service: ServiceInfo) -> (
        ManagerState,
        ServiceInfo,
        Result<nat, ShutdownError>,
    ) {
        match self.stop_refusal(service) {
            Some(error) => (self, service, Err(error)),
            None => (
                self.abort_step(service.type_id).0,
                info_with_status(service, Status::Stopping),
                Ok(self.task_count(service.type_id)),
            ),
        }
    }

    /// The start of a failure: the service becomes `Failing` and its type's
    /// background tasks are dropped; the number says how many there were.
    pub open spec fn fail_step(self, service: ServiceInfo) -> (ManagerState, ServiceInfo, nat) {
        (
            self.abort_step(service.type_id).0,
            info_with_status(service, Status::Failing),
            self.task_count(service.type_id),
        )
    }

    /// Recording one more background task for `service`, which is accepted only
    /// while the service is starting or started.
    pub open spec fn run_task_step(self, service: ServiceInfo) -> (ManagerState, Result<(), RunTaskError>) {
        if service.status is Starting || service.status is Started {
            (
                ManagerState {
                    types: self.types,
                    tasks: self.tasks.insert(
                        service.type_id,
                        (self.task_count(service.type_id) + 1) as usize,
                    ),
                },
                Ok(()),
            )
        } else {
            (self, Err(RunTaskError::ServiceNotStarted(service.name, service.type_label)))
        }
    }
}

/// Tracks which service types an application manages, in order, and the
/// background tasks recorded for each type. The services' statuses are not kept
/// here: each request is decided on the requesting service's own current info.
pub struct ServiceManager {
    types: Vec<u64>,
    tasks: HashMap<u64, usize>,
}

impl ServiceManager {
    /// Each managed type occurs once, and a type with an entry for background tasks
    /// has at least one.
    #[verifier::type_invariant]
    closed spec fn inv(self) -> bool {
        self@.wf()
    }
}

impl View for ServiceManager {
    type V = ManagerState;

    closed spec fn view(&self) -> ManagerState {
        ManagerState { types: self.types@, tasks: self.tasks@ }
    }
}

/// The types that `new` keeps are pairwise distinct.
pub proof fn lemma_kept_types_distinct(input: Seq<ServiceInfo>)
    ensures
        distinct_keys(types_of(first_occurrences(input))),
        forall|id: u64| types_of(first_occurrences(input)).contains(id) == has_type_id(input, id),
{
    lemma_first_occurrences(input);
    let kept = first_occurrences(input);
    let t = types_of(kept);
    assert forall|i: int, j: int| 0 <= i < t.len() && 0 <= j < t.len() && i != j implies t[i] != t[j] by {
        assert(t[i] == kept[i].type_id && t[j] == kept[j].type_id);
    }
    assert forall|id: u64| t.contains(id) == has_type_id(input, id) by {
        if t.contains(id) {
            let i = choose|i: int| 0 <= i < t.len() && t[i] == id;
            assert(kept[i].type_id == id);
        }
        if has_type_id(kept, id) {
            let i = choose|i: int| 0 <= i < kept.len() && (#[trigger] kept[i]).type_id == id;
            assert(t[i] == id);
        }
    }
}

/// `ServiceManager::new` keeps every service that does not repeat an earlier type,
/// and of a repeated type it keeps a service that came earlier.
pub proof fn lemma_new_keeps_first_of_each_type(input: Seq<ServiceInfo>, i: int)
    requires
        0 <= i < input.len(),
    ensures
        !is_repeat(input, i) ==> first_occurrences(input).contains(input[i]),
        is_repeat(input, i) ==> exists|k: int|
            0 <= k < first_occurrences(input).len() && (#[trigger] first_occurrences(input)[k]).type_id
                == input[i].type_id && exists|j: int| 0 <= j < i && input[j] == first_occurrences(input)[k],
{
    lemma_first_occurrences(input);
    let kept = first_occurrences(input);
    let id = input[i].type_id;
    assert(has_type_id(input, id)) by {
        assert(input[i].type_id == id);
    }
    assert(has_type_id(kept, id));
    let k = choose|k: int| 0 <= k < kept.len() && (#[trigger] kept[k]).type_id == id;
    let i2 = choose|i2: int|
        0 <= i2 < input.len() && input[i2] == #[trigger] kept[k] && forall|j: int|
            0 <= j < i2 ==> (#[trigger] input[j]).type_id != input[i2].type_id;
    assert(input[i2].type_id == id);
    if i2 > i {
        assert(input[i].type_id == input[i2].type_id);
    }
    if !is_repeat(input, i) {
        if i2 < i {
            assert(input[i2].type_id == input[i].type_id);
        }
        assert(i2 == i);
        assert(kept[k] == input[i]);
    } else {
        assert(i2 <= i);
        if i2 == i {
            let j = choose|j: int| 0 <= j < i && (#[trigger] input[j]).type_id == input[i].type_id;
            assert(input[j].type_id == input[i2].type_id);
        }
        assert(i2 < i);
        assert(input[i2] == kept[k]);
    }
}

impl ServiceManager {
    /// A manager of the given services. Of several services of one type only the
    /// first is kept; the others are ignored.
    pub fn new(services: &Vec<ServiceInfo>) -> (manager: ServiceManager)
        ensures
            manager@.types == types_of(first_occurrences(services@)),
            manager@.tasks == Map::<u64, usize>::empty(),
            manager@.wf(),
    {
        let ghost input = services@;
        let mut kept: Vec<u64> = Vec::new();
        let mut taken: usize = 0;
        assert(input.take(0) =~= Seq::<ServiceInfo>::empty());
        assert(types_of(Seq::<ServiceInfo>::empty()) =~= Seq::<u64>::empty());
        while taken < services.len()
            invariant
                taken <= input.len(),
                input == services@,
                kept@ == types_of(first_occurrences(input.take(taken as int))),
            decreases services.len() - taken,
        {
            let ghost prefix = input.take(taken as int);
            let ghost before = first_occurrences(prefix);
            proof {
                lemma_kept_types_distinct(prefix);
            }
            let id = services[taken].type_id;
            assert(input.take(taken + 1).drop_last() =~= prefix);
            assert(input.take(taken + 1).last() == input[taken as int]);
            let mut found = false;
            let mut k: usize = 0;
            while k < kept.len()
                invariant
                    0 <= k <= kept.len(),
                    found == exists|i: int| 0 <= i < k && kept@[i] == id,
                decreases kept.len() - k,
            {
                if kept[k] == id {
                    found = true;
                }
                k = k + 1;
            }
            proof {
                assert(found == kept@.contains(id));
                if has_type_id(before, id) {
                    let i = choose|i: int| 0 <= i < before.len() && (#[trigger] before[i]).type_id == id;
                    assert(kept@[i] == id);
                }
                if kept@.contains(id) {
                    let i = choose|i: int| 0 <= i < kept@.len() && kept@[i] == id;
                    assert(before[i].type_id == id);
                }
            }
            if !found {
                kept.push(id);
                assert(kept@ =~= types_of(before.push(input[taken as int])));
            }
            taken = taken + 1;
        }
        assert(input.take(taken as int) =~= input);
        proof {
            lemma_kept_types_distinct(input);
        }
        ServiceManager { types: kept, tasks: HashMap::new() }
    }

    /// For each of `services`, whether `new` ignores it because an earlier service
    /// has the same type.
    pub fn ignored_services(services: &Vec<ServiceInfo>) -> (ignored: Vec<bool>)
        ensures
            ignored@.len() == services@.len(),
            forall|i: int| 0 <= i < services@.len() ==> ignored@[i] == is_repeat(services@, i),
    {
        let mut ignored: Vec<bool> = Vec::new();
        let mut i: usize = 0;
        while i < services.len()
            invariant
                i <= services@.len(),
                ignored@.len() == i,
                forall|k: int| 0 <= k < i ==> ignored@[k] == is_repeat(services@, k),
            decreases services.len() - i,
        {
            let mut seen = false;
            let mut j: usize = 0;
            while j < i
                invariant
                    j <= i,
                    i < services@.len(),
                    seen == exists|k: int|
                        0 <= k < j && (#[trigger] services@[k]).type_id == services@[i as int].type_id,
                decreases i - j,
            {
                if services[j].type_id == services[i].type_id {
                    seen = true;
                }
                j = j + 1;
            }
            ignored.push(seen);
            i = i + 1;
        }
        ignored
    }

    /// The managed types, in order.
    pub fn type_ids(&self) -> (ids: Vec<u64>)
        ensures
            ids@ == self@.types,
            self@.wf(),
    {
        proof {
            use_type_invariant(self);
        }
        let mut ids: Vec<u64> = Vec::new();
        let mut k: usize = 0;
        while k < self.types.len()
            invariant
                0 <= k <= self.types@.len(),
                ids@ == self.types@.take(k as int),
            decreases self.types.len() - k,
        {
            ids.push(self.types[k]);
            k = k + 1;
            assert(ids@ =~= self.types@.take(k as int));
        }
        assert(self.types@.take(k as int) =~= self.types@);
        ids
    }

    /// Whether services of type `type_id` are managed.
    pub fn manages_service_by_type_id(&self, type_id: u64) -> (r: bool)
        ensures
            r == self@.manages(type_id),
    {
        let mut k: usize = 0;
        while k < self.types.len()
            invariant
                0 <= k <= self.types@.len(),
                forall|i: int| 0 <= i < k ==> self.types@[i] != type_id,
            decreases self.types.len() - k,
        {
            if self.types[k] == type_id {
                assert(self.types@[k as int] == type_id);
                return true;
            }
            k = k + 1;
        }
        false
    }

    /// Whether background tasks are recorded for type `type_id`.
    pub fn has_background_tasks_by_type_id(&self, type_id: u64) -> (r: bool)
        ensures
            r == self@.tasks.contains_key(type_id),
    {
        self.tasks.contains_key(&type_id)
    }

    /// How many background tasks are recorded for type `type_id`.
    pub fn background_task_count(&self, type_id: u64) -> (n: usize)
        ensures
            n == self@.task_count(type_id),
    {
        match self.tasks.get(&type_id) {
            Some(n) => *n,
            None => 0,
        }
    }

    /// Refuses a start that may not happen: see `ManagerState::start_refusal`.
    pub fn check_start(&self, service: &ServiceInfo) -> (r: Result<(), StartupError>)
        ensures
            r == match self@.start_refusal(*service) {
                Some(error) => Err(error),
                None => Ok(()),
            },
    {
        if !self.manages_service_by_type_id(service.type_id) {
            Err(StartupError::ServiceNotManaged(service.name.clone(), service.type_label.clone()))
        } else if service.status != Status::Stopped {
            Err(StartupError::ServiceNotStopped(service.name.clone(), service.type_label.clone()))
        } else if self.tasks.contains_key(&service.type_id) {
            Err(
                StartupError::BackgroundTaskAlreadyRunning(
                    service.name.clone(),
                    service.type_label.clone(),
                ),
            )
        } else {
            Ok(())
        }
    }

    /// Starts `service`, whose status event was attached to the manager with the
    /// result `attachment` (attach only after `check_start` accepted). See
    /// `ManagerState::start_step`.
    pub fn begin_start(&self, service: &mut ServiceInfo, attachment: Result<(), AttachError>) -> (r:
        Result<(), StartupError>)
        ensures
            (*final(service), r) == self@.start_step(*old(service), attachment),
    {
        match self.check_start(service) {
            Err(error) => Err(error),
            Ok(()) => apply_attachment(service, attachment),
        }
    }

    /// Ends the start of `service` with the outcome of its own start. See
    /// `start_completion_step`.
    pub fn complete_start(&self, service: &mut ServiceInfo, outcome: Result<(), String>) -> (r: Result<
        (),
        StartupError,
    >)
        ensures
            (*final(service), r) == start_completion_step(*old(service), outcome),
    {
        let name = service.name.clone();
        let label = service.type_label.clone();
        match outcome {
            Ok(()) => {
                service.set_status(Status::Started);
                Ok(())
            },
            Err(message) => {
                service.set_status(Status::FailedToStart(message));
                Err(StartupError::FailedToStartService(name, label))
            },
        }
    }

    /// Drops the background tasks of type `type_id`; says how many there were, so
    /// that they can be aborted.
    pub fn abort_background_tasks(&mut self, type_id: u64) -> (aborted: usize)
        ensures
            (final(self)@, aborted as nat) == old(self)@.abort_step(type_id),
            final(self)@.wf(),
    {
        proof {
            use_type_invariant(&*self);
        }
        let mut tasks: HashMap<u64, usize> = HashMap::new();
        std::mem::swap(&mut tasks, &mut self.tasks);
        let aborted = match tasks.remove(&type_id) {
            Some(n) => n,
            None => 0,
        };
        assert forall|id: u64| #[trigger] tasks@.contains_key(id) implies tasks@[id] >= 1 by {
            assert(old(self)@.tasks.contains_key(id));
        }
        self.tasks = tasks;
        aborted
    }

    /// Starts stopping `service`. See `ManagerState::stop_step`.
    pub fn stop_service(&mut self, service: &mut ServiceInfo) -> (r: Result<usize, ShutdownError>)
        ensures
            ({
                let (st, info, res) = old(self)@.stop_step(*old(service));
                &&& final(self)@ == st
                &&& *final(service) == info
                &&& match (r, res) {
                    (Ok(n), Ok(m)) => n as nat == m,
                    (Err(e), Err(f)) => e == f,
                    _ => false,
                }
            }),
            final(self)@.wf(),
    {
        proof {
            use_type_invariant(&*self);
        }
        if !self.manages_service_by_type_id(service.type_id) {
            Err(ShutdownError::ServiceNotManaged(service.name.clone(), service.type_label.clone()))
        } else if service.status != Status::Started {
            Err(ShutdownError::ServiceNotStarted(service.name.clone(), service.type_label.clone()))
        } else {
            service.set_status(Status::Stopping);
            let aborted = self.abort_background_tasks(service.type_id);
            Ok(aborted)
        }
    }

    /// Ends the stop of `service` with the outcome of its own stop. See
    /// `stop_completion_step`.
    pub fn complete_stop(&self, service: &mut ServiceInfo, outcome: Result<(), String>) -> (r: Result<
        (),
        ShutdownError,
    >)
        ensures
            (*final(service), r) == stop_completion_step(*old(service), outcome),
    {
        let name = service.name.clone();
        let label = service.type_label.clone();
        match outcome {
            Ok(()) => {
                service.set_status(Status::Stopped);
                Ok(())
            },
            Err(message) => {
                service.set_status(Status::FailedToStop(message));
                Err(ShutdownError::FailedToStopService(name, label))
            },
        }
    }

    /// What the detachment of a stopped service's status event amounts to.
    pub fn finish_stop(&self, service: &ServiceInfo, detachment: Result<(), DetachError>) -> (r: Result<
        (),
        ShutdownError,
    >)
        ensures
            r == detach_result(*service, detachment),
    {
        match detachment {
            Ok(()) => Ok(()),
            Err(error) => Err(
                ShutdownError::StatusDetachmentFailed(
                    service.name.clone(),
                    service.type_label.clone(),
                    error,
                ),
            ),
        }
    }

    /// Starts failing `service`. See `ManagerState::fail_step`.
    pub fn fail_service(&mut self, service: &mut ServiceInfo) -> (aborted: usize)
        ensures
            ({
                let (st, info, n) = old(self)@.fail_step(*old(service));
                &&& final(self)@ == st
                &&& *final(service) == info
                &&& aborted as nat == n
            }),
            final(self)@.wf(),
    {
        service.set_status(Status::Failing);
        self.abort_background_tasks(service.type_id)
    }

    /// Ends the failure of `service` with its runtime error.
    pub fn complete_fail(&self, service: &mut ServiceInfo, message: String)
        ensures
            *final(service) == fail_completion_step(*old(service), message),
    {
        service.set_status(Status::RuntimeError(message));
    }

    /// Records one more background task for `service_info`, if its status allows
    /// one. See `ManagerState::run_task_step`. (A task count can only reach
    /// `usize::MAX` with more tasks than memory holds.)
    pub fn run_task(&mut self, service_info: &ServiceInfo) -> (r: Result<(), RunTaskError>)
        requires
            old(self)@.task_count(service_info.type_id) < usize::MAX,
        ensures
            (final(self)@, r) == old(self)@.run_task_step(*service_info),
            final(self)@.wf(),
    {
        proof {
            use_type_invariant(&*self);
        }
        if service_info.status != Status::Starting && service_info.status != Status::Started {
            return Err(
                RunTaskError::ServiceNotStarted(
                    service_info.name.clone(),
                    service_info.type_label.clone(),
                ),
            );
        }
        let count = self.background_task_count(service_info.type_id);
        let mut tasks: HashMap<u64, usize> = HashMap::new();
        std::mem::swap(&mut tasks, &mut self.tasks);
        tasks.insert(service_info.type_id, count + 1);
        assert forall|id: u64| #[trigger] tasks@.contains_key(id) implies tasks@[id] >= 1 by {
            if id != service_info.type_id {
                assert(old(self)@.tasks.contains_key(id));
            }
        }
        self.tasks = tasks;
        Ok(())
    }

    /// A background task of `service` ended with `result`: the service starts
    /// failing, and the message to fail it with is returned together with how many
    /// tasks were dropped.
    pub fn task_ended(&mut self, service: &mut ServiceInfo, result: Result<(), String>) -> (r: (
        String,
        usize,
    ))
        ensures
            r.0@ == task_end_message(result),
            ({
                let (st, info, n) = old(self)@.fail_step(*old(service));
                &&& final(self)@ == st
                &&& *final(service) == info
                &&& r.1 as nat == n
            }),
            final(self)@.wf(),
    {
        let message = match result {
            Ok(()) => String::from_str("Background task ended unexpectedly!"),
            Err(error) => error,
        };
        let aborted = self.fail_service(service);
        (message, aborted)
    }

    /// The status overview of `services`, the current infos of the managed
    /// services; see `overview_text`.
    pub fn status_overview(services: &Vec<ServiceInfo>) -> (text: String)
        ensures
            text@ == overview_text(services@),
    {
        overview_for_services(services)
    }

    /// `"Services: "` followed by the names of `services`, the current infos of the
    /// managed services; see `services_listing`.
    pub fn to_string(services: &Vec<ServiceInfo>) -> (text: String)
        ensures
            text@ == services_listing(services@),
    {
        listing_for_services(services)
    }

    /// `Unhealthy` when some essential service among `services`, the current infos
    /// of the managed services, is not started, else `Healthy`.
    pub fn health(services: &Vec<ServiceInfo>) -> (h: Health)
        ensures
            h == health_of(services@),
    {
        let mut k: usize = 0;
        while k < services.len()
            invariant
                0 <= k <= services@.len(),
                forall|i: int|
                    0 <= i < k ==> !((#[trigger] services@[i]).priority == Priority::Essential
                        && !(services@[i].status is Started)),
            decreases services.len() - k,
        {
            let info = &services[k];
            if info.priority == Priority::Essential && !info.is_available() {
                return Health::Unhealthy;
            }
            k = k + 1;
        }
        Health::Healthy
    }
}

/// Applies the outcome of the status event's attachment to a service whose start
/// was accepted.
fn apply_attachment(service: &mut ServiceInfo, attachment: Result<(), AttachError>) -> (r: Result<
    (),
    StartupError,
>)
    ensures
        (*final(service), r) == attachment_step(*old(service), attachment),
{
    match attachment {
        Err(error) => Err(
            StartupError::StatusAttachmentFailed(
                service.name.clone(),
                service.type_label.clone(),
                error,
            ),
        ),
        Ok(()) => {
            service.set_status(Status::Starting);
            Ok(())
        },
    }
}

/// Calls `lum_event::EventRepeater::attach`, which subscribes the repeater to the
/// event. Nothing is stated of the result: it depends on what the repeater is
/// already attached to (a second attachment is refused) and on whether the event is
/// still alive.
#[verifier::external_body]
fn attach_status_event(repeater: &EventRepeater<Status>, status_event: &Event<Status>) -> (r: Result<
    (),
    AttachError,
>) {
    repeater.attach(status_event)
}

/// Calls `lum_event::EventRepeater::detach`, which unsubscribes the repeater from
/// the event. Nothing is stated of the result: it depends on whether the repeater is
/// attached to the event and on whether the event is still alive.
#[verifier::external_body]
fn detach_status_event(repeater: &EventRepeater<Status>, status_event: &Event<Status>) -> (r: Result<
    (),
    DetachError,
>) {
    repeater.detach(status_event)
}

impl ServiceManager {
    /// A request to start `service`: refused as `check_start` says, without
    /// touching `repeater`; otherwise the service's status event is attached to
    /// `repeater`, and the service becomes `Starting` unless that attachment fails.
    pub fn start_service(
        &self,
        service: &mut ServiceInfo,
        repeater: &EventRepeater<Status>,
        status_event: &Event<Status>,
    ) -> (r: Result<(), StartupError>)
        ensures
            self@.start_refusal(*old(service)) matches Some(error) ==> r == Err::<(), StartupError>(
                error,
            ) && *final(service) == *old(service),
            self@.start_refusal(*old(service)) is None ==> exists|attachment: Result<(), AttachError>|
                (*final(service), r) == attachment_step(*old(service), attachment),
            self@.start_refusal(*old(service)) is None && r is Ok ==> *final(service)
                == info_with_status(*old(service), Status::Starting),
            self@.start_refusal(*old(service)) is None && r is Err ==> *final(service) == *old(
                service,
            ) && (r matches Err(StartupError::StatusAttachmentFailed(name, label, _)) && name == old(
                service,
            ).name && label == old(service).type_label),
    {
        match self.check_start(service) {
            Err(error) => Err(error),
            Ok(()) => {
                let attachment = attach_status_event(repeater, status_event);
                apply_attachment(service, attachment)
            },
        }
    }

    /// Detaches a stopped service's status event from `repeater`; a failure is
    /// reported with the service's name and type.
    pub fn detach_status(
        &self,
        service: &ServiceInfo,
        repeater: &EventRepeater<Status>,
        status_event: &Event<Status>,
    ) -> (r: Result<(), ShutdownError>)
        ensures
            exists|detachment: Result<(), DetachError>| r == detach_result(*service, detachment),
            r is Err ==> (r matches Err(ShutdownError::StatusDetachmentFailed(name, label, _)) && name
                == service.name && label == service.type_label),
    {
        let detachment = detach_status_event(repeater, status_event);
        self.finish_stop(service, detachment)
    }
}

/// Starting a stopped service and stopping it again, with every outside step
/// succeeding, gives back the service as it was (`Stopped`) and the manager as it
/// was, with no background task of the service's type.
pub proof fn lemma_start_then_stop_round_trip(st: ManagerState, service: ServiceInfo)
    requires
        st.start_refusal(service) is None,
    ensures
        ({
            let (s1, r1) = st.start_step(service, Ok(()));
            let (s2, r2) = start_completion_step(s1, Ok(()));
            let (st3, s3, r3) = st.stop_step(s2);
            let (s4, r4) = stop_completion_step(s3, Ok(()));
            &&& r1 is Ok && r2 is Ok && r4 is Ok
            &&& r3 == Ok::<nat, ShutdownError>(0)
            &&& s2.status is Started
            &&& s4 == service
            &&& st3 == st
        }),
{
    assert(st.tasks.remove(service.type_id) =~= st.tasks);
}

/// A refused request leaves the manager and the service as they were, whatever the
/// outside steps would have given; so does a failed attachment.
pub proof fn lemma_refusals_change_nothing(
    st: ManagerState,
    service: ServiceInfo,
    attachment: Result<(), AttachError>,
)
    ensures
        st.start_refusal(service) is Some ==> st.start_step(service, attachment).0 == service,
        st.stop_refusal(service) is Some ==> st.stop_step(service).0 == st && st.stop_step(
            service,
        ).1 == service,
        !(service.status is Starting || service.status is Started) ==> st.run_task_step(service).0
            == st,
        attachment is Err ==> st.start_step(service, attachment).0 == service,
{
}

/// Failing a service, whatever its status, leaves it in `RuntimeError` with the
/// given message and its type without background tasks; if it is essential, any
/// set of services that includes it is unhealthy.
pub proof fn lemma_failure_records_message(
    st: ManagerState,
    service: ServiceInfo,
    message: String,
    others: Seq<ServiceInfo>,
)
    ensures
        ({
            let (st1, s1, _) = st.fail_step(service);
            let s2 = fail_completion_step(s1, message);
            &&& s1.status is Failing
            &&& s2.status == Status::RuntimeError(message)
            &&& st1.task_count(service.type_id) == 0
            &&& st1.types == st.types
            &&& service.priority == Priority::Essential ==> health_of(others.push(s2))
                == Health::Unhealthy
        }),
{
    let s2 = fail_completion_step(st.fail_step(service).1, message);
    let all = others.push(s2);
    assert(all[others.len() as int] == s2);
}

/// A recorded background task blocks a new start of its service's type until the
/// tasks are aborted; the abort reports every task recorded, and none is left.
pub proof fn lemma_task_blocks_start_until_aborted(
    st: ManagerState,
    service: ServiceInfo,
    running: ServiceInfo,
)
    requires
        st.manages(service.type_id),
        service.status is Stopped,
        running.status is Started,
        running.type_id == service.type_id,
        st.task_count(service.type_id) < usize::MAX,
    ensures
        ({
            let (s1, r1) = st.run_task_step(running);
            let (s2, n) = s1.abort_step(service.type_id);
            &&& r1 is Ok
            &&& s1.task_count(service.type_id) == st.task_count(service.type_id) + 1
            &&& s1.start_refusal(service) matches Some(
                StartupError::BackgroundTaskAlreadyRunning(_, _),
            )
            &&& n == st.task_count(service.type_id) + 1
            &&& !s2.tasks.contains_key(service.type_id)
            &&& s2.start_refusal(service) is None
        }),
{
}

/// In a well-formed state a type has background tasks recorded exactly when its
/// count is positive.
pub proof fn lemma_tasks_recorded_iff_count_positive(st: ManagerState, id: u64)
    requires
        st.wf(),
    ensures
        st.tasks.contains_key(id) == (st.task_count(id) > 0),
{
}

/// Recording a task adds exactly one to its type's count and leaves every other
/// type's count as it was.
pub proof fn lemma_run_task_counts(st: ManagerState, service: ServiceInfo, other: u64)
    requires
        service.status is Starting || service.status is Started,
        st.task_count(service.type_id) < usize::MAX,
        other != service.type_id,
    ensures
        st.run_task_step(service).0.task_count(service.type_id) == st.task_count(service.type_id) + 1,
        st.run_task_step(service).0.task_count(other) == st.task_count(other),
        st.run_task_step(service).0.types == st.types,
{
}

} // verus!
