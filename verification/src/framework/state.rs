//! Services, resources and subscriptions, each owned by one module instance.
use super::lists_key;
use super::{
    DeliveryReport, Fault, FrameworkError, InstanceId, KeyView, LifecycleOptions, ModuleMetadata, ModuleView, ServiceKey,
};
use crate::table::Table;
use crate::text::{byte_len, copied, same, utf8_len};
use vstd::prelude::*;

verus! {

pub struct InstanceState {
    pub metadata: ModuleMetadata,
    pub accepting: bool,
    pub disposers: usize,
    pub tasks: usize,
}

pub struct Listener {
    pub owner: InstanceId,
    pub topic: String,
}

/// What all contexts of a runtime share. Service values, queues, disposers and task
/// handles stay with the caller; here stands who owns how many of them.
pub struct SharedState {
    pub instances: Table<InstanceState>,
    pub services: Vec<(ServiceKey, InstanceId)>,
    pub listeners: Vec<Listener>,
}

pub struct InstanceView {
    pub metadata: ModuleView,
    pub accepting: bool,
    pub disposers: usize,
    pub tasks: usize,
}

pub struct ListenerView {
    pub owner: Seq<char>,
    pub topic: Seq<char>,
}

pub struct SharedView {
    pub instances: Map<Seq<char>, InstanceView>,
    pub services: Seq<(KeyView, Seq<char>)>,
    pub listeners: Seq<ListenerView>,
}

impl View for InstanceState {
    type V = InstanceView;

    open spec fn view(&self) -> InstanceView {
        InstanceView {
            metadata: self.metadata@,
            accepting: self.accepting,
            disposers: self.disposers,
            tasks: self.tasks,
        }
    }
}

impl View for Listener {
    type V = ListenerView;

    open spec fn view(&self) -> ListenerView {
        ListenerView { owner: self.owner@, topic: self.topic@ }
    }
}

pub open spec fn services_of(list: Seq<(ServiceKey, InstanceId)>) -> Seq<(KeyView, Seq<char>)> {
    list.map_values(|e: (ServiceKey, InstanceId)| (e.0@, e.1@))
}

pub open spec fn listeners_of(list: Seq<Listener>) -> Seq<ListenerView> {
    list.map_values(|l: Listener| l@)
}

impl View for SharedState {
    type V = SharedView;

    open spec fn view(&self) -> SharedView {
        SharedView {
            instances: self.instances@.map_values(|i: InstanceState| i@),
            services: services_of(self.services@),
            listeners: listeners_of(self.listeners@),
        }
    }
}

/// The owner of a published service.
pub open spec fn holder(services: Seq<(KeyView, Seq<char>)>, key: KeyView) -> Option<Seq<char>>
    decreases services.len(),
{
    if services.len() == 0 {
        None
    } else if services.last().0 == key {
        Some(services.last().1)
    } else {
        holder(services.drop_last(), key)
    }
}

/// The services that somebody else owns.
pub open spec fn without_services(services: Seq<(KeyView, Seq<char>)>, owner: Seq<char>) -> Seq<(KeyView, Seq<char>)>
    decreases services.len(),
{
    if services.len() == 0 {
        services
    } else {
        let front = without_services(services.drop_last(), owner);
        if services.last().1 == owner { front } else { front.push(services.last()) }
    }
}

/// The subscriptions that somebody else owns.
pub open spec fn without_listeners(listeners: Seq<ListenerView>, owner: Seq<char>) -> Seq<ListenerView>
    decreases listeners.len(),
{
    if listeners.len() == 0 {
        listeners
    } else {
        let front = without_listeners(listeners.drop_last(), owner);
        if listeners.last().owner == owner { front } else { front.push(listeners.last()) }
    }
}

/// The subscriptions whose queue is open, among the first `n`.
pub open spec fn open_listeners(listeners: Seq<ListenerView>, open: Seq<bool>, n: nat) -> Seq<ListenerView>
    decreases n,
{
    if n == 0 {
        Seq::empty()
    } else {
        let front = open_listeners(listeners, open, (n - 1) as nat);
        if open[n - 1] { front.push(listeners[n - 1]) } else { front }
    }
}

pub open spec fn owned(listeners: Seq<ListenerView>, owner: Seq<char>) -> nat
    decreases listeners.len(),
{
    if listeners.len() == 0 {
        0
    } else {
        owned(listeners.drop_last(), owner) + (if listeners.last().owner == owner { 1nat } else { 0 })
    }
}

pub open spec fn is_active(s: SharedView, instance: Seq<char>) -> bool {
    s.instances.contains_key(instance) && s.instances[instance].accepting
}

pub open spec fn declares(s: SharedView, instance: Seq<char>, key: KeyView) -> bool {
    s.instances[instance].metadata.provides.contains(key)
}

/// Why a service is not published.
pub open spec fn publish_fault(s: SharedView, instance: Seq<char>, key: KeyView) -> Option<Fault> {
    if !is_active(s, instance) {
        Some(Fault::InstanceInactive(instance))
    } else if !declares(s, instance, key) {
        Some(Fault::UndeclaredService { instance, service: key })
    } else if holder(s.services, key) is Some {
        Some(Fault::ProviderConflict(key))
    } else {
        None
    }
}

/// Why a service cannot be used.
pub open spec fn service_fault(s: SharedView, instance: Seq<char>, key: KeyView) -> Option<Fault> {
    if !is_active(s, instance) {
        Some(Fault::InstanceInactive(instance))
    } else if !s.instances[instance].metadata.required.contains(key) && !declares(s, instance, key) {
        Some(Fault::UndeclaredService { instance, service: key })
    } else {
        match holder(s.services, key) {
            None => Some(Fault::ServiceUnavailable(key)),
            Some(owner) => if is_active(s, owner) { None } else { Some(Fault::InstanceInactive(owner)) },
        }
    }
}

/// Why no further resource is taken.
pub open spec fn resource_fault(s: SharedView, o: LifecycleOptions, instance: Seq<char>) -> Option<Fault> {
    if !is_active(s, instance) {
        Some(Fault::InstanceInactive(instance))
    } else if s.instances[instance].disposers + s.instances[instance].tasks >= o.max_resources_per_module {
        Some(Fault::CapacityExceeded("instance resources"@))
    } else {
        None
    }
}

pub open spec fn with_instance(s: SharedView, id: Seq<char>, i: InstanceView) -> SharedView {
    SharedView { instances: s.instances.insert(id, i), ..s }
}

/// The instance's services and subscriptions gone, and its resources with the caller.
pub open spec fn released(s: SharedView, id: Seq<char>) -> SharedView {
    SharedView {
        services: without_services(s.services, id),
        listeners: without_listeners(s.listeners, id),
        instances: if s.instances.contains_key(id) {
            s.instances.insert(
                id,
                InstanceView { accepting: false, disposers: 0, tasks: 0, ..s.instances[id] },
            )
        } else {
            s.instances
        },
    }
}

/// The instance takes no more work; what it owns stays for now.
pub open spec fn revoked(s: SharedView, id: Seq<char>) -> SharedView {
    SharedView {
        listeners: without_listeners(s.listeners, id),
        instances: if s.instances.contains_key(id) {
            s.instances.insert(id, InstanceView { accepting: false, ..s.instances[id] })
        } else {
            s.instances
        },
        ..s
    }
}

pub open spec fn topic_fault(o: LifecycleOptions, topic: Seq<char>, capacity: usize) -> Option<Fault> {
    if topic.len() == 0 || byte_len(topic) > o.max_event_bytes || capacity == 0 || capacity > o.max_event_queue || capacity
        > usize::MAX / 8 {
        Some(Fault::InvalidConfiguration("event topic or queue capacity"@))
    } else {
        None
    }
}

/// How a queue took an event.
#[derive(Debug, Clone, Copy, PartialEq, Eq, Structural)]
pub enum Sent {
    Delivered,
    Full,
    Closed,
}

/// Which queues stay after an event: those of its topic that took it or are full, and
/// others that are open.
pub open spec fn staying(sent: Seq<Sent>) -> Seq<bool> {
    sent.map_values(|s: Sent| s != Sent::Closed)
}

/// How often the event met each answer, among the first `n` queues of its topic.
pub open spec fn answers(listeners: Seq<ListenerView>, sent: Seq<Sent>, topic: Seq<char>, answer: Sent, n: nat) -> nat
    decreases n,
{
    if n == 0 {
        0
    } else {
        answers(listeners, sent, topic, answer, (n - 1) as nat) + (if listeners[n - 1].topic == topic && sent[n - 1] == answer {
            1nat
        } else {
            0
        })
    }
}

pub open spec fn event_fault(s: SharedView, o: LifecycleOptions, instance: Seq<char>, topic: Seq<char>, data: Seq<char>) -> Option<
    Fault,
> {
    if topic.len() == 0 || byte_len(topic) + byte_len(data) > o.max_event_bytes {
        Some(Fault::CapacityExceeded("event bytes"@))
    } else if !is_active(s, instance) {
        Some(Fault::InstanceInactive(instance))
    } else {
        None
    }
}

impl InstanceState {
    fn copy(&self) -> (r: Self)
        ensures
            r@ == self@,
    {
        InstanceState {
            metadata: self.metadata.clone(),
            accepting: self.accepting,
            disposers: self.disposers,
            tasks: self.tasks,
        }
    }
}

impl SharedState {
    pub open spec fn wf(&self) -> bool {
        self.instances.wf()
    }

    pub fn new() -> (r: Self)
        ensures
            r.wf(),
            r@ == (SharedView { instances: Map::empty(), services: Seq::empty(), listeners: Seq::empty() }),
    {
        let r = SharedState { instances: Table::new(), services: Vec::new(), listeners: Vec::new() };
        assert(r@.instances =~= Map::<Seq<char>, InstanceView>::empty());
        assert(r@.services =~= Seq::<(KeyView, Seq<char>)>::empty());
        assert(r@.listeners =~= Seq::<ListenerView>::empty());
        r
    }

    /// Whether an instance takes work.
    pub fn is_accepting(&self, instance: &InstanceId) -> (r: bool)
        requires
            self.wf(),
        ensures
            r == is_active(self@, instance@),
    {
        match self.instances.get(&instance.0) {
            Some(state) => state.accepting,
            None => false,
        }
    }

    fn owner(&self, key: &ServiceKey) -> (r: Option<InstanceId>)
        ensures
            match r {
                Some(owner) => holder(self@.services, key@) == Some(owner@),
                None => holder(self@.services, key@) is None,
            },
    {
        let ghost all = self@.services;
        let mut i: usize = self.services.len();
        assert(all.subrange(0, i as int) =~= all);
        while i > 0
            invariant
                i <= self.services.len(),
                all == services_of(self.services@),
                holder(all, key@) == holder(all.subrange(0, i as int), key@),
            decreases i,
        {
            i = i - 1;
            proof {
                assert(all.subrange(0, i + 1).drop_last() =~= all.subrange(0, i as int));
                assert(all.subrange(0, i + 1).last() == all[i as int]);
            }
            if self.services[i].0.equals(key) {
                return Some(self.services[i].1.clone());
            }
        }
        None
    }

    /// Publishes a service for an instance that declared it.
    pub fn publish(&mut self, instance: &InstanceId, service: &ServiceKey) -> (r: Result<(), FrameworkError>)
        requires
            old(self).wf(),
        ensures
            final(self).wf(),
            match r {
                Ok(_) => publish_fault(old(self)@, instance@, service@) is None && final(self)@ == (SharedView {
                    services: old(self)@.services.push((service@, instance@)),
                    ..old(self)@
                }),
                Err(e) => publish_fault(old(self)@, instance@, service@) == Some(e@) && final(self)@ == old(self)@,
            },
    {
        let declared = match self.instances.get(&instance.0) {
            Some(state) => {
                if !state.accepting {
                    return Err(FrameworkError::InstanceInactive(instance.clone()));
                }
                lists_key(&state.metadata.provides, service)
            },
            None => {
                return Err(FrameworkError::InstanceInactive(instance.clone()));
            },
        };
        if !declared {
            return Err(FrameworkError::UndeclaredService { instance: instance.clone(), service: service.clone() });
        }
        if self.owner(service).is_some() {
            return Err(FrameworkError::ProviderConflict(service.clone()));
        }
        let ghost before = self@.services;
        self.services.push((service.clone(), instance.clone()));
        assert(self@.services =~= before.push((service@, instance@)));
        Ok(())
    }

    /// Checks that an instance may use a service now. The value itself is the caller's.
    pub fn service(&self, instance: &InstanceId, service: &ServiceKey) -> (r: Result<(), FrameworkError>)
        requires
            self.wf(),
        ensures
            match r {
                Ok(_) => service_fault(self@, instance@, service@) is None,
                Err(e) => service_fault(self@, instance@, service@) == Some(e@),
            },
    {
        let declared = match self.instances.get(&instance.0) {
            Some(state) => {
                if !state.accepting {
                    return Err(FrameworkError::InstanceInactive(instance.clone()));
                }
                lists_key(&state.metadata.required, service) || lists_key(&state.metadata.provides, service)
            },
            None => {
                return Err(FrameworkError::InstanceInactive(instance.clone()));
            },
        };
        if !declared {
            return Err(FrameworkError::UndeclaredService { instance: instance.clone(), service: service.clone() });
        }
        match self.owner(service) {
            None => Err(FrameworkError::ServiceUnavailable(service.clone())),
            Some(owner) => if self.is_accepting(&owner) {
                Ok(())
            } else {
                Err(FrameworkError::InstanceInactive(owner))
            },
        }
    }

    fn room(&self, options: &LifecycleOptions, instance: &InstanceId) -> (r: Result<(), FrameworkError>)
        requires
            self.wf(),
        ensures
            match r {
                Ok(_) => resource_fault(self@, *options, instance@) is None,
                Err(e) => resource_fault(self@, *options, instance@) == Some(e@),
            },
    {
        match self.instances.get(&instance.0) {
            Some(state) => {
                if !state.accepting {
                    return Err(FrameworkError::InstanceInactive(instance.clone()));
                }
                let limit = options.max_resources_per_module;
                if state.disposers >= limit || state.tasks >= limit - state.disposers {
                    return Err(FrameworkError::CapacityExceeded(copied("instance resources")));
                }
                Ok(())
            },
            None => Err(FrameworkError::InstanceInactive(instance.clone())),
        }
    }

    /// Counts one more disposer.
    pub fn on_dispose(&mut self, options: &LifecycleOptions, instance: &InstanceId) -> (r: Result<(), FrameworkError>)
        requires
            old(self).wf(),
        ensures
            final(self).wf(),
            match r {
                Ok(_) => resource_fault(old(self)@, *options, instance@) is None && final(self)@ == with_instance(
                    old(self)@,
                    instance@,
                    InstanceView {
                        disposers: (old(self)@.instances[instance@].disposers + 1) as usize,
                        ..old(self)@.instances[instance@]
                    },
                ),
                Err(e) => resource_fault(old(self)@, *options, instance@) == Some(e@) && final(self)@ == old(self)@,
            },
    {
        if let Err(e) = self.room(options, instance) {
            return Err(e);
        }
        let found = match self.instances.get(&instance.0) {
            Some(state) => Some(state.copy()),
            None => None,
        };
        if let Some(found) = found {
            let mut state = found;
            state.disposers = state.disposers + 1;
            let ghost v = state@;
            self.instances.insert(instance.0.clone(), state);
            assert(self@.instances =~= old(self)@.instances.insert(instance@, v));
        }
        Ok(())
    }

    /// Counts one more background task, which needs an executor.
    pub fn spawn(&mut self, options: &LifecycleOptions, instance: &InstanceId, executor: bool) -> (r: Result<
        (),
        FrameworkError,
    >)
        requires
            old(self).wf(),
        ensures
            final(self).wf(),
            match r {
                Ok(_) => executor && resource_fault(old(self)@, *options, instance@) is None && final(self)@ == with_instance(
                    old(self)@,
                    instance@,
                    InstanceView {
                        tasks: (old(self)@.instances[instance@].tasks + 1) as usize,
                        ..old(self)@.instances[instance@]
                    },
                ),
                Err(e) => final(self)@ == old(self)@ && if resource_fault(old(self)@, *options, instance@) is Some {
                    resource_fault(old(self)@, *options, instance@) == Some(e@)
                } else {
                    !executor && e@ == Fault::InvalidConfiguration("background task requires a Tokio runtime"@)
                },
            },
    {
        if let Err(e) = self.room(options, instance) {
            return Err(e);
        }
        if !executor {
            return Err(FrameworkError::InvalidConfiguration(copied("background task requires a Tokio runtime")));
        }
        let found = match self.instances.get(&instance.0) {
            Some(state) => Some(state.copy()),
            None => None,
        };
        if let Some(found) = found {
            let mut state = found;
            state.tasks = state.tasks + 1;
            let ghost v = state@;
            self.instances.insert(instance.0.clone(), state);
            assert(self@.instances =~= old(self)@.instances.insert(instance@, v));
        }
        Ok(())
    }

    fn retain_open(&mut self, open: &Vec<bool>)
        requires
            open.len() == old(self).listeners.len(),
        ensures
            final(self).instances == old(self).instances,
            final(self).services == old(self).services,
            listeners_of(final(self).listeners@) == open_listeners(
                listeners_of(old(self).listeners@),
                open@,
                open@.len(),
            ),
    {
        let ghost all = listeners_of(self.listeners@);
        let mut kept: Vec<Listener> = Vec::new();
        let mut i: usize = 0;
        assert(listeners_of(kept@) =~= open_listeners(all, open@, 0));
        while i < self.listeners.len()
            invariant
                i <= self.listeners.len() == open.len(),
                all == listeners_of(self.listeners@),
                self.instances == old(self).instances,
                self.services == old(self).services,
                listeners_of(kept@) == open_listeners(all, open@, i as nat),
            decreases self.listeners.len() - i,
        {
            if open[i] {
                let ghost before = listeners_of(kept@);
                let l = &self.listeners[i];
                let item = Listener { owner: l.owner.clone(), topic: l.topic.clone() };
                kept.push(item);
                assert(listeners_of(kept@) =~= before.push(all[i as int]));
            }
            i = i + 1;
        }
        self.listeners = kept;
    }

    fn count_owned(&self, instance: &InstanceId) -> (n: usize)
        ensures
            n == owned(self@.listeners, instance@),
    {
        let ghost all = self@.listeners;
        let mut n: usize = 0;
        let mut i: usize = 0;
        assert(all.subrange(0, 0) =~= Seq::<ListenerView>::empty());
        while i < self.listeners.len()
            invariant
                i <= self.listeners.len(),
                n <= i,
                all == listeners_of(self.listeners@),
                n == owned(all.subrange(0, i as int), instance@),
            decreases self.listeners.len() - i,
        {
            proof {
                assert(all.subrange(0, i + 1).drop_last() =~= all.subrange(0, i as int));
                assert(all.subrange(0, i + 1).last() == all[i as int]);
            }
            if same(&self.listeners[i].owner.0, &instance.0) {
                n = n + 1;
            }
            i = i + 1;
        }
        assert(all.subrange(0, i as int) =~= all);
        n
    }

    /// Adds a subscription. `open` says of each present subscription whether its queue is
    /// open; closed ones are forgotten. The new one comes last.
    pub fn subscribe(
        &mut self,
        options: &LifecycleOptions,
        instance: &InstanceId,
        topic: &str,
        capacity: usize,
        open: &Vec<bool>,
    ) -> (r: Result<(), FrameworkError>)
        requires
            old(self).wf(),
            open.len() == old(self)@.listeners.len(),
        ensures
            final(self).wf(),
            ({
                let s = old(self)@;
                let kept = open_listeners(s.listeners, open@, open@.len());
                let bad = topic_fault(*options, topic@, capacity);
                match r {
                    Ok(_) => bad is None && is_active(s, instance@) && owned(kept, instance@)
                        < options.max_subscriptions_per_module && final(self)@ == (SharedView {
                        listeners: kept.push(ListenerView { owner: instance@, topic: topic@ }),
                        ..s
                    }),
                    Err(e) => if bad is Some {
                        bad == Some(e@) && final(self)@ == s
                    } else if !is_active(s, instance@) {
                        e@ == Fault::InstanceInactive(instance@) && final(self)@ == s
                    } else {
                        &&& owned(kept, instance@) >= options.max_subscriptions_per_module
                        &&& e@ == Fault::CapacityExceeded("instance subscriptions"@)
                        &&& final(self)@ == (SharedView { listeners: kept, ..s })
                    },
                }
            }),
    {
        if topic.is_empty() || utf8_len(topic) > options.max_event_bytes || capacity == 0 || capacity > options.max_event_queue
            || capacity > usize::MAX / 8 {
            return Err(FrameworkError::InvalidConfiguration(copied("event topic or queue capacity")));
        }
        if !self.is_accepting(instance) {
            return Err(FrameworkError::InstanceInactive(instance.clone()));
        }
        self.retain_open(open);
        if self.count_owned(instance) >= options.max_subscriptions_per_module {
            return Err(FrameworkError::CapacityExceeded(copied("instance subscriptions")));
        }
        let ghost before = self@.listeners;
        self.listeners.push(Listener { owner: instance.clone(), topic: copied(topic) });
        assert(self@.listeners =~= before.push(ListenerView { owner: instance@, topic: topic@ }));
        Ok(())
    }

    /// Checks that an event may be sent, and tells for each subscription whether it is
    /// of the event's topic.
    pub fn emit(&self, options: &LifecycleOptions, instance: &InstanceId, topic: &str, data: &str) -> (r: Result<
        Vec<bool>,
        FrameworkError,
    >)
        requires
            self.wf(),
        ensures
            match r {
                Ok(list) => event_fault(self@, *options, instance@, topic@, data@) is None && list@.len()
                    == self@.listeners.len() && forall|i: int|
                    0 <= i < list@.len() ==> (#[trigger] list@[i]) == (self@.listeners[i].topic == topic@),
                Err(e) => event_fault(self@, *options, instance@, topic@, data@) == Some(e@),
            },
    {
        let limit = options.max_event_bytes;
        let head = utf8_len(topic);
        if topic.is_empty() || head > limit || utf8_len(data) > limit - head {
            return Err(FrameworkError::CapacityExceeded(copied("event bytes")));
        }
        if !self.is_accepting(instance) {
            return Err(FrameworkError::InstanceInactive(instance.clone()));
        }
        let mut list: Vec<bool> = Vec::new();
        let mut i: usize = 0;
        while i < self.listeners.len()
            invariant
                i <= self.listeners.len(),
                list.len() == i,
                forall|j: int| 0 <= j < i ==> (#[trigger] list@[j]) == (self@.listeners[j].topic == topic@),
            decreases self.listeners.len() - i,
        {
            let hit = same(&self.listeners[i].topic, topic);
            assert(self@.listeners[i as int] == self.listeners@[i as int]@);
            list.push(hit);
            i = i + 1;
        }
        Ok(list)
    }

    /// Counts how an event was taken and forgets closed queues. `sent` holds an answer for
    /// each subscription; one of another topic answers `Closed` if its queue is closed.
    pub fn sent(&mut self, topic: &str, sent: &Vec<Sent>) -> (r: DeliveryReport)
        requires
            old(self).wf(),
            sent.len() == old(self)@.listeners.len(),
        ensures
            final(self).wf(),
            final(self)@ == (SharedView {
                listeners: open_listeners(old(self)@.listeners, staying(sent@), sent@.len()),
                ..old(self)@
            }),
            r.delivered == answers(old(self)@.listeners, sent@, topic@, Sent::Delivered, sent@.len()),
            r.full == answers(old(self)@.listeners, sent@, topic@, Sent::Full, sent@.len()),
            r.closed == answers(old(self)@.listeners, sent@, topic@, Sent::Closed, sent@.len()),
    {
        let ghost all = self@.listeners;
        let mut report = DeliveryReport { delivered: 0, full: 0, closed: 0 };
        let mut open: Vec<bool> = Vec::new();
        let mut i: usize = 0;
        while i < self.listeners.len()
            invariant
                i <= self.listeners.len() == sent.len(),
                all == listeners_of(self.listeners@),
                *self == *old(self),
                open.len() == i,
                report.delivered <= i && report.full <= i && report.closed <= i,
                report.delivered == answers(all, sent@, topic@, Sent::Delivered, i as nat),
                report.full == answers(all, sent@, topic@, Sent::Full, i as nat),
                report.closed == answers(all, sent@, topic@, Sent::Closed, i as nat),
                forall|j: int| 0 <= j < i ==> (#[trigger] open@[j]) == (sent@[j] != Sent::Closed),
            decreases self.listeners.len() - i,
        {
            let hit = same(&self.listeners[i].topic, topic);
            assert(all[i as int] == self.listeners@[i as int]@);
            if hit {
                match sent[i] {
                    Sent::Delivered => {
                        report.delivered = report.delivered + 1;
                    },
                    Sent::Full => {
                        report.full = report.full + 1;
                    },
                    Sent::Closed => {
                        report.closed = report.closed + 1;
                    },
                }
            }
            open.push(sent[i] != Sent::Closed);
            i = i + 1;
        }
        assert(open@ =~= staying(sent@));
        self.retain_open(&open);
        report
    }

    fn drop_listeners(&mut self, instance: &InstanceId)
        ensures
            final(self).instances == old(self).instances,
            final(self).services == old(self).services,
            listeners_of(final(self).listeners@) == without_listeners(listeners_of(old(self).listeners@), instance@),
    {
        let ghost all = listeners_of(self.listeners@);
        let mut kept: Vec<Listener> = Vec::new();
        let mut i: usize = 0;
        assert(all.subrange(0, 0) =~= Seq::<ListenerView>::empty());
        assert(listeners_of(kept@) =~= without_listeners(all.subrange(0, 0), instance@));
        while i < self.listeners.len()
            invariant
                i <= self.listeners.len(),
                all == listeners_of(self.listeners@),
                self.instances == old(self).instances,
                self.services == old(self).services,
                listeners_of(kept@) == without_listeners(all.subrange(0, i as int), instance@),
            decreases self.listeners.len() - i,
        {
            proof {
                assert(all.subrange(0, i + 1).drop_last() =~= all.subrange(0, i as int));
                assert(all.subrange(0, i + 1).last() == all[i as int]);
            }
            let l = &self.listeners[i];
            if !same(&l.owner.0, &instance.0) {
                let ghost before = listeners_of(kept@);
                let item = Listener { owner: l.owner.clone(), topic: l.topic.clone() };
                kept.push(item);
                assert(listeners_of(kept@) =~= before.push(all[i as int]));
            }
            i = i + 1;
        }
        assert(all.subrange(0, i as int) =~= all);
        self.listeners = kept;
    }

    fn drop_services(&mut self, instance: &InstanceId)
        ensures
            final(self).instances == old(self).instances,
            final(self).listeners == old(self).listeners,
            services_of(final(self).services@) == without_services(services_of(old(self).services@), instance@),
    {
        let ghost all = services_of(self.services@);
        let mut kept: Vec<(ServiceKey, InstanceId)> = Vec::new();
        let mut i: usize = 0;
        assert(all.subrange(0, 0) =~= Seq::<(KeyView, Seq<char>)>::empty());
        assert(services_of(kept@) =~= without_services(all.subrange(0, 0), instance@));
        while i < self.services.len()
            invariant
                i <= self.services.len(),
                all == services_of(self.services@),
                self.instances == old(self).instances,
                self.listeners == old(self).listeners,
                services_of(kept@) == without_services(all.subrange(0, i as int), instance@),
            decreases self.services.len() - i,
        {
            proof {
                assert(all.subrange(0, i + 1).drop_last() =~= all.subrange(0, i as int));
                assert(all.subrange(0, i + 1).last() == all[i as int]);
            }
            let entry = &self.services[i];
            if !same(&entry.1.0, &instance.0) {
                let ghost before = services_of(kept@);
                let item = (entry.0.clone(), entry.1.clone());
                kept.push(item);
                assert(services_of(kept@) =~= before.push(all[i as int]));
            }
            i = i + 1;
        }
        assert(all.subrange(0, i as int) =~= all);
        self.services = kept;
    }

    /// The instance takes no more work and hears no more events.
    pub fn revoke(&mut self, instance: &InstanceId)
        requires
            old(self).wf(),
        ensures
            final(self).wf(),
            final(self)@ == revoked(old(self)@, instance@),
    {
        self.drop_listeners(instance);
        let found = match self.instances.get(&instance.0) {
            Some(state) => Some(state.copy()),
            None => None,
        };
        if let Some(found) = found {
            let mut state = found;
            state.accepting = false;
            let ghost v = state@;
            self.instances.insert(instance.0.clone(), state);
            assert(self@.instances =~= old(self)@.instances.insert(instance@, v));
        }
    }

    /// Takes everything an instance owns; tells how many disposers and tasks that is.
    pub fn take_resources(&mut self, instance: &InstanceId) -> (r: (usize, usize))
        requires
            old(self).wf(),
        ensures
            final(self).wf(),
            final(self)@ == released(old(self)@, instance@),
            r.0 == if old(self)@.instances.contains_key(instance@) { old(self)@.instances[instance@].disposers } else { 0 },
            r.1 == if old(self)@.instances.contains_key(instance@) { old(self)@.instances[instance@].tasks } else { 0 },
    {
        self.drop_services(instance);
        self.drop_listeners(instance);
        let found = match self.instances.get(&instance.0) {
            Some(state) => Some(state.copy()),
            None => None,
        };
        match found {
            Some(found) => {
                let mut state = found;
                let taken = (state.disposers, state.tasks);
                state.accepting = false;
                state.disposers = 0;
                state.tasks = 0;
                let ghost v = state@;
                self.instances.insert(instance.0.clone(), state);
                assert(self@.instances =~= old(self)@.instances.insert(instance@, v));
                taken
            },
            None => (0, 0),
        }
    }
}

} // verus!
