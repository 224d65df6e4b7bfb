//! The configured endpoints and the defaults they fall back on.

use std::collections::HashMap;
use vstd::prelude::*;

verus! {

/// Seconds between two checks of an endpoint that names no interval of its own.
pub const DEFAULT_INTERVAL: u64 = 60;

/// Seconds after which a check is given up where the endpoint names no timeout.
pub const DEFAULT_TIMEOUT: u64 = 5;

/// The request method of an endpoint that names none.
pub open spec fn default_method() -> Seq<char> {
    "GET"@
}

/// One endpoint to watch, as configured. Every `Option` left empty falls back on a
/// default.
#[derive(Debug)]
pub struct Endpoint {
    /// The key of the endpoint; two endpoints of one configuration should not share it.
    pub name: String,
    pub url: String,
    /// Seconds between two checks.
    pub interval: Option<u64>,
    /// Seconds after which a check is given up.
    pub timeout: Option<u64>,
    pub method: Option<String>,
    pub headers: HashMap<String, String>,
}

/// The mathematical value of an [`Endpoint`].
pub struct EndpointView {
    pub name: Seq<char>,
    pub url: Seq<char>,
    pub interval: Option<u64>,
    pub timeout: Option<u64>,
    pub method: Option<Seq<char>>,
    pub headers: Map<String, String>,
}

impl View for Endpoint {
    type V = EndpointView;

    open spec fn view(&self) -> EndpointView {
        EndpointView {
            name: self.name@,
            url: self.url@,
            interval: self.interval,
            timeout: self.timeout,
            method: match self.method {
                Some(m) => Some(m@),
                None => None,
            },
            headers: self.headers@,
        }
    }
}

impl EndpointView {
    /// The request method that the endpoint is checked with.
    pub open spec fn effective_method(self) -> Seq<char> {
        match self.method {
            Some(m) => m,
            None => default_method(),
        }
    }
}

/// The values of a sequence of endpoints, in the same order.
pub open spec fn endpoint_views(endpoints: Seq<Endpoint>) -> Seq<EndpointView> {
    endpoints.map_values(|e: Endpoint| e@)
}

impl Clone for Endpoint {
    fn clone(&self) -> (r: Self)
        ensures
            r@ == self@,
    {
        Endpoint {
            name: self.name.clone(),
            url: self.url.clone(),
            interval: self.interval,
            timeout: self.timeout,
            method: match &self.method {
                Some(m) => Some(m.clone()),
                None => None,
            },
            headers: self.headers.clone(),
        }
    }
}

impl Endpoint {
    /// The request method that the endpoint is checked with: its own, or `GET`.
    pub fn effective_method(&self) -> (m: String)
        ensures
            m@ == self@.effective_method(),
    {
        match &self.method {
            Some(m) => m.clone(),
            None => "GET".to_owned(),
        }
    }
}

/// An endpoint with every default filled in: all that a probing task has to know.
#[derive(Debug)]
pub struct EndpointDescriptor {
    pub name: String,
    pub url: String,
    pub method: String,
    pub headers: HashMap<String, String>,
    /// Seconds between two checks.
    pub interval: u64,
    /// Seconds after which a check is given up.
    pub timeout: u64,
}

/// The mathematical value of an [`EndpointDescriptor`].
pub struct EndpointDescriptorView {
    pub name: Seq<char>,
    pub url: Seq<char>,
    pub method: Seq<char>,
    pub headers: Map<String, String>,
    pub interval: u64,
    pub timeout: u64,
}

impl View for EndpointDescriptor {
    type V = EndpointDescriptorView;

    open spec fn view(&self) -> EndpointDescriptorView {
        EndpointDescriptorView {
            name: self.name@,
            url: self.url@,
            method: self.method@,
            headers: self.headers@,
            interval: self.interval,
            timeout: self.timeout,
        }
    }
}

impl EndpointView {
    /// The endpoint with its defaults filled in: its own interval, timeout and
    /// method where it names them, else the given defaults and `GET`.
    pub open spec fn resolve(
        self,
        default_interval: u64,
        default_timeout: u64,
    ) -> EndpointDescriptorView {
        EndpointDescriptorView {
            name: self.name,
            url: self.url,
            method: self.effective_method(),
            headers: self.headers,
            interval: match self.interval {
                Some(own) => own,
                None => default_interval,
            },
            timeout: match self.timeout {
                Some(own) => own,
                None => default_timeout,
            },
        }
    }
}

/// The whole configuration: the defaults and the endpoints, in display order.
#[derive(Debug)]
pub struct StatuiConfig {
    /// Seconds between two checks, for endpoints that name no interval.
    pub default_interval: u64,
    /// Seconds after which a check is given up, for endpoints that name no timeout.
    pub default_timeout: u64,
    pub endpoints: Vec<Endpoint>,
}

impl Clone for StatuiConfig {
    fn clone(&self) -> (r: Self)
        ensures
            r.default_interval == self.default_interval,
            r.default_timeout == self.default_timeout,
            endpoint_views(r.endpoints@) == endpoint_views(self.endpoints@),
    {
        let mut endpoints: Vec<Endpoint> = Vec::new();
        let mut i: usize = 0;
        while i < self.endpoints.len()
            invariant
                i <= self.endpoints.len(),
                endpoint_views(endpoints@) == endpoint_views(self.endpoints@.take(i as int)),
            decreases self.endpoints.len() - i,
        {
            let ghost before = endpoints@;
            let copy = self.endpoints[i].clone();
            endpoints.push(copy);
            proof {
                assert(endpoint_views(endpoints@) =~= endpoint_views(before).push(copy@));
                assert(self.endpoints@.take(i + 1) =~= self.endpoints@.take(i as int).push(
                    self.endpoints@[i as int],
                ));
                assert(endpoint_views(self.endpoints@.take(i + 1)) =~= endpoint_views(
                    self.endpoints@.take(i as int),
                ).push(self.endpoints@[i as int]@));
            }
            i = i + 1;
        }
        assert(self.endpoints@.take(i as int) =~= self.endpoints@);
        StatuiConfig {
            default_interval: self.default_interval,
            default_timeout: self.default_timeout,
            endpoints,
        }
    }
}

impl Default for StatuiConfig {
    fn default() -> (r: Self)
        ensures
            r.default_interval == DEFAULT_INTERVAL,
            r.default_timeout == DEFAULT_TIMEOUT,
            r.endpoints@.len() == 0,
    {
        StatuiConfig {
            default_interval: DEFAULT_INTERVAL,
            default_timeout: DEFAULT_TIMEOUT,
            endpoints: Vec::new(),
        }
    }
}

impl StatuiConfig {
    /// Seconds between two checks of the endpoint at place `i`.
    pub open spec fn interval_at(&self, i: int) -> u64 {
        match self.endpoints@[i].interval {
            Some(own) => own,
            None => self.default_interval,
        }
    }

    /// The place of the first endpoint that no timer can serve, because it would be
    /// checked every zero seconds; `None` where every endpoint has a positive
    /// interval.
    pub fn first_without_interval(&self) -> (place: Option<usize>)
        ensures
            match place {
                Some(i) => {
                    &&& i < self.endpoints@.len()
                    &&& self.interval_at(i as int) == 0
                    &&& forall|j: int| 0 <= j < i ==> self.interval_at(j) > 0
                },
                None => forall|j: int| 0 <= j < self.endpoints@.len() ==> self.interval_at(j) > 0,
            },
    {
        let mut i: usize = 0;
        while i < self.endpoints.len()
            invariant
                i <= self.endpoints@.len(),
                forall|j: int| 0 <= j < i ==> self.interval_at(j) > 0,
            decreases self.endpoints.len() - i,
        {
            if self.interval_for(&self.endpoints[i]) == 0 {
                return Some(i);
            }
            i = i + 1;
        }
        None
    }

    /// `endpoint` with the defaults of this configuration filled in.
    pub fn descriptor_of(&self, endpoint: &Endpoint) -> (descriptor: EndpointDescriptor)
        ensures
            descriptor@ == endpoint@.resolve(self.default_interval, self.default_timeout),
    {
        EndpointDescriptor {
            name: endpoint.name.clone(),
            url: endpoint.url.clone(),
            method: endpoint.effective_method(),
            headers: endpoint.headers.clone(),
            interval: self.interval_for(endpoint),
            timeout: self.timeout_for(endpoint),
        }
    }

    /// The endpoints of this configuration with its defaults filled in, in the same
    /// order.
    pub fn descriptors(&self) -> (descriptors: Vec<EndpointDescriptor>)
        ensures
            descriptors@.len() == self.endpoints@.len(),
            forall|i: int|
                0 <= i < descriptors@.len() ==> (#[trigger] descriptors@[i])@
                    == self.endpoints@[i]@.resolve(self.default_interval, self.default_timeout),
    {
        let mut descriptors: Vec<EndpointDescriptor> = Vec::new();
        let mut i: usize = 0;
        while i < self.endpoints.len()
            invariant
                i <= self.endpoints@.len(),
                descriptors@.len() == i,
                forall|j: int|
                    0 <= j < i ==> (#[trigger] descriptors@[j])@ == self.endpoints@[j]@.resolve(
                        self.default_interval,
                        self.default_timeout,
                    ),
            decreases self.endpoints.len() - i,
        {
            descriptors.push(self.descriptor_of(&self.endpoints[i]));
            i = i + 1;
        }
        descriptors
    }

    /// Seconds between two checks of `endpoint`: its own interval, or the default of
    /// this configuration.
    pub fn interval_for(&self, endpoint: &Endpoint) -> (secs: u64)
        ensures
            secs == match endpoint.interval {
                Some(own) => own,
                None => self.default_interval,
            },
    {
        match endpoint.interval {
            Some(own) => own,
            None => self.default_interval,
        }
    }

    /// Seconds after which a check of `endpoint` is given up: its own timeout, or the
    /// default of this configuration.
    pub fn timeout_for(&self, endpoint: &Endpoint) -> (secs: u64)
        ensures
            secs == match endpoint.timeout {
                Some(own) => own,
                None => self.default_timeout,
            },
    {
        match endpoint.timeout {
            Some(own) => own,
            None => self.default_timeout,
        }
    }
}

} // verus!
