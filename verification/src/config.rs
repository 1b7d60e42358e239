//! The service configuration.
//!
//! Every operation takes one immutable snapshot of this configuration
//! at entry; loading it from disk and hot-reloading it under a lock is
//! transport work outside the library.  The live connection handles
//! (directory client, permission-service channel, broker producers)
//! also live outside; what the library tracks of them is which topics
//! have a producer wired, so that the wiring rule itself is verified.

use vstd::prelude::*;
use vstd::string::StringExecFns;

use crate::delta::{spec_merge, strs_view};
use crate::error::SyncError;
use crate::membership::MembershipSet;
use crate::namespace::{parse_namespace, Namespace};

verus! {

/// The broker topics to publish on, and which of them have a producer
/// wired.
#[derive(Debug, Clone)]
pub struct Producer {
    pub topics: Vec<String>,
    pub clients: Option<MembershipSet>,
}

impl Producer {
    /// The topics that have a wired producer.
    pub open spec fn wired(self) -> Seq<Seq<char>> {
        match self.clients {
            Some(c) => c@,
            None => Seq::empty(),
        }
    }

    /// Wires a producer for every listed topic against `_broker` (the
    /// handles themselves are held outside the library).  Topics wired
    /// earlier stay wired; each listed topic is wired once.
    pub fn update(&mut self, _broker: &str) -> (r: Result<(), SyncError>)
        requires
            match old(self).clients {
                Some(c) => c.inv(),
                None => true,
            },
        ensures
            r is Ok,
            final(self).topics == old(self).topics,
            match final(self).clients {
                Some(c) => c.inv() && c@ == spec_merge(old(self).wired(), strs_view(old(self).topics@)),
                None => false,
            },
    {
        let base = match self.clients.take() {
            Some(c) => c,
            None => MembershipSet::new(),
        };
        let merged = crate::delta::merge_project(base, &self.topics);
        self.clients = Some(merged);
        Ok(())
    }
}

/// The broker address and its producers.
#[derive(Debug, Clone)]
pub struct Kafka {
    pub broker: String,
    pub producers: Producer,
}

impl Kafka {
    /// Wires the producers against this broker.
    pub fn update(&mut self) -> (r: Result<(), SyncError>)
        requires
            match old(self).producers.clients {
                Some(c) => c.inv(),
                None => true,
            },
        ensures
            r is Ok,
            final(self).broker == old(self).broker,
            final(self).producers.topics == old(self).producers.topics,
            match final(self).producers.clients {
                Some(c) => c.inv() && c@ == spec_merge(
                    old(self).producers.wired(),
                    strs_view(old(self).producers.topics@),
                ),
                None => false,
            },
    {
        let broker = self.broker.clone();
        self.producers.update(broker.as_str())
    }
}

/// The two ports a service listens on.
#[derive(Debug, Clone)]
pub struct Ports {
    pub main: String,
    pub health: String,
}

/// Where a collaborating service listens.
#[derive(Debug, Clone)]
pub struct Service {
    pub addr: String,
    pub ports: Ports,
}

/// The permission-service connection.
#[derive(Debug, Clone)]
pub struct Iam {
    pub service: Service,
}

impl Iam {
    /// The address the permission-service channel connects to.
    pub fn address(&self) -> (r: String)
        ensures
            r@ == "http://"@ + self.service.addr@ + ":"@ + self.service.ports.main@,
    {
        let mut s: String = "http://".to_owned();
        s.append(self.service.addr.as_str());
        s.append(":");
        s.append(self.service.ports.main.as_str());
        s
    }

    /// The address of the permission service's readiness probe.
    pub fn ready_address(&self) -> (r: String)
        ensures
            r@ == "http://"@ + self.service.addr@ + ":"@ + self.service.ports.health@
                + "/api/iam/ready"@,
    {
        let mut s: String = "http://".to_owned();
        s.append(self.service.addr.as_str());
        s.append(":");
        s.append(self.service.ports.health.as_str());
        s.append("/api/iam/ready");
        s
    }
}

/// The policy-check endpoint and the configured namespace selector.
#[derive(Debug, Clone)]
pub struct Opa {
    pub addr: String,
    pub mode: String,
}

/// The directory connection.
#[derive(Debug, Clone)]
pub struct Kratos {
    pub addr: String,
}

/// One immutable snapshot of the whole service configuration.
#[derive(Debug, Clone)]
pub struct SiriusConfig {
    pub service: Service,
    pub iam: Iam,
    pub opa: Opa,
    pub kratos: Kratos,
    pub kafka: Kafka,
}

impl SiriusConfig {
    /// The namespace the configuration selects; validated before any
    /// remote call.
    pub fn selected_namespace(&self) -> (r: Result<Namespace, SyncError>)
        ensures
            match r {
                Ok(ns) => (self.opa.mode@ == "admin"@ && ns == Namespace::Admin) || (
                self.opa.mode@ == "public"@ && ns == Namespace::Public) || (self.opa.mode@
                    == "trait"@ && ns == Namespace::Trait),
                Err(e) => e is InvalidMode && self.opa.mode@ != "admin"@ && self.opa.mode@
                    != "public"@ && self.opa.mode@ != "trait"@,
            },
    {
        parse_namespace(self.opa.mode.as_str())
    }
}

} // verus!
