use vstd::prelude::*;

verus! {

/// What a `Pod` stands for: the four fields that name one forwarding target.
pub struct PodView {
    pub context: Seq<char>,
    pub namespace: Seq<char>,
    pub service: Seq<char>,
    pub port: int,
}

/// One forwarding target: a service in a namespace of a cluster context, and
/// the local port it is forwarded to.
#[derive(Debug)]
pub struct Pod {
    context: String,
    namespace: String,
    service: String,
    port: i32,
}

impl View for Pod {
    type V = PodView;

    closed spec fn view(&self) -> PodView {
        PodView {
            context: self.context@,
            namespace: self.namespace@,
            service: self.service@,
            port: self.port as int,
        }
    }
}

impl Clone for Pod {
    fn clone(&self) -> (copy: Self)
        ensures
            copy@ == self@,
    {
        Pod {
            context: self.context.clone(),
            namespace: self.namespace.clone(),
            service: self.service.clone(),
            port: self.port,
        }
    }
}

impl Pod {
    pub fn new(context: &str, namespace: &str, service: &str, port: i32) -> (pod: Self)
        ensures
            pod@ == (PodView {
                context: context@,
                namespace: namespace@,
                service: service@,
                port: port as int,
            }),
    {
        Self {
            context: context.to_owned(),
            namespace: namespace.to_owned(),
            service: service.to_owned(),
            port,
        }
    }

    pub fn get_context(&self) -> (context: String)
        ensures
            context@ == self@.context,
    {
        self.context.clone()
    }

    pub fn set_context(&mut self, context: &str)
        ensures
            final(self)@ == (PodView { context: context@, ..old(self)@ }),
    {
        self.context = context.to_owned();
    }

    pub fn set_namespace(&mut self, namespace: &str)
        ensures
            final(self)@ == (PodView { namespace: namespace@, ..old(self)@ }),
    {
        self.namespace = namespace.to_owned();
    }

    pub fn set_service(&mut self, service: &str)
        ensures
            final(self)@ == (PodView { service: service@, ..old(self)@ }),
    {
        self.service = service.to_owned();
    }

    pub fn get_service(&self) -> (service: String)
        ensures
            service@ == self@.service,
    {
        self.service.clone()
    }

    pub fn set_port(&mut self, port: i32)
        ensures
            final(self)@ == (PodView { port: port as int, ..old(self)@ }),
    {
        self.port = port;
    }

    pub fn get_namespace(&self) -> (namespace: String)
        ensures
            namespace@ == self@.namespace,
    {
        self.namespace.clone()
    }

    pub fn get_port(&self) -> (port: i32)
        ensures
            port as int == self@.port,
    {
        self.port
    }

    /// Whether this target belongs to the environment `context`.
    pub fn in_context(&self, context: &String) -> (same: bool)
        ensures
            same == (self@.context == context@),
    {
        self.context == *context
    }
}

} // verus!
