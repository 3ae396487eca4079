use crate::controller::names;
use crate::pod::{Pod, PodView};
use crate::text::{first_column, first_word, push_signed_decimal, signed_decimal};
use vstd::prelude::*;
use vstd::string::*;

verus! {

/// The arguments with which `kubectl` forwards a target: the local port is
/// forwarded to port 80 of the service.
pub open spec fn forward_arguments(pod: PodView) -> Seq<Seq<char>> {
    seq![
        "--context="@ + pod.context,
        "--namespace="@ + pod.namespace,
        "port-forward"@,
        "svc/"@ + pod.service,
        signed_decimal(pod.port) + ":80"@,
    ]
}

/// The arguments with which `kubectl` lists the services.
pub open spec fn services_arguments() -> Seq<Seq<char>> {
    seq!["--namespace=d4i"@, "get"@, "services"@]
}

/// The names of the services in the listing that `kubectl` prints: the
/// first line is the header, and each line after it that has a word names
/// a service by its first word.
pub open spec fn service_names(lines: Seq<Seq<char>>) -> Seq<Seq<char>>
    decreases lines.len(),
{
    if lines.len() <= 1 {
        Seq::empty()
    } else {
        let earlier = service_names(lines.drop_last());
        match first_word(lines.last()) {
            Some(name) => earlier.push(name),
            None => earlier,
        }
    }
}

/// The backend that forwards through the `kubectl` command. It says what
/// to run; running it is left to the caller.
pub struct KubernetesImpl {}

impl KubernetesImpl {
    /// The name of the command.
    pub fn program() -> (program: String)
        ensures
            program@ == "kubectl"@,
    {
        "kubectl".to_owned()
    }

    /// The namespaces known to the backend.
    pub fn get_namespaces() -> (namespaces: Vec<String>)
        ensures
            names(namespaces@) == seq!["d4i"@],
    {
        let mut namespaces: Vec<String> = Vec::new();
        namespaces.push("d4i".to_owned());
        namespaces
    }

    /// The arguments of the call that lists the services.
    pub fn services_arguments() -> (arguments: Vec<String>)
        ensures
            names(arguments@) == services_arguments(),
    {
        let mut arguments: Vec<String> = Vec::new();
        arguments.push("--namespace=d4i".to_owned());
        arguments.push("get".to_owned());
        arguments.push("services".to_owned());
        arguments
    }

    /// The names of the services in the lines that the listing printed.
    pub fn service_names(lines: &Vec<String>) -> (services: Vec<String>)
        ensures
            names(services@) == service_names(names(lines@)),
    {
        let ghost all = names(lines@);
        let mut services: Vec<String> = Vec::new();
        if lines.len() == 0 {
            return services;
        }
        let mut l: usize = 1;
        while l < lines.len()
            invariant
                1 <= l <= lines.len(),
                all == names(lines@),
                names(services@) == service_names(all.take(l as int)),
            decreases lines.len() - l,
        {
            proof {
                assert(all.take(l + 1).drop_last() =~= all.take(l as int));
            }
            if let Some(name) = first_column(lines[l].as_str()) {
                services.push(name);
            }
            l += 1;
        }
        assert(all.take(lines.len() as int) =~= all);
        services
    }

    /// The arguments of the call that forwards `pod`.
    pub fn forward_arguments(pod: &Pod) -> (arguments: Vec<String>)
        ensures
            names(arguments@) == forward_arguments(pod@),
    {
        let mut context = "--context=".to_owned();
        context.append(pod.get_context().as_str());
        let mut namespace = "--namespace=".to_owned();
        namespace.append(pod.get_namespace().as_str());
        let mut service = "svc/".to_owned();
        service.append(pod.get_service().as_str());
        let mut ports = String::new();
        push_signed_decimal(&mut ports, pod.get_port());
        ports.append(":80");
        let mut arguments: Vec<String> = Vec::new();
        arguments.push(context);
        arguments.push(namespace);
        arguments.push("port-forward".to_owned());
        arguments.push(service);
        arguments.push(ports);
        arguments
    }
}

} // verus!
