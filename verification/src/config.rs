use crate::controller::{session_views, targets};
use crate::pod::{Pod, PodView};
use crate::session::PodUI;
use vstd::prelude::*;

verus! {

/// One forwarded service of a namespace.
#[derive(Debug)]
pub struct PodConfig {
    pub service: String,
    pub port: i32,
}

/// One namespace of a context, with its services.
#[derive(Debug)]
pub struct NameSpaceConfig {
    pub namespace: String,
    pub pods: Vec<PodConfig>,
}

/// One cluster context, with its namespaces.
#[derive(Debug)]
pub struct ContextConfig {
    pub context: String,
    pub namespaces: Vec<NameSpaceConfig>,
}

/// The configuration: the contexts, in the order in which they are listed.
#[derive(Debug)]
pub struct Config {
    pub contexts: Vec<ContextConfig>,
}

impl Default for Config {
    /// The configuration without any context.
    fn default() -> (config: Self)
        ensures
            config.contexts@.len() == 0,
    {
        Config { contexts: Vec::new() }
    }
}

/// The target that a configured service stands for.
pub open spec fn pod_target(context: Seq<char>, namespace: Seq<char>, pod: PodConfig) -> PodView {
    PodView { context, namespace, service: pod.service@, port: pod.port as int }
}

/// The targets of a namespace, in the order of its services.
pub open spec fn namespace_targets(context: Seq<char>, namespace: NameSpaceConfig) -> Seq<PodView> {
    namespace.pods@.map_values(|pod: PodConfig| pod_target(context, namespace.namespace@, pod))
}

/// The targets of a context: those of its namespaces, one namespace after
/// the other.
pub open spec fn context_targets(context: ContextConfig) -> Seq<PodView> {
    context.namespaces@.map_values(
        |namespace: NameSpaceConfig| namespace_targets(context.context@, namespace),
    ).flatten()
}

/// The targets of a configuration: those of its contexts, one context after
/// the other.
pub open spec fn config_targets(config: Config) -> Seq<PodView> {
    config.contexts@.map_values(|context: ContextConfig| context_targets(context)).flatten()
}

impl Config {
    /// The sessions that the configuration asks for: one for each service,
    /// in the order of the configuration, none of them holding a handle.
    /// A service that is listed twice gets two sessions.
    pub fn sessions<H>(&self) -> (pods: Vec<PodUI<H>>)
        ensures
            targets(session_views(pods@)) == config_targets(*self),
            forall|i: int| 0 <= i < pods@.len() ==> (#[trigger] pods@[i])@.process is None,
    {
        let ghost per_context = self.contexts@.map_values(
            |context: ContextConfig| context_targets(context),
        );
        let mut pods: Vec<PodUI<H>> = Vec::new();
        let mut c: usize = 0;
        while c < self.contexts.len()
            invariant
                c <= self.contexts.len(),
                per_context == self.contexts@.map_values(
                    |context: ContextConfig| context_targets(context),
                ),
                targets(session_views(pods@)) == per_context.take(c as int).flatten(),
                forall|i: int| 0 <= i < pods@.len() ==> (#[trigger] pods@[i])@.process is None,
            decreases self.contexts.len() - c,
        {
            let context = &self.contexts[c];
            let ghost done = targets(session_views(pods@));
            let ghost per_namespace = context.namespaces@.map_values(
                |namespace: NameSpaceConfig| namespace_targets(context.context@, namespace),
            );
            let mut n: usize = 0;
            while n < context.namespaces.len()
                invariant
                    n <= context.namespaces.len(),
                    per_namespace == context.namespaces@.map_values(
                        |namespace: NameSpaceConfig| namespace_targets(context.context@, namespace),
                    ),
                    targets(session_views(pods@)) == done + per_namespace.take(n as int).flatten(),
                    forall|i: int| 0 <= i < pods@.len() ==> (#[trigger] pods@[i])@.process is None,
                decreases context.namespaces.len() - n,
            {
                let namespace = &context.namespaces[n];
                let ghost before = targets(session_views(pods@));
                let ghost wanted = namespace_targets(context.context@, *namespace);
                let mut p: usize = 0;
                while p < namespace.pods.len()
                    invariant
                        p <= namespace.pods.len(),
                        wanted == namespace_targets(context.context@, *namespace),
                        targets(session_views(pods@)) == before + wanted.take(p as int),
                        forall|i: int|
                            0 <= i < pods@.len() ==> (#[trigger] pods@[i])@.process is None,
                    decreases namespace.pods.len() - p,
                {
                    let pod = &namespace.pods[p];
                    let session = PodUI::new(
                        Pod::new(
                            context.context.as_str(),
                            namespace.namespace.as_str(),
                            pod.service.as_str(),
                            pod.port,
                        ),
                    );
                    let ghost held = pods@;
                    pods.push(session);
                    assert(targets(session_views(pods@)) =~= targets(session_views(held)).push(
                        wanted[p as int],
                    ));
                    p += 1;
                }
                proof {
                    assert(per_namespace.take(n + 1) =~= per_namespace.take(n as int).push(wanted));
                    per_namespace.take(n as int).lemma_flatten_push(wanted);
                }
                n += 1;
            }
            proof {
                assert(per_namespace.take(context.namespaces.len() as int) =~= per_namespace);
                assert(per_context.take(c + 1) =~= per_context.take(c as int).push(
                    context_targets(*context),
                ));
                per_context.take(c as int).lemma_flatten_push(context_targets(*context));
            }
            c += 1;
        }
        assert(per_context.take(self.contexts.len() as int) =~= per_context);
        pods
    }
}

} // verus!
