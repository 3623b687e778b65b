//! The deployment controller: what to ask of the container engine when a
//! manifest has been uploaded, one command at a time.
//!
//! The controller never talks to the engine itself. It hands out the next
//! [`Action`]; the caller carries it out and reports whether it succeeded.

use crate::container::{container_name, container_name_text, PublishedContainer};
use crate::location::{
    is_path_safe, path_safe, reference_text, ImageLocation, LocationView, ManifestReference,
    ManifestReferenceView, ReferenceView,
};
use crate::secret::{duplicate, secret_text};
use crate::text::{decimal_text, pairs, push_char, push_decimal, push_text, texts};
use sec::Secret;
use vstd::prelude::*;

verus! {

/// The port on which a deployed container is expected to listen.
pub const CONTAINER_PORT: u16 = 8000;

/// The tag whose upload triggers a deployment.
pub open spec fn production_tag() -> Seq<char> {
    "prod"@
}

/// The name under which the engine pulls the production image of
/// `location` from the registry at `local_addr`.
pub open spec fn image_url_text(local_addr: Seq<char>, location: LocationView) -> Seq<char> {
    local_addr + seq!['/'] + location.repository + seq!['/'] + location.image + seq![':']
        + production_tag()
}

/// The port binding of a deployed container: a port of the engine's
/// choosing on the loopback interface, to the container's port.
pub open spec fn publish_text() -> Seq<char> {
    "127.0.0.1::"@ + decimal_text(CONTAINER_PORT as nat)
}

/// The environment of a deployed container: `PORT`, set to its port.
pub open spec fn run_environment() -> Seq<(Seq<char>, Seq<char>)> {
    seq![("PORT"@, decimal_text(CONTAINER_PORT as nat))]
}

/// Whether settings can be kept for the manifest `reference`: its names
/// must do as path components.
pub open spec fn has_settings(reference: ManifestReferenceView) -> bool {
    reference.location.is_path_safe() && is_path_safe(reference_text(reference.reference))
}

/// The components of the path at which the settings of `reference` are
/// kept, below the runtime directory.
pub open spec fn config_path_parts(reference: ManifestReferenceView) -> Seq<Seq<char>> {
    seq![
        "configs"@,
        reference.location.repository,
        reference.location.image,
        reference_text(reference.reference),
    ]
}

/// A command for the container engine.
#[derive(Debug, PartialEq, Eq)]
pub enum EngineCommand {
    /// Remove the container `name`; with `force`, succeed if there is none.
    Remove { name: String, force: bool },
    /// Log in to the registry at `registry`.
    Login { username: String, password: Secret<String>, registry: String, tls_verify: bool },
    /// Pull the image `image_url`.
    Pull { image_url: String },
    /// Start a detached container from `image_url`.
    Run {
        image_url: String,
        name: String,
        /// Remove the container when it exits.
        rm: bool,
        /// Remove the image when the container exits.
        rmi: bool,
        tls_verify: bool,
        /// The port binding.
        publish: String,
        /// The environment, as pairs of name and value.
        env: Vec<(String, String)>,
    },
}

/// What an [`EngineCommand`] says.
pub enum CommandView {
    Remove { name: Seq<char>, force: bool },
    Login { username: Seq<char>, password: Seq<char>, registry: Seq<char>, tls_verify: bool },
    Pull { image_url: Seq<char> },
    Run {
        image_url: Seq<char>,
        name: Seq<char>,
        rm: bool,
        rmi: bool,
        tls_verify: bool,
        publish: Seq<char>,
        env: Seq<(Seq<char>, Seq<char>)>,
    },
}

impl View for EngineCommand {
    type V = CommandView;

    open spec fn view(&self) -> CommandView {
        match self {
            EngineCommand::Remove { name, force } => CommandView::Remove {
                name: name@,
                force: *force,
            },
            EngineCommand::Login {
                username,
                password,
                registry,
                tls_verify,
            } => CommandView::Login {
                username: username@,
                password: secret_text(*password),
                registry: registry@,
                tls_verify: *tls_verify,
            },
            EngineCommand::Pull { image_url } => CommandView::Pull { image_url: image_url@ },
            EngineCommand::Run {
                image_url,
                name,
                rm,
                rmi,
                tls_verify,
                publish,
                env,
            } => CommandView::Run {
                image_url: image_url@,
                name: name@,
                rm: *rm,
                rmi: *rmi,
                tls_verify: *tls_verify,
                publish: publish@,
                env: pairs(env@),
            },
        }
    }
}

/// What the caller is to do next.
#[derive(Debug, PartialEq, Eq)]
pub enum Action {
    /// Run this command and report whether it succeeded.
    Engine(EngineCommand),
    /// List the running containers and hand the published ones to the
    /// reverse proxy, then report.
    Republish,
    /// Nothing is left to do.
    Finished,
}

/// What an [`Action`] says.
pub enum ActionView {
    Engine(CommandView),
    Republish,
    Finished,
}

impl View for Action {
    type V = ActionView;

    open spec fn view(&self) -> ActionView {
        match self {
            Action::Engine(command) => ActionView::Engine(command@),
            Action::Republish => ActionView::Republish,
            Action::Finished => ActionView::Finished,
        }
    }
}

/// How far a reconciliation has come: the action that is due.
#[derive(Clone, Copy, Debug, PartialEq, Eq, Structural)]
pub enum ReconcileStep {
    /// Remove the container of an earlier deployment.
    Remove,
    /// Log in to the registry.
    Login,
    /// Pull the image.
    Pull,
    /// Start the container.
    Run,
    /// Publish the set of running containers.
    Republish,
    /// Done.
    Finished,
}

/// The step at which a reconciliation of `reference` starts: the
/// production tag starts a deployment, and for any other reference
/// nothing is done at all.
pub open spec fn first_step(reference: ReferenceView) -> ReconcileStep {
    if reference == ReferenceView::Tag(production_tag()) {
        ReconcileStep::Remove
    } else {
        ReconcileStep::Finished
    }
}

/// The step that ends a reconciliation.
pub open spec fn last_step(republish: bool) -> ReconcileStep {
    if republish {
        ReconcileStep::Republish
    } else {
        ReconcileStep::Finished
    }
}

/// The step that follows `step`. A deployment goes on while its commands
/// succeed and is given up at the first that fails.
pub open spec fn next_step(step: ReconcileStep, succeeded: bool, republish: bool) -> ReconcileStep {
    match step {
        ReconcileStep::Remove => if succeeded {
            ReconcileStep::Login
        } else {
            last_step(republish)
        },
        ReconcileStep::Login => if succeeded {
            ReconcileStep::Pull
        } else {
            last_step(republish)
        },
        ReconcileStep::Pull => if succeeded {
            ReconcileStep::Run
        } else {
            last_step(republish)
        },
        ReconcileStep::Run => last_step(republish),
        ReconcileStep::Republish => ReconcileStep::Finished,
        ReconcileStep::Finished => ReconcileStep::Finished,
    }
}

/// The action that is due at `step` of a reconciliation for `location`.
pub open spec fn action_at(
    step: ReconcileStep,
    location: LocationView,
    local_addr: Seq<char>,
    username: Seq<char>,
    password: Seq<char>,
) -> ActionView {
    match step {
        ReconcileStep::Remove => ActionView::Engine(
            CommandView::Remove { name: container_name_text(location), force: true },
        ),
        ReconcileStep::Login => ActionView::Engine(
            CommandView::Login { username, password, registry: local_addr, tls_verify: false },
        ),
        ReconcileStep::Pull => ActionView::Engine(
            CommandView::Pull { image_url: image_url_text(local_addr, location) },
        ),
        ReconcileStep::Run => ActionView::Engine(
            CommandView::Run {
                image_url: image_url_text(local_addr, location),
                name: container_name_text(location),
                rm: true,
                rmi: true,
                tls_verify: false,
                publish: publish_text(),
                env: run_environment(),
            },
        ),
        ReconcileStep::Republish => ActionView::Republish,
        ReconcileStep::Finished => ActionView::Finished,
    }
}

/// One reconciliation in progress.
#[derive(Debug, PartialEq, Eq)]
pub struct Reconcile {
    location: ImageLocation,
    step: ReconcileStep,
    republish: bool,
}

impl Reconcile {
    /// The location whose container is being reconciled.
    pub closed spec fn location(&self) -> LocationView {
        self.location@
    }

    /// The step that is due.
    pub closed spec fn current(&self) -> ReconcileStep {
        self.step
    }

    /// Whether the set of running containers is published at the end.
    pub closed spec fn republishes(&self) -> bool {
        self.republish
    }

    /// The step that is due.
    pub fn step(&self) -> (step: ReconcileStep)
        ensures
            step == self.current(),
    {
        self.step
    }

    /// Whether nothing is left to do.
    pub fn is_finished(&self) -> (finished: bool)
        ensures
            finished == (self.current() == ReconcileStep::Finished),
    {
        match self.step {
            ReconcileStep::Finished => true,
            _ => false,
        }
    }

    /// Records how the action that was due has ended and moves on.
    pub fn advance(&mut self, succeeded: bool)
        ensures
            final(self).current() == next_step(
                old(self).current(),
                succeeded,
                old(self).republishes(),
            ),
            final(self).location() == old(self).location(),
            final(self).republishes() == old(self).republishes(),
    {
        let end = if self.republish {
            ReconcileStep::Republish
        } else {
            ReconcileStep::Finished
        };
        let next = match self.step {
            ReconcileStep::Remove => if succeeded {
                ReconcileStep::Login
            } else {
                end
            },
            ReconcileStep::Login => if succeeded {
                ReconcileStep::Pull
            } else {
                end
            },
            ReconcileStep::Pull => if succeeded {
                ReconcileStep::Run
            } else {
                end
            },
            ReconcileStep::Run => end,
            ReconcileStep::Republish => ReconcileStep::Finished,
            ReconcileStep::Finished => ReconcileStep::Finished,
        };
        self.step = next;
    }
}

/// The controller: it knows where the registry is reached and how to log
/// in to it.
#[derive(Debug)]
pub struct ContainerOrchestrator {
    local_addr: String,
    registry_credentials: (String, Secret<String>),
}

impl ContainerOrchestrator {
    /// The address under which the engine reaches the registry.
    pub closed spec fn registry_addr(&self) -> Seq<char> {
        self.local_addr@
    }

    /// The username with which the engine logs in.
    pub closed spec fn username(&self) -> Seq<char> {
        self.registry_credentials.0@
    }

    /// The password with which the engine logs in.
    pub closed spec fn password(&self) -> Seq<char> {
        secret_text(self.registry_credentials.1)
    }

    /// A controller for the registry at `local_addr`, to which the engine
    /// logs in with `registry_credentials`.
    pub fn new(local_addr: String, registry_credentials: (String, Secret<String>)) -> (orchestrator:
        ContainerOrchestrator)
        ensures
            orchestrator.registry_addr() == local_addr@,
            orchestrator.username() == registry_credentials.0@,
            orchestrator.password() == secret_text(registry_credentials.1),
    {
        ContainerOrchestrator { local_addr, registry_credentials }
    }

    /// Where the settings of `manifest_reference` are kept, as the
    /// components of a path below the runtime directory:
    /// `configs/<repository>/<image>/<reference>`. There is no such place
    /// for a manifest whose names do not do as path components; no
    /// settings are then found for it.
    pub fn config_path(&self, manifest_reference: &ManifestReference) -> (path: Option<Vec<String>>)
        ensures
            match path {
                Some(parts) => has_settings(manifest_reference@) && texts(parts@)
                    == config_path_parts(manifest_reference@),
                None => !has_settings(manifest_reference@),
            },
    {
        let location = manifest_reference.location();
        let reference = manifest_reference.reference().to_string();
        if !location.is_path_safe() || !path_safe(reference.as_str()) {
            return None;
        }
        let mut path: Vec<String> = Vec::new();
        path.push("configs".to_owned());
        path.push(location.repository().to_owned());
        path.push(location.image().to_owned());
        path.push(reference);
        assert(texts(path@) =~= config_path_parts(manifest_reference@));
        Some(path)
    }

    /// The name under which the engine pulls the production image of
    /// `location`.
    pub fn image_url(&self, location: &ImageLocation) -> (url: String)
        ensures
            url@ == image_url_text(self.registry_addr(), location@),
    {
        let mut url = self.local_addr.clone();
        push_char(&mut url, '/');
        push_text(&mut url, location.repository());
        push_char(&mut url, '/');
        push_text(&mut url, location.image());
        push_char(&mut url, ':');
        push_text(&mut url, "prod");
        url
    }

    /// Starts bringing the container of `manifest_reference` up to date:
    /// a deployment if the reference is the production tag, nothing
    /// otherwise.
    pub fn synchronize_container_state(&self, manifest_reference: &ManifestReference) -> (reconcile:
        Reconcile)
        ensures
            reconcile.location() == manifest_reference@.location,
            !reconcile.republishes(),
            reconcile.current() == first_step(manifest_reference@.reference),
    {
        self.begin(manifest_reference, false)
    }

    /// Starts the work that follows the upload of `manifest_reference`:
    /// for the production tag a deployment, at the end of which the
    /// running containers are published, and for any other reference
    /// nothing at all.
    pub fn on_manifest_uploaded(&self, manifest_reference: &ManifestReference) -> (reconcile:
        Reconcile)
        ensures
            reconcile.location() == manifest_reference@.location,
            reconcile.republishes(),
            reconcile.current() == first_step(manifest_reference@.reference),
    {
        self.begin(manifest_reference, true)
    }

    fn begin(&self, manifest_reference: &ManifestReference, republish: bool) -> (reconcile:
        Reconcile)
        ensures
            reconcile.location() == manifest_reference@.location,
            reconcile.republishes() == republish,
            reconcile.current() == first_step(manifest_reference@.reference),
    {
        let step = if manifest_reference.reference().is_tag("prod") {
            ReconcileStep::Remove
        } else {
            ReconcileStep::Finished
        };
        Reconcile { location: manifest_reference.location().clone(), step, republish }
    }

    /// The reconciliations to run at startup: one for each published
    /// container, in order.
    pub fn synchronize_all(&self, containers: &Vec<PublishedContainer>) -> (reconciles: Vec<
        Reconcile,
    >)
        ensures
            reconciles@.len() == containers@.len(),
            forall|i: int|
                0 <= i < containers@.len() ==> {
                    &&& (#[trigger] reconciles@[i]).location() == containers@[i].manifest().location
                    &&& !reconciles@[i].republishes()
                    &&& reconciles@[i].current() == first_step(containers@[i].manifest().reference)
                },
    {
        let mut reconciles: Vec<Reconcile> = Vec::new();
        let mut i: usize = 0;
        while i < containers.len()
            invariant
                0 <= i <= containers.len(),
                reconciles@.len() == i,
                forall|j: int|
                    0 <= j < i ==> {
                        &&& (#[trigger] reconciles@[j]).location()
                            == containers@[j].manifest().location
                        &&& !reconciles@[j].republishes()
                        &&& reconciles@[j].current() == first_step(containers@[j].manifest().reference)
                    },
            decreases containers.len() - i,
        {
            let reconcile = self.synchronize_container_state(containers[i].manifest_reference());
            reconciles.push(reconcile);
            i += 1;
        }
        reconciles
    }

    /// The action that is due in `reconcile`.
    pub fn action(&self, reconcile: &Reconcile) -> (action: Action)
        ensures
            action@ == action_at(
                reconcile.current(),
                reconcile.location(),
                self.registry_addr(),
                self.username(),
                self.password(),
            ),
    {
        match reconcile.step {
            ReconcileStep::Remove => Action::Engine(
                EngineCommand::Remove { name: container_name(&reconcile.location), force: true },
            ),
            ReconcileStep::Login => Action::Engine(
                EngineCommand::Login {
                    username: self.registry_credentials.0.clone(),
                    password: duplicate(&self.registry_credentials.1),
                    registry: self.local_addr.clone(),
                    tls_verify: false,
                },
            ),
            ReconcileStep::Pull => Action::Engine(
                EngineCommand::Pull { image_url: self.image_url(&reconcile.location) },
            ),
            ReconcileStep::Run => {
                let mut publish = "127.0.0.1::".to_owned();
                push_decimal(&mut publish, CONTAINER_PORT as u64);
                let mut port = String::new();
                push_decimal(&mut port, CONTAINER_PORT as u64);
                assert(port@ =~= decimal_text(CONTAINER_PORT as nat));
                let mut env: Vec<(String, String)> = Vec::new();
                env.push(("PORT".to_owned(), port));
                assert(pairs(env@) =~= run_environment());
                Action::Engine(
                    EngineCommand::Run {
                        image_url: self.image_url(&reconcile.location),
                        name: container_name(&reconcile.location),
                        rm: true,
                        rmi: true,
                        tls_verify: false,
                        publish,
                        env,
                    },
                )
            },
            ReconcileStep::Republish => Action::Republish,
            ReconcileStep::Finished => Action::Finished,
        }
    }
}

/// The steps through which a reconciliation goes when its actions end as
/// `outcomes` tell, the starting step first.
pub open spec fn steps_taken(start: ReconcileStep, outcomes: Seq<bool>, republish: bool) -> Seq<
    ReconcileStep,
>
    decreases outcomes.len(),
{
    if outcomes.len() == 0 {
        seq![start]
    } else {
        seq![start] + steps_taken(
            next_step(start, outcomes[0], republish),
            outcomes.drop_first(),
            republish,
        )
    }
}

/// A reconciliation ends: whatever the outcomes of its actions, after five
/// of them nothing is left to do.
pub proof fn lemma_reconcile_terminates(start: ReconcileStep, outcomes: Seq<bool>, republish: bool)
    requires
        outcomes.len() >= 5,
    ensures
        steps_taken(start, outcomes, republish).last() == ReconcileStep::Finished,
        steps_taken(start, outcomes, republish).len() == outcomes.len() + 1,
{
    lemma_steps(start, outcomes, republish);
}

/// How many actions are due at most from `step` on.
pub open spec fn actions_left(step: ReconcileStep) -> nat {
    match step {
        ReconcileStep::Remove => 5,
        ReconcileStep::Login => 4,
        ReconcileStep::Pull => 3,
        ReconcileStep::Run => 2,
        ReconcileStep::Republish => 1,
        ReconcileStep::Finished => 0,
    }
}

proof fn lemma_steps(start: ReconcileStep, outcomes: Seq<bool>, republish: bool)
    ensures
        steps_taken(start, outcomes, republish).len() == outcomes.len() + 1,
        outcomes.len() >= actions_left(start) ==> steps_taken(start, outcomes, republish).last()
            == ReconcileStep::Finished,
    decreases outcomes.len(),
{
    if outcomes.len() > 0 {
        let next = next_step(start, outcomes[0], republish);
        lemma_steps(next, outcomes.drop_first(), republish);
        assert(actions_left(next) < actions_left(start) || start == ReconcileStep::Finished);
    }
}

/// A failed command ends the deployment: after a command of the engine
/// has failed, no further command is issued, and the running containers
/// are published if and only if the reconciliation was started by an
/// upload.
pub proof fn lemma_failure_ends_deployment(step: ReconcileStep, republish: bool)
    requires
        step == ReconcileStep::Remove || step == ReconcileStep::Login || step
            == ReconcileStep::Pull || step == ReconcileStep::Run,
    ensures
        next_step(step, false, republish) == last_step(republish),
        next_step(last_step(republish), true, republish) == ReconcileStep::Finished,
        next_step(last_step(republish), false, republish) == ReconcileStep::Finished,
{
}

/// A deployment whose commands all succeed removes the old container,
/// logs in, pulls, starts the new container and then ends, in this order.
pub proof fn lemma_successful_deployment(republish: bool)
    ensures
        steps_taken(ReconcileStep::Remove, seq![true, true, true, true], republish) == seq![
            ReconcileStep::Remove,
            ReconcileStep::Login,
            ReconcileStep::Pull,
            ReconcileStep::Run,
            last_step(republish),
        ],
{
    reveal_with_fuel(steps_taken, 6);
    let o4 = seq![true, true, true, true];
    let o3 = seq![true, true, true];
    let o2 = seq![true, true];
    let o1 = seq![true];
    assert(o4.drop_first() =~= o3);
    assert(o3.drop_first() =~= o2);
    assert(o2.drop_first() =~= o1);
    assert(o1.drop_first() =~= Seq::<bool>::empty());
    assert(steps_taken(ReconcileStep::Remove, o4, republish) =~= seq![
        ReconcileStep::Remove,
        ReconcileStep::Login,
        ReconcileStep::Pull,
        ReconcileStep::Run,
        last_step(republish),
    ]);
}

} // verus!
