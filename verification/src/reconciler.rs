//! Startup reconciliation: which models were running before ai-switch started.

use vstd::prelude::*;
use vstd::string::*;

use crate::config::model_views;
use crate::config::Config;
use crate::config::ConfigView;
use crate::config::ModelConfigView;
use crate::process_manager::body_lists_models;
use crate::process_manager::lists_models;
use crate::process_manager::probed_state;
use crate::process_manager::HttpReply;
use crate::process_manager::PortProbe;
use crate::process_manager::PortState;
use crate::process_manager::ProcessError;
use crate::scan::views;
use crate::text::has_text;

verus! {

/// The state of a port by what was seen of it at startup.
pub open spec fn startup_state(probe: PortProbe) -> PortState {
    if !probe.connected {
        PortState::Free
    } else if probe.body() matches Some(body) && lists_models(body) {
        PortState::OccupiedByModel
    } else {
        probe.foreign()
    }
}

impl PortState {
    /// The state of a port by what was seen of it at startup: a model server is known by a
    /// list of models.
    pub fn from_port_check(probe: &PortProbe) -> (state: PortState)
        ensures
            state == startup_state(*probe),
    {
        if !probe.connected {
            return PortState::Free;
        }
        match probe.reply_body() {
            Some(body) => {
                if body_lists_models(body.as_str()) {
                    return PortState::OccupiedByModel;
                }
            },
            None => {},
        }
        probe.foreign_state()
    }
}

/// The state of `port`, by the first of the probes, from `from` on, that saw it; a port that
/// none saw is free.
pub open spec fn seen_state(probes: Seq<PortProbe>, port: u16, from: int) -> PortState
    decreases probes.len() - from,
{
    if from >= probes.len() {
        PortState::Free
    } else if probes[from].port == port {
        startup_state(probes[from])
    } else {
        seen_state(probes, port, from + 1)
    }
}

/// The ids of the first `upto` models whose port a model server holds, in order.
pub open spec fn running_ids(
    models: Seq<ModelConfigView>,
    probes: Seq<PortProbe>,
    upto: int,
) -> Seq<Seq<char>>
    decreases upto,
{
    if upto <= 0 {
        seq![]
    } else {
        let before = running_ids(models, probes, upto - 1);
        if seen_state(probes, models[upto - 1].port, 0) == PortState::OccupiedByModel {
            before.push(models[upto - 1].id)
        } else {
            before
        }
    }
}

/// Result of the startup reconciliation.
#[derive(Debug)]
pub enum ReconcileResult {
    /// Exactly one model is running: its id.
    OneRunning(String),
    /// Multiple models are running: their ids.
    MultipleRunning(Vec<String>),
    /// No models are running.
    NoneRunning,
}

/// What a `ReconcileResult` says.
pub enum ReconcileView {
    OneRunning(Seq<char>),
    MultipleRunning(Seq<Seq<char>>),
    NoneRunning,
}

impl View for ReconcileResult {
    type V = ReconcileView;

    open spec fn view(&self) -> ReconcileView {
        match self {
            ReconcileResult::OneRunning(id) => ReconcileView::OneRunning(id@),
            ReconcileResult::MultipleRunning(ids) => ReconcileView::MultipleRunning(views(ids@)),
            ReconcileResult::NoneRunning => ReconcileView::NoneRunning,
        }
    }
}

/// The result that a list of running models comes to.
pub open spec fn reconciled(ids: Seq<Seq<char>>) -> ReconcileView {
    if ids.len() == 0 {
        ReconcileView::NoneRunning
    } else if ids.len() == 1 {
        ReconcileView::OneRunning(ids[0])
    } else {
        ReconcileView::MultipleRunning(ids)
    }
}

/// Reconciler: checks for running models at startup.
pub struct Reconciler {
    config: Config,
}

impl View for Reconciler {
    type V = ConfigView;

    closed spec fn view(&self) -> ConfigView {
        self.config@
    }
}

fn state_of_port(probes: &Vec<PortProbe>, port: u16) -> (state: PortState)
    ensures
        state == seen_state(probes@, port, 0),
{
    let mut i: usize = 0;
    while i < probes.len()
        invariant
            i <= probes@.len(),
            seen_state(probes@, port, 0) == seen_state(probes@, port, i as int),
        decreases probes@.len() - i,
    {
        if probes[i].port == port {
            return PortState::from_port_check(&probes[i]);
        }
        i = i + 1;
    }
    PortState::Free
}

impl Reconciler {
    /// A reconciler for a loaded configuration.
    pub fn new(config: Config) -> (r: Self)
        ensures
            r@ == config@,
    {
        Reconciler { config }
    }

    /// Runs the reconciliation on what was seen of the ports; a port without a probe is free.
    pub fn reconcile(&self, probes: &Vec<PortProbe>) -> (r: Result<ReconcileResult, ProcessError>)
        ensures
            r matches Ok(result) && result@ == reconciled(
                running_ids(self@.models, probes@, self@.models.len() as int),
            ),
    {
        let ghost models = self@.models;
        let mut ids: Vec<String> = Vec::new();
        let mut i: usize = 0;
        proof {
            assert(views(ids@) =~= running_ids(models, probes@, 0));
        }
        while i < self.config.models.len()
            invariant
                i <= self.config.models@.len(),
                models == model_views(self.config.models@),
                views(ids@) == running_ids(models, probes@, i as int),
            decreases self.config.models@.len() - i,
        {
            let ghost before = views(ids@);
            match state_of_port(probes, self.config.models[i].port) {
                PortState::OccupiedByModel => {
                    ids.push(self.config.models[i].id.clone());
                    proof {
                        assert(views(ids@) =~= before.push(models[i as int].id));
                    }
                },
                PortState::OccupiedByUnknown(_) => {},
                PortState::Free => {},
            }
            i = i + 1;
        }
        proof {
            assert(ids@.len() == views(ids@).len());
        }
        if ids.len() == 0 {
            Ok(ReconcileResult::NoneRunning)
        } else if ids.len() == 1 {
            Ok(ReconcileResult::OneRunning(ids[0].clone()))
        } else {
            Ok(ReconcileResult::MultipleRunning(ids))
        }
    }
}

/// Model number `i` has this id, and a model server holds its port.
pub open spec fn runs_under(
    models: Seq<ModelConfigView>,
    probes: Seq<PortProbe>,
    i: int,
    id: Seq<char>,
) -> bool {
    models[i].id == id && seen_state(probes, models[i].port, 0) == PortState::OccupiedByModel
}

/// One of the first `upto` models has this id, and a model server holds its port.
pub open spec fn runs_among(
    models: Seq<ModelConfigView>,
    probes: Seq<PortProbe>,
    upto: int,
    id: Seq<char>,
) -> bool {
    exists|i: int| 0 <= i < upto && #[trigger] runs_under(models, probes, i, id)
}

proof fn lemma_running_ids(models: Seq<ModelConfigView>, probes: Seq<PortProbe>, upto: int)
    requires
        0 <= upto <= models.len(),
    ensures
        forall|id: Seq<char>| #[trigger]
            running_ids(models, probes, upto).contains(id) <==> runs_among(
                models,
                probes,
                upto,
                id,
            ),
    decreases upto,
{
    if upto > 0 {
        lemma_running_ids(models, probes, upto - 1);
        let before = running_ids(models, probes, upto - 1);
        let now = running_ids(models, probes, upto);
        assert forall|id: Seq<char>| #[trigger]
            now.contains(id) <==> runs_among(models, probes, upto, id) by {
            if now.contains(id) {
                let k = choose|k: int| 0 <= k < now.len() && now[k] == id;
                if k < before.len() {
                    assert(before[k] == id);
                    assert(before.contains(id));
                } else {
                    assert(runs_under(models, probes, upto - 1, id));
                }
            }
            if runs_among(models, probes, upto, id) {
                let i = choose|i: int| 0 <= i < upto && #[trigger] runs_under(models, probes, i, id);
                if i == upto - 1 {
                    assert(now[before.len() as int] == id);
                } else {
                    assert(before.contains(id));
                    let k = choose|k: int| 0 <= k < before.len() && before[k] == id;
                    assert(now[k] == id);
                }
            }
        }
    }
}

/// The models that are reported as running are exactly the configured ones whose port a model
/// server holds: none reported means that there is none, one reported is such a model.
pub proof fn law_reported_models_run(config: ConfigView, probes: Seq<PortProbe>)
    ensures
        ({
            let upto = config.models.len() as int;
            let ids = running_ids(config.models, probes, upto);
            &&& reconciled(ids) is NoneRunning <==> forall|id: Seq<char>|
                !(#[trigger] runs_among(config.models, probes, upto, id))
            &&& reconciled(ids) matches ReconcileView::OneRunning(id) ==> runs_among(
                config.models,
                probes,
                upto,
                id,
            )
            &&& forall|id: Seq<char>| #[trigger]
                ids.contains(id) <==> runs_among(config.models, probes, upto, id)
        }),
{
    let upto = config.models.len() as int;
    let ids = running_ids(config.models, probes, upto);
    lemma_running_ids(config.models, probes, upto);
    if ids.len() > 0 {
        assert(ids.contains(ids[0]));
    } else {
        assert forall|id: Seq<char>| !(#[trigger] runs_among(config.models, probes, upto, id)) by {
            assert(!ids.contains(id));
        }
    }
}

/// What startup takes for a model server, a start takes for one too, so that no model is started
/// beside it; and a port is free for both or for neither.
pub proof fn law_startup_and_start_agree(probe: PortProbe)
    ensures
        startup_state(probe) == PortState::OccupiedByModel ==> probed_state(probe)
            == PortState::OccupiedByModel,
        startup_state(probe) == PortState::Free <==> probed_state(probe) == PortState::Free,
        startup_state(probe) == PortState::Free <==> !probe.connected,
{
}

/// At startup a port without a listener is free; one whose listener answers with success and lists
/// models belongs to a model server; any other belongs to the process that holds it, 0 where that
/// is not known.
pub proof fn law_ports_at_startup(probe: PortProbe, reply: HttpReply, body: String)
    ensures
        !probe.connected ==> startup_state(probe) == PortState::Free,
        probe.connected && probe.reply == Some(reply) && reply.body == Some(body) && 200
            <= reply.status <= 299 && has_text(body@, "\"id\""@) && has_text(body@, "model"@)
            ==> startup_state(probe) == PortState::OccupiedByModel,
        probe.connected && (probe.reply is None || (probe.reply == Some(reply) && (reply.status
            < 200 || reply.status > 299 || reply.body is None || (reply.body == Some(body) && (
        !has_text(body@, "\"id\""@) || !has_text(body@, "model"@)))))) ==> startup_state(probe)
            == PortState::OccupiedByUnknown(
            match probe.owner {
                Some(pid) => pid,
                None => 0,
            },
        ),
{
}

/// The state of a port is what the first probe of it saw, and a port that no probe saw is free.
pub proof fn law_state_of_a_port(probes: Seq<PortProbe>, port: u16, i: int)
    ensures
        0 <= i < probes.len() && probes[i].port == port && (forall|j: int|
            0 <= j < i ==> (#[trigger] probes[j]).port != port) ==> seen_state(probes, port, 0)
            == startup_state(probes[i]),
        (forall|j: int| 0 <= j < probes.len() ==> (#[trigger] probes[j]).port != port)
            ==> seen_state(probes, port, 0) == PortState::Free,
{
    lemma_seen_state(probes, port, 0);
}

/// One of the probes, from `from` on, is the first that saw the port, or none did.
proof fn lemma_seen_state(probes: Seq<PortProbe>, port: u16, from: int)
    requires
        0 <= from,
    ensures
        ({
            ||| (seen_state(probes, port, from) == PortState::Free && forall|j: int|
                from <= j < probes.len() ==> (#[trigger] probes[j]).port != port)
            ||| exists|i: int|
                from <= i < probes.len() && (#[trigger] probes[i]).port == port && seen_state(
                    probes,
                    port,
                    from,
                ) == startup_state(probes[i]) && forall|j: int|
                    from <= j < i ==> (#[trigger] probes[j]).port != port
        }),
    decreases probes.len() - from,
{
    if from < probes.len() && probes[from].port != port {
        lemma_seen_state(probes, port, from + 1);
    } else if from < probes.len() {
        assert(probes[from].port == port);
    }
}

/// The models that run are listed in the order of the configuration: each one more is at the end
/// where a model server holds its port, and is left out where none does.
pub proof fn law_running_models_in_order(
    models: Seq<ModelConfigView>,
    probes: Seq<PortProbe>,
    n: int,
)
    requires
        0 <= n < models.len(),
    ensures
        running_ids(models, probes, 0) == Seq::<Seq<char>>::empty(),
        seen_state(probes, models[n].port, 0) == PortState::OccupiedByModel ==> running_ids(
            models,
            probes,
            n + 1,
        ) == running_ids(models, probes, n).push(models[n].id),
        seen_state(probes, models[n].port, 0) != PortState::OccupiedByModel ==> running_ids(
            models,
            probes,
            n + 1,
        ) == running_ids(models, probes, n),
{
}

/// No running model, one and several are told apart, and those that run are named, in order.
pub proof fn law_results_of_reconciliation(ids: Seq<Seq<char>>)
    ensures
        ids.len() == 0 ==> reconciled(ids) == ReconcileView::NoneRunning,
        ids.len() == 1 ==> reconciled(ids) == ReconcileView::OneRunning(ids[0]),
        ids.len() > 1 ==> reconciled(ids) == ReconcileView::MultipleRunning(ids),
{
}

} // verus!
