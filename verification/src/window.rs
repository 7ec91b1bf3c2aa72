//! The main window: its model cards, what the messages of the background threads and the user's
//! clicks do to them, and the polling of the running model's context.

use vstd::prelude::*;
use vstd::string::*;

use crate::config::lemma_model_index;
use crate::config::model_index;
use crate::config::opt_view;
use crate::config::Config;
use crate::config::ConfigView;
use crate::config::ModelConfig;
use crate::config::ModelConfigView;
use crate::model_card::law_restart_is_shown;
use crate::model_card::new_card;
use crate::model_card::CardState;
use crate::model_card::CardStateView;
use crate::model_card::CardView;
use crate::model_card::ModelCard;
use crate::process_manager::outcome;
use crate::process_manager::AfterStopView;
use crate::process_manager::HttpReply;
use crate::process_manager::LinuxProcessGuard;
use crate::process_manager::ManagerView;
use crate::process_manager::ModelState;
use crate::process_manager::ModelStateView;
use crate::process_manager::PortState;
use crate::process_manager::ProcessError;
use crate::process_manager::ProcessErrorView;
use crate::process_manager::ProcessManager;
use crate::process_manager::RunningModel;
use crate::process_manager::RunningModelView;
use crate::process_manager::StepView;
use crate::proxy::forwarded;
use crate::proxy::routed;
use crate::proxy::IncomingView;
use crate::proxy::ProxyActionView;
use crate::proxy::ProxyState;
use crate::slots::at_least_percent;
use crate::slots::json_text;
use crate::slots::parse_slots_response;
use crate::slots::reply_of;
use crate::slots::uses_percent;
use crate::slots::SlotInfo;
use crate::spawn::SHUTDOWN_TIMEOUT_SEC;
use crate::text::has_text;
use crate::text::same_text;

verus! {

/// From this percentage on the context is full.
pub const FULL_PERCENT: u8 = 98;

/// The pause before each poll of the context, in milliseconds.
pub const POLL_INTERVAL_MS: u64 = 2000;

/// The shortest time between two polls, in milliseconds.
pub const POLL_GAP_MS: u64 = 1000;

/// The configuration file where none was found.
pub open spec fn no_config_path() -> Seq<char> {
    "/nonexistent/config.toml"@
}

/// A message from a background thread.
#[derive(Debug)]
pub enum ChannelMessage {
    /// A start, a switch or a restart is over.
    SwitchCompleted { target_id: String, result: Result<(), ProcessError> },
    /// A stop is over.
    StopCompleted { running_id: String, result: Result<(), ProcessError> },
    /// A restart begins.
    RestartRequested { model_id: String },
}

/// What a `ChannelMessage` says.
pub enum MessageView {
    SwitchCompleted { target_id: Seq<char>, result: Result<(), ProcessErrorView> },
    StopCompleted { running_id: Seq<char>, result: Result<(), ProcessErrorView> },
    RestartRequested { model_id: Seq<char> },
}

impl View for ChannelMessage {
    type V = MessageView;

    open spec fn view(&self) -> MessageView {
        match self {
            ChannelMessage::SwitchCompleted { target_id, result } => MessageView::SwitchCompleted {
                target_id: target_id@,
                result: outcome(*result),
            },
            ChannelMessage::StopCompleted { running_id, result } => MessageView::StopCompleted {
                running_id: running_id@,
                result: outcome(*result),
            },
            ChannelMessage::RestartRequested { model_id } => MessageView::RestartRequested {
                model_id: model_id@,
            },
        }
    }
}

impl CardView {
    /// The card of the model that was to be started.
    pub open spec fn switched_to(self, result: Result<(), ProcessErrorView>) -> CardView {
        match result {
            Ok(_) => self.with_state(CardStateView::Ready).marked(true),
            Err(e) => self.with_state(
                CardStateView::Error("Failed to start: "@ + e.message()),
            ),
        }
    }

    /// The card of a model that does not run.
    pub open spec fn off(self) -> CardView {
        self.with_state(CardStateView::Stopped).marked(false)
    }

    /// The card of the model that was to be stopped.
    pub open spec fn stopped(self, result: Result<(), ProcessErrorView>) -> CardView {
        match result {
            Ok(_) => self.with_state(CardStateView::Stopped),
            Err(e) => self.with_state(CardStateView::Error("Failed to stop: "@ + e.message())),
        }
    }

    /// The card after a message.
    pub open spec fn received(self, message: MessageView) -> CardView {
        match message {
            MessageView::SwitchCompleted { target_id, result } => if self.config.id == target_id {
                self.switched_to(result).toggle_enabled().restart_enabled()
            } else {
                self.off().toggle_enabled().restart_enabled()
            },
            MessageView::StopCompleted { running_id, result } => if self.config.id == running_id {
                self.stopped(result).toggle_enabled().restart_enabled()
            } else {
                self
            },
            MessageView::RestartRequested { model_id } => if self.config.id == model_id {
                self.restart_disabled().toggle_enabled()
            } else {
                self.off().toggle_enabled()
            },
        }
    }

    /// The card after the use of a model's context was told.
    pub open spec fn told(
        self,
        model_id: Seq<char>,
        info: SlotInfo,
        percentage: Seq<char>,
    ) -> CardView {
        if self.config.id == model_id {
            self.with_context(info.tokens_used, info.n_ctx, percentage)
        } else {
            self
        }
    }

    /// The card while another model is started.
    pub open spec fn waiting(self) -> CardView {
        if self.state.is_transitioning() {
            self
        } else {
            self.toggle_disabled()
        }
    }

    /// The card where its model was found running.
    pub open spec fn found(self, id: Seq<char>) -> CardView {
        if self.config.id == id {
            self.with_state(CardStateView::Ready).marked(true)
        } else {
            self
        }
    }
}

impl ModelCard {
    /// Takes in a message.
    pub fn receive(&mut self, message: &ChannelMessage)
        ensures
            final(self)@ == old(self)@.received(message@),
    {
        match message {
            ChannelMessage::SwitchCompleted { target_id, result } => {
                if same_text(self.config().id.as_str(), target_id.as_str()) {
                    match result {
                        Ok(()) => {
                            self.set_state(CardState::Ready);
                            self.set_active(true);
                        },
                        Err(e) => {
                            self.set_state(
                                CardState::Error(
                                    "Failed to start: ".to_owned().concat(e.to_string().as_str()),
                                ),
                            );
                        },
                    }
                } else {
                    self.set_state(CardState::Stopped);
                    self.set_active(false);
                }
                self.enable_toggle();
                self.enable_restart();
            },
            ChannelMessage::StopCompleted { running_id, result } => {
                if same_text(self.config().id.as_str(), running_id.as_str()) {
                    match result {
                        Ok(()) => {
                            self.set_state(CardState::Stopped);
                        },
                        Err(e) => {
                            self.set_state(
                                CardState::Error(
                                    "Failed to stop: ".to_owned().concat(e.to_string().as_str()),
                                ),
                            );
                        },
                    }
                    self.enable_toggle();
                    self.enable_restart();
                }
            },
            ChannelMessage::RestartRequested { model_id } => {
                if same_text(self.config().id.as_str(), model_id.as_str()) {
                    self.disable_restart();
                } else {
                    self.set_state(CardState::Stopped);
                    self.set_active(false);
                }
                self.enable_toggle();
            },
        }
    }
}

/// The use of a model's context, for its card.
#[derive(Debug)]
pub struct SlotUpdate {
    pub model_id: String,
    pub tokens_used: usize,
    pub n_ctx: usize,
}

/// What a poll of a model's context leads to: the update for its card, and whether the model is
/// to be restarted.
#[derive(Debug)]
pub struct PollOutcome {
    pub update: SlotUpdate,
    pub restart: bool,
}

/// A model whose context is so full that it is to be restarted.
pub open spec fn needs_restart(info: SlotInfo, auto_restart: bool) -> bool {
    auto_restart && uses_percent(info.tokens_used as nat, info.n_ctx as nat, FULL_PERCENT as nat)
}

/// Decides on what a model's server told of its context.
pub fn slots_told(model_id: &str, info: SlotInfo, auto_restart: bool) -> (outcome: PollOutcome)
    ensures
        outcome.update.model_id@ == model_id@,
        outcome.update.tokens_used == info.tokens_used,
        outcome.update.n_ctx == info.n_ctx,
        outcome.restart == needs_restart(info, auto_restart),
{
    PollOutcome {
        update: SlotUpdate {
            model_id: model_id.to_owned(),
            tokens_used: info.tokens_used,
            n_ctx: info.n_ctx,
        },
        restart: auto_restart && at_least_percent(info.tokens_used, info.n_ctx, FULL_PERCENT),
    }
}

/// What a reply at `/slots` tells of the context, where it tells anything.
pub open spec fn told_by(reply: Option<Seq<char>>) -> Option<SlotInfo> {
    match reply {
        Some(body) => match json_text(body) {
            Some((numbers, lengths)) => if reply_of(numbers, lengths).countable() {
                reply_of(numbers, lengths).info()
            } else {
                None
            },
            None => None,
        },
        None => None,
    }
}

/// Decides on a reply at `/slots`.
pub fn slots_polled(model_id: &str, reply: &HttpReply, auto_restart: bool) -> (outcome: Option<
    PollOutcome,
>)
    ensures
        match told_by(reply@.success_body()) {
            Some(info) => (outcome matches Some(o) && o.update.model_id@ == model_id@
                && o.update.tokens_used == info.tokens_used && o.update.n_ctx == info.n_ctx
                && o.restart == needs_restart(info, auto_restart)),
            None => outcome is None,
        },
{
    match reply.success_body() {
        Some(body) => match parse_slots_response(body.as_str()) {
            Some(info) => Some(slots_told(model_id, info, auto_restart)),
            None => None,
        },
        None => None,
    }
}

/// Whether another poll is due, `elapsed_ms` after the last one.
pub fn poll_due(elapsed_ms: u64) -> (due: bool)
    ensures
        due == (elapsed_ms >= POLL_GAP_MS),
{
    elapsed_ms >= POLL_GAP_MS
}

/// The model whose context is polled: the one that runs, and its port, 0 where it is not
/// configured.
pub open spec fn polled_model(manager: ManagerView) -> Option<(Seq<char>, u16)> {
    match manager.running {
        Some(r) => Some(
            (
                r.id,
                match model_index(manager.config.models, r.id, 0) {
                    Some(i) => manager.config.models[i].port,
                    None => 0,
                },
            ),
        ),
        None => None,
    }
}

/// The model whose context is polled, and its port.
pub fn poll_target(manager: &ProcessManager) -> (target: Option<(String, u16)>)
    ensures
        match target {
            Some((id, port)) => polled_model(manager@) == Some((id@, port)),
            None => polled_model(manager@) is None,
        },
{
    match manager.get_running_model() {
        Some(r) => {
            let port: u16 = match manager.config().find_model(r.id.as_str()) {
                Some(i) => manager.config().models[i].port,
                None => 0,
            };
            Some((r.id.clone(), port))
        },
        None => None,
    }
}

/// The proxy after a message: a model that was started is forwarded to, and once a model was
/// stopped nothing is.
pub open spec fn proxied(state: ProxyState, config: ConfigView, message: MessageView) -> ProxyState {
    match message {
        MessageView::SwitchCompleted { target_id, result: Ok(_) } => match model_index(
            config.models,
            target_id,
            0,
        ) {
            Some(i) => ProxyState {
                target_port: Some(config.models[i].port),
                is_loading: false,
            },
            None => state,
        },
        MessageView::StopCompleted { result: Ok(_), .. } => ProxyState {
            target_port: None,
            is_loading: false,
        },
        _ => state,
    }
}

/// Tells the proxy what a message means for it.
pub fn update_proxy(state: &mut ProxyState, config: &Config, message: &ChannelMessage)
    ensures
        *final(state) == proxied(*old(state), config@, message@),
{
    match message {
        ChannelMessage::SwitchCompleted { target_id, result } => {
            if result.is_ok() {
                match config.find_model(target_id.as_str()) {
                    Some(i) => {
                        state.set_target(config.models[i].port);
                    },
                    None => {},
                }
            }
        },
        ChannelMessage::StopCompleted { result, .. } => {
            if result.is_ok() {
                state.clear();
            }
        },
        ChannelMessage::RestartRequested { .. } => {},
    }
}

/// The first of the ports, from `from` on, that a model server holds.
pub open spec fn first_model_port(states: Seq<PortState>, from: int) -> Option<int>
    decreases states.len() - from,
{
    if from >= states.len() {
        None
    } else if states[from] is OccupiedByModel {
        Some(from)
    } else {
        first_model_port(states, from + 1)
    }
}

/// The first of the ports that a model server holds.
pub fn find_running(states: &Vec<PortState>) -> (at: Option<usize>)
    ensures
        match at {
            Some(i) => first_model_port(states@, 0) == Some(i as int) && i < states@.len(),
            None => first_model_port(states@, 0) is None,
        },
{
    let mut i: usize = 0;
    while i < states.len()
        invariant
            i <= states@.len(),
            first_model_port(states@, 0) == first_model_port(states@, i as int),
        decreases states@.len() - i,
    {
        match states[i] {
            PortState::OccupiedByModel => {
                return Some(i);
            },
            _ => {},
        }
        i = i + 1;
    }
    None
}

/// The model that an earlier session left running; `pid` is its process, where that is known.
pub open spec fn left_running(model: ModelConfigView, pid: Option<u32>) -> RunningModelView {
    RunningModelView {
        id: model.id,
        guard: LinuxProcessGuard {
            pid: match pid {
                Some(p) => Some(p as i32),
                None => None,
            },
            port: model.port,
            shutdown_timeout_sec: SHUTDOWN_TIMEOUT_SEC,
        },
        state: ModelStateView::Ready,
    }
}

/// The process manager once it knows of the model that an earlier session left running: number
/// `at` of the configured ones.
pub open spec fn restored(manager: ManagerView, at: int, pid: Option<u32>) -> ManagerView {
    ManagerView { running: Some(left_running(manager.config.models[at], pid)), ..manager }
}

/// The model that an earlier session left running; `pid` is its process, where that is known.
pub fn restored_model(model: &ModelConfig, pid: Option<u32>) -> (running: RunningModel)
    ensures
        running@ == left_running(model@, pid),
{
    let guard_pid: Option<i32> = match pid {
        Some(p) => Some(p as i32),
        None => None,
    };
    RunningModel {
        id: model.id.clone(),
        guard: LinuxProcessGuard {
            pid: guard_pid,
            port: model.port,
            shutdown_timeout_sec: SHUTDOWN_TIMEOUT_SEC,
        },
        state: ModelState::Ready,
    }
}

/// What the user's change of a toggle leads to.
#[derive(Debug, Clone, Copy, PartialEq, Eq, Structural)]
pub enum ToggleAction {
    /// Nothing.
    Ignore,
    /// Start the model, or switch to it.
    TurnOn,
    /// Stop whatever runs.
    StopRunning,
}

/// The main window.
#[derive(Debug)]
pub struct MainWindow {
    cards: Vec<ModelCard>,
    config: Config,
    config_path: String,
}

/// What a `MainWindow` holds.
pub struct WindowView {
    pub cards: Seq<CardView>,
    pub config: ConfigView,
    pub config_path: Seq<char>,
}

/// What a list of cards shows.
pub open spec fn card_views(cards: Seq<ModelCard>) -> Seq<CardView> {
    cards.map_values(|c: ModelCard| c@)
}

impl View for MainWindow {
    type V = WindowView;

    closed spec fn view(&self) -> WindowView {
        WindowView {
            cards: card_views(self.cards@),
            config: self.config@,
            config_path: self.config_path@,
        }
    }
}

/// The first card, from `from` on, of a model with the given id.
pub open spec fn card_index(cards: Seq<CardView>, id: Seq<char>, from: int) -> Option<int>
    decreases cards.len() - from,
{
    if from >= cards.len() {
        None
    } else if cards[from].config.id == id {
        Some(from)
    } else {
        card_index(cards, id, from + 1)
    }
}

impl WindowView {
    /// The window after a message.
    pub open spec fn received(self, message: MessageView) -> WindowView {
        WindowView { cards: self.cards.map_values(|c: CardView| c.received(message)), ..self }
    }

    /// The window after the use of a model's context was told.
    pub open spec fn told(
        self,
        model_id: Seq<char>,
        info: SlotInfo,
        percentage: Seq<char>,
    ) -> WindowView {
        WindowView {
            cards: self.cards.map_values(|c: CardView| c.told(model_id, info, percentage)),
            ..self
        }
    }

    /// The window where a model was found running.
    pub open spec fn found(self, id: Seq<char>) -> WindowView {
        WindowView { cards: self.cards.map_values(|c: CardView| c.found(id)), ..self }
    }

    /// The user may turn on the model with this id: it has a card, and is not on its way already.
    pub open spec fn may_turn_on(self, id: Seq<char>) -> bool {
        match card_index(self.cards, id, 0) {
            Some(k) => !self.cards[k].state.is_transitioning(),
            None => false,
        }
    }

    /// The window once the toggle of the model with this id changed.
    pub open spec fn flipped(self, id: Seq<char>, on: bool) -> WindowView {
        match card_index(self.cards, id, 0) {
            Some(k) => WindowView {
                cards: self.cards.update(k, self.cards[k].toggled(on)),
                ..self
            },
            None => self,
        }
    }

    /// A toggle of the model with this id that changes is not the user's doing.
    pub open spec fn is_blocked(self, id: Seq<char>) -> bool {
        match card_index(self.cards, id, 0) {
            Some(k) => self.cards[k].signal_block,
            None => false,
        }
    }

    /// What a change of the toggle of the model with this id leads to.
    pub open spec fn toggle_action(self, id: Seq<char>, on: bool) -> ToggleAction {
        if self.is_blocked(id) {
            ToggleAction::Ignore
        } else if !on {
            ToggleAction::StopRunning
        } else if self.may_turn_on(id) {
            ToggleAction::TurnOn
        } else {
            ToggleAction::Ignore
        }
    }

    /// The window once the user turned on the model with this id: it starts, and no other toggle
    /// can be used.
    pub open spec fn turned_on(self, id: Seq<char>) -> WindowView {
        let k = card_index(self.cards, id, 0)->0;
        let waiting = self.cards.map_values(|c: CardView| c.waiting());
        WindowView {
            cards: waiting.update(k, waiting[k].with_state(CardStateView::Starting)),
            ..self
        }
    }

    /// The user may restart the model with this id: it has a card, is not on its way, and no
    /// restart is under way.
    pub open spec fn may_restart(self, id: Seq<char>) -> bool {
        match card_index(self.cards, id, 0) {
            Some(k) => !self.cards[k].state.is_transitioning() && !self.cards[k].restart_requested(),
            None => false,
        }
    }

    /// The window once the user asked for a restart of the model with this id.
    pub open spec fn restarting(self, id: Seq<char>) -> WindowView {
        let k = card_index(self.cards, id, 0)->0;
        WindowView { cards: self.cards.update(k, self.cards[k].restart_disabled()), ..self }
    }
}

/// The window as it is opened on a configuration.
pub open spec fn new_window(config: ConfigView, config_path: Option<Seq<char>>) -> WindowView {
    WindowView {
        cards: config.models.map_values(|m| new_card(m)),
        config,
        config_path: match config_path {
            Some(path) => path,
            None => no_config_path(),
        },
    }
}

impl MainWindow {
    /// A window for a configuration; `config_path` is where it stands on disk.
    pub fn new(config: Config, config_path: Option<String>) -> (window: Self)
        ensures
            window@ == new_window(config@, opt_view(config_path)),
    {
        let mut cards: Vec<ModelCard> = Vec::new();
        let mut i: usize = 0;
        while i < config.models.len()
            invariant
                i <= config.models@.len(),
                cards@.len() == i,
                forall|j: int| 0 <= j < i ==> (#[trigger] cards@[j])@ == new_card(
                    config.models@[j]@,
                ),
            decreases config.models@.len() - i,
        {
            cards.push(ModelCard::new(&config.models[i]));
            i = i + 1;
        }
        let path = match config_path {
            Some(p) => p,
            None => "/nonexistent/config.toml".to_owned(),
        };
        proof {
            assert(card_views(cards@) =~= config@.models.map_values(|m| new_card(m)));
        }
        MainWindow { cards, config, config_path: path }
    }

    /// The cards.
    pub fn cards(&self) -> (cards: &Vec<ModelCard>)
        ensures
            card_views(cards@) == self@.cards,
    {
        &self.cards
    }

    /// The configuration.
    pub fn config(&self) -> (config: &Config)
        ensures
            config@ == self@.config,
    {
        &self.config
    }

    /// Where the configuration stands on disk.
    pub fn config_path(&self) -> (path: &str)
        ensures
            path@ == self@.config_path,
    {
        self.config_path.as_str()
    }

    /// Takes in a message from a background thread.
    pub fn receive(&mut self, message: &ChannelMessage)
        ensures
            final(self)@ == old(self)@.received(message@),
    {
        let mut i: usize = 0;
        while i < self.cards.len()
            invariant
                i <= self.cards@.len(),
                self.cards@.len() == old(self).cards@.len(),
                self.config == old(self).config,
                self.config_path == old(self).config_path,
                forall|j: int|
                    0 <= j < i ==> (#[trigger] self.cards@[j])@ == old(self).cards@[j]@.received(
                        message@,
                    ),
                forall|j: int|
                    i <= j < self.cards@.len() ==> #[trigger] self.cards@[j] == old(self).cards@[j],
            decreases self.cards@.len() - i,
        {
            self.cards[i].receive(message);
            i = i + 1;
        }
        proof {
            assert(self@.cards =~= old(self)@.received(message@).cards);
        }
    }

    /// Takes in the use of a model's context; `percentage` is the share in use, in percent with
    /// one decimal place.
    pub fn update_context(&mut self, update: &SlotUpdate, percentage: &str)
        ensures
            final(self)@ == old(self)@.told(
                update.model_id@,
                (SlotInfo { tokens_used: update.tokens_used, n_ctx: update.n_ctx }),
                percentage@,
            ),
    {
        let ghost info = SlotInfo { tokens_used: update.tokens_used, n_ctx: update.n_ctx };
        let mut i: usize = 0;
        while i < self.cards.len()
            invariant
                i <= self.cards@.len(),
                info == (SlotInfo { tokens_used: update.tokens_used, n_ctx: update.n_ctx }),
                self.cards@.len() == old(self).cards@.len(),
                self.config == old(self).config,
                self.config_path == old(self).config_path,
                forall|j: int|
                    0 <= j < i ==> (#[trigger] self.cards@[j])@ == old(self).cards@[j]@.told(
                        update.model_id@,
                        info,
                        percentage@,
                    ),
                forall|j: int|
                    i <= j < self.cards@.len() ==> #[trigger] self.cards@[j] == old(self).cards@[j],
            decreases self.cards@.len() - i,
        {
            if same_text(self.cards[i].config().id.as_str(), update.model_id.as_str()) {
                self.cards[i].set_context(update.tokens_used, update.n_ctx, percentage);
            }
            i = i + 1;
        }
        proof {
            assert(self@.cards =~= old(self)@.told(update.model_id@, info, percentage@).cards);
        }
    }

    /// Shows that a model was found running.
    pub fn show_running(&mut self, id: &str)
        ensures
            final(self)@ == old(self)@.found(id@),
    {
        let mut i: usize = 0;
        while i < self.cards.len()
            invariant
                i <= self.cards@.len(),
                self.cards@.len() == old(self).cards@.len(),
                self.config == old(self).config,
                self.config_path == old(self).config_path,
                forall|j: int|
                    0 <= j < i ==> (#[trigger] self.cards@[j])@ == old(self).cards@[j]@.found(id@),
                forall|j: int|
                    i <= j < self.cards@.len() ==> #[trigger] self.cards@[j] == old(self).cards@[j],
            decreases self.cards@.len() - i,
        {
            if same_text(self.cards[i].config().id.as_str(), id) {
                self.cards[i].set_state(CardState::Ready);
                self.cards[i].set_active(true);
            }
            i = i + 1;
        }
        proof {
            assert(self@.cards =~= old(self)@.found(id@).cards);
        }
    }

    /// Restores the model that an earlier session left running: number `at` of the configured
    /// ones; `pid` is its process, where that is known.
    pub fn restore(&mut self, manager: &mut ProcessManager, at: usize, pid: Option<u32>)
        requires
            at < old(manager)@.config.models.len(),
        ensures
            final(self)@ == old(self)@.found(old(manager)@.config.models[at as int].id),
            final(manager)@ == restored(old(manager)@, at as int, pid),
    {
        let running = restored_model(&manager.config().models[at], pid);
        self.show_running(running.id.as_str());
        manager.set_running_model(running);
    }

    /// The number of the first card of a model with the given id.
    pub fn find_card(&self, id: &str) -> (at: Option<usize>)
        ensures
            match at {
                Some(i) => card_index(self@.cards, id@, 0) == Some(i as int) && i
                    < self@.cards.len(),
                None => card_index(self@.cards, id@, 0) is None,
            },
    {
        let mut i: usize = 0;
        while i < self.cards.len()
            invariant
                i <= self.cards@.len(),
                card_index(self@.cards, id@, 0) == card_index(self@.cards, id@, i as int),
            decreases self.cards@.len() - i,
        {
            if same_text(self.cards[i].config().id.as_str(), id) {
                return Some(i);
            }
            i = i + 1;
        }
        None
    }

    fn disable_toggles(&mut self)
        ensures
            final(self)@ == (WindowView {
                cards: old(self)@.cards.map_values(|c: CardView| c.waiting()),
                ..old(self)@
            }),
    {
        let mut i: usize = 0;
        while i < self.cards.len()
            invariant
                i <= self.cards@.len(),
                self.cards@.len() == old(self).cards@.len(),
                self.config == old(self).config,
                self.config_path == old(self).config_path,
                forall|j: int|
                    0 <= j < i ==> (#[trigger] self.cards@[j])@ == old(self).cards@[j]@.waiting(),
                forall|j: int|
                    i <= j < self.cards@.len() ==> #[trigger] self.cards@[j] == old(self).cards@[j],
            decreases self.cards@.len() - i,
        {
            if !self.cards[i].state().is_transitioning() {
                self.cards[i].disable_toggle();
            }
            i = i + 1;
        }
        proof {
            assert(self@.cards =~= old(self)@.cards.map_values(|c: CardView| c.waiting()));
        }
    }

    /// Takes in that the toggle of a model changed.
    pub fn toggled(&mut self, id: &str, on: bool) -> (action: ToggleAction)
        ensures
            action == old(self)@.toggle_action(id@, on),
            final(self)@ == (if action == ToggleAction::TurnOn {
                old(self)@.flipped(id@, on).turned_on(id@)
            } else {
                old(self)@.flipped(id@, on)
            }),
    {
        match self.find_card(id) {
            Some(k) => {
                let ghost before = self@.cards;
                let asked = self.cards[k].toggled(on);
                let ghost flipped = self@.cards;
                proof {
                    assert(flipped =~= before.update(k as int, before[k as int].toggled(on)));
                    lemma_same_ids(before, flipped, id@, 0);
                }
                match asked {
                    Some(true) => {
                        if self.cards[k].state().is_transitioning() {
                            return ToggleAction::Ignore;
                        }
                        self.disable_toggles();
                        let ghost waiting = self@.cards;
                        proof {
                            assert(waiting.len() == self.cards@.len());
                        }
                        self.cards[k].set_starting();
                        proof {
                            assert(self@.cards =~= waiting.update(
                                k as int,
                                waiting[k as int].with_state(CardStateView::Starting),
                            ));
                        }
                        ToggleAction::TurnOn
                    },
                    Some(false) => ToggleAction::StopRunning,
                    None => ToggleAction::Ignore,
                }
            },
            None => if on {
                ToggleAction::Ignore
            } else {
                ToggleAction::StopRunning
            },
        }
    }

    /// Takes in that the user asked for a restart of a model. Says whether it is to be done.
    pub fn restart_clicked(&mut self, id: &str) -> (restart: bool)
        ensures
            restart == old(self)@.may_restart(id@),
            final(self)@ == (if restart {
                old(self)@.restarting(id@)
            } else {
                old(self)@
            }),
    {
        match self.find_card(id) {
            Some(k) => {
                if self.cards[k].state().is_transitioning() || self.cards[k].restart_requested() {
                    return false;
                }
                let ghost before = self@.cards;
                self.cards[k].disable_restart();
                proof {
                    assert(self@.cards =~= before.update(
                        k as int,
                        before[k as int].restart_disabled(),
                    ));
                }
                true
            },
            None => false,
        }
    }
}

/// Once a start, a switch or a restart is over, every card but that of the target shows a stopped
/// model without a mark, the target's shows a running one or says what failed, and every toggle
/// can be used.
pub proof fn law_completed_switch_shows_one_model(
    window: WindowView,
    target_id: Seq<char>,
    result: Result<(), ProcessErrorView>,
    i: int,
)
    requires
        0 <= i < window.cards.len(),
    ensures
        ({
            let after = window.received(MessageView::SwitchCompleted { target_id, result });
            let card = after.cards[i];
            &&& card.config == window.cards[i].config
            &&& card.toggle_sensitive
            &&& !card.restart_requested()
            &&& card.config.id != target_id ==> card.state is Stopped && !card.active
            &&& card.config.id == target_id ==> match result {
                Ok(_) => card.state is Ready && card.active,
                Err(e) => card.state == CardStateView::Error("Failed to start: "@ + e.message()),
            }
        }),
{
    law_restart_is_shown(window.cards[i]);
}

/// Once a stop is over, the card of its model shows a stopped model or says what failed, its
/// toggle can be used, and every other card is as it was.
pub proof fn law_completed_stop_shows_its_model(
    window: WindowView,
    running_id: Seq<char>,
    result: Result<(), ProcessErrorView>,
    i: int,
)
    requires
        0 <= i < window.cards.len(),
    ensures
        ({
            let after = window.received(MessageView::StopCompleted { running_id, result });
            let card = after.cards[i];
            &&& card.config.id != running_id ==> card == window.cards[i]
            &&& card.config.id == running_id ==> card.toggle_sensitive && match result {
                Ok(_) => card.state is Stopped,
                Err(e) => card.state == CardStateView::Error("Failed to stop: "@ + e.message()),
            }
        }),
{
}

/// While a model is started no toggle can be used: neither that of the model nor any other.
pub proof fn law_no_toggle_while_starting(window: WindowView, id: Seq<char>, i: int)
    requires
        window.may_turn_on(id),
        forall|j: int| 0 <= j < window.cards.len() ==> (#[trigger] window.cards[j]).agrees(),
        0 <= i < window.cards.len(),
    ensures
        !window.turned_on(id).cards[i].toggle_sensitive,
        window.turned_on(id).cards[i].agrees(),
        !window.turned_on(id).may_turn_on(id),
{
    assert(window.cards[i].agrees());
    lemma_card_index(window.cards, id, 0);
    let after = window.turned_on(id).cards;
    lemma_same_ids(window.cards, after, id, 0);
}

/// What a lookup finds is a card of that model.
proof fn lemma_card_index(cards: Seq<CardView>, id: Seq<char>, from: int)
    requires
        0 <= from,
    ensures
        card_index(cards, id, from) matches Some(i) ==> from <= i < cards.len()
            && cards[i].config.id == id,
    decreases cards.len() - from,
{
    if from < cards.len() && cards[from].config.id != id {
        lemma_card_index(cards, id, from + 1);
    }
}

/// A lookup goes by the models of the cards alone.
proof fn lemma_same_ids(one: Seq<CardView>, other: Seq<CardView>, id: Seq<char>, from: int)
    requires
        0 <= from,
        one.len() == other.len(),
        forall|j: int|
            0 <= j < one.len() ==> (#[trigger] one[j]).config == (#[trigger] other[j]).config,
    ensures
        card_index(one, id, from) == card_index(other, id, from),
    decreases one.len() - from,
{
    if from < one.len() {
        assert(one[from].config == other[from].config);
        lemma_same_ids(one, other, id, from + 1);
    }
}

/// A restart that was asked for is not asked for again before it is over.
pub proof fn law_restart_is_asked_for_once(window: WindowView, id: Seq<char>)
    requires
        window.may_restart(id),
    ensures
        !window.restarting(id).may_restart(id),
{
    lemma_card_index(window.cards, id, 0);
    let k = card_index(window.cards, id, 0)->0;
    law_restart_is_shown(window.cards[k]);
    lemma_same_ids(window.cards, window.restarting(id).cards, id, 0);
}

/// The proxy goes with the models: once a model was started its port is forwarded to, once one
/// was stopped no request is forwarded, and an operation that failed changes nothing.
pub proof fn law_proxy_goes_with_the_models(
    state: ProxyState,
    config: ConfigView,
    id: Seq<char>,
    result: Result<(), ProcessErrorView>,
    req: IncomingView,
)
    ensures
        result is Ok ==> (model_index(config.models, id, 0) matches Some(i) ==> routed(
            proxied(state, config, MessageView::SwitchCompleted { target_id: id, result }),
            req,
        ) == ProxyActionView::Forward(forwarded(config.models[i].port, req))),
        result is Ok ==> !(routed(
            proxied(state, config, MessageView::StopCompleted { running_id: id, result }),
            req,
        ) is Forward),
        result is Err ==> proxied(
            state,
            config,
            MessageView::SwitchCompleted { target_id: id, result },
        ) == state && proxied(state, config, MessageView::StopCompleted { running_id: id, result })
            == state,
{
}

/// A model is restarted on account of its context only where that is asked for and at least the
/// set percentage of it is in use.
pub proof fn law_restart_only_when_full(info: SlotInfo, auto_restart: bool)
    ensures
        needs_restart(info, auto_restart) <==> auto_restart && info.n_ctx > 0
            && info.tokens_used * 100 >= 98 * info.n_ctx,
{
}

/// A model that an earlier session left running can be stopped and switched from like one that
/// was started: it is terminated through the guard that it was given.
pub proof fn law_restored_model_can_be_stopped(
    manager: ManagerView,
    at: int,
    pid: Option<u32>,
    next: AfterStopView,
)
    requires
        0 <= at < manager.config.models.len(),
    ensures
        ({
            let after = restored(manager, at, pid);
            let id = manager.config.models[at].id;
            &&& after.runs(id)
            &&& after.stop(id, next) matches StepView::Terminate {
                id: stopped,
                guard,
                next: follows,
                ..
            } && stopped == id && guard == left_running(manager.config.models[at], pid).guard
                && follows == next
        }),
{
    lemma_model_index(manager.config.models, manager.config.models[at].id, 0);
}

/// The first port that a model server holds is found wherever there is one, however the ports
/// before it are held, and nothing is found only where a model server holds none.
pub proof fn law_first_model_port(states: Seq<PortState>, from: int)
    requires
        0 <= from,
    ensures
        match first_model_port(states, from) {
            Some(i) => {
                &&& from <= i < states.len()
                &&& states[i] == PortState::OccupiedByModel
                &&& forall|j: int|
                    from <= j < i ==> #[trigger] states[j] != PortState::OccupiedByModel
            },
            None => forall|j: int|
                from <= j < states.len() ==> #[trigger] states[j] != PortState::OccupiedByModel,
        },
    decreases states.len() - from,
{
    if from < states.len() && !(states[from] is OccupiedByModel) {
        law_first_model_port(states, from + 1);
    }
}

/// A model server on any of the ports is found: the search ends at a port that one holds, no later
/// than at the given one.
pub proof fn law_running_model_is_found(states: Seq<PortState>, at: int)
    requires
        0 <= at < states.len(),
        states[at] == PortState::OccupiedByModel,
    ensures
        first_model_port(states, 0) matches Some(i) && 0 <= i <= at && states[i]
            == PortState::OccupiedByModel,
        (forall|j: int| 0 <= j < at ==> #[trigger] states[j] != PortState::OccupiedByModel)
            ==> first_model_port(states, 0) == Some(at),
{
    law_first_model_port(states, 0);
}

/// A lookup finds the first card of the model, and nothing only where it has none.
pub proof fn law_card_of_a_model(cards: Seq<CardView>, id: Seq<char>, from: int)
    requires
        0 <= from,
    ensures
        match card_index(cards, id, from) {
            Some(i) => {
                &&& from <= i < cards.len()
                &&& cards[i].config.id == id
                &&& forall|j: int| from <= j < i ==> (#[trigger] cards[j]).config.id != id
            },
            None => forall|j: int|
                from <= j < cards.len() ==> (#[trigger] cards[j]).config.id != id,
        },
    decreases cards.len() - from,
{
    if from < cards.len() && cards[from].config.id != id {
        law_card_of_a_model(cards, id, from + 1);
    }
}

/// The context is polled of the model that runs, on the port of the first configured model with
/// its id, 0 where none has it; while no model runs, nothing is polled.
pub proof fn law_polled_model(manager: ManagerView, running: RunningModelView, i: int)
    ensures
        manager.running is None ==> polled_model(manager) is None,
        manager.running == Some(running) && 0 <= i < manager.config.models.len()
            && manager.config.models[i].id == running.id && (forall|j: int|
            0 <= j < i ==> (#[trigger] manager.config.models[j]).id != running.id) ==> polled_model(
            manager,
        ) == Some((running.id, manager.config.models[i].port)),
        manager.running == Some(running) && (forall|j: int|
            0 <= j < manager.config.models.len() ==> (#[trigger] manager.config.models[j]).id
                != running.id) ==> polled_model(manager) == Some((running.id, 0u16)),
{
    let models = manager.config.models;
    lemma_model_index(models, running.id, 0);
    lemma_first_index(models, running.id, 0);
}

/// What a lookup finds is the first model with the id.
proof fn lemma_first_index(models: Seq<ModelConfigView>, id: Seq<char>, from: int)
    requires
        0 <= from,
    ensures
        match model_index(models, id, from) {
            Some(i) => from <= i < models.len() && models[i].id == id && forall|j: int|
                from <= j < i ==> (#[trigger] models[j]).id != id,
            None => forall|j: int| from <= j < models.len() ==> (#[trigger] models[j]).id != id,
        },
    decreases models.len() - from,
{
    if from < models.len() && models[from].id != id {
        lemma_first_index(models, id, from + 1);
    }
}

/// The proxy forwards to the port of the first model with the id of the one that was started,
/// loading no longer; a start of a model that is not configured, a restart that begins and every
/// operation that failed leave it as it is, and a stop leaves it without a target.
pub proof fn law_proxy_after_a_message(
    state: ProxyState,
    config: ConfigView,
    id: Seq<char>,
    e: ProcessErrorView,
    i: int,
)
    ensures
        ({
            let started = proxied(
                state,
                config,
                MessageView::SwitchCompleted { target_id: id, result: Ok(()) },
            );
            &&& 0 <= i < config.models.len() && config.models[i].id == id && (forall|j: int|
                0 <= j < i ==> (#[trigger] config.models[j]).id != id) ==> started.target_port
                == Some(config.models[i].port) && !started.is_loading
            &&& (forall|j: int|
                0 <= j < config.models.len() ==> (#[trigger] config.models[j]).id != id)
                ==> started == state
        }),
        ({
            let stopped = proxied(
                state,
                config,
                MessageView::StopCompleted { running_id: id, result: Ok(()) },
            );
            stopped.target_port is None && !stopped.is_loading
        }),
        proxied(state, config, MessageView::RestartRequested { model_id: id }) == state,
        proxied(state, config, MessageView::SwitchCompleted { target_id: id, result: Err(e) })
            == state,
        proxied(state, config, MessageView::StopCompleted { running_id: id, result: Err(e) })
            == state,
{
    lemma_first_index(config.models, id, 0);
}

/// A model that was left running is Ready under its own id, with a guard that knows its process,
/// where that is known, and its port, and that allows ten seconds; the configuration stays.
pub proof fn law_model_left_running(manager: ManagerView, at: int, pid: u32)
    requires
        0 <= at < manager.config.models.len(),
        pid <= 0x7fff_ffff,
    ensures
        ({
            let model = manager.config.models[at];
            let known = restored(manager, at, Some(pid));
            let unknown = restored(manager, at, None);
            &&& known.config == manager.config
            &&& unknown.config == manager.config
            &&& known.running matches Some(r) && r.id == model.id && r.state is Ready
                && r.guard.port == model.port && r.guard.shutdown_timeout_sec == 10
                && r.guard.pid == Some(pid as i32)
            &&& unknown.running matches Some(r) && r.id == model.id && r.state is Ready
                && r.guard.port == model.port && r.guard.shutdown_timeout_sec == 10
                && r.guard.pid is None
        }),
{
}

/// A message changes each card by itself, and neither their number nor the configuration.
pub proof fn law_messages_reach_every_card(window: WindowView, message: MessageView, i: int)
    requires
        0 <= i < window.cards.len(),
    ensures
        window.received(message).cards.len() == window.cards.len(),
        window.received(message).cards[i] == window.cards[i].received(message),
        window.received(message).config == window.config,
        window.received(message).config_path == window.config_path,
{
}

/// The card of a started model is Ready and marked, that of one that could not be started tells
/// why and keeps its mark, and all others are stopped without a mark; every toggle and every
/// restart button is on offer again as the state allows, and what is said of the context stays.
pub proof fn law_card_after_a_switch(card: CardView, target_id: Seq<char>, e: ProcessErrorView)
    ensures
        ({
            let ok = card.received(MessageView::SwitchCompleted { target_id, result: Ok(()) });
            let failed = card.received(MessageView::SwitchCompleted { target_id, result: Err(e) });
            &&& card.config.id == target_id ==> {
                &&& ok.state == CardStateView::Ready && ok.active && ok.restart_sensitive
                    && ok.logs_sensitive && ok.toggle_active && ok.toggle_label == "ON"@
                    && ok.status_text == "Ready"@
                &&& failed.state == CardStateView::Error("Failed to start: "@ + e.message())
                    && failed.active == card.active && failed.restart_sensitive
                    && failed.logs_sensitive && !failed.toggle_active && failed.toggle_label
                    == "OFF"@ && failed.status_text == "Failed to start: "@ + e.message()
            }
            &&& card.config.id != target_id ==> ok == failed && ok.state == CardStateView::Stopped
                && !ok.active && !ok.restart_sensitive && !ok.logs_sensitive && !ok.toggle_active
                && ok.toggle_label == "OFF"@ && ok.status_text == "Stopped"@
            &&& ok.toggle_sensitive && failed.toggle_sensitive
            &&& ok.restart_label == "Restart"@ && failed.restart_label == "Restart"@
            &&& !ok.signal_block && !failed.signal_block
            &&& ok.config == card.config && failed.config == card.config
            &&& ok.polling_state == card.polling_state && failed.polling_state == card.polling_state
            &&& ok.context_text == card.context_text && failed.context_text == card.context_text
            &&& ok.context_alert == card.context_alert && failed.context_alert == card.context_alert
        }),
{
}

/// The card of a stopped model shows it as stopped, and that of one that could not be stopped
/// tells why; its mark and what it says of the context stay, and so does every other card.
pub proof fn law_card_after_a_stop(card: CardView, running_id: Seq<char>, e: ProcessErrorView)
    ensures
        ({
            let ok = card.received(MessageView::StopCompleted { running_id, result: Ok(()) });
            let failed = card.received(MessageView::StopCompleted { running_id, result: Err(e) });
            &&& card.config.id != running_id ==> ok == card && failed == card
            &&& card.config.id == running_id ==> {
                &&& ok.state == CardStateView::Stopped && !ok.restart_sensitive
                    && !ok.logs_sensitive && !ok.toggle_active && ok.toggle_label == "OFF"@
                    && ok.status_text == "Stopped"@
                &&& failed.state == CardStateView::Error("Failed to stop: "@ + e.message())
                    && failed.restart_sensitive && failed.logs_sensitive && !failed.toggle_active
                    && failed.toggle_label == "OFF"@ && failed.status_text == "Failed to stop: "@
                    + e.message()
                &&& ok.toggle_sensitive && failed.toggle_sensitive
                &&& ok.restart_label == "Restart"@ && failed.restart_label == "Restart"@
                &&& !ok.signal_block && !failed.signal_block
            }
            &&& ok.config == card.config && failed.config == card.config
            &&& ok.active == card.active && failed.active == card.active
            &&& ok.polling_state == card.polling_state && failed.polling_state == card.polling_state
            &&& ok.context_text == card.context_text && failed.context_text == card.context_text
            &&& ok.context_alert == card.context_alert && failed.context_alert == card.context_alert
        }),
{
}

/// When a restart begins, the card of its model says so and is otherwise as it was, with its
/// toggle in use unless the model is on its way; every other card shows a stopped model without a
/// mark.
pub proof fn law_card_after_a_restart_begins(card: CardView, model_id: Seq<char>)
    ensures
        ({
            let after = card.received(MessageView::RestartRequested { model_id });
            &&& card.config.id == model_id ==> after == (CardView {
                restart_label: "Restarting…"@,
                restart_sensitive: false,
                signal_block: false,
                toggle_sensitive: if card.state is Starting || card.state is Loading {
                    card.toggle_sensitive
                } else {
                    true
                },
                ..card
            })
            &&& card.config.id != model_id ==> after == (CardView {
                state: CardStateView::Stopped,
                toggle_label: "OFF"@,
                toggle_active: false,
                toggle_sensitive: true,
                status_text: "Stopped"@,
                restart_sensitive: false,
                logs_sensitive: false,
                signal_block: false,
                active: false,
                ..card
            })
        }),
{
}

/// What is told of a model's context is shown on its card and on no other.
pub proof fn law_told_context(
    window: WindowView,
    model_id: Seq<char>,
    info: SlotInfo,
    percentage: Seq<char>,
    i: int,
)
    requires
        0 <= i < window.cards.len(),
    ensures
        ({
            let after = window.told(model_id, info, percentage);
            let card = window.cards[i];
            &&& after.config == window.config && after.config_path == window.config_path
            &&& after.cards.len() == window.cards.len()
            &&& card.config.id != model_id ==> after.cards[i] == card
            &&& card.config.id == model_id ==> after.cards[i] == card.with_context(
                info.tokens_used,
                info.n_ctx,
                percentage,
            )
        }),
{
}

/// A model that was found running is shown as Ready on its marked card; the other cards stay.
pub proof fn law_found_model(window: WindowView, id: Seq<char>, i: int)
    requires
        0 <= i < window.cards.len(),
    ensures
        ({
            let after = window.found(id);
            let card = window.cards[i];
            &&& after.config == window.config && after.config_path == window.config_path
            &&& after.cards.len() == window.cards.len()
            &&& card.config.id != id ==> after.cards[i] == card
            &&& card.config.id == id ==> after.cards[i] == (CardView {
                state: CardStateView::Ready,
                toggle_label: "ON"@,
                toggle_active: true,
                toggle_sensitive: true,
                status_text: "Ready"@,
                restart_sensitive: true,
                logs_sensitive: true,
                signal_block: false,
                active: true,
                ..card
            })
        }),
{
}

/// A toggle that the program moved asks for nothing. One that the user turned off stops what runs,
/// and one that the user turned on starts its model unless that is on its way; a model without a
/// card cannot be started.
pub proof fn law_what_a_toggle_asks_for(window: WindowView, id: Seq<char>, k: int)
    ensures
        0 <= k < window.cards.len() && window.cards[k].config.id == id && (forall|j: int|
            0 <= j < k ==> (#[trigger] window.cards[j]).config.id != id) ==> ({
            let card = window.cards[k];
            let on_its_way = card.state is Starting || card.state is Loading;
            &&& window.is_blocked(id) == card.signal_block
            &&& window.may_turn_on(id) == !on_its_way
            &&& card.signal_block ==> window.toggle_action(id, true) == ToggleAction::Ignore
                && window.toggle_action(id, false) == ToggleAction::Ignore
            &&& !card.signal_block ==> window.toggle_action(id, false) == ToggleAction::StopRunning
            &&& !card.signal_block && !on_its_way ==> window.toggle_action(id, true)
                == ToggleAction::TurnOn
            &&& !card.signal_block && on_its_way ==> window.toggle_action(id, true)
                == ToggleAction::Ignore
        }),
        (forall|j: int| 0 <= j < window.cards.len() ==> (#[trigger] window.cards[j]).config.id
            != id) ==> {
            &&& !window.is_blocked(id)
            &&& !window.may_turn_on(id)
            &&& window.toggle_action(id, true) == ToggleAction::Ignore
            &&& window.toggle_action(id, false) == ToggleAction::StopRunning
        },
{
    law_card_of_a_model(window.cards, id, 0);
}

/// A toggle that changed is shown as it is now, on the first card of its model; no other card
/// changes.
pub proof fn law_flipped_toggle(window: WindowView, id: Seq<char>, on: bool, k: int, i: int)
    requires
        0 <= i < window.cards.len(),
    ensures
        ({
            let after = window.flipped(id, on);
            &&& after.config == window.config && after.config_path == window.config_path
            &&& after.cards.len() == window.cards.len()
            &&& 0 <= k < window.cards.len() && window.cards[k].config.id == id && (forall|j: int|
                0 <= j < k ==> (#[trigger] window.cards[j]).config.id != id) ==> {
                &&& after.cards[k] == (CardView { toggle_active: on, ..window.cards[k] })
                &&& i != k ==> after.cards[i] == window.cards[i]
            }
            &&& (forall|j: int|
                0 <= j < window.cards.len() ==> (#[trigger] window.cards[j]).config.id != id)
                ==> after == window
        }),
{
    law_card_of_a_model(window.cards, id, 0);
}

/// Turning a model on shows it as Starting on its first card; every other card loses the use of
/// its toggle and is otherwise as it was.
pub proof fn law_turned_on_model(window: WindowView, id: Seq<char>, k: int, i: int)
    requires
        0 <= k < window.cards.len(),
        window.cards[k].config.id == id,
        forall|j: int| 0 <= j < k ==> (#[trigger] window.cards[j]).config.id != id,
        0 <= i < window.cards.len(),
    ensures
        ({
            let after = window.turned_on(id);
            let card = window.cards[i];
            &&& after.config == window.config && after.config_path == window.config_path
            &&& after.cards.len() == window.cards.len()
            &&& after.cards[k] == (CardView {
                state: CardStateView::Starting,
                toggle_label: "ON"@,
                toggle_active: true,
                toggle_sensitive: false,
                status_text: "Starting..."@,
                restart_sensitive: false,
                logs_sensitive: false,
                signal_block: false,
                ..window.cards[k]
            })
            &&& i != k && (card.state is Starting || card.state is Loading) ==> after.cards[i]
                == card
            &&& i != k && !(card.state is Starting || card.state is Loading) ==> after.cards[i] == (
            CardView { toggle_sensitive: false, ..card })
        }),
{
    law_card_of_a_model(window.cards, id, 0);
}

/// A restart may be asked for of a model with a card that is neither on its way nor being
/// restarted, and shows on its first card alone.
pub proof fn law_restart_by_the_user(window: WindowView, id: Seq<char>, k: int, i: int)
    requires
        0 <= i < window.cards.len(),
    ensures
        0 <= k < window.cards.len() && window.cards[k].config.id == id && (forall|j: int|
            0 <= j < k ==> (#[trigger] window.cards[j]).config.id != id) ==> ({
            let card = window.cards[k];
            let after = window.restarting(id);
            &&& window.may_restart(id) <==> !(card.state is Starting || card.state is Loading)
                && !has_text(card.restart_label, "Restarting"@)
            &&& after.config == window.config && after.config_path == window.config_path
            &&& after.cards.len() == window.cards.len()
            &&& after.cards[k] == (CardView {
                restart_label: "Restarting…"@,
                restart_sensitive: false,
                signal_block: false,
                ..card
            })
            &&& i != k ==> after.cards[i] == window.cards[i]
        }),
        (forall|j: int| 0 <= j < window.cards.len() ==> (#[trigger] window.cards[j]).config.id
            != id) ==> !window.may_restart(id),
{
    law_card_of_a_model(window.cards, id, 0);
}

/// A window has a new card for each configured model, in their order, and keeps the configuration
/// and its path, or a path where nothing stands.
pub proof fn law_new_windows(config: ConfigView, path: Seq<char>, i: int)
    requires
        0 <= i < config.models.len(),
    ensures
        ({
            let window = new_window(config, Some(path));
            &&& window.cards.len() == config.models.len()
            &&& window.cards[i] == new_card(config.models[i])
            &&& window.config == config
            &&& window.config_path == path
        }),
        new_window(config, None) == (WindowView {
            config_path: "/nonexistent/config.toml"@,
            ..new_window(config, Some(path))
        }),
{
}

/// Nothing is told of the context by no reply, nor by one that is no JSON document; what a
/// document tells is what its entries say, where its tokens can be counted.
pub proof fn law_told_by_a_reply(body: Seq<char>)
    ensures
        told_by(None) is None,
        json_text(body) is None ==> told_by(Some(body)) is None,
        json_text(body) matches Some((numbers, lengths)) ==> {
            let reply = reply_of(numbers, lengths);
            &&& reply.countable() ==> told_by(Some(body)) == reply.info()
            &&& !reply.countable() ==> told_by(Some(body)) is None
        },
{
}

} // verus!
