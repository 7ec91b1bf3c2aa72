//! Model cards: one row per configured model, with its name and port, a toggle, a status text,
//! the use of the context, and the buttons for a restart and for the logs.
//!
//! A card says what its widgets show; what it says is put on the screen elsewhere.

use vstd::prelude::*;
use vstd::string::*;

use crate::config::ModelConfig;
use crate::config::ModelConfigView;
use crate::slots::at_least_percent;
use crate::slots::uses_percent;
use crate::text::append_decimal;
use crate::text::contains;
use crate::text::decimal;
use crate::text::digit_char;
use crate::text::has_text;
use crate::text::occurs_at;

verus! {

/// From this percentage on the use of the context is shown in red.
pub const ALERT_PERCENT: u8 = 90;

/// The state of a model that its card shows.
#[derive(Debug, PartialEq)]
pub enum CardState {
    Stopped,
    Starting,
    Loading,
    Ready,
    Error(String),
}

/// What a `CardState` says.
pub enum CardStateView {
    Stopped,
    Starting,
    Loading,
    Ready,
    Error(Seq<char>),
}

impl View for CardState {
    type V = CardStateView;

    open spec fn view(&self) -> CardStateView {
        match self {
            CardState::Stopped => CardStateView::Stopped,
            CardState::Starting => CardStateView::Starting,
            CardState::Loading => CardStateView::Loading,
            CardState::Ready => CardStateView::Ready,
            CardState::Error(message) => CardStateView::Error(message@),
        }
    }
}

impl Clone for CardState {
    fn clone(&self) -> (r: Self)
        ensures
            r@ == self@,
    {
        match self {
            CardState::Stopped => CardState::Stopped,
            CardState::Starting => CardState::Starting,
            CardState::Loading => CardState::Loading,
            CardState::Ready => CardState::Ready,
            CardState::Error(message) => CardState::Error(message.clone()),
        }
    }
}

impl CardStateView {
    /// The status text of the state.
    pub open spec fn status_text(self) -> Seq<char> {
        match self {
            CardStateView::Stopped => "Stopped"@,
            CardStateView::Starting => "Starting..."@,
            CardStateView::Loading => "Loading..."@,
            CardStateView::Ready => "Ready"@,
            CardStateView::Error(message) => message,
        }
    }

    /// The model runs, or is about to.
    pub open spec fn is_on(self) -> bool {
        self is Ready || self is Starting || self is Loading
    }

    /// The model is on its way to another state.
    pub open spec fn is_transitioning(self) -> bool {
        self is Starting || self is Loading
    }

    /// The model has settled, running or failed.
    pub open spec fn has_settled(self) -> bool {
        self is Ready || self is Error
    }
}

impl CardState {
    /// The status text of the state.
    pub fn status_text(&self) -> (text: &str)
        ensures
            text@ == self@.status_text(),
    {
        match self {
            CardState::Stopped => "Stopped",
            CardState::Starting => "Starting...",
            CardState::Loading => "Loading...",
            CardState::Ready => "Ready",
            CardState::Error(message) => message.as_str(),
        }
    }

    /// Whether the model runs, or is about to.
    pub fn is_on(&self) -> (on: bool)
        ensures
            on == self@.is_on(),
    {
        match self {
            CardState::Ready => true,
            CardState::Starting => true,
            CardState::Loading => true,
            CardState::Stopped => false,
            CardState::Error(_) => false,
        }
    }

    /// Whether the model is on its way to another state.
    pub fn is_transitioning(&self) -> (yes: bool)
        ensures
            yes == self@.is_transitioning(),
    {
        match self {
            CardState::Starting => true,
            CardState::Loading => true,
            CardState::Stopped => false,
            CardState::Ready => false,
            CardState::Error(_) => false,
        }
    }

    /// Whether the model has settled, running or failed.
    pub fn has_settled(&self) -> (yes: bool)
        ensures
            yes == self@.has_settled(),
    {
        match self {
            CardState::Ready => true,
            CardState::Error(_) => true,
            CardState::Stopped => false,
            CardState::Starting => false,
            CardState::Loading => false,
        }
    }
}

/// What is known of the use of the context.
#[derive(Debug, Clone, Copy, PartialEq, Eq, Structural)]
pub enum PollingState {
    /// It is not asked for: the model is stopped or was not started yet.
    Inactive,
    /// It was asked for, and told.
    Active {
        /// The tokens in use.
        tokens_used: usize,
        /// The size of the context.
        n_ctx: usize,
    },
    /// It was asked for, and not told.
    Error,
}

impl PollingState {
    /// Whether it is asked for.
    pub fn is_active(&self) -> (yes: bool)
        ensures
            yes == !(self is Inactive),
    {
        match self {
            PollingState::Inactive => false,
            _ => true,
        }
    }
}

/// The last three digits of `n`.
pub open spec fn three_digits(n: nat) -> Seq<char> {
    seq![digit_char(n / 100 % 10), digit_char(n / 10 % 10), digit_char(n % 10)]
}

/// `n` in decimal with a comma before each group of three digits.
pub open spec fn grouped(n: nat) -> Seq<char>
    decreases n,
{
    if n < 1000 {
        decimal(n)
    } else {
        grouped(n / 1000) + ","@ + three_digits(n)
    }
}

/// Appends `n` in decimal with a comma before each group of three digits.
pub fn append_grouped(s: &mut String, n: u64)
    ensures
        final(s)@ == old(s)@ + grouped(n as nat),
    decreases n,
{
    if n < 1000 {
        append_decimal(s, n);
    } else {
        append_grouped(s, n / 1000);
        s.append(",");
        s.push((48u8 + (n / 100 % 10) as u8) as char);
        s.push((48u8 + (n / 10 % 10) as u8) as char);
        s.push((48u8 + (n % 10) as u8) as char);
    }
    proof {
        assert(s@ =~= old(s)@ + grouped(n as nat));
    }
}

/// What is said of the use of the context, such as `Context: 1,024 / 32,000 (3.2%)`.
pub open spec fn context_line(tokens_used: nat, n_ctx: nat, percentage: Seq<char>) -> Seq<char> {
    "Context: "@ + grouped(tokens_used) + " / "@ + grouped(n_ctx) + " ("@ + percentage + "%)"@
}

/// What is said of the use of the context; `percentage` is the share in use, in percent with one
/// decimal place.
pub fn context_text(tokens_used: usize, n_ctx: usize, percentage: &str) -> (text: String)
    ensures
        text@ == context_line(tokens_used as nat, n_ctx as nat, percentage@),
{
    let mut text = "Context: ".to_owned();
    append_grouped(&mut text, tokens_used as u64);
    text.append(" / ");
    append_grouped(&mut text, n_ctx as u64);
    text.append(" (");
    text.append(percentage);
    text.append("%)");
    text
}

/// A model card.
#[derive(Debug)]
pub struct ModelCard {
    /// The model that the card is for.
    config: ModelConfig,
    state: CardState,
    polling_state: PollingState,
    toggle_label: String,
    toggle_active: bool,
    toggle_sensitive: bool,
    status_text: String,
    context_text: String,
    context_alert: bool,
    restart_label: String,
    restart_sensitive: bool,
    logs_sensitive: bool,
    /// While it is set, a toggle that changes does not count as the user's doing.
    signal_block: bool,
    active: bool,
}

/// What a `ModelCard` shows.
pub struct CardView {
    pub config: ModelConfigView,
    pub state: CardStateView,
    pub polling_state: PollingState,
    /// The label of the toggle.
    pub toggle_label: Seq<char>,
    /// The toggle is on.
    pub toggle_active: bool,
    /// The toggle can be used.
    pub toggle_sensitive: bool,
    pub status_text: Seq<char>,
    pub context_text: Seq<char>,
    /// The use of the context is shown in red.
    pub context_alert: bool,
    /// The label of the button for a restart.
    pub restart_label: Seq<char>,
    /// The button for a restart can be used.
    pub restart_sensitive: bool,
    /// The button for the logs can be used.
    pub logs_sensitive: bool,
    /// A toggle that changes does not count as the user's doing.
    pub signal_block: bool,
    /// The card is marked as that of the running model.
    pub active: bool,
}

impl View for ModelCard {
    type V = CardView;

    closed spec fn view(&self) -> CardView {
        CardView {
            config: self.config@,
            state: self.state@,
            polling_state: self.polling_state,
            toggle_label: self.toggle_label@,
            toggle_active: self.toggle_active,
            toggle_sensitive: self.toggle_sensitive,
            status_text: self.status_text@,
            context_text: self.context_text@,
            context_alert: self.context_alert,
            restart_label: self.restart_label@,
            restart_sensitive: self.restart_sensitive,
            logs_sensitive: self.logs_sensitive,
            signal_block: self.signal_block,
            active: self.active,
        }
    }
}

/// The card of a model that was not started yet.
pub open spec fn new_card(config: ModelConfigView) -> CardView {
    CardView {
        config,
        state: CardStateView::Stopped,
        polling_state: PollingState::Inactive,
        toggle_label: "OFF"@,
        toggle_active: false,
        toggle_sensitive: true,
        status_text: "Stopped"@,
        context_text: seq![],
        context_alert: false,
        restart_label: "Restart"@,
        restart_sensitive: false,
        logs_sensitive: false,
        signal_block: false,
        active: false,
    }
}

impl CardView {
    /// The card once it shows another state.
    pub open spec fn with_state(self, state: CardStateView) -> CardView {
        CardView {
            state,
            toggle_label: if state.is_on() {
                "ON"@
            } else {
                "OFF"@
            },
            toggle_active: state.is_on(),
            toggle_sensitive: !state.is_transitioning(),
            status_text: state.status_text(),
            restart_sensitive: state.has_settled(),
            logs_sensitive: state.has_settled(),
            signal_block: false,
            ..self
        }
    }

    /// The card without use of its toggle.
    pub open spec fn toggle_disabled(self) -> CardView {
        CardView { toggle_sensitive: false, ..self }
    }

    /// The card with use of its toggle, unless the model is on its way to another state.
    pub open spec fn toggle_enabled(self) -> CardView {
        if self.state.is_transitioning() {
            self
        } else {
            CardView { toggle_sensitive: true, ..self }
        }
    }

    /// The card marked as that of the running model, or not.
    pub open spec fn marked(self, active: bool) -> CardView {
        CardView { active, ..self }
    }

    /// The card with the use of the context.
    pub open spec fn with_context(
        self,
        tokens_used: usize,
        n_ctx: usize,
        percentage: Seq<char>,
    ) -> CardView {
        CardView {
            polling_state: PollingState::Active { tokens_used, n_ctx },
            context_text: context_line(tokens_used as nat, n_ctx as nat, percentage),
            context_alert: uses_percent(tokens_used as nat, n_ctx as nat, ALERT_PERCENT as nat),
            signal_block: false,
            ..self
        }
    }

    /// The card without the use of the context.
    pub open spec fn without_context(self) -> CardView {
        CardView {
            polling_state: PollingState::Inactive,
            context_text: seq![],
            signal_block: false,
            ..self
        }
    }

    /// The card while its model is restarted.
    pub open spec fn restart_disabled(self) -> CardView {
        CardView {
            restart_label: "Restarting…"@,
            restart_sensitive: false,
            signal_block: false,
            ..self
        }
    }

    /// The card when no restart is under way.
    pub open spec fn restart_enabled(self) -> CardView {
        CardView {
            restart_label: "Restart"@,
            restart_sensitive: self.state.has_settled(),
            signal_block: false,
            ..self
        }
    }

    /// A restart is under way.
    pub open spec fn restart_requested(self) -> bool {
        has_text(self.restart_label, "Restarting"@)
    }

    /// The card once its toggle changed.
    pub open spec fn toggled(self, on: bool) -> CardView {
        CardView { toggle_active: on, ..self }
    }
}

impl ModelCard {
    /// A card for a model.
    pub fn new(config: &ModelConfig) -> (card: Self)
        ensures
            card@ == new_card(config@),
    {
        ModelCard {
            config: config.clone(),
            state: CardState::Stopped,
            polling_state: PollingState::Inactive,
            toggle_label: "OFF".to_owned(),
            toggle_active: false,
            toggle_sensitive: true,
            status_text: "Stopped".to_owned(),
            context_text: String::new(),
            context_alert: false,
            restart_label: "Restart".to_owned(),
            restart_sensitive: false,
            logs_sensitive: false,
            signal_block: false,
            active: false,
        }
    }

    /// The model that the card is for.
    pub fn config(&self) -> (config: &ModelConfig)
        ensures
            config@ == self@.config,
    {
        &self.config
    }

    /// The heading of the card.
    pub fn heading(&self) -> (text: String)
        ensures
            text@ == self@.config.name + " (port "@ + decimal(self@.config.port as nat) + ")"@,
    {
        let mut text = self.config.name.clone();
        text.append(" (port ");
        append_decimal(&mut text, self.config.port as u64);
        text.append(")");
        text
    }

    /// The state that the card shows.
    pub fn state(&self) -> (state: CardState)
        ensures
            state@ == self@.state,
    {
        self.state.clone()
    }

    /// What is known of the use of the context.
    pub fn polling_state(&self) -> (state: PollingState)
        ensures
            state == self@.polling_state,
    {
        self.polling_state
    }

    /// The label of the toggle.
    pub fn toggle_label(&self) -> (label: &str)
        ensures
            label@ == self@.toggle_label,
    {
        self.toggle_label.as_str()
    }

    /// Whether the toggle is on.
    pub fn toggle_active(&self) -> (on: bool)
        ensures
            on == self@.toggle_active,
    {
        self.toggle_active
    }

    /// Whether the toggle can be used.
    pub fn toggle_sensitive(&self) -> (yes: bool)
        ensures
            yes == self@.toggle_sensitive,
    {
        self.toggle_sensitive
    }

    /// The status text.
    pub fn status_text(&self) -> (text: &str)
        ensures
            text@ == self@.status_text,
    {
        self.status_text.as_str()
    }

    /// The text on the use of the context.
    pub fn context_text(&self) -> (text: &str)
        ensures
            text@ == self@.context_text,
    {
        self.context_text.as_str()
    }

    /// Whether the use of the context is shown in red.
    pub fn context_alert(&self) -> (yes: bool)
        ensures
            yes == self@.context_alert,
    {
        self.context_alert
    }

    /// The label of the button for a restart.
    pub fn restart_label(&self) -> (label: &str)
        ensures
            label@ == self@.restart_label,
    {
        self.restart_label.as_str()
    }

    /// Whether the button for a restart can be used.
    pub fn restart_sensitive(&self) -> (yes: bool)
        ensures
            yes == self@.restart_sensitive,
    {
        self.restart_sensitive
    }

    /// Whether the button for the logs can be used.
    pub fn logs_sensitive(&self) -> (yes: bool)
        ensures
            yes == self@.logs_sensitive,
    {
        self.logs_sensitive
    }

    /// Whether the card is marked as that of the running model.
    pub fn is_active(&self) -> (yes: bool)
        ensures
            yes == self@.active,
    {
        self.active
    }

    /// Shows another state.
    pub fn set_state(&mut self, new_state: CardState)
        ensures
            final(self)@ == old(self)@.with_state(new_state@),
    {
        self.block_signals();
        let is_on: bool = new_state.is_on();
        self.toggle_label = if is_on {
            "ON".to_owned()
        } else {
            "OFF".to_owned()
        };
        self.toggle_active = is_on;
        self.toggle_sensitive = !new_state.is_transitioning();
        self.status_text = new_state.status_text().to_owned();
        self.restart_sensitive = new_state.has_settled();
        self.logs_sensitive = new_state.has_settled();
        self.state = new_state;
        self.unblock_signals();
    }

    /// Shows that the model starts, and takes the toggle out of use.
    pub fn set_starting(&mut self)
        ensures
            final(self)@ == old(self)@.with_state(CardStateView::Starting),
    {
        self.set_state(CardState::Starting);
    }

    /// Takes the toggle out of use.
    pub fn disable_toggle(&mut self)
        ensures
            final(self)@ == old(self)@.toggle_disabled(),
    {
        self.toggle_sensitive = false;
    }

    /// Puts the toggle back into use, unless the model is on its way to another state.
    pub fn enable_toggle(&mut self)
        ensures
            final(self)@ == old(self)@.toggle_enabled(),
    {
        if !self.state.is_transitioning() {
            self.toggle_sensitive = true;
        }
    }

    /// From now on a toggle that changes does not count as the user's doing.
    pub fn block_signals(&mut self)
        ensures
            final(self)@ == (CardView { signal_block: true, ..old(self)@ }),
    {
        self.signal_block = true;
    }

    /// From now on a toggle that changes counts as the user's doing.
    pub fn unblock_signals(&mut self)
        ensures
            final(self)@ == (CardView { signal_block: false, ..old(self)@ }),
    {
        self.signal_block = false;
    }

    /// Takes in that the toggle changed. Says what the user asked for, or nothing where the
    /// change was not the user's doing.
    pub fn toggled(&mut self, on: bool) -> (asked: Option<bool>)
        ensures
            final(self)@ == old(self)@.toggled(on),
            asked == (if old(self)@.signal_block {
                None
            } else {
                Some(on)
            }),
    {
        self.toggle_active = on;
        if self.signal_block {
            None
        } else {
            Some(on)
        }
    }

    /// Marks the card as that of the running model, or takes the mark away.
    pub fn set_active(&mut self, active: bool)
        ensures
            final(self)@ == old(self)@.marked(active),
    {
        self.active = active;
    }

    /// Shows the use of the context; `percentage` is the share in use, in percent with one
    /// decimal place.
    pub fn set_context(&mut self, tokens_used: usize, n_ctx: usize, percentage: &str)
        ensures
            final(self)@ == old(self)@.with_context(tokens_used, n_ctx, percentage@),
    {
        self.block_signals();
        self.polling_state = PollingState::Active { tokens_used, n_ctx };
        self.context_text = context_text(tokens_used, n_ctx, percentage);
        self.context_alert = at_least_percent(tokens_used, n_ctx, ALERT_PERCENT);
        self.unblock_signals();
    }

    /// Shows no use of the context.
    pub fn clear_context(&mut self)
        ensures
            final(self)@ == old(self)@.without_context(),
    {
        self.block_signals();
        self.polling_state = PollingState::Inactive;
        self.context_text = String::new();
        self.unblock_signals();
    }

    /// Shows that a restart is under way.
    pub fn disable_restart(&mut self)
        ensures
            final(self)@ == old(self)@.restart_disabled(),
    {
        self.block_signals();
        self.restart_label = "Restarting…".to_owned();
        self.restart_sensitive = false;
        self.unblock_signals();
    }

    /// Shows that no restart is under way.
    pub fn enable_restart(&mut self)
        ensures
            final(self)@ == old(self)@.restart_enabled(),
    {
        self.block_signals();
        self.restart_label = "Restart".to_owned();
        self.restart_sensitive = self.state.has_settled();
        self.unblock_signals();
    }

    /// Whether a restart is under way.
    pub fn restart_requested(&self) -> (yes: bool)
        ensures
            yes == self@.restart_requested(),
    {
        contains(self.restart_label.as_str(), "Restarting")
    }
}

/// Anything but a comma.
pub open spec fn no_comma() -> spec_fn(char) -> bool {
    |c: char| c != ','
}

/// A text without commas loses nothing.
proof fn lemma_nothing_to_lose(s: Seq<char>)
    requires
        forall|i: int| 0 <= i < s.len() ==> #[trigger] s[i] != ',',
    ensures
        s.filter(no_comma()) == s,
    decreases s.len(),
{
    reveal(Seq::filter);
    if s.len() > 0 {
        let front = s.drop_last();
        assert forall|i: int| 0 <= i < front.len() implies #[trigger] front[i] != ',' by {
            assert(front[i] == s[i]);
        }
        lemma_nothing_to_lose(front);
        assert(s.last() == s[s.len() - 1]);
        assert(front.push(s.last()) =~= s);
    }
}

/// A number has no commas in decimal.
proof fn lemma_decimal_has_no_comma(n: nat)
    ensures
        forall|i: int| 0 <= i < decimal(n).len() ==> #[trigger] decimal(n)[i] != ',',
    decreases n,
{
    lemma_digit_is_no_comma(n % 10);
    if n >= 10 {
        lemma_decimal_has_no_comma(n / 10);
        let front = decimal(n / 10);
        assert forall|i: int| 0 <= i < decimal(n).len() implies #[trigger] decimal(n)[i] != ',' by {
            if i < front.len() {
                assert(decimal(n)[i] == front[i]);
            }
        }
    }
}

proof fn lemma_digit_is_no_comma(d: nat)
    requires
        d < 10,
    ensures
        digit_char(d) != ',',
{
}

/// The last three digits of a number follow those of its thousands.
proof fn lemma_decimal_by_thousands(n: nat)
    requires
        n >= 1000,
    ensures
        decimal(n) == decimal(n / 1000) + three_digits(n),
{
    assert(n / 10 / 10 == n / 100);
    assert(n / 100 / 10 == n / 1000);
    assert(decimal(n) == decimal(n / 10).push(digit_char(n % 10)));
    assert(decimal(n / 10) == decimal(n / 100).push(digit_char(n / 10 % 10)));
    assert(decimal(n / 100) == decimal(n / 1000).push(digit_char(n / 100 % 10)));
    assert(decimal(n) =~= decimal(n / 1000) + three_digits(n));
}

/// Grouping the digits of a number changes nothing but the commas.
pub proof fn law_grouping_keeps_the_digits(n: nat)
    ensures
        grouped(n).filter(no_comma()) == decimal(n),
    decreases n,
{
    if n < 1000 {
        lemma_decimal_has_no_comma(n);
        lemma_nothing_to_lose(decimal(n));
    } else {
        law_grouping_keeps_the_digits(n / 1000);
        lemma_decimal_by_thousands(n);
        let high = grouped(n / 1000);
        let last = three_digits(n);
        Seq::filter_distributes_over_add(high + ","@, last, no_comma());
        Seq::filter_distributes_over_add(high, ","@, no_comma());
        assert(last.filter(no_comma()) == last) by {
            lemma_digit_is_no_comma(n % 10);
            lemma_digit_is_no_comma(n / 10 % 10);
            lemma_digit_is_no_comma(n / 100 % 10);
            lemma_nothing_to_lose(last);
        }
        assert(","@.filter(no_comma()) == Seq::<char>::empty()) by {
            reveal_strlit(",");
            reveal_with_fuel(Seq::<_>::filter, 2);
        }
        assert(high.filter(no_comma()) + Seq::<char>::empty() == high.filter(no_comma()));
    }
}

/// A change to a card.
pub enum CardChange {
    SetState(CardStateView),
    DisableToggle,
    EnableToggle,
    Block,
    Unblock,
    Toggled(bool),
    SetActive(bool),
    SetContext { tokens_used: usize, n_ctx: usize, percentage: Seq<char> },
    ClearContext,
    DisableRestart,
    EnableRestart,
}

impl CardView {
    /// The card after a change.
    pub open spec fn changed(self, change: CardChange) -> CardView {
        match change {
            CardChange::SetState(state) => self.with_state(state),
            CardChange::DisableToggle => self.toggle_disabled(),
            CardChange::EnableToggle => self.toggle_enabled(),
            CardChange::Block => CardView { signal_block: true, ..self },
            CardChange::Unblock => CardView { signal_block: false, ..self },
            CardChange::Toggled(on) => self.toggled(on),
            CardChange::SetActive(active) => self.marked(active),
            CardChange::SetContext { tokens_used, n_ctx, percentage } => self.with_context(
                tokens_used,
                n_ctx,
                percentage,
            ),
            CardChange::ClearContext => self.without_context(),
            CardChange::DisableRestart => self.restart_disabled(),
            CardChange::EnableRestart => self.restart_enabled(),
        }
    }

    /// The card after several changes.
    pub open spec fn changed_by(self, changes: Seq<CardChange>) -> CardView
        decreases changes.len(),
    {
        if changes.len() == 0 {
            self
        } else {
            self.changed_by(changes.drop_last()).changed(changes.last())
        }
    }

    /// What the card shows agrees with the state of its model: the status text is that of the
    /// state, the toggle is out of use while the model is on its way, a restart is on offer only
    /// for a model that has settled, and the logs are exactly for such a one.
    pub open spec fn agrees(self) -> bool {
        &&& self.status_text == self.state.status_text()
        &&& self.toggle_label == if self.state.is_on() {
            "ON"@
        } else {
            "OFF"@
        }
        &&& self.toggle_sensitive ==> !self.state.is_transitioning()
        &&& self.restart_sensitive ==> self.state.has_settled()
        &&& self.logs_sensitive == self.state.has_settled()
        &&& self.restart_label == "Restart"@ || self.restart_label == "Restarting…"@
    }
}

/// A card agrees with the state of its model from the start, and whatever is done to it.
pub proof fn law_cards_agree_with_their_state(config: ModelConfigView, changes: Seq<CardChange>)
    ensures
        new_card(config).changed_by(changes).agrees(),
        new_card(config).changed_by(changes).config == config,
    decreases changes.len(),
{
    if changes.len() > 0 {
        law_cards_agree_with_their_state(config, changes.drop_last());
    }
}

/// A restart is under way from the moment it is shown to be until it is shown not to be.
pub proof fn law_restart_is_shown(card: CardView)
    ensures
        card.restart_disabled().restart_requested(),
        !card.restart_disabled().restart_sensitive,
        !card.restart_enabled().restart_requested(),
        card.restart_enabled().restart_sensitive <==> card.state.has_settled(),
{
    reveal_strlit("Restarting…");
    reveal_strlit("Restarting");
    reveal_strlit("Restart");
    assert("Restarting…"@.subrange(0, 10) =~= "Restarting"@);
    assert(occurs_at("Restarting…"@, "Restarting"@, 0));
}

/// Once the program has changed a card, a toggle that changes counts as the user's doing again,
/// and the toggle is on exactly where the state is.
pub proof fn law_signals_are_free_again(card: CardView, state: CardStateView)
    ensures
        !card.with_state(state).signal_block,
        !card.without_context().signal_block,
        !card.restart_disabled().signal_block,
        !card.restart_enabled().signal_block,
        card.with_state(state).toggle_active == state.is_on(),
{
}

/// Each state has its own status text, an error its message; a model is on while it is Ready,
/// Starting or Loading, on its way while it is Starting or Loading, and has settled once it is
/// Ready or failed.
pub proof fn law_card_states(message: Seq<char>)
    ensures
        ({
            let state = CardStateView::Stopped;
            state.status_text() == "Stopped"@ && !state.is_on() && !state.is_transitioning()
                && !state.has_settled()
        }),
        ({
            let state = CardStateView::Starting;
            state.status_text() == "Starting..."@ && state.is_on() && state.is_transitioning()
                && !state.has_settled()
        }),
        ({
            let state = CardStateView::Loading;
            state.status_text() == "Loading..."@ && state.is_on() && state.is_transitioning()
                && !state.has_settled()
        }),
        ({
            let state = CardStateView::Ready;
            state.status_text() == "Ready"@ && state.is_on() && !state.is_transitioning()
                && state.has_settled()
        }),
        ({
            let state = CardStateView::Error(message);
            state.status_text() == message && !state.is_on() && !state.is_transitioning()
                && state.has_settled()
        }),
{
}

/// A new card is that of a stopped model: its toggle is off and can be used, neither a restart nor
/// the logs are on offer, nothing is said of the context, and the card is not marked.
pub proof fn law_new_cards(config: ModelConfigView)
    ensures
        ({
            let card = new_card(config);
            &&& card.config == config
            &&& card.state is Stopped
            &&& card.polling_state is Inactive
            &&& card.toggle_label == "OFF"@
            &&& !card.toggle_active
            &&& card.toggle_sensitive
            &&& card.status_text == "Stopped"@
            &&& card.context_text.len() == 0
            &&& !card.context_alert
            &&& card.restart_label == "Restart"@
            &&& !card.restart_sensitive
            &&& !card.logs_sensitive
            &&& !card.signal_block
            &&& !card.active
        }),
{
}

/// A card that shows another state takes its toggle, its status text and its buttons from that
/// state, and keeps its model, its mark, its restart label and what it says of the context.
pub proof fn law_shown_state(card: CardView, state: CardStateView)
    ensures
        ({
            let after = card.with_state(state);
            let on = state is Ready || state is Starting || state is Loading;
            let settled = state is Ready || state is Error;
            &&& after.state == state
            &&& after.toggle_active == on
            &&& on ==> after.toggle_label == "ON"@
            &&& !on ==> after.toggle_label == "OFF"@
            &&& after.toggle_sensitive == !(state is Starting || state is Loading)
            &&& after.status_text == state.status_text()
            &&& after.restart_sensitive == settled
            &&& after.logs_sensitive == settled
            &&& !after.signal_block
            &&& after.config == card.config
            &&& after.polling_state == card.polling_state
            &&& after.context_text == card.context_text
            &&& after.context_alert == card.context_alert
            &&& after.restart_label == card.restart_label
            &&& after.active == card.active
        }),
{
}

/// Taking the toggle out of use, putting it back, moving it and marking the card each change that
/// one thing alone; the toggle of a model on its way does not come back into use.
pub proof fn law_small_changes(card: CardView, b: bool)
    ensures
        card.toggle_disabled() == (CardView { toggle_sensitive: false, ..card }),
        !(card.state is Starting || card.state is Loading) ==> card.toggle_enabled() == (CardView {
            toggle_sensitive: true,
            ..card
        }),
        card.state is Starting || card.state is Loading ==> card.toggle_enabled() == card,
        card.marked(b) == (CardView { active: b, ..card }),
        card.toggled(b) == (CardView { toggle_active: b, ..card }),
{
}

/// The use of the context is shown with both numbers and the percentage, in red exactly from
/// ninety percent on; nothing else on the card changes.
pub proof fn law_shown_context(
    card: CardView,
    tokens_used: usize,
    n_ctx: usize,
    percentage: Seq<char>,
)
    ensures
        ({
            let after = card.with_context(tokens_used, n_ctx, percentage);
            &&& after.polling_state == (PollingState::Active { tokens_used, n_ctx })
            &&& after.context_text == "Context: "@ + grouped(tokens_used as nat) + " / "@ + grouped(
                n_ctx as nat,
            ) + " ("@ + percentage + "%)"@
            &&& after.context_alert <==> n_ctx > 0 && tokens_used * 100 >= 90 * n_ctx
            &&& after == (CardView {
                polling_state: after.polling_state,
                context_text: after.context_text,
                context_alert: after.context_alert,
                signal_block: false,
                ..card
            })
        }),
        card.without_context() == (CardView {
            polling_state: PollingState::Inactive,
            context_text: seq![],
            signal_block: false,
            ..card
        }),
{
}

/// While a restart is under way its button says so and cannot be used; afterwards it can be where
/// the model is Ready or failed. Nothing else on the card changes.
pub proof fn law_shown_restart(card: CardView)
    ensures
        card.restart_disabled() == (CardView {
            restart_label: "Restarting…"@,
            restart_sensitive: false,
            signal_block: false,
            ..card
        }),
        card.restart_enabled() == (CardView {
            restart_label: "Restart"@,
            restart_sensitive: card.state is Ready || card.state is Error,
            signal_block: false,
            ..card
        }),
        card.restart_requested() <==> has_text(card.restart_label, "Restarting"@),
{
}

/// Numbers below a thousand are written as they are; in any other a comma stands before the last
/// three digits, which are written even where they are zeros.
pub proof fn law_grouping(thousands: nat, hundreds: nat, tens: nat, ones: nat)
    requires
        hundreds < 10,
        tens < 10,
        ones < 10,
    ensures
        ({
            let rest = 100 * hundreds + 10 * tens + ones;
            &&& grouped(rest) == decimal(rest)
            &&& thousands > 0 ==> grouped(1000 * thousands + rest) == grouped(thousands) + seq![
                ',',
                (48 + hundreds) as char,
                (48 + tens) as char,
                (48 + ones) as char,
            ]
        }),
{
    let rest = 100 * hundreds + 10 * tens + ones;
    let n = 1000 * thousands + rest;
    if thousands > 0 {
        reveal_strlit(",");
        lemma_places(thousands, hundreds, tens, ones);
        let last = seq![
            digit_char(n / 100 % 10),
            digit_char(n / 10 % 10),
            digit_char(n % 10),
        ];
        assert(three_digits(n) == last);
        assert(grouped(n) == grouped(thousands) + ","@ + last);
        assert(grouped(thousands) + ","@ + last =~= grouped(thousands) + seq![
            ',',
            digit_char(hundreds),
            digit_char(tens),
            digit_char(ones),
        ]);
    }
}

proof fn lemma_places(thousands: nat, hundreds: nat, tens: nat, ones: nat)
    requires
        hundreds < 10,
        tens < 10,
        ones < 10,
    ensures
        ({
            let n = 1000 * thousands + (100 * hundreds + 10 * tens + ones);
            &&& n / 1000 == thousands
            &&& n / 100 % 10 == hundreds
            &&& n / 10 % 10 == tens
            &&& n % 10 == ones
        }),
{
    let n = 1000 * thousands + (100 * hundreds + 10 * tens + ones);
    assert(n / 100 == 10 * thousands + hundreds);
    assert(n / 10 == 100 * thousands + 10 * hundreds + tens);
}

} // verus!
