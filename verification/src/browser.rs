//! The state of one Browser pane, as a machine that the plugin's glue drives:
//! each call returns one effect for the glue to perform (a call on the web
//! view, an event for the host, a file to save, a URL to hand off), and the
//! glue reports back with `resume` until the machine is `Done`.
use vstd::prelude::*;
use crate::abi::{
    ABI_VERSION, Control, ControlView, Event, EventView, PARENT_X11, Shortcut, ShortcutView,
};
use crate::address::{is_http_url, option_view, resolve_input, result_parts, spec_is_http_url,
    spec_resolve_input, url_parse};
use crate::runtime::{
    shortcut_modifiers, spec_shortcut_action, EVENTFLAG_ALT_DOWN, EVENTFLAG_CONTROL_DOWN,
};
use crate::pages::{
    display_title, error_body, fill_template, local_page, spec_display_title, spec_saved_url,
    LocalPage, SELECT_PAGE_CONTENT,
};
use crate::text::{chars_of, has_prefix, owned, same_text, starts_with, str_option_view, trim};
use crate::wire::{EngineEvent, EngineEventView};

verus! {

/// The host's platform, which decides the keyboard shortcuts.
#[derive(Debug, Clone, PartialEq, Eq)]
pub enum Platform {
    MacOs,
    Other,
}

/// A call on the pane's web view.
#[derive(Debug, Clone, PartialEq, Eq)]
pub enum ViewCall {
    LoadUrl(String),
    LoadHtml(String),
    EvaluateScript(String),
    GoBack,
    GoForward,
    Reload,
    Focus,
}

pub enum ViewCallView {
    LoadUrl(Seq<char>),
    LoadHtml(Seq<char>),
    EvaluateScript(Seq<char>),
    GoBack,
    GoForward,
    Reload,
    Focus,
}

impl View for ViewCall {
    type V = ViewCallView;

    open spec fn view(&self) -> ViewCallView {
        match self {
            ViewCall::LoadUrl(v) => ViewCallView::LoadUrl(v@),
            ViewCall::LoadHtml(v) => ViewCallView::LoadHtml(v@),
            ViewCall::EvaluateScript(v) => ViewCallView::EvaluateScript(v@),
            ViewCall::GoBack => ViewCallView::GoBack,
            ViewCall::GoForward => ViewCallView::GoForward,
            ViewCall::Reload => ViewCallView::Reload,
            ViewCall::Focus => ViewCallView::Focus,
        }
    }
}

/// What the glue must do next.
#[derive(Debug, Clone, PartialEq, Eq)]
pub enum Effect {
    /// Nothing: the request is handled.
    Done,
    /// Call the web view, and resume with its outcome.
    View(ViewCall),
    /// Send this event to the host, and resume.
    Host(Event),
    /// Write this address to the pane's state file (failures are ignored),
    /// and resume.
    Save(String),
    /// Hand this download to the system's default browser (failures are
    /// ignored), and resume.
    OpenExternally(String),
    /// Send the host the pane's state (`state_event`), and resume.
    Publish,
}

pub enum EffectView {
    Done,
    View(ViewCallView),
    Host(EventView),
    Save(Seq<char>),
    OpenExternally(Seq<char>),
    Publish,
}

impl View for Effect {
    type V = EffectView;

    open spec fn view(&self) -> EffectView {
        match self {
            Effect::Done => EffectView::Done,
            Effect::View(c) => EffectView::View(c@),
            Effect::Host(e) => EffectView::Host(e@),
            Effect::Save(v) => EffectView::Save(v@),
            Effect::OpenExternally(v) => EffectView::OpenExternally(v@),
            Effect::Publish => EffectView::Publish,
        }
    }
}

/// What the machine is waiting for.
enum Pending {
    /// Nothing: no request is in progress.
    Idle,
    /// The navigation to `url` was sent to the view.
    Loaded { url: String },
    /// The page was asked to stop.
    Stopped,
    /// A call whose success needs no further step.
    Plain,
    /// The error page for `message` was sent to the view.
    ErrorPage { message: String },
}

pub enum PendingView {
    Idle,
    Loaded { url: Seq<char> },
    Stopped,
    Plain,
    ErrorPage { message: Seq<char> },
}

impl View for Pending {
    type V = PendingView;

    closed spec fn view(&self) -> PendingView {
        match self {
            Pending::Idle => PendingView::Idle,
            Pending::Loaded { url } => PendingView::Loaded { url: url@ },
            Pending::Stopped => PendingView::Stopped,
            Pending::Plain => PendingView::Plain,
            Pending::ErrorPage { message } => PendingView::ErrorPage { message: message@ },
        }
    }
}

/// Work queued for the machine.
enum Job {
    /// A toolbar or page action.
    Action { action: String, value: Option<String> },
    /// An event from the engine.
    Engine(EngineEvent),
    /// Send the pane's state to the host.
    Publish,
}

pub enum JobView {
    Action { action: Seq<char>, value: Option<Seq<char>> },
    Engine(EngineEventView),
    Publish,
}

impl View for Job {
    type V = JobView;

    closed spec fn view(&self) -> JobView {
        match self {
            Job::Action { action, value } => JobView::Action {
                action: action@,
                value: option_view(*value),
            },
            Job::Engine(e) => JobView::Engine(e@),
            Job::Publish => JobView::Publish,
        }
    }
}

/// The pane's state: its tab title, the page it shows or last tried, whether
/// a page is loading, whether it shows one of its own pages (start or error),
/// the host's theme as JSON, and the work in progress.
pub struct BrowserModel {
    pub title: Seq<char>,
    pub current_url: Option<Seq<char>>,
    pub last_attempt: Option<Seq<char>>,
    pub loading: bool,
    pub showing_local: bool,
    pub theme_json: Seq<char>,
    pub pending: PendingView,
    pub jobs: Seq<JobView>,
}

/// One Browser pane.
pub struct BrowserState {
    title: String,
    current_url: Option<String>,
    last_attempt: Option<String>,
    loading: bool,
    showing_local: bool,
    theme_json: String,
    pending: Pending,
    jobs: Vec<Job>,
}

impl View for BrowserState {
    type V = BrowserModel;

    closed spec fn view(&self) -> BrowserModel {
        BrowserModel {
            title: self.title@,
            current_url: option_view(self.current_url),
            last_attempt: option_view(self.last_attempt),
            loading: self.loading,
            showing_local: self.showing_local,
            theme_json: self.theme_json@,
            pending: self.pending@,
            jobs: self.jobs@.map_values(|j: Job| j@),
        }
    }
}

/// The pane's consistency: a page loads only while the pane shows the web,
/// its own pages have no current address, and an idle pane has no work
/// queued.
pub open spec fn model_wf(m: BrowserModel) -> bool {
    &&& m.loading ==> !m.showing_local
    &&& m.showing_local ==> m.current_url is None
    &&& m.pending is Idle ==> m.jobs.len() == 0
}

pub open spec fn text_or_empty(o: Option<Seq<char>>) -> Seq<char> {
    match o {
        Some(t) => t,
        None => Seq::empty(),
    }
}

/// The address the toolbar shows: the current page, or else the last
/// address tried, or nothing.
pub open spec fn spec_address(m: BrowserModel) -> Seq<char> {
    match m.current_url {
        Some(u) => u,
        None => text_or_empty(m.last_attempt),
    }
}

/// A failure: the pane stops loading, forgets its current address and shows
/// its error page with the message and a Retry for the last address tried.
pub open spec fn spec_fail(m: BrowserModel, message: Seq<char>) -> (BrowserModel, EffectView) {
    (
        BrowserModel {
            loading: false,
            showing_local: true,
            current_url: None,
            pending: PendingView::ErrorPage { message },
            ..m
        },
        EffectView::View(
            ViewCallView::LoadHtml(
                fill_template(m.theme_json, error_body(message, text_or_empty(m.last_attempt))),
            ),
        ),
    )
}

/// Waits for the outcome of `effect`.
pub open spec fn awaiting(m: BrowserModel, pending: PendingView, effect: EffectView) -> (
    BrowserModel,
    EffectView,
) {
    (BrowserModel { pending, ..m }, effect)
}

/// Takes up the next queued job, or ends when there is none.
pub open spec fn spec_next_job(m: BrowserModel) -> (BrowserModel, EffectView)
    decreases m.jobs.len(), 0nat,
{
    if m.jobs.len() == 0 {
        (BrowserModel { pending: PendingView::Idle, ..m }, EffectView::Done)
    } else {
        spec_start_job(
            BrowserModel { pending: PendingView::Idle, jobs: m.jobs.drop_first(), ..m },
            m.jobs[0],
        )
    }
}

pub open spec fn spec_start_job(m: BrowserModel, job: JobView) -> (BrowserModel, EffectView)
    decreases m.jobs.len(), 3nat,
{
    match job {
        JobView::Action { action, value } => spec_start_action(m, action, value),
        JobView::Engine(event) => spec_engine_event(m, event),
        JobView::Publish => awaiting(m, PendingView::Plain, EffectView::Publish),
    }
}

/// What the JSON text of a page message holds: `None` when it is not JSON,
/// and otherwise its `action` and `value` members, each when it is a string.
pub uninterp spec fn json_message_fields(body: Seq<char>) -> Option<
    (Option<Seq<char>>, Option<Seq<char>>),
>;

/// An engine event: page messages are actions; titles, starts, finishes and
/// history update the pane; finished pages and idle history save the address;
/// failures show the error page; downloads are handed off. Addresses that are
/// not HTTP or HTTPS are ignored.
pub open spec fn spec_engine_event(m: BrowserModel, event: EngineEventView) -> (
    BrowserModel,
    EffectView,
)
    decreases m.jobs.len(), 2nat,
{
    match event {
        EngineEventView::Message(body) => match json_message_fields(body) {
            Some((action, value)) => spec_start_action(m, text_or_empty(action), value),
            None => spec_next_job(m),
        },
        EngineEventView::Title(title) => spec_next_job(
            BrowserModel { title: spec_display_title(title), ..m },
        ),
        EngineEventView::Started(url) => if spec_is_http_url(url) {
            spec_next_job(
                BrowserModel {
                    current_url: Some(url),
                    last_attempt: Some(url),
                    loading: true,
                    showing_local: false,
                    ..m
                },
            )
        } else {
            spec_next_job(m)
        },
        EngineEventView::Finished(url) => if spec_is_http_url(url) {
            awaiting(
                BrowserModel {
                    current_url: Some(url),
                    last_attempt: Some(url),
                    loading: false,
                    showing_local: false,
                    ..m
                },
                PendingView::Plain,
                EffectView::Save(url),
            )
        } else {
            spec_next_job(m)
        },
        EngineEventView::History { loading, back, forward } => {
            let m1 = BrowserModel { loading: loading && !m.showing_local, ..m };
            if !loading && m.current_url is Some {
                awaiting(m1, PendingView::Plain, EffectView::Save(m.current_url->0))
            } else {
                spec_next_job(m1)
            }
        },
        EngineEventView::Failed(error) => spec_fail(m, error),
        EngineEventView::Download(url) => if spec_is_http_url(url) {
            awaiting(m, PendingView::Plain, EffectView::OpenExternally(url))
        } else {
            spec_next_job(m)
        },
    }
}

/// An action. Reload on one of the pane's own pages retries the last address.
/// `location` and `navigate` open what was typed (remembering it as the last
/// attempt); `back`, `forward`, `reload`, `stop` and `select-content` call the
/// view; `focus-address` and `focus` move the host's focus. Other actions do
/// nothing.
pub open spec fn spec_start_action(m: BrowserModel, action: Seq<char>, value: Option<Seq<char>>) -> (
    BrowserModel,
    EffectView,
)
    decreases m.jobs.len(), 1nat,
{
    let retrying = action == "reload"@ && m.showing_local;
    let a = if retrying {
        "navigate"@
    } else {
        action
    };
    let v = if retrying {
        Some(text_or_empty(m.last_attempt))
    } else {
        value
    };
    if a == "location"@ || a == "navigate"@ {
        let input = text_or_empty(v);
        let m1 = BrowserModel { last_attempt: Some(input), ..m };
        match spec_resolve_input(input) {
            Ok(url) => awaiting(
                m1,
                PendingView::Loaded { url: url.0 },
                EffectView::View(ViewCallView::LoadUrl(url.0)),
            ),
            Err(error) => spec_fail(m1, error),
        }
    } else if a == "back"@ {
        awaiting(m, PendingView::Plain, EffectView::View(ViewCallView::GoBack))
    } else if a == "forward"@ {
        awaiting(m, PendingView::Plain, EffectView::View(ViewCallView::GoForward))
    } else if a == "reload"@ {
        awaiting(m, PendingView::Plain, EffectView::View(ViewCallView::Reload))
    } else if a == "stop"@ {
        awaiting(
            m,
            PendingView::Stopped,
            EffectView::View(ViewCallView::EvaluateScript("window.stop()"@)),
        )
    } else if a == "focus-address"@ {
        awaiting(
            m,
            PendingView::Plain,
            EffectView::Host(EventView::Focus { control: Some("location"@), select_all: true }),
        )
    } else if a == "focus"@ {
        awaiting(
            m,
            PendingView::Plain,
            EffectView::Host(EventView::Focus { control: None, select_all: false }),
        )
    } else if a == "select-content"@ {
        awaiting(
            m,
            PendingView::Plain,
            EffectView::View(ViewCallView::EvaluateScript(SELECT_PAGE_CONTENT@)),
        )
    } else {
        spec_next_job(m)
    }
}

/// The outcome of the last effect. A loaded address becomes current and the
/// view gets focus; a stop ends loading; a failed view call shows the error
/// page; an error page that cannot be shown is reported to the host.
pub open spec fn spec_resume(m: BrowserModel, outcome: Result<(), Seq<char>>) -> (
    BrowserModel,
    EffectView,
) {
    match m.pending {
        PendingView::Idle => (m, EffectView::Done),
        PendingView::Loaded { url } => match outcome {
            Ok(_) => awaiting(
                BrowserModel {
                    current_url: Some(url),
                    loading: true,
                    showing_local: false,
                    ..m
                },
                PendingView::Plain,
                EffectView::View(ViewCallView::Focus),
            ),
            Err(error) => spec_fail(m, error),
        },
        PendingView::Stopped => match outcome {
            Ok(_) => spec_next_job(BrowserModel { loading: false, ..m }),
            Err(error) => spec_fail(m, error),
        },
        PendingView::Plain => match outcome {
            Ok(_) => spec_next_job(m),
            Err(error) => spec_fail(m, error),
        },
        PendingView::ErrorPage { message } => match outcome {
            Ok(_) => spec_next_job(m),
            Err(_) => awaiting(
                m,
                PendingView::Plain,
                EffectView::Host(EventView::Error { message }),
            ),
        },
    }
}

pub open spec fn outcome_view(outcome: Result<(), String>) -> Result<(), Seq<char>> {
    match outcome {
        Ok(_) => Ok(()),
        Err(e) => Err(e@),
    }
}

/// Calls `serde_json::from_str::<serde_json::Value>` on a page message and
/// reads its `action` and `value` members as strings; the result is named
/// `json_message_fields` of the text.
#[verifier::external_body]
fn message_fields(body: &str) -> (r: Option<(Option<String>, Option<String>)>)
    ensures
        match r {
            Some((a, v)) => json_message_fields(body@) == Some((option_view(a), option_view(v))),
            None => json_message_fields(body@) is None,
        },
{
    let value = serde_json::from_str::<serde_json::Value>(body).ok()?;
    let action = value["action"].as_str().map(str::to_owned);
    let argument = value["value"].as_str().map(str::to_owned);
    Some((action, argument))
}

fn text_or_default(o: Option<String>) -> (r: String)
    ensures
        r@ == text_or_empty(option_view(o)),
{
    match o {
        Some(t) => t,
        None => String::new(),
    }
}

fn copy_option(o: &Option<String>) -> (r: Option<String>)
    ensures
        option_view(r) == option_view(*o),
{
    match o {
        Some(t) => Some(t.clone()),
        None => None,
    }
}

impl BrowserState {
    /// Whether the pane is consistent.
    pub open spec fn wf(&self) -> bool {
        model_wf(self@)
    }

    /// A new pane that restores `saved`, its last address, if it has one, and
    /// otherwise shows its start page.
    pub fn new(saved: Option<String>, theme_json: String) -> (r: BrowserState)
        ensures
            r.wf(),
            r@ == (BrowserModel {
                title: "Browser"@,
                current_url: option_view(saved),
                last_attempt: option_view(saved),
                loading: saved is Some,
                showing_local: saved is None,
                theme_json: theme_json@,
                pending: PendingView::Idle,
                jobs: Seq::empty(),
            }),
    {
        let loading = saved.is_some();
        let last = copy_option(&saved);
        let r = BrowserState {
            title: owned("Browser"),
            current_url: saved,
            last_attempt: last,
            loading,
            showing_local: !loading,
            theme_json,
            pending: Pending::Idle,
            jobs: Vec::new(),
        };
        assert(r@.jobs =~= Seq::<JobView>::empty());
        r
    }

    /// Whether no request is in progress.
    pub fn is_idle(&self) -> (r: bool)
        ensures
            r == (self@.pending is Idle),
    {
        match self.pending {
            Pending::Idle => true,
            _ => false,
        }
    }

    /// Whether the pane shows one of its own pages.
    pub fn showing_local(&self) -> (r: bool)
        ensures
            r == self@.showing_local,
    {
        self.showing_local
    }

    /// The address the toolbar shows.
    pub fn address(&self) -> (r: &str)
        ensures
            r@ == spec_address(self@),
    {
        proof {
            reveal_strlit("");
        }
        match &self.current_url {
            Some(u) => u.as_str(),
            None => match &self.last_attempt {
                Some(a) => a.as_str(),
                None => "",
            },
        }
    }

    fn fail(&mut self, message: String) -> (r: Effect)
        ensures
            (final(self)@, r@) == spec_fail(old(self)@, message@),
    {
        self.loading = false;
        self.showing_local = true;
        self.current_url = None;
        let page = match &self.last_attempt {
            Some(a) => local_page(
                self.theme_json.as_str(),
                LocalPage::Error { message: message.as_str(), retry: a.as_str() },
            ),
            None => local_page(
                self.theme_json.as_str(),
                LocalPage::Error { message: message.as_str(), retry: "" },
            ),
        };
        proof {
            reveal_strlit("");
        }
        self.pending = Pending::ErrorPage { message };
        Effect::View(ViewCall::LoadHtml(page))
    }

    fn next_job(&mut self) -> (r: Effect)
        ensures
            (final(self)@, r@) == spec_next_job(old(self)@),
        decreases old(self)@.jobs.len(), 0nat,
    {
        self.pending = Pending::Idle;
        if self.jobs.len() == 0 {
            return Effect::Done;
        }
        let ghost before = self@;
        let job = self.jobs.remove(0);
        assert(self@.jobs =~= before.jobs.drop_first());
        self.start_job(job)
    }

    fn start_job(&mut self, job: Job) -> (r: Effect)
        ensures
            (final(self)@, r@) == spec_start_job(old(self)@, job@),
        decreases old(self)@.jobs.len(), 3nat,
    {
        match job {
            Job::Action { action, value } => self.start_action(action, value),
            Job::Engine(event) => self.engine_event(event),
            Job::Publish => {
                self.pending = Pending::Plain;
                Effect::Publish
            },
        }
    }

    fn engine_event(&mut self, event: EngineEvent) -> (r: Effect)
        ensures
            (final(self)@, r@) == spec_engine_event(old(self)@, event@),
        decreases old(self)@.jobs.len(), 2nat,
    {
        match event {
            EngineEvent::Message(body) => match message_fields(body.as_str()) {
                Some((action, value)) => self.start_action(text_or_default(action), value),
                None => self.next_job(),
            },
            EngineEvent::Title(title) => {
                self.title = display_title(title.as_str());
                self.next_job()
            },
            EngineEvent::Started(url) => {
                if is_http_url(url.as_str()) {
                    self.current_url = Some(url.clone());
                    self.last_attempt = Some(url);
                    self.loading = true;
                    self.showing_local = false;
                }
                self.next_job()
            },
            EngineEvent::Finished(url) => {
                if is_http_url(url.as_str()) {
                    self.current_url = Some(url.clone());
                    self.last_attempt = Some(url.clone());
                    self.loading = false;
                    self.showing_local = false;
                    self.pending = Pending::Plain;
                    Effect::Save(url)
                } else {
                    self.next_job()
                }
            },
            EngineEvent::History { loading, back, forward } => {
                self.loading = loading && !self.showing_local;
                if !loading {
                    match &self.current_url {
                        Some(u) => {
                            let u = u.clone();
                            self.pending = Pending::Plain;
                            return Effect::Save(u);
                        },
                        None => {},
                    }
                }
                self.next_job()
            },
            EngineEvent::Failed(error) => self.fail(error),
            EngineEvent::Download(url) => {
                if is_http_url(url.as_str()) {
                    self.pending = Pending::Plain;
                    Effect::OpenExternally(url)
                } else {
                    self.next_job()
                }
            },
        }
    }

    fn start_action(&mut self, action: String, value: Option<String>) -> (r: Effect)
        ensures
            (final(self)@, r@) == spec_start_action(
                old(self)@,
                action@,
                option_view(value),
            ),
        decreases old(self)@.jobs.len(), 1nat,
    {
        let retrying = same_text(action.as_str(), "reload") && self.showing_local;
        let (a, v) = if retrying {
            let retry = match &self.last_attempt {
                Some(t) => t.clone(),
                None => String::new(),
            };
            (owned("navigate"), Some(retry))
        } else {
            (action, value)
        };
        let a = a.as_str();
        if same_text(a, "location") || same_text(a, "navigate") {
            let input = text_or_default(v);
            let result = resolve_input(input.as_str());
            self.last_attempt = Some(input);
            match result {
                Ok(url) => {
                    let target = owned(url.as_str());
                    self.pending = Pending::Loaded { url: target.clone() };
                    Effect::View(ViewCall::LoadUrl(target))
                },
                Err(error) => self.fail(error),
            }
        } else if same_text(a, "back") {
            self.pending = Pending::Plain;
            Effect::View(ViewCall::GoBack)
        } else if same_text(a, "forward") {
            self.pending = Pending::Plain;
            Effect::View(ViewCall::GoForward)
        } else if same_text(a, "reload") {
            self.pending = Pending::Plain;
            Effect::View(ViewCall::Reload)
        } else if same_text(a, "stop") {
            self.pending = Pending::Stopped;
            Effect::View(ViewCall::EvaluateScript(owned("window.stop()")))
        } else if same_text(a, "focus-address") {
            self.pending = Pending::Plain;
            Effect::Host(Event::Focus { control: Some(owned("location")), select_all: true })
        } else if same_text(a, "focus") {
            self.pending = Pending::Plain;
            Effect::Host(Event::Focus { control: None, select_all: false })
        } else if same_text(a, "select-content") {
            self.pending = Pending::Plain;
            Effect::View(ViewCall::EvaluateScript(owned(SELECT_PAGE_CONTENT)))
        } else {
            self.next_job()
        }
    }

    /// Handles the engine's queued events, then publishes the pane's state.
    /// Nothing happens when there are no events.
    pub fn poll(&mut self, events: Vec<EngineEvent>) -> (r: Effect)
        requires
            old(self).wf(),
            old(self)@.pending is Idle,
        ensures
            (final(self)@, r@) == spec_poll(old(self)@, events@.map_values(|e: EngineEvent| e@)),
            final(self).wf(),
    {
        let ghost start = self@;
        let ghost evs = events@.map_values(|e: EngineEvent| e@);
        if events.len() == 0 {
            return Effect::Done;
        }
        let mut queued = events;
        let mut jobs: Vec<Job> = Vec::new();
        let n = queued.len();
        let mut i: usize = 0;
        while queued.len() > 0
            invariant
                i + queued@.len() == n,
                n == evs.len(),
                jobs@.len() == i,
                forall|k: int| 0 <= k < i ==> (#[trigger] jobs@[k])@ == JobView::Engine(evs[k]),
                forall|k: int| 0 <= k < queued@.len() ==> (#[trigger] queued@[k])@ == evs[i + k],
            decreases queued@.len(),
        {
            let ghost before = queued@;
            let event = queued.remove(0);
            assert(event@ == evs[i as int]) by {
                assert(before[0] == event);
            }
            assert forall|k: int| 0 <= k < queued@.len() implies (#[trigger] queued@[k])@ == evs[i
                + 1 + k] by {
                assert(queued@[k] == before[k + 1]);
            }
            jobs.push(Job::Engine(event));
            i = i + 1;
        }
        jobs.push(Job::Publish);
        self.jobs = jobs;
        assert(self@.jobs =~= queued_jobs(evs));
        assert(self@ == BrowserModel { jobs: queued_jobs(evs), ..start });
        let r = self.next_job();
        proof {
            lemma_next_job_settled(BrowserModel { jobs: queued_jobs(evs), ..start });
        }
        r
    }

    /// Handles a toolbar action (`id`, with the text of a text input as
    /// `value`), then publishes the pane's state.
    pub fn act(&mut self, id: &str, value: Option<&str>) -> (r: Effect)
        requires
            old(self).wf(),
            old(self)@.pending is Idle,
        ensures
            (final(self)@, r@) == spec_act(old(self)@, id@, str_option_view(value)),
            final(self).wf(),
    {
        let ghost start = self@;
        let v = match value {
            Some(t) => Some(owned(t)),
            None => None,
        };
        self.jobs.push(Job::Action { action: owned(id), value: v });
        self.jobs.push(Job::Publish);
        assert(self@.jobs =~= seq![
            JobView::Action { action: id@, value: str_option_view(value) },
            JobView::Publish,
        ]);
        assert(self@ == BrowserModel {
            jobs: seq![
                JobView::Action { action: id@, value: str_option_view(value) },
                JobView::Publish,
            ],
            ..start
        });
        let r = self.next_job();
        proof {
            lemma_next_job_settled(BrowserModel {
                jobs: seq![
                    JobView::Action { action: id@, value: str_option_view(value) },
                    JobView::Publish,
                ],
                ..start
            });
        }
        r
    }

    /// Continues after the last effect, with the outcome of its view call
    /// (other effects always resume with `Ok`).
    pub fn resume(&mut self, outcome: Result<(), String>) -> (r: Effect)
        requires
            old(self).wf(),
        ensures
            (final(self)@, r@) == spec_resume(old(self)@, outcome_view(outcome)),
            final(self).wf(),
    {
        let ghost start = self@;
        proof {
            lemma_resume_settled(start, outcome_view(outcome));
        }
        let mut pending = Pending::Idle;
        std::mem::swap(&mut pending, &mut self.pending);
        match pending {
            Pending::Idle => Effect::Done,
            Pending::Loaded { url } => match outcome {
                Ok(_) => {
                    self.current_url = Some(url);
                    self.loading = true;
                    self.showing_local = false;
                    self.pending = Pending::Plain;
                    Effect::View(ViewCall::Focus)
                },
                Err(error) => {
                    self.pending = Pending::Loaded { url };
                    self.fail(error)
                },
            },
            Pending::Stopped => match outcome {
                Ok(_) => {
                    self.loading = false;
                    self.next_job()
                },
                Err(error) => self.fail(error),
            },
            Pending::Plain => match outcome {
                Ok(_) => self.next_job(),
                Err(error) => self.fail(error),
            },
            Pending::ErrorPage { message } => match outcome {
                Ok(_) => self.next_job(),
                Err(_) => {
                    self.pending = Pending::Plain;
                    Effect::Host(Event::Error { message })
                },
            },
        }
    }

    /// The script that restyles the pane's own page for a new theme, needed
    /// only while one is shown.
    pub fn theme_script(&self, theme_json: &str) -> (r: Option<String>)
        ensures
            match r {
                Some(script) => self@.showing_local && script@ == "window.setTheme("@
                    + theme_json@ + ")"@,
                None => !self@.showing_local,
            },
    {
        if self.showing_local {
            let mut script = owned("window.setTheme(");
            script.push_str(theme_json);
            script.push_str(")");
            Some(script)
        } else {
            None
        }
    }

    /// Keeps the host's new theme for the pane's own pages.
    pub fn set_theme(&mut self, theme_json: String)
        requires
            old(self).wf(),
        ensures
            final(self)@ == (BrowserModel { theme_json: theme_json@, ..old(self)@ }),
            final(self).wf(),
    {
        self.theme_json = theme_json;
    }

    /// The pane's state for the host: its title, the toolbar (Back, Forward,
    /// Stop while loading or else Reload, and the address field with a lock
    /// for HTTPS) and the platform's shortcuts.
    pub fn state_event(&self, can_go_back: bool, can_go_forward: bool, platform: Platform) -> (r:
        Event)
        ensures
            r@ == (EventView::State {
                title: self@.title,
                controls: spec_controls(self@, can_go_back, can_go_forward),
                shortcuts: spec_shortcuts(platform),
            }),
    {
        let mut controls: Vec<Control> = Vec::new();
        controls.push(button("back", "Back", "arrow_left", can_go_back));
        controls.push(button("forward", "Forward", "arrow_right", can_go_forward));
        if self.loading {
            controls.push(button("stop", "Stop", "stop", true));
        } else {
            controls.push(button("reload", "Reload", "rotate_cw", true));
        }
        let address = self.address();
        let chars = chars_of(address);
        let secure = starts_with(chars.as_slice(), "https://");
        let icon = if secure {
            icon_path("lock")
        } else {
            icon_path("public")
        };
        controls.push(
            Control {
                id: owned("location"),
                label: owned("Enter a URL or search"),
                icon: Some(icon),
                enabled: true,
                value: Some(owned(address)),
            },
        );
        let keys = shortcut_keys(platform);
        proof {
            assert forall|k: int| 0 <= k < keys@.len() implies shortcut_view(keys@[k].0@, keys@[k].1@) == #[trigger] spec_shortcuts(platform)[k] by {
                assert(keys@.map_values(|k: (&str, &str)| shortcut_view(k.0@, k.1@))[k] == shortcut_view(keys@[k].0@, keys@[k].1@));
            }
        }
        let mut shortcuts: Vec<Shortcut> = Vec::new();
        let ghost wanted = spec_shortcuts(platform);
        let mut i: usize = 0;
        while i < keys.len()
            invariant
                i <= keys@.len(),
                keys@.len() == wanted.len(),
                forall|k: int| 0 <= k < keys@.len() ==> shortcut_view(keys@[k].0@, keys@[k].1@) == #[trigger] wanted[k],
                shortcuts@.len() == i,
                forall|k: int| 0 <= k < i ==> (#[trigger] shortcuts@[k])@ == wanted[k],
            decreases keys@.len() - i,
        {
            let (key, action) = keys[i];
            shortcuts.push(
                Shortcut {
                    key: owned(key),
                    action: owned(action),
                    content_only: same_text(action, "select-content"),
                },
            );
            i = i + 1;
        }
        let r = Event::State { title: self.title.clone(), controls, shortcuts };
        assert(r@ == (EventView::State {
            title: self@.title,
            controls: spec_controls(self@, can_go_back, can_go_forward),
            shortcuts: spec_shortcuts(platform),
        })) by {
            assert(controls@.map_values(|c: Control| c@) =~= spec_controls(
                self@,
                can_go_back,
                can_go_forward,
            ));
            assert(shortcuts@.map_values(|s: Shortcut| s@) =~= spec_shortcuts(platform));
        }
        r
    }
}

/// The jobs of a poll: each event, then publishing the state.
pub open spec fn queued_jobs(events: Seq<EngineEventView>) -> Seq<JobView> {
    events.map_values(|e: EngineEventView| JobView::Engine(e)).push(JobView::Publish)
}

/// A poll: nothing without events; otherwise each event in turn, then the
/// pane's state is published.
pub open spec fn spec_poll(m: BrowserModel, events: Seq<EngineEventView>) -> (
    BrowserModel,
    EffectView,
) {
    if events.len() == 0 {
        (m, EffectView::Done)
    } else {
        spec_next_job(BrowserModel { jobs: queued_jobs(events), ..m })
    }
}

/// A toolbar action, then the pane's state is published.
pub open spec fn spec_act(m: BrowserModel, id: Seq<char>, value: Option<Seq<char>>) -> (
    BrowserModel,
    EffectView,
) {
    spec_next_job(
        BrowserModel {
            jobs: seq![JobView::Action { action: id, value }, JobView::Publish],
            ..m
        },
    )
}

/// `icons/{name}.svg`.
pub open spec fn spec_icon(name: Seq<char>) -> Seq<char> {
    "icons/"@ + name + ".svg"@
}

fn icon_path(name: &str) -> (r: String)
    ensures
        r@ == spec_icon(name@),
{
    let mut path = owned("icons/");
    path.push_str(name);
    path.push_str(".svg");
    path
}

/// A toolbar button.
pub open spec fn spec_button(id: Seq<char>, label: Seq<char>, icon: Seq<char>, enabled: bool) -> ControlView {
    ControlView { id, label, icon: Some(spec_icon(icon)), enabled, value: None }
}

fn button(id: &str, label: &str, icon: &str, enabled: bool) -> (r: Control)
    ensures
        r@ == spec_button(id@, label@, icon@, enabled),
{
    Control { id: owned(id), label: owned(label), icon: Some(icon_path(icon)), enabled, value: None }
}

/// The toolbar: Back and Forward as the view's history allows, Stop while a
/// page loads and Reload otherwise, and the address field, marked with a
/// lock when the address is HTTPS.
pub open spec fn spec_controls(m: BrowserModel, can_go_back: bool, can_go_forward: bool) -> Seq<ControlView> {
    let address = spec_address(m);
    seq![
        spec_button("back"@, "Back"@, "arrow_left"@, can_go_back),
        spec_button("forward"@, "Forward"@, "arrow_right"@, can_go_forward),
        if m.loading {
            spec_button("stop"@, "Stop"@, "stop"@, true)
        } else {
            spec_button("reload"@, "Reload"@, "rotate_cw"@, true)
        },
        ControlView {
            id: "location"@,
            label: "Enter a URL or search"@,
            icon: Some(spec_icon(if has_prefix(address, "https://"@) { "lock"@ } else { "public"@ })),
            enabled: true,
            value: Some(address),
        },
    ]
}

/// A shortcut; only selecting the page's content is limited to the content.
pub open spec fn shortcut_view(key: Seq<char>, action: Seq<char>) -> ShortcutView {
    ShortcutView { key, action, content_only: action == "select-content"@ }
}

/// The keyboard shortcuts: Cmd on macOS (with Cmd+A selecting the page's
/// content), Ctrl and Alt elsewhere.
pub open spec fn spec_shortcuts(platform: Platform) -> Seq<ShortcutView> {
    match platform {
        Platform::MacOs => seq![
            shortcut_view("cmd-l"@, "focus-address"@),
            shortcut_view("cmd-r"@, "reload"@),
            shortcut_view("cmd-["@, "back"@),
            shortcut_view("cmd-]"@, "forward"@),
            shortcut_view("escape"@, "stop"@),
            shortcut_view("cmd-a"@, "select-content"@),
        ],
        Platform::Other => seq![
            shortcut_view("ctrl-l"@, "focus-address"@),
            shortcut_view("ctrl-r"@, "reload"@),
            shortcut_view("alt-left"@, "back"@),
            shortcut_view("alt-right"@, "forward"@),
            shortcut_view("escape"@, "stop"@),
        ],
    }
}

fn shortcut_keys(platform: Platform) -> (r: Vec<(&'static str, &'static str)>)
    ensures
        r@.map_values(|k: (&str, &str)| shortcut_view(k.0@, k.1@)) == spec_shortcuts(platform),
{
    let r = match platform {
        Platform::MacOs => vec![
            ("cmd-l", "focus-address"),
            ("cmd-r", "reload"),
            ("cmd-[", "back"),
            ("cmd-]", "forward"),
            ("escape", "stop"),
            ("cmd-a", "select-content"),
        ],
        Platform::Other => vec![
            ("ctrl-l", "focus-address"),
            ("ctrl-r", "reload"),
            ("alt-left", "back"),
            ("alt-right", "forward"),
            ("escape", "stop"),
        ],
    };
    assert(r@.map_values(|k: (&str, &str)| shortcut_view(k.0@, k.1@)) =~= spec_shortcuts(platform));
    r
}

/// The pane's invariant, outside the queue: loading only on the web, and no
/// current address on the pane's own pages.
pub open spec fn core_wf(m: BrowserModel) -> bool {
    &&& m.loading ==> !m.showing_local
    &&& m.showing_local ==> m.current_url is None
}

/// A step's result: a consistent pane that is idle exactly when the step is
/// done, with no work queued when idle.
pub open spec fn settled(r: (BrowserModel, EffectView)) -> bool {
    &&& core_wf(r.0)
    &&& (r.1 is Done <==> r.0.pending is Idle)
    &&& r.0.pending is Idle ==> r.0.jobs.len() == 0
}

proof fn lemma_next_job_settled(m: BrowserModel)
    requires
        core_wf(m),
    ensures
        settled(spec_next_job(m)),
    decreases m.jobs.len(), 0nat,
{
    if m.jobs.len() > 0 {
        lemma_start_job_settled(
            BrowserModel { pending: PendingView::Idle, jobs: m.jobs.drop_first(), ..m },
            m.jobs[0],
        );
    }
}

proof fn lemma_start_job_settled(m: BrowserModel, job: JobView)
    requires
        core_wf(m),
    ensures
        settled(spec_start_job(m, job)),
    decreases m.jobs.len(), 3nat,
{
    match job {
        JobView::Action { action, value } => lemma_start_action_settled(m, action, value),
        JobView::Engine(event) => lemma_engine_event_settled(m, event),
        JobView::Publish => {},
    }
}

proof fn lemma_engine_event_settled(m: BrowserModel, event: EngineEventView)
    requires
        core_wf(m),
    ensures
        settled(spec_engine_event(m, event)),
    decreases m.jobs.len(), 2nat,
{
    match event {
        EngineEventView::Message(body) => match json_message_fields(body) {
            Some((action, value)) => lemma_start_action_settled(m, text_or_empty(action), value),
            None => lemma_next_job_settled(m),
        },
        EngineEventView::Title(title) => lemma_next_job_settled(
            BrowserModel { title: spec_display_title(title), ..m },
        ),
        EngineEventView::Started(url) => {
            lemma_next_job_settled(
                BrowserModel {
                    current_url: Some(url),
                    last_attempt: Some(url),
                    loading: true,
                    showing_local: false,
                    ..m
                },
            );
            lemma_next_job_settled(m);
        },
        EngineEventView::Finished(url) => lemma_next_job_settled(m),
        EngineEventView::History { loading, back, forward } => lemma_next_job_settled(
            BrowserModel { loading: loading && !m.showing_local, ..m },
        ),
        EngineEventView::Failed(error) => {},
        EngineEventView::Download(url) => lemma_next_job_settled(m),
    }
}

proof fn lemma_start_action_settled(m: BrowserModel, action: Seq<char>, value: Option<Seq<char>>)
    requires
        core_wf(m),
    ensures
        settled(spec_start_action(m, action, value)),
    decreases m.jobs.len(), 1nat,
{
    lemma_next_job_settled(m);
}

proof fn lemma_resume_settled(m: BrowserModel, outcome: Result<(), Seq<char>>)
    requires
        model_wf(m),
    ensures
        settled(spec_resume(m, outcome)),
{
    match m.pending {
        PendingView::Stopped => lemma_next_job_settled(BrowserModel { loading: false, ..m }),
        _ => lemma_next_job_settled(m),
    }
}

/// Accepts the host's creation request when it speaks this interface version
/// and its request structure has at least the size this plugin reads.
pub fn check_create(abi: u32, size: u32, required_size: u32) -> (r: Result<(), String>)
    ensures
        r is Ok <==> (abi == ABI_VERSION && size >= required_size),
        r matches Err(e) ==> e@ == "Unsupported native plugin interface"@,
{
    if abi != ABI_VERSION || size < required_size {
        Err(owned("Unsupported native plugin interface"))
    } else {
        Ok(())
    }
}

/// The X11 window that a pane is embedded in: the parent must be an X11
/// window, and its id must fit in 32 bits.
pub fn check_parent(kind: u32, parent: usize) -> (r: Result<u32, String>)
    ensures
        kind != PARENT_X11 ==> (r matches Err(e) && e@
            == "Browser requires an X11 or XWayland parent"@),
        kind == PARENT_X11 && parent > u32::MAX ==> (r matches Err(e) && e@
            == "out of range integral type conversion attempted"@),
        kind == PARENT_X11 && parent <= u32::MAX ==> r == Ok::<u32, String>(parent as u32),
{
    if kind != PARENT_X11 {
        return Err(owned("Browser requires an X11 or XWayland parent"));
    }
    if parent > u32::MAX as usize {
        return Err(owned("out of range integral type conversion attempted"));
    }
    Ok(parent as u32)
}

proof fn lemma_action_words_differ()
    ensures
        "navigate"@ != "reload"@,
        "location"@ != "reload"@,
        "stop"@ != "reload"@,
        "stop"@ != "location"@,
        "stop"@ != "navigate"@,
        "stop"@ != "back"@,
        "stop"@ != "forward"@,
        "reload"@ != "back"@,
        "reload"@ != "forward"@,
        "reload"@ != "location"@,
        "reload"@ != "navigate"@,
{
    reveal_strlit("navigate");
    reveal_strlit("reload");
    reveal_strlit("location");
    reveal_strlit("stop");
    reveal_strlit("back");
    reveal_strlit("forward");
    assert("navigate"@.len() != "reload"@.len());
    assert("location"@.len() != "reload"@.len());
    assert("stop"@.len() != "reload"@.len());
    assert("stop"@.len() != "location"@.len());
    assert("stop"@.len() != "navigate"@.len());
    assert("stop"@[0] != "back"@[0]);
    assert("stop"@.len() != "forward"@.len());
    assert("reload"@.len() != "back"@.len());
    assert("reload"@[0] != "forward"@[0]);
    assert("reload"@.len() != "location"@.len());
    assert("reload"@.len() != "navigate"@.len());
}

/// Opening an address that resolves: the view is sent the resolved URL, and
/// once it accepts, that URL is the toolbar's address, the page is loading,
/// the typed text is the last attempt, and the view gets focus.
pub proof fn lemma_navigation_shows_the_resolved_address(m: BrowserModel, input: Seq<char>)
    requires
        model_wf(m),
        m.pending is Idle,
        spec_resolve_input(input) is Ok,
    ensures
        ({
            let url = spec_resolve_input(input)->Ok_0.0;
            let (m1, e1) = spec_act(m, "navigate"@, Some(input));
            let (m2, e2) = spec_resume(m1, Ok(()));
            &&& e1 == EffectView::View(ViewCallView::LoadUrl(url))
            &&& e2 == EffectView::View(ViewCallView::Focus)
            &&& spec_address(m2) == url
            &&& m2.loading
            &&& !m2.showing_local
            &&& m2.last_attempt == Some(input)
        }),
{
    lemma_action_words_differ();
}

/// Typed text that does not resolve shows the error page with the reason,
/// with a Retry for what was typed, and the pane forgets its current page.
pub proof fn lemma_unresolved_input_shows_the_error_page(m: BrowserModel, input: Seq<char>)
    requires
        model_wf(m),
        m.pending is Idle,
        spec_resolve_input(input) is Err,
    ensures
        ({
            let reason = spec_resolve_input(input)->Err_0;
            let (m1, e1) = spec_act(m, "navigate"@, Some(input));
            &&& e1 == EffectView::View(
                ViewCallView::LoadHtml(fill_template(m.theme_json, error_body(reason, input))),
            )
            &&& m1.showing_local
            &&& !m1.loading
            &&& m1.current_url is None
            &&& m1.last_attempt == Some(input)
        }),
{
    lemma_action_words_differ();
}

/// Reload on one of the pane's own pages (start or error page) retries the
/// last address tried.
pub proof fn lemma_reload_on_local_page_retries(m: BrowserModel, value: Option<Seq<char>>)
    requires
        model_wf(m),
        m.pending is Idle,
        m.showing_local,
    ensures
        spec_act(m, "reload"@, value) == spec_act(m, "navigate"@, Some(text_or_empty(m.last_attempt))),
{
    lemma_action_words_differ();
    let a = JobView::Action { action: "reload"@, value };
    let b = JobView::Action { action: "navigate"@, value: Some(text_or_empty(m.last_attempt)) };
    assert(seq![a, JobView::Publish].drop_first() =~= seq![JobView::Publish]);
    assert(seq![b, JobView::Publish].drop_first() =~= seq![JobView::Publish]);
}

/// Stop asks the page to stop; once it has, the pane is no longer loading and
/// its state is published (so the toolbar offers Reload again).
pub proof fn lemma_stop_ends_loading(m: BrowserModel, value: Option<Seq<char>>)
    requires
        model_wf(m),
        m.pending is Idle,
        !m.showing_local,
    ensures
        ({
            let (m1, e1) = spec_act(m, "stop"@, value);
            let (m2, e2) = spec_resume(m1, Ok(()));
            &&& e1 == EffectView::View(ViewCallView::EvaluateScript("window.stop()"@))
            &&& e2 == EffectView::Publish
            &&& !m2.loading
        }),
{
    lemma_action_words_differ();
    let (m1, e1) = spec_act(m, "stop"@, value);
    assert(m1.jobs == seq![JobView::Publish]);
}

/// When the engine reports a failure (such as a crashed renderer), the pane
/// shows its error page with the reason and a Retry for the last address.
pub proof fn lemma_engine_failure_shows_retry_page(m: BrowserModel, reason: Seq<char>)
    requires
        model_wf(m),
        m.pending is Idle,
    ensures
        ({
            let (m1, e1) = spec_poll(m, seq![EngineEventView::Failed(reason)]);
            &&& e1 == EffectView::View(
                ViewCallView::LoadHtml(
                    fill_template(m.theme_json, error_body(reason, text_or_empty(m.last_attempt))),
                ),
            )
            &&& m1.showing_local
            &&& !m1.loading
        }),
{
    let evs = seq![EngineEventView::Failed(reason)];
    let jobs = queued_jobs(evs);
    assert(jobs[0] == JobView::Engine(EngineEventView::Failed(reason)));
}

/// A page that finishes loading is saved, and what was saved restores it:
/// reading the state file back gives the same address, which a new pane then
/// shows (see `BrowserState::new`).
pub proof fn lemma_finished_page_is_restored(m: BrowserModel, url: Seq<char>)
    requires
        model_wf(m),
        m.pending is Idle,
        spec_is_http_url(url),
        trim(url) == url,
    ensures
        ({
            let (m1, e1) = spec_poll(m, seq![EngineEventView::Finished(url)]);
            &&& e1 == EffectView::Save(url)
            &&& spec_address(m1) == url
            &&& !m1.loading
            &&& spec_saved_url(url) == Some(url)
        }),
{
    let evs = seq![EngineEventView::Finished(url)];
    let jobs = queued_jobs(evs);
    assert(jobs[0] == JobView::Engine(EngineEventView::Finished(url)));
}

/// Whether `url` parses with the scheme `http` or `https`.
pub open spec fn parses_as_web_page(url: Seq<char>) -> bool {
    url_parse(url) matches Some(p) && (p.1 == "http"@ || p.1 == "https"@)
}

/// Pages that do not parse as HTTP or HTTPS (such as the `data:` URL of the
/// pane's own start or error page) never move the pane: a start, a finish or
/// a download of one is ignored, and after a poll of a start or finish the
/// pane keeps its address, last attempt, loading flag and local page, and
/// only publishes its state.
pub proof fn lemma_non_web_pages_are_ignored(m: BrowserModel, url: Seq<char>)
    requires
        !parses_as_web_page(url),
    ensures
        spec_engine_event(m, EngineEventView::Started(url)) == spec_next_job(m),
        spec_engine_event(m, EngineEventView::Finished(url)) == spec_next_job(m),
        spec_engine_event(m, EngineEventView::Download(url)) == spec_next_job(m),
        model_wf(m) && m.pending is Idle ==> ({
            let (m1, e1) = spec_poll(m, seq![EngineEventView::Started(url)]);
            let (m2, e2) = spec_poll(m, seq![EngineEventView::Finished(url)]);
            &&& e1 == EffectView::Publish && e2 == EffectView::Publish
            &&& m1.current_url == m.current_url && m2.current_url == m.current_url
            &&& m1.last_attempt == m.last_attempt && m2.last_attempt == m.last_attempt
            &&& m1.loading == m.loading && m2.loading == m.loading
            &&& m1.showing_local == m.showing_local && m2.showing_local == m.showing_local
            &&& spec_address(m1) == spec_address(m)
        }),
{
    reveal_strlit("http");
    reveal_strlit("https");
    if model_wf(m) && m.pending is Idle {
        lemma_single_event_poll(m, EngineEventView::Started(url));
        lemma_single_event_poll(m, EngineEventView::Finished(url));
        let j = seq![JobView::Publish];
        let m1 = BrowserModel { pending: PendingView::Idle, jobs: j, ..m };
        let m2 = BrowserModel { pending: PendingView::Idle, jobs: j.drop_first(), ..m1 };
        assert(spec_next_job(m1) == spec_start_job(m2, JobView::Publish));
    }
}

/// Polling one event runs that event's handling with only the final
/// publishing left in the queue.
proof fn lemma_single_event_poll(m: BrowserModel, event: EngineEventView)
    ensures
        spec_poll(m, seq![event]) == spec_engine_event(
            BrowserModel { pending: PendingView::Idle, jobs: seq![JobView::Publish], ..m },
            event,
        ),
{
    let j = queued_jobs(seq![event]);
    assert(j =~= seq![JobView::Engine(event), JobView::Publish]);
    assert(j.drop_first() =~= seq![JobView::Publish]);
    let m0 = BrowserModel { jobs: j, ..m };
    let m1 = BrowserModel { pending: PendingView::Idle, jobs: j.drop_first(), ..m0 };
    assert(spec_next_job(m0) == spec_start_job(m1, j[0]));
    assert(m1 == BrowserModel { pending: PendingView::Idle, jobs: seq![JobView::Publish], ..m });
}

/// A web page that starts loading becomes the pane's address and last
/// attempt, and the pane shows it loading.
pub proof fn lemma_web_page_start_is_shown(m: BrowserModel, url: Seq<char>)
    requires
        parses_as_web_page(url),
        model_wf(m),
        m.pending is Idle,
    ensures
        ({
            let (m1, e1) = spec_poll(m, seq![EngineEventView::Started(url)]);
            &&& e1 == EffectView::Publish
            &&& spec_address(m1) == url
            &&& m1.last_attempt == Some(url)
            &&& m1.loading
            &&& !m1.showing_local
        }),
{
    reveal_strlit("http");
    reveal_strlit("https");
    lemma_single_event_poll(m, EngineEventView::Started(url));
    let m1 = BrowserModel {
        pending: PendingView::Idle,
        jobs: seq![JobView::Publish],
        current_url: Some(url),
        last_attempt: Some(url),
        loading: true,
        showing_local: false,
        ..m
    };
    let m2 = BrowserModel { pending: PendingView::Idle, jobs: seq![JobView::Publish].drop_first(), ..m1 };
    assert(spec_next_job(m1) == spec_start_job(m2, JobView::Publish));
}

/// The toolbar follows its inputs: Back is enabled exactly when the view can
/// go back and Forward exactly when it can go forward; the third button is
/// Stop while a page loads and Reload otherwise, always enabled; the address
/// field shows the pane's address, with a lock exactly for HTTPS.
pub proof fn lemma_toolbar_follows_history_and_loading(
    m: BrowserModel,
    can_go_back: bool,
    can_go_forward: bool,
)
    ensures
        ({
            let c = spec_controls(m, can_go_back, can_go_forward);
            &&& c.len() == 4
            &&& c[0].id == "back"@ && c[0].enabled == can_go_back
            &&& c[1].id == "forward"@ && c[1].enabled == can_go_forward
            &&& c[2].id == (if m.loading { "stop"@ } else { "reload"@ }) && c[2].enabled
            &&& c[3].id == "location"@ && c[3].enabled
            &&& c[3].value == Some(spec_address(m))
            &&& c[3].icon == Some(spec_icon(
                if has_prefix(spec_address(m), "https://"@) { "lock"@ } else { "public"@ },
            ))
        }),
{
}

/// The key event that a Linux shortcut name stands for: its modifier flags
/// and its Windows virtual key code, as the engine reports them.
pub open spec fn linux_key_event(key: Seq<char>) -> (u32, i32) {
    if key == "ctrl-l"@ {
        (EVENTFLAG_CONTROL_DOWN, 0x4c)
    } else if key == "ctrl-r"@ {
        (EVENTFLAG_CONTROL_DOWN, 0x52)
    } else if key == "alt-left"@ {
        (EVENTFLAG_ALT_DOWN, 0x25)
    } else if key == "alt-right"@ {
        (EVENTFLAG_ALT_DOWN, 0x27)
    } else if key == "escape"@ {
        (0, 0x1b)
    } else {
        (0, 0)
    }
}

/// The macOS key for a Linux shortcut key: Cmd for Ctrl, and Cmd+[ and
/// Cmd+] for Alt+Left and Alt+Right.
pub open spec fn mac_key(key: Seq<char>) -> Seq<char> {
    if key == "ctrl-l"@ {
        "cmd-l"@
    } else if key == "ctrl-r"@ {
        "cmd-r"@
    } else if key == "alt-left"@ {
        "cmd-["@
    } else if key == "alt-right"@ {
        "cmd-]"@
    } else {
        key
    }
}

/// The shortcuts the pane publishes agree with the engine's key routing:
/// pressing each published Linux shortcut routes to the action the toolbar
/// declares for it (Alt+Left goes back, Alt+Right forward, and so on). The
/// macOS table offers the same actions in the same order, with Cmd in place
/// of Ctrl and Cmd+[ / Cmd+] in place of Alt+Left / Alt+Right, plus selecting
/// the page's content.
pub proof fn lemma_shortcuts_match_key_routing()
    ensures
        forall|i: int| 0 <= i < spec_shortcuts(Platform::Other).len() ==> {
            let s = #[trigger] spec_shortcuts(Platform::Other)[i];
            let (modifiers, code) = linux_key_event(s.key);
            spec_shortcut_action(true, modifiers, code) == Some(s.action)
        },
        spec_shortcuts(Platform::MacOs).len() == spec_shortcuts(Platform::Other).len() + 1,
        forall|i: int| 0 <= i < spec_shortcuts(Platform::Other).len() ==>
            (#[trigger] spec_shortcuts(Platform::MacOs)[i]).action == spec_shortcuts(
                Platform::Other,
            )[i].action,
        forall|i: int| 0 <= i < spec_shortcuts(Platform::Other).len() ==>
            (#[trigger] spec_shortcuts(Platform::MacOs)[i]).key == mac_key(
                spec_shortcuts(Platform::Other)[i].key,
            ),
        spec_shortcuts(Platform::MacOs)[5].action == "select-content"@,
{
    reveal_strlit("ctrl-l");
    reveal_strlit("ctrl-r");
    reveal_strlit("alt-left");
    reveal_strlit("alt-right");
    reveal_strlit("escape");
    assert(shortcut_modifiers(EVENTFLAG_CONTROL_DOWN) == EVENTFLAG_CONTROL_DOWN) by (bit_vector);
    assert(shortcut_modifiers(EVENTFLAG_ALT_DOWN) == EVENTFLAG_ALT_DOWN) by (bit_vector);
    assert(shortcut_modifiers(0) == 0) by (bit_vector);
    let t = spec_shortcuts(Platform::Other);
    assert forall|i: int| 0 <= i < t.len() implies {
        let s = #[trigger] t[i];
        let (modifiers, code) = linux_key_event(s.key);
        spec_shortcut_action(true, modifiers, code) == Some(s.action)
    } by {
        if i == 0 {
            assert(t[0].key == "ctrl-l"@);
        } else if i == 1 {
            assert(t[1].key == "ctrl-r"@);
            assert("ctrl-r"@[5] != "ctrl-l"@[5]);
        } else if i == 2 {
            assert(t[2].key == "alt-left"@);
            assert("alt-left"@ != "ctrl-l"@ && "alt-left"@ != "ctrl-r"@);
        } else if i == 3 {
            assert(t[3].key == "alt-right"@);
            assert("alt-right"@.len() != "ctrl-l"@.len() && "alt-right"@.len() != "ctrl-r"@.len()
                && "alt-right"@.len() != "alt-left"@.len());
        } else {
            assert(t[4].key == "escape"@);
            assert("escape"@[0] != "ctrl-l"@[0] && "escape"@[0] != "ctrl-r"@[0]);
            assert("escape"@.len() != "alt-left"@.len() && "escape"@.len() != "alt-right"@.len());
        }
    }
    assert("ctrl-r"@[5] != "ctrl-l"@[5]);
    assert("alt-left"@.len() != "ctrl-l"@.len() && "alt-left"@.len() != "ctrl-r"@.len());
    assert("alt-right"@.len() != "ctrl-l"@.len() && "alt-right"@.len() != "ctrl-r"@.len()
        && "alt-right"@.len() != "alt-left"@.len());
    assert("escape"@[0] != "ctrl-l"@[0] && "escape"@[0] != "ctrl-r"@[0]);
    assert("escape"@.len() != "alt-left"@.len() && "escape"@.len() != "alt-right"@.len());
    let mac = spec_shortcuts(Platform::MacOs);
    assert forall|i: int| 0 <= i < t.len() implies (#[trigger] mac[i]).key == mac_key(t[i].key) by {
        if i == 0 {
            assert(t[0].key == "ctrl-l"@);
        } else if i == 1 {
            assert(t[1].key == "ctrl-r"@);
        } else if i == 2 {
            assert(t[2].key == "alt-left"@);
        } else if i == 3 {
            assert(t[3].key == "alt-right"@);
        } else {
            assert(t[4].key == "escape"@);
        }
    }
}

} // verus!
