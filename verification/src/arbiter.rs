//! The decision where an incoming path goes.
//!
//! The program is in one of two phases. Until its start is complete there is
//! no frontend to notify, so a path that came with the start is stored for
//! the frontend to fetch. From then on a frontend is presumed to be live, so a
//! path that comes with a second launch is pushed to it at once and never
//! stored. A second launch needs a first one that runs, so the second phase
//! follows the first and nothing leads back.
//!
//! The functions here decide and, at the start, fill the store. Focusing the
//! window and sending the push are the host's part, and a decision lists them
//! in the order in which the host is to try them. Both are best effort: the
//! host logs a failure of either and goes on with the next.

use crate::logline::Severity;
use crate::store::{slot_after_set, slot_after_take, take_result, AppState};
use crate::validator::{is_markdown_file, is_markdown_path};
use vstd::prelude::*;
use vstd::string::*;

verus! {

/// The phase of the program when a path comes in.
#[derive(Clone, Copy, Debug, PartialEq, Eq, Structural)]
pub enum Phase {
    /// The program is starting: no frontend exists yet.
    NoUIYet,
    /// The start is complete: a frontend is presumed to be live.
    UIPresumedLive,
}

/// What is to be done with an incoming candidate.
#[derive(Debug, PartialEq, Eq)]
pub enum Delivery {
    /// No candidate came in: nothing to do.
    NoPath,
    /// The candidate does not name a markdown file: nothing to do but to say
    /// so.
    Rejected(String),
    /// The path is kept in the store until the frontend fetches it.
    Store(String),
    /// The primary window is asked for focus, then the path is pushed to the
    /// frontend in one notification.
    Push(String),
}

/// One step that a decision asks of the host.
#[derive(Debug, PartialEq, Eq)]
pub enum HostAction {
    /// Ask the primary window for focus.
    Focus,
    /// Send the path to the frontend in one notification.
    Push(String),
}

/// A [`HostAction`] as contracts see it.
pub enum HostActionView {
    Focus,
    Push(Seq<char>),
}

impl DeepView for HostAction {
    type V = HostActionView;

    open spec fn deep_view(&self) -> HostActionView {
        match *self {
            HostAction::Focus => HostActionView::Focus,
            HostAction::Push(path) => HostActionView::Push(path@),
        }
    }
}

/// A [`Delivery`] as contracts see it, each path by its characters.
pub enum DeliveryView {
    NoPath,
    Rejected(Seq<char>),
    Store(Seq<char>),
    Push(Seq<char>),
}

impl View for Delivery {
    type V = DeliveryView;

    open spec fn view(&self) -> DeliveryView {
        match *self {
            Delivery::NoPath => DeliveryView::NoPath,
            Delivery::Rejected(path) => DeliveryView::Rejected(path@),
            Delivery::Store(path) => DeliveryView::Store(path@),
            Delivery::Push(path) => DeliveryView::Push(path@),
        }
    }
}

/// The decision for `candidate` in `phase`: an absent candidate asks for
/// nothing, one that names no markdown file is rejected, and a markdown path
/// is stored before the frontend exists and pushed once it does.
pub open spec fn arbitrate_spec(phase: Phase, candidate: Option<Seq<char>>) -> DeliveryView {
    match candidate {
        None => DeliveryView::NoPath,
        Some(path) => if !is_markdown_path(path) {
            DeliveryView::Rejected(path)
        } else {
            match phase {
                Phase::NoUIYet => DeliveryView::Store(path),
                Phase::UIPresumedLive => DeliveryView::Push(path),
            }
        },
    }
}

/// The candidate in the argument list of a launch: the element after the
/// executable's own path, if there is one. Later elements are not looked at.
pub open spec fn relaunch_candidate(args: Seq<Seq<char>>) -> Option<Seq<char>> {
    if args.len() > 1 {
        Some(args[1])
    } else {
        None
    }
}

/// The store after the start was handled with `candidate`: a markdown path
/// is written to it, anything else leaves it as it was.
pub open spec fn slot_after_startup(slot: Option<Seq<char>>, candidate: Option<Seq<char>>) -> Option<
    Seq<char>,
> {
    match arbitrate_spec(Phase::NoUIYet, candidate) {
        DeliveryView::Store(path) => slot_after_set(slot, path),
        _ => slot,
    }
}

/// The severity at which a decision is reported: a rejection is a warning,
/// everything else is for information.
pub open spec fn severity_spec(delivery: DeliveryView) -> Severity {
    match delivery {
        DeliveryView::Rejected(_) => Severity::Warn,
        _ => Severity::Info,
    }
}

/// The steps that a decision asks of the host, in order: a push asks for
/// focus and then for one notification with the path; nothing else asks for
/// anything.
pub open spec fn host_actions_spec(delivery: DeliveryView) -> Seq<HostActionView> {
    match delivery {
        DeliveryView::Push(path) => seq![HostActionView::Focus, HostActionView::Push(path)],
        _ => Seq::empty(),
    }
}

/// The text that reports a decision.
pub open spec fn message_spec(delivery: DeliveryView) -> Seq<char> {
    match delivery {
        DeliveryView::NoPath => "No file path in arguments"@,
        DeliveryView::Rejected(path) => "File is not a markdown file: "@ + path,
        DeliveryView::Store(path) => "Saving markdown file to state: "@ + path,
        DeliveryView::Push(path) => "Opening markdown file: "@ + path,
    }
}

impl Delivery {
    /// The severity at which the decision is to be logged.
    pub fn severity(&self) -> (level: Severity)
        ensures
            level == severity_spec(self@),
    {
        match self {
            Delivery::Rejected(_) => Severity::Warn,
            _ => Severity::Info,
        }
    }

    /// The text under which the decision is to be logged.
    pub fn message(&self) -> (text: String)
        ensures
            text@ == message_spec(self@),
    {
        match self {
            Delivery::NoPath => String::from_str("No file path in arguments"),
            Delivery::Rejected(path) => String::from_str("File is not a markdown file: ").concat(
                path.as_str(),
            ),
            Delivery::Store(path) => String::from_str("Saving markdown file to state: ").concat(
                path.as_str(),
            ),
            Delivery::Push(path) => String::from_str("Opening markdown file: ").concat(
                path.as_str(),
            ),
        }
    }

    /// The steps that the host is to try for this decision, in order. The
    /// path of a push moves into its step.
    pub fn host_actions(self) -> (actions: Vec<HostAction>)
        ensures
            actions.deep_view() == host_actions_spec(self@),
    {
        let mut actions: Vec<HostAction> = Vec::new();
        match self {
            Delivery::Push(path) => {
                actions.push(HostAction::Focus);
                actions.push(HostAction::Push(path));
            },
            _ => {},
        }
        actions
    }
}

/// Decides what is to be done with `candidate` in `phase`.
pub fn arbitrate(phase: Phase, candidate: Option<String>) -> (delivery: Delivery)
    ensures
        delivery@ == arbitrate_spec(phase, candidate.deep_view()),
{
    match candidate {
        None => Delivery::NoPath,
        Some(path) => {
            if !is_markdown_file(path.as_str()) {
                Delivery::Rejected(path)
            } else {
                match phase {
                    Phase::NoUIYet => Delivery::Store(path),
                    Phase::UIPresumedLive => Delivery::Push(path),
                }
            }
        },
    }
}

/// Picks the candidate out of the argument list of a launch.
pub fn relaunch_path(args: &Vec<String>) -> (candidate: Option<String>)
    ensures
        candidate.deep_view() == relaunch_candidate(args.deep_view()),
{
    if args.len() > 1 {
        Some(args[1].clone())
    } else {
        None
    }
}

/// Handles the argument that came with the program's own start: a markdown
/// path is written to the store, where it waits for the frontend.
///
/// The decision is returned for the log; it is never a push.
pub fn on_startup(state: &mut AppState, candidate: Option<String>) -> (delivery: Delivery)
    ensures
        delivery@ == arbitrate_spec(Phase::NoUIYet, candidate.deep_view()),
        final(state)@ == slot_after_startup(old(state)@, candidate.deep_view()),
{
    let delivery = arbitrate(Phase::NoUIYet, candidate);
    match &delivery {
        Delivery::Store(path) => {
            state.set_pending_file(path.clone());
        },
        _ => {},
    }
    delivery
}

/// Handles the argument list of a second launch that was redirected to the
/// running program.
///
/// The store is not touched. Where the decision is a push, the host asks the
/// primary window for focus and then sends the path to the frontend, once.
pub fn on_relaunch(args: &Vec<String>) -> (delivery: Delivery)
    ensures
        delivery@ == arbitrate_spec(Phase::UIPresumedLive, relaunch_candidate(args.deep_view())),
{
    arbitrate(Phase::UIPresumedLive, relaunch_path(args))
}

/// Each phase has one channel: before the frontend exists nothing is pushed,
/// and once it is presumed live nothing is stored.
pub proof fn lemma_phase_fixes_channel(candidate: Option<Seq<char>>)
    ensures
        !(arbitrate_spec(Phase::NoUIYet, candidate) is Push),
        !(arbitrate_spec(Phase::UIPresumedLive, candidate) is Store),
{
}

/// Only a second launch with a markdown path asks anything of the host, and
/// then for one focus request followed by one push of that path: a launch
/// without a second argument, or with one that names no markdown file, leads
/// to no focus request and to no push.
pub proof fn lemma_relaunch_actions(args: Seq<Seq<char>>)
    ensures
        host_actions_spec(arbitrate_spec(Phase::UIPresumedLive, relaunch_candidate(args)))
            == if args.len() > 1 && is_markdown_path(args[1]) {
            seq![HostActionView::Focus, HostActionView::Push(args[1])]
        } else {
            Seq::empty()
        },
{
}

/// The start of the program asks nothing of the host, whatever came with it.
pub proof fn lemma_startup_asks_nothing(candidate: Option<Seq<char>>)
    ensures
        host_actions_spec(arbitrate_spec(Phase::NoUIYet, candidate)) == Seq::<
            HostActionView,
        >::empty(),
{
}

/// A path is delivered, over the channel of its phase, exactly when it names
/// a markdown file; the delivery carries the path as it came.
pub proof fn lemma_delivered_iff_markdown(phase: Phase, path: Seq<char>)
    ensures
        is_markdown_path(path) ==> arbitrate_spec(phase, Some(path)) == (match phase {
            Phase::NoUIYet => DeliveryView::Store(path),
            Phase::UIPresumedLive => DeliveryView::Push(path),
        }),
        !is_markdown_path(path) ==> arbitrate_spec(phase, Some(path)) == DeliveryView::Rejected(
            path,
        ),
{
}

/// A markdown path that came with the start is handed to the frontend exactly
/// once: the first retrieval after the start returns it, whatever the store
/// held before, and the next one returns nothing.
pub proof fn lemma_startup_path_taken_once(slot: Option<Seq<char>>, path: Seq<char>)
    requires
        is_markdown_path(path),
    ensures
        take_result(slot_after_startup(slot, Some(path))) == Some(path),
        take_result(slot_after_take(slot_after_startup(slot, Some(path)))) == None::<Seq<char>>,
{
}

} // verus!
