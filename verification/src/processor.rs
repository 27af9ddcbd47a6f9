use vstd::prelude::*;

use crate::classifier::{ClassifierResponse, ClassifierResponseView};
use crate::config::Config;
use crate::digest::{review_hash, spec_review_hash};
use crate::text::{i64_decimal, same_text, signed_decimal, spec_truncate, string_of, truncate};

verus! {

/// `std::sync::Mutex`, carried through opaquely.
#[verifier::external_type_specification]
#[verifier::external_body]
#[verifier::reject_recursive_types(T)]
pub struct ExMutex<T: ?Sized>(std::sync::Mutex<T>);

/// State shared between runs and the display: the status line of the last run.
#[derive(Clone, Default)]
pub struct ProcessorState {
    pub last_run_status: std::sync::Arc<std::sync::Mutex<String>>,
}

/// What became of one unread item.
#[derive(Debug, PartialEq, Eq, Structural, Clone, Copy)]
pub enum ProcessAction {
    /// It had been reviewed before.
    SkippedExists,
    /// It stays as it is.
    Kept,
    /// It was marked as read.
    MarkedRead,
    /// It got the spam label.
    Labeled,
    /// It was deleted (FreshRSS marks it read).
    Deleted,
    /// It would have been acted on, but this is a dry run.
    WouldAct,
}

impl ProcessAction {
    /// The short text that shows the action in the progress display.
    pub fn describe(&self) -> (r: &'static str)
        ensures
            r@ == match self {
                ProcessAction::SkippedExists => "跳过(已处理)"@,
                ProcessAction::Kept => "保留"@,
                ProcessAction::MarkedRead => "标记已读"@,
                ProcessAction::Labeled => "打标签"@,
                ProcessAction::Deleted => "删除"@,
                ProcessAction::WouldAct => "预演(不改动)"@,
            },
    {
        match self {
            ProcessAction::SkippedExists => "跳过(已处理)",
            ProcessAction::Kept => "保留",
            ProcessAction::MarkedRead => "标记已读",
            ProcessAction::Labeled => "打标签",
            ProcessAction::Deleted => "删除",
            ProcessAction::WouldAct => "预演(不改动)",
        }
    }
}

/// How often each action happened in a run.
#[derive(Debug, Clone, Copy, PartialEq, Eq, Structural)]
pub struct ActionCounts {
    pub skipped_exists: u64,
    pub kept: u64,
    pub marked_read: u64,
    pub labeled: u64,
    pub deleted: u64,
    pub would_act: u64,
}

/// How many of the outcomes are the given action (`None` stands for a failed item).
pub open spec fn count_of(outcomes: Seq<Option<ProcessAction>>, a: ProcessAction) -> nat
    decreases outcomes.len(),
{
    if outcomes.len() == 0 {
        0
    } else {
        count_of(outcomes.drop_last(), a) + if outcomes.last() == Some(a) {
            1nat
        } else {
            0nat
        }
    }
}

/// How many of the outcomes are actions at all, that is, items that were not failures.
pub open spec fn count_done(outcomes: Seq<Option<ProcessAction>>) -> nat
    decreases outcomes.len(),
{
    if outcomes.len() == 0 {
        0
    } else {
        count_done(outcomes.drop_last()) + if outcomes.last() is Some {
            1nat
        } else {
            0nat
        }
    }
}

/// Counting is additive over runs, and one outcome counts once for its own action
/// and not at all for any other: the counts of a run are exactly how many times each
/// action occurs.
pub proof fn counts_add_up(a: Seq<Option<ProcessAction>>, b: Seq<Option<ProcessAction>>, x: ProcessAction)
    ensures
        count_of(a + b, x) == count_of(a, x) + count_of(b, x),
        count_done(a + b) == count_done(a) + count_done(b),
        count_of(seq![Some(x)], x) == 1,
        forall|y: ProcessAction| y != x ==> count_of(seq![Some(y)], x) == 0,
        count_of(seq![None], x) == 0,
        count_done(seq![None]) == 0,
        forall|y: ProcessAction| count_done(seq![Some(y)]) == 1,
    decreases b.len(),
{
    reveal_with_fuel(count_of, 2);
    reveal_with_fuel(count_done, 2);
    if b.len() > 0 {
        counts_add_up(a, b.drop_last(), x);
        assert((a + b).drop_last() =~= a + b.drop_last());
        assert((a + b).last() == b.last());
    } else {
        assert(a + b =~= a);
    }
    assert(seq![Some(x)].drop_last() =~= Seq::<Option<ProcessAction>>::empty());
    assert(seq![None::<ProcessAction>].drop_last() =~= Seq::<Option<ProcessAction>>::empty());
    assert forall|y: ProcessAction| y != x implies count_of(seq![Some(y)], x) == 0 by {
        assert(seq![Some(y)].drop_last() =~= Seq::<Option<ProcessAction>>::empty());
    }
    assert forall|y: ProcessAction| count_done(seq![Some(y)]) == 1 by {
        assert(seq![Some(y)].drop_last() =~= Seq::<Option<ProcessAction>>::empty());
    }
}

/// The sum of all counts.
pub open spec fn total_of(c: ActionCounts) -> int {
    c.skipped_exists + c.kept + c.marked_read + c.labeled + c.deleted + c.would_act
}

proof fn lemma_counts_bounded(outcomes: Seq<Option<ProcessAction>>)
    ensures
        count_of(outcomes, ProcessAction::SkippedExists) + count_of(outcomes, ProcessAction::Kept)
            + count_of(outcomes, ProcessAction::MarkedRead) + count_of(
            outcomes,
            ProcessAction::Labeled,
        ) + count_of(outcomes, ProcessAction::Deleted) + count_of(
            outcomes,
            ProcessAction::WouldAct,
        ) == count_done(outcomes),
        count_done(outcomes) <= outcomes.len(),
    decreases outcomes.len(),
{
    if outcomes.len() > 0 {
        lemma_counts_bounded(outcomes.drop_last());
        match outcomes.last() {
            Some(ProcessAction::SkippedExists) => {},
            Some(ProcessAction::Kept) => {},
            Some(ProcessAction::MarkedRead) => {},
            Some(ProcessAction::Labeled) => {},
            Some(ProcessAction::Deleted) => {},
            Some(ProcessAction::WouldAct) => {},
            None => {},
        }
    }
}

/// Counts the actions of a run; failed items (`None`) are not counted.
pub fn tally(outcomes: &Vec<Option<ProcessAction>>) -> (r: ActionCounts)
    ensures
        r.skipped_exists == count_of(outcomes@, ProcessAction::SkippedExists),
        r.kept == count_of(outcomes@, ProcessAction::Kept),
        r.marked_read == count_of(outcomes@, ProcessAction::MarkedRead),
        r.labeled == count_of(outcomes@, ProcessAction::Labeled),
        r.deleted == count_of(outcomes@, ProcessAction::Deleted),
        r.would_act == count_of(outcomes@, ProcessAction::WouldAct),
        total_of(r) == count_done(outcomes@),
        total_of(r) <= outcomes.len(),
{
    let mut c = ActionCounts {
        skipped_exists: 0,
        kept: 0,
        marked_read: 0,
        labeled: 0,
        deleted: 0,
        would_act: 0,
    };
    let mut i: usize = 0;
    while i < outcomes.len()
        invariant
            i <= outcomes.len(),
            c.skipped_exists == count_of(outcomes@.take(i as int), ProcessAction::SkippedExists),
            c.kept == count_of(outcomes@.take(i as int), ProcessAction::Kept),
            c.marked_read == count_of(outcomes@.take(i as int), ProcessAction::MarkedRead),
            c.labeled == count_of(outcomes@.take(i as int), ProcessAction::Labeled),
            c.deleted == count_of(outcomes@.take(i as int), ProcessAction::Deleted),
            c.would_act == count_of(outcomes@.take(i as int), ProcessAction::WouldAct),
        decreases outcomes.len() - i,
    {
        proof {
            assert(outcomes@.take(i + 1).drop_last() =~= outcomes@.take(i as int));
            lemma_counts_bounded(outcomes@.take(i as int));
        }
        match outcomes[i] {
            Some(ProcessAction::SkippedExists) => c.skipped_exists = c.skipped_exists + 1,
            Some(ProcessAction::Kept) => c.kept = c.kept + 1,
            Some(ProcessAction::MarkedRead) => c.marked_read = c.marked_read + 1,
            Some(ProcessAction::Labeled) => c.labeled = c.labeled + 1,
            Some(ProcessAction::Deleted) => c.deleted = c.deleted + 1,
            Some(ProcessAction::WouldAct) => c.would_act = c.would_act + 1,
            None => {},
        }
        i += 1;
    }
    proof {
        assert(outcomes@.take(outcomes.len() as int) =~= outcomes@);
        lemma_counts_bounded(outcomes@);
    }
    c
}

/// The number of items reviewed in a run: the sum of all counts.
pub fn reviewed_total(c: &ActionCounts) -> (r: u64)
    requires
        total_of(*c) <= u64::MAX,
    ensures
        r == total_of(*c),
{
    c.skipped_exists + c.kept + c.marked_read + c.labeled + c.deleted + c.would_act
}

/// The status line of a run: `reviewed_items=<reviewed>/<total>`.
pub fn run_status(reviewed: u64, total: u64) -> (r: String)
    ensures
        r@ == "reviewed_items="@ + crate::text::decimal(reviewed as nat) + "/"@
            + crate::text::decimal(total as nat),
{
    let mut s = "reviewed_items=".to_owned();
    let a = crate::text::u64_decimal(reviewed);
    s.append(string_of(a.as_slice()).as_str());
    s.append("/");
    let b = crate::text::u64_decimal(total);
    s.append(string_of(b.as_slice()).as_str());
    s
}


/// What the actions on classified items depend on.
#[derive(Debug, Clone)]
pub struct ActionSettings {
    pub dry_run: bool,
    pub delete_mode: String,
    pub spam_label: String,
    /// Whether a GReader client is available for labelling.
    pub has_greader: bool,
}

pub struct ActionSettingsView {
    pub dry_run: bool,
    pub delete_mode: Seq<char>,
    pub spam_label: Seq<char>,
    pub has_greader: bool,
}

impl View for ActionSettings {
    type V = ActionSettingsView;

    open spec fn view(&self) -> ActionSettingsView {
        ActionSettingsView {
            dry_run: self.dry_run,
            delete_mode: self.delete_mode@,
            spam_label: self.spam_label@,
            has_greader: self.has_greader,
        }
    }
}

impl ActionSettings {
    /// The action settings of a configuration, with or without a GReader client.
    pub fn from_config(cfg: &Config, has_greader: bool) -> (r: ActionSettings)
        ensures
            r@ == (ActionSettingsView {
                dry_run: cfg.dry_run,
                delete_mode: cfg.freshrss.delete_mode@,
                spam_label: cfg.freshrss.spam_label@,
                has_greader,
            }),
    {
        ActionSettings {
            dry_run: cfg.dry_run,
            delete_mode: cfg.freshrss.delete_mode.clone(),
            spam_label: cfg.freshrss.spam_label.clone(),
            has_greader,
        }
    }
}

/// An unread item: its id, its title and the text that is classified.
#[derive(Debug, Clone)]
pub struct ItemInfo {
    pub id: i64,
    pub title: String,
    pub text: String,
}

pub struct ItemInfoView {
    pub id: i64,
    pub title: Seq<char>,
    pub text: Seq<char>,
}

impl View for ItemInfo {
    type V = ItemInfoView;

    open spec fn view(&self) -> ItemInfoView {
        ItemInfoView { id: self.id, title: self.title@, text: self.text@ }
    }
}

/// Where the handling of one item stands.
#[derive(Debug)]
pub enum ItemPhase {
    /// Nothing has happened yet.
    Start,
    /// Waiting to learn whether the item was reviewed before.
    AwaitLookup,
    /// Waiting for the model's classification; the hash of the item text.
    AwaitClassification { hash: String },
    /// Waiting for the review to be recorded; whether the item is to be filtered
    /// and the confidence of that decision (bits of an `f32`).
    AwaitSave { filter: bool, confidence_bits: u32 },
    /// Waiting to learn whether the decision reaches the threshold.
    AwaitThreshold,
    /// Waiting for the action on FreshRSS to be done.
    AwaitAction { action: ProcessAction },
    /// Handled, with this outcome.
    Finished { action: ProcessAction },
    /// Handling failed.
    Failed,
}

/// What the outside work reported back.
#[derive(Debug)]
pub enum ItemEvent {
    /// Handling begins.
    Begin,
    /// Whether a review of the item is on record.
    Looked { reviewed: bool },
    /// The model classified the text.
    Answered(ClassifierResponse),
    /// The model API refused the request with an HTTP status; the error's message.
    ApiRefused { status: u16, message: String },
    /// Classifying failed otherwise.
    ClassifyFailed,
    /// The review was recorded.
    Saved,
    /// Whether the decision's confidence reaches the threshold.
    ThresholdChecked { reached: bool },
    /// The action on FreshRSS was done.
    Acted,
    /// The outside work that was asked for failed.
    Failed,
}

/// The outside work to do next for an item.
#[derive(Debug)]
pub enum ItemCommand {
    /// Look up whether a review is recorded under this key.
    LookUp { key: String },
    /// Have the model classify the item text.
    Classify,
    /// Record a review.
    SaveReview { key: String, hash: String, filtered: bool, confidence_bits: u32, reason: String },
    /// Compare the confidence (bits of an `f32`) with the configured threshold.
    CheckThreshold { confidence_bits: u32 },
    /// Mark the item as read (Fever API).
    MarkRead { id: i64 },
    /// Put the label on the item (GReader API).
    AddLabel { id: i64, label: String },
    /// Delete the item, which FreshRSS does by marking it read.
    SoftDelete { id: i64 },
    /// Stop: the item is handled with this outcome.
    Finish { action: ProcessAction },
    /// Stop: handling failed.
    Abort,
}

pub enum ItemPhaseView {
    Start,
    AwaitLookup,
    AwaitClassification { hash: Seq<char> },
    AwaitSave { filter: bool, confidence_bits: u32 },
    AwaitThreshold,
    AwaitAction { action: ProcessAction },
    Finished { action: ProcessAction },
    Failed,
}

pub enum ItemEventView {
    Begin,
    Looked { reviewed: bool },
    Answered(ClassifierResponseView),
    ApiRefused { status: u16, message: Seq<char> },
    ClassifyFailed,
    Saved,
    ThresholdChecked { reached: bool },
    Acted,
    Failed,
}

pub enum ItemCommandView {
    LookUp { key: Seq<char> },
    Classify,
    SaveReview {
        key: Seq<char>,
        hash: Seq<char>,
        filtered: bool,
        confidence_bits: u32,
        reason: Seq<char>,
    },
    CheckThreshold { confidence_bits: u32 },
    MarkRead { id: i64 },
    AddLabel { id: i64, label: Seq<char> },
    SoftDelete { id: i64 },
    Finish { action: ProcessAction },
    Abort,
}

impl View for ItemPhase {
    type V = ItemPhaseView;

    open spec fn view(&self) -> ItemPhaseView {
        match self {
            ItemPhase::Start => ItemPhaseView::Start,
            ItemPhase::AwaitLookup => ItemPhaseView::AwaitLookup,
            ItemPhase::AwaitClassification { hash } => ItemPhaseView::AwaitClassification {
                hash: hash@,
            },
            ItemPhase::AwaitSave { filter, confidence_bits } => ItemPhaseView::AwaitSave {
                filter: *filter,
                confidence_bits: *confidence_bits,
            },
            ItemPhase::AwaitThreshold => ItemPhaseView::AwaitThreshold,
            ItemPhase::AwaitAction { action } => ItemPhaseView::AwaitAction { action: *action },
            ItemPhase::Finished { action } => ItemPhaseView::Finished { action: *action },
            ItemPhase::Failed => ItemPhaseView::Failed,
        }
    }
}

impl View for ItemEvent {
    type V = ItemEventView;

    open spec fn view(&self) -> ItemEventView {
        match self {
            ItemEvent::Begin => ItemEventView::Begin,
            ItemEvent::Looked { reviewed } => ItemEventView::Looked { reviewed: *reviewed },
            ItemEvent::Answered(r) => ItemEventView::Answered(r@),
            ItemEvent::ApiRefused { status, message } => ItemEventView::ApiRefused {
                status: *status,
                message: message@,
            },
            ItemEvent::ClassifyFailed => ItemEventView::ClassifyFailed,
            ItemEvent::Saved => ItemEventView::Saved,
            ItemEvent::ThresholdChecked { reached } => ItemEventView::ThresholdChecked {
                reached: *reached,
            },
            ItemEvent::Acted => ItemEventView::Acted,
            ItemEvent::Failed => ItemEventView::Failed,
        }
    }
}

impl View for ItemCommand {
    type V = ItemCommandView;

    open spec fn view(&self) -> ItemCommandView {
        match self {
            ItemCommand::LookUp { key } => ItemCommandView::LookUp { key: key@ },
            ItemCommand::Classify => ItemCommandView::Classify,
            ItemCommand::SaveReview { key, hash, filtered, confidence_bits, reason } =>
                ItemCommandView::SaveReview {
                key: key@,
                hash: hash@,
                filtered: *filtered,
                confidence_bits: *confidence_bits,
                reason: reason@,
            },
            ItemCommand::CheckThreshold { confidence_bits } => ItemCommandView::CheckThreshold {
                confidence_bits: *confidence_bits,
            },
            ItemCommand::MarkRead { id } => ItemCommandView::MarkRead { id: *id },
            ItemCommand::AddLabel { id, label } => ItemCommandView::AddLabel {
                id: *id,
                label: label@,
            },
            ItemCommand::SoftDelete { id } => ItemCommandView::SoftDelete { id: *id },
            ItemCommand::Finish { action } => ItemCommandView::Finish { action: *action },
            ItemCommand::Abort => ItemCommandView::Abort,
        }
    }
}

/// The decision on a classified item: whether to filter it, with which confidence
/// (bits of an `f32`) and for which reason.
#[derive(Debug)]
pub struct Decision {
    pub filter: bool,
    pub confidence_bits: u32,
    pub reason: String,
}

/// An item is filtered when it is an ad or not worth reading. An ad is decided on
/// its ad confidence and reason; an item that is only not worth reading on its
/// worth confidence and reason (the general ones when those are missing); any
/// other item on the general confidence and reason.
pub open spec fn spec_decide(r: ClassifierResponseView) -> (bool, u32, Seq<char>) {
    let unworthy = r.is_worth == Some(false);
    if r.is_ad {
        (true, r.confidence_bits, r.reason)
    } else if unworthy {
        (
            true,
            match r.worth_confidence_bits {
                Some(b) => b,
                None => r.confidence_bits,
            },
            match r.worth_reason {
                Some(s) => s,
                None => r.reason,
            },
        )
    } else {
        (false, r.confidence_bits, r.reason)
    }
}

/// An item is filtered exactly when the model calls it an ad or says it is not worth
/// reading; an ad is decided on its ad confidence and reason, an item that is only not
/// worth reading on its worth confidence and reason (the general ones when missing),
/// and an item that is neither on the general confidence and reason.
pub proof fn filtered_exactly_ads_and_unworthy(r: ClassifierResponseView)
    ensures
        spec_decide(r).0 == (r.is_ad || r.is_worth == Some(false)),
        r.is_ad ==> spec_decide(r).1 == r.confidence_bits && spec_decide(r).2 == r.reason,
        !r.is_ad && r.is_worth == Some(false) ==> spec_decide(r).1 == (match r.worth_confidence_bits {
            Some(b) => b,
            None => r.confidence_bits,
        }) && spec_decide(r).2 == (match r.worth_reason {
            Some(x) => x,
            None => r.reason,
        }),
        !r.is_ad && r.is_worth != Some(false) ==> spec_decide(r).1 == r.confidence_bits
            && spec_decide(r).2 == r.reason,
{
}

/// Decides on a classified item, as `spec_decide` says.
pub fn decide(r: &ClassifierResponse) -> (d: Decision)
    ensures
        (d.filter, d.confidence_bits, d.reason@) == spec_decide(r@),
{
    let unworthy = match r.is_worth {
        Some(w) => !w,
        None => false,
    };
    if r.is_ad {
        Decision { filter: true, confidence_bits: r.confidence_bits, reason: r.reason.clone() }
    } else if unworthy {
        let confidence_bits = match r.worth_confidence_bits {
            Some(b) => b,
            None => r.confidence_bits,
        };
        let reason = match &r.worth_reason {
            Some(s) => s.clone(),
            None => r.reason.clone(),
        };
        Decision { filter: true, confidence_bits, reason }
    } else {
        Decision { filter: false, confidence_bits: r.confidence_bits, reason: r.reason.clone() }
    }
}

/// The key under which the review of an item is recorded: its id in decimal.
pub open spec fn review_key(id: i64) -> Seq<char> {
    signed_decimal(id as int)
}

/// The HTTP status with which the model API refuses a request it cannot take.
pub open spec fn bad_request() -> u16 {
    400
}

/// The action for an item whose decision reached the threshold: none in a dry run;
/// otherwise by the delete mode, `label` falling back to marking read when there
/// is no GReader client, and an unknown mode marking read.
pub open spec fn action_for(s: ActionSettingsView, id: i64) -> (ItemPhaseView, ItemCommandView) {
    if s.dry_run {
        (
            ItemPhaseView::Finished { action: ProcessAction::WouldAct },
            ItemCommandView::Finish { action: ProcessAction::WouldAct },
        )
    } else if s.delete_mode == "label"@ && s.has_greader {
        (
            ItemPhaseView::AwaitAction { action: ProcessAction::Labeled },
            ItemCommandView::AddLabel { id, label: s.spam_label },
        )
    } else if s.delete_mode == "delete"@ {
        (
            ItemPhaseView::AwaitAction { action: ProcessAction::Deleted },
            ItemCommandView::SoftDelete { id },
        )
    } else {
        (
            ItemPhaseView::AwaitAction { action: ProcessAction::MarkedRead },
            ItemCommandView::MarkRead { id },
        )
    }
}

pub open spec fn finished(a: ProcessAction) -> (ItemPhaseView, ItemCommandView) {
    (ItemPhaseView::Finished { action: a }, ItemCommandView::Finish { action: a })
}

pub open spec fn failed() -> (ItemPhaseView, ItemCommandView) {
    (ItemPhaseView::Failed, ItemCommandView::Abort)
}

/// One step of handling an item: from where it stands and what was reported back,
/// where it stands next and what to do next.
///
/// The item is looked up by its key; one reviewed before is skipped. Otherwise its
/// text is classified and the review is recorded (a request the API refuses as bad
/// is recorded as not filtered, with the error and the title as the reason). Only a
/// filtered item whose confidence reaches the threshold is acted on, as
/// `action_for` says. Any failure of the outside work, and any report that does not
/// fit the phase, ends the handling as failed; a handled item stays handled.
pub open spec fn spec_step(
    s: ActionSettingsView,
    item: ItemInfoView,
    phase: ItemPhaseView,
    event: ItemEventView,
) -> (ItemPhaseView, ItemCommandView) {
    match phase {
        ItemPhaseView::Finished { action } => finished(action),
        ItemPhaseView::Failed => failed(),
        _ => match (phase, event) {
            (ItemPhaseView::Start, ItemEventView::Begin) => (
                ItemPhaseView::AwaitLookup,
                ItemCommandView::LookUp { key: review_key(item.id) },
            ),
            (ItemPhaseView::AwaitLookup, ItemEventView::Looked { reviewed }) => {
                if reviewed {
                    finished(ProcessAction::SkippedExists)
                } else {
                    (
                        ItemPhaseView::AwaitClassification {
                            hash: spec_review_hash(item.text),
                        },
                        ItemCommandView::Classify,
                    )
                }
            },
            (ItemPhaseView::AwaitClassification { hash }, ItemEventView::Answered(r)) => {
                let (filter, confidence_bits, reason) = spec_decide(r);
                (
                    ItemPhaseView::AwaitSave { filter, confidence_bits },
                    ItemCommandView::SaveReview {
                        key: review_key(item.id),
                        hash,
                        filtered: filter,
                        confidence_bits,
                        reason,
                    },
                )
            },
            (
                ItemPhaseView::AwaitClassification { hash },
                ItemEventView::ApiRefused { status, message },
            ) => {
                if status == bad_request() {
                    (
                        ItemPhaseView::AwaitSave { filter: false, confidence_bits: 0 },
                        ItemCommandView::SaveReview {
                            key: review_key(item.id),
                            hash,
                            filtered: false,
                            confidence_bits: 0,
                            reason: message + " | title="@ + spec_truncate(item.title, 120),
                        },
                    )
                } else {
                    failed()
                }
            },
            (ItemPhaseView::AwaitSave { filter, confidence_bits }, ItemEventView::Saved) => {
                if filter {
                    (ItemPhaseView::AwaitThreshold, ItemCommandView::CheckThreshold { confidence_bits })
                } else {
                    finished(ProcessAction::Kept)
                }
            },
            (ItemPhaseView::AwaitThreshold, ItemEventView::ThresholdChecked { reached }) => {
                if reached {
                    action_for(s, item.id)
                } else {
                    finished(ProcessAction::Kept)
                }
            },
            (ItemPhaseView::AwaitAction { action }, ItemEventView::Acted) => finished(action),
            _ => failed(),
        },
    }
}

fn finish(a: ProcessAction) -> (r: (ItemPhase, ItemCommand))
    ensures
        (r.0@, r.1@) == finished(a),
{
    (ItemPhase::Finished { action: a }, ItemCommand::Finish { action: a })
}

fn fail() -> (r: (ItemPhase, ItemCommand))
    ensures
        (r.0@, r.1@) == failed(),
{
    (ItemPhase::Failed, ItemCommand::Abort)
}

fn key_of(id: i64) -> (r: String)
    ensures
        r@ == review_key(id),
{
    let d = i64_decimal(id);
    string_of(d.as_slice())
}

fn act(s: &ActionSettings, id: i64) -> (r: (ItemPhase, ItemCommand))
    ensures
        (r.0@, r.1@) == action_for(s@, id),
{
    if s.dry_run {
        finish(ProcessAction::WouldAct)
    } else if same_text(s.delete_mode.as_str(), "label") && s.has_greader {
        (
            ItemPhase::AwaitAction { action: ProcessAction::Labeled },
            ItemCommand::AddLabel { id, label: s.spam_label.clone() },
        )
    } else if same_text(s.delete_mode.as_str(), "delete") {
        (ItemPhase::AwaitAction { action: ProcessAction::Deleted }, ItemCommand::SoftDelete { id })
    } else {
        (ItemPhase::AwaitAction { action: ProcessAction::MarkedRead }, ItemCommand::MarkRead { id })
    }
}

/// Takes one step of handling an item, as `spec_step` says.
pub fn step(s: &ActionSettings, item: &ItemInfo, phase: ItemPhase, event: ItemEvent) -> (r: (
    ItemPhase,
    ItemCommand,
))
    ensures
        (r.0@, r.1@) == spec_step(s@, item@, phase@, event@),
{
    match phase {
        ItemPhase::Finished { action } => finish(action),
        ItemPhase::Failed => fail(),
        ItemPhase::Start => match event {
            ItemEvent::Begin => (ItemPhase::AwaitLookup, ItemCommand::LookUp { key: key_of(item.id) }),
            _ => fail(),
        },
        ItemPhase::AwaitLookup => match event {
            ItemEvent::Looked { reviewed } => {
                if reviewed {
                    finish(ProcessAction::SkippedExists)
                } else {
                    let hash = review_hash(item.text.as_str());
                    (ItemPhase::AwaitClassification { hash }, ItemCommand::Classify)
                }
            },
            _ => fail(),
        },
        ItemPhase::AwaitClassification { hash } => match event {
            ItemEvent::Answered(r) => {
                let d = decide(&r);
                (
                    ItemPhase::AwaitSave { filter: d.filter, confidence_bits: d.confidence_bits },
                    ItemCommand::SaveReview {
                        key: key_of(item.id),
                        hash,
                        filtered: d.filter,
                        confidence_bits: d.confidence_bits,
                        reason: d.reason,
                    },
                )
            },
            ItemEvent::ApiRefused { status, message } => {
                if status == 400 {
                    let mut reason = message;
                    reason.append(" | title=");
                    let preview = truncate(item.title.as_str(), 120);
                    reason.append(preview.as_str());
                    (
                        ItemPhase::AwaitSave { filter: false, confidence_bits: 0 },
                        ItemCommand::SaveReview {
                            key: key_of(item.id),
                            hash,
                            filtered: false,
                            confidence_bits: 0,
                            reason,
                        },
                    )
                } else {
                    fail()
                }
            },
            _ => fail(),
        },
        ItemPhase::AwaitSave { filter, confidence_bits } => match event {
            ItemEvent::Saved => {
                if filter {
                    (ItemPhase::AwaitThreshold, ItemCommand::CheckThreshold { confidence_bits })
                } else {
                    finish(ProcessAction::Kept)
                }
            },
            _ => fail(),
        },
        ItemPhase::AwaitThreshold => match event {
            ItemEvent::ThresholdChecked { reached } => {
                if reached {
                    act(s, item.id)
                } else {
                    finish(ProcessAction::Kept)
                }
            },
            _ => fail(),
        },
        ItemPhase::AwaitAction { action } => match event {
            ItemEvent::Acted => finish(action),
            _ => fail(),
        },
    }
}


/// Whether a command changes FreshRSS.
pub open spec fn is_write(c: ItemCommandView) -> bool {
    c is MarkRead || c is AddLabel || c is SoftDelete
}

/// A dry run never changes FreshRSS: no step asks to mark read, label or delete.
pub proof fn dry_run_never_writes(
    s: ActionSettingsView,
    item: ItemInfoView,
    phase: ItemPhaseView,
    event: ItemEventView,
)
    requires
        s.dry_run,
    ensures
        !is_write(spec_step(s, item, phase, event).1),
{
}

/// An item with a review on record is skipped: it is neither classified nor touched.
pub proof fn reviewed_items_are_skipped(s: ActionSettingsView, item: ItemInfoView)
    ensures
        spec_step(s, item, ItemPhaseView::AwaitLookup, ItemEventView::Looked { reviewed: true })
            == finished(ProcessAction::SkippedExists),
{
}

/// FreshRSS is changed only when the decision has just been found to reach the
/// threshold, and never in a dry run.
pub proof fn writes_follow_reached_threshold(
    s: ActionSettingsView,
    item: ItemInfoView,
    phase: ItemPhaseView,
    event: ItemEventView,
)
    requires
        is_write(spec_step(s, item, phase, event).1),
    ensures
        phase is AwaitThreshold,
        event == (ItemEventView::ThresholdChecked { reached: true }),
        !s.dry_run,
{
}

/// The threshold is checked only right after the review of an item to be filtered
/// was recorded.
pub proof fn threshold_follows_filtered_save(
    s: ActionSettingsView,
    item: ItemInfoView,
    phase: ItemPhaseView,
    event: ItemEventView,
)
    requires
        spec_step(s, item, phase, event).0 is AwaitThreshold,
    ensures
        phase matches ItemPhaseView::AwaitSave { filter, .. } && filter,
        event is Saved,
{
}

/// An item whose decision stays below the threshold is kept.
pub proof fn below_threshold_is_kept(s: ActionSettingsView, item: ItemInfoView)
    ensures
        spec_step(
            s,
            item,
            ItemPhaseView::AwaitThreshold,
            ItemEventView::ThresholdChecked { reached: false },
        ) == finished(ProcessAction::Kept),
{
}

/// Outside a dry run, a filtered item whose confidence reaches the threshold is acted
/// on as the delete mode says: `label` puts the spam label on it (given a GReader
/// client), `delete` deletes it, and `mark_read` marks it read.
pub proof fn action_follows_delete_mode(s: ActionSettingsView, item: ItemInfoView)
    requires
        !s.dry_run,
    ensures
        s.delete_mode == "label"@ && s.has_greader ==> spec_step(
            s,
            item,
            ItemPhaseView::AwaitThreshold,
            ItemEventView::ThresholdChecked { reached: true },
        ) == (
            ItemPhaseView::AwaitAction { action: ProcessAction::Labeled },
            ItemCommandView::AddLabel { id: item.id, label: s.spam_label },
        ),
        s.delete_mode == "delete"@ ==> spec_step(
            s,
            item,
            ItemPhaseView::AwaitThreshold,
            ItemEventView::ThresholdChecked { reached: true },
        ) == (
            ItemPhaseView::AwaitAction { action: ProcessAction::Deleted },
            ItemCommandView::SoftDelete { id: item.id },
        ),
        s.delete_mode == "mark_read"@ ==> spec_step(
            s,
            item,
            ItemPhaseView::AwaitThreshold,
            ItemEventView::ThresholdChecked { reached: true },
        ) == (
            ItemPhaseView::AwaitAction { action: ProcessAction::MarkedRead },
            ItemCommandView::MarkRead { id: item.id },
        ),
        spec_step(s, item, ItemPhaseView::AwaitAction { action: ProcessAction::Labeled }, ItemEventView::Acted)
            == finished(ProcessAction::Labeled),
{
    reveal_strlit("label");
    reveal_strlit("delete");
    reveal_strlit("mark_read");
    assert("label"@[0] != "delete"@[0]);
    assert("mark_read"@[0] != "delete"@[0]);
    assert("mark_read"@[0] != "label"@[0]);
}

/// A classified item's review is recorded under its key and hash, with the decision
/// on it: whether it is filtered, and the confidence and reason of that decision.
pub proof fn classified_item_review_is_recorded(
    s: ActionSettingsView,
    item: ItemInfoView,
    hash: Seq<char>,
    r: ClassifierResponseView,
)
    ensures
        spec_step(s, item, ItemPhaseView::AwaitClassification { hash }, ItemEventView::Answered(r))
            matches (ItemPhaseView::AwaitSave { filter, confidence_bits }, ItemCommandView::SaveReview {
            key,
            hash: h,
            filtered,
            confidence_bits: c,
            reason,
        }) && filter == filtered && confidence_bits == c && key == review_key(item.id) && h == hash
            && filtered == (r.is_ad || r.is_worth == Some(false)) && (r.is_ad ==> c
            == r.confidence_bits && reason == r.reason),
{
}

/// The key of a review reads back as the item id.
pub proof fn review_key_reads_back(id: i64)
    ensures
        id >= 0 ==> crate::schedule::digits_value(review_key(id)) == id,
        id < 0 ==> review_key(id)[0] == '-' && crate::schedule::digits_value(review_key(id).skip(1))
            == -id,
{
    if id >= 0 {
        crate::schedule::decimal_reads_back(id as nat);
    } else {
        crate::schedule::decimal_reads_back((-id) as nat);
        assert((seq!['-'] + crate::text::decimal((-id) as nat)).skip(1) =~= crate::text::decimal(
            (-id) as nat,
        ));
    }
}

/// In label mode without GReader credentials, a filtered item is marked read instead.
pub proof fn label_without_greader_marks_read(s: ActionSettingsView, id: i64)
    requires
        !s.dry_run,
        s.delete_mode == "label"@,
        !s.has_greader,
    ensures
        action_for(s, id) == (
            ItemPhaseView::AwaitAction { action: ProcessAction::MarkedRead },
            ItemCommandView::MarkRead { id },
        ),
{
    reveal_strlit("label");
    reveal_strlit("delete");
    assert("label"@[0] != "delete"@[0]);
}

/// Handling an item starts by looking up its review under the item's key; an item
/// without a review is then sent to be classified, its text's hash kept for the
/// review.
pub proof fn unreviewed_items_are_classified(s: ActionSettingsView, item: ItemInfoView)
    ensures
        spec_step(s, item, ItemPhaseView::Start, ItemEventView::Begin) == (
            ItemPhaseView::AwaitLookup,
            ItemCommandView::LookUp { key: review_key(item.id) },
        ),
        spec_step(s, item, ItemPhaseView::AwaitLookup, ItemEventView::Looked { reviewed: false })
            == (
            ItemPhaseView::AwaitClassification { hash: spec_review_hash(item.text) },
            ItemCommandView::Classify,
        ),
{
}

/// An item that is not to be filtered is kept as soon as its review is recorded,
/// whatever its confidence.
pub proof fn unfiltered_item_is_kept(s: ActionSettingsView, item: ItemInfoView, confidence_bits: u32)
    ensures
        spec_step(
            s,
            item,
            ItemPhaseView::AwaitSave { filter: false, confidence_bits },
            ItemEventView::Saved,
        ) == (
            ItemPhaseView::Finished { action: ProcessAction::Kept },
            ItemCommandView::Finish { action: ProcessAction::Kept },
        ),
{
}

/// In a dry run, an item whose decision reaches the threshold is only reported as
/// one that would be acted on.
pub proof fn dry_run_reports_would_act(s: ActionSettingsView, item: ItemInfoView)
    requires
        s.dry_run,
    ensures
        spec_step(
            s,
            item,
            ItemPhaseView::AwaitThreshold,
            ItemEventView::ThresholdChecked { reached: true },
        ) == (
            ItemPhaseView::Finished { action: ProcessAction::WouldAct },
            ItemCommandView::Finish { action: ProcessAction::WouldAct },
        ),
{
}

/// When the model's service refuses the request as bad (status 400), the item gets an
/// unfiltered review with confidence 0 whose reason is the service's message and the
/// item's title cut to 120 characters; any other refusal fails the item.
pub proof fn bad_request_is_recorded_unfiltered(
    s: ActionSettingsView,
    item: ItemInfoView,
    hash: Seq<char>,
    status: u16,
    message: Seq<char>,
)
    ensures
        status == 400 ==> spec_step(
            s,
            item,
            ItemPhaseView::AwaitClassification { hash },
            ItemEventView::ApiRefused { status, message },
        ) == (
            ItemPhaseView::AwaitSave { filter: false, confidence_bits: 0 },
            ItemCommandView::SaveReview {
                key: review_key(item.id),
                hash,
                filtered: false,
                confidence_bits: 0,
                reason: message + " | title="@ + spec_truncate(item.title, 120),
            },
        ),
        status != 400 ==> spec_step(
            s,
            item,
            ItemPhaseView::AwaitClassification { hash },
            ItemEventView::ApiRefused { status, message },
        ) == (ItemPhaseView::Failed, ItemCommandView::Abort),
{
}

/// Once an item is finished or has failed, it stays so whatever is reported.
pub proof fn ended_items_stay_ended(
    s: ActionSettingsView,
    item: ItemInfoView,
    action: ProcessAction,
    event: ItemEventView,
)
    ensures
        spec_step(s, item, ItemPhaseView::Finished { action }, event) == (
            ItemPhaseView::Finished { action },
            ItemCommandView::Finish { action },
        ),
        spec_step(s, item, ItemPhaseView::Failed, event) == (
            ItemPhaseView::Failed,
            ItemCommandView::Abort,
        ),
{
}

/// The commands that handling an item issues for a sequence of reports, from `phase` on.
pub open spec fn run(
    s: ActionSettingsView,
    item: ItemInfoView,
    phase: ItemPhaseView,
    events: Seq<ItemEventView>,
) -> Seq<ItemCommandView>
    decreases events.len(),
{
    if events.len() == 0 {
        seq![]
    } else {
        let (next, command) = spec_step(s, item, phase, events[0]);
        seq![command] + run(s, item, next, events.drop_first())
    }
}

/// Whether the phase waits on a recorded review of an item to be filtered.
pub open spec fn pending_filter(phase: ItemPhaseView) -> bool {
    (phase matches ItemPhaseView::AwaitSave { filter, .. } && filter) || phase is AwaitThreshold
}

pub open spec fn is_filtered_save(c: ItemCommandView) -> bool {
    c matches ItemCommandView::SaveReview { filtered, .. } && filtered
}

proof fn lemma_run_len(
    s: ActionSettingsView,
    item: ItemInfoView,
    phase: ItemPhaseView,
    events: Seq<ItemEventView>,
)
    ensures
        run(s, item, phase, events).len() == events.len(),
    decreases events.len(),
{
    if events.len() > 0 {
        let (next, _) = spec_step(s, item, phase, events[0]);
        lemma_run_len(s, item, next, events.drop_first());
    }
}

proof fn lemma_writes_after_filtered_save(
    s: ActionSettingsView,
    item: ItemInfoView,
    phase: ItemPhaseView,
    events: Seq<ItemEventView>,
)
    requires
        !pending_filter(phase),
    ensures
        forall|k: int|
            0 <= k < run(s, item, phase, events).len() && is_write(
                #[trigger] run(s, item, phase, events)[k],
            ) ==> exists|j: int| 0 <= j < k && is_filtered_save(run(s, item, phase, events)[j]),
    decreases events.len(),
{
    lemma_run_len(s, item, phase, events);
    if events.len() > 0 {
        let (next, command) = spec_step(s, item, phase, events[0]);
        let rest = run(s, item, next, events.drop_first());
        let all = run(s, item, phase, events);
        lemma_run_len(s, item, next, events.drop_first());
        assert(all == seq![command] + rest);
        if !is_write(command) {
            if pending_filter(next) {
                assert(is_filtered_save(command));
                assert forall|k: int| 0 <= k < all.len() && is_write(#[trigger] all[k]) implies exists|
                    j: int,
                | 0 <= j < k && is_filtered_save(all[j]) by {
                    assert(all[0] == command);
                }
            } else {
                lemma_writes_after_filtered_save(s, item, next, events.drop_first());
                assert forall|k: int| 0 <= k < all.len() && is_write(#[trigger] all[k]) implies exists|
                    j: int,
                | 0 <= j < k && is_filtered_save(all[j]) by {
                    assert(k > 0);
                    assert(all[k] == rest[k - 1]);
                    let j = choose|j: int| 0 <= j < k - 1 && is_filtered_save(rest[j]);
                    assert(all[j + 1] == rest[j]);
                }
            }
        }
    }
}

/// Whatever is reported back, handling an item changes FreshRSS only after it has
/// recorded a review that marks the item as filtered.
pub proof fn writes_come_after_filtered_review(
    s: ActionSettingsView,
    item: ItemInfoView,
    events: Seq<ItemEventView>,
)
    ensures
        forall|k: int|
            0 <= k < run(s, item, ItemPhaseView::Start, events).len() && is_write(
                #[trigger] run(s, item, ItemPhaseView::Start, events)[k],
            ) ==> exists|j: int|
                0 <= j < k && is_filtered_save(run(s, item, ItemPhaseView::Start, events)[j]),
{
    lemma_writes_after_filtered_save(s, item, ItemPhaseView::Start, events);
}

/// Whether a threshold check asks about the confidence that the command before it
/// recorded in a review of an item to be filtered.
pub open spec fn checks_recorded_confidence(check: ItemCommandView, before: ItemCommandView) -> bool {
    check matches ItemCommandView::CheckThreshold { confidence_bits } ==> (
    before matches ItemCommandView::SaveReview { filtered, confidence_bits: recorded, .. }
        && filtered && recorded == confidence_bits)
}

/// Whether `prev` recorded the review that the phase waits on.
pub open spec fn recorded_for(phase: ItemPhaseView, prev: ItemCommandView) -> bool {
    phase matches ItemPhaseView::AwaitSave { filter, confidence_bits } ==> (
    prev matches ItemCommandView::SaveReview { filtered, confidence_bits: recorded, .. }
        && filtered == filter && recorded == confidence_bits)
}

/// Once a filtered review is recorded, the threshold is checked against that
/// review's confidence.
pub proof fn threshold_checks_the_saved_confidence(
    s: ActionSettingsView,
    item: ItemInfoView,
    confidence_bits: u32,
)
    ensures
        spec_step(
            s,
            item,
            ItemPhaseView::AwaitSave { filter: true, confidence_bits },
            ItemEventView::Saved,
        ) == (ItemPhaseView::AwaitThreshold, ItemCommandView::CheckThreshold { confidence_bits }),
{
}

proof fn lemma_checks_follow_saves(
    s: ActionSettingsView,
    item: ItemInfoView,
    phase: ItemPhaseView,
    prev: ItemCommandView,
    events: Seq<ItemEventView>,
)
    requires
        recorded_for(phase, prev),
    ensures
        forall|k: int|
            0 <= k < run(s, item, phase, events).len() ==> checks_recorded_confidence(
                #[trigger] run(s, item, phase, events)[k],
                if k == 0 {
                    prev
                } else {
                    run(s, item, phase, events)[k - 1]
                },
            ),
    decreases events.len(),
{
    lemma_run_len(s, item, phase, events);
    if events.len() > 0 {
        let (next, command) = spec_step(s, item, phase, events[0]);
        let rest = run(s, item, next, events.drop_first());
        let all = run(s, item, phase, events);
        lemma_run_len(s, item, next, events.drop_first());
        assert(all == seq![command] + rest);
        assert(checks_recorded_confidence(command, prev));
        assert(recorded_for(next, command));
        lemma_checks_follow_saves(s, item, next, command, events.drop_first());
        assert forall|k: int| 0 <= k < all.len() implies checks_recorded_confidence(
            #[trigger] all[k],
            if k == 0 {
                prev
            } else {
                all[k - 1]
            },
        ) by {
            if k > 0 {
                assert(all[k] == rest[k - 1]);
                if k > 1 {
                    assert(all[k - 1] == rest[k - 2]);
                }
            }
        }
    }
}

/// Whatever is reported back, every threshold check in the handling of an item
/// comes right after the review of the item was recorded as filtered, and asks
/// about exactly the confidence recorded in that review.
pub proof fn threshold_check_uses_recorded_confidence(
    s: ActionSettingsView,
    item: ItemInfoView,
    events: Seq<ItemEventView>,
)
    ensures
        forall|k: int|
            0 <= k < run(s, item, ItemPhaseView::Start, events).len() && (#[trigger] run(
                s,
                item,
                ItemPhaseView::Start,
                events,
            )[k]) is CheckThreshold ==> k > 0 && checks_recorded_confidence(
                run(s, item, ItemPhaseView::Start, events)[k],
                run(s, item, ItemPhaseView::Start, events)[k - 1],
            ),
{
    lemma_checks_follow_saves(s, item, ItemPhaseView::Start, ItemCommandView::Abort, events);
}

} // verus!
