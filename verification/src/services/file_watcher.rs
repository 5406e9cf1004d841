//! The file watcher's decisions. Whoever runs the watcher looks at each
//! watched file on every tick and reports what is there; the functions here
//! say what that means for the target and for the store behind it.

use crate::schemas::{
    no_entities, policy_views, unique_ids, EntitySetView, ParseError, Policy, PolicyView,
};
use crate::services::data::{replace_entities_spec, replace_outcome, validated, EntityStore};
use crate::services::fingerprint::{
    calculate_hash_file, explains, hash_of, FileState, FingerprintError,
};
use crate::services::policies::{
    batch_outcome, replace_all_spec, PolicyStore, PolicyStoreError, PolicyStoreErrorView,
};
use crate::services::shared::{valid_policies, SharedEntityStore, SharedPolicyStore};
use crate::services::validator::{
    all_compile, entity_count, honest_batch_verdict, honest_entities_verdict,
};
use vstd::prelude::*;

verus! {

/// Which store a watched file feeds.
#[derive(Clone, Copy, Debug, PartialEq, Eq, Structural)]
pub enum FileType {
    Data,
    Policy,
}

/// A watched file: the store it feeds, its path, and the fingerprint of the
/// content last seen. A target without a fingerprint is not monitored.
pub struct WatchTarget {
    kind: FileType,
    path: String,
    fingerprint: Option<String>,
}

/// A watch target as contracts see it.
pub struct WatchTargetView {
    pub kind: FileType,
    pub path: Seq<char>,
    pub fingerprint: Option<Seq<char>>,
}

impl View for WatchTarget {
    type V = WatchTargetView;

    closed spec fn view(&self) -> WatchTargetView {
        WatchTargetView {
            kind: self.kind,
            path: self.path@,
            fingerprint: match self.fingerprint {
                Some(text) => Some(text@),
                None => None,
            },
        }
    }
}

/// What one look at a watched file means.
#[derive(Debug, PartialEq, Eq)]
pub enum Observation {
    /// The target is not monitored.
    Excluded,
    /// The file has no fingerprint this time; the target waits for the next
    /// tick.
    Skipped(FingerprintError),
    /// The content is the one last seen.
    Unchanged,
    /// The content is new: the store behind the target is due for a reload.
    Changed,
}

/// A target as it starts out: monitored exactly when its file has a
/// fingerprint at that moment.
pub open spec fn start_spec(kind: FileType, path: Seq<char>, file: FileState) -> WatchTargetView {
    WatchTargetView { kind, path, fingerprint: hash_of(path, file) }
}

impl WatchTarget {
    /// Sets a target up from the first look at its file. A target whose file
    /// has no fingerprint then is excluded for good.
    pub fn new(kind: FileType, path: String, file: &FileState) -> (target: WatchTarget)
        ensures
            target@ == start_spec(kind, path@, *file),
    {
        let fingerprint = match calculate_hash_file(path.as_str(), file) {
            Ok(text) => Some(text),
            Err(_) => None,
        };
        WatchTarget { kind, path, fingerprint }
    }

    /// The store that the target feeds.
    pub fn kind(&self) -> (kind: FileType)
        ensures
            kind == self@.kind,
    {
        self.kind
    }

    /// The path of the watched file.
    pub fn path(&self) -> (path: &str)
        ensures
            path@ == self@.path,
    {
        self.path.as_str()
    }

    /// Whether the target is polled.
    pub fn is_monitored(&self) -> (monitored: bool)
        ensures
            monitored == self@.fingerprint is Some,
    {
        self.fingerprint.is_some()
    }

    /// The fingerprint of the content last seen, if the target is monitored.
    pub fn fingerprint(&self) -> (text: Option<String>)
        ensures
            text is Some == self@.fingerprint is Some,
            text matches Some(text) ==> Some(text@) == self@.fingerprint,
    {
        match &self.fingerprint {
            Some(text) => Some(text.clone()),
            None => None,
        }
    }
}

/// A target after one look at its file: where it is monitored and the file
/// has a fingerprint, it remembers that fingerprint; else it is as before.
pub open spec fn after_look(before: WatchTargetView, file: FileState) -> WatchTargetView {
    if before.fingerprint is Some && hash_of(before.path, file) is Some {
        WatchTargetView {
            kind: before.kind,
            path: before.path,
            fingerprint: hash_of(before.path, file),
        }
    } else {
        before
    }
}

/// Whether `seen` is what one look at `file` means for a target that was
/// `before`.
pub open spec fn describes(seen: Observation, before: WatchTargetView, file: FileState) -> bool {
    match seen {
        Observation::Excluded => before.fingerprint is None,
        Observation::Skipped(error) => before.fingerprint is Some && hash_of(before.path, file)
            is None && explains(error, before.path, file),
        Observation::Unchanged => before.fingerprint is Some && hash_of(before.path, file)
            == before.fingerprint,
        Observation::Changed => before.fingerprint is Some && hash_of(before.path, file) is Some
            && hash_of(before.path, file) != before.fingerprint,
    }
}

/// One look at the file of one target. A target that is not monitored stays
/// so. A file without a fingerprint is passed over and the target keeps what
/// it remembers. New content is remembered at once, whatever a reload will
/// make of it.
pub fn watch_json_file_modify(target: &mut WatchTarget, file: &FileState) -> (seen: Observation)
    ensures
        final(target)@ == after_look(old(target)@, *file),
        describes(seen, old(target)@, *file),
{
    let unchanged = match &target.fingerprint {
        None => {
            return Observation::Excluded;
        },
        Some(remembered) => {
            match calculate_hash_file(target.path.as_str(), file) {
                Err(error) => {
                    return Observation::Skipped(error);
                },
                Ok(text) => {
                    if text == *remembered {
                        None
                    } else {
                        Some(text)
                    }
                },
            }
        },
    };
    match unchanged {
        None => Observation::Unchanged,
        Some(text) => {
            target.fingerprint = Some(text);
            Observation::Changed
        },
    }
}

/// A second look at the same content changes nothing and calls for no
/// reload, whatever became of the first: a file that fails to load is not
/// loaded again until it changes.
pub proof fn lemma_same_content_reloads_once(before: WatchTargetView, file: FileState)
    ensures
        after_look(after_look(before, file), file) == after_look(before, file),
        !describes(Observation::Changed, after_look(before, file), file),
{
}

/// A look at a file never moves a target between monitored and excluded: an
/// excluded target is as it was, and a monitored one stays monitored,
/// whatever is found.
pub proof fn lemma_monitoring_is_for_good(before: WatchTargetView, file: FileState)
    ensures
        after_look(before, file).fingerprint is Some == before.fingerprint is Some,
        before.fingerprint is None ==> after_look(before, file) == before,
        after_look(before, file).kind == before.kind,
        after_look(before, file).path == before.path,
{
}

/// The targets of a watcher as contracts see them.
pub open spec fn target_views(targets: Seq<WatchTarget>) -> Seq<WatchTargetView> {
    targets.map_values(|target: WatchTarget| target@)
}

/// Sets the watcher up from the first look at the data file and at the
/// policy file. The targets come in that order. `None` where neither file
/// has a fingerprint: there is nothing to watch.
pub fn init(
    data_file_path: String,
    policy_file_path: String,
    data_file: &FileState,
    policy_file: &FileState,
) -> (targets: Option<Vec<WatchTarget>>)
    ensures
        targets is Some <==> hash_of(data_file_path@, *data_file) is Some || hash_of(
            policy_file_path@,
            *policy_file,
        ) is Some,
        targets matches Some(list) ==> target_views(list@) == seq![
            start_spec(FileType::Data, data_file_path@, *data_file),
            start_spec(FileType::Policy, policy_file_path@, *policy_file),
        ],
{
    let data = WatchTarget::new(FileType::Data, data_file_path, data_file);
    let policy = WatchTarget::new(FileType::Policy, policy_file_path, policy_file);
    if !data.is_monitored() && !policy.is_monitored() {
        return None;
    }
    let ghost views = seq![data@, policy@];
    let mut list: Vec<WatchTarget> = Vec::new();
    list.push(data);
    list.push(policy);
    assert(target_views(list@) =~= views);
    Some(list)
}

/// Why a reload left its store as it was.
#[derive(Debug, PartialEq, Eq)]
pub enum ReloadError {
    /// The file's content could not be turned into records; holds the
    /// reason.
    Unreadable(String),
    /// The policy store refused the records.
    Policies(PolicyStoreError),
    /// The validator refused the entity document.
    Entities(ParseError),
}

/// A reload error as contracts see it.
pub enum ReloadErrorView {
    Unreadable(Seq<char>),
    Policies(PolicyStoreErrorView),
    Entities(Seq<char>),
}

impl View for ReloadError {
    type V = ReloadErrorView;

    open spec fn view(&self) -> ReloadErrorView {
        match self {
            ReloadError::Unreadable(reason) => ReloadErrorView::Unreadable(reason@),
            ReloadError::Policies(error) => ReloadErrorView::Policies(error@),
            ReloadError::Entities(error) => ReloadErrorView::Entities(error.reason@),
        }
    }
}

/// The outcome of a reload as contracts see it: the number of records or
/// entities installed, or the error.
pub open spec fn reload_outcome(outcome: Result<usize, ReloadError>) -> Result<
    nat,
    ReloadErrorView,
> {
    match outcome {
        Ok(count) => Ok(count as nat),
        Err(error) => Err(error@),
    }
}

/// What was made of a policy file as contracts see it.
pub open spec fn decoded_policies(decoded: Result<Vec<Policy>, String>) -> Result<
    Seq<PolicyView>,
    Seq<char>,
> {
    match decoded {
        Ok(list) => Ok(policy_views(list@)),
        Err(reason) => Err(reason@),
    }
}

/// What was made of a data file as contracts see it.
pub open spec fn decoded_text(decoded: Result<String, String>) -> Result<Seq<char>, Seq<char>> {
    match decoded {
        Ok(document) => Ok(document@),
        Err(reason) => Err(reason@),
    }
}

/// Reloading a policy store that holds `before`. Content that holds no
/// records changes nothing; records go the way of a batch that replaces all.
pub open spec fn reload_policies_spec(
    before: Seq<PolicyView>,
    decoded: Result<Seq<PolicyView>, Seq<char>>,
    verdict: Result<(), (Seq<char>, Seq<char>)>,
) -> (Seq<PolicyView>, Result<nat, ReloadErrorView>) {
    match decoded {
        Err(reason) => (before, Err(ReloadErrorView::Unreadable(reason))),
        Ok(list) => {
            let (after, replaced) = replace_all_spec(before, list, verdict);
            (
                after,
                match replaced {
                    Ok(installed) => Ok(installed.len()),
                    Err(error) => Err(ReloadErrorView::Policies(error)),
                },
            )
        },
    }
}

/// Reloading an entity store that holds `before`. Content that is no text
/// changes nothing; a document goes the way of one that replaces all.
pub open spec fn reload_entities_spec(
    before: EntitySetView,
    decoded: Result<Seq<char>, Seq<char>>,
    verdict: Result<EntitySetView, Seq<char>>,
) -> (EntitySetView, Result<nat, ReloadErrorView>) {
    match decoded {
        Err(reason) => (before, Err(ReloadErrorView::Unreadable(reason))),
        Ok(_) => {
            let (after, replaced) = replace_entities_spec(before, verdict);
            (
                after,
                match replaced {
                    Ok(count) => Ok(count),
                    Err(reason) => Err(ReloadErrorView::Entities(reason)),
                },
            )
        },
    }
}

/// Reloads the policy store from what was made of a changed policy file:
/// the records, or the reason why the content holds none. The store takes
/// the records exactly when all of them compile and no identifier occurs
/// twice; else it is left as it was.
pub fn reload_policies(store: &mut PolicyStore, decoded: Result<Vec<Policy>, String>) -> (outcome:
    Result<usize, ReloadError>)
    ensures
        old(store).wf() ==> final(store).wf(),
        old(store).compiled() ==> final(store).compiled(),
        outcome is Ok <==> (decoded matches Ok(list) && all_compile(list@) && unique_ids(
            policy_views(list@),
        )),
        outcome is Err ==> final(store)@ == old(store)@,
        exists|verdict: Result<(), (Seq<char>, Seq<char>)>|
            {
                &&& decoded matches Ok(list) ==> honest_batch_verdict(list@, verdict)
                &&& (final(store)@, reload_outcome(outcome)) == #[trigger] reload_policies_spec(
                    old(store)@,
                    decoded_policies(decoded),
                    verdict,
                )
            },
{
    match decoded {
        Err(reason) => {
            assert((store@, Err::<nat, ReloadErrorView>(ReloadErrorView::Unreadable(reason@)))
                == reload_policies_spec(
                old(store)@,
                decoded_policies(decoded),
                Ok::<(), (Seq<char>, Seq<char>)>(()),
            ));
            Err(ReloadError::Unreadable(reason))
        },
        Ok(list) => {
            let ghost given = list@;
            let replaced = store.replace_all(list);
            let ghost verdict = choose|verdict: Result<(), (Seq<char>, Seq<char>)>|
                honest_batch_verdict(given, verdict) && (store@, batch_outcome(replaced))
                    == #[trigger] replace_all_spec(old(store)@, policy_views(given), verdict);
            let outcome = match replaced {
                Ok(installed) => {
                    assert(policy_views(installed@).len() == installed@.len());
                    assert(policy_views(given).len() == given.len());
                    Ok(installed.len())
                },
                Err(error) => Err(ReloadError::Policies(error)),
            };
            assert((store@, reload_outcome(outcome)) == reload_policies_spec(
                old(store)@,
                decoded_policies(decoded),
                verdict,
            ));
            outcome
        },
    }
}

/// Reloads the entity store from what was made of a changed data file: its
/// text, or the reason why the content is no text. The store takes the
/// document exactly when the validator lets it through; else it is left as
/// it was.
pub fn reload_entities(store: &mut EntityStore, decoded: Result<String, String>) -> (outcome:
    Result<usize, ReloadError>)
    ensures
        old(store).valid() ==> final(store).valid(),
        outcome is Ok <==> (decoded matches Ok(document) && entity_count(document@) is Some),
        outcome is Err ==> final(store)@ == old(store)@,
        exists|verdict: Result<EntitySetView, Seq<char>>|
            {
                &&& decoded matches Ok(document) ==> honest_entities_verdict(document@, verdict)
                &&& (final(store)@, reload_outcome(outcome)) == #[trigger] reload_entities_spec(
                    old(store)@,
                    decoded_text(decoded),
                    verdict,
                )
            },
{
    match decoded {
        Err(reason) => {
            assert((store@, Err::<nat, ReloadErrorView>(ReloadErrorView::Unreadable(reason@)))
                == reload_entities_spec(
                old(store)@,
                decoded_text(decoded),
                Err::<EntitySetView, Seq<char>>(reason@),
            ));
            Err(ReloadError::Unreadable(reason))
        },
        Ok(document) => {
            let replaced = store.replace_all(document.as_str());
            let ghost verdict = choose|verdict: Result<EntitySetView, Seq<char>>|
                honest_entities_verdict(document@, verdict) && (
                store@,
                replace_outcome(replaced),
            ) == #[trigger] replace_entities_spec(old(store)@, verdict);
            let outcome = match replaced {
                Ok(count) => Ok(count),
                Err(error) => Err(ReloadError::Entities(error)),
            };
            assert((store@, reload_outcome(outcome)) == reload_entities_spec(
                old(store)@,
                decoded_text(decoded),
                verdict,
            ));
            outcome
        },
    }
}

/// Reloads the shared policy store from what was made of a changed policy
/// file. The store takes the records exactly when all of them compile and no
/// identifier occurs twice; what comes back is what `reload_policies` gives
/// on the store as one writer left it.
pub fn reload_shared_policies(
    store: &SharedPolicyStore,
    decoded: Result<Vec<Policy>, String>,
) -> (outcome: Result<usize, ReloadError>)
    ensures
        outcome is Ok <==> (decoded matches Ok(list) && all_compile(list@) && unique_ids(
            policy_views(list@),
        )),
        exists|before: Seq<PolicyView>, verdict: Result<(), (Seq<char>, Seq<char>)>|
            {
                &&& #[trigger] valid_policies(before)
                &&& decoded matches Ok(list) ==> honest_batch_verdict(list@, verdict)
                &&& reload_outcome(outcome) == (#[trigger] reload_policies_spec(
                    before,
                    decoded_policies(decoded),
                    verdict,
                )).1
            },
{
    match decoded {
        Err(reason) => {
            let ghost nothing = Seq::<PolicyView>::empty();
            let ghost fine = Ok::<(), (Seq<char>, Seq<char>)>(());
            assert(valid_policies(nothing));
            assert(Err::<nat, ReloadErrorView>(ReloadErrorView::Unreadable(reason@))
                == reload_policies_spec(nothing, decoded_policies(decoded), fine).1);
            Err(ReloadError::Unreadable(reason))
        },
        Ok(list) => {
            let ghost given = list@;
            let replaced = store.replace_all(list);
            let ghost (before, verdict) = choose|
                before: Seq<PolicyView>,
                verdict: Result<(), (Seq<char>, Seq<char>)>,
            |
                {
                    &&& #[trigger] valid_policies(before)
                    &&& honest_batch_verdict(given, verdict)
                    &&& batch_outcome(replaced) == (
                    #[trigger] replace_all_spec(before, policy_views(given), verdict)).1
                };
            let outcome = match replaced {
                Ok(installed) => {
                    assert(policy_views(installed@).len() == installed@.len());
                    assert(policy_views(given).len() == given.len());
                    Ok(installed.len())
                },
                Err(error) => Err(ReloadError::Policies(error)),
            };
            assert(valid_policies(before) && reload_outcome(outcome) == reload_policies_spec(
                before,
                decoded_policies(decoded),
                verdict,
            ).1);
            outcome
        },
    }
}

/// Reloads the shared entity store from what was made of a changed data
/// file. The store takes the document exactly when the validator lets it
/// through; what comes back is what `reload_entities` gives on the store as
/// one writer left it.
pub fn reload_shared_entities(
    store: &SharedEntityStore,
    decoded: Result<String, String>,
) -> (outcome: Result<usize, ReloadError>)
    ensures
        outcome is Ok <==> (decoded matches Ok(document) && entity_count(document@) is Some),
        exists|before: EntitySetView, verdict: Result<EntitySetView, Seq<char>>|
            {
                &&& #[trigger] validated(before)
                &&& decoded matches Ok(document) ==> honest_entities_verdict(document@, verdict)
                &&& reload_outcome(outcome) == (#[trigger] reload_entities_spec(
                    before,
                    decoded_text(decoded),
                    verdict,
                )).1
            },
{
    match decoded {
        Err(reason) => {
            let ghost nothing = no_entities();
            let ghost refused = Err::<EntitySetView, Seq<char>>(reason@);
            assert(validated(nothing));
            assert(Err::<nat, ReloadErrorView>(ReloadErrorView::Unreadable(reason@))
                == reload_entities_spec(nothing, decoded_text(decoded), refused).1);
            Err(ReloadError::Unreadable(reason))
        },
        Ok(document) => {
            let replaced = store.replace_all(document.as_str());
            let ghost (before, verdict) = choose|
                before: EntitySetView,
                verdict: Result<EntitySetView, Seq<char>>,
            |
                {
                    &&& #[trigger] validated(before)
                    &&& honest_entities_verdict(document@, verdict)
                    &&& replace_outcome(replaced) == (
                    #[trigger] replace_entities_spec(before, verdict)).1
                };
            let outcome = match replaced {
                Ok(count) => Ok(count),
                Err(error) => Err(ReloadError::Entities(error)),
            };
            assert(validated(before) && reload_outcome(outcome) == reload_entities_spec(
                before,
                decoded_text(decoded),
                verdict,
            ).1);
            outcome
        },
    }
}

} // verus!
