use vstd::prelude::*;

use crate::manifest::ManifestItem;

verus! {

/// The aggregate outcome of an installation run.
#[derive(Debug, PartialEq, Eq, Structural, Clone, Copy)]
pub enum AyarlaStatus {
    /// Every item's source was found.
    Okay,
    /// At least one item's source was missing.
    Warn,
}

/// What the filesystem says about one item's paths when its turn comes.
#[derive(Debug, PartialEq, Eq, Structural, Clone, Copy)]
pub struct PathFacts {
    /// `settings_dir / source` exists.
    pub source_exists: bool,
    /// `home / destination` exists.
    pub destination_exists: bool,
    /// `home / destination` is a directory.
    pub destination_is_dir: bool,
    /// The parent directory of `home / destination` exists.
    pub parent_exists: bool,
}

/// What is removed at the destination before linking.
#[derive(Debug, PartialEq, Eq, Structural, Clone, Copy)]
pub enum Removal {
    /// Nothing is there.
    Nothing,
    /// A directory, removed with everything in it.
    Directory,
    /// A single file.
    File,
}

/// What the installer does for one item.
#[derive(Debug, PartialEq, Eq, Structural, Clone, Copy)]
pub enum ItemAction {
    /// The source is missing: nothing is touched and the run becomes `Warn`.
    MissingSource,
    /// The destination exists and is not forced: nothing is touched.
    AlreadyInstalled,
    /// Remove what `removal` names, create the destination's parent directory
    /// with its ancestors if `create_parent`, then create a symbolic link at the
    /// destination to the canonical path of the source.
    Link { removal: Removal, create_parent: bool },
}

/// The action for an item with this `force` flag, given its paths' facts.
pub open spec fn action_of(force: bool, facts: PathFacts) -> ItemAction {
    if !facts.source_exists {
        ItemAction::MissingSource
    } else if facts.destination_exists && !force {
        ItemAction::AlreadyInstalled
    } else {
        ItemAction::Link {
            removal: if !facts.destination_exists {
                Removal::Nothing
            } else if facts.destination_is_dir {
                Removal::Directory
            } else {
                Removal::File
            },
            create_parent: !facts.parent_exists,
        }
    }
}

/// Whether an action changes anything under the home directory.
pub open spec fn mutates(action: ItemAction) -> bool {
    action is Link
}

/// The status after one more item with these facts.
pub open spec fn status_after(status: AyarlaStatus, facts: PathFacts) -> AyarlaStatus {
    if facts.source_exists {
        status
    } else {
        AyarlaStatus::Warn
    }
}

/// The status of a run over items with these facts, item by item from `Okay`.
pub open spec fn run_status(history: Seq<PathFacts>) -> AyarlaStatus
    decreases history.len(),
{
    if history.len() == 0 {
        AyarlaStatus::Okay
    } else {
        status_after(run_status(history.drop_last()), history.last())
    }
}

/// Some item of the run had a missing source.
pub open spec fn some_source_missing(history: Seq<PathFacts>) -> bool {
    exists|i: int| 0 <= i < history.len() && !(#[trigger] history[i]).source_exists
}

/// A run's status is `Warn` exactly when some item's source was missing.
pub proof fn lemma_run_status_warns_on_missing_source(history: Seq<PathFacts>)
    ensures
        (run_status(history) == AyarlaStatus::Warn) == some_source_missing(history),
    decreases history.len(),
{
    if history.len() > 0 {
        let prefix = history.drop_last();
        lemma_run_status_warns_on_missing_source(prefix);
        if some_source_missing(prefix) {
            let i = choose|i: int| 0 <= i < prefix.len() && !(#[trigger] prefix[i]).source_exists;
            assert(history[i] == prefix[i]);
        }
        if some_source_missing(history) && history.last().source_exists {
            let i = choose|i: int| 0 <= i < history.len() && !(#[trigger] history[i]).source_exists;
            assert(i < prefix.len());
            assert(prefix[i] == history[i]);
        }
    }
}

/// A run in which no item's source exists touches nothing under the home
/// directory and ends `Warn`, provided the manifest has at least one item.
pub proof fn lemma_all_sources_missing(items: Seq<ManifestItem>, history: Seq<PathFacts>)
    requires
        items.len() == history.len(),
        history.len() > 0,
        forall|i: int| 0 <= i < history.len() ==> !(#[trigger] history[i]).source_exists,
    ensures
        forall|i: int|
            0 <= i < items.len() ==> action_of((#[trigger] items[i]).force, history[i])
                == ItemAction::MissingSource && !mutates(action_of(items[i].force, history[i])),
        run_status(history) == AyarlaStatus::Warn,
{
    lemma_run_status_warns_on_missing_source(history);
    assert(!history[0].source_exists);
}

/// An item whose source exists and whose destination does not yet exist gets
/// exactly one new symbolic link at the destination, with nothing removed.
pub proof fn lemma_fresh_destination_is_linked(item: ManifestItem, facts: PathFacts)
    requires
        facts.source_exists,
        !facts.destination_exists,
    ensures
        action_of(item.force, facts) == (ItemAction::Link {
            removal: Removal::Nothing,
            create_parent: !facts.parent_exists,
        }),
{
}

/// Running again over items without `force` whose destinations now exist
/// changes nothing: each item is either already installed or has a missing
/// source, and no step can fail.
pub proof fn lemma_rerun_without_force_changes_nothing(items: Seq<ManifestItem>, second: Seq<PathFacts>)
    requires
        items.len() == second.len(),
        forall|i: int| 0 <= i < items.len() ==> !(#[trigger] items[i]).force,
        forall|i: int|
            0 <= i < second.len() && (#[trigger] second[i]).source_exists
                ==> second[i].destination_exists,
    ensures
        forall|i: int|
            0 <= i < items.len() ==> !mutates(action_of((#[trigger] items[i]).force, second[i])),
        forall|i: int|
            0 <= i < items.len() && (#[trigger] second[i]).source_exists ==> action_of(
                items[i].force,
                second[i],
            ) == ItemAction::AlreadyInstalled,
{
}

/// A forced item whose destination is an existing directory has that
/// directory removed with everything in it, then replaced by a symbolic link.
pub proof fn lemma_forced_directory_is_replaced(item: ManifestItem, facts: PathFacts)
    requires
        item.force,
        facts.source_exists,
        facts.destination_exists,
        facts.destination_is_dir,
    ensures
        action_of(item.force, facts) == (ItemAction::Link {
            removal: Removal::Directory,
            create_parent: !facts.parent_exists,
        }),
{
}

/// The installer's state during a run: the items seen so far and the status.
pub struct Installation {
    pub status: AyarlaStatus,
    pub history: Ghost<Seq<PathFacts>>,
}

impl Installation {
    /// The state holds the status of the items seen so far.
    pub open spec fn wf(&self) -> bool {
        self.status == run_status(self.history@)
    }

    /// A run that has seen no item yet.
    pub fn new() -> (r: Installation)
        ensures
            r.wf(),
            r.history@ == Seq::<PathFacts>::empty(),
            r.status == AyarlaStatus::Okay,
    {
        Installation { status: AyarlaStatus::Okay, history: Ghost(Seq::empty()) }
    }

    /// Decides what to do for the next item, given its paths' facts, and
    /// records it: a missing source makes the run `Warn`; an existing
    /// destination is left alone unless the item is forced, in which case it
    /// is removed (recursively if a directory); otherwise the source is linked.
    pub fn step(&mut self, item: &ManifestItem, facts: PathFacts) -> (action: ItemAction)
        requires
            old(self).wf(),
        ensures
            final(self).wf(),
            final(self).history@ == old(self).history@.push(facts),
            final(self).status == status_after(old(self).status, facts),
            action == action_of(item.force, facts),
    {
        proof {
            assert(self.history@.push(facts).drop_last() =~= self.history@);
        }
        self.history = Ghost(self.history@.push(facts));
        if !facts.source_exists {
            self.status = AyarlaStatus::Warn;
            return ItemAction::MissingSource;
        }
        if facts.destination_exists && !item.force {
            return ItemAction::AlreadyInstalled;
        }
        let removal = if !facts.destination_exists {
            Removal::Nothing
        } else if facts.destination_is_dir {
            Removal::Directory
        } else {
            Removal::File
        };
        ItemAction::Link { removal, create_parent: !facts.parent_exists }
    }

    /// The run's status: `Warn` exactly when some item's source was missing.
    pub fn status(&self) -> (r: AyarlaStatus)
        requires
            self.wf(),
        ensures
            r == run_status(self.history@),
            (r == AyarlaStatus::Warn) == some_source_missing(self.history@),
    {
        proof {
            lemma_run_status_warns_on_missing_source(self.history@);
        }
        self.status
    }
}

} // verus!
