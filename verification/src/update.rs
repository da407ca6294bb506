//! Looking for a newer release of the app.

use vstd::prelude::*;

verus! {

/// The course of an update.
#[derive(Clone, Copy, Debug, PartialEq, Eq, Structural)]
pub enum Update {
    /// The updater is to be set up.
    Prepare,
    /// A newer release is to be asked for.
    Check,
    /// The newer release is to be downloaded and installed.
    Install,
    /// The app is to be restarted.
    Restart,
    /// It is over; `end` says why.
    Finished { end: UpdateEnd },
}

/// Why an update went no further.
#[derive(Clone, Copy, Debug, PartialEq, Eq, Structural)]
pub enum UpdateEnd {
    /// The updater could not be set up.
    NoUpdater,
    /// The question for a newer release failed.
    CheckFailed,
    /// There is no newer release.
    UpToDate,
    /// The newer release could not be installed.
    InstallFailed,
}

/// What came of a step.
#[derive(Clone, Copy, Debug, PartialEq, Eq, Structural)]
pub enum UpdateReply {
    /// Whether the updater is set up.
    Prepared(bool),
    /// Whether there is a newer release, where the question did not fail.
    Checked(Option<bool>),
    /// Whether the newer release is installed.
    Installed(bool),
}

impl Update {
    /// The update after `reply`. A reply that is not called for changes nothing.
    pub open spec fn after(self, reply: UpdateReply) -> Self {
        match (self, reply) {
            (Update::Prepare, UpdateReply::Prepared(ok)) => if ok {
                Update::Check
            } else {
                Update::Finished { end: UpdateEnd::NoUpdater }
            },
            (Update::Check, UpdateReply::Checked(found)) => match found {
                Some(true) => Update::Install,
                Some(false) => Update::Finished { end: UpdateEnd::UpToDate },
                None => Update::Finished { end: UpdateEnd::CheckFailed },
            },
            (Update::Install, UpdateReply::Installed(ok)) => if ok {
                Update::Restart
            } else {
                Update::Finished { end: UpdateEnd::InstallFailed }
            },
            _ => self,
        }
    }

    /// The update after all of `replies`.
    pub open spec fn after_all(replies: Seq<UpdateReply>) -> Self
        decreases replies.len(),
    {
        if replies.len() == 0 {
            Update::Prepare
        } else {
            Self::after_all(replies.drop_last()).after(replies.last())
        }
    }

    /// The update before its first step.
    pub fn start() -> (r: Self)
        ensures
            r == Self::after_all(seq![]),
    {
        Update::Prepare
    }

    /// Takes in what came of the step.
    pub fn next(self, reply: UpdateReply) -> (r: Self)
        ensures
            r == self.after(reply),
    {
        match (self, reply) {
            (Update::Prepare, UpdateReply::Prepared(ok)) => if ok {
                Update::Check
            } else {
                Update::Finished { end: UpdateEnd::NoUpdater }
            },
            (Update::Check, UpdateReply::Checked(found)) => match found {
                Some(true) => Update::Install,
                Some(false) => Update::Finished { end: UpdateEnd::UpToDate },
                None => Update::Finished { end: UpdateEnd::CheckFailed },
            },
            (Update::Install, UpdateReply::Installed(ok)) => if ok {
                Update::Restart
            } else {
                Update::Finished { end: UpdateEnd::InstallFailed }
            },
            (update, _) => update,
        }
    }
}

/// The replies that were called for among `replies`, in order.
pub open spec fn answers(replies: Seq<UpdateReply>) -> Seq<UpdateReply>
    decreases replies.len(),
{
    if replies.len() == 0 {
        seq![]
    } else {
        let before = answers(replies.drop_last());
        match (Update::after_all(replies.drop_last()), replies.last()) {
            (Update::Prepare, UpdateReply::Prepared(_))
            | (Update::Check, UpdateReply::Checked(_))
            | (Update::Install, UpdateReply::Installed(_)) => before.push(replies.last()),
            _ => before,
        }
    }
}

/// The answers that lead to `update`.
spec fn leading_to(update: Update) -> Seq<UpdateReply> {
    let ready = UpdateReply::Prepared(true);
    let found = UpdateReply::Checked(Some(true));
    match update {
        Update::Prepare => seq![],
        Update::Check => seq![ready],
        Update::Install => seq![ready, found],
        Update::Restart => seq![ready, found, UpdateReply::Installed(true)],
        Update::Finished { end } => match end {
            UpdateEnd::NoUpdater => seq![UpdateReply::Prepared(false)],
            UpdateEnd::CheckFailed => seq![ready, UpdateReply::Checked(None)],
            UpdateEnd::UpToDate => seq![ready, UpdateReply::Checked(Some(false))],
            UpdateEnd::InstallFailed => seq![ready, found, UpdateReply::Installed(false)],
        },
    }
}

proof fn lemma_answers(replies: Seq<UpdateReply>)
    ensures
        answers(replies) == leading_to(Update::after_all(replies)),
    decreases replies.len(),
{
    if replies.len() > 0 {
        lemma_answers(replies.drop_last());
        assert(answers(replies) =~= leading_to(Update::after_all(replies)));
    }
}

proof fn lemma_one_way(a: Update, b: Update)
    requires
        leading_to(a) == leading_to(b),
    ensures
        a == b,
{
    let (x, y) = (leading_to(a), leading_to(b));
    assert(x.len() == y.len());
    assert(x.len() > 0 ==> x[0] == y[0]);
    assert(x.len() > 1 ==> x[1] == y[1]);
    assert(x.len() > 2 ==> x[2] == y[2]);
}

/// The app is restarted exactly where an updater was set up, a newer release was found and it was
/// installed. A release is to be installed exactly where one was found.
pub proof fn law_restart_after_install(replies: Seq<UpdateReply>)
    ensures
        Update::after_all(replies) is Install <==> answers(replies) == seq![
            UpdateReply::Prepared(true),
            UpdateReply::Checked(Some(true)),
        ],
        Update::after_all(replies) is Restart <==> answers(replies) == seq![
            UpdateReply::Prepared(true),
            UpdateReply::Checked(Some(true)),
            UpdateReply::Installed(true),
        ],
{
    lemma_answers(replies);
    if answers(replies) == leading_to(Update::Install) {
        lemma_one_way(Update::after_all(replies), Update::Install);
    }
    if answers(replies) == leading_to(Update::Restart) {
        lemma_one_way(Update::after_all(replies), Update::Restart);
    }
}

/// An update that goes no further says why: each end comes exactly of the step that failed or found
/// nothing.
pub proof fn law_update_says_why_it_ended(replies: Seq<UpdateReply>, end: UpdateEnd)
    ensures
        Update::after_all(replies) == (Update::Finished { end }) <==> answers(replies) == (
        match end {
            UpdateEnd::NoUpdater => seq![UpdateReply::Prepared(false)],
            UpdateEnd::CheckFailed => seq![UpdateReply::Prepared(true), UpdateReply::Checked(None)],
            UpdateEnd::UpToDate => seq![
                UpdateReply::Prepared(true),
                UpdateReply::Checked(Some(false)),
            ],
            UpdateEnd::InstallFailed => seq![
                UpdateReply::Prepared(true),
                UpdateReply::Checked(Some(true)),
                UpdateReply::Installed(false),
            ],
        }),
{
    lemma_answers(replies);
    if answers(replies) == leading_to(Update::Finished { end }) {
        lemma_one_way(Update::after_all(replies), Update::Finished { end });
    }
}

} // verus!
